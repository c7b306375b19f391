//! Lists in ascending order.

use vstd::prelude::*;

use crate::text::{chars_of, text_less, views};

verus! {

/// The order of texts is decided by the first character in which they differ.
pub proof fn lemma_less_at(a: Seq<char>, b: Seq<char>, k: int)
    requires
        0 <= k <= a.len(),
        k < b.len(),
        forall|i: int| 0 <= i < k ==> a[i] == b[i],
        k == a.len() || a[k] < b[k],
    ensures
        text_less(a, b),
    decreases k,
{
    if k > 0 {
        assert(a[0] == b[0]);
        assert forall|i: int| 0 <= i < k - 1 implies a.skip(1)[i] == b.skip(1)[i] by {
            assert(a[i + 1] == b[i + 1]);
        }
        lemma_less_at(a.skip(1), b.skip(1), k - 1);
    }
}

/// No text stands before itself, and of two texts not both stand before the other.
pub proof fn lemma_less_asymmetric(a: Seq<char>, b: Seq<char>)
    requires
        text_less(a, b),
    ensures
        !text_less(b, a),
    decreases a.len(),
{
    if a.len() > 0 && b.len() > 0 && a[0] == b[0] {
        lemma_less_asymmetric(a.skip(1), b.skip(1));
    }
}

/// The order of texts can be chained.
pub proof fn lemma_less_transitive(a: Seq<char>, b: Seq<char>, c: Seq<char>)
    requires
        text_less(a, b),
        text_less(b, c),
    ensures
        text_less(a, c),
    decreases a.len(),
{
    if a.len() > 0 && b.len() > 0 && c.len() > 0 && a[0] == b[0] && b[0] == c[0] {
        lemma_less_transitive(a.skip(1), b.skip(1), c.skip(1));
    }
}

/// Of two different texts one stands before the other.
pub proof fn lemma_less_total(a: Seq<char>, b: Seq<char>)
    requires
        a != b,
    ensures
        text_less(a, b) || text_less(b, a),
    decreases a.len(),
{
    if a.len() > 0 && b.len() > 0 && a[0] == b[0] {
        if a.skip(1) == b.skip(1) {
            assert(a =~= seq![a[0]] + a.skip(1));
            assert(b =~= seq![b[0]] + b.skip(1));
        }
        lemma_less_total(a.skip(1), b.skip(1));
    } else if a.len() == 0 && b.len() == 0 {
        assert(a =~= b);
    }
}

/// The texts of a list ascend, each once.
pub open spec fn ascending(s: Seq<Seq<char>>) -> bool {
    forall|i: int, j: int| 0 <= i < j < s.len() ==> text_less(#[trigger] s[i], #[trigger] s[j])
}

/// Two lists have the same texts.
pub open spec fn same_texts(s: Seq<Seq<char>>, t: Seq<Seq<char>>) -> bool {
    forall|x: Seq<char>| #[trigger] s.contains(x) <==> t.contains(x)
}

/// There is but one ascending list of given texts.
pub proof fn law_ascending_unique(s: Seq<Seq<char>>, t: Seq<Seq<char>>)
    requires
        ascending(s),
        ascending(t),
        same_texts(s, t),
    ensures
        s == t,
    decreases s.len(),
{
    if s.len() == 0 || t.len() == 0 {
        if s.len() > 0 {
            assert(s.contains(s[0]));
            assert(t.contains(s[0]));
        }
        if t.len() > 0 {
            assert(t.contains(t[0]));
            assert(s.contains(t[0]));
        }
        assert(s =~= t);
    } else {
        let a = s.last();
        let b = t.last();
        assert(s.contains(a) && t.contains(b));
        assert(t.contains(a) && s.contains(b));
        let i = choose|i: int| 0 <= i < t.len() && t[i] == a;
        let j = choose|j: int| 0 <= j < s.len() && s[j] == b;
        if a != b {
            assert(text_less(t[i], t[t.len() - 1]));
            assert(text_less(s[j], s[s.len() - 1]));
            lemma_less_asymmetric(a, b);
        }
        let s1 = s.drop_last();
        let t1 = t.drop_last();
        assert forall|x: Seq<char>| #[trigger] s1.contains(x) <==> t1.contains(x) by {
            lemma_front(s, x);
            lemma_front(t, x);
        }
        law_ascending_unique(s1, t1);
        assert(s =~= s1.push(a));
        assert(t =~= t1.push(b));
    }
}

proof fn lemma_front(s: Seq<Seq<char>>, x: Seq<char>)
    requires
        ascending(s),
        s.len() > 0,
    ensures
        s.drop_last().contains(x) <==> s.contains(x) && x != s.last(),
{
    let front = s.drop_last();
    if front.contains(x) {
        let i = choose|i: int| 0 <= i < front.len() && front[i] == x;
        assert(s[i] == x);
        assert(text_less(s[i], s[s.len() - 1]));
        if x == s.last() {
            lemma_less_asymmetric(x, x);
        }
    }
    if s.contains(x) && x != s.last() {
        let i = choose|i: int| 0 <= i < s.len() && s[i] == x;
        assert(front[i] == x);
    }
}

/// Whether a text stands before another.
pub fn less(a: &str, b: &str) -> (r: bool)
    ensures
        r == text_less(a@, b@),
{
    let x = chars_of(a);
    let y = chars_of(b);
    let mut i: usize = 0;
    while i < x.len() && i < y.len()
        invariant
            i <= x@.len(),
            i <= y@.len(),
            x@ == a@,
            y@ == b@,
            forall|k: int| 0 <= k < i ==> x@[k] == y@[k],
        decreases x@.len() - i,
    {
        if x[i] < y[i] {
            proof {
                lemma_less_at(a@, b@, i as int);
            }
            return true;
        }
        if x[i] > y[i] {
            proof {
                lemma_less_at(b@, a@, i as int);
                lemma_less_asymmetric(b@, a@);
            }
            return false;
        }
        i += 1;
    }
    proof {
        if i < y@.len() {
            lemma_less_at(a@, b@, i as int);
        } else if i < x@.len() {
            lemma_less_at(b@, a@, i as int);
            lemma_less_asymmetric(b@, a@);
        } else {
            assert(a@ =~= b@);
            if text_less(a@, b@) {
                lemma_less_asymmetric(a@, b@);
            }
        }
    }
    i < y.len()
}

/// Puts a text into an ascending list, unless it is in it.
fn insert(list: &mut Vec<String>, text: String)
    requires
        ascending(views(old(list)@)),
    ensures
        ascending(views(final(list)@)),
        forall|x: Seq<char>| #[trigger]
            views(final(list)@).contains(x) <==> views(old(list)@).contains(x) || x == text@,
{
    let ghost start = views(list@);
    let mut i: usize = 0;
    while i < list.len() && less(list[i].as_str(), text.as_str())
        invariant
            i <= list@.len(),
            views(list@) == start,
            forall|k: int| 0 <= k < i ==> text_less(#[trigger] start[k], text@),
        decreases list@.len() - i,
    {
        assert(start[i as int] == list@[i as int]@);
        i += 1;
    }
    if i < list.len() && !less(text.as_str(), list[i].as_str()) {
        proof {
            assert(start[i as int] == list@[i as int]@);
            if start[i as int] != text@ {
                lemma_less_total(start[i as int], text@);
            }
            assert(start.contains(text@));
        }
        return;
    }
    proof {
        if i < start.len() {
            assert(start[i as int] == list@[i as int]@);
        }
    }
    list.insert(i, text);
    proof {
        let now = views(list@);
        assert(now =~= start.insert(i as int, text@));
        assert forall|j: int, k: int| 0 <= j < k < now.len() implies text_less(
            #[trigger] now[j],
            #[trigger] now[k],
        ) by {
            if j < i && k == i {
                assert(now[j] == start[j]);
            } else if j == i {
                assert(now[k] == start[k - 1]);
                if k - 1 > i {
                    assert(text_less(start[i as int], start[k - 1]));
                    lemma_less_transitive(text@, start[i as int], start[k - 1]);
                }
            } else if j > i {
                assert(now[j] == start[j - 1] && now[k] == start[k - 1]);
            } else if k < i {
                assert(now[j] == start[j] && now[k] == start[k]);
            } else {
                assert(now[j] == start[j] && now[k] == start[k - 1]);
            }
        }
        assert forall|x: Seq<char>| #[trigger] now.contains(x) <==> start.contains(x) || x
            == text@ by {
            if now.contains(x) {
                let j = choose|j: int| 0 <= j < now.len() && now[j] == x;
                if j < i {
                    assert(start[j] == x);
                } else if j > i {
                    assert(start[j - 1] == x);
                }
            }
            if start.contains(x) {
                let j = choose|j: int| 0 <= j < start.len() && start[j] == x;
                if j < i {
                    assert(now[j] == x);
                } else {
                    assert(now[j + 1] == x);
                }
            }
            assert(now[i as int] == text@);
        }
    }
}

/// The texts of a list in ascending order, each once.
pub fn sort_distinct(list: &Vec<String>) -> (r: Vec<String>)
    ensures
        ascending(views(r@)),
        same_texts(views(r@), views(list@)),
{
    let mut out: Vec<String> = Vec::new();
    let ghost all = views(list@);
    let mut i: usize = 0;
    while i < list.len()
        invariant
            i <= list@.len(),
            all == views(list@),
            ascending(views(out@)),
            same_texts(views(out@), all.take(i as int)),
        decreases list@.len() - i,
    {
        let ghost before = all.take(i as int);
        let ghost done = views(out@);
        insert(&mut out, list[i].clone());
        proof {
            let next = all.take(i + 1);
            assert(next =~= before.push(all[i as int]));
            assert forall|x: Seq<char>| #[trigger] views(out@).contains(x) <==> next.contains(
                x,
            ) by {
                assert(done.contains(x) <==> before.contains(x));
                if before.contains(x) {
                    let k = choose|k: int| 0 <= k < before.len() && before[k] == x;
                    assert(next[k] == x);
                }
                if next.contains(x) {
                    let k = choose|k: int| 0 <= k < next.len() && next[k] == x;
                    if k < i {
                        assert(before[k] == x);
                    }
                }
                assert(next[i as int] == all[i as int]);
            }
        }
        i += 1;
    }
    assert(all.take(i as int) =~= all);
    out
}

} // verus!
