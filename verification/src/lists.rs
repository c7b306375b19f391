//! Lists without repetition, and how often a value occurs in a list.

use vstd::prelude::*;

use crate::text::{same, views};

verus! {

/// The values of a list, each where it occurs first.
pub open spec fn distinct<A>(s: Seq<A>) -> Seq<A>
    decreases s.len(),
{
    if s.len() == 0 {
        Seq::empty()
    } else {
        let earlier = distinct(s.drop_last());
        if earlier.contains(s.last()) {
            earlier
        } else {
            earlier.push(s.last())
        }
    }
}

/// How often a value occurs in a list.
pub open spec fn occurrences<A>(s: Seq<A>, value: A) -> nat
    decreases s.len(),
{
    if s.len() == 0 {
        0
    } else {
        occurrences(s.drop_last(), value) + if s.last() == value {
            1nat
        } else {
            0
        }
    }
}

/// The distinct values of a list are its values, each once.
pub proof fn law_distinct<A>(s: Seq<A>)
    ensures
        distinct(s).no_duplicates(),
        distinct(s).len() <= s.len(),
        forall|x: A| #[trigger] distinct(s).contains(x) <==> s.contains(x),
    decreases s.len(),
{
    if s.len() > 0 {
        let front = s.drop_last();
        let earlier = distinct(front);
        law_distinct(front);
        assert forall|x: A| #[trigger] distinct(s).contains(x) <==> s.contains(x) by {
            if s.contains(x) {
                let i = choose|i: int| 0 <= i < s.len() && s[i] == x;
                if i < front.len() {
                    assert(front[i] == x);
                    assert(earlier.contains(x));
                    let j = choose|j: int| 0 <= j < earlier.len() && earlier[j] == x;
                    assert(distinct(s)[j] == x);
                } else if !earlier.contains(x) {
                    assert(distinct(s)[earlier.len() as int] == x);
                }
            }
            if distinct(s).contains(x) {
                let j = choose|j: int| 0 <= j < distinct(s).len() && distinct(s)[j] == x;
                if j < earlier.len() {
                    assert(earlier[j] == x);
                    assert(earlier.contains(x));
                    let i = choose|i: int| 0 <= i < front.len() && front[i] == x;
                    assert(s[i] == x);
                } else {
                    assert(s[s.len() - 1] == x);
                }
            }
        }
    }
}

/// A value occurs at most as often as the list is long, and at least once if it is in it.
pub proof fn lemma_occurrences<A>(s: Seq<A>, value: A)
    ensures
        occurrences(s, value) <= s.len(),
        s.contains(value) <==> occurrences(s, value) > 0,
    decreases s.len(),
{
    if s.len() > 0 {
        let front = s.drop_last();
        lemma_occurrences(front, value);
        if s.contains(value) && s.last() != value {
            let i = choose|i: int| 0 <= i < s.len() && s[i] == value;
            assert(front[i] == value);
        }
        if front.contains(value) {
            let i = choose|i: int| 0 <= i < front.len() && front[i] == value;
            assert(s[i] == value);
        }
        if s.last() == value {
            assert(s[s.len() - 1] == value);
        }
    }
}

/// The place of a text in a list, if it is there.
pub fn position_of(list: &Vec<String>, text: &str) -> (r: Option<usize>)
    ensures
        match r {
            Some(i) => i < list@.len() && list@[i as int]@ == text@,
            None => true,
        },
        r is Some <==> views(list@).contains(text@),
{
    let mut i: usize = 0;
    while i < list.len()
        invariant
            i <= list@.len(),
            forall|k: int| 0 <= k < i ==> (#[trigger] list@[k])@ != text@,
        decreases list@.len() - i,
    {
        if same(list[i].as_str(), text) {
            assert(views(list@)[i as int] == text@);
            return Some(i);
        }
        i += 1;
    }
    proof {
        assert forall|k: int| 0 <= k < views(list@).len() implies views(list@)[k] != text@ by {
            assert(list@[k]@ != text@);
        }
    }
    None
}

/// Adds a text to a list of distinct texts, if it is not in it.
pub fn add_distinct(list: &mut Vec<String>, text: &str)
    ensures
        views(final(list)@) == if views(old(list)@).contains(text@) {
            views(old(list)@)
        } else {
            views(old(list)@).push(text@)
        },
{
    let ghost start = views(list@);
    match position_of(list, text) {
        Some(_) => {},
        None => {
            list.push(text.to_owned());
            assert(views(list@) =~= start.push(text@));
        },
    }
}

/// Values keep the order in which they occur first: what a longer list has more of comes
/// behind the distinct values of the shorter one.
pub proof fn law_distinct_order<A>(a: Seq<A>, b: Seq<A>)
    ensures
        distinct(a).is_prefix_of(distinct(a + b)),
    decreases b.len(),
{
    if b.len() == 0 {
        assert(a + b =~= a);
    } else {
        law_distinct_order(a, b.drop_last());
        assert((a + b).drop_last() =~= a + b.drop_last());
    }
}

/// Occurrences are counted one by one.
pub proof fn law_occurrences<A>(a: Seq<A>, b: Seq<A>, value: A)
    ensures
        occurrences(a + b, value) == occurrences(a, value) + occurrences(b, value),
        occurrences(seq![value], value) == 1,
    decreases b.len(),
{
    let one = seq![value];
    assert(one.drop_last() =~= Seq::<A>::empty());
    assert(occurrences(one.drop_last(), value) == 0);
    assert(one.last() == value);
    if b.len() == 0 {
        assert(a + b =~= a);
    } else {
        law_occurrences(a, b.drop_last(), value);
        assert((a + b).drop_last() =~= a + b.drop_last());
        assert((a + b).last() == b.last());
    }
}

} // verus!
