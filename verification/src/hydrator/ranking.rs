//! Ranking code by relevance.

use vstd::prelude::*;

use crate::hydrator::{item_views, CodeContextItem, CodeItemView};
use crate::text::same;

verus! {

/// A list of places names each place below `n` once.
pub open spec fn is_permutation(p: Seq<int>, n: nat) -> bool {
    &&& p.len() == n
    &&& forall|i: int| 0 <= i < n ==> 0 <= #[trigger] p[i] < n
    &&& forall|i: int, j: int| 0 <= i < j < n ==> #[trigger] p[i] != #[trigger] p[j]
    &&& forall|v: int| 0 <= v < n ==> #[trigger] p.contains(v)
}

/// An item stands before another in a ranking: it is more relevant, or as relevant and
/// came first.
pub open spec fn precedes(items: Seq<CodeItemView>, a: int, b: int) -> bool {
    ||| items[b].relevance.below(items[a].relevance)
    ||| !items[a].relevance.below(items[b].relevance) && a < b
}

/// The places follow the ranking.
pub open spec fn is_ranked(items: Seq<CodeItemView>, p: Seq<int>) -> bool {
    forall|i: int, j: int| 0 <= i < j < p.len() ==> precedes(items, #[trigger] p[i], #[trigger] p[j])
}

/// Each item has a relevance that is a number.
pub open spec fn all_numbers(items: Seq<CodeItemView>) -> bool {
    forall|i: int| 0 <= i < items.len() ==> !(#[trigger] items[i]).relevance.is_nan()
}

/// The items at places.
pub open spec fn picked(items: Seq<CodeItemView>, p: Seq<int>) -> Seq<CodeItemView> {
    Seq::new(p.len(), |i: int| items[p[i]])
}

/// Some of the items has the path.
pub open spec fn has_path(items: Seq<CodeItemView>, path: Seq<char>) -> bool {
    exists|i: int| 0 <= i < items.len() && (#[trigger] items[i]).file_path == path
}

/// Items without those that follow, near or far, one of the same path.
pub open spec fn without_repeats(items: Seq<CodeItemView>) -> Seq<CodeItemView>
    decreases items.len(),
{
    if items.len() == 0 {
        Seq::empty()
    } else {
        let earlier = without_repeats(items.drop_last());
        if has_path(earlier, items.last().file_path) {
            earlier
        } else {
            earlier.push(items.last())
        }
    }
}

/// No two of the items have one path.
pub open spec fn distinct_paths(items: Seq<CodeItemView>) -> bool {
    forall|i: int, j: int|
        0 <= i < j < items.len() ==> (#[trigger] items[i]).file_path != (
        #[trigger] items[j]).file_path
}

/// A list is made of items by ranking them and leaving out each that follows one of the same
/// path. Where some relevance is not a number, their order is left open.
pub open spec fn is_ranking_of(ranking: Seq<CodeItemView>, items: Seq<CodeItemView>) -> bool {
    exists|p: Seq<int>| #[trigger]
        is_permutation(p, items.len()) && (all_numbers(items) ==> is_ranked(items, p)) && ranking
            == without_repeats(picked(items, p))
}

proof fn lemma_insert_place(items: Seq<CodeItemView>, p: Seq<int>, k: int)
    requires
        is_permutation(p, (items.len() - 1) as nat),
        items.len() > 0,
        0 <= k <= p.len(),
        all_numbers(items) ==> is_ranked(items, p),
        forall|j: int|
            0 <= j < k ==> !(items[#[trigger] p[j]].relevance.below(items.last().relevance)),
        k < p.len() ==> items[p[k]].relevance.below(items.last().relevance),
    ensures
        is_permutation(p.insert(k, items.len() - 1), items.len()),
        all_numbers(items) ==> is_ranked(items, p.insert(k, items.len() - 1)),
{
    let last = items.len() - 1;
    let q = p.insert(k, last);
    assert forall|v: int| 0 <= v < items.len() implies #[trigger] q.contains(v) by {
        if v == last {
            assert(q[k] == v);
        } else {
            assert(p.contains(v));
            let i = choose|i: int| 0 <= i < p.len() && p[i] == v;
            if i < k {
                assert(q[i] == v);
            } else {
                assert(q[i + 1] == v);
            }
        }
    }
    assert forall|i: int| 0 <= i < q.len() implies 0 <= #[trigger] q[i] < items.len() by {
        if i < k {
            assert(q[i] == p[i]);
        } else if i > k {
            assert(q[i] == p[i - 1]);
        }
    }
    assert forall|i: int, j: int| 0 <= i < j < q.len() implies #[trigger] q[i]
        != #[trigger] q[j] by {
        let a = if i < k { i } else { i - 1 };
        let b = if j < k { j } else { j - 1 };
        if i != k {
            assert(q[i] == p[a]);
        }
        if j != k {
            assert(q[j] == p[b]);
        }
    }
    if all_numbers(items) {
        assert forall|i: int, j: int| 0 <= i < j < q.len() implies precedes(
            items,
            #[trigger] q[i],
            #[trigger] q[j],
        ) by {
            if j < k {
                assert(q[i] == p[i] && q[j] == p[j]);
            } else if j == k {
                assert(q[i] == p[i]);
            } else if i > k {
                assert(q[i] == p[i - 1] && q[j] == p[j - 1]);
            } else if i < k {
                assert(q[i] == p[i] && q[j] == p[j - 1]);
            } else {
                assert(q[j] == p[j - 1]);
                if j - 1 > k {
                    assert(precedes(items, p[k], p[j - 1]));
                }
            }
        }
    }
}

fn sorted(items: &Vec<CodeContextItem>) -> (r: (Vec<CodeContextItem>, Ghost<Seq<int>>))
    ensures
        is_permutation(r.1@, items@.len()),
        all_numbers(item_views(items@)) ==> is_ranked(item_views(items@), r.1@),
        item_views(r.0@) == picked(item_views(items@), r.1@),
{
    let ghost all = item_views(items@);
    let mut out: Vec<CodeContextItem> = Vec::new();
    let ghost mut p: Seq<int> = Seq::empty();
    let mut i: usize = 0;
    assert(item_views(out@) =~= picked(all, p));
    while i < items.len()
        invariant
            i <= items@.len(),
            all == item_views(items@),
            is_permutation(p, i as nat),
            all_numbers(all.take(i as int)) ==> is_ranked(all.take(i as int), p),
            item_views(out@) == picked(all, p),
        decreases items@.len() - i,
    {
        let item = items[i].copy();
        let ghost done = item_views(out@);
        let ghost next = all.take(i + 1);
        let mut k: usize = 0;
        assert(done.len() == picked(all, p).len());
        while k < out.len() && !out[k].relevance.less_than(&item.relevance)
            invariant
                k <= out@.len(),
                out@.len() == p.len(),
                item_views(out@) == picked(all, p),
                all.len() > i,
                item@ == all[i as int],
                forall|j: int|
                    0 <= j < k ==> !(all[#[trigger] p[j]].relevance.below(item@.relevance)),
            decreases out@.len() - k,
        {
            assert(item_views(out@)[k as int] == out@[k as int]@);
            assert(picked(all, p)[k as int] == all[p[k as int]]);
            k += 1;
        }
        proof {
            if k < p.len() {
                assert(item_views(out@)[k as int] == out@[k as int]@);
                assert(picked(all, p)[k as int] == all[p[k as int]]);
            }
            assert(all_numbers(next) ==> all_numbers(all.take(i as int))) by {
                assert forall|j: int| 0 <= j < i && all_numbers(next) implies !(
                #[trigger] all.take(i as int)[j]).relevance.is_nan() by {
                    assert(!next[j].relevance.is_nan());
                }
            }
            if all_numbers(next) {
                assert forall|a: int, b: int| 0 <= a < b < p.len() implies precedes(
                    next,
                    #[trigger] p[a],
                    #[trigger] p[b],
                ) by {
                    assert(precedes(all.take(i as int), p[a], p[b]));
                }
            }
            assert(next.last() == all[i as int]);
            lemma_insert_place(next, p, k as int);
        }
        out.insert(k, item);
        proof {
            let q = p.insert(k as int, i as int);
            assert(item_views(out@) =~= done.insert(k as int, item@));
            assert(picked(all, q) =~= picked(all, p).insert(k as int, all[i as int]));
            p = q;
        }
        i += 1;
    }
    assert(all.take(i as int) =~= all);
    (out, Ghost(p))
}

fn contains_path(items: &Vec<CodeContextItem>, path: &str) -> (r: bool)
    ensures
        r == has_path(item_views(items@), path@),
{
    let ghost all = item_views(items@);
    let mut i: usize = 0;
    while i < items.len()
        invariant
            i <= items@.len(),
            all == item_views(items@),
            forall|k: int| 0 <= k < i ==> (#[trigger] all[k]).file_path != path@,
        decreases items@.len() - i,
    {
        assert(all[i as int] == items@[i as int]@);
        if same(items[i].file_path.as_str(), path) {
            return true;
        }
        i += 1;
    }
    false
}

fn drop_repeats(items: &Vec<CodeContextItem>) -> (r: Vec<CodeContextItem>)
    ensures
        item_views(r@) == without_repeats(item_views(items@)),
{
    let ghost all = item_views(items@);
    let mut out: Vec<CodeContextItem> = Vec::new();
    let mut i: usize = 0;
    assert(item_views(out@) =~= without_repeats(all.take(0)));
    while i < items.len()
        invariant
            i <= items@.len(),
            all == item_views(items@),
            item_views(out@) == without_repeats(all.take(i as int)),
        decreases items@.len() - i,
    {
        let ghost done = item_views(out@);
        proof {
            assert(all.take(i + 1).drop_last() =~= all.take(i as int));
            assert(all[i as int] == items@[i as int]@);
        }
        if !contains_path(&out, items[i].file_path.as_str()) {
            let item = items[i].copy();
            out.push(item);
            assert(item_views(out@) =~= done.push(item@));
        }
        i += 1;
    }
    assert(all.take(i as int) =~= all);
    out
}

/// Ranks items by relevance, the most relevant first, and leaves out every item whose path a
/// higher one has.
pub fn rank(items: &Vec<CodeContextItem>) -> (r: Vec<CodeContextItem>)
    ensures
        is_ranking_of(item_views(r@), item_views(items@)),
        forall|i: int, j: int|
            0 <= i < j < r@.len() ==> (#[trigger] r@[i]).file_path@ != (
            #[trigger] r@[j]).file_path@,
{
    let (order, Ghost(p)) = sorted(items);
    let out = drop_repeats(&order);
    proof {
        assert(is_permutation(p, item_views(items@).len()));
        law_no_repeats(item_views(order@));
        assert forall|i: int, j: int| 0 <= i < j < out@.len() implies (
        #[trigger] out@[i]).file_path@ != (#[trigger] out@[j]).file_path@ by {
            let seen = item_views(out@);
            assert(seen[i].file_path == out@[i].file_path@);
            assert(seen[j].file_path == out@[j].file_path@);
        }
    }
    out
}

// ---------------------------------------------------------------------------
// Laws
// ---------------------------------------------------------------------------

/// Where each relevance is a number, there is but one ranking of items.
pub proof fn law_one_ranking(items: Seq<CodeItemView>, a: Seq<CodeItemView>, b: Seq<CodeItemView>)
    requires
        all_numbers(items),
        is_ranking_of(a, items),
        is_ranking_of(b, items),
    ensures
        a == b,
{
    let p = choose|p: Seq<int>| #[trigger]
        is_permutation(p, items.len()) && (all_numbers(items) ==> is_ranked(items, p)) && a
            == without_repeats(picked(items, p));
    let q = choose|q: Seq<int>| #[trigger]
        is_permutation(q, items.len()) && (all_numbers(items) ==> is_ranked(items, q)) && b
            == without_repeats(picked(items, q));
    lemma_same_places(items, p, q, items.len() as int);
    assert(p =~= q);
}

proof fn lemma_same_places(items: Seq<CodeItemView>, p: Seq<int>, q: Seq<int>, n: int)
    requires
        all_numbers(items),
        is_permutation(p, items.len()),
        is_permutation(q, items.len()),
        is_ranked(items, p),
        is_ranked(items, q),
        0 <= n <= items.len(),
    ensures
        forall|i: int| 0 <= i < n ==> p[i] == q[i],
    decreases n,
{
    if n > 0 {
        let k = n - 1;
        lemma_same_places(items, p, q, k);
        if p[k] != q[k] {
            assert(q.contains(p[k]));
            let j = choose|j: int| 0 <= j < q.len() && q[j] == p[k];
            if j < k {
                assert(p[j] == q[j]);
            }
            assert(precedes(items, q[k], q[j]));
            assert(p.contains(q[k]));
            let i = choose|i: int| 0 <= i < p.len() && p[i] == q[k];
            if i < k {
                assert(p[i] == q[i]);
            }
            assert(precedes(items, p[k], p[i]));
        }
    }
}

/// An item is the first of its path in a list.
pub open spec fn is_first_of_path(items: Seq<CodeItemView>, item: CodeItemView, at: int) -> bool {
    &&& 0 <= at < items.len()
    &&& items[at] == item
    &&& forall|k: int| 0 <= k < at ==> (#[trigger] items[k]).file_path != item.file_path
}

/// An item is the first of its path somewhere in a list.
pub open spec fn is_first(items: Seq<CodeItemView>, item: CodeItemView) -> bool {
    exists|at: int| #[trigger] is_first_of_path(items, item, at)
}

/// Of items in ranked order no two that are kept have one path, no path is lost, and what is
/// kept for a path is the first item that has it.
pub proof fn law_no_repeats(items: Seq<CodeItemView>)
    ensures
        distinct_paths(without_repeats(items)),
        forall|i: int|
            0 <= i < without_repeats(items).len() ==> is_first(
                items,
                #[trigger] without_repeats(items)[i],
            ),
        forall|k: int|
            0 <= k < items.len() ==> has_path(
                without_repeats(items),
                (#[trigger] items[k]).file_path,
            ),
    decreases items.len(),
{
    if items.len() > 0 {
        let front = items.drop_last();
        let last = items.last();
        let earlier = without_repeats(front);
        let all = without_repeats(items);
        law_no_repeats(front);
        assert forall|i: int| 0 <= i < all.len() implies is_first(items, #[trigger] all[i]) by {
            if i < earlier.len() {
                assert(all[i] == earlier[i]);
                let at = choose|at: int| #[trigger] is_first_of_path(front, earlier[i], at);
                assert forall|k: int| 0 <= k < at implies (#[trigger] items[k]).file_path
                    != all[i].file_path by {
                    assert(items[k] == front[k]);
                }
                assert(items[at] == front[at]);
                assert(is_first_of_path(items, all[i], at));
            } else {
                let at = items.len() - 1;
                assert forall|k: int| 0 <= k < at implies (#[trigger] items[k]).file_path
                    != all[i].file_path by {
                    assert(items[k] == front[k]);
                    assert(has_path(earlier, front[k].file_path));
                }
                assert(is_first_of_path(items, all[i], at));
            }
        }
        assert forall|i: int, j: int| 0 <= i < j < all.len() implies (#[trigger] all[i]).file_path
            != (#[trigger] all[j]).file_path by {
            assert(all[i] == earlier[i]);
            if j < earlier.len() {
                assert(all[j] == earlier[j]);
            }
        }
        assert forall|k: int| 0 <= k < items.len() implies has_path(
            all,
            (#[trigger] items[k]).file_path,
        ) by {
            if k < front.len() {
                assert(items[k] == front[k]);
                assert(has_path(earlier, front[k].file_path));
                let i = choose|i: int|
                    0 <= i < earlier.len() && (#[trigger] earlier[i]).file_path
                        == front[k].file_path;
                assert(all[i] == earlier[i]);
            } else if has_path(earlier, last.file_path) {
                assert(all == earlier);
            } else {
                assert(all[earlier.len() as int] == last);
            }
        }
    }
}

/// In a ranking of items no two have one path, each is one of the items, each path of an item
/// is there, and, where each relevance is a number, no item of a path is more relevant than
/// the one that stands for it.
pub proof fn law_ranking_keeps_best(ranking: Seq<CodeItemView>, items: Seq<CodeItemView>)
    requires
        is_ranking_of(ranking, items),
    ensures
        distinct_paths(ranking),
        forall|i: int| 0 <= i < ranking.len() ==> items.contains(#[trigger] ranking[i]),
        forall|k: int|
            0 <= k < items.len() ==> has_path(ranking, (#[trigger] items[k]).file_path),
        all_numbers(items) ==> forall|i: int, k: int|
            0 <= i < ranking.len() && 0 <= k < items.len() && (#[trigger] ranking[i]).file_path == (
            #[trigger] items[k]).file_path ==> !ranking[i].relevance.below(items[k].relevance),
{
    let p = choose|p: Seq<int>| #[trigger]
        is_permutation(p, items.len()) && (all_numbers(items) ==> is_ranked(items, p)) && ranking
            == without_repeats(picked(items, p));
    let order = picked(items, p);
    law_no_repeats(order);
    assert forall|i: int| 0 <= i < ranking.len() implies items.contains(#[trigger] ranking[i]) by {
        assert(is_first(order, ranking[i]));
        let at = choose|at: int| #[trigger] is_first_of_path(order, ranking[i], at);
        assert(order[at] == items[p[at]]);
    }
    assert forall|k: int| 0 <= k < items.len() implies has_path(
        ranking,
        (#[trigger] items[k]).file_path,
    ) by {
        assert(p.contains(k));
        let q = choose|q: int| 0 <= q < p.len() && p[q] == k;
        assert(order[q] == items[k]);
    }
    if all_numbers(items) {
        assert forall|i: int, k: int|
            0 <= i < ranking.len() && 0 <= k < items.len() && (#[trigger] ranking[i]).file_path == (
            #[trigger] items[k]).file_path implies !ranking[i].relevance.below(
            items[k].relevance,
        ) by {
            assert(is_first(order, ranking[i]));
            let at = choose|at: int| #[trigger] is_first_of_path(order, ranking[i], at);
            assert(p.contains(k));
            let q = choose|q: int| 0 <= q < p.len() && p[q] == k;
            assert(order[q] == items[k]);
            assert(order[at] == items[p[at]]);
            if at < q {
                assert(precedes(items, p[at], p[q]));
            }
        }
    }
}

/// One item of a list stands before another in every ranking of it: it is more relevant, or
/// no less relevant and listed first.
pub open spec fn goes_first(items: Seq<CodeItemView>, x: CodeItemView, y: CodeItemView) -> bool {
    exists|k: int, l: int|
        0 <= k < items.len() && 0 <= l < items.len() && #[trigger] items[k] == x
            && #[trigger] items[l] == y && (y.relevance.below(x.relevance) || (
        !x.relevance.below(y.relevance) && k < l))
}

/// Two items are found in a list, the one before the other.
spec fn in_order(items: Seq<CodeItemView>, x: CodeItemView, y: CodeItemView) -> bool {
    exists|a: int, b: int|
        0 <= a < b < items.len() && #[trigger] items[a] == x && #[trigger] items[b] == y
}

proof fn lemma_repeats_keep_order(items: Seq<CodeItemView>, i: int, j: int)
    requires
        0 <= i < j < without_repeats(items).len(),
    ensures
        in_order(items, without_repeats(items)[i], without_repeats(items)[j]),
    decreases items.len(),
{
    let front = items.drop_last();
    let earlier = without_repeats(front);
    let all = without_repeats(items);
    assert(all[i] == earlier[i]);
    if j < earlier.len() {
        assert(all[j] == earlier[j]);
        lemma_repeats_keep_order(front, i, j);
        let (a, b) = choose|a: int, b: int|
            0 <= a < b < front.len() && #[trigger] front[a] == earlier[i] && #[trigger] front[b]
                == earlier[j];
        assert(items[a] == all[i] && items[b] == all[j]);
    } else {
        law_no_repeats(front);
        assert(is_first(front, earlier[i]));
        let a = choose|a: int| #[trigger] is_first_of_path(front, earlier[i], a);
        assert(items[a] == all[i] && items[items.len() - 1] == all[j]);
    }
}

/// Where each relevance is a number, a ranking goes by it: no item stands behind one that is
/// less relevant, and of two that are as relevant the one that was listed first stands first.
pub proof fn law_ranking_order(ranking: Seq<CodeItemView>, items: Seq<CodeItemView>)
    requires
        is_ranking_of(ranking, items),
        all_numbers(items),
    ensures
        forall|i: int, j: int|
            0 <= i < j < ranking.len() ==> !(#[trigger] ranking[i]).relevance.below(
                (#[trigger] ranking[j]).relevance,
            ),
        forall|i: int, j: int|
            0 <= i < j < ranking.len() ==> goes_first(
                items,
                #[trigger] ranking[i],
                #[trigger] ranking[j],
            ),
{
    let p = choose|p: Seq<int>| #[trigger]
        is_permutation(p, items.len()) && (all_numbers(items) ==> is_ranked(items, p)) && ranking
            == without_repeats(picked(items, p));
    let order = picked(items, p);
    assert forall|i: int, j: int| 0 <= i < j < ranking.len() implies goes_first(
        items,
        #[trigger] ranking[i],
        #[trigger] ranking[j],
    ) && !ranking[i].relevance.below(ranking[j].relevance) by {
        lemma_repeats_keep_order(order, i, j);
        let (a, b) = choose|a: int, b: int|
            0 <= a < b < order.len() && #[trigger] order[a] == ranking[i] && #[trigger] order[b]
                == ranking[j];
        assert(order[a] == items[p[a]] && order[b] == items[p[b]]);
        assert(precedes(items, p[a], p[b]));
    }
}

} // verus!
