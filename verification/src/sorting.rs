//! Sorting by a total order, by merging: the result depends only on which
//! items are given, not on the order in which they arrive.

use vstd::prelude::*;
use vstd::relations::sorted_by;
use vstd::relations::total_ordering;
use vstd::seq_lib::lemma_sorted_unique;

use crate::collection::reversed;

verus! {

/// Items that stand in a total order.
pub trait Ranked: View + Sized {
    /// `a` comes no later than `b`.
    spec fn leq() -> spec_fn(Self::V, Self::V) -> bool;

    /// The order is total.
    proof fn lemma_total()
        ensures
            total_ordering(Self::leq()),
    ;

    /// Whether `self` comes strictly later than `other`.
    fn comes_after(&self, other: &Self) -> (r: bool)
        ensures
            r == !Self::leq()(self@, other@),
    ;
}

/// The contents of a list of items, element by element.
pub open spec fn views_of<T: View>(items: Seq<T>) -> Seq<T::V> {
    items.map_values(|item: T| item@)
}

/// Each item of `items` comes no earlier than the items behind it.
pub open spec fn descending<V>(items: Seq<V>, leq: spec_fn(V, V) -> bool) -> bool {
    forall|i: int, j: int| 0 <= i < j < items.len() ==> #[trigger] leq(items[j], items[i])
}

/// Every item of `low` comes no later than every item of `high`.
pub open spec fn all_leq<V>(low: Seq<V>, high: Seq<V>, leq: spec_fn(V, V) -> bool) -> bool {
    forall|i: int, j: int|
        0 <= i < low.len() && 0 <= j < high.len() ==> #[trigger] leq(low[i], high[j])
}

/// Merges two sorted lists into one.
fn merge<T: Ranked>(left: Vec<T>, right: Vec<T>) -> (merged: Vec<T>)
    requires
        sorted_by(views_of(left@), T::leq()),
        sorted_by(views_of(right@), T::leq()),
    ensures
        sorted_by(views_of(merged@), T::leq()),
        views_of(merged@).to_multiset() == views_of(left@).to_multiset().add(
            views_of(right@).to_multiset(),
        ),
{
    broadcast use vstd::seq_lib::group_to_multiset_ensures;
    broadcast use vstd::multiset::group_multiset_axioms;

    let ghost leq = T::leq();
    let ghost all = views_of(left@).to_multiset().add(views_of(right@).to_multiset());
    let mut left = left;
    let mut right = right;
    // The greatest item that is left goes first: the list grows downwards.
    let mut down: Vec<T> = Vec::new();
    proof {
        T::lemma_total();
        assert(views_of(down@) =~= Seq::<T::V>::empty());
        assert(views_of(left@).to_multiset().add(views_of(right@).to_multiset()).add(
            views_of(down@).to_multiset(),
        ) =~= all);
    }
    while left.len() > 0 || right.len() > 0
        invariant
            leq == T::leq(),
            total_ordering(leq),
            sorted_by(views_of(left@), leq),
            sorted_by(views_of(right@), leq),
            descending(views_of(down@), leq),
            all_leq(views_of(left@), views_of(down@), leq),
            all_leq(views_of(right@), views_of(down@), leq),
            views_of(left@).to_multiset().add(views_of(right@).to_multiset()).add(
                views_of(down@).to_multiset(),
            ) == all,
        decreases left.len() + right.len(),
    {
        let ghost low = views_of(left@);
        let ghost high = views_of(right@);
        let ghost taken = views_of(down@);
        let from_left = if right.len() == 0 {
            true
        } else if left.len() == 0 {
            false
        } else {
            left[left.len() - 1].comes_after(&right[right.len() - 1])
        };
        if from_left {
            let item = left.pop().unwrap();
            let ghost entered = item@;
            down.push(item);
            proof {
                let rest = views_of(left@);
                let now = views_of(down@);
                assert(low =~= rest.push(entered));
                assert(now =~= taken.push(entered));
                assert forall|i: int, j: int| 0 <= i < j < rest.len() implies #[trigger] leq(
                    rest[i],
                    rest[j],
                ) by {
                    assert(leq(low[i], low[j]));
                }
                assert forall|i: int, j: int| 0 <= i < j < now.len() implies #[trigger] leq(
                    now[j],
                    now[i],
                ) by {
                    if j == taken.len() {
                        assert(leq(low[low.len() - 1], taken[i]));
                    } else {
                        assert(leq(taken[j], taken[i]));
                    }
                }
                assert forall|i: int, j: int|
                    0 <= i < rest.len() && 0 <= j < now.len() implies #[trigger] leq(
                    rest[i],
                    now[j],
                ) by {
                    if j == taken.len() {
                        assert(leq(low[i], low[low.len() - 1]));
                    } else {
                        assert(leq(low[i], taken[j]));
                    }
                }
                assert forall|i: int, j: int|
                    0 <= i < high.len() && 0 <= j < now.len() implies #[trigger] leq(
                    high[i],
                    now[j],
                ) by {
                    if j == taken.len() {
                        let last = high[high.len() - 1];
                        assert(leq(entered, last) || leq(last, entered));
                        assert(leq(last, entered));
                        if i < high.len() - 1 {
                            assert(leq(high[i], last));
                        }
                        assert(leq(high[i], last) && leq(last, entered));
                    } else {
                        assert(leq(high[i], taken[j]));
                    }
                }
                vstd::seq_lib::to_multiset_build(rest, entered);
                vstd::seq_lib::to_multiset_build(taken, entered);
                assert(low.to_multiset() =~= rest.to_multiset().insert(entered));
                assert(now.to_multiset() =~= taken.to_multiset().insert(entered));
                assert(rest.to_multiset().add(high.to_multiset()).add(now.to_multiset()) =~= all);
            }
        } else {
            let item = right.pop().unwrap();
            let ghost entered = item@;
            down.push(item);
            proof {
                let rest = views_of(right@);
                let now = views_of(down@);
                assert(high =~= rest.push(entered));
                assert(now =~= taken.push(entered));
                assert forall|i: int, j: int| 0 <= i < j < rest.len() implies #[trigger] leq(
                    rest[i],
                    rest[j],
                ) by {
                    assert(leq(high[i], high[j]));
                }
                assert forall|i: int, j: int| 0 <= i < j < now.len() implies #[trigger] leq(
                    now[j],
                    now[i],
                ) by {
                    if j == taken.len() {
                        assert(leq(high[high.len() - 1], taken[i]));
                    } else {
                        assert(leq(taken[j], taken[i]));
                    }
                }
                assert forall|i: int, j: int|
                    0 <= i < rest.len() && 0 <= j < now.len() implies #[trigger] leq(
                    rest[i],
                    now[j],
                ) by {
                    if j == taken.len() {
                        assert(leq(high[i], high[high.len() - 1]));
                    } else {
                        assert(leq(high[i], taken[j]));
                    }
                }
                assert forall|i: int, j: int|
                    0 <= i < low.len() && 0 <= j < now.len() implies #[trigger] leq(
                    low[i],
                    now[j],
                ) by {
                    if j == taken.len() {
                        let last = low[low.len() - 1];
                        assert(leq(last, entered));
                        if i < low.len() - 1 {
                            assert(leq(low[i], last));
                        }
                        assert(leq(low[i], last) && leq(last, entered));
                    } else {
                        assert(leq(low[i], taken[j]));
                    }
                }
                vstd::seq_lib::to_multiset_build(rest, entered);
                vstd::seq_lib::to_multiset_build(taken, entered);
                assert(high.to_multiset() =~= rest.to_multiset().insert(entered));
                assert(now.to_multiset() =~= taken.to_multiset().insert(entered));
                assert(low.to_multiset().add(rest.to_multiset()).add(now.to_multiset()) =~= all);
            }
        }
    }
    let ghost taken = views_of(down@);
    let merged = reversed(down);
    proof {
        let up = views_of(merged@);
        assert(up =~= taken.reverse());
        assert forall|i: int, j: int| 0 <= i < j < up.len() implies #[trigger] leq(
            up[i],
            up[j],
        ) by {
            assert(leq(taken[taken.len() - 1 - i], taken[taken.len() - 1 - j]));
        }
        taken.lemma_reverse_to_multiset();
        assert(views_of(left@) =~= Seq::<T::V>::empty());
        assert(views_of(right@) =~= Seq::<T::V>::empty());
        assert(up.to_multiset() =~= all);
    }
    merged
}

/// Sorts `items` into their order.
///
/// The result is the one sorted arrangement of the items: it depends only
/// on which items are given, not on the order in which they arrive.
pub fn sort<T: Ranked>(items: Vec<T>) -> (sorted: Vec<T>)
    ensures
        views_of(sorted@) == views_of(items@).sort_by(T::leq()),
        sorted_by(views_of(sorted@), T::leq()),
        views_of(sorted@).to_multiset() == views_of(items@).to_multiset(),
        sorted.len() == items.len(),
    decreases items.len(),
{
    broadcast use vstd::seq_lib::group_to_multiset_ensures;

    let ghost leq = T::leq();
    let ghost given = views_of(items@);
    let sorted = if items.len() <= 1 {
        items
    } else {
        let mut left = items;
        let half = left.len() / 2;
        let right = left.split_off(half);
        proof {
            assert(given =~= views_of(left@) + views_of(right@));
            vstd::seq_lib::lemma_multiset_commutative(views_of(left@), views_of(right@));
        }
        let left = sort(left);
        let right = sort(right);
        merge(left, right)
    };
    proof {
        T::lemma_total();
        given.lemma_sort_by_ensures(leq);
        lemma_sorted_unique(views_of(sorted@), given.sort_by(leq), leq);
        vstd::seq_lib::to_multiset_len(views_of(sorted@));
        vstd::seq_lib::to_multiset_len(given);
    }
    sorted
}

/// What a list is mapped to holds the same items, in whatever order the
/// list is.
pub proof fn lemma_map_any_order<A, B>(first: Seq<A>, second: Seq<A>, f: spec_fn(A) -> B)
    requires
        first.to_multiset() == second.to_multiset(),
    ensures
        first.map_values(f).to_multiset() == second.map_values(f).to_multiset(),
    decreases first.len(),
{
    broadcast use vstd::seq_lib::group_to_multiset_ensures;

    vstd::seq_lib::to_multiset_len(first);
    vstd::seq_lib::to_multiset_len(second);
    if first.len() == 0 {
        assert(second.len() == 0);
        assert(first.map_values(f) =~= second.map_values(f));
    } else {
        let item = first.last();
        assert(first.to_multiset().count(item) > 0) by {
            assert(first.contains(item)) by {
                assert(first[first.len() - 1] == item);
            }
        }
        assert(second.contains(item));
        let j = choose|j: int| 0 <= j < second.len() && second[j] == item;
        assert(first.drop_last() =~= first.remove(first.len() - 1));
        assert(first.drop_last().to_multiset() =~= first.to_multiset().remove(item));
        assert(second.remove(j).to_multiset() =~= second.to_multiset().remove(item));
        lemma_map_any_order(first.drop_last(), second.remove(j), f);
        assert(first.map_values(f) =~= first.drop_last().map_values(f).push(f(item)));
        let mapped = second.map_values(f);
        assert(mapped.remove(j) =~= second.remove(j).map_values(f));
        assert(mapped.remove(j).to_multiset() =~= mapped.to_multiset().remove(f(item)));
        assert(mapped.to_multiset().count(f(item)) > 0) by {
            assert(mapped[j] == f(item));
            assert(mapped.contains(f(item)));
        }
    }
}

/// Sorting forgets the order of arrival: lists that hold the same items
/// are sorted into the same list.
pub proof fn lemma_sort_forgets_arrival<V>(a: Seq<V>, b: Seq<V>, leq: spec_fn(V, V) -> bool)
    requires
        total_ordering(leq),
        a.to_multiset() == b.to_multiset(),
    ensures
        a.sort_by(leq) == b.sort_by(leq),
{
    a.lemma_sort_by_ensures(leq);
    b.lemma_sort_by_ensures(leq);
    lemma_sorted_unique(a.sort_by(leq), b.sort_by(leq), leq);
}

} // verus!
