//! What comes out of a fan-in, whatever the order of the answers.
//!
//! The answers to the lanes' requests arrive interleaved. This module says
//! what the fan-in passes on for a given sequence of arrivals, what each
//! lane would yield if it were walked alone with the answers meant for it,
//! and proves that the two hold the same items: every item of every page of
//! every lane comes out once, and nothing else does.

use crate::merge::{fan_step, items_of};
use crate::models::AsAttrs;
use crate::paginator::{pages_yielded, step, Walk};
use crate::request::Page;
use vstd::multiset::Multiset;
use vstd::prelude::*;

verus! {

/// An answer as it arrives at a fan-in: the lane it is for, and the page,
/// or `None` for a request that failed.
pub type Arrival<T> = (int, Option<Page<T>>);

/// The items that a fan-in with `lanes` passes on, in order, when `arrivals`
/// come in one after the other.
pub open spec fn merged<T: AsAttrs>(lanes: Seq<Walk>, arrivals: Seq<Arrival<T>>) -> Seq<T>
    decreases arrivals.len(),
{
    if arrivals.len() == 0 {
        Seq::empty()
    } else {
        let (next, items) = fan_step(lanes, arrivals.first().0, arrivals.first().1);
        items + merged(next, arrivals.drop_first())
    }
}

/// The answers among `arrivals` that are for lane `k`, in their order.
pub open spec fn answers_for<T>(arrivals: Seq<Arrival<T>>, k: int) -> Seq<Option<Page<T>>>
    decreases arrivals.len(),
{
    if arrivals.len() == 0 {
        Seq::empty()
    } else if arrivals.first().0 == k {
        seq![arrivals.first().1] + answers_for(arrivals.drop_first(), k)
    } else {
        answers_for(arrivals.drop_first(), k)
    }
}

/// The items of `pages`, page after page.
pub open spec fn flattened<T>(pages: Seq<Vec<T>>) -> Seq<T>
    decreases pages.len(),
{
    if pages.len() == 0 {
        Seq::empty()
    } else {
        pages.first()@ + flattened(pages.drop_first())
    }
}

/// The sum of the sizes of `pages`.
pub open spec fn total_size<T>(pages: Seq<Vec<T>>) -> nat
    decreases pages.len(),
{
    if pages.len() == 0 {
        0
    } else {
        pages.first()@.len() + total_size(pages.drop_first())
    }
}

/// The pages that lane `k` yields when it is walked alone with the answers
/// that are for it.
pub open spec fn lane_pages<T: AsAttrs>(lanes: Seq<Walk>, arrivals: Seq<Arrival<T>>, k: int) -> Seq<
    Vec<T>,
> {
    pages_yielded(lanes[k], answers_for(arrivals, k))
}

/// The items of all pages that the first `n` lanes yield, each lane walked
/// alone, as a multiset.
pub open spec fn items_of_lanes<T: AsAttrs>(
    lanes: Seq<Walk>,
    arrivals: Seq<Arrival<T>>,
    n: nat,
) -> Multiset<T>
    decreases n,
{
    if n == 0 {
        Multiset::empty()
    } else {
        items_of_lanes(lanes, arrivals, (n - 1) as nat).add(
            flattened(lane_pages(lanes, arrivals, n - 1)).to_multiset(),
        )
    }
}

/// The sum of the sizes of all pages that the first `n` lanes yield, each
/// lane walked alone.
pub open spec fn size_of_lanes<T: AsAttrs>(
    lanes: Seq<Walk>,
    arrivals: Seq<Arrival<T>>,
    n: nat,
) -> nat
    decreases n,
{
    if n == 0 {
        0
    } else {
        size_of_lanes(lanes, arrivals, (n - 1) as nat) + total_size(
            lane_pages(lanes, arrivals, n - 1),
        )
    }
}

/// Flattening keeps every item: the flattened sequence is as long as the
/// pages are in sum.
pub proof fn lemma_flattened_len<T>(pages: Seq<Vec<T>>)
    ensures
        flattened(pages).len() == total_size(pages),
    decreases pages.len(),
{
    if pages.len() > 0 {
        lemma_flattened_len(pages.drop_first());
    }
}

/// The number of items that the first `n` lanes yield is the sum of the
/// sizes of their pages.
pub proof fn lemma_items_of_lanes_len<T: AsAttrs>(
    lanes: Seq<Walk>,
    arrivals: Seq<Arrival<T>>,
    n: nat,
)
    ensures
        items_of_lanes(lanes, arrivals, n).len() == size_of_lanes(lanes, arrivals, n),
    decreases n,
{
    broadcast use vstd::multiset::group_multiset_axioms;

    if n > 0 {
        lemma_items_of_lanes_len(lanes, arrivals, (n - 1) as nat);
        let pages = lane_pages(lanes, arrivals, n - 1);
        lemma_flattened_len(pages);
        vstd::seq_lib::to_multiset_len(flattened(pages));
    }
}

/// What a walk yields for a first answer and later ones: the page of the
/// first answer, if there is one, and then what the walk yields from the
/// state it went to.
proof fn lemma_flattened_unfold<T: AsAttrs>(
    s: Walk,
    first: Option<Page<T>>,
    later: Seq<Option<Page<T>>>,
)
    ensures
        flattened(pages_yielded(s, seq![first] + later)) == items_of(step(s, first).1) + flattened(
            pages_yielded(step(s, first).0, later),
        ),
{
    let responses = seq![first] + later;
    assert(responses.first() == first);
    assert(responses.drop_first() =~= later);
    let (next, page) = step(s, first);
    let rest = pages_yielded(next, later);
    match page {
        Some(data) => {
            let pages = seq![data] + rest;
            assert(pages.first() == data);
            assert(pages.drop_first() =~= rest);
        },
        None => {
            assert(Seq::<T>::empty() + flattened(rest) =~= flattened(rest));
        },
    }
}

/// An arrival for a lane that does not exist changes what no lane yields.
proof fn lemma_stray_arrival<T: AsAttrs>(lanes: Seq<Walk>, arrivals: Seq<Arrival<T>>, n: nat)
    requires
        arrivals.len() > 0,
        n <= lanes.len(),
        !(0 <= arrivals.first().0 < lanes.len()),
    ensures
        items_of_lanes(lanes, arrivals, n) == items_of_lanes(lanes, arrivals.drop_first(), n),
    decreases n,
{
    if n > 0 {
        lemma_stray_arrival(lanes, arrivals, (n - 1) as nat);
    }
}

/// An arrival for lane `k` adds the items of the page that the lane yields
/// for it to what the lanes yield, and nothing else.
proof fn lemma_arrival_adds_items<T: AsAttrs>(lanes: Seq<Walk>, arrivals: Seq<Arrival<T>>, n: nat)
    requires
        arrivals.len() > 0,
        n <= lanes.len(),
        0 <= arrivals.first().0 < lanes.len(),
    ensures
        items_of_lanes(lanes, arrivals, n) == if n > arrivals.first().0 {
            items_of_lanes(
                fan_step(lanes, arrivals.first().0, arrivals.first().1).0,
                arrivals.drop_first(),
                n,
            ).add(fan_step(lanes, arrivals.first().0, arrivals.first().1).1.to_multiset())
        } else {
            items_of_lanes(
                fan_step(lanes, arrivals.first().0, arrivals.first().1).0,
                arrivals.drop_first(),
                n,
            )
        },
    decreases n,
{
    broadcast use vstd::multiset::group_multiset_axioms;

    if n > 0 {
        let k = arrivals.first().0;
        let response = arrivals.first().1;
        let rest = arrivals.drop_first();
        let (next, items) = fan_step(lanes, k, response);
        let j = n - 1;
        lemma_arrival_adds_items(lanes, arrivals, j as nat);
        if j == k {
            lemma_flattened_unfold(lanes[k], response, answers_for(rest, k));
            vstd::seq_lib::lemma_multiset_commutative(
                items,
                flattened(pages_yielded(next[k], answers_for(rest, k))),
            );
            assert(items_of_lanes(lanes, arrivals, n) =~= items_of_lanes(next, rest, n).add(
                items.to_multiset(),
            ));
        } else {
            assert(lane_pages(lanes, arrivals, j) == lane_pages(next, rest, j));
            if n > k {
                assert(items_of_lanes(lanes, arrivals, n) =~= items_of_lanes(next, rest, n).add(
                    items.to_multiset(),
                ));
            }
        }
    }
}

/// A sequence without items has no items as a multiset either.
proof fn lemma_nothing_to_multiset<T>()
    ensures
        Seq::<T>::empty().to_multiset() == Multiset::<T>::empty(),
{
    vstd::seq_lib::to_multiset_len(Seq::<T>::empty());
    vstd::multiset::lemma_multiset_empty_len(Seq::<T>::empty().to_multiset());
}

/// Without arrivals no lane yields anything.
proof fn lemma_no_arrivals<T: AsAttrs>(lanes: Seq<Walk>, n: nat)
    ensures
        items_of_lanes(lanes, Seq::<Arrival<T>>::empty(), n) == Multiset::<T>::empty(),
    decreases n,
{
    broadcast use vstd::multiset::group_multiset_axioms;

    if n > 0 {
        lemma_no_arrivals::<T>(lanes, (n - 1) as nat);
        lemma_nothing_to_multiset::<T>();
        assert(items_of_lanes(lanes, Seq::<Arrival<T>>::empty(), n) =~= Multiset::<T>::empty());
    }
}

/// Fan-in flattening: in whatever order the answers arrive, the fan-in
/// passes on exactly the items of the pages that its lanes yield, each as
/// often as it occurs in them, and so as many items as those pages hold in
/// sum. The order in which they come out is the order of the arrivals, and
/// nothing is said of it here.
pub proof fn lemma_merge_keeps_items<T: AsAttrs>(lanes: Seq<Walk>, arrivals: Seq<Arrival<T>>)
    ensures
        merged(lanes, arrivals).to_multiset() == items_of_lanes(lanes, arrivals, lanes.len()),
        merged(lanes, arrivals).len() == size_of_lanes(lanes, arrivals, lanes.len()),
    decreases arrivals.len(),
{
    broadcast use vstd::multiset::group_multiset_axioms;

    if arrivals.len() == 0 {
        lemma_no_arrivals::<T>(lanes, lanes.len());
        lemma_nothing_to_multiset::<T>();
        assert(arrivals =~= Seq::<Arrival<T>>::empty());
    } else {
        let k = arrivals.first().0;
        let rest = arrivals.drop_first();
        let (next, items) = fan_step(lanes, k, arrivals.first().1);
        lemma_merge_keeps_items(next, rest);
        vstd::seq_lib::lemma_multiset_commutative(items, merged(next, rest));
        if 0 <= k < lanes.len() {
            lemma_arrival_adds_items(lanes, arrivals, lanes.len());
            assert(merged(lanes, arrivals).to_multiset() =~= items_of_lanes(
                lanes,
                arrivals,
                lanes.len(),
            ));
        } else {
            lemma_stray_arrival(lanes, arrivals, lanes.len());
            assert(merged(lanes, arrivals).to_multiset() =~= items_of_lanes(
                lanes,
                arrivals,
                lanes.len(),
            ));
        }
    }
    lemma_items_of_lanes_len(lanes, arrivals, lanes.len());
    vstd::seq_lib::to_multiset_len(merged(lanes, arrivals));
}

} // verus!
