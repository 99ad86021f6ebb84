//! Walking the buckets of one query side by side.
//!
//! A fan-in holds one paginator per bucket, each in a lane of its own. The
//! answers to the lanes' requests may arrive in any order: each is handed to
//! the lane it belongs to, and the items of the page that the lane yields are
//! passed on at once. Nothing is held back to put items in order, so items of
//! different lanes come out interleaved as the answers arrive. A lane that
//! has ended takes no further part; the others go on.

use crate::bucket::{range_view, ranges};
use crate::filter::{Filter, FilterView};
use crate::models::AsAttrs;
use crate::paginator::{request_of, step, Paginator, Walk};
use crate::probe::DateBounds;
use crate::request::{Page, PageRequest};
use vstd::prelude::*;

verus! {

/// The filter of the lane that walks `range`: `filter`, bounded above by the
/// last second of the range and below by its first.
pub open spec fn bucket_filter(filter: FilterView, range: (i64, i64)) -> FilterView {
    filter.with_before(range.1).with_after(range.0)
}

/// The lanes of a query that is cut into `buckets`: one fresh walk per
/// bucket, in the order of the buckets.
pub open spec fn lanes_for(filter: FilterView, buckets: Seq<(i64, i64)>) -> Seq<Walk> {
    buckets.map_values(|range: (i64, i64)| Walk::Running(bucket_filter(filter, range)))
}

/// The lanes that a query starts with. Without bounds it is walked in one
/// piece, by a single lane with the filter as it is. With bounds there is a
/// lane for each of the ranges that the bounds are cut into.
pub open spec fn planned_lanes(filter: FilterView, bounds: Option<(i64, i64, i64)>) -> Seq<Walk> {
    match bounds {
        None => seq![Walk::Running(filter)],
        Some((total, oldest, newest)) => ranges(
            total as int,
            oldest as int,
            newest as int,
        ).map_values(
            |range: (int, int)| Walk::Running(bucket_filter(filter, (range.0 as i64, range.1 as i64))),
        ),
    }
}

/// The items of the page that a walk yields, none if it yields no page.
pub open spec fn items_of<T>(page: Option<Vec<T>>) -> Seq<T> {
    match page {
        Some(data) => data@,
        None => Seq::empty(),
    }
}

/// What a fan-in with `lanes` does with an answer to the request of lane
/// `k`: the lanes afterwards, and the items passed on. Only lane `k` moves.
/// An answer for a lane that does not exist changes nothing and passes
/// nothing on.
pub open spec fn fan_step<T: AsAttrs>(lanes: Seq<Walk>, k: int, response: Option<Page<T>>) -> (
    Seq<Walk>,
    Seq<T>,
) {
    if 0 <= k < lanes.len() {
        let (next, page) = step(lanes[k], response);
        (lanes.update(k, next), items_of(page))
    } else {
        (lanes, Seq::empty())
    }
}

/// Whether every lane has ended.
pub open spec fn all_done(lanes: Seq<Walk>) -> bool {
    forall|k: int| 0 <= k < lanes.len() ==> #[trigger] lanes[k] is Done
}

/// The paginators of one query, one per lane.
#[derive(Debug)]
pub struct FanIn {
    lanes: Vec<Paginator>,
}

impl View for FanIn {
    type V = Seq<Walk>;

    closed spec fn view(&self) -> Seq<Walk> {
        self.lanes@.map_values(|lane: Paginator| lane@)
    }
}

impl FanIn {
    /// A fan-in with a single lane, which walks what `filter` matches.
    pub fn single(filter: Filter) -> (fan: Self)
        ensures
            fan@ == seq![Walk::Running(filter@)],
    {
        let mut lanes: Vec<Paginator> = Vec::new();
        lanes.push(Paginator::new(filter));
        let fan = FanIn { lanes };
        assert(fan@ =~= seq![Walk::Running(filter@)]);
        fan
    }

    /// A fan-in with one lane per bucket. Each lane walks what `filter`
    /// matches within its bucket.
    pub fn partitioned(filter: &Filter, buckets: &Vec<(i64, i64)>) -> (fan: Self)
        ensures
            fan@ == lanes_for(filter@, buckets@),
    {
        let mut lanes: Vec<Paginator> = Vec::new();
        let mut i: usize = 0;
        while i < buckets.len()
            invariant
                0 <= i <= buckets@.len(),
                lanes@.len() == i,
                forall|k: int|
                    0 <= k < i ==> (#[trigger] lanes@[k])@ == Walk::Running(
                        bucket_filter(filter@, buckets@[k]),
                    ),
            decreases buckets@.len() - i,
        {
            let (l, r): (i64, i64) = buckets[i];
            lanes.push(Paginator::new(filter.clone().before(r).after(l)));
            i = i + 1;
        }
        let fan = FanIn { lanes };
        assert(fan@ =~= lanes_for(filter@, buckets@));
        fan
    }

    /// The fan-in that a query starts with, given what its probe found.
    pub fn plan(filter: Filter, bounds: Option<DateBounds>) -> (fan: Self)
        ensures
            fan@ == planned_lanes(
                filter@,
                match bounds {
                    Some(b) => Some(b@),
                    None => None,
                },
            ),
    {
        match bounds {
            None => FanIn::single(filter),
            Some(b) => {
                let buckets = b.buckets();
                let fan = FanIn::partitioned(&filter, &buckets);
                proof {
                    let cut = ranges(b@.0 as int, b@.1 as int, b@.2 as int);
                    assert(buckets@.len() == cut.len());
                    assert forall|i: int| 0 <= i < cut.len() implies (cut[i].0 as i64, cut[i].1 as i64)
                        == buckets@[i] by {
                        assert(buckets@.map_values(|r: (i64, i64)| range_view(r))[i]
                            == cut[i]);
                    }
                    assert(fan@ =~= planned_lanes(filter@, Some(b@)));
                }
                fan
            },
        }
    }

    /// The number of lanes.
    pub fn len(&self) -> (n: usize)
        ensures
            n == self@.len(),
    {
        self.lanes.len()
    }

    /// Whether lane `k` exists and has not ended.
    pub fn is_running(&self, k: usize) -> (running: bool)
        ensures
            running == (k < self@.len() && self@[k as int] is Running),
    {
        k < self.lanes.len() && !self.lanes[k].is_done()
    }

    /// Whether every lane has ended, so that no request is left to make.
    pub fn is_done(&self) -> (done: bool)
        ensures
            done == all_done(self@),
    {
        let mut k: usize = 0;
        while k < self.lanes.len()
            invariant
                0 <= k <= self.lanes@.len(),
                forall|j: int| 0 <= j < k ==> #[trigger] self@[j] is Done,
            decreases self.lanes@.len() - k,
        {
            if !self.lanes[k].is_done() {
                assert(!(self@[k as int] is Done));
                return false;
            }
            k = k + 1;
        }
        true
    }

    /// The request that lane `k` sends next: `None` when the lane has ended,
    /// and when there is no such lane.
    pub fn next_request(&self, k: usize) -> (request: Option<PageRequest>)
        ensures
            request is Some <==> k < self@.len() && request_of(self@[k as int]) is Some,
            request is Some ==> request->0@ == request_of(self@[k as int])->0,
    {
        if k < self.lanes.len() {
            self.lanes[k].next_request()
        } else {
            None
        }
    }

    /// Takes the answer to the request that lane `k` handed out last, `None`
    /// standing for a request that failed in any way, and returns the items
    /// to pass on.
    pub fn on_response<T: AsAttrs>(&mut self, k: usize, response: Option<Page<T>>) -> (items: Vec<
        T,
    >)
        ensures
            (final(self)@, items@) == fan_step(old(self)@, k as int, response),
    {
        if k < self.lanes.len() {
            let page = self.lanes[k].on_response(response);
            assert(self@ =~= old(self)@.update(k as int, self.lanes@[k as int]@));
            match page {
                Some(data) => data,
                None => Vec::new(),
            }
        } else {
            Vec::new()
        }
    }
}

} // verus!
