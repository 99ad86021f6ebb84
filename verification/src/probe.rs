//! Probing a query for its size and its span in time.
//!
//! Before a large result set is cut into buckets, two small requests find
//! out how large it is and where it begins and ends. Both ask for a single
//! item and for the number of matches in all: the first for the newest
//! match, the second for the oldest. The second is made only if the first
//! answer counts more matches than one batch holds.
//!
//! Probing is opportunistic. A request that fails, a first answer without a
//! count or with a count that one batch can hold, an answer without an item:
//! with each of them the probe ends without bounds, and the query is then
//! walked in one piece.

use crate::bucket::{chunked, is_timestamp, ranges, range_view, MAX_TIMESTAMP, MIN_TIMESTAMP};
use crate::filter::{Filter, FilterView};
use crate::models::AsAttrs;
use crate::request::{first_date, Direction, Page, PageRequest, PageRequestView, BATCH_SIZE};
use vstd::prelude::*;

verus! {

/// The size and the span of a result set: the number of matches, and the
/// creation times of the oldest and of the newest match, both of them
/// timestamps that bucket arithmetic accepts.
#[derive(Clone, Copy, Debug)]
pub struct DateBounds {
    total: i64,
    oldest: i64,
    newest: i64,
}

impl View for DateBounds {
    type V = (i64, i64, i64);

    /// The total, the oldest and the newest creation time, in this order.
    closed spec fn view(&self) -> (i64, i64, i64) {
        (self.total, self.oldest, self.newest)
    }
}

/// The bounds that a total and two creation times make: none if bucket
/// arithmetic does not accept one of the two times.
pub open spec fn bounds_of(total: i64, oldest: i64, newest: i64) -> Option<(i64, i64, i64)> {
    if is_timestamp(oldest as int) && is_timestamp(newest as int) {
        Some((total, oldest, newest))
    } else {
        None
    }
}

impl DateBounds {
    #[verifier::type_invariant]
    spec fn well_formed(self) -> bool {
        is_timestamp(self.oldest as int) && is_timestamp(self.newest as int)
    }

    /// Makes bounds of a total and two creation times, if bucket arithmetic
    /// accepts both times.
    pub fn new(total: i64, oldest: i64, newest: i64) -> (bounds: Option<Self>)
        ensures
            bounds is Some <==> bounds_of(total, oldest, newest) is Some,
            bounds is Some ==> Some(bounds->0@) == bounds_of(total, oldest, newest),
    {
        if MIN_TIMESTAMP <= oldest && oldest <= MAX_TIMESTAMP && MIN_TIMESTAMP <= newest && newest
            <= MAX_TIMESTAMP {
            Some(DateBounds { total, oldest, newest })
        } else {
            None
        }
    }

    /// The number of matches.
    pub fn total(&self) -> (total: i64)
        ensures
            total == self@.0,
    {
        self.total
    }

    /// The creation time of the oldest match.
    pub fn oldest(&self) -> (oldest: i64)
        ensures
            oldest == self@.1,
            is_timestamp(oldest as int),
    {
        proof {
            use_type_invariant(self);
        }
        self.oldest
    }

    /// The creation time of the newest match.
    pub fn newest(&self) -> (newest: i64)
        ensures
            newest == self@.2,
            is_timestamp(newest as int),
    {
        proof {
            use_type_invariant(self);
        }
        self.newest
    }

    /// The ranges that these bounds are cut into.
    pub fn buckets(&self) -> (buckets: Vec<(i64, i64)>)
        ensures
            buckets@.map_values(|b: (i64, i64)| range_view(b)) == ranges(
                self@.0 as int,
                self@.1 as int,
                self@.2 as int,
            ),
    {
        proof {
            use_type_invariant(self);
        }
        chunked(self.total, self.oldest, self.newest)
    }
}

/// The state of a probe.
pub ghost enum Probe {
    /// The request for the newest match is due or under way.
    Newest(FilterView),
    /// The total is known, and the newest creation time if the first answer
    /// held an item; the request for the oldest match is due or under way.
    Oldest { filter: FilterView, total: i64, newest: Option<i64> },
    /// The probe has ended, with bounds or without.
    Finished(Option<(i64, i64, i64)>),
}

/// The request that a probe in state `s` makes next, if it makes one. Both
/// requests ask for a single item and for the count of matches: the first
/// for the newest item, the second for the oldest.
pub open spec fn probe_request_of(s: Probe) -> Option<PageRequestView> {
    match s {
        Probe::Newest(filter) => Some(
            PageRequestView {
                filter,
                sort: Some(Direction::Descending),
                limit: 1,
                metadata: true,
            },
        ),
        Probe::Oldest { filter, total, newest } => Some(
            PageRequestView {
                filter,
                sort: Some(Direction::Ascending),
                limit: 1,
                metadata: true,
            },
        ),
        Probe::Finished(_) => None,
    }
}

/// The creation time of the first item of a batch, if it has one.
pub open spec fn first_date_of<T: AsAttrs>(data: Seq<T>) -> Option<i64> {
    if data.len() > 0 {
        Some(first_date(data))
    } else {
        None
    }
}

/// The state that a probe in state `s` goes to on the answer to its request.
///
/// The first answer decides by its count alone: with a count above one
/// batch the second request is made, whether or not the answer held an item;
/// in every other case the probe ends without bounds. The second answer
/// ends the probe: with bounds, if both answers held an item and bucket
/// arithmetic accepts both creation times, and without in every other case.
pub open spec fn probe_step<T: AsAttrs>(s: Probe, response: Option<Page<T>>) -> Probe {
    match s {
        Probe::Newest(filter) => match response {
            Some(page) => match page.total_results {
                Some(total) => if total <= BATCH_SIZE {
                    Probe::Finished(None)
                } else {
                    Probe::Oldest { filter, total, newest: first_date_of(page.data@) }
                },
                None => Probe::Finished(None),
            },
            None => Probe::Finished(None),
        },
        Probe::Oldest { filter, total, newest } => match response {
            Some(page) => match (first_date_of(page.data@), newest) {
                (Some(oldest), Some(newest)) => Probe::Finished(bounds_of(total, oldest, newest)),
                _ => Probe::Finished(None),
            },
            None => Probe::Finished(None),
        },
        Probe::Finished(outcome) => Probe::Finished(outcome),
    }
}

/// The bounds that a probe in state `s` has found.
pub open spec fn probe_outcome(s: Probe) -> Option<(i64, i64, i64)> {
    match s {
        Probe::Finished(outcome) => outcome,
        _ => None,
    }
}

/// The second request is made exactly when the first answer counts more
/// matches than one batch holds. It asks for the oldest item of what the
/// same filter matches, and for the count again. If it fails, the probe ends
/// without bounds: there are never bounds made of one answer alone.
pub proof fn lemma_large_total_sends_both_requests<T: AsAttrs>(filter: FilterView, first: Page<T>)
    ensures
        probe_request_of(probe_step(Probe::Newest(filter), Some(first))) is Some <==> (
        first.total_results is Some && first.total_results->0 > BATCH_SIZE),
        probe_request_of(probe_step(Probe::Newest(filter), Some(first))) is Some
            ==> probe_request_of(probe_step(Probe::Newest(filter), Some(first))) == Some(
            PageRequestView {
                filter,
                sort: Some(Direction::Ascending),
                limit: 1,
                metadata: true,
            },
        ),
        probe_step::<T>(probe_step(Probe::Newest(filter), Some(first)), None) == Probe::Finished(
            None,
        ),
{
}

/// Bounds, where a probe finds them, belong to a result set that one batch
/// cannot hold, and both of their times are accepted by bucket arithmetic.
pub proof fn lemma_bounds_are_large<T: AsAttrs>(
    filter: FilterView,
    first: Option<Page<T>>,
    second: Option<Page<T>>,
)
    requires
        probe_outcome(probe_step(probe_step(Probe::Newest(filter), first), second)) is Some,
    ensures
        first is Some && first->0.total_results is Some && first->0.data@.len() > 0,
        second is Some && second->0.data@.len() > 0,
        first->0.total_results->0 > BATCH_SIZE,
        probe_outcome(probe_step(probe_step(Probe::Newest(filter), first), second)) == Some(
            (
                first->0.total_results->0,
                first_date(second->0.data@),
                first_date(first->0.data@),
            ),
        ),
        is_timestamp(first_date(second->0.data@) as int),
        is_timestamp(first_date(first->0.data@) as int),
{
}

/// Reads the creation time of the first item of a batch, if it has one.
fn first_date_in<T: AsAttrs>(data: &Vec<T>) -> (date: Option<i64>)
    ensures
        date == first_date_of(data@),
{
    if data.len() > 0 {
        Some(data[0].attrs().date)
    } else {
        None
    }
}

enum Stage {
    Newest,
    Oldest { total: i64, newest: Option<i64> },
    Finished(Option<DateBounds>),
}

/// A probe for the bounds of one query.
pub struct BoundsProbe {
    filter: Filter,
    stage: Stage,
}

impl View for BoundsProbe {
    type V = Probe;

    closed spec fn view(&self) -> Probe {
        match self.stage {
            Stage::Newest => Probe::Newest(self.filter@),
            Stage::Oldest { total, newest } => Probe::Oldest { filter: self.filter@, total, newest },
            Stage::Finished(Some(bounds)) => Probe::Finished(Some(bounds@)),
            Stage::Finished(None) => Probe::Finished(None),
        }
    }
}

impl BoundsProbe {
    /// Starts a probe for what `filter` matches. The creation times that it
    /// finds are the bounds of the query only if the filter sorts by
    /// creation time.
    pub fn new(filter: Filter) -> (probe: Self)
        ensures
            probe@ == Probe::Newest(filter@),
    {
        BoundsProbe { filter, stage: Stage::Newest }
    }

    /// Whether the probe has ended.
    pub fn is_finished(&self) -> (finished: bool)
        ensures
            finished == (self@ is Finished),
    {
        match self.stage {
            Stage::Finished(_) => true,
            _ => false,
        }
    }

    /// The request to send next, or `None` when the probe has ended.
    pub fn next_request(&self) -> (request: Option<PageRequest>)
        ensures
            request is Some <==> probe_request_of(self@) is Some,
            request is Some ==> request->0@ == probe_request_of(self@)->0,
    {
        match self.stage {
            Stage::Newest => Some(
                PageRequest {
                    filter: self.filter.clone(),
                    sort: Some(Direction::Descending),
                    limit: 1,
                    metadata: true,
                },
            ),
            Stage::Oldest { .. } => Some(
                PageRequest {
                    filter: self.filter.clone(),
                    sort: Some(Direction::Ascending),
                    limit: 1,
                    metadata: true,
                },
            ),
            Stage::Finished(_) => None,
        }
    }

    /// Takes the answer to the request last handed out, `None` standing for
    /// a request that failed in any way.
    pub fn on_response<T: AsAttrs>(&mut self, response: Option<Page<T>>)
        ensures
            final(self)@ == probe_step(old(self)@, response),
    {
        match self.stage {
            Stage::Newest => {
                let mut next = Stage::Finished(None);
                if let Some(page) = response {
                    if let Some(total) = page.total_results {
                        if total > BATCH_SIZE {
                            next = Stage::Oldest { total, newest: first_date_in(&page.data) };
                        }
                    }
                }
                self.stage = next;
            },
            Stage::Oldest { total, newest } => {
                let mut next = Stage::Finished(None);
                if let Some(page) = response {
                    if let Some(oldest) = first_date_in(&page.data) {
                        if let Some(newest) = newest {
                            next = Stage::Finished(DateBounds::new(total, oldest, newest));
                        }
                    }
                }
                self.stage = next;
            },
            Stage::Finished(_) => {},
        }
    }

    /// The bounds that the probe has found: `None` while it runs, and when it
    /// ended without any.
    pub fn outcome(&self) -> (bounds: Option<DateBounds>)
        ensures
            bounds is Some <==> probe_outcome(self@) is Some,
            bounds is Some ==> Some(bounds->0@) == probe_outcome(self@),
    {
        match self.stage {
            Stage::Finished(outcome) => outcome,
            _ => None,
        }
    }
}

} // verus!
