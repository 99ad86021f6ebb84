//! One query from beginning to end.
//!
//! A query that sorts by creation time is probed first. If the probe finds
//! that the result set is larger than one batch, the span between its oldest
//! and its newest match is cut into buckets, and the buckets are walked side
//! by side. In every other case (another sort key, a small result set, a
//! probe that failed) the query is walked in one piece. Cutting by time
//! makes sense only for results that come sorted by time, so no other sort
//! key is ever cut.
//!
//! Every request of a query, of its probe and of each of its lanes, passes
//! the rate limiter first. The probe and each lane have one fetch under way
//! at a time: it waits for a token, is cleared by it, hands out its request,
//! and takes the outcome. The next request of the same lane waits for a
//! token of its own.

use crate::fetch::{duty_of, page_of, Action, FetchState, Outcome};
use crate::filter::{Filter, FilterView, SortType};
use crate::merge::{all_done, fan_step, planned_lanes, FanIn};
use crate::models::AsAttrs;
use crate::paginator::{request_of, Walk};
use crate::probe::{probe_outcome, probe_request_of, probe_step, BoundsProbe, Probe};
use crate::request::{PageRequestView, Resource, BATCH_SIZE};
use vstd::prelude::*;

verus! {

/// The state of a query.
pub ghost enum QueryState {
    /// The probe of the query for `filter` is under way; `cleared` says
    /// whether a token has been taken for its next request.
    Probing { filter: FilterView, probe: Probe, cleared: bool },
    /// The query is walked by `lanes`; `lanes_cleared` says of each lane
    /// whether a token has been taken for its next request.
    Walking { lanes: Seq<Walk>, lanes_cleared: Seq<bool> },
}

/// The state of a query that begins to walk `lanes`: no lane is cleared.
pub open spec fn walking(lanes: Seq<Walk>) -> QueryState {
    QueryState::Walking { lanes, lanes_cleared: Seq::new(lanes.len(), |k: int| false) }
}

/// The state in which a query for `filter` starts: probing if the filter
/// sorts by creation time, and walking in one piece if it does not. Nothing
/// is cleared.
pub open spec fn query_start(filter: FilterView) -> QueryState {
    if filter.sort_type == SortType::CreatedDate {
        QueryState::Probing { filter, probe: Probe::Newest(filter), cleared: false }
    } else {
        walking(seq![Walk::Running(filter)])
    }
}

/// The fetch that is under way for a request, if there is one to make.
pub open spec fn fetch_for(request: Option<PageRequestView>, cleared: bool) -> FetchState {
    match request {
        Some(request) => if cleared {
            FetchState::Cleared(request)
        } else {
            FetchState::Waiting(request)
        },
        None => FetchState::Finished,
    }
}

/// The fetch that is under way for the probe of a query in state `s`.
pub open spec fn probe_fetch(s: QueryState) -> FetchState {
    match s {
        QueryState::Probing { filter, probe, cleared } => fetch_for(probe_request_of(probe), cleared),
        QueryState::Walking { lanes, lanes_cleared } => FetchState::Finished,
    }
}

/// The lanes of a query in state `s`: none while it is probing.
pub open spec fn lanes_of(s: QueryState) -> Seq<Walk> {
    match s {
        QueryState::Probing { filter, probe, cleared } => Seq::empty(),
        QueryState::Walking { lanes, lanes_cleared } => lanes,
    }
}

/// The fetch that is under way for lane `k` of a query in state `s`.
pub open spec fn lane_fetch(s: QueryState, k: int) -> FetchState {
    match s {
        QueryState::Probing { filter, probe, cleared } => FetchState::Finished,
        QueryState::Walking { lanes, lanes_cleared } => if 0 <= k < lanes.len() && k
            < lanes_cleared.len() {
            fetch_for(request_of(lanes[k]), lanes_cleared[k])
        } else {
            FetchState::Finished
        },
    }
}

/// The state of a query in state `s` after a token for its probe: a probe
/// fetch that waits is cleared, and nothing else changes.
pub open spec fn query_probe_token(s: QueryState) -> QueryState {
    match s {
        QueryState::Probing { filter, probe, cleared } => if probe_fetch(s) is Waiting {
            QueryState::Probing { filter, probe, cleared: true }
        } else {
            s
        },
        QueryState::Walking { lanes, lanes_cleared } => s,
    }
}

/// The state of a query in state `s` after the outcome of a request of its
/// probe. Only a cleared probe fetch takes an outcome. The probe then goes
/// on with the page that the outcome amounts to, and its next request waits
/// for a token again; when the probe ends with it, the lanes are laid out
/// according to what the probe found.
pub open spec fn query_probe_outcome<T: AsAttrs>(s: QueryState, outcome: Outcome<T>) -> QueryState {
    match s {
        QueryState::Probing { filter, probe, cleared } => if probe_fetch(s) is Cleared {
            let next = probe_step(probe, page_of(outcome));
            if next is Finished {
                walking(planned_lanes(filter, probe_outcome(next)))
            } else {
                QueryState::Probing { filter, probe: next, cleared: false }
            }
        } else {
            s
        },
        QueryState::Walking { lanes, lanes_cleared } => s,
    }
}

/// The state of a query in state `s` after a token for lane `k`: a fetch of
/// that lane that waits is cleared, and nothing else changes.
pub open spec fn query_token(s: QueryState, k: int) -> QueryState {
    match s {
        QueryState::Probing { filter, probe, cleared } => s,
        QueryState::Walking { lanes, lanes_cleared } => if lane_fetch(s, k) is Waiting {
            QueryState::Walking { lanes, lanes_cleared: lanes_cleared.update(k, true) }
        } else {
            s
        },
    }
}

/// The state of a query in state `s` after the outcome of a request of lane
/// `k`, and the items that it passes on. Only a cleared fetch takes an
/// outcome. The lane then goes on with the page that the outcome amounts to,
/// and its next request waits for a token again. No other lane moves.
pub open spec fn query_outcome<T: AsAttrs>(s: QueryState, k: int, outcome: Outcome<T>) -> (
    QueryState,
    Seq<T>,
) {
    match s {
        QueryState::Probing { filter, probe, cleared } => (s, Seq::empty()),
        QueryState::Walking { lanes, lanes_cleared } => if lane_fetch(s, k) is Cleared {
            (
                QueryState::Walking {
                    lanes: fan_step(lanes, k, page_of(outcome)).0,
                    lanes_cleared: lanes_cleared.update(k, false),
                },
                fan_step(lanes, k, page_of(outcome)).1,
            )
        } else {
            (s, Seq::empty())
        },
    }
}

/// What happens to a query.
pub ghost enum QueryEvent<T> {
    /// The rate limiter has handed out a token for the probe.
    ProbeToken,
    /// A request of the probe has ended with this outcome.
    ProbeOutcome(Outcome<T>),
    /// The rate limiter has handed out a token for this lane.
    Token(int),
    /// A request of this lane has ended with this outcome.
    Outcome(int, Outcome<T>),
}

/// The state of a query in state `s` after one event.
pub open spec fn query_step<T: AsAttrs>(s: QueryState, event: QueryEvent<T>) -> QueryState {
    match event {
        QueryEvent::ProbeToken => query_probe_token(s),
        QueryEvent::ProbeOutcome(outcome) => query_probe_outcome(s, outcome),
        QueryEvent::Token(k) => query_token(s, k),
        QueryEvent::Outcome(k, outcome) => query_outcome(s, k, outcome).0,
    }
}

/// The state of a query in state `s` after `events`, one after the other.
pub open spec fn query_run<T: AsAttrs>(s: QueryState, events: Seq<QueryEvent<T>>) -> QueryState
    decreases events.len(),
{
    if events.len() == 0 {
        s
    } else {
        query_step(query_run(s, events.drop_last()), events.last())
    }
}

/// Whether `event` clears a request of a query in state `s` for sending: it
/// is a token, and the fetch that it is for waits.
pub open spec fn clears<T>(s: QueryState, event: QueryEvent<T>) -> bool {
    match event {
        QueryEvent::ProbeToken => probe_fetch(s) is Waiting,
        QueryEvent::Token(k) => lane_fetch(s, k) is Waiting,
        _ => false,
    }
}

/// The number of requests, of the probe and of all lanes, that a query has
/// been cleared to send in the course of `events`, starting in state `s`.
pub open spec fn query_requests_cleared<T: AsAttrs>(s: QueryState, events: Seq<QueryEvent<T>>) -> nat
    decreases events.len(),
{
    if events.len() == 0 {
        0
    } else if clears(query_run(s, events.drop_last()), events.last()) {
        query_requests_cleared(s, events.drop_last()) + 1
    } else {
        query_requests_cleared(s, events.drop_last())
    }
}

/// The number of tokens among `events`.
pub open spec fn query_tokens_taken<T>(events: Seq<QueryEvent<T>>) -> nat
    decreases events.len(),
{
    if events.len() == 0 {
        0
    } else if events.last() is ProbeToken || events.last() is Token {
        query_tokens_taken(events.drop_last()) + 1
    } else {
        query_tokens_taken(events.drop_last())
    }
}

/// A query starts with nothing to send: its probe and every one of its
/// lanes wait for a token or have nothing to do.
pub proof fn lemma_query_starts_without_request(filter: FilterView, k: int)
    ensures
        !(duty_of(probe_fetch(query_start(filter))) is Send),
        !(duty_of(lane_fetch(query_start(filter), k)) is Send),
{
}

/// A request comes due only through a token of its own. Where the probe, or
/// lane `k`, has a request to send after an event and had none to send
/// before it, the event is a token for the probe, or for lane `k`, and met a
/// fetch that waited. This holds in every state, so also for the lanes that
/// a finished probe lays out and for the request that follows an outcome.
pub proof fn lemma_request_follows_its_token<T: AsAttrs>(
    s: QueryState,
    event: QueryEvent<T>,
    k: int,
)
    ensures
        duty_of(probe_fetch(query_step(s, event))) is Send && !(duty_of(probe_fetch(s)) is Send)
            ==> event is ProbeToken && clears(s, event),
        duty_of(lane_fetch(query_step(s, event), k)) is Send && !(duty_of(lane_fetch(s, k))
            is Send) ==> event == QueryEvent::<T>::Token(k) && clears(s, event),
{
}

/// An outcome is taken for a request that was cleared, and uses the
/// clearance up. An outcome that changes the state of a query, or passes
/// items on, was for a fetch that had its request to send; after it that
/// fetch has none to send until its next token.
pub proof fn lemma_outcome_uses_its_token<T: AsAttrs>(s: QueryState, k: int, outcome: Outcome<T>)
    ensures
        query_probe_outcome(s, outcome) != s ==> duty_of(probe_fetch(s)) is Send,
        !(duty_of(probe_fetch(query_probe_outcome(s, outcome))) is Send),
        query_outcome(s, k, outcome) != (s, Seq::<T>::empty()) ==> duty_of(lane_fetch(s, k))
            is Send,
        !(duty_of(lane_fetch(query_outcome(s, k, outcome).0, k)) is Send),
{
}

/// No request bypasses the rate limiter: whatever happens to a query, in
/// whatever order, it has never been cleared for more requests, probes and
/// pages of all lanes together, than tokens were taken.
pub proof fn lemma_requests_never_exceed_tokens<T: AsAttrs>(
    s: QueryState,
    events: Seq<QueryEvent<T>>,
)
    ensures
        query_requests_cleared(s, events) <= query_tokens_taken(events),
    decreases events.len(),
{
    if events.len() > 0 {
        lemma_requests_never_exceed_tokens(s, events.drop_last());
    }
}

/// No partitioning below the threshold: when the probe of a query learns
/// that no more matches exist than one batch holds, the query is walked by
/// a single lane whose filter is the query's own, with no bucket's bounds
/// added.
pub proof fn lemma_small_result_set_is_walked_whole<T: AsAttrs>(
    filter: FilterView,
    outcome: Outcome<T>,
)
    requires
        page_of(outcome) is Some,
        page_of(outcome)->0.total_results is Some,
        page_of(outcome)->0.total_results->0 <= BATCH_SIZE,
    ensures
        query_probe_outcome(query_probe_token(query_start(filter)), outcome) == walking(
            seq![Walk::Running(filter)],
        ),
{
}

/// A query with any sort key but creation time, and a query whose first
/// probe request brings no page, are walked whole as well.
pub proof fn lemma_unprobed_query_is_walked_whole<T: AsAttrs>(
    filter: FilterView,
    outcome: Outcome<T>,
)
    ensures
        filter.sort_type != SortType::CreatedDate ==> query_start(filter) == walking(
            seq![Walk::Running(filter)],
        ),
        page_of(outcome) is None ==> query_probe_outcome(
            query_probe_token(query_start(filter)),
            outcome,
        ) == walking(seq![Walk::Running(filter)]),
{
}

/// One query: the kind of content that it is for, its probe, while that
/// runs, and its lanes afterwards.
pub struct Query {
    resource: Resource,
    filter: Filter,
    probe: Option<BoundsProbe>,
    probe_cleared: bool,
    fan: FanIn,
    /// The lanes that are cleared. A lane beyond the end is not.
    cleared: Vec<bool>,
}

impl View for Query {
    type V = QueryState;

    closed spec fn view(&self) -> QueryState {
        if self.probing() {
            QueryState::Probing {
                filter: self.filter@,
                probe: self.probe->0@,
                cleared: self.probe_cleared,
            }
        } else {
            QueryState::Walking {
                lanes: self.fan@,
                lanes_cleared: Seq::new(self.fan@.len(), |k: int| self.lane_cleared(k)),
            }
        }
    }
}

impl Query {
    spec fn probing(&self) -> bool {
        self.probe is Some && !(self.probe->0@ is Finished)
    }

    spec fn lane_cleared(&self, k: int) -> bool {
        0 <= k < self.cleared@.len() && self.cleared@[k]
    }

    /// The kind of content that the query is for. It stays the same as long
    /// as the query lives.
    pub closed spec fn spec_resource(&self) -> Resource {
        self.resource
    }

    /// Starts a query for the content of kind `resource` that `filter`
    /// matches.
    pub fn new(resource: Resource, filter: Filter) -> (query: Self)
        ensures
            query@ == query_start(filter@),
            query.spec_resource() == resource,
    {
        let query = match filter.sort_type {
            SortType::CreatedDate => {
                let probe = BoundsProbe::new(filter.clone());
                let fan = FanIn::partitioned(&filter, &Vec::new());
                Query {
                    resource,
                    filter,
                    probe: Some(probe),
                    probe_cleared: false,
                    fan,
                    cleared: Vec::new(),
                }
            },
            _ => {
                let fan = FanIn::single(filter.clone());
                Query {
                    resource,
                    filter,
                    probe: None,
                    probe_cleared: false,
                    fan,
                    cleared: Vec::new(),
                }
            },
        };
        assert(query@ =~= query_start(filter@)) by {
            if !query.probing() {
                assert(query@->lanes_cleared =~= Seq::new(1, |k: int| false));
            }
        }
        query
    }

    /// The kind of content that the query is for.
    pub fn resource(&self) -> (resource: Resource)
        ensures
            resource == self.spec_resource(),
    {
        self.resource
    }

    /// The address that every request of the query goes to: that of its
    /// kind of content.
    pub fn endpoint(&self) -> (url: &'static str)
        ensures
            url@ == self.spec_resource().spec_endpoint(),
    {
        self.resource.endpoint()
    }

    /// Whether the query is still probing.
    pub fn is_probing(&self) -> (probing: bool)
        ensures
            probing == (self@ is Probing),
    {
        match &self.probe {
            Some(probe) => !probe.is_finished(),
            None => false,
        }
    }

    /// What is to be done next for the probe.
    pub fn probe_action(&self) -> (action: Action)
        ensures
            action@ == duty_of(probe_fetch(self@)),
    {
        match &self.probe {
            Some(probe) => match probe.next_request() {
                Some(request) => if self.probe_cleared {
                    Action::Send(request)
                } else {
                    Action::AwaitToken
                },
                None => Action::Nothing,
            },
            None => Action::Nothing,
        }
    }

    /// Records that the rate limiter has handed out a token for the probe.
    pub fn on_probe_token(&mut self)
        ensures
            final(self)@ == query_probe_token(old(self)@),
            final(self).spec_resource() == old(self).spec_resource(),
    {
        if self.is_probing() {
            self.probe_cleared = true;
        }
    }

    /// Takes the outcome of the request that the probe handed out last.
    pub fn on_probe_outcome<T: AsAttrs>(&mut self, outcome: Outcome<T>)
        ensures
            final(self)@ == query_probe_outcome(old(self)@, outcome),
            final(self).spec_resource() == old(self).spec_resource(),
    {
        if self.is_probing() && self.probe_cleared {
            if let Some(mut probe) = self.probe.take() {
                probe.on_response(outcome.into_page());
                self.probe_cleared = false;
                if probe.is_finished() {
                    self.fan = FanIn::plan(self.filter.clone(), probe.outcome());
                    self.cleared = Vec::new();
                    assert(self@ =~= query_probe_outcome(old(self)@, outcome)) by {
                        assert(self@->lanes_cleared =~= Seq::new(
                            self.fan@.len(),
                            |k: int| false,
                        ));
                    }
                } else {
                    self.probe = Some(probe);
                }
            }
        }
    }

    /// The number of lanes: none while the query is probing.
    pub fn lanes(&self) -> (n: usize)
        ensures
            n == lanes_of(self@).len(),
    {
        if self.is_probing() {
            0
        } else {
            self.fan.len()
        }
    }

    /// Whether a token has been taken for the next request of lane `k`.
    fn is_cleared(&self, k: usize) -> (cleared: bool)
        ensures
            cleared == self.lane_cleared(k as int),
    {
        k < self.cleared.len() && self.cleared[k]
    }

    /// What is to be done next for lane `k`: nothing when the lane has
    /// ended, and when there is no such lane.
    pub fn action(&self, k: usize) -> (action: Action)
        ensures
            action@ == duty_of(lane_fetch(self@, k as int)),
    {
        if self.is_probing() {
            Action::Nothing
        } else {
            match self.fan.next_request(k) {
                Some(request) => if self.is_cleared(k) {
                    Action::Send(request)
                } else {
                    Action::AwaitToken
                },
                None => Action::Nothing,
            }
        }
    }

    /// Records that the rate limiter has handed out a token for lane `k`.
    pub fn on_token(&mut self, k: usize)
        ensures
            final(self)@ == query_token(old(self)@, k as int),
            final(self).spec_resource() == old(self).spec_resource(),
    {
        if !self.is_probing() && self.fan.is_running(k) {
            while self.cleared.len() <= k
                invariant
                    self.probe == old(self).probe,
                    self.resource == old(self).resource,
                    self.filter == old(self).filter,
                    self.fan == old(self).fan,
                    self.probe_cleared == old(self).probe_cleared,
                    self.cleared@.len() >= old(self).cleared@.len(),
                    forall|j: int|
                        0 <= j < self.cleared@.len() ==> #[trigger] self.cleared@[j] == old(
                            self,
                        ).lane_cleared(j),
                decreases k + 1 - self.cleared@.len(),
            {
                self.cleared.push(false);
            }
            self.cleared.set(k, true);
            assert(self@ =~= query_token(old(self)@, k as int)) by {
                assert forall|j: int| 0 <= j < self.fan@.len() implies self.lane_cleared(j) == (j
                    == k || old(self).lane_cleared(j)) by {
                    if j < self.cleared@.len() && j != k {
                        assert(self.cleared@[j] == old(self).lane_cleared(j));
                    }
                }
                assert(self@->lanes_cleared =~= old(self)@->lanes_cleared.update(
                    k as int,
                    true,
                ));
                if old(self).lane_cleared(k as int) {
                    assert(old(self)@->lanes_cleared.update(k as int, true) =~= old(
                        self,
                    )@->lanes_cleared);
                }
            }
        }
    }

    /// Takes the outcome of the request that lane `k` handed out last, and
    /// returns the items to pass on.
    pub fn on_outcome<T: AsAttrs>(&mut self, k: usize, outcome: Outcome<T>) -> (items: Vec<T>)
        ensures
            (final(self)@, items@) == query_outcome(old(self)@, k as int, outcome),
            final(self).spec_resource() == old(self).spec_resource(),
    {
        if !self.is_probing() && self.fan.is_running(k) && self.is_cleared(k) {
            self.cleared.set(k, false);
            let items = self.fan.on_response(k, outcome.into_page());
            assert(self@ =~= query_outcome(old(self)@, k as int, outcome).0) by {
                assert(self@->lanes_cleared =~= old(self)@->lanes_cleared.update(
                    k as int,
                    false,
                ));
            }
            items
        } else {
            Vec::new()
        }
    }

    /// Whether the query has ended: it is past probing, and every lane has
    /// ended.
    pub fn is_done(&self) -> (done: bool)
        ensures
            done == (self@ is Walking && all_done(lanes_of(self@))),
    {
        if self.is_probing() {
            false
        } else {
            self.fan.is_done()
        }
    }
}

} // verus!
