//! Fetching one page.
//!
//! Every request passes the rate limiter first. A fetch therefore goes
//! through three stages: it waits for a token of the limiter, it is cleared
//! and hands out its request, and it is finished once the outcome of that
//! request is known. A fetch hands out its request in no other stage, makes
//! no second request, and takes no outcome for a request that it did not
//! hand out.
//!
//! Whatever goes wrong with a request, the fetch ends without a page. A
//! failure on the way, a status that does not say success and a body that
//! cannot be read are not told apart, and nothing is tried again.

use crate::request::{Page, PageRequest, PageRequestView};
use vstd::prelude::*;

verus! {

/// The number of requests that the rate limiter lets pass in one second.
pub const REQUESTS_PER_SECOND: u32 = 1;

/// What came of sending one request.
#[derive(Debug)]
pub enum Outcome<T> {
    /// The request did not get through, or no answer came back.
    TransportFailure,
    /// An answer came back with `status`; `body` is the page that was read
    /// from it, or `None` if none could be read.
    Answer { status: u16, body: Option<Page<T>> },
}

/// Whether an HTTP status says success.
pub open spec fn is_success(status: u16) -> bool {
    200 <= status < 300
}

/// The page that an outcome amounts to: the body of an answer whose status
/// says success, and nothing in every other case.
pub open spec fn page_of<T>(outcome: Outcome<T>) -> Option<Page<T>> {
    match outcome {
        Outcome::TransportFailure => None,
        Outcome::Answer { status, body } => if is_success(status) {
            body
        } else {
            None
        },
    }
}

impl<T> Outcome<T> {
    /// The page that this outcome amounts to, `None` standing for "no more
    /// data".
    pub fn into_page(self) -> (page: Option<Page<T>>)
        ensures
            page == page_of(self),
    {
        match self {
            Outcome::TransportFailure => None,
            Outcome::Answer { status, body } => if 200 <= status && status < 300 {
                body
            } else {
                None
            },
        }
    }
}

/// The stage of a fetch.
pub ghost enum FetchState {
    /// No token has been taken yet.
    Waiting(PageRequestView),
    /// A token has been taken; the request is due or under way.
    Cleared(PageRequestView),
    /// The outcome is known.
    Finished,
}

/// What the driver of a fetch is to do next, as a fetch says it in ghost
/// code.
pub ghost enum Duty {
    AwaitToken,
    Send(PageRequestView),
    Nothing,
}

/// What happens to a fetch.
pub ghost enum FetchEvent<T> {
    /// The rate limiter has handed out a token.
    Token,
    /// The request has ended with this outcome.
    Outcome(Outcome<T>),
}

/// What is to be done for a fetch in state `s`.
pub open spec fn duty_of(s: FetchState) -> Duty {
    match s {
        FetchState::Waiting(_) => Duty::AwaitToken,
        FetchState::Cleared(request) => Duty::Send(request),
        FetchState::Finished => Duty::Nothing,
    }
}

/// The state of a fetch after a token: a waiting fetch is cleared, any other
/// stays as it is.
pub open spec fn after_token(s: FetchState) -> FetchState {
    match s {
        FetchState::Waiting(request) => FetchState::Cleared(request),
        _ => s,
    }
}

/// The state of a fetch after an outcome, and the page that the fetch gives.
/// Only a cleared fetch takes an outcome. A fetch that waits has sent
/// nothing, so an outcome handed to it is dropped.
pub open spec fn after_outcome<T>(s: FetchState, outcome: Outcome<T>) -> (
    FetchState,
    Option<Page<T>>,
) {
    match s {
        FetchState::Cleared(_) => (FetchState::Finished, page_of(outcome)),
        _ => (s, None),
    }
}

/// The state of a fetch after one event.
pub open spec fn fetch_step<T>(s: FetchState, event: FetchEvent<T>) -> FetchState {
    match event {
        FetchEvent::Token => after_token(s),
        FetchEvent::Outcome(outcome) => after_outcome(s, outcome).0,
    }
}

/// The state of a fetch after `events`, one after the other.
pub open spec fn fetch_run<T>(s: FetchState, events: Seq<FetchEvent<T>>) -> FetchState
    decreases events.len(),
{
    if events.len() == 0 {
        s
    } else {
        fetch_step(fetch_run(s, events.drop_last()), events.last())
    }
}

/// The number of requests that a fetch has been cleared to send in the
/// course of `events`, starting in state `s`: one for each token that met a
/// waiting fetch.
pub open spec fn requests_cleared<T>(s: FetchState, events: Seq<FetchEvent<T>>) -> nat
    decreases events.len(),
{
    if events.len() == 0 {
        0
    } else {
        let before = fetch_run(s, events.drop_last());
        let earlier = requests_cleared(s, events.drop_last());
        if before is Waiting && events.last() is Token {
            earlier + 1
        } else {
            earlier
        }
    }
}

/// The number of tokens among `events`.
pub open spec fn tokens_taken<T>(events: Seq<FetchEvent<T>>) -> nat
    decreases events.len(),
{
    if events.len() == 0 {
        0
    } else if events.last() is Token {
        tokens_taken(events.drop_last()) + 1
    } else {
        tokens_taken(events.drop_last())
    }
}

/// No request bypasses the rate limiter. Whatever happens to a fetch, in
/// whatever order: it hands out nothing but the request it was made for, it
/// hands it out only after a token was taken, it is cleared for at most one
/// request, and never for more requests than tokens were taken.
pub proof fn lemma_no_request_without_token<T>(request: PageRequestView, events: Seq<FetchEvent<T>>)
    ensures
        duty_of(fetch_run(FetchState::Waiting(request), events)) is Send ==> duty_of(
            fetch_run(FetchState::Waiting(request), events),
        ) == Duty::Send(request) && tokens_taken(events) >= 1,
        tokens_taken(events) == 0 ==> fetch_run(FetchState::Waiting(request), events)
            == FetchState::Waiting(request),
        requests_cleared(FetchState::Waiting(request), events) <= 1,
        requests_cleared(FetchState::Waiting(request), events) <= tokens_taken(events),
        fetch_run(FetchState::Waiting(request), events) is Waiting <==> requests_cleared(
            FetchState::Waiting(request),
            events,
        ) == 0,
        fetch_run(FetchState::Waiting(request), events) is Waiting ==> fetch_run(
            FetchState::Waiting(request),
            events,
        ) == FetchState::Waiting(request),
    decreases events.len(),
{
    if events.len() > 0 {
        lemma_no_request_without_token(request, events.drop_last());
    }
}

/// A fetch that is finished stays finished and asks for nothing more.
pub proof fn lemma_finished_fetch_stays_finished<T>(events: Seq<FetchEvent<T>>)
    ensures
        fetch_run(FetchState::Finished, events) == FetchState::Finished,
        duty_of(fetch_run(FetchState::Finished, events)) == Duty::Nothing,
    decreases events.len(),
{
    if events.len() > 0 {
        lemma_finished_fetch_stays_finished(events.drop_last());
    }
}

/// What the driver of a fetch is to do next.
#[derive(Debug)]
pub enum Action {
    /// Wait until the rate limiter hands out a token, then say so with
    /// [`Fetch::on_token`].
    AwaitToken,
    /// Send this request, then hand its outcome to [`Fetch::on_outcome`].
    Send(PageRequest),
    /// Nothing is left to do.
    Nothing,
}

impl View for Action {
    type V = Duty;

    open spec fn view(&self) -> Duty {
        match *self {
            Action::AwaitToken => Duty::AwaitToken,
            Action::Send(request) => Duty::Send(request@),
            Action::Nothing => Duty::Nothing,
        }
    }
}

#[derive(Clone, Copy, Debug)]
enum Stage {
    Waiting,
    Cleared,
    Finished,
}

/// One rate-limited fetch of one page.
#[derive(Debug)]
pub struct Fetch {
    request: PageRequest,
    stage: Stage,
}

impl View for Fetch {
    type V = FetchState;

    closed spec fn view(&self) -> FetchState {
        match self.stage {
            Stage::Waiting => FetchState::Waiting(self.request@),
            Stage::Cleared => FetchState::Cleared(self.request@),
            Stage::Finished => FetchState::Finished,
        }
    }
}

impl Fetch {
    /// A fetch for `request`, which waits for its token.
    pub fn new(request: PageRequest) -> (fetch: Self)
        ensures
            fetch@ == FetchState::Waiting(request@),
    {
        Fetch { request, stage: Stage::Waiting }
    }

    /// What is to be done next.
    pub fn next_action(&self) -> (action: Action)
        ensures
            action@ == duty_of(self@),
    {
        match self.stage {
            Stage::Waiting => Action::AwaitToken,
            Stage::Cleared => Action::Send(
                PageRequest {
                    filter: self.request.filter.clone(),
                    sort: self.request.sort,
                    limit: self.request.limit,
                    metadata: self.request.metadata,
                },
            ),
            Stage::Finished => Action::Nothing,
        }
    }

    /// Records that the rate limiter has handed out a token.
    pub fn on_token(&mut self)
        ensures
            final(self)@ == after_token(old(self)@),
    {
        match self.stage {
            Stage::Waiting => {
                self.stage = Stage::Cleared;
            },
            _ => {},
        }
    }

    /// Takes the outcome of the request and returns the page that the fetch
    /// gives, `None` standing for "no more data".
    pub fn on_outcome<T>(&mut self, outcome: Outcome<T>) -> (page: Option<Page<T>>)
        ensures
            (final(self)@, page) == after_outcome(old(self)@, outcome),
    {
        match self.stage {
            Stage::Cleared => {
                self.stage = Stage::Finished;
                outcome.into_page()
            },
            _ => None,
        }
    }
}

} // verus!
