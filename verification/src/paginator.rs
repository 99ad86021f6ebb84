//! Walking one result set page by page.
//!
//! A paginator asks for the newest page of its filter, then for the page
//! before the oldest item it has seen, and so on. It stops at the first
//! answer that is missing, empty or short of a full batch. A missing answer
//! ends the walk silently: whatever went wrong with a request, the result is
//! "no more data", never an error.
//!
//! The walk is strictly forward. A paginator that is done stays done; to
//! walk the same range again, make a new one.

use crate::filter::{Filter, FilterView};
use crate::models::AsAttrs;
use crate::request::{last_date, Page, PageRequest, PageRequestView, BATCH_SIZE};
use vstd::prelude::*;

verus! {

/// The state of a walk: still running, with the filter of its next request
/// (whose `before` is the cursor), or done.
pub ghost enum Walk {
    Running(FilterView),
    Done,
}

/// The request that a walk in state `s` makes next, if it makes one: its
/// filter, no sort direction, a full batch, no count of matches.
pub open spec fn request_of(s: Walk) -> Option<PageRequestView> {
    match s {
        Walk::Running(filter) => Some(
            PageRequestView { filter, sort: None, limit: BATCH_SIZE, metadata: false },
        ),
        Walk::Done => None,
    }
}

/// What a walk in state `s` does with the answer to its request: the state
/// it goes to, and the page it yields, if any.
///
/// A missing answer and an empty page end the walk and yield nothing. Any
/// other page is yielded; a short one ends the walk, a full one moves the
/// cursor to the creation time of its last item.
pub open spec fn step<T: AsAttrs>(s: Walk, response: Option<Page<T>>) -> (Walk, Option<Vec<T>>) {
    match s {
        Walk::Done => (Walk::Done, None),
        Walk::Running(filter) => match response {
            None => (Walk::Done, None),
            Some(page) => if page.data@.len() == 0 {
                (Walk::Done, None)
            } else if page.data@.len() < BATCH_SIZE {
                (Walk::Done, Some(page.data))
            } else {
                (Walk::Running(filter.with_before(last_date(page.data@))), Some(page.data))
            },
        },
    }
}

/// The pages that a walk yields, in order, when it starts in state `s` and
/// its requests are answered by `responses`, one after the other.
pub open spec fn pages_yielded<T: AsAttrs>(s: Walk, responses: Seq<Option<Page<T>>>) -> Seq<Vec<T>>
    decreases responses.len(),
{
    if responses.len() == 0 {
        Seq::empty()
    } else {
        let (next, page) = step(s, responses.first());
        let rest = pages_yielded(next, responses.drop_first());
        match page {
            Some(data) => seq![data] + rest,
            None => rest,
        }
    }
}

/// A walk that is done yields nothing, whatever answers arrive.
pub proof fn lemma_done_yields_nothing<T: AsAttrs>(responses: Seq<Option<Page<T>>>)
    ensures
        pages_yielded(Walk::Done, responses) == Seq::<Vec<T>>::empty(),
    decreases responses.len(),
{
    if responses.len() > 0 {
        lemma_done_yields_nothing(responses.drop_first());
    }
}

/// Cursor advance: after a full page, the next request asks for what lies
/// before the creation time of that page's last item, and is otherwise the
/// request that was made before.
pub proof fn lemma_cursor_advance<T: AsAttrs>(filter: FilterView, page: Page<T>)
    requires
        page.data@.len() >= BATCH_SIZE,
    ensures
        request_of(step(Walk::Running(filter), Some(page)).0) == Some(
            PageRequestView {
                filter: filter.with_before(last_date(page.data@)),
                sort: None,
                limit: BATCH_SIZE,
                metadata: false,
            },
        ),
        step(Walk::Running(filter), Some(page)).1 == Some(page.data),
{
}

/// Termination: a page with fewer items than a full batch is the last page
/// that its walk yields. If the page is empty it is not yielded at all.
pub proof fn lemma_short_page_is_last<T: AsAttrs>(
    s: Walk,
    page: Page<T>,
    later: Seq<Option<Page<T>>>,
)
    requires
        page.data@.len() < BATCH_SIZE,
    ensures
        step(s, Some(page)).0 == Walk::Done,
        request_of(step(s, Some(page)).0) is None,
        pages_yielded(s, seq![Some(page)] + later) == if s is Running && page.data@.len() > 0 {
            seq![page.data]
        } else {
            Seq::<Vec<T>>::empty()
        },
{
    let responses = seq![Some(page)] + later;
    assert(responses.first() == Some(page));
    assert(responses.drop_first() =~= later);
    lemma_done_yields_nothing(later);
    assert(seq![page.data] + Seq::<Vec<T>>::empty() =~= seq![page.data]);
}

/// A failed request ends the walk: nothing is yielded for it, and nothing
/// after it.
pub proof fn lemma_failure_ends_walk<T: AsAttrs>(s: Walk, later: Seq<Option<Page<T>>>)
    ensures
        step::<T>(s, None).0 == Walk::Done,
        pages_yielded(s, seq![None::<Page<T>>] + later) == Seq::<Vec<T>>::empty(),
{
    let responses = seq![None::<Page<T>>] + later;
    assert(responses.first() == None::<Page<T>>);
    assert(responses.drop_first() =~= later);
    lemma_done_yields_nothing(later);
}

/// One walk over a result set.
#[derive(Debug)]
pub struct Paginator {
    filter: Filter,
    done: bool,
}

impl View for Paginator {
    type V = Walk;

    closed spec fn view(&self) -> Walk {
        if self.done {
            Walk::Done
        } else {
            Walk::Running(self.filter@)
        }
    }
}

impl Paginator {
    /// Starts a walk over what `filter` matches. The filter's `before`, if
    /// it has one, is the first cursor; with none the walk starts at the
    /// newest match.
    pub fn new(filter: Filter) -> (p: Self)
        ensures
            p@ == Walk::Running(filter@),
    {
        Paginator { filter, done: false }
    }

    /// Whether the walk has ended.
    pub fn is_done(&self) -> (done: bool)
        ensures
            done == (self@ is Done),
    {
        self.done
    }

    /// The request to send next, or `None` when the walk has ended.
    pub fn next_request(&self) -> (request: Option<PageRequest>)
        ensures
            request is Some <==> request_of(self@) is Some,
            request is Some ==> request->0@ == request_of(self@)->0,
    {
        if self.done {
            None
        } else {
            Some(
                PageRequest {
                    filter: self.filter.clone(),
                    sort: None,
                    limit: BATCH_SIZE,
                    metadata: false,
                },
            )
        }
    }

    /// Takes the answer to the request last handed out, `None` standing for
    /// a request that failed in any way, and returns the page to yield, if
    /// there is one.
    pub fn on_response<T: AsAttrs>(&mut self, response: Option<Page<T>>) -> (page: Option<Vec<T>>)
        ensures
            (final(self)@, page) == step(old(self)@, response),
    {
        if self.done {
            return None;
        }
        match response {
            None => {
                self.done = true;
                None
            },
            Some(received) => {
                let n: usize = received.data.len();
                if n == 0 {
                    self.done = true;
                    None
                } else {
                    let cursor: i64 = received.data[n - 1].attrs().date;
                    self.filter.before = Some(cursor);
                    if n < BATCH_SIZE as usize {
                        self.done = true;
                    }
                    Some(received.data)
                }
            },
        }
    }
}

} // verus!
