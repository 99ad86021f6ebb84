use pullcaps::fetch::{Action, Fetch, Outcome, REQUESTS_PER_SECOND};
use pullcaps::models::{Attrs, Author, Comment, SubReddit};
use pullcaps::request::{Direction, Page, PageRequest};
use pullcaps::Filter;

fn comment(date: i64) -> Comment {
    Comment {
        author: Author { id: None, name: String::from("someone") },
        subreddit: SubReddit { id: String::from("t5_1"), name: String::from("rust") },
        attrs: Attrs { id: String::from("c"), score: 1, permalink: None, date },
        body: String::from("text"),
        parent_id: String::from("t3_1"),
    }
}

fn request() -> PageRequest {
    PageRequest {
        filter: Filter::new().author("reddit").before(900),
        sort: Some(Direction::Descending),
        limit: 1,
        metadata: true,
    }
}

fn body(n: usize) -> Option<Page<Comment>> {
    Some(Page { data: (0..n).map(|i| comment(100 - i as i64)).collect(), total_results: Some(7) })
}

fn cleared() -> Fetch {
    let mut fetch = Fetch::new(request());
    fetch.on_token();
    fetch
}

#[test]
fn one_request_passes_per_second() {
    assert_eq!(REQUESTS_PER_SECOND, 1);
}

#[test]
fn a_fetch_waits_for_its_token_first() {
    let fetch = Fetch::new(request());
    assert!(matches!(fetch.next_action(), Action::AwaitToken));
}

#[test]
fn a_cleared_fetch_hands_out_its_request_as_it_was_given() {
    let fetch = cleared();
    match fetch.next_action() {
        Action::Send(sent) => {
            assert_eq!(sent.filter.author.as_deref(), Some("reddit"));
            assert_eq!(sent.filter.before, Some(900));
            assert_eq!(sent.filter.after, None);
            assert_eq!(sent.sort, Some(Direction::Descending));
            assert_eq!(sent.limit, 1);
            assert!(sent.metadata);
        }
        other => panic!("expected a request, got {:?}", other),
    }
}

#[test]
fn further_tokens_clear_nothing_more() {
    let mut fetch = cleared();
    fetch.on_token();
    assert!(matches!(fetch.next_action(), Action::Send(_)));
    let page = fetch.on_outcome(Outcome::Answer { status: 200, body: body(1) });
    assert!(page.is_some());
    fetch.on_token();
    assert!(matches!(fetch.next_action(), Action::Nothing));
}

#[test]
fn a_good_answer_gives_its_page() {
    let mut fetch = cleared();
    let page = fetch.on_outcome(Outcome::Answer { status: 200, body: body(3) }).unwrap();
    assert_eq!(page.data.len(), 3);
    assert_eq!(page.data[0].attrs.date, 100);
    assert_eq!(page.data[2].attrs.date, 98);
    assert_eq!(page.total_results, Some(7));
    assert!(matches!(fetch.next_action(), Action::Nothing));
}

#[test]
fn every_status_from_200_to_299_says_success() {
    for status in [200u16, 201, 204, 299] {
        let mut fetch = cleared();
        assert!(fetch.on_outcome(Outcome::Answer { status, body: body(1) }).is_some());
    }
}

#[test]
fn any_other_status_gives_no_page() {
    for status in [0u16, 100, 199, 300, 301, 404, 429, 500, 503, u16::MAX] {
        let mut fetch = cleared();
        assert!(fetch.on_outcome(Outcome::Answer { status, body: body(1) }).is_none());
        assert!(matches!(fetch.next_action(), Action::Nothing));
    }
}

#[test]
fn a_body_that_cannot_be_read_gives_no_page() {
    let mut fetch = cleared();
    let page: Option<Page<Comment>> = fetch.on_outcome(Outcome::Answer { status: 200, body: None });
    assert!(page.is_none());
    assert!(matches!(fetch.next_action(), Action::Nothing));
}

#[test]
fn a_transport_failure_gives_no_page() {
    let mut fetch = cleared();
    let page: Option<Page<Comment>> = fetch.on_outcome(Outcome::TransportFailure);
    assert!(page.is_none());
    assert!(matches!(fetch.next_action(), Action::Nothing));
}

#[test]
fn an_outcome_without_a_token_is_dropped() {
    let mut fetch = Fetch::new(request());
    assert!(fetch.on_outcome(Outcome::Answer { status: 200, body: body(1) }).is_none());
    // The fetch still waits, and can still be carried out.
    assert!(matches!(fetch.next_action(), Action::AwaitToken));
    fetch.on_token();
    assert!(fetch.on_outcome(Outcome::Answer { status: 200, body: body(1) }).is_some());
}

#[test]
fn a_finished_fetch_takes_no_second_outcome() {
    let mut fetch = cleared();
    assert!(fetch.on_outcome(Outcome::Answer { status: 200, body: body(1) }).is_some());
    assert!(fetch.on_outcome(Outcome::Answer { status: 200, body: body(1) }).is_none());
    assert!(matches!(fetch.next_action(), Action::Nothing));
}
