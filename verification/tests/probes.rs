use pullcaps::bucket::{MAX_TIMESTAMP, MIN_TIMESTAMP};
use pullcaps::models::{Attrs, Author, Post, SubReddit};
use pullcaps::probe::{BoundsProbe, DateBounds};
use pullcaps::request::{Direction, Page, Resource};
use pullcaps::Filter;

fn post(date: i64) -> Post {
    Post {
        author: Author { id: Some(String::from("t2_1")), name: String::from("someone") },
        subreddit: SubReddit { id: String::from("t5_1"), name: String::from("rust") },
        attrs: Attrs { id: String::from("p"), score: 3, permalink: None, date },
        content_url: String::from("https://example.org/"),
        comment_url: String::from("https://example.org/comments"),
        self_text: None,
    }
}

fn answer(dates: &[i64], total: Option<i64>) -> Option<Page<Post>> {
    Some(Page { data: dates.iter().map(|d| post(*d)).collect(), total_results: total })
}

fn triple(bounds: DateBounds) -> (i64, i64, i64) {
    (bounds.total(), bounds.oldest(), bounds.newest())
}

#[test]
fn the_first_request_asks_for_the_newest_item_and_the_count() {
    let probe = BoundsProbe::new(Filter::new().author("reddit").before(900));
    assert!(!probe.is_finished());
    assert!(probe.outcome().is_none());
    let request = probe.next_request().unwrap();
    assert_eq!(request.sort, Some(Direction::Descending));
    assert_eq!(request.limit, 1);
    assert!(request.metadata);
    assert_eq!(request.filter.author.as_deref(), Some("reddit"));
    assert_eq!(request.filter.before, Some(900));
    assert_eq!(request.filter.after, None);
}

#[test]
fn the_second_request_asks_for_the_oldest_item() {
    let mut probe = BoundsProbe::new(Filter::new().subreddit("aww"));
    probe.on_response(answer(&[2000], Some(500)));
    assert!(!probe.is_finished());
    assert!(probe.outcome().is_none());
    let request = probe.next_request().unwrap();
    assert_eq!(request.sort, Some(Direction::Ascending));
    assert_eq!(request.limit, 1);
    assert!(request.metadata);
    assert_eq!(request.filter.subreddit.as_deref(), Some("aww"));
    assert_eq!(request.filter.before, None);
    assert_eq!(request.filter.after, None);
}

#[test]
fn a_large_result_set_gets_its_bounds() {
    let mut probe = BoundsProbe::new(Filter::new());
    probe.on_response(answer(&[1_577_923_200], Some(500)));
    probe.on_response(answer(&[1_577_836_800], None));
    assert!(probe.is_finished());
    assert!(probe.next_request().is_none());
    assert_eq!(triple(probe.outcome().unwrap()), (500, 1_577_836_800, 1_577_923_200));
    // A finished probe takes nothing in any more.
    probe.on_response(answer(&[1], Some(1000)));
    assert_eq!(triple(probe.outcome().unwrap()), (500, 1_577_836_800, 1_577_923_200));
}

#[test]
fn the_first_item_of_each_answer_counts() {
    let mut probe = BoundsProbe::new(Filter::new());
    probe.on_response(answer(&[900, 800, 700], Some(51)));
    probe.on_response(answer(&[100, 200], Some(7)));
    assert_eq!(triple(probe.outcome().unwrap()), (51, 100, 900));
}

#[test]
fn a_total_of_ten_gives_no_bounds() {
    let mut probe = BoundsProbe::new(Filter::new());
    probe.on_response(answer(&[2000], Some(10)));
    assert!(probe.is_finished());
    assert!(probe.outcome().is_none());
    assert!(probe.next_request().is_none());
}

#[test]
fn a_total_of_one_batch_gives_no_bounds_and_one_more_does() {
    let mut probe = BoundsProbe::new(Filter::new());
    probe.on_response(answer(&[2000], Some(50)));
    assert!(probe.is_finished());
    assert!(probe.outcome().is_none());
    let mut probe = BoundsProbe::new(Filter::new());
    probe.on_response(answer(&[2000], Some(51)));
    assert!(!probe.is_finished());
    probe.on_response(answer(&[1000], None));
    assert_eq!(triple(probe.outcome().unwrap()), (51, 1000, 2000));
}

#[test]
fn an_answer_without_a_count_gives_no_bounds() {
    let mut probe = BoundsProbe::new(Filter::new());
    probe.on_response(answer(&[2000], None));
    assert!(probe.is_finished());
    assert!(probe.outcome().is_none());
}

#[test]
fn a_failed_request_gives_no_bounds() {
    let mut probe = BoundsProbe::new(Filter::new());
    probe.on_response(None::<Page<Post>>);
    assert!(probe.is_finished());
    assert!(probe.outcome().is_none());
    let mut probe = BoundsProbe::new(Filter::new());
    probe.on_response(answer(&[2000], Some(500)));
    probe.on_response(None::<Page<Post>>);
    assert!(probe.is_finished());
    assert!(probe.outcome().is_none());
}

#[test]
fn an_answer_without_an_item_gives_no_bounds() {
    // A first answer without an item, but with a large count: the second
    // request is made all the same, and the probe ends without bounds after
    // it.
    let mut probe = BoundsProbe::new(Filter::new());
    probe.on_response(answer(&[], Some(500)));
    assert!(!probe.is_finished());
    let request = probe.next_request().unwrap();
    assert_eq!(request.sort, Some(Direction::Ascending));
    assert_eq!(request.limit, 1);
    assert!(request.metadata);
    probe.on_response(answer(&[1000], None));
    assert!(probe.is_finished());
    assert!(probe.next_request().is_none());
    assert!(probe.outcome().is_none());
    // A second answer without an item.
    let mut probe = BoundsProbe::new(Filter::new());
    probe.on_response(answer(&[2000], Some(500)));
    probe.on_response(answer(&[], None));
    assert!(probe.is_finished());
    assert!(probe.outcome().is_none());
    // Neither answer holds an item.
    let mut probe = BoundsProbe::new(Filter::new());
    probe.on_response(answer(&[], Some(500)));
    probe.on_response(answer(&[], Some(500)));
    assert!(probe.is_finished());
    assert!(probe.outcome().is_none());
}

#[test]
fn a_large_total_sends_two_requests_even_if_the_second_fails() {
    for first in [answer(&[2000], Some(51)), answer(&[], Some(51))] {
        let mut probe = BoundsProbe::new(Filter::new().author("reddit"));
        let mut requests = 0;
        assert!(probe.next_request().is_some());
        requests += 1;
        probe.on_response(first);
        assert!(probe.next_request().is_some());
        requests += 1;
        probe.on_response(None::<Page<Post>>);
        assert!(probe.next_request().is_none());
        assert_eq!(requests, 2);
        assert!(probe.is_finished());
        assert!(probe.outcome().is_none());
    }
}

#[test]
fn a_small_total_sends_one_request() {
    for first in [answer(&[2000], Some(50)), answer(&[], Some(3)), answer(&[2000], None), None] {
        let mut probe = BoundsProbe::new(Filter::new());
        assert!(probe.next_request().is_some());
        probe.on_response(first);
        assert!(probe.next_request().is_none());
        assert!(probe.is_finished());
        assert!(probe.outcome().is_none());
    }
}

#[test]
fn a_time_beyond_the_accepted_range_gives_no_bounds() {
    let mut probe = BoundsProbe::new(Filter::new());
    probe.on_response(answer(&[MAX_TIMESTAMP + 1], Some(500)));
    probe.on_response(answer(&[0], None));
    assert!(probe.is_finished());
    assert!(probe.outcome().is_none());
    let mut probe = BoundsProbe::new(Filter::new());
    probe.on_response(answer(&[0], Some(500)));
    probe.on_response(answer(&[MIN_TIMESTAMP - 1], None));
    assert!(probe.outcome().is_none());
    let mut probe = BoundsProbe::new(Filter::new());
    probe.on_response(answer(&[MAX_TIMESTAMP], Some(500)));
    probe.on_response(answer(&[MIN_TIMESTAMP], None));
    assert_eq!(triple(probe.outcome().unwrap()), (500, MIN_TIMESTAMP, MAX_TIMESTAMP));
}

#[test]
fn bounds_are_made_of_accepted_times_only() {
    assert_eq!(triple(DateBounds::new(500, 10, 20).unwrap()), (500, 10, 20));
    assert_eq!(triple(DateBounds::new(-3, 20, 10).unwrap()), (-3, 20, 10));
    assert!(DateBounds::new(500, MIN_TIMESTAMP - 1, 0).is_none());
    assert!(DateBounds::new(500, 0, MAX_TIMESTAMP + 1).is_none());
    assert!(DateBounds::new(500, i64::MIN, i64::MAX).is_none());
}

#[test]
fn bounds_are_cut_into_their_buckets() {
    let bounds = DateBounds::new(500, 1_577_836_800, 1_577_923_200).unwrap();
    let buckets = bounds.buckets();
    assert_eq!(buckets.len(), 21);
    assert_eq!(buckets[0], (1_577_836_800, 1_577_840_914));
    assert_eq!(buckets[20].1, 1_577_923_200);
}

#[test]
fn directions_are_spelled_as_the_service_spells_them() {
    assert_eq!(Direction::Ascending.name(), "asc");
    assert_eq!(Direction::Descending.name(), "desc");
}

#[test]
fn each_kind_of_content_has_its_endpoint() {
    assert_eq!(Resource::Comments.endpoint(), "https://api.pushshift.io/reddit/comment/search/");
    assert_eq!(Resource::Posts.endpoint(), "https://api.pushshift.io/reddit/submission/search/");
}
