use pullcaps::{Filter, SortType};

#[test]
fn a_new_filter_restricts_nothing() {
    let f = Filter::new();
    assert_eq!(f.author, None);
    assert_eq!(f.subreddit, None);
    assert_eq!(f.before, None);
    assert_eq!(f.after, None);
    assert_eq!(f.sort_type, SortType::CreatedDate);
    assert_eq!(f.limit, None);
}

#[test]
fn the_default_filter_is_the_new_filter() {
    let f = Filter::default();
    assert_eq!(f.author, None);
    assert_eq!(f.subreddit, None);
    assert_eq!(f.before, None);
    assert_eq!(f.after, None);
    assert_eq!(f.sort_type, SortType::CreatedDate);
    assert_eq!(f.limit, None);
}

#[test]
fn each_setter_sets_its_field_and_no_other() {
    let f = Filter::new().author("reddit");
    assert_eq!(f.author.as_deref(), Some("reddit"));
    assert_eq!(f.subreddit, None);
    let f = f.subreddit("askreddit");
    assert_eq!(f.author.as_deref(), Some("reddit"));
    assert_eq!(f.subreddit.as_deref(), Some("askreddit"));
    assert_eq!(f.before, None);
    let f = f.before(1_577_923_200);
    assert_eq!(f.before, Some(1_577_923_200));
    assert_eq!(f.after, None);
    let f = f.after(1_577_836_800);
    assert_eq!(f.before, Some(1_577_923_200));
    assert_eq!(f.after, Some(1_577_836_800));
    assert_eq!(f.sort_type, SortType::CreatedDate);
    let f = f.sort_type(SortType::Score);
    assert_eq!(f.sort_type, SortType::Score);
    assert_eq!(f.limit, None);
    let f = f.limit(25);
    assert_eq!(f.limit, Some(25));
    assert_eq!(f.author.as_deref(), Some("reddit"));
    assert_eq!(f.subreddit.as_deref(), Some("askreddit"));
    assert_eq!(f.before, Some(1_577_923_200));
    assert_eq!(f.after, Some(1_577_836_800));
    assert_eq!(f.sort_type, SortType::Score);
}

#[test]
fn a_setter_called_twice_keeps_the_last_value() {
    let f = Filter::new().author("a").author("b").before(1).before(2).limit(3).limit(4);
    assert_eq!(f.author.as_deref(), Some("b"));
    assert_eq!(f.before, Some(2));
    assert_eq!(f.limit, Some(4));
}

#[test]
fn a_clone_says_what_the_filter_says() {
    let f = Filter::new().author("reddit").subreddit("aww").before(9).after(3).sort_type(
        SortType::NumComments,
    ).limit(7);
    let g = f.clone();
    assert_eq!(g.author, f.author);
    assert_eq!(g.subreddit, f.subreddit);
    assert_eq!(g.before, f.before);
    assert_eq!(g.after, f.after);
    assert_eq!(g.sort_type, f.sort_type);
    assert_eq!(g.limit, f.limit);
}

#[test]
fn the_sort_key_defaults_to_creation_date() {
    assert_eq!(SortType::new(), SortType::CreatedDate);
    assert_eq!(SortType::default(), SortType::CreatedDate);
}

#[test]
fn sort_keys_are_spelled_as_the_service_spells_them() {
    assert_eq!(SortType::CreatedDate.name(), "created_utc");
    assert_eq!(SortType::Score.name(), "score");
    assert_eq!(SortType::NumComments.name(), "num_comments");
}
