use pullcaps::models::{AsAttrs, Attrs, Author, Comment, Content, Post, SubReddit};

fn attrs(id: &str, date: i64) -> Attrs {
    Attrs { id: String::from(id), score: 42, permalink: Some(String::from("/r/rust/1")), date }
}

fn comment() -> Comment {
    Comment {
        author: Author { id: Some(String::from("t2_9")), name: String::from("alice") },
        subreddit: SubReddit { id: String::from("t5_1"), name: String::from("rust") },
        attrs: attrs("comment_a", 1_600_000_000),
        body: String::from("a comment"),
        parent_id: String::from("t3_1"),
    }
}

fn post() -> Post {
    Post {
        author: Author { id: None, name: String::from("bob") },
        subreddit: SubReddit { id: String::from("t5_1"), name: String::from("rust") },
        attrs: attrs("post_a", 1_500_000_000),
        content_url: String::from("https://example.org/"),
        comment_url: String::from("https://example.org/comments"),
        self_text: Some(String::from("a post")),
    }
}

#[test]
fn a_comment_hands_out_its_attributes() {
    let c = comment();
    assert_eq!(c.attrs().id, "comment_a");
    assert_eq!(c.attrs().score, 42);
    assert_eq!(c.attrs().permalink.as_deref(), Some("/r/rust/1"));
    assert_eq!(c.attrs().date, 1_600_000_000);
}

#[test]
fn a_post_hands_out_its_attributes() {
    let p = post();
    assert_eq!(p.attrs().id, "post_a");
    assert_eq!(p.attrs().date, 1_500_000_000);
}

#[test]
fn content_hands_out_the_attributes_of_what_it_holds() {
    assert_eq!(Content::Comment(comment()).attrs().id, "comment_a");
    assert_eq!(Content::Comment(comment()).attrs().date, 1_600_000_000);
    assert_eq!(Content::Post(post()).attrs().id, "post_a");
    assert_eq!(Content::Post(post()).attrs().date, 1_500_000_000);
}

#[test]
fn content_is_a_comment_or_a_post_and_not_both() {
    let c = Content::Comment(comment());
    assert_eq!(c.as_comment().unwrap().body, "a comment");
    assert_eq!(c.as_comment().unwrap().author.name, "alice");
    assert!(c.as_post().is_none());
    let p = Content::Post(post());
    assert_eq!(p.as_post().unwrap().self_text.as_deref(), Some("a post"));
    assert_eq!(p.as_post().unwrap().content_url, "https://example.org/");
    assert!(p.as_comment().is_none());
}
