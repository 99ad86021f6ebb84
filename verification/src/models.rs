//! The data model of the archive: posts, comments and what they share.

use vstd::prelude::*;

verus! {

/// Anything that carries the attributes common to posts and comments.
pub trait AsAttrs {
    /// The attributes of this item.
    spec fn attrs_of(&self) -> Attrs;

    fn attrs(&self) -> (a: &Attrs)
        ensures
            *a == self.attrs_of(),
    ;
}

/// Either kind of content.
#[derive(Clone, Debug)]
pub enum Content {
    Comment(Comment),
    Post(Post),
}

impl Content {
    pub fn attrs(&self) -> (a: &Attrs)
        ensures
            *a == self.attrs_of(),
    {
        match self {
            Content::Comment(comment) => &comment.attrs,
            Content::Post(post) => &post.attrs,
        }
    }

    /// The attributes of the comment or post inside.
    pub open spec fn attrs_of(&self) -> Attrs {
        match *self {
            Content::Comment(comment) => comment.attrs,
            Content::Post(post) => post.attrs,
        }
    }

    pub fn as_comment(&self) -> (c: Option<&Comment>)
        ensures
            c == match *self {
                Content::Comment(comment) => Some(&comment),
                Content::Post(_) => None,
            },
    {
        match self {
            Content::Comment(comment) => Some(comment),
            _ => None,
        }
    }

    pub fn as_post(&self) -> (p: Option<&Post>)
        ensures
            p == match *self {
                Content::Post(post) => Some(&post),
                Content::Comment(_) => None,
            },
    {
        match self {
            Content::Post(post) => Some(post),
            _ => None,
        }
    }
}

/// Common attributes between [`Post`]'s and [`Comment`]'s.
#[derive(Clone, Debug)]
pub struct Attrs {
    /// A unique ID identify the content.
    pub id: String,
    /// The score of this content.
    pub score: i32,
    /// A permalink to this content.
    pub permalink: Option<String>,
    /// The second at which this content was created, counted from the Unix
    /// epoch.
    pub date: i64,
}

/// A single comment on a reddit [`Post`].
#[derive(Clone, Debug)]
pub struct Comment {
    pub author: Author,
    pub subreddit: SubReddit,
    pub attrs: Attrs,
    pub body: String,
    pub parent_id: String,
}

impl AsAttrs for Comment {
    open spec fn attrs_of(&self) -> Attrs {
        self.attrs
    }

    fn attrs(&self) -> (a: &Attrs) {
        &self.attrs
    }
}

/// A single reddit post.
#[derive(Clone, Debug)]
pub struct Post {
    pub author: Author,
    pub subreddit: SubReddit,
    pub attrs: Attrs,
    /// URL of the linked content.
    pub content_url: String,
    /// URL to the comment page for this post.
    pub comment_url: String,
    /// The text of this post, if a self-post.
    pub self_text: Option<String>,
}

impl AsAttrs for Post {
    open spec fn attrs_of(&self) -> Attrs {
        self.attrs
    }

    fn attrs(&self) -> (a: &Attrs) {
        &self.attrs
    }
}

/// The author of a [`Post`] or [`Comment`].
#[derive(Clone, Debug)]
pub struct Author {
    pub id: Option<String>,
    pub name: String,
}

/// The subreddit associated to a [`Post`] or [`Comment`]
#[derive(Clone, Debug)]
pub struct SubReddit {
    pub id: String,
    pub name: String,
}

} // verus!
