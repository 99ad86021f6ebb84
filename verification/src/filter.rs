//! Query filters.

use vstd::prelude::*;

verus! {

/// Indicates how a particular query should be sorted.
#[non_exhaustive]
#[derive(Clone, Copy, Debug, PartialEq, Eq, Structural)]
pub enum SortType {
    /// Sort by creation date.
    CreatedDate,
    /// Sort by score.
    Score,
    /// Sort by number of comments.
    NumComments,
}

impl SortType {
    /// The sort key of a fresh filter: creation date.
    pub fn new() -> (s: Self)
        ensures
            s == SortType::CreatedDate,
    {
        SortType::CreatedDate
    }

    /// The name of the sort key as the service spells it.
    pub fn name(&self) -> (s: &'static str)
        ensures
            s@ == self.spec_name(),
    {
        match self {
            SortType::CreatedDate => "created_utc",
            SortType::Score => "score",
            SortType::NumComments => "num_comments",
        }
    }

    pub open spec fn spec_name(&self) -> Seq<char> {
        match self {
            SortType::CreatedDate => "created_utc"@,
            SortType::Score => "score"@,
            SortType::NumComments => "num_comments"@,
        }
    }
}

impl Default for SortType {
    fn default() -> (s: Self)
        ensures
            s == SortType::CreatedDate,
    {
        SortType::new()
    }
}

/// What a [`Filter`] says, with each text as a sequence of characters.
pub ghost struct FilterView {
    pub author: Option<Seq<char>>,
    pub subreddit: Option<Seq<char>>,
    pub before: Option<i64>,
    pub after: Option<i64>,
    pub sort_type: SortType,
    pub limit: Option<i64>,
}

/// The view of an optional text.
pub open spec fn text_view(text: Option<String>) -> Option<Seq<char>> {
    match text {
        Some(s) => Some(s@),
        None => None,
    }
}

/// Used to filter a particular query down in some way.
///
/// `before` and `after` are whole seconds since the Unix epoch.
#[derive(Debug)]
pub struct Filter {
    pub author: Option<String>,
    pub subreddit: Option<String>,
    pub before: Option<i64>,
    pub after: Option<i64>,
    pub sort_type: SortType,
    pub limit: Option<i64>,
}

impl View for Filter {
    type V = FilterView;

    open spec fn view(&self) -> FilterView {
        FilterView {
            author: text_view(self.author),
            subreddit: text_view(self.subreddit),
            before: self.before,
            after: self.after,
            sort_type: self.sort_type,
            limit: self.limit,
        }
    }
}

impl FilterView {
    /// The filter that restricts nothing and sorts by creation date.
    pub open spec fn unrestricted() -> FilterView {
        FilterView {
            author: None,
            subreddit: None,
            before: None,
            after: None,
            sort_type: SortType::CreatedDate,
            limit: None,
        }
    }

    /// This filter with its upper time bound replaced.
    pub open spec fn with_before(self, before: i64) -> FilterView {
        FilterView { before: Some(before), ..self }
    }

    /// This filter with its lower time bound replaced.
    pub open spec fn with_after(self, after: i64) -> FilterView {
        FilterView { after: Some(after), ..self }
    }
}

impl Filter {
    pub fn new() -> (f: Self)
        ensures
            f@ == FilterView::unrestricted(),
    {
        Filter {
            author: None,
            subreddit: None,
            before: None,
            after: None,
            sort_type: SortType::new(),
            limit: None,
        }
    }

    #[must_use]
    pub fn author(self, author: &str) -> (f: Self)
        ensures
            f@ == (FilterView { author: Some(author@), ..self@ }),
    {
        let mut f = self;
        f.author = Some(author.to_owned());
        f
    }

    #[must_use]
    pub fn subreddit(self, subreddit: &str) -> (f: Self)
        ensures
            f@ == (FilterView { subreddit: Some(subreddit@), ..self@ }),
    {
        let mut f = self;
        f.subreddit = Some(subreddit.to_owned());
        f
    }

    #[must_use]
    pub fn before(self, before: i64) -> (f: Self)
        ensures
            f@ == self@.with_before(before),
    {
        let mut f = self;
        f.before = Some(before);
        f
    }

    #[must_use]
    pub fn after(self, after: i64) -> (f: Self)
        ensures
            f@ == self@.with_after(after),
    {
        let mut f = self;
        f.after = Some(after);
        f
    }

    #[must_use]
    pub fn sort_type(self, sort_type: SortType) -> (f: Self)
        ensures
            f@ == (FilterView { sort_type, ..self@ }),
    {
        let mut f = self;
        f.sort_type = sort_type;
        f
    }

    #[must_use]
    pub fn limit(self, limit: i64) -> (f: Self)
        ensures
            f@ == (FilterView { limit: Some(limit), ..self@ }),
    {
        let mut f = self;
        f.limit = Some(limit);
        f
    }
}

impl Clone for Filter {
    fn clone(&self) -> (f: Self)
        ensures
            f == *self,
    {
        Filter {
            author: self.author.clone(),
            subreddit: self.subreddit.clone(),
            before: self.before,
            after: self.after,
            sort_type: self.sort_type,
            limit: self.limit,
        }
    }
}

impl Default for Filter {
    fn default() -> (f: Self)
        ensures
            f@ == FilterView::unrestricted(),
    {
        Filter::new()
    }
}

} // verus!
