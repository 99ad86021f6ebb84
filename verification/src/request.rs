//! Requests for one page, and the pages that come back.

use crate::filter::{Filter, FilterView};
use crate::models::AsAttrs;
use vstd::prelude::*;

verus! {

/// The number of items that one page request asks for.
pub const BATCH_SIZE: i64 = 50;

/// The order in which a request wants its items.
#[derive(Clone, Copy, Debug, PartialEq, Eq, Structural)]
pub enum Direction {
    /// Oldest first.
    Ascending,
    /// Newest first.
    Descending,
}

impl Direction {
    /// The direction as the service spells it.
    pub fn name(&self) -> (s: &'static str)
        ensures
            s@ == self.spec_name(),
    {
        match self {
            Direction::Ascending => "asc",
            Direction::Descending => "desc",
        }
    }

    pub open spec fn spec_name(&self) -> Seq<char> {
        match self {
            Direction::Ascending => "asc"@,
            Direction::Descending => "desc"@,
        }
    }
}

/// The two kinds of content that the service holds, each behind an endpoint
/// of its own.
#[derive(Clone, Copy, Debug, PartialEq, Eq, Structural)]
pub enum Resource {
    Comments,
    Posts,
}

impl Resource {
    /// The address that queries for this kind of content go to.
    pub fn endpoint(&self) -> (url: &'static str)
        ensures
            url@ == self.spec_endpoint(),
    {
        match self {
            Resource::Comments => "https://api.pushshift.io/reddit/comment/search/",
            Resource::Posts => "https://api.pushshift.io/reddit/submission/search/",
        }
    }

    pub open spec fn spec_endpoint(&self) -> Seq<char> {
        match self {
            Resource::Comments => "https://api.pushshift.io/reddit/comment/search/"@,
            Resource::Posts => "https://api.pushshift.io/reddit/submission/search/"@,
        }
    }
}

/// What a [`PageRequest`] says.
pub ghost struct PageRequestView {
    pub filter: FilterView,
    pub sort: Option<Direction>,
    pub limit: i64,
    pub metadata: bool,
}

/// The parameters of one request: a filter, the order of the items where one
/// is asked for, the largest number of items wanted, and whether the answer
/// should say how many items match in all.
#[derive(Clone, Debug)]
pub struct PageRequest {
    pub filter: Filter,
    pub sort: Option<Direction>,
    pub limit: i64,
    pub metadata: bool,
}

impl View for PageRequest {
    type V = PageRequestView;

    open spec fn view(&self) -> PageRequestView {
        PageRequestView {
            filter: self.filter@,
            sort: self.sort,
            limit: self.limit,
            metadata: self.metadata,
        }
    }
}

/// One answer of the service: a batch of items and, where it was asked for,
/// the number of items that match the query in all.
#[derive(Debug)]
pub struct Page<T> {
    pub data: Vec<T>,
    pub total_results: Option<i64>,
}

/// The creation time of the last item of a batch that is not empty.
pub open spec fn last_date<T: AsAttrs>(data: Seq<T>) -> i64
    recommends
        data.len() > 0,
{
    data.last().attrs_of().date
}

/// The creation time of the first item of a batch that is not empty.
pub open spec fn first_date<T: AsAttrs>(data: Seq<T>) -> i64
    recommends
        data.len() > 0,
{
    data.first().attrs_of().date
}

} // verus!
