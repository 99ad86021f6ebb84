//! # pullcaps
//!
//! The decision logic of a client for a paginated, rate-limited archive of
//! posts and comments: how a query is described, how its result set is walked
//! page by page, when and how its time range is cut into buckets that can be
//! fetched side by side, and how the pages of all buckets become one sequence
//! of items.
//!
//! Nothing in this crate performs a request. Each component is a state
//! machine that says which request to send next and takes the answer as a
//! plain value, so every rule stated here holds whatever the network does.
//!
//! Timestamps are whole seconds since the Unix epoch, in UTC.
//!
//! - [`filter`]: what a query asks for.
//! - [`models`]: posts, comments and what they share.
//! - [`request`]: the parameters of one request, and the page that answers it.
//! - [`fetch`]: one request behind the rate limiter.
//! - [`paginator`]: the walk over one time range, page by page.
//! - [`probe`]: finding out how large a result set is and what span it covers.
//! - [`bucket`]: cutting a span into ranges.
//! - [`merge`]: many walks side by side.
//! - [`interleave`]: what comes out of them, whatever the order of arrival.
//! - [`query`]: all of it in sequence, for one query.

pub mod bucket;
pub mod fetch;
pub mod filter;
pub mod interleave;
pub mod merge;
pub mod models;
pub mod paginator;
pub mod probe;
pub mod query;
pub mod request;

pub use filter::{Filter, SortType};
pub use query::Query;
