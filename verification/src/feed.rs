//! Serving a feed: from the id of a record to the content of its source.
//!
//! The fetch itself is the caller's. The registry says where to fetch, and
//! what came of the fetch decides what is served. Nothing here changes the
//! registry.

use vstd::prelude::*;
use crate::error::FeedError;
use crate::records::lookup;
use crate::store::CalendarStore;

verus! {

/// What came of fetching a source.
#[derive(Debug)]
pub enum Fetched {
    /// The source could not be reached.
    Unreachable,
    /// The source answered, but its body was no text.
    Unreadable,
    /// The text of the body.
    Body(String),
}

/// The path under which the feed of the record `id` is served.
pub open spec fn feed_path_of(id: Seq<char>) -> Seq<char> {
    "/ical/"@ + id
}

/// The path under which the feed of the record `id` is served.
pub fn feed_path(id: &str) -> (path: String)
    ensures
        path@ == feed_path_of(id@),
{
    let mut path = "/ical/".to_owned();
    path.append(id);
    path
}

/// The address from which the feed of the record `id` is fetched.
pub fn feed_source(store: &CalendarStore, id: &str) -> (source: Result<String, FeedError>)
    ensures
        match lookup(store@, id@) {
            Some(c) => source matches Ok(url) && url@ == c.source_url,
            None => source matches Err(FeedError::NotFound),
        },
{
    match store.get(id) {
        Some(calendar) => Ok(calendar.source_url),
        None => Err(FeedError::NotFound),
    }
}

/// What is served after the fetch: the body as it came, or the error that
/// tells a source which is down from one which sent no text.
pub fn feed_body(fetched: Fetched) -> (body: Result<String, FeedError>)
    ensures
        match fetched {
            Fetched::Unreachable => body matches Err(FeedError::UpstreamUnreachable),
            Fetched::Unreadable => body matches Err(FeedError::UpstreamBodyError),
            Fetched::Body(text) => body == Ok::<String, FeedError>(text),
        },
{
    match fetched {
        Fetched::Unreachable => Err(FeedError::UpstreamUnreachable),
        Fetched::Unreadable => Err(FeedError::UpstreamBodyError),
        Fetched::Body(text) => Ok(text),
    }
}

} // verus!
