//! What can go wrong in the registry and in serving a feed.

use vstd::prelude::*;

verus! {

/// Why an operation on the registry failed.
#[derive(Debug, Clone, Copy, PartialEq, Eq, Structural)]
pub enum StoreError {
    /// No record has the id that was asked for.
    NotFound,
    /// The durable text could not be produced, read or understood.
    Persistence,
}

/// Why a feed could not be served.
#[derive(Debug, Clone, Copy, PartialEq, Eq, Structural)]
pub enum FeedError {
    /// No record has the id that was asked for.
    NotFound,
    /// The remote source could not be reached.
    UpstreamUnreachable,
    /// The remote source answered, but its body was no text.
    UpstreamBodyError,
}

impl FeedError {
    /// The HTTP status that tells the three failures apart: the record is
    /// missing, the remote source is down, or what it sent was no text.
    pub open spec fn status_of(self) -> u16 {
        match self {
            FeedError::NotFound => 404,
            FeedError::UpstreamUnreachable => 502,
            FeedError::UpstreamBodyError => 500,
        }
    }

    /// The line that goes with the status.
    pub open spec fn message_of(self) -> Seq<char> {
        match self {
            FeedError::NotFound => "Calendar not found"@,
            FeedError::UpstreamUnreachable => "Failed to fetch calendar"@,
            FeedError::UpstreamBodyError => "Failed to read response text"@,
        }
    }

    /// The HTTP status for this failure.
    pub fn status_code(&self) -> (code: u16)
        ensures
            code == self.status_of(),
    {
        match self {
            FeedError::NotFound => 404,
            FeedError::UpstreamUnreachable => 502,
            FeedError::UpstreamBodyError => 500,
        }
    }

    /// The line that goes with the status.
    pub fn message(&self) -> (text: String)
        ensures
            text@ == self.message_of(),
    {
        match self {
            FeedError::NotFound => "Calendar not found".to_owned(),
            FeedError::UpstreamUnreachable => "Failed to fetch calendar".to_owned(),
            FeedError::UpstreamBodyError => "Failed to read response text".to_owned(),
        }
    }
}

impl StoreError {
    /// What went wrong, in words.
    pub open spec fn message_of(self) -> Seq<char> {
        match self {
            StoreError::NotFound => "Calendar not found"@,
            StoreError::Persistence => "Calendar store could not be persisted"@,
        }
    }

    /// What went wrong, in words.
    pub fn message(&self) -> (text: String)
        ensures
            text@ == self.message_of(),
    {
        match self {
            StoreError::NotFound => "Calendar not found".to_owned(),
            StoreError::Persistence => "Calendar store could not be persisted".to_owned(),
        }
    }
}

} // verus!
