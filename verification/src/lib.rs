//! A registry of calendar feeds.
//!
//! The registry keeps one record for each remote calendar; every record has
//! an id that no other record shares. Its durable form is tabular text with
//! a header row and one row for each record. This crate changes the records
//! and produces and reads that text; reading and writing the file, and
//! fetching a feed, are left to the caller.

pub mod calendar;
pub mod codec;
pub mod error;
pub mod feed;
pub mod ident;
pub mod laws;
pub mod records;
pub mod store;
pub mod table;

pub use calendar::{Calendar, CalendarForm, CalendarView};
pub use error::{FeedError, StoreError};
pub use feed::{feed_body, feed_path, feed_source, Fetched};
pub use store::{CalendarStore, StoreFile};
