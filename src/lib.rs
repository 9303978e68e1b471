//! A crawler for a monthly archive of data files.
//!
//! The library holds the crawl's logic: the window of monthly periods, the
//! names and addresses derived from a period, the request that a file fetch
//! makes, and the state machine that decides, event by event, which directory
//! to open, which files to fetch and which failure lines to record. The I/O
//! (browser, HTTP, file system) is performed by the caller.
use vstd::prelude::*;

pub mod text;
pub mod period;
pub mod crawl;
pub mod fetch;
pub mod failure_log;

verus! {

} // verus!
