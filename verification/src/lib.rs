//! A verified real-time statistics aggregation engine.
//!
//! The crate ingests a stream of per-request measurements (response time,
//! concurrent-connection count, memory usage), maintains rolling per-second
//! aggregates in fixed-capacity circular buffers together with all-time
//! cumulative totals, and serves point-in-time snapshots, bounded historical
//! replay and a live per-second feed.  Everything here is pure state-machine
//! logic: the surrounding application supplies timestamps and channel
//! plumbing and performs the actual I/O.

pub mod auth;
pub mod buffer;
pub mod feed;
pub mod period;
pub mod query;
pub mod engine;
pub mod totals;

use vstd::prelude::*;

verus! {

/// A heading extracted from rendered content: its level (1-6), the HTML id
/// attribute, and the heading text.
#[derive(Debug, PartialEq, Eq)]
pub struct Heading {
    /// The level of the heading. This can be 1-6.
    pub level: u8,
    /// The HTML id attribute of the heading.
    pub id: String,
    /// The text of the heading.
    pub text: String,
}

} // verus!
