//! Verified core of a personal activity-tracking application: the generation
//! and extraction gateway (streamed chat-completion decoding, single-flight
//! job coordination, resident worker lifecycle) together with the
//! configuration, path, and bookkeeping logic around it.
//!
//! Text is handled as UTF-8 byte sequences (`Vec<u8>`) throughout; the
//! unverified shell converts to and from platform string types at the edges.
pub mod client;
pub mod config;
pub mod coordinator;
pub mod dashboard;
pub mod encode;
pub mod ext;
pub mod json;
pub mod protocol;
pub mod segment;
pub mod services;
pub mod sse;
pub mod version;
pub mod worker;

use vstd::prelude::*;

verus! {

/// True when `needle` occurs as a contiguous run inside `hay` starting at `at`.
pub open spec fn is_match_at(hay: Seq<u8>, needle: Seq<u8>, at: int) -> bool {
    &&& 0 <= at
    &&& at + needle.len() <= hay.len()
    &&& hay.subrange(at, at + needle.len() as int) == needle
}

} // verus!
