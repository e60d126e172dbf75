//! The nightly feed's cache file: its name and how long it stays fresh.
//! Reading and writing it is left to the caller.

use vstd::prelude::*;

verus! {

/// How long the cached feed stays fresh, in seconds (24 hours).
pub const FEED_TTL_SECS: u64 = 86400;

/// The cached feed's file name, in the tool's cache directory.
pub const FEED_FILENAME: &'static str = "problems.feed.json";

/// Whether a cached feed of the given age (in whole seconds; `None` when it
/// cannot be told, as for a file dated in the future) is younger than 24h.
pub fn is_fresh(age_secs: Option<u64>) -> (r: bool)
    ensures
        r == (age_secs matches Some(a) && a < FEED_TTL_SECS),
{
    match age_secs {
        Some(a) => a < FEED_TTL_SECS,
        None => false,
    }
}

} // verus!
