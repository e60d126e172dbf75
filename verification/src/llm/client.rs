//! Retry timing of the chat completion client: on HTTP 429 (rate limit) it
//! waits and retries, with exponential backoff unless the server says how
//! long to wait.

use vstd::prelude::*;

verus! {

/// Timeout for a single LLM HTTP request (seconds).
pub const TIMEOUT_SECS: u64 = 30;

/// Maximum retries on HTTP 429 before giving up.
pub const MAX_RETRIES: u32 = 3;

/// Base backoff in seconds (doubles each retry: 2s, 4s, 8s).
pub const BASE_BACKOFF_SECS: u64 = 2;

/// `2^n`.
pub open spec fn pow2(n: nat) -> nat
    decreases n,
{
    if n == 0 {
        1
    } else {
        2 * pow2((n - 1) as nat)
    }
}

/// `2u32.saturating_pow(n)`: `2^n`, or `u32::MAX` where that does not fit.
pub open spec fn pow2_saturating(n: nat) -> nat {
    if pow2(n) > u32::MAX {
        u32::MAX as nat
    } else {
        pow2(n)
    }
}

proof fn lemma_pow2_grows(n: nat)
    ensures
        pow2(n) >= 1,
        pow2(n + 1) == 2 * pow2(n),
    decreases n,
{
    if n > 0 {
        lemma_pow2_grows((n - 1) as nat);
    }
}

/// Exponential backoff in seconds: 2, 4, 8, ... (the base times
/// `2u32.saturating_pow(attempt)`).
pub fn backoff(attempt: u32) -> (r: u64)
    ensures
        r == BASE_BACKOFF_SECS * pow2_saturating(attempt as nat),
{
    let mut p: u64 = 1;
    let mut i: u32 = 0;
    while i < attempt
        invariant
            i <= attempt,
            p == pow2_saturating(i as nat),
        decreases attempt - i,
    {
        proof {
            lemma_pow2_grows(i as nat);
        }
        if p >= 0x8000_0000 {
            p = 0xffff_ffff;
        } else {
            p = p * 2;
        }
        i = i + 1;
    }
    BASE_BACKOFF_SECS * p
}

/// How long to wait (seconds) before retrying after the `attempt`-th
/// request (counted from 0) was rate limited: the server's `Retry-After`
/// when it gave one, else the backoff. `None` once `MAX_RETRIES` retries
/// were made: the client gives up.
pub fn rate_limit_wait(attempt: u32, retry_after: Option<u64>) -> (r: Option<u64>)
    ensures
        attempt >= MAX_RETRIES ==> r is None,
        attempt < MAX_RETRIES ==> r == Some(
            match retry_after {
                Some(s) => s,
                None => (BASE_BACKOFF_SECS * pow2_saturating(attempt as nat)) as u64,
            },
        ),
{
    if attempt >= MAX_RETRIES {
        return None;
    }
    match retry_after {
        Some(s) => Some(s),
        None => Some(backoff(attempt)),
    }
}

} // verus!
