//! Naming and freshness of cached OSV answers.

use vstd::prelude::*;

use crate::text::{char_is_ascii_alnum, chars_of, is_ascii_alnum, lowercase, push_all, string_of, to_lowercase};

verus! {

/// How long a cached answer stays fresh, in seconds (one hour).
pub const TTL_SECS: u64 = 3600;

/// Characters kept as they are in a cache key.
pub open spec fn is_key_char(c: char) -> bool {
    is_ascii_alnum(c) || c == '-' || c == '.'
}

/// A character of a key part: itself if kept, else an underscore.
pub open spec fn sanitize_char(c: char) -> char {
    if is_key_char(c) {
        c
    } else {
        '_'
    }
}

/// The lowercase form of `s` with every character that is not ASCII
/// alphanumeric, a dash or a dot replaced by an underscore.
pub open spec fn sanitize_spec(s: Seq<char>) -> Seq<char> {
    lowercase(s).map_values(|c: char| sanitize_char(c))
}

/// The cache key of a package version: its three parts sanitized and
/// joined by dashes.
pub open spec fn cache_key_spec(ecosystem: Seq<char>, name: Seq<char>, version: Seq<char>) -> Seq<char> {
    sanitize_spec(ecosystem) + seq!['-'] + sanitize_spec(name) + seq!['-'] + sanitize_spec(version)
}

/// Replace anything that isn't alphanumeric, dash, or dot with an underscore.
fn sanitize(s: &str) -> (r: Vec<char>)
    ensures
        r@ == sanitize_spec(s@),
{
    let low = to_lowercase(s);
    let cs = chars_of(low.as_str());
    let mut out: Vec<char> = Vec::new();
    let mut i: usize = 0;
    while i < cs.len()
        invariant
            i <= cs@.len(),
            cs@ == lowercase(s@),
            out@ == cs@.take(i as int).map_values(|c: char| sanitize_char(c)),
        decreases cs@.len() - i,
    {
        let c = cs[i];
        if char_is_ascii_alnum(c) || c == '-' || c == '.' {
            out.push(c);
        } else {
            out.push('_');
        }
        assert(cs@.take(i + 1).map_values(|c: char| sanitize_char(c)) =~= cs@.take(i as int).map_values(
            |c: char| sanitize_char(c),
        ).push(sanitize_char(c)));
        i = i + 1;
    }
    assert(cs@.take(cs@.len() as int) =~= cs@);
    out
}

/// Build a filename-safe cache key. Every character of the key is ASCII
/// alphanumeric, a dash, a dot or an underscore.
pub fn cache_key(ecosystem: &str, name: &str, version: &str) -> (r: String)
    ensures
        r@ == cache_key_spec(ecosystem@, name@, version@),
        forall|i: int| 0 <= i < r@.len() ==> is_key_char(#[trigger] r@[i]) || r@[i] == '_',
{
    let mut out = sanitize(ecosystem);
    out.push('-');
    let n = sanitize(name);
    push_all(&mut out, n.as_slice());
    out.push('-');
    let v = sanitize(version);
    push_all(&mut out, v.as_slice());
    let r = string_of(out.as_slice());
    assert(r@ =~= cache_key_spec(ecosystem@, name@, version@));
    r
}

/// Whether a cache file of the given age (in whole seconds; `None` when
/// it cannot be told, as for a file dated in the future) is still fresh.
pub fn is_fresh(age_secs: Option<u64>) -> (r: bool)
    ensures
        r == (age_secs matches Some(a) && a < TTL_SECS),
{
    match age_secs {
        Some(a) => a < TTL_SECS,
        None => false,
    }
}

} // verus!
