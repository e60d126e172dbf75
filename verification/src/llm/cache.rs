//! Names of the cached pattern files. Patterns are cached forever per
//! problem id, in `<sanitized-id>.json`.

use vstd::prelude::*;

use crate::fetcher::cache::{is_key_char, sanitize_char};
use crate::text::{char_is_ascii_alnum, chars_of, string_of};

verus! {

/// A problem id with every character that is not ASCII alphanumeric, a
/// dash or a dot replaced by an underscore.
pub open spec fn sanitize_id_spec(id: Seq<char>) -> Seq<char> {
    id.map_values(|c: char| sanitize_char(c))
}

/// Sanitize a problem id into a filename-safe string: the result has the
/// same number of characters, each ASCII alphanumeric, a dash, a dot or an
/// underscore.
pub fn sanitize_id(id: &str) -> (r: String)
    ensures
        r@ == sanitize_id_spec(id@),
        forall|i: int| 0 <= i < r@.len() ==> is_key_char(#[trigger] r@[i]) || r@[i] == '_',
{
    let cs = chars_of(id);
    let mut out: Vec<char> = Vec::new();
    let mut i: usize = 0;
    while i < cs.len()
        invariant
            i <= cs@.len(),
            cs@ == id@,
            out@ == cs@.take(i as int).map_values(|c: char| sanitize_char(c)),
        decreases cs@.len() - i,
    {
        let c = cs[i];
        if char_is_ascii_alnum(c) || c == '-' || c == '.' {
            out.push(c);
        } else {
            out.push('_');
        }
        assert(cs@.take(i + 1).map_values(|c: char| sanitize_char(c)) =~= cs@.take(i as int).map_values(
            |c: char| sanitize_char(c),
        ).push(sanitize_char(c)));
        i = i + 1;
    }
    assert(cs@.take(cs@.len() as int) =~= cs@);
    string_of(out.as_slice())
}

/// The cache file name of a problem's patterns: its sanitized id and `.json`.
pub fn cache_file_name(problem_id: &str) -> (r: String)
    ensures
        r@ == sanitize_id_spec(problem_id@) + seq!['.', 'j', 's', 'o', 'n'],
{
    let s = sanitize_id(problem_id);
    let mut out = chars_of(s.as_str());
    out.push('.');
    out.push('j');
    out.push('s');
    out.push('o');
    out.push('n');
    string_of(out.as_slice())
}

} // verus!
