//! Version rewriting for `Cargo.toml`.

use vstd::prelude::*;

use super::npm::{prefix_len, version_prefix};
use crate::text::{
    any_edit, chars_of, edit_lines, find, find_range, lemma_find_from, lines, push_all, push_range,
    reassemble, skip_ws, skip_ws_back, starts_with, starts_with_at, string_of, trim_end, trim_start,
    ws_prefix_len,
};

verus! {

/// `"version"`.
pub open spec fn version_kw() -> Seq<char> {
    seq!['v', 'e', 'r', 's', 'i', 'o', 'n']
}

/// The quoted value `v` (starting with its opening quote) with the spec
/// inside the quotes replaced by its `^`/`~`/`>=` prefix and `new`; the
/// closing quote and all that follows are kept. `None` if it does not close.
pub open spec fn replace_quoted_version(v: Seq<char>, new: Seq<char>) -> Option<Seq<char>> {
    let inner = v.subrange(1, v.len() as int);
    match find(inner, seq!['"']) {
        Some(close) => {
            let old = inner.subrange(0, close);
            Some(seq!['"'] + version_prefix(old) + new + inner.subrange(close, inner.len() as int))
        },
        None => None,
    }
}

/// The table value `v` (`{ version = "^1.0.0", ... }`) with the quoted
/// value after its first `version` and the `=` that follows replaced as in
/// `replace_quoted_version`.
pub open spec fn replace_table_version(v: Seq<char>, new: Seq<char>) -> Option<Seq<char>> {
    match find(v, version_kw()) {
        Some(vi) => {
            let after_key = v.subrange(vi + 7, v.len() as int);
            match find(after_key, seq!['=']) {
                Some(eq) => {
                    let rest = after_key.subrange(eq + 1, after_key.len() as int);
                    let q = vi + 7 + eq + 1 + ws_prefix_len(rest);
                    if q < v.len() && v[q] == '"' {
                        match replace_quoted_version(v.subrange(q, v.len() as int), new) {
                            Some(x) => Some(v.subrange(0, q) + x),
                            None => None,
                        }
                    } else {
                        None
                    }
                },
                None => None,
            }
        },
        None => None,
    }
}

/// The rewritten form of one `Cargo.toml` line declaring `krate`, if it
/// has one: the trimmed line is `krate`, optional blanks, `=`, optional
/// blanks and a value; a quoted value, or the `version` entry of a table
/// value, gets the new version. Everything before the value and all after
/// the replaced spec is kept.
pub open spec fn cargo_line(line: Seq<char>, krate: Seq<char>, new: Seq<char>) -> Option<Seq<char>> {
    let w = ws_prefix_len(line);
    let ts = line.subrange(w, line.len() as int);
    let t = trim_end(ts);
    let trailing = ts.subrange(t.len() as int, ts.len() as int);
    if starts_with(t, krate) {
        let rest = trim_start(t.subrange(krate.len() as int, t.len() as int));
        if rest.len() > 0 && rest[0] == '=' {
            let v = trim_start(rest.subrange(1, rest.len() as int));
            let head = t.subrange(0, t.len() - v.len());
            let nv = if v.len() > 0 && v[0] == '"' {
                replace_quoted_version(v, new)
            } else if v.len() > 0 && v[0] == '{' {
                replace_table_version(v, new)
            } else {
                None
            };
            match nv {
                Some(x) => Some(line.subrange(0, w) + head + x + trailing),
                None => None,
            }
        } else {
            None
        }
    } else {
        None
    }
}

/// The line edit for `krate` at version `new`.
pub open spec fn cargo_edit(krate: Seq<char>, new: Seq<char>) -> spec_fn(Seq<char>) -> Option<
    Seq<char>,
> {
    |l: Seq<char>| cargo_line(l, krate, new)
}

/// `line` with the quoted value at `q` (ending by `end`) rewritten.
fn replace_quoted_at(line: &[char], q: usize, end: usize, new: &[char]) -> (r: Option<Vec<char>>)
    requires
        q < end <= line@.len(),
        line@[q as int] == '"',
    ensures
        r matches Some(x) ==> (match replace_quoted_version(line@.subrange(q as int, end as int), new@) {
            Some(y) => x@ == line@.subrange(0, q as int) + y + line@.subrange(end as int, line@.len() as int),
            None => false,
        }),
        r is None ==> replace_quoted_version(line@.subrange(q as int, end as int), new@) is None,
{
    let n = line.len();
    let ghost v = line@.subrange(q as int, end as int);
    let quote = ['"'];
    assert(quote@ =~= seq!['"']);
    let found = find_range(line, quote.as_slice(), q + 1, end);
    assert(line@.subrange(q + 1, end as int) =~= v.subrange(1, v.len() as int));
    match found {
        Some(close) => {
            proof {
                lemma_find_from(line@.subrange(q + 1, end as int), seq!['"'], 0);
            }
            let mut old: Vec<char> = Vec::new();
            push_range(&mut old, line, q + 1, close);
            assert(old@ =~= v.subrange(1, v.len() as int).subrange(0, close - (q + 1)));
            let plen = prefix_len(old.as_slice(), 0, old.len());
            assert(old@.subrange(0, old@.len() as int) =~= old@);
            let mut out: Vec<char> = Vec::new();
            push_range(&mut out, line, 0, q + 1);
            push_range(&mut out, old.as_slice(), 0, plen);
            push_all(&mut out, new);
            push_range(&mut out, line, close, n);
            let ghost y = replace_quoted_version(v, new@)->0;
            assert(v.subrange(1, v.len() as int).subrange(close - (q + 1), v.len() - 1) =~= line@.subrange(close as int, end as int));
            assert(line@.subrange(0, q + 1) =~= line@.subrange(0, q as int) + seq!['"']);
            assert(out@ =~= line@.subrange(0, q as int) + y + line@.subrange(end as int, n as int));
            Some(out)
        },
        None => None,
    }
}

/// `line` with the table value at `p` (ending by `end`) rewritten.
fn replace_table_at(line: &[char], p: usize, end: usize, new: &[char]) -> (r: Option<Vec<char>>)
    requires
        p <= end <= line@.len(),
    ensures
        r matches Some(x) ==> (match replace_table_version(line@.subrange(p as int, end as int), new@) {
            Some(y) => x@ == line@.subrange(0, p as int) + y + line@.subrange(end as int, line@.len() as int),
            None => false,
        }),
        r is None ==> replace_table_version(line@.subrange(p as int, end as int), new@) is None,
{
    let ghost v = line@.subrange(p as int, end as int);
    let kw = ['v', 'e', 'r', 's', 'i', 'o', 'n'];
    assert(kw@ =~= version_kw());
    let vi = match find_range(line, kw.as_slice(), p, end) {
        Some(vi) => vi,
        None => return None,
    };
    proof {
        lemma_find_from(v, version_kw(), 0);
    }
    let ghost after_key = v.subrange(vi - p + 7, v.len() as int);
    assert(line@.subrange(vi + 7, end as int) =~= after_key);
    let eqs = ['='];
    assert(eqs@ =~= seq!['=']);
    let eq = match find_range(line, eqs.as_slice(), vi + 7, end) {
        Some(eq) => eq,
        None => return None,
    };
    proof {
        lemma_find_from(after_key, seq!['='], 0);
    }
    let q = skip_ws(line, eq + 1, end);
    assert(line@.subrange(eq + 1, end as int) =~= after_key.subrange(
        eq + 1 - (vi + 7),
        after_key.len() as int,
    ));
    if !(q < end && line[q] == '"') {
        return None;
    }
    assert(v.subrange(q - p, v.len() as int) =~= line@.subrange(q as int, end as int));
    let r = replace_quoted_at(line, q, end, new);
    match r {
        Some(x) => {
            let ghost y = replace_quoted_version(line@.subrange(q as int, end as int), new@)->0;
            assert(line@.subrange(0, q as int) =~= line@.subrange(0, p as int) + v.subrange(0, q - p));
            assert(x@ =~= line@.subrange(0, p as int) + (v.subrange(0, q - p) + y) + line@.subrange(end as int, line@.len() as int));
            Some(x)
        },
        None => None,
    }
}

pub(crate) fn cargo_line_exec(line: &[char], krate: &[char], new: &[char]) -> (r: Option<Vec<char>>)
    ensures
        r matches Some(x) ==> cargo_line(line@, krate@, new@) == Some(x@),
        r is None ==> cargo_line(line@, krate@, new@) is None,
{
    let n = line.len();
    let a = skip_ws(line, 0, n);
    assert(line@.subrange(0, n as int) =~= line@);
    let b = skip_ws_back(line, a, n);
    let ghost ts = line@.subrange(a as int, n as int);
    let ghost t = line@.subrange(a as int, b as int);
    assert(t == trim_end(ts));
    assert(ts.subrange(t.len() as int, ts.len() as int) =~= line@.subrange(b as int, n as int));
    if !starts_with_at(line, krate, a, b) {
        return None;
    }
    let r0 = skip_ws(line, a + krate.len(), b);
    assert(line@.subrange(a + krate@.len(), b as int) =~= t.subrange(krate@.len() as int, t.len() as int));
    if !(r0 < b && line[r0] == '=') {
        return None;
    }
    let p = skip_ws(line, r0 + 1, b);
    assert(line@.subrange(r0 + 1, b as int) =~= line@.subrange(r0 as int, b as int).subrange(
        1,
        (b - r0) as int,
    ));
    let ghost v = line@.subrange(p as int, b as int);
    assert(t.subrange(0, t.len() - v.len()) =~= line@.subrange(a as int, p as int));
    let r = if p < b && line[p] == '"' {
        replace_quoted_at(line, p, b, new)
    } else if p < b && line[p] == '{' {
        replace_table_at(line, p, b, new)
    } else {
        None
    };
    match r {
        Some(x) => {
            assert(line@.subrange(0, p as int) =~= line@.subrange(0, a as int) + line@.subrange(a as int, p as int));
            Some(x)
        },
        None => None,
    }
}

/// Text-based replacement of a crate version in `Cargo.toml`, in both the
/// `crate = "^1.0.0"` and `crate = { version = "^1.0.0", ... }` forms; the
/// `^`/`~`/`>=` prefix and every other line are kept. Returns the new text
/// and whether a line changed.
pub fn replace_cargo_version(content: &str, crate_name: &str, new_version: &str) -> (r: (
    String,
    bool,
))
    ensures
        r.0@ == reassemble(
            edit_lines(lines(content@), cargo_edit(crate_name@, new_version@)),
            content@,
        ),
        r.1 == any_edit(lines(content@), cargo_edit(crate_name@, new_version@)),
{
    let c = chars_of(content);
    let krate = chars_of(crate_name);
    let nv = chars_of(new_version);
    let (out, changed) = super::rewrite_lines(
        c.as_slice(),
        super::LineFixer::CargoToml,
        krate.as_slice(),
        nv.as_slice(),
    );
    (string_of(out.as_slice()), changed)
}

} // verus!
