//! Version rewriting for `go.mod`.

use vstd::prelude::*;

use crate::text::{
    any_edit, before, char_is_ws, chars_of, is_ws, edit_lines, find, find_range, lines, push_all, push_range,
    reassemble, skip_ws, starts_with, starts_with_at, string_of, trim, trim_bounds, trim_start,
    ws_prefix_len,
};

verus! {

/// `"require "`.
pub open spec fn require_kw() -> Seq<char> {
    seq!['r', 'e', 'q', 'u', 'i', 'r', 'e', ' ']
}

/// `"//"`.
pub open spec fn comment_kw() -> Seq<char> {
    seq!['/', '/']
}

/// The version written into `go.mod`: `new` with a leading `v` added if it
/// has none.
pub open spec fn go_version(new: Seq<char>) -> Seq<char> {
    if new.len() > 0 && new[0] == 'v' {
        new
    } else {
        seq!['v'] + new
    }
}

/// The rewritten form of one `go.mod` line, if it requires `module` at
/// some `v...` version (the module path ends at `module`: whitespace
/// follows it), either inside a `require (...)` block or as a
/// single-line `require`: the indentation and the `require ` keyword are
/// kept, the version becomes `nv`, and a `//` comment (such as
/// `// indirect`) is kept after it.
pub open spec fn go_line(line: Seq<char>, module: Seq<char>, nv: Seq<char>) -> Option<Seq<char>> {
    let trimmed = trim(line);
    let without_comment = trim(before(trimmed, comment_kw()));
    let is_req = starts_with(without_comment, require_kw());
    let dep_part = if is_req {
        trim(without_comment.subrange(8, without_comment.len() as int))
    } else {
        without_comment
    };
    if starts_with(dep_part, module) {
        let rest = dep_part.subrange(module.len() as int, dep_part.len() as int);
        let after_name = trim_start(rest);
        if rest.len() > 0 && is_ws(rest[0]) && after_name.len() > 0 && after_name[0] == 'v' {
            let indent = line.subrange(0, ws_prefix_len(line));
            let comment = match find(trimmed, comment_kw()) {
                Some(i) => trimmed.subrange(i, trimmed.len() as int),
                None => Seq::<char>::empty(),
            };
            let prefix = if is_req {
                require_kw()
            } else {
                Seq::<char>::empty()
            };
            Some(
                indent + prefix + module + seq![' '] + nv + if comment.len() == 0 {
                    Seq::<char>::empty()
                } else {
                    seq![' '] + comment
                },
            )
        } else {
            None
        }
    } else {
        None
    }
}

/// The line edit for `module` at version `nv`.
pub open spec fn go_edit(module: Seq<char>, nv: Seq<char>) -> spec_fn(Seq<char>) -> Option<
    Seq<char>,
> {
    |l: Seq<char>| go_line(l, module, nv)
}

pub(crate) fn go_line_exec(line: &[char], module: &[char], nv: &[char]) -> (r: Option<Vec<char>>)
    ensures
        r matches Some(x) ==> go_line(line@, module@, nv@) == Some(x@),
        r is None ==> go_line(line@, module@, nv@) is None,
{
    let n = line.len();
    assert(line@.subrange(0, n as int) =~= line@);
    let (ta, tb) = trim_bounds(line, 0, n);
    let ghost trimmed = line@.subrange(ta as int, tb as int);
    let ckw = ['/', '/'];
    assert(ckw@ =~= comment_kw());
    let cidx = find_range(line, ckw.as_slice(), ta, tb);
    proof {
        crate::text::lemma_find_from(trimmed, comment_kw(), 0);
    }
    let ce = match cidx {
        Some(k) => k,
        None => tb,
    };
    assert(line@.subrange(ta as int, ce as int) =~= before(trimmed, comment_kw()));
    let (wa, wb) = trim_bounds(line, ta, ce);
    let rkw = ['r', 'e', 'q', 'u', 'i', 'r', 'e', ' '];
    assert(rkw@ =~= require_kw());
    let is_req = starts_with_at(line, rkw.as_slice(), wa, wb);
    let (da, db) = if is_req {
        assert(line@.subrange(wa + 8, wb as int) =~= line@.subrange(wa as int, wb as int).subrange(
            8,
            (wb - wa) as int,
        ));
        trim_bounds(line, wa + 8, wb)
    } else {
        (wa, wb)
    };
    if !starts_with_at(line, module, da, db) {
        return None;
    }
    if !(da + module.len() < db && char_is_ws(line[da + module.len()])) {
        return None;
    }
    let p = skip_ws(line, da + module.len(), db);
    assert(line@.subrange(da + module@.len(), db as int) =~= line@.subrange(
        da as int,
        db as int,
    ).subrange(module@.len() as int, (db - da) as int));
    if !(p < db && line[p] == 'v') {
        return None;
    }
    let w = skip_ws(line, 0, n);
    let mut out: Vec<char> = Vec::new();
    push_range(&mut out, line, 0, w);
    if is_req {
        push_all(&mut out, rkw.as_slice());
    }
    push_all(&mut out, module);
    out.push(' ');
    push_all(&mut out, nv);
    match cidx {
        Some(k) => {
            out.push(' ');
            push_range(&mut out, line, k, tb);
        },
        None => {},
    }
    let ghost expected = go_line(line@, module@, nv@);
    assert(expected is Some);
    assert(out@ =~= expected->0);
    Some(out)
}

/// Text-based replacement of a module version in `go.mod`: every line
/// requiring `module_name` (single-line `require` or inside a
/// `require (...)` block) gets the version `v<new_version>`; all other
/// lines are kept. Returns the new text and whether a line changed.
pub fn replace_go_mod_version(content: &str, module_name: &str, new_version: &str) -> (r: (
    String,
    bool,
))
    ensures
        r.0@ == reassemble(
            edit_lines(lines(content@), go_edit(module_name@, go_version(new_version@))),
            content@,
        ),
        r.1 == any_edit(lines(content@), go_edit(module_name@, go_version(new_version@))),
{
    let c = chars_of(content);
    let module = chars_of(module_name);
    let nv0 = chars_of(new_version);
    let mut nv: Vec<char> = Vec::new();
    if !(nv0.len() > 0 && nv0[0] == 'v') {
        nv.push('v');
    }
    push_all(&mut nv, nv0.as_slice());
    assert(nv@ =~= go_version(new_version@));
    let (out, changed) = super::rewrite_lines(
        c.as_slice(),
        super::LineFixer::GoMod,
        module.as_slice(),
        nv.as_slice(),
    );
    (string_of(out.as_slice()), changed)
}

} // verus!
