//! Version rewriting for `requirements.txt` and `pyproject.toml`.

use vstd::prelude::*;

use crate::scanner::manifest::pip::{normalize_pip_name, pip_normal};
use crate::text::{
    any_edit, before, chars_eq, chars_of, edit_lines, find, find_range, lemma_find_from, lines,
    push_all, push_range, reassemble, replace_first, replace_first_exec, skip_ws, skip_ws_back,
    string_of, trim, trim_bounds, trim_char, trim_char_bounds, trim_end, trim_start, ws_prefix_len,
    is_ws, occurs_at, lemma_find_single, lemma_trim_start, lemma_trim_end,
};

verus! {

/// The comparison operators `parse_req_line` tries, in order.
pub open spec fn req_ops() -> Seq<Seq<char>> {
    seq![
        seq!['=', '='],
        seq!['~', '='],
        seq!['>', '='],
        seq!['<', '='],
        seq!['!', '='],
        seq!['>'],
        seq!['<'],
    ]
}

fn req_ops_exec() -> (r: Vec<Vec<char>>)
    ensures
        r@.len() == 7,
        forall|i: int| 0 <= i < 7 ==> (#[trigger] r@[i])@ == req_ops()[i],
{
    let r = vec![
        vec!['=', '='],
        vec!['~', '='],
        vec!['>', '='],
        vec!['<', '='],
        vec!['!', '='],
        vec!['>'],
        vec!['<'],
    ];
    assert(r@[0]@ =~= req_ops()[0]);
    assert(r@[1]@ =~= req_ops()[1]);
    assert(r@[2]@ =~= req_ops()[2]);
    assert(r@[3]@ =~= req_ops()[3]);
    assert(r@[4]@ =~= req_ops()[4]);
    assert(r@[5]@ =~= req_ops()[5]);
    assert(r@[6]@ =~= req_ops()[6]);
    r
}

/// The requirement itself: the line before any `#` comment, trimmed.
pub open spec fn req_base(line: Seq<char>) -> Seq<char> {
    trim(before(line, seq!['#']))
}

/// `(name_part, extras, rest)`: a `[...]` extras group and the text before
/// and after it, or the whole base with no extras.
pub open spec fn req_extras(base: Seq<char>) -> (Seq<char>, Seq<char>, Seq<char>) {
    match find(base, seq!['[']) {
        Some(bs) => match find(base.subrange(bs, base.len() as int), seq![']']) {
            Some(be) => (
                base.subrange(0, bs),
                base.subrange(bs, bs + be + 1),
                base.subrange(bs + be + 1, base.len() as int),
            ),
            None => (base, Seq::<char>::empty(), Seq::<char>::empty()),
        },
        None => (base, Seq::<char>::empty(), Seq::<char>::empty()),
    }
}

/// The first parse, trying operators from the `k`-th on:
/// `(name, operator, version, extras, trailing)`.
pub open spec fn parse_req_from(np: Seq<char>, ex: Seq<char>, rest: Seq<char>, k: int) -> Option<
    (Seq<char>, Seq<char>, Seq<char>, Seq<char>, Seq<char>),
>
    decreases 7 - k,
{
    if k < 0 || k >= 7 {
        None
    } else {
        let op = req_ops()[k];
        let search = if rest.len() == 0 {
            np
        } else {
            rest
        };
        match find(search, op) {
            Some(idx) => {
                let name = if rest.len() == 0 {
                    trim(search.subrange(0, idx))
                } else {
                    trim(np)
                };
                let after_op = search.subrange(idx + op.len(), search.len() as int);
                let version = trim(before(after_op, seq![',']));
                let trailing = match find(after_op, seq![',']) {
                    Some(i) => after_op.subrange(i, after_op.len() as int),
                    None => Seq::<char>::empty(),
                };
                if name.len() > 0 && version.len() > 0 {
                    Some((name, op, version, ex, trailing))
                } else {
                    parse_req_from(np, ex, rest, k + 1)
                }
            },
            None => parse_req_from(np, ex, rest, k + 1),
        }
    }
}

/// A requirements line as `(name, operator, version, extras, trailing)`;
/// `trailing` is what follows the version from its first `,` on.
pub open spec fn parse_req_line_spec(line: Seq<char>) -> Option<
    (Seq<char>, Seq<char>, Seq<char>, Seq<char>, Seq<char>),
> {
    let x = req_extras(req_base(line));
    parse_req_from(x.0, x.1, x.2, 0)
}

/// The parts of a requirement, as character vectors.
pub struct ReqParts {
    pub name: Vec<char>,
    pub op: Vec<char>,
    pub version: Vec<char>,
    pub extras: Vec<char>,
    pub trailing: Vec<char>,
}

fn copy_range(s: &[char], a: usize, b: usize) -> (r: Vec<char>)
    requires
        a <= b <= s@.len(),
    ensures
        r@ == s@.subrange(a as int, b as int),
{
    let mut v: Vec<char> = Vec::new();
    push_range(&mut v, s, a, b);
    v
}

pub(crate) fn parse_req_chars(line: &[char]) -> (r: Option<ReqParts>)
    ensures
        r matches Some(p) ==> parse_req_line_spec(line@) == Some(
            (p.name@, p.op@, p.version@, p.extras@, p.trailing@),
        ),
        r is None ==> parse_req_line_spec(line@) is None,
{
    let n = line.len();
    assert(line@.subrange(0, n as int) =~= line@);
    let hash = ['#'];
    assert(hash@ =~= seq!['#']);
    let he = match find_range(line, hash.as_slice(), 0, n) {
        Some(i) => i,
        None => n,
    };
    proof {
        lemma_find_from(line@, seq!['#'], 0);
    }
    assert(line@.subrange(0, he as int) == before(line@, seq!['#']));
    let (ba, bb) = trim_bounds(line, 0, he);
    let base = copy_range(line, ba, bb);
    let ghost bv = base@;
    assert(bv == req_base(line@));
    let bl = base.len();
    assert(bv.subrange(0, bl as int) =~= bv);
    // Split off an extras group.
    let open_b = ['['];
    let close_b = [']'];
    assert(open_b@ =~= seq!['[']);
    assert(close_b@ =~= seq![']']);
    let mut np_end = bl;
    let mut ex_start = bl;
    let mut ex_end = bl;
    match find_range(base.as_slice(), open_b.as_slice(), 0, bl) {
        Some(bs) => {
            proof {
                lemma_find_from(bv, seq!['['], 0);
            }
            match find_range(base.as_slice(), close_b.as_slice(), bs, bl) {
                Some(be) => {
                    proof {
                        lemma_find_from(bv.subrange(bs as int, bl as int), seq![']'], 0);
                    }
                    np_end = bs;
                    ex_start = bs;
                    ex_end = be + 1;
                },
                None => {},
            }
        },
        None => {},
    }
    let np = copy_range(base.as_slice(), 0, np_end);
    let ex = if ex_start < ex_end {
        copy_range(base.as_slice(), ex_start, ex_end)
    } else {
        Vec::new()
    };
    let rest = copy_range(base.as_slice(), ex_end, bl);
    let ghost x = req_extras(bv);
    assert(np@ == x.0 && ex@ == x.1 && rest@ == x.2) by {
        if np_end == bl {
            assert(bv.subrange(0, bl as int) =~= bv);
            assert(ex@ =~= Seq::<char>::empty());
            assert(rest@ =~= Seq::<char>::empty());
        }
    }
    let ops = req_ops_exec();
    let comma = [','];
    assert(comma@ =~= seq![',']);
    let search: &Vec<char> = if rest.len() == 0 {
        &np
    } else {
        &rest
    };
    let sl = search.len();
    assert(search@.subrange(0, sl as int) =~= search@);
    let mut k: usize = 0;
    while k < 7
        invariant
            k <= 7,
            ops@.len() == 7,
            forall|i: int| 0 <= i < 7 ==> (#[trigger] ops@[i])@ == req_ops()[i],
            comma@ == seq![','],
            sl == search@.len(),
            search@ == (if rest@.len() == 0 {
                np@
            } else {
                rest@
            }),
            parse_req_line_spec(line@) == parse_req_from(np@, ex@, rest@, k as int),
        decreases 7 - k,
    {
        let op = &ops[k];
        assert(op@ == req_ops()[k as int]);
        assert(search@.subrange(0, sl as int) =~= search@);
        match find_range(search.as_slice(), op.as_slice(), 0, sl) {
            Some(idx) => {
                proof {
                    lemma_find_from(search@, op@, 0);
                }
                let (na, nb) = if rest.len() == 0 {
                    trim_bounds(search.as_slice(), 0, idx)
                } else {
                    assert(np@.subrange(0, np@.len() as int) =~= np@);
                    trim_bounds(np.as_slice(), 0, np.len())
                };
                let name_src: &Vec<char> = if rest.len() == 0 {
                    search
                } else {
                    &np
                };
                let vstart = idx + op.len();
                let ghost after_op = search@.subrange(vstart as int, sl as int);
                let ce = find_range(search.as_slice(), comma.as_slice(), vstart, sl);
                proof {
                    lemma_find_from(after_op, seq![','], 0);
                }
                let vend = match ce {
                    Some(ci) => ci,
                    None => sl,
                };
                assert(search@.subrange(vstart as int, vend as int) =~= before(after_op, seq![',']));
                let (va, vb) = trim_bounds(search.as_slice(), vstart, vend);
                if na < nb && va < vb {
                    let trailing = match ce {
                        Some(ci) => copy_range(search.as_slice(), ci, sl),
                        None => Vec::new(),
                    };
                    assert(trailing@ == (match find(after_op, seq![',']) {
                        Some(i) => after_op.subrange(i, after_op.len() as int),
                        None => Seq::<char>::empty(),
                    })) by {
                        if ce is None {
                            assert(trailing@ =~= Seq::<char>::empty());
                        } else {
                            assert(trailing@ =~= after_op.subrange(
                                ce->0 - vstart,
                                after_op.len() as int,
                            ));
                        }
                    }
                    let name = copy_range(name_src.as_slice(), na, nb);
                    let version = copy_range(search.as_slice(), va, vb);
                    let opv = copy_range(op.as_slice(), 0, op.len());
                    assert(op@.subrange(0, op@.len() as int) =~= op@);
                    let exv = copy_range(ex.as_slice(), 0, ex.len());
                    assert(ex@.subrange(0, ex@.len() as int) =~= ex@);
                    return Some(
                        ReqParts { name, op: opv, version, extras: exv, trailing },
                    );
                }
            },
            None => {},
        }
        k = k + 1;
    }
    None
}

/// Parses a requirements line into `(name, operator, version, extras, trailing)`.
pub fn parse_req_line(line: &str) -> (r: Option<(String, String, String, String, String)>)
    ensures
        r matches Some(p) ==> parse_req_line_spec(line@) == Some(
            (p.0@, p.1@, p.2@, p.3@, p.4@),
        ),
        r is None ==> parse_req_line_spec(line@) is None,
{
    let c = chars_of(line);
    match parse_req_chars(c.as_slice()) {
        Some(p) => Some(
            (
                string_of(p.name.as_slice()),
                string_of(p.op.as_slice()),
                string_of(p.version.as_slice()),
                string_of(p.extras.as_slice()),
                string_of(p.trailing.as_slice()),
            ),
        ),
        None => None,
    }
}

/// The rewritten form of one `requirements.txt` line whose package
/// normalizes to `norm`: `name ++ extras ++ op ++ new ++ trailing`.
pub open spec fn req_fix_line(line: Seq<char>, norm: Seq<char>, new: Seq<char>) -> Option<Seq<char>> {
    let t = trim(line);
    if t.len() == 0 || t[0] == '#' {
        None
    } else {
        match parse_req_line_spec(t) {
            Some(p) => if pip_normal(p.0) == norm {
                Some(p.0 + p.3 + p.1 + new + p.4)
            } else {
                None
            },
            None => None,
        }
    }
}

/// The line edit of `requirements.txt` for normalized name `norm`.
pub open spec fn req_edit(norm: Seq<char>, new: Seq<char>) -> spec_fn(Seq<char>) -> Option<Seq<char>> {
    |l: Seq<char>| req_fix_line(l, norm, new)
}

/// Whether a parsed name normalizes to `norm`.
fn name_matches(name: &[char], norm: &[char]) -> (r: bool)
    ensures
        r == (pip_normal(name@) == norm@),
{
    let ns = string_of(name);
    let nn = normalize_pip_name(ns.as_str());
    let nc = chars_of(nn.as_str());
    chars_eq(nc.as_slice(), norm)
}

pub(crate) fn req_fix_line_exec(line: &[char], norm: &[char], new: &[char]) -> (r: Option<Vec<char>>)
    ensures
        r matches Some(x) ==> req_fix_line(line@, norm@, new@) == Some(x@),
        r is None ==> req_fix_line(line@, norm@, new@) is None,
{
    let n = line.len();
    assert(line@.subrange(0, n as int) =~= line@);
    let (a, b) = trim_bounds(line, 0, n);
    if a == b || line[a] == '#' {
        return None;
    }
    let t = copy_range(line, a, b);
    match parse_req_chars(t.as_slice()) {
        Some(p) => {
            if name_matches(p.name.as_slice(), norm) {
                let mut out: Vec<char> = Vec::new();
                push_all(&mut out, p.name.as_slice());
                push_all(&mut out, p.extras.as_slice());
                push_all(&mut out, p.op.as_slice());
                push_all(&mut out, new);
                push_all(&mut out, p.trailing.as_slice());
                Some(out)
            } else {
                None
            }
        },
        None => None,
    }
}

/// The rewritten form of one `pyproject.toml` line holding a quoted
/// dependency string for the package normalizing to `norm`: the old version
/// is replaced by `new` inside the string; indentation, quoting and a
/// trailing comma are kept.
pub open spec fn pyproject_line(line: Seq<char>, norm: Seq<char>, new: Seq<char>) -> Option<Seq<char>> {
    let t = trim(line);
    let entry = if t.len() > 0 && t.last() == ',' {
        trim_end(t.drop_last())
    } else {
        t
    };
    let trimmed = trim_char(trim_char(entry, '"'), '\'');
    match parse_req_line_spec(trimmed) {
        Some(p) => if pip_normal(p.0) == norm {
            let new_dep = replace_first(trimmed, p.2, new);
            let indent = line.subrange(0, ws_prefix_len(line));
            let ts = trim_start(line);
            let quote = if ts.len() > 0 && ts[0] == '"' {
                seq!['"']
            } else if ts.len() > 0 && ts[0] == '\'' {
                seq!['\'']
            } else {
                Seq::<char>::empty()
            };
            let te = trim_end(line);
            let comma = if te.len() > 0 && te.last() == ',' {
                seq![',']
            } else {
                Seq::<char>::empty()
            };
            Some(indent + quote + new_dep + quote + comma)
        } else {
            None
        },
        None => None,
    }
}

/// The line edit of `pyproject.toml` for normalized name `norm`.
pub open spec fn pyproject_edit(norm: Seq<char>, new: Seq<char>) -> spec_fn(Seq<char>) -> Option<
    Seq<char>,
> {
    |l: Seq<char>| pyproject_line(l, norm, new)
}

pub(crate) fn pyproject_line_exec(line: &[char], norm: &[char], new: &[char]) -> (r: Option<
    Vec<char>,
>)
    ensures
        r matches Some(x) ==> pyproject_line(line@, norm@, new@) == Some(x@),
        r is None ==> pyproject_line(line@, norm@, new@) is None,
{
    let n = line.len();
    assert(line@.subrange(0, n as int) =~= line@);
    let (a, b0) = trim_bounds(line, 0, n);
    let b = if a < b0 && line[b0 - 1] == ',' {
        assert(line@.subrange(a as int, b0 - 1) =~= line@.subrange(a as int, b0 as int).drop_last());
        skip_ws_back(line, a, b0 - 1)
    } else {
        b0
    };
    let (a1, b1) = trim_char_bounds(line, '"', a, b);
    let (a2, b2) = trim_char_bounds(line, '\'', a1, b1);
    let trimmed = copy_range(line, a2, b2);
    match parse_req_chars(trimmed.as_slice()) {
        Some(p) => {
            if !name_matches(p.name.as_slice(), norm) {
                return None;
            }
            let new_dep = replace_first_exec(trimmed.as_slice(), p.version.as_slice(), new);
            let w = skip_ws(line, 0, n);
            let e = skip_ws_back(line, 0, n);
            let mut quote: Vec<char> = Vec::new();
            if w < n && line[w] == '"' {
                quote.push('"');
            } else if w < n && line[w] == '\'' {
                quote.push('\'');
            }
            let mut out: Vec<char> = Vec::new();
            push_range(&mut out, line, 0, w);
            push_all(&mut out, quote.as_slice());
            push_all(&mut out, new_dep.as_slice());
            push_all(&mut out, quote.as_slice());
            if e > 0 && line[e - 1] == ',' {
                out.push(',');
            }
            proof {
                crate::text::lemma_trim_start(line@);
                crate::text::lemma_trim_end(line@);
            }
            let ghost expected = pyproject_line(line@, norm@, new@);
            assert(expected is Some);
            assert(out@ =~= expected->0);
            Some(out)
        },
        None => None,
    }
}

/// Replaces the version of `package_name` in `requirements.txt` text,
/// keeping the operator, extras and anything after a `,`; comments, blank
/// lines and other packages are kept. Names match after normalization
/// (`my-package` matches `my_package`). Returns the new text and whether a
/// line changed.
pub fn fix_requirements_txt(content: &str, package_name: &str, new_version: &str) -> (r: (
    String,
    bool,
))
    ensures
        r.0@ == reassemble(
            edit_lines(lines(content@), req_edit(pip_normal(package_name@), new_version@)),
            content@,
        ),
        r.1 == any_edit(lines(content@), req_edit(pip_normal(package_name@), new_version@)),
{
    let c = chars_of(content);
    let norm = normalize_pip_name(package_name);
    let nc = chars_of(norm.as_str());
    let nv = chars_of(new_version);
    let (out, changed) = super::rewrite_lines(
        c.as_slice(),
        super::LineFixer::Requirements,
        nc.as_slice(),
        nv.as_slice(),
    );
    (string_of(out.as_slice()), changed)
}

/// Replaces the version of `package_name` in the quoted dependency strings
/// of `pyproject.toml` text. Returns the new text and whether a line changed.
pub fn fix_pyproject_toml(content: &str, package_name: &str, new_version: &str) -> (r: (
    String,
    bool,
))
    ensures
        r.0@ == reassemble(
            edit_lines(lines(content@), pyproject_edit(pip_normal(package_name@), new_version@)),
            content@,
        ),
        r.1 == any_edit(lines(content@), pyproject_edit(pip_normal(package_name@), new_version@)),
{
    let c = chars_of(content);
    let norm = normalize_pip_name(package_name);
    let nc = chars_of(norm.as_str());
    let nv = chars_of(new_version);
    let (out, changed) = super::rewrite_lines(
        c.as_slice(),
        super::LineFixer::Pyproject,
        nc.as_slice(),
        nv.as_slice(),
    );
    (string_of(out.as_slice()), changed)
}

/// The new texts of a repo's Python manifests after moving a package to a
/// new version: each manifest's rewritten text when it changed, and
/// whether any changed.
pub struct PipFix {
    pub requirements_txt: Option<String>,
    pub pyproject_toml: Option<String>,
    pub changed: bool,
}

/// Fix a package version in `requirements.txt` and `pyproject.toml` (the
/// texts of those present): each is rewritten on its own, and the fix is
/// made when either changed.
pub fn fix_version(requirements_txt: Option<&str>, pyproject_toml: Option<&str>, package_name: &str, new_version: &str) -> (r: PipFix)
    ensures
        match requirements_txt {
            Some(c) => {
                let ed = req_edit(pip_normal(package_name@), new_version@);
                match r.requirements_txt {
                    Some(t) => any_edit(lines(c@), ed) && t@ == reassemble(edit_lines(lines(c@), ed), c@),
                    None => !any_edit(lines(c@), ed),
                }
            },
            None => r.requirements_txt is None,
        },
        match pyproject_toml {
            Some(c) => {
                let ed = pyproject_edit(pip_normal(package_name@), new_version@);
                match r.pyproject_toml {
                    Some(t) => any_edit(lines(c@), ed) && t@ == reassemble(edit_lines(lines(c@), ed), c@),
                    None => !any_edit(lines(c@), ed),
                }
            },
            None => r.pyproject_toml is None,
        },
        r.changed == (r.requirements_txt is Some || r.pyproject_toml is Some),
{
    let req = match requirements_txt {
        Some(c) => {
            let (t, ch) = fix_requirements_txt(c, package_name, new_version);
            if ch {
                Some(t)
            } else {
                None
            }
        },
        None => None,
    };
    let py = match pyproject_toml {
        Some(c) => {
            let (t, ch) = fix_pyproject_toml(c, package_name, new_version);
            if ch {
                Some(t)
            } else {
                None
            }
        },
        None => None,
    };
    let changed = req.is_some() || py.is_some();
    PipFix { requirements_txt: req, pyproject_toml: py, changed }
}


// ── The requirement kept by a rewrite ─────────────────────────────────

/// A character that can stand in a plain name or version token: not
/// white space, and none of `#`, `,`, `[`, `]` or the operator
/// characters `=~><!`.
pub open spec fn plain_char(c: char) -> bool {
    !is_ws(c) && c != '#' && c != ',' && c != '[' && c != ']' && c != '=' && c != '~' && c != '>'
        && c != '<' && c != '!'
}

/// A text made of plain characters only (such as `flask` or `2.31.0`).
pub open spec fn plain(s: Seq<char>) -> bool {
    forall|i: int| 0 <= i < s.len() ==> plain_char(#[trigger] s[i])
}

/// A text with no plain character (such as an operator).
pub open spec fn unplain(w: Seq<char>) -> bool {
    forall|i: int| 0 <= i < w.len() ==> !plain_char(#[trigger] w[i])
}

proof fn lemma_find_is(h: Seq<char>, w: Seq<char>, q: int)
    requires
        0 <= q,
        occurs_at(h, w, q),
        forall|j: int| 0 <= j < q ==> !occurs_at(h, w, j),
    ensures
        find(h, w) == Some(q),
{
    lemma_find_from(h, w, 0);
}

proof fn lemma_find_none(h: Seq<char>, w: Seq<char>)
    requires
        forall|j: int| 0 <= j ==> !occurs_at(h, w, j),
    ensures
        find(h, w) is None,
{
    lemma_find_from(h, w, 0);
}

proof fn lemma_occ_prefix(pp: Seq<char>, v1: Seq<char>, v2: Seq<char>, t: Seq<char>, w: Seq<char>, q: int)
    requires
        0 <= q,
        q + w.len() <= pp.len(),
    ensures
        occurs_at(pp + v1 + t, w, q) == occurs_at(pp + v2 + t, w, q),
{
    assert((pp + v1 + t).subrange(q, q + w.len()) =~= pp.subrange(q, q + w.len()));
    assert((pp + v2 + t).subrange(q, q + w.len()) =~= pp.subrange(q, q + w.len()));
}

proof fn lemma_occ_suffix(pp: Seq<char>, v1: Seq<char>, v2: Seq<char>, t: Seq<char>, w: Seq<char>, q: int)
    requires
        q >= pp.len() + v1.len(),
    ensures
        occurs_at(pp + v1 + t, w, q) == occurs_at(pp + v2 + t, w, q - v1.len() + v2.len()),
{
    let r = q - pp.len() - v1.len();
    if r + w.len() <= t.len() {
        assert((pp + v1 + t).subrange(q, q + w.len()) =~= t.subrange(r, r + w.len()));
        assert((pp + v2 + t).subrange(q - v1.len() + v2.len(), q - v1.len() + v2.len() + w.len())
            =~= t.subrange(r, r + w.len()));
    }
}

proof fn lemma_no_occ_across(pp: Seq<char>, v: Seq<char>, t: Seq<char>, w: Seq<char>, q: int)
    requires
        v.len() >= 1,
        plain(v),
        unplain(w),
        w.len() >= 1,
        0 <= q < pp.len() + v.len(),
        q + w.len() > pp.len(),
    ensures
        !occurs_at(pp + v + t, w, q),
{
    let h = pp + v + t;
    if occurs_at(h, w, q) {
        let m = if q > pp.len() {
            q
        } else {
            pp.len() as int
        };
        assert(h.subrange(q, q + w.len())[m - q] == h[m]);
        assert(h[m] == v[m - pp.len()]);
        assert(!plain_char(w[m - q]));
    }
}

/// Searching for a text of non-plain characters does not see a plain
/// token in the middle: with `v1` or `v2` there, the search finds the same
/// occurrence before it, or the same one after it, shifted.
proof fn lemma_find_swap(pp: Seq<char>, v1: Seq<char>, v2: Seq<char>, t: Seq<char>, w: Seq<char>)
    requires
        v1.len() >= 1,
        v2.len() >= 1,
        plain(v1),
        plain(v2),
        unplain(w),
        w.len() >= 1,
    ensures
        find(pp + v1 + t, w) matches Some(q) ==> ((q + w.len() <= pp.len() && find(pp + v2 + t, w)
            == Some(q)) || (q >= pp.len() + v1.len() && find(pp + v2 + t, w) == Some(
            q - v1.len() + v2.len(),
        ))),
        find(pp + v1 + t, w) is None ==> find(pp + v2 + t, w) is None,
{
    let h1 = pp + v1 + t;
    let h2 = pp + v2 + t;
    lemma_find_from(h1, w, 0);
    match find(h1, w) {
        Some(q) => {
            if q < pp.len() + v1.len() && q + w.len() > pp.len() {
                lemma_no_occ_across(pp, v1, t, w, q);
            }
            if q + w.len() <= pp.len() {
                lemma_occ_prefix(pp, v1, v2, t, w, q);
                assert forall|j: int| 0 <= j < q implies !occurs_at(h2, w, j) by {
                    lemma_occ_prefix(pp, v1, v2, t, w, j);
                }
                lemma_find_is(h2, w, q);
            } else {
                let q2 = q - v1.len() + v2.len();
                lemma_occ_suffix(pp, v1, v2, t, w, q);
                assert forall|j: int| 0 <= j < q2 implies !occurs_at(h2, w, j) by {
                    if j + w.len() <= pp.len() {
                        lemma_occ_prefix(pp, v1, v2, t, w, j);
                    } else if j < pp.len() + v2.len() {
                        lemma_no_occ_across(pp, v2, t, w, j);
                    } else {
                        lemma_occ_suffix(pp, v1, v2, t, w, j - v2.len() + v1.len());
                    }
                }
                lemma_find_is(h2, w, q2);
            }
        },
        None => {
            assert forall|j: int| 0 <= j implies !occurs_at(h2, w, j) by {
                if j + w.len() <= pp.len() {
                    lemma_occ_prefix(pp, v1, v2, t, w, j);
                } else if j < pp.len() + v2.len() {
                    lemma_no_occ_across(pp, v2, t, w, j);
                } else {
                    lemma_occ_suffix(pp, v1, v2, t, w, j - v2.len() + v1.len());
                }
            }
            lemma_find_none(h2, w);
        },
    }
}


proof fn lemma_ops_unplain(k: int)
    requires
        0 <= k < 7,
    ensures
        unplain(req_ops()[k]),
        req_ops()[k].len() >= 1,
{
}

/// What a successful parse from the `k`-th operator gives: the extras it
/// was handed, an operator of non-plain characters, and trailing
/// constraints that are empty or start with a comma.
proof fn lemma_parse_shape(np: Seq<char>, ex: Seq<char>, rest: Seq<char>, k: int)
    requires
        0 <= k,
    ensures
        parse_req_from(np, ex, rest, k) matches Some(q) ==> q.3 == ex && unplain(q.1) && q.1.len()
            >= 1 && (q.4.len() == 0 || q.4[0] == ',') && q.0.len() > 0 && q.2.len() > 0,
    decreases 7 - k,
{
    if k < 7 {
        lemma_ops_unplain(k);
        lemma_parse_shape(np, ex, rest, k + 1);
        let op = req_ops()[k];
        let search = if rest.len() == 0 {
            np
        } else {
            rest
        };
        match find(search, op) {
            Some(idx) => {
                let after_op = search.subrange(idx + op.len(), search.len() as int);
                lemma_find_single(after_op, ',');
            },
            None => {},
        }
    }
}

/// Trimming text that starts and ends with a non-blank changes nothing.
proof fn lemma_trim_id(s: Seq<char>)
    requires
        s.len() > 0,
        !is_ws(s[0]),
        !is_ws(s.last()),
    ensures
        trim(s) == s,
{
    assert(trim_start(s) == s);
    assert(trim_end(s) == s);
}

/// Text with a non-blank character does not trim to nothing.
proof fn lemma_trim_has(s: Seq<char>, i: int)
    requires
        0 <= i < s.len(),
        !is_ws(s[i]),
    ensures
        trim(s).len() > 0,
{
    lemma_trim_start(s);
    let ts = trim_start(s);
    lemma_trim_end(ts);
    let w = ws_prefix_len(s);
    if i < w {
        assert(is_ws(s[i]));
    } else {
        assert(ts[i - w] == s[i]);
        if trim(s).len() == 0 {
            assert(is_ws(ts[i - w]));
        }
    }
}

/// A plain version followed by constraints that are empty or start with
/// a comma reads as that version, with those constraints after it.
proof fn lemma_version_then_constraints(v: Seq<char>, t: Seq<char>)
    requires
        v.len() >= 1,
        plain(v),
        t.len() == 0 || t[0] == ',',
    ensures
        trim(before(v + t, seq![','])) == v,
        (match find(v + t, seq![',']) {
            Some(i) => (v + t).subrange(i, (v + t).len() as int),
            None => Seq::<char>::empty(),
        }) == t,
{
    let h = v + t;
    lemma_find_single(h, ',');
    assert(forall|j: int| 0 <= j < v.len() ==> h[j] == v[j] && plain_char(#[trigger] v[j]));
    if t.len() > 0 {
        assert(h[v.len() as int] == ',');
        assert(find(h, seq![',']) == Some(v.len() as int));
        assert(h.subrange(0, v.len() as int) =~= v);
        assert(h.subrange(v.len() as int, h.len() as int) =~= t);
    } else {
        assert(h =~= v);
        assert(find(h, seq![',']) is None);
    }
    assert(plain_char(v[0]) && plain_char(v[v.len() - 1]));
    lemma_trim_id(v);
}

/// When the text before the first comma of `r ++ v1 ++ t` trims to
/// nothing, swapping the plain token `v1` for `v2` changes nothing of it.
proof fn lemma_version_swap(r: Seq<char>, v1: Seq<char>, v2: Seq<char>, t: Seq<char>)
    requires
        v1.len() >= 1,
        v2.len() >= 1,
        plain(v1),
        plain(v2),
        trim(before(r + v1 + t, seq![','])).len() == 0,
    ensures
        before(r + v2 + t, seq![',']) == before(r + v1 + t, seq![',']),
{
    let h1 = r + v1 + t;
    assert(unplain(seq![',']));
    lemma_find_swap(r, v1, v2, t, seq![',']);
    lemma_find_single(h1, ',');
    match find(h1, seq![',']) {
        Some(c) => {
            if c + 1 <= r.len() {
                assert(h1.subrange(0, c) =~= (r + v2 + t).subrange(0, c));
            } else {
                assert(before(h1, seq![',']) == h1.subrange(0, c));
                assert(h1.subrange(0, c)[r.len() as int] == v1[0]);
                assert(plain_char(v1[0]));
                lemma_trim_has(h1.subrange(0, c), r.len() as int);
            }
        },
        None => {
            assert(h1[r.len() as int] == v1[0]);
            assert(plain_char(v1[0]));
            lemma_trim_has(h1, r.len() as int);
        },
    }
}


/// A requirement `n ++ o ++ v1 ++ t` without extras that parses into
/// exactly these parts parses the same with `v2` in place of `v1`.
proof fn lemma_parse_swap_plain(n: Seq<char>, o: Seq<char>, v1: Seq<char>, v2: Seq<char>, t: Seq<char>, k: int)
    requires
        0 <= k,
        n.len() >= 1,
        plain(n),
        v1.len() >= 1,
        v2.len() >= 1,
        plain(v1),
        plain(v2),
        t.len() == 0 || t[0] == ',',
        parse_req_from(n + o + v1 + t, seq![], seq![], k) == Some((n, o, v1, Seq::<char>::empty(), t)),
    ensures
        parse_req_from(n + o + v2 + t, seq![], seq![], k) == Some((n, o, v2, Seq::<char>::empty(), t)),
    decreases 7 - k,
{
    let pp = n + o;
    let b = n + o + v1 + t;
    let x = n + o + v2 + t;
    assert(b =~= pp + v1 + t);
    assert(x =~= pp + v2 + t);
    if k >= 7 {
        return;
    }
    let op = req_ops()[k];
    lemma_ops_unplain(k);
    lemma_find_swap(pp, v1, v2, t, op);
    lemma_find_from(b, op, 0);
    match find(b, op) {
        None => {
            lemma_parse_swap_plain(n, o, v1, v2, t, k + 1);
        },
        Some(idx) => {
            let after_b = b.subrange(idx + op.len(), b.len() as int);
            let name_b = trim(b.subrange(0, idx));
            let ver_b = trim(before(after_b, seq![',']));
            let trail_b = match find(after_b, seq![',']) {
                Some(i) => after_b.subrange(i, after_b.len() as int),
                None => Seq::<char>::empty(),
            };
            if name_b.len() > 0 && ver_b.len() > 0 {
                // The accepting step: the operator is `o`, found right after the name.
                assert(op == o && name_b == n && ver_b == v1 && trail_b == t);
                if idx >= pp.len() + v1.len() {
                    lemma_find_single(after_b, ',');
                    assert(trail_b.len() <= after_b.len());
                    assert(false);
                }
                if idx < n.len() {
                    assert(b.subrange(idx, idx + op.len())[0] == b[idx]);
                    assert(b[idx] == n[idx]);
                    assert(plain_char(n[idx]) && !plain_char(op[0]));
                }
                assert(idx == n.len());
                assert(x.subrange(0, idx) =~= b.subrange(0, idx));
                let after_x = x.subrange(idx + op.len(), x.len() as int);
                assert(after_x =~= v2 + t);
                lemma_version_then_constraints(v2, t);
            } else {
                lemma_parse_swap_plain(n, o, v1, v2, t, k + 1);
                if idx + op.len() <= pp.len() {
                    assert(x.subrange(0, idx) =~= b.subrange(0, idx));
                    let r = pp.subrange(idx + op.len(), pp.len() as int);
                    assert(after_b =~= r + v1 + t);
                    assert(x.subrange(idx + op.len(), x.len() as int) =~= r + v2 + t);
                    if name_b.len() > 0 {
                        lemma_version_swap(r, v1, v2, t);
                    }
                } else {
                    let idx2 = idx - v1.len() + v2.len();
                    assert(b.subrange(0, idx)[pp.len() as int] == v1[0]);
                    assert(plain_char(v1[0]));
                    lemma_trim_has(b.subrange(0, idx), pp.len() as int);
                    assert(x.subrange(0, idx2)[pp.len() as int] == v2[0]);
                    assert(plain_char(v2[0]));
                    lemma_trim_has(x.subrange(0, idx2), pp.len() as int);
                    assert(x.subrange(idx2 + op.len(), x.len() as int) =~= after_b);
                }
            }
        },
    }
}

/// A requirement `n ++ e ++ o ++ v1 ++ t` with extras `e` that parses
/// into exactly these parts parses the same with `v2` in place of `v1`.
proof fn lemma_parse_swap_extras(n: Seq<char>, e: Seq<char>, o: Seq<char>, v1: Seq<char>, v2: Seq<char>, t: Seq<char>, k: int)
    requires
        0 <= k,
        o.len() >= 1,
        v1.len() >= 1,
        v2.len() >= 1,
        plain(v1),
        plain(v2),
        t.len() == 0 || t[0] == ',',
        parse_req_from(n, e, o + v1 + t, k) == Some((trim(n), o, v1, e, t)),
    ensures
        parse_req_from(n, e, o + v2 + t, k) == Some((trim(n), o, v2, e, t)),
    decreases 7 - k,
{
    let b = o + v1 + t;
    let x = o + v2 + t;
    if k >= 7 {
        return;
    }
    let op = req_ops()[k];
    lemma_ops_unplain(k);
    lemma_find_swap(o, v1, v2, t, op);
    lemma_find_from(b, op, 0);
    match find(b, op) {
        None => {
            lemma_parse_swap_extras(n, e, o, v1, v2, t, k + 1);
        },
        Some(idx) => {
            let after_b = b.subrange(idx + op.len(), b.len() as int);
            let ver_b = trim(before(after_b, seq![',']));
            let trail_b = match find(after_b, seq![',']) {
                Some(i) => after_b.subrange(i, after_b.len() as int),
                None => Seq::<char>::empty(),
            };
            if trim(n).len() > 0 && ver_b.len() > 0 {
                assert(op == o && ver_b == v1 && trail_b == t);
                if idx >= o.len() + v1.len() {
                    lemma_find_single(after_b, ',');
                    assert(trail_b.len() <= after_b.len());
                    assert(false);
                }
                assert(idx == 0);
                let after_x = x.subrange(idx + op.len(), x.len() as int);
                assert(after_x =~= v2 + t);
                lemma_version_then_constraints(v2, t);
            } else {
                lemma_parse_swap_extras(n, e, o, v1, v2, t, k + 1);
                if idx + op.len() <= o.len() {
                    let r = o.subrange(idx + op.len(), o.len() as int);
                    assert(after_b =~= r + v1 + t);
                    assert(x.subrange(idx + op.len(), x.len() as int) =~= r + v2 + t);
                    if trim(n).len() > 0 {
                        lemma_version_swap(r, v1, v2, t);
                    }
                } else {
                    let idx2 = idx - v1.len() + v2.len();
                    assert(x.subrange(idx2 + op.len(), x.len() as int) =~= after_b);
                }
            }
        },
    }
}


/// The trimmed text is a piece of the text.
proof fn lemma_trim_sub(s: Seq<char>)
    ensures
        0 <= ws_prefix_len(s),
        ws_prefix_len(s) + trim(s).len() <= s.len(),
        trim(s) == s.subrange(ws_prefix_len(s), ws_prefix_len(s) + trim(s).len()),
        trim(s).len() > 0 ==> !is_ws(trim(s).last()),
{
    lemma_trim_start(s);
    let ts = trim_start(s);
    lemma_trim_end(ts);
    let w = ws_prefix_len(s);
    assert(trim(s) =~= s.subrange(w, w + trim(s).len()));
}

/// The rewritten requirement has no comment and no surrounding blanks.
proof fn lemma_rewritten_is_base(t: Seq<char>, n: Seq<char>, e: Seq<char>, o: Seq<char>, v: Seq<char>, tr: Seq<char>, new: Seq<char>)
    requires
        req_base(t) == n + e + o + v + tr,
        n.len() >= 1,
        plain(n),
        new.len() >= 1,
        plain(new),
    ensures
        req_base(n + e + o + new + tr) == n + e + o + new + tr,
{
    let b = req_base(t);
    let x = n + e + o + new + tr;
    let bf = before(t, seq!['#']);
    lemma_find_single(t, '#');
    assert(forall|j: int| 0 <= j < bf.len() ==> bf[j] == t[j]);
    assert(forall|j: int| 0 <= j < bf.len() ==> #[trigger] bf[j] != '#');
    lemma_trim_sub(bf);
    assert(forall|j: int| 0 <= j < b.len() ==> #[trigger] b[j] == bf[ws_prefix_len(bf) + j]);
    assert(forall|j: int| 0 <= j < b.len() ==> #[trigger] b[j] != '#');
    assert forall|j: int| 0 <= j < x.len() implies #[trigger] x[j] != '#' by {
        let pl = n.len() + e.len() + o.len();
        if j < pl {
            assert(x[j] == b[j]);
        } else if j < pl + new.len() {
            assert(x[j] == new[j - pl]);
            assert(plain_char(new[j - pl]));
        } else {
            assert(x[j] == b[j - new.len() + v.len()]);
        }
    }
    lemma_find_single(x, '#');
    assert(before(x, seq!['#']) == x);
    assert(x[0] == n[0] && plain_char(n[0]));
    if tr.len() > 0 {
        assert(x.last() == b.last());
        assert(b.len() > 0);
    } else {
        assert(x.last() == new.last());
        assert(plain_char(new[new.len() - 1]));
    }
    lemma_trim_id(x);
}

/// Without extras, the rewritten requirement parses into the same parts
/// with the new version.
proof fn lemma_reparse_plain(b: Seq<char>, n: Seq<char>, o: Seq<char>, v: Seq<char>, tr: Seq<char>, new: Seq<char>)
    requires
        b == n + o + v + tr,
        req_extras(b).1.len() == 0,
        parse_req_from(req_extras(b).0, req_extras(b).1, req_extras(b).2, 0) == Some((n, o, v, Seq::<char>::empty(), tr)),
        n.len() >= 1,
        plain(n),
        v.len() >= 1,
        plain(v),
        new.len() >= 1,
        plain(new),
        tr.len() == 0 || tr[0] == ',',
    ensures
        parse_req_from(req_extras(n + o + new + tr).0, req_extras(n + o + new + tr).1, req_extras(n + o + new + tr).2, 0)
            == Some((n, o, new, Seq::<char>::empty(), tr)),
{
    let x = n + o + new + tr;
    let pp = n + o;
    assert(b =~= pp + v + tr);
    assert(x =~= pp + new + tr);
    assert(unplain(seq!['[']));
    assert(unplain(seq![']']));
    lemma_find_swap(pp, v, new, tr, seq!['[']);
    lemma_find_single(b, '[');
    match find(b, seq!['[']) {
        Some(bs) => {
            let bt = b.subrange(bs, b.len() as int);
            lemma_find_single(bt, ']');
            if bs + 1 <= pp.len() {
                let r = pp.subrange(bs, pp.len() as int);
                assert(bt =~= r + v + tr);
                assert(x.subrange(bs, x.len() as int) =~= r + new + tr);
                lemma_find_swap(r, v, new, tr, seq![']']);
            } else {
                let bs2 = bs - v.len() + new.len();
                assert(x.subrange(bs2, x.len() as int) =~= bt);
            }
        },
        None => {},
    }
    assert(req_extras(b) == (b, Seq::<char>::empty(), Seq::<char>::empty()));
    assert(req_extras(x) == (x, Seq::<char>::empty(), Seq::<char>::empty()));
    lemma_parse_swap_plain(n, o, v, new, tr, 0);
}

/// With extras, the rewritten requirement parses into the same parts with
/// the new version.
proof fn lemma_reparse_extras(b: Seq<char>, n: Seq<char>, e: Seq<char>, o: Seq<char>, v: Seq<char>, tr: Seq<char>, new: Seq<char>)
    requires
        b == n + e + o + v + tr,
        e.len() > 0,
        req_extras(b).1 == e,
        parse_req_from(req_extras(b).0, req_extras(b).1, req_extras(b).2, 0) == Some((n, o, v, e, tr)),
        o.len() >= 1,
        n.len() >= 1,
        plain(n),
        v.len() >= 1,
        plain(v),
        new.len() >= 1,
        plain(new),
        tr.len() == 0 || tr[0] == ',',
    ensures
        parse_req_from(req_extras(n + e + o + new + tr).0, req_extras(n + e + o + new + tr).1, req_extras(n + e + o + new + tr).2, 0)
            == Some((n, o, new, e, tr)),
{
    let x = n + e + o + new + tr;
    let xs = req_extras(b);
    assert(unplain(seq![']']));
    lemma_find_single(b, '[');
    let bs = find(b, seq!['['])->0;
    let bt = b.subrange(bs, b.len() as int);
    lemma_find_single(bt, ']');
    let be = find(bt, seq![']'])->0;
    assert(xs == (b.subrange(0, bs), b.subrange(bs, bs + be + 1), b.subrange(bs + be + 1, b.len() as int)));
    assert(e[0] == b[bs]);
    assert(b[n.len() as int] == e[0]);
    if bs < n.len() {
        assert(b[bs] == n[bs] && plain_char(n[bs]));
    }
    assert(bs == n.len());
    assert(xs.0 =~= n);
    assert(xs.2 =~= o + v + tr);
    assert(plain_char(n[0]) && plain_char(n[n.len() - 1]));
    lemma_trim_id(n);
    lemma_find_single(x, '[');
    assert(x[n.len() as int] == e[0]);
    assert forall|j: int| 0 <= j < n.len() implies x[j] != '[' by {
        assert(x[j] == n[j] && plain_char(n[j]));
    }
    assert(find(x, seq!['[']) == Some(n.len() as int));
    let pp2 = e + o;
    assert(bt =~= pp2 + v + tr);
    let xt = x.subrange(n.len() as int, x.len() as int);
    assert(xt =~= pp2 + new + tr);
    lemma_find_swap(pp2, v, new, tr, seq![']']);
    assert(be + 1 == e.len());
    assert(req_extras(x).0 =~= n);
    assert(req_extras(x).1 =~= e);
    assert(req_extras(x).2 =~= o + new + tr);
    lemma_parse_swap_extras(n, e, o, v, new, tr, 0);
}

/// Rewriting a requirement's version keeps the rest of the requirement.
/// Take a line whose requirement (the text before any `#` comment,
/// trimmed) is written without blanks as `name ++ extras ++ operator ++
/// version ++ constraints`, with a name and version of plain characters.
/// Rewritten to a plain new version, the line parses again into the same
/// name, operator, extras and trailing constraints (such as `,<3.0`), and
/// the new version.
pub proof fn law_req_fix_keeps_requirement(
    line: Seq<char>,
    norm: Seq<char>,
    new: Seq<char>,
    p: (Seq<char>, Seq<char>, Seq<char>, Seq<char>, Seq<char>),
)
    requires
        trim(line).len() > 0,
        trim(line)[0] != '#',
        parse_req_line_spec(trim(line)) == Some(p),
        pip_normal(p.0) == norm,
        plain(p.0),
        plain(p.2),
        req_base(trim(line)) == p.0 + p.3 + p.1 + p.2 + p.4,
        new.len() >= 1,
        plain(new),
    ensures
        req_fix_line(line, norm, new) matches Some(x) && parse_req_line_spec(x) == Some(
            (p.0, p.1, new, p.3, p.4),
        ),
{
    let t = trim(line);
    let b = req_base(t);
    let (n, o, v, e, tr) = p;
    let x = n + e + o + new + tr;
    let xs = req_extras(b);
    lemma_parse_shape(xs.0, xs.1, xs.2, 0);
    lemma_rewritten_is_base(t, n, e, o, v, tr, new);
    if e.len() == 0 {
        assert(e =~= Seq::<char>::empty());
        assert(b =~= n + o + v + tr);
        assert(x =~= n + o + new + tr);
        lemma_reparse_plain(b, n, o, v, tr, new);
    } else {
        lemma_reparse_extras(b, n, e, o, v, tr, new);
    }
    assert(req_fix_line(line, norm, new) == Some(x));
}

} // verus!
