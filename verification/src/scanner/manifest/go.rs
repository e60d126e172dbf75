//! `go.mod` requirements.

use vstd::prelude::*;

use crate::scanner::manifest::{package_views, InstalledPackage, PackageModel};
use crate::text::{
    before, chars_eq, chars_of, find_range, lines, lines_of, owned, push_range, starts_with,
    starts_with_at, string_of, trim, trim_bounds, trim_start_char, words, words_of,
};

verus! {

/// `"require ("`, which opens a require block.
pub open spec fn require_block_kw() -> Seq<char> {
    seq!['r', 'e', 'q', 'u', 'i', 'r', 'e', ' ', '(']
}

/// `"require "`, which starts a single-line require.
pub open spec fn require_kw() -> Seq<char> {
    seq!['r', 'e', 'q', 'u', 'i', 'r', 'e', ' ']
}

/// `"//"`, which starts a comment.
pub open spec fn comment_kw() -> Seq<char> {
    seq!['/', '/']
}

/// A dependency line of `go.mod` (module path and version, the version
/// without its leading `v`s), if it has both.
pub open spec fn go_dep(line: Seq<char>) -> Option<(Seq<char>, Seq<char>)> {
    let l = trim(before(line, comment_kw()));
    let parts = words(l);
    if l.len() == 0 || starts_with(l, comment_kw()) || parts.len() < 2 {
        None
    } else {
        Some((parts[0], trim_start_char(parts[1], 'v')))
    }
}

/// One line of `go.mod` read in or out of a require block: whether a
/// require block is open after it, and the text to read as a dependency.
pub open spec fn go_step(raw: Seq<char>, in_block: bool) -> (bool, Option<Seq<char>>) {
    let l = trim(raw);
    if starts_with(l, require_block_kw()) {
        (true, None)
    } else if in_block && l == seq![')'] {
        (false, None)
    } else if in_block {
        (true, Some(l))
    } else if starts_with(l, require_kw()) {
        (false, Some(trim(l.subrange(8, l.len() as int))))
    } else {
        (false, None)
    }
}

/// Reading `ls[0..n)`: whether a require block is open, and the
/// dependencies found, in order.
pub open spec fn go_scan(ls: Seq<Seq<char>>, n: int) -> (bool, Seq<(Seq<char>, Seq<char>)>)
    decreases n,
{
    if n <= 0 {
        (false, seq![])
    } else {
        let (b, acc) = go_scan(ls, n - 1);
        let (b2, t) = go_step(ls[n - 1], b);
        match t {
            Some(x) => match go_dep(x) {
                Some(d) => (b2, acc.push(d)),
                None => (b2, acc),
            },
            None => (b2, acc),
        }
    }
}

/// The packages of a `go.mod` text in the given repo.
pub open spec fn go_packages(content: Seq<char>, repo_name: Seq<char>, repo_path: Seq<char>) -> Seq<PackageModel> {
    go_scan(lines(content), lines(content).len() as int).1.map_values(
        |d: (Seq<char>, Seq<char>)| (repo_name, repo_path, "go"@, d.0, d.1),
    )
}

/// Trimmed copy of `s[start..end]`.
fn trimmed(s: &[char], start: usize, end: usize) -> (r: Vec<char>)
    requires
        start <= end <= s@.len(),
    ensures
        r@ == trim(s@.subrange(start as int, end as int)),
{
    let (a, b) = trim_bounds(s, start, end);
    let mut out: Vec<char> = Vec::new();
    push_range(&mut out, s, a, b);
    out
}

/// The dependency a `go.mod` line declares, if it has a module path and a
/// version.
pub fn parse_go_dep_line(line: &str, repo_name: &str, repo_path: &str) -> (r: Option<InstalledPackage>)
    ensures
        match go_dep(line@) {
            Some(d) => r matches Some(p) && p@ == (repo_name@, repo_path@, "go"@, d.0, d.1),
            None => r is None,
        },
{
    let cs = chars_of(line);
    let n = cs.len();
    assert(cs@.subrange(0, n as int) =~= cs@);
    let cmt: Vec<char> = vec!['/', '/'];
    assert(cmt@ =~= comment_kw());
    let end = match find_range(cs.as_slice(), cmt.as_slice(), 0, n) {
        Some(i) => i,
        None => n,
    };
    proof {
        crate::text::lemma_find_from(cs@, comment_kw(), 0);
    }
    assert(cs@.subrange(0, end as int) == before(line@, comment_kw()));
    let l = trimmed(cs.as_slice(), 0, end);
    let ln = l.len();
    assert(l@.subrange(0, ln as int) =~= l@);
    if ln == 0 || starts_with_at(l.as_slice(), cmt.as_slice(), 0, ln) {
        return None;
    }
    let parts = words_of(l.as_slice(), 0, ln);
    if parts.len() < 2 {
        return None;
    }
    let p1 = &parts[1];
    assert(p1@.subrange(0, p1@.len() as int) =~= p1@);
    let mut k: usize = 0;
    while k < p1.len() && p1[k] == 'v'
        invariant
            k <= p1@.len(),
            trim_start_char(p1@, 'v') == trim_start_char(p1@.subrange(k as int, p1@.len() as int), 'v'),
        decreases p1@.len() - k,
    {
        assert(p1@.subrange(k as int, p1@.len() as int).drop_first() =~= p1@.subrange(k + 1, p1@.len() as int));
        k = k + 1;
    }
    let mut ver: Vec<char> = Vec::new();
    push_range(&mut ver, p1.as_slice(), k, p1.len());
    assert(parts[0]@ == parts.deep_view()[0]);
    assert(p1@ == parts.deep_view()[1]);
    Some(
        InstalledPackage {
            repo_name: owned(repo_name),
            repo_path: owned(repo_path),
            ecosystem: owned("go"),
            name: string_of(parts[0].as_slice()),
            version: string_of(ver.as_slice()),
        },
    )
}

/// The dependencies a `go.mod` text declares: the lines of `require (...)`
/// blocks and single-line `require` directives, in order.
pub fn parse_go_mod(content: &str, repo_name: &str, repo_path: &str) -> (r: Vec<InstalledPackage>)
    ensures
        package_views(r@) == go_packages(content@, repo_name@, repo_path@),
{
    let cs = chars_of(content);
    let ls = lines_of(cs.as_slice());
    let ghost lv = ls.deep_view();
    let ghost f = |d: (Seq<char>, Seq<char>)| (repo_name@, repo_path@, "go"@, d.0, d.1);
    let open_kw: Vec<char> = vec!['r', 'e', 'q', 'u', 'i', 'r', 'e', ' ', '('];
    assert(open_kw@ =~= require_block_kw());
    let req_kw: Vec<char> = vec!['r', 'e', 'q', 'u', 'i', 'r', 'e', ' '];
    assert(req_kw@ =~= require_kw());
    let close: Vec<char> = vec![')'];
    let mut out: Vec<InstalledPackage> = Vec::new();
    let mut in_block = false;
    let mut i: usize = 0;
    while i < ls.len()
        invariant
            i <= ls@.len(),
            lv == ls.deep_view(),
            lv == lines(content@),
            open_kw@ == require_block_kw(),
            req_kw@ == require_kw(),
            close@ == seq![')'],
            f == (|d: (Seq<char>, Seq<char>)| (repo_name@, repo_path@, "go"@, d.0, d.1)),
            in_block == go_scan(lv, i as int).0,
            package_views(out@) == go_scan(lv, i as int).1.map_values(f),
        decreases ls@.len() - i,
    {
        let raw = &ls[i];
        assert(raw@ == lv[i as int]);
        let t = trimmed(raw.as_slice(), 0, raw.len());
        assert(raw@.subrange(0, raw@.len() as int) =~= raw@);
        let tn = t.len();
        let ghost before_out = package_views(out@);
        let ghost acc = go_scan(lv, i as int).1;
        if starts_with_at(t.as_slice(), open_kw.as_slice(), 0, tn) {
            assert(t@.subrange(0, tn as int) =~= t@);
            in_block = true;
        } else if in_block && chars_eq(t.as_slice(), close.as_slice()) {
            assert(t@.subrange(0, tn as int) =~= t@);
            in_block = false;
        } else {
            assert(t@.subrange(0, tn as int) =~= t@);
            let target: Option<Vec<char>> = if in_block {
                Some(t)
            } else if starts_with_at(t.as_slice(), req_kw.as_slice(), 0, tn) {
                Some(trimmed(t.as_slice(), 8, tn))
            } else {
                None
            };
            match target {
                Some(x) => {
                    let xs = string_of(x.as_slice());
                    match parse_go_dep_line(xs.as_str(), repo_name, repo_path) {
                        Some(p) => {
                            let ghost pv = p@;
                            out.push(p);
                            assert(package_views(out@) =~= before_out.push(pv));
                            assert(go_scan(lv, i + 1).1 =~= acc.push(go_dep(x@)->0));
                            assert(go_scan(lv, i + 1).1.map_values(f) =~= acc.map_values(f).push(pv));
                        },
                        None => {},
                    }
                },
                None => {},
            }
        }
        i = i + 1;
    }
    out
}

} // verus!
