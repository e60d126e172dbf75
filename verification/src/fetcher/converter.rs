//! Turns OSV advisories into problem records.

use vstd::prelude::*;

use crate::fetcher::osv::{opt_view, Advisory, Affected, Event, Range, Reference};
use crate::problems::schema::{Problem, ProblemKind};
use crate::text::{join, owned, push_all, str_eq, string_of, chars_of};

verus! {

/// The range type whose events are read as semantic versions.
pub open spec fn semver_tag() -> Seq<char> {
    seq!['S', 'E', 'M', 'V', 'E', 'R']
}

/// The last `introduced` version among `events[0..n)`.
pub open spec fn last_introduced(events: Seq<Event>, n: int) -> Option<Seq<char>>
    decreases n,
{
    if n <= 0 {
        None
    } else {
        match events[n - 1].introduced {
            Some(v) => Some(v@),
            None => last_introduced(events, n - 1),
        }
    }
}

/// The last `fixed` version among `events[0..n)`.
pub open spec fn last_fixed(events: Seq<Event>, n: int) -> Option<Seq<char>>
    decreases n,
{
    if n <= 0 {
        None
    } else {
        match events[n - 1].fixed {
            Some(v) => Some(v@),
            None => last_fixed(events, n - 1),
        }
    }
}

/// The range string of one range: the interval `">=I <F"` (space-separated
/// comparators are ANDed) from the last introduced and fixed versions, `">=I"` without a fixed one, none without an
/// introduced one.
pub open spec fn range_string(r: Range) -> Option<Seq<char>> {
    let n = r.events@.len() as int;
    match (last_introduced(r.events@, n), last_fixed(r.events@, n)) {
        (Some(i), Some(f)) => Some(seq!['>', '='] + i + seq![' ', '<'] + f),
        (Some(i), None) => Some(seq!['>', '='] + i),
        _ => None,
    }
}

/// The latest fixed event decides: if event `j` has fixed version `f` and
/// no later event has one, `f` is the last fixed version of the events.
proof fn lemma_latest_fixed(events: Seq<Event>, j: int, n: int)
    requires
        0 <= j < n <= events.len(),
        events[j].fixed is Some,
        forall|t: int| j < t < n ==> (#[trigger] events[t]).fixed is None,
    ensures
        last_fixed(events, n) == Some(events[j].fixed->0@),
    decreases n,
{
    if n - 1 > j {
        lemma_latest_fixed(events, j, n - 1);
    }
}

/// As `lemma_latest_fixed`, for introduced versions.
proof fn lemma_latest_introduced(events: Seq<Event>, j: int, n: int)
    requires
        0 <= j < n <= events.len(),
        events[j].introduced is Some,
        forall|t: int| j < t < n ==> (#[trigger] events[t]).introduced is None,
    ensures
        last_introduced(events, n) == Some(events[j].introduced->0@),
    decreases n,
{
    if n - 1 > j {
        lemma_latest_introduced(events, j, n - 1);
    }
}

/// No event has a fixed version: there is no last one.
proof fn lemma_no_fixed(events: Seq<Event>, n: int)
    requires
        0 <= n <= events.len(),
        forall|t: int| 0 <= t < n ==> (#[trigger] events[t]).fixed is None,
    ensures
        last_fixed(events, n) is None,
    decreases n,
{
    if n > 0 {
        lemma_no_fixed(events, n - 1);
    }
}

/// No event has an introduced version: there is no last one.
proof fn lemma_no_introduced(events: Seq<Event>, n: int)
    requires
        0 <= n <= events.len(),
        forall|t: int| 0 <= t < n ==> (#[trigger] events[t]).introduced is None,
    ensures
        last_introduced(events, n) is None,
    decreases n,
{
    if n > 0 {
        lemma_no_introduced(events, n - 1);
    }
}

/// The range string of a range is bounded by its latest events: when
/// event `i` is the last with an introduced version `a` and event `j` the
/// last with a fixed version `f`, the string is `">=a <f"`; with no fixed
/// version anywhere it is `">=a"`; with no introduced version there is
/// none. So events of several intervals give the last interval, and
/// appending an event with fixed `f` makes `f` the upper bound.
pub proof fn law_range_string_uses_latest_events(r: Range, i: int, j: int)
    ensures
        (0 <= i < r.events@.len() && r.events@[i].introduced is Some && (forall|t: int|
            i < t < r.events@.len() ==> (#[trigger] r.events@[t]).introduced is None) && 0 <= j
            < r.events@.len() && r.events@[j].fixed is Some && (forall|t: int|
            j < t < r.events@.len() ==> (#[trigger] r.events@[t]).fixed is None)) ==> range_string(r)
            == Some(seq!['>', '='] + r.events@[i].introduced->0@ + seq![' ', '<']
            + r.events@[j].fixed->0@),
        (0 <= i < r.events@.len() && r.events@[i].introduced is Some && (forall|t: int|
            i < t < r.events@.len() ==> (#[trigger] r.events@[t]).introduced is None) && (forall|t: int|
            0 <= t < r.events@.len() ==> (#[trigger] r.events@[t]).fixed is None)) ==> range_string(r)
            == Some(seq!['>', '='] + r.events@[i].introduced->0@),
        (forall|t: int| 0 <= t < r.events@.len() ==> (#[trigger] r.events@[t]).introduced is None)
            ==> range_string(r) is None,
{
    let es = r.events@;
    let n = es.len() as int;
    if 0 <= i < n && es[i].introduced is Some && (forall|t: int| i < t < n ==> (#[trigger] es[t]).introduced is None) {
        lemma_latest_introduced(es, i, n);
        if 0 <= j < n && es[j].fixed is Some && (forall|t: int| j < t < n ==> (#[trigger] es[t]).fixed is None) {
            lemma_latest_fixed(es, j, n);
        }
        if forall|t: int| 0 <= t < n ==> (#[trigger] es[t]).fixed is None {
            lemma_no_fixed(es, n);
        }
    }
    if forall|t: int| 0 <= t < n ==> (#[trigger] es[t]).introduced is None {
        lemma_no_introduced(es, n);
    }
}

/// The range strings of the `SEMVER` ranges among `ranges[0..n)` that
/// have one.
pub open spec fn semver_strings(ranges: Seq<Range>, n: int) -> Seq<Seq<char>>
    decreases n,
{
    if n <= 0 {
        seq![]
    } else {
        let prev = semver_strings(ranges, n - 1);
        let r = ranges[n - 1];
        if r.range_type@ == semver_tag() {
            match range_string(r) {
                Some(s) => prev.push(s),
                None => prev,
            }
        } else {
            prev
        }
    }
}

/// Each listed version with `=` before it.
pub open spec fn exact_versions(versions: Seq<String>) -> Seq<Seq<char>> {
    Seq::new(versions.len(), |i: int| seq!['='] + versions[i]@)
}

/// The range of the first affected entry, from index `k` on, that gives
/// one: its `SEMVER` range strings joined by commas, else its exact
/// version list as `"=X,=Y"`.
pub open spec fn range_from(affected: Seq<Affected>, k: int) -> Option<Seq<char>>
    decreases affected.len() - k,
{
    if k < 0 || k >= affected.len() {
        None
    } else {
        let a = affected[k];
        let sr = semver_strings(a.ranges@, a.ranges@.len() as int);
        if sr.len() > 0 {
            Some(join(sr, seq![',']))
        } else if a.versions@.len() > 0 {
            Some(join(exact_versions(a.versions@), seq![',']))
        } else {
            range_from(affected, k + 1)
        }
    }
}

/// The affected range of an advisory, if it has usable range data.
pub open spec fn advisory_range(adv: Advisory) -> Option<Seq<char>> {
    range_from(adv.affected@, 0)
}

/// The first `fixed` version among `events[k..]`.
pub open spec fn first_fixed_event(events: Seq<Event>, k: int) -> Option<Seq<char>>
    decreases events.len() - k,
{
    if k < 0 || k >= events.len() {
        None
    } else {
        match events[k].fixed {
            Some(v) => Some(v@),
            None => first_fixed_event(events, k + 1),
        }
    }
}

/// The first `fixed` version among the events of `ranges[k..]`.
pub open spec fn first_fixed_range(ranges: Seq<Range>, k: int) -> Option<Seq<char>>
    decreases ranges.len() - k,
{
    if k < 0 || k >= ranges.len() {
        None
    } else {
        match first_fixed_event(ranges[k].events@, 0) {
            Some(v) => Some(v),
            None => first_fixed_range(ranges, k + 1),
        }
    }
}

/// The first `fixed` version among the ranges of `affected[k..]`.
pub open spec fn first_fixed_affected(affected: Seq<Affected>, k: int) -> Option<Seq<char>>
    decreases affected.len() - k,
{
    if k < 0 || k >= affected.len() {
        None
    } else {
        match first_fixed_range(affected[k].ranges@, 0) {
            Some(v) => Some(v),
            None => first_fixed_affected(affected, k + 1),
        }
    }
}

/// The first fixed version an advisory names.
pub open spec fn advisory_fixed(adv: Advisory) -> Option<Seq<char>> {
    first_fixed_affected(adv.affected@, 0)
}

/// The URLs of `refs[0..n)` that have one.
pub open spec fn urls(refs: Seq<Reference>, n: int) -> Seq<Seq<char>>
    decreases n,
{
    if n <= 0 {
        seq![]
    } else {
        match refs[n - 1].url {
            Some(u) => urls(refs, n - 1).push(u@),
            None => urls(refs, n - 1),
        }
    }
}

/// OSV ecosystem names mapped to this tool's names; others unchanged.
pub open spec fn normalize_ecosystem_spec(eco: Seq<char>) -> Seq<char> {
    if eco == "npm"@ {
        "npm"@
    } else if eco == "PyPI"@ {
        "pip"@
    } else if eco == "Go"@ {
        "go"@
    } else if eco == "crates.io"@ {
        "cargo"@
    } else {
        eco
    }
}

/// The views of a sequence of strings.
pub open spec fn string_views(v: Seq<String>) -> Seq<Seq<char>> {
    v.map_values(|s: String| s@)
}

/// `p` is the problem record made from `adv` with that severity label.
pub open spec fn converted(p: Problem, adv: Advisory, severity: Seq<char>, ecosystem: Seq<char>, package: Seq<char>) -> bool {
    &&& advisory_range(adv) is Some
    &&& p.id@ == adv.id@
    &&& p.title@ == (match adv.summary {
        Some(s) => s@,
        None => adv.id@,
    })
    &&& p.severity@ == severity
    &&& p.ecosystem@ == normalize_ecosystem_spec(ecosystem)
    &&& p.package@ == package
    &&& p.affected_range@ == advisory_range(adv)->0
    &&& opt_view(p.fixed_in) == advisory_fixed(adv)
    &&& string_views(p.references@) == urls(adv.references@, adv.references@.len() as int)
    &&& p.source_patterns is None
    &&& p.kind == ProblemKind::Cve
}

/// The indices of `advs[0..n)` that have usable range data.
pub open spec fn convertible(advs: Seq<Advisory>, n: int) -> Seq<int>
    decreases n,
{
    if n <= 0 {
        seq![]
    } else if advisory_range(advs[n - 1]) is Some {
        convertible(advs, n - 1).push(n - 1)
    } else {
        convertible(advs, n - 1)
    }
}

/// Map OSV ecosystem names to this tool's ecosystem names.
pub fn normalize_ecosystem(eco: &str) -> (r: String)
    ensures
        r@ == normalize_ecosystem_spec(eco@),
{
    if str_eq(eco, "npm") {
        owned("npm")
    } else if str_eq(eco, "PyPI") {
        owned("pip")
    } else if str_eq(eco, "Go") {
        owned("go")
    } else if str_eq(eco, "crates.io") {
        owned("cargo")
    } else {
        owned(eco)
    }
}

/// Convert a single range (introduced..fixed) to a range string.
pub fn range_to_string(range: &Range) -> (r: Option<String>)
    ensures
        opt_view(r) == range_string(*range),
{
    let events = &range.events;
    let mut introduced: Option<&String> = None;
    let mut fixed: Option<&String> = None;
    let mut k: usize = 0;
    while k < events.len()
        invariant
            k <= events@.len(),
            match introduced {
                Some(s) => last_introduced(events@, k as int) == Some(s@),
                None => last_introduced(events@, k as int) is None,
            },
            match fixed {
                Some(s) => last_fixed(events@, k as int) == Some(s@),
                None => last_fixed(events@, k as int) is None,
            },
        decreases events@.len() - k,
    {
        match &events[k].introduced {
            Some(v) => {
                introduced = Some(v);
            },
            None => {},
        }
        match &events[k].fixed {
            Some(v) => {
                fixed = Some(v);
            },
            None => {},
        }
        k = k + 1;
    }
    match introduced {
        Some(i) => {
            let mut out: Vec<char> = Vec::new();
            out.push('>');
            out.push('=');
            let ic = chars_of(i.as_str());
            push_all(&mut out, ic.as_slice());
            match fixed {
                Some(f) => {
                    out.push(' ');
                    out.push('<');
                    let fc = chars_of(f.as_str());
                    push_all(&mut out, fc.as_slice());
                    assert(out@ =~= seq!['>', '='] + i@ + seq![' ', '<'] + f@);
                    Some(string_of(out.as_slice()))
                },
                None => {
                    assert(out@ =~= seq!['>', '='] + i@);
                    Some(string_of(out.as_slice()))
                },
            }
        },
        None => None,
    }
}

/// Appends `sep` then `part` to `out` unless `out` holds the first part.
fn push_joined(out: &mut Vec<char>, first: bool, part: &[char])
    ensures
        final(out)@ == (if first {
            old(out)@ + part@
        } else {
            old(out)@ + seq![','] + part@
        }),
{
    if !first {
        out.push(',');
    }
    push_all(out, part);
}

proof fn lemma_join_step(parts: Seq<Seq<char>>, i: int)
    requires
        0 <= i < parts.len(),
    ensures
        join(parts.take(i + 1), seq![',']) == (if i == 0 {
            parts[0]
        } else {
            join(parts.take(i), seq![',']) + seq![','] + parts[i]
        }),
{
    let t = parts.take(i + 1);
    if i == 0 {
        assert(t.len() == 1);
    } else {
        assert(t.drop_last() =~= parts.take(i));
        assert(t.last() == parts[i]);
    }
}

/// The `SEMVER` range strings of `ranges`, joined by commas, if any.
fn semver_range_list(ranges: &Vec<Range>) -> (r: Option<String>)
    ensures
        match r {
            Some(s) => semver_strings(ranges@, ranges@.len() as int).len() > 0 && s@ == join(
                semver_strings(ranges@, ranges@.len() as int),
                seq![','],
            ),
            None => semver_strings(ranges@, ranges@.len() as int).len() == 0,
        },
{
    let mut out: Vec<char> = Vec::new();
    let mut any = false;
    let mut k: usize = 0;
    proof {
        reveal_strlit("SEMVER");
        assert("SEMVER"@ =~= semver_tag());
    }
    while k < ranges.len()
        invariant
            k <= ranges@.len(),
            "SEMVER"@ == semver_tag(),
            any == (semver_strings(ranges@, k as int).len() > 0),
            out@ == join(semver_strings(ranges@, k as int), seq![',']),
        decreases ranges@.len() - k,
    {
        let ghost prev = semver_strings(ranges@, k as int);
        let r = &ranges[k];
        if str_eq(r.range_type.as_str(), "SEMVER") {
            match range_to_string(r) {
                Some(s) => {
                    let sc = chars_of(s.as_str());
                    let ghost cur = prev.push(s@);
                    proof {
                        lemma_join_step(cur, prev.len() as int);
                        assert(cur.take(prev.len() as int) =~= prev);
                        assert(cur.take(prev.len() as int + 1) =~= cur);
                    }
                    push_joined(&mut out, !any, sc.as_slice());
                    any = true;
                },
                None => {},
            }
        }
        k = k + 1;
    }
    if any {
        Some(string_of(out.as_slice()))
    } else {
        None
    }
}

/// The exact version list `"=X,=Y,=Z"`.
fn exact_version_list(versions: &Vec<String>) -> (r: String)
    ensures
        r@ == join(exact_versions(versions@), seq![',']),
{
    let ghost parts = exact_versions(versions@);
    let mut out: Vec<char> = Vec::new();
    let mut k: usize = 0;
    while k < versions.len()
        invariant
            k <= versions@.len(),
            parts == exact_versions(versions@),
            out@ == join(parts.take(k as int), seq![',']),
        decreases versions@.len() - k,
    {
        let mut part: Vec<char> = Vec::new();
        part.push('=');
        let vc = chars_of(versions[k].as_str());
        push_all(&mut part, vc.as_slice());
        assert(part@ =~= parts[k as int]);
        proof {
            lemma_join_step(parts, k as int);
            if k == 0 {
                assert(parts.take(0) =~= Seq::<Seq<char>>::empty());
            }
        }
        push_joined(&mut out, k == 0, part.as_slice());
        k = k + 1;
    }
    assert(parts.take(versions@.len() as int) =~= parts);
    string_of(out.as_slice())
}

/// Extract a semver range string from the advisory's affected data.
/// Prefers `SEMVER` ranges; falls back to an exact version list.
pub fn extract_range(adv: &Advisory) -> (r: Option<String>)
    ensures
        opt_view(r) == advisory_range(*adv),
{
    let affected = &adv.affected;
    let mut k: usize = 0;
    while k < affected.len()
        invariant
            *affected == adv.affected,
            k <= affected@.len(),
            range_from(affected@, 0) == range_from(affected@, k as int),
        decreases affected@.len() - k,
    {
        let a = &affected[k];
        match semver_range_list(&a.ranges) {
            Some(s) => {
                assert(range_from(affected@, k as int) == Some(s@));
                return Some(s);
            },
            None => {},
        }
        if a.versions.len() > 0 {
            let e = exact_version_list(&a.versions);
            assert(range_from(affected@, k as int) == Some(e@));
            return Some(e);
        }
        k = k + 1;
    }
    None
}

/// Find the earliest fixed version in the advisory.
pub fn extract_fixed_version(adv: &Advisory) -> (r: Option<String>)
    ensures
        opt_view(r) == advisory_fixed(*adv),
{
    let affected = &adv.affected;
    let mut a: usize = 0;
    while a < affected.len()
        invariant
            *affected == adv.affected,
            a <= affected@.len(),
            first_fixed_affected(affected@, 0) == first_fixed_affected(affected@, a as int),
        decreases affected@.len() - a,
    {
        let ranges = &affected[a].ranges;
        let mut b: usize = 0;
        while b < ranges.len()
            invariant
                *affected == adv.affected,
                a < affected@.len(),
                *ranges == affected@[a as int].ranges,
                first_fixed_affected(affected@, 0) == first_fixed_affected(affected@, a as int),
                b <= ranges@.len(),
                first_fixed_range(ranges@, 0) == first_fixed_range(ranges@, b as int),
            decreases ranges@.len() - b,
        {
            let events = &ranges[b].events;
            let mut c: usize = 0;
            while c < events.len()
                invariant
                    *affected == adv.affected,
                    a < affected@.len(),
                    *ranges == affected@[a as int].ranges,
                    first_fixed_affected(affected@, 0) == first_fixed_affected(affected@, a as int),
                    b < ranges@.len(),
                    *events == ranges@[b as int].events,
                    first_fixed_range(ranges@, 0) == first_fixed_range(ranges@, b as int),
                    c <= events@.len(),
                    first_fixed_event(events@, 0) == first_fixed_event(events@, c as int),
                decreases events@.len() - c,
            {
                match &events[c].fixed {
                    Some(v) => {
                        return Some(owned(v.as_str()));
                    },
                    None => {},
                }
                c = c + 1;
            }
            b = b + 1;
        }
        a = a + 1;
    }
    None
}

/// The URLs among the references.
fn reference_urls(refs: &Vec<Reference>) -> (r: Vec<String>)
    ensures
        string_views(r@) == urls(refs@, refs@.len() as int),
{
    let mut out: Vec<String> = Vec::new();
    let mut k: usize = 0;
    while k < refs.len()
        invariant
            k <= refs@.len(),
            string_views(out@) == urls(refs@, k as int),
        decreases refs@.len() - k,
    {
        match &refs[k].url {
            Some(u) => {
                let ghost before = string_views(out@);
                let c = owned(u.as_str());
                out.push(c);
                assert(string_views(out@) =~= before.push(u@));
            },
            None => {},
        }
        k = k + 1;
    }
    out
}

/// The problem record for one advisory, or `None` when it has no usable
/// range data. `severity` is the label of its CVSS score.
pub fn convert_one(adv: &Advisory, severity: &str, ecosystem: &str, package: &str) -> (r: Option<Problem>)
    ensures
        match r {
            Some(p) => converted(p, *adv, severity@, ecosystem@, package@),
            None => advisory_range(*adv) is None,
        },
{
    let affected_range = match extract_range(adv) {
        Some(s) => s,
        None => {
            return None;
        },
    };
    let title = match &adv.summary {
        Some(s) => owned(s.as_str()),
        None => owned(adv.id.as_str()),
    };
    Some(
        Problem {
            id: owned(adv.id.as_str()),
            title,
            severity: owned(severity),
            ecosystem: normalize_ecosystem(ecosystem),
            package: owned(package),
            affected_range,
            fixed_in: extract_fixed_version(adv),
            references: reference_urls(&adv.references),
            source_patterns: None,
            kind: ProblemKind::Cve,
        },
    )
}

/// Convert OSV advisories into problem records, skipping those without
/// usable range data; `severities[i]` is the label of advisory `i`.
pub fn to_problems(advisories: &[Advisory], severities: &[String], ecosystem: &str, package: &str) -> (r: Vec<Problem>)
    requires
        severities@.len() == advisories@.len(),
    ensures
        r@.len() == convertible(advisories@, advisories@.len() as int).len(),
        forall|i: int|
            0 <= i < r@.len() ==> {
                let j = convertible(advisories@, advisories@.len() as int)[i];
                converted(#[trigger] r@[i], advisories@[j], severities@[j]@, ecosystem@, package@)
            },
{
    let mut out: Vec<Problem> = Vec::new();
    let mut k: usize = 0;
    while k < advisories.len()
        invariant
            k <= advisories@.len(),
            severities@.len() == advisories@.len(),
            out@.len() == convertible(advisories@, k as int).len(),
            forall|i: int|
                0 <= i < out@.len() ==> {
                    let j = convertible(advisories@, k as int)[i];
                    converted(#[trigger] out@[i], advisories@[j], severities@[j]@, ecosystem@, package@)
                },
        decreases advisories@.len() - k,
    {
        match convert_one(&advisories[k], severities[k].as_str(), ecosystem, package) {
            Some(p) => {
                out.push(p);
            },
            None => {},
        }
        k = k + 1;
    }
    out
}

} // verus!
