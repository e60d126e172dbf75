//! Turning the advisories of the OSV ecosystem archives into problem
//! records: which advisories are kept, under which package name, and how
//! records with the same id are merged. Downloading and unpacking the
//! archives is left to the caller.

use std::io::Read;
use vstd::prelude::*;

use crate::fetcher::converter::{advisory_range, convert_one, converted};
use crate::fetcher::osv::Advisory;
use crate::problems::schema::Problem;
use crate::text::{chars_of, ends_with, ends_with_exec, opt_view, owned, str_eq};

verus! {

/// The ecosystems whose advisories are filtered against the curated
/// package list: OSV's name and this tool's.
pub open spec fn ecosystem_buckets() -> Seq<(Seq<char>, Seq<char>)> {
    seq![("npm"@, "npm"@), ("PyPI"@, "pip"@), ("Go"@, "go"@), ("crates.io"@, "cargo"@)]
}

/// The ecosystems whose advisories are all kept.
pub open spec fn unfiltered_buckets() -> Seq<(Seq<char>, Seq<char>)> {
    seq![("MALICIOUS"@, "malicious"@)]
}

/// The ecosystems whose advisories are filtered against the curated list.
pub fn filtered_ecosystems() -> (r: Vec<(&'static str, &'static str)>)
    ensures
        r@.map_values(|e: (&str, &str)| (e.0@, e.1@)) == ecosystem_buckets(),
{
    let r = vec![("npm", "npm"), ("PyPI", "pip"), ("Go", "go"), ("crates.io", "cargo")];
    assert(r@.map_values(|e: (&str, &str)| (e.0@, e.1@)) =~= ecosystem_buckets());
    r
}

/// The ecosystems whose advisories are all kept.
pub fn unfiltered_ecosystems() -> (r: Vec<(&'static str, &'static str)>)
    ensures
        r@.map_values(|e: (&str, &str)| (e.0@, e.1@)) == unfiltered_buckets(),
{
    let r = vec![("MALICIOUS", "malicious")];
    assert(r@.map_values(|e: (&str, &str)| (e.0@, e.1@)) =~= unfiltered_buckets());
    r
}

/// The code of a character with ASCII capitals lowered.
pub open spec fn ascii_lower(c: char) -> u32 {
    if 65 <= (c as u32) <= 90 {
        ((c as u32) + 32) as u32
    } else {
        c as u32
    }
}

/// `str::eq_ignore_ascii_case`: equal once ASCII capitals are lowered.
pub open spec fn eq_ignore_ascii_case(a: Seq<char>, b: Seq<char>) -> bool {
    a.len() == b.len() && forall|i: int| 0 <= i < a.len() ==> ascii_lower(#[trigger] a[i]) == ascii_lower(b[i])
}

/// Whether two strings are equal up to ASCII letter case.
pub fn eq_ignore_case(a: &str, b: &str) -> (r: bool)
    ensures
        r == eq_ignore_ascii_case(a@, b@),
{
    let x = chars_of(a);
    let y = chars_of(b);
    if x.len() != y.len() {
        return false;
    }
    let mut i: usize = 0;
    while i < x.len()
        invariant
            i <= x@.len(),
            x@.len() == y@.len(),
            x@ == a@,
            y@ == b@,
            forall|t: int| 0 <= t < i ==> ascii_lower(#[trigger] x@[t]) == ascii_lower(y@[t]),
        decreases x@.len() - i,
    {
        let cx = x[i] as u32;
        let cy = y[i] as u32;
        let lx = if 65 <= cx && cx <= 90 {
            cx + 32
        } else {
            cx
        };
        let ly = if 65 <= cy && cy <= 90 {
            cy + 32
        } else {
            cy
        };
        if lx != ly {
            return false;
        }
        i = i + 1;
    }
    true
}

/// The package name an advisory is filed under, given the names of its
/// affected entries in order (`None` where an entry names none): the first
/// name that matches the filter up to ASCII case, read up to the first
/// entry without a name.
pub open spec fn matched_name(names: Seq<Option<Seq<char>>>, filter: Seq<String>, j: int) -> Option<Seq<char>>
    decreases names.len() - j,
{
    if j < 0 || j >= names.len() {
        None
    } else {
        match names[j] {
            None => None,
            Some(n) => if exists|f: int| 0 <= f < filter.len() && eq_ignore_ascii_case(#[trigger] filter[f]@, n) {
                Some(n)
            } else {
                matched_name(names, filter, j + 1)
            },
        }
    }
}

/// Whether some filter entry equals `name` up to ASCII case.
fn in_filter(filter: &[String], name: &str) -> (r: bool)
    ensures
        r == exists|f: int| 0 <= f < filter@.len() && eq_ignore_ascii_case(#[trigger] filter@[f]@, name@),
{
    let mut k: usize = 0;
    while k < filter.len()
        invariant
            k <= filter@.len(),
            forall|f: int| 0 <= f < k ==> !eq_ignore_ascii_case(#[trigger] filter@[f]@, name@),
        decreases filter@.len() - k,
    {
        if eq_ignore_case(filter[k].as_str(), name) {
            return true;
        }
        k = k + 1;
    }
    false
}

/// The name of the first affected package that the curated list holds (up
/// to ASCII case), reading the entries in order and stopping at one
/// without a package name.
fn matched_in_names(names: &[Option<String>], filter: &[String]) -> (r: Option<String>)
    ensures
        match matched_name(opt_views(names@), filter@, 0) {
            Some(n) => r matches Some(s) && s@ == n,
            None => r is None,
        },
{
    let mut j: usize = 0;
    while j < names.len()
        invariant
            j <= names@.len(),
            matched_name(opt_views(names@), filter@, 0) == matched_name(opt_views(names@), filter@, j as int),
        decreases names@.len() - j,
    {
        match &names[j] {
            None => {
                return None;
            },
            Some(n) => {
                if in_filter(filter, n.as_str()) {
                    return Some(owned(n.as_str()));
                }
            },
        }
        j = j + 1;
    }
    None
}

/// The first package name among the affected entries, from `j` on.
pub open spec fn first_name(names: Seq<Option<Seq<char>>>, j: int) -> Option<Seq<char>>
    decreases names.len() - j,
{
    if j < 0 || j >= names.len() {
        None
    } else {
        match names[j] {
            Some(n) => Some(n),
            None => first_name(names, j + 1),
        }
    }
}

/// The first package name among the affected entries.
fn first_in_names(names: &[Option<String>]) -> (r: Option<String>)
    ensures
        match first_name(opt_views(names@), 0) {
            Some(n) => r matches Some(s) && s@ == n,
            None => r is None,
        },
{
    let mut j: usize = 0;
    while j < names.len()
        invariant
            j <= names@.len(),
            first_name(opt_views(names@), 0) == first_name(opt_views(names@), j as int),
        decreases names@.len() - j,
    {
        match &names[j] {
            Some(n) => {
                return Some(owned(n.as_str()));
            },
            None => {},
        }
        j = j + 1;
    }
    None
}

/// The views of a sequence of optional strings.
pub open spec fn opt_views(s: Seq<Option<String>>) -> Seq<Option<Seq<char>>> {
    s.map_values(|o: Option<String>| opt_view(o))
}

/// What the advisory JSON `text` gives as the names of its affected
/// packages: `None` when the text is not JSON or has no `affected` array;
/// else, for each entry of `affected` in order, the string at
/// `package.name`, or `None` where there is none.
pub uninterp spec fn json_affected_names(text: Seq<char>) -> Option<Seq<Option<Seq<char>>>>;

/// `serde_json::from_str` on an advisory, read down to the package names of
/// its `affected` entries.
#[verifier::external_body]
fn affected_names(text: &str) -> (r: Option<Vec<Option<String>>>)
    ensures
        match r {
            Some(v) => json_affected_names(text@) == Some(opt_views(v@)),
            None => json_affected_names(text@) is None,
        },
{
    let v: serde_json::Value = serde_json::from_str(text).ok()?;
    let affected = v.get("affected")?.as_array()?;
    Some(affected.iter().map(|e| e.get("package").and_then(|p| p.get("name")).and_then(|n| n.as_str()).map(String::from)).collect())
}

/// The package an advisory JSON text is filed under when filtering by the
/// curated list: the first affected package name the list holds (up to
/// ASCII case), read up to the first entry without a name.
pub open spec fn matched_package_name_spec(json: Seq<char>, filter: Seq<String>) -> Option<Seq<char>> {
    match json_affected_names(json) {
        Some(names) => matched_name(names, filter, 0),
        None => None,
    }
}

/// The package an advisory JSON text is filed under without a filter: its
/// first affected package name.
pub open spec fn first_package_name_spec(json: Seq<char>) -> Option<Seq<char>> {
    match json_affected_names(json) {
        Some(names) => first_name(names, 0),
        None => None,
    }
}

/// The first `affected[].package.name` of the advisory JSON that the
/// curated list holds, up to ASCII case.
pub fn matched_package_name(json: &str, filter: &[String]) -> (r: Option<String>)
    ensures
        match matched_package_name_spec(json@, filter@) {
            Some(n) => r matches Some(s) && s@ == n,
            None => r is None,
        },
{
    match affected_names(json) {
        Some(names) => matched_in_names(names.as_slice(), filter),
        None => None,
    }
}

/// The first `affected[].package.name` of the advisory JSON.
pub fn first_package_name(json: &str) -> (r: Option<String>)
    ensures
        match first_package_name_spec(json@) {
            Some(n) => r matches Some(s) && s@ == n,
            None => r is None,
        },
{
    match affected_names(json) {
        Some(names) => first_in_names(names.as_slice()),
        None => None,
    }
}

/// What the zip archive `bytes` holds, entry by entry in archive order:
/// `None` when the bytes are not a zip archive; else, per entry, `None`
/// where it cannot be opened, or its name and its contents when they read
/// as UTF-8 text (`None` where they do not).
pub uninterp spec fn zip_entries(bytes: Seq<u8>) -> Option<Seq<Option<(Seq<char>, Option<Seq<char>>)>>>;

/// One archive entry as plain values.
pub open spec fn entry_view(e: Option<(String, Option<String>)>) -> Option<(Seq<char>, Option<Seq<char>>)> {
    match e {
        Some((n, c)) => Some((n@, opt_view(c))),
        None => None,
    }
}

/// `zip::ZipArchive::new` and `by_index` over every entry, each entry read
/// as a name and, if it reads as UTF-8, its text.
#[verifier::external_body]
fn archive_entries(bytes: &[u8]) -> (r: Option<Vec<Option<(String, Option<String>)>>>)
    ensures
        match r {
            Some(v) => zip_entries(bytes@) == Some(v@.map_values(|e: Option<(String, Option<String>)>| entry_view(e))),
            None => zip_entries(bytes@) is None,
        },
{
    let mut archive = zip::ZipArchive::new(std::io::Cursor::new(bytes)).ok()?;
    let mut out = Vec::new();
    for i in 0..archive.len() {
        out.push(match archive.by_index(i) {
            Ok(mut f) => {
                let name = f.name().to_string();
                let mut text = String::new();
                Some((name, f.read_to_string(&mut text).ok().map(|_| text)))
            },
            Err(_) => None,
        });
    }
    Some(out)
}

/// The package an advisory text is filed under: by the curated list when
/// there is one, else its first package.
pub open spec fn filed_under(json: Seq<char>, filter: Option<Seq<String>>) -> Option<Seq<char>> {
    match filter {
        Some(f) => matched_package_name_spec(json, f),
        None => first_package_name_spec(json),
    }
}

/// `".json"`.
pub open spec fn json_suffix() -> Seq<char> {
    seq!['.', 'j', 's', 'o', 'n']
}

/// The (package name, advisory text) pairs of the entries `es[0..n)`: the
/// `.json` entries that open and read as text and are filed under some
/// package, in archive order.
pub open spec fn advisory_texts(es: Seq<Option<(Seq<char>, Option<Seq<char>>)>>, filter: Option<Seq<String>>, n: int) -> Seq<(Seq<char>, Seq<char>)>
    decreases n,
{
    if n <= 0 {
        seq![]
    } else {
        let prev = advisory_texts(es, filter, n - 1);
        match es[n - 1] {
            Some((name, Some(text))) => if ends_with(name, json_suffix()) {
                match filed_under(text, filter) {
                    Some(pkg) => prev.push((pkg, text)),
                    None => prev,
                }
            } else {
                prev
            },
            _ => prev,
        }
    }
}

/// The advisory texts of an OSV archive with the package each is filed
/// under (by the curated list when given, else the first package); `None`
/// when the bytes are not a zip archive.
pub fn select_advisory_texts(bytes: &[u8], filter: Option<&[String]>) -> (r: Option<Vec<(String, String)>>)
    ensures
        match zip_entries(bytes@) {
            Some(es) => r matches Some(v) && v@.map_values(|p: (String, String)| (p.0@, p.1@))
                == advisory_texts(es, filter_view(filter), es.len() as int),
            None => r is None,
        },
{
    let entries = match archive_entries(bytes) {
        Some(e) => e,
        None => return None,
    };
    let ghost es = entries@.map_values(|e: Option<(String, Option<String>)>| entry_view(e));
    let ghost fv = filter_view(filter);
    let mut out: Vec<(String, String)> = Vec::new();
    let mut k: usize = 0;
    while k < entries.len()
        invariant
            k <= entries@.len(),
            es == entries@.map_values(|e: Option<(String, Option<String>)>| entry_view(e)),
            fv == filter_view(filter),
            out@.map_values(|p: (String, String)| (p.0@, p.1@)) == advisory_texts(es, fv, k as int),
        decreases entries@.len() - k,
    {
        let ghost before = out@.map_values(|p: (String, String)| (p.0@, p.1@));
        assert(es[k as int] == entry_view(entries@[k as int]));
        match &entries[k] {
            Some((name, Some(text))) => {
                let json_ext = chars_of(".json");
                proof {
                    reveal_strlit(".json");
                }
                assert(json_ext@ =~= json_suffix());
                let nc = chars_of(name.as_str());
                if ends_with_exec(nc.as_slice(), json_ext.as_slice()) {
                    let pkg = match filter {
                        Some(f) => matched_package_name(text.as_str(), f),
                        None => first_package_name(text.as_str()),
                    };
                    match pkg {
                        Some(p) => {
                            let ghost pv = (p@, text@);
                            out.push((p, owned(text.as_str())));
                            assert(out@.map_values(|p: (String, String)| (p.0@, p.1@)) =~= before.push(pv));
                        },
                        None => {},
                    }
                }
            },
            _ => {},
        }
        k = k + 1;
    }
    assert(es.len() == entries@.len());
    Some(out)
}

/// The filter as plain values.
pub open spec fn filter_view(filter: Option<&[String]>) -> Option<Seq<String>> {
    match filter {
        Some(f) => Some(f@),
        None => None,
    }
}

/// The indices of `pairs[0..n)` whose advisory has usable range data.
pub open spec fn usable_pairs(pairs: Seq<(String, Advisory)>, n: int) -> Seq<int>
    decreases n,
{
    if n <= 0 {
        seq![]
    } else if advisory_range(pairs[n - 1].1) is Some {
        usable_pairs(pairs, n - 1).push(n - 1)
    } else {
        usable_pairs(pairs, n - 1)
    }
}

/// The problem records of an ecosystem's advisories, each filed under its
/// package name (`severities[i]` is the label of advisory `i`); those
/// without usable range data are skipped.
pub fn pairs_to_problems(pairs: &[(String, Advisory)], severities: &[String], dep_eco: &str) -> (r: Vec<Problem>)
    requires
        severities@.len() == pairs@.len(),
    ensures
        r@.len() == usable_pairs(pairs@, pairs@.len() as int).len(),
        forall|i: int|
            0 <= i < r@.len() ==> {
                let j = usable_pairs(pairs@, pairs@.len() as int)[i];
                converted(#[trigger] r@[i], pairs@[j].1, severities@[j]@, dep_eco@, pairs@[j].0@)
            },
{
    let mut out: Vec<Problem> = Vec::new();
    let mut k: usize = 0;
    while k < pairs.len()
        invariant
            k <= pairs@.len(),
            severities@.len() == pairs@.len(),
            out@.len() == usable_pairs(pairs@, k as int).len(),
            forall|i: int|
                0 <= i < out@.len() ==> {
                    let j = usable_pairs(pairs@, k as int)[i];
                    converted(#[trigger] out@[i], pairs@[j].1, severities@[j]@, dep_eco@, pairs@[j].0@)
                },
        decreases pairs@.len() - k,
    {
        match convert_one(&pairs[k].1, severities[k].as_str(), dep_eco, pairs[k].0.as_str()) {
            Some(p) => {
                out.push(p);
            },
            None => {},
        }
        k = k + 1;
    }
    out
}

/// The problems of `ps[0..n)` whose id no earlier one has, in order.
pub open spec fn first_of_each_id(ps: Seq<Problem>, n: int) -> Seq<Problem>
    decreases n,
{
    if n <= 0 {
        seq![]
    } else {
        let prev = first_of_each_id(ps, n - 1);
        if prev.map_values(|p: Problem| p.id@).contains(ps[n - 1].id@) {
            prev
        } else {
            prev.push(ps[n - 1])
        }
    }
}

/// Keep the first problem of each id, in order of first appearance.
pub fn dedup_by_id(problems: Vec<Problem>) -> (r: Vec<Problem>)
    ensures
        r@ == first_of_each_id(problems@, problems@.len() as int),
{
    let ghost ps = problems@;
    let n0 = problems.len();
    let mut rest = problems;
    let mut out: Vec<Problem> = Vec::new();
    let mut k: usize = 0;
    while rest.len() > 0
        invariant
            n0 == ps.len(),
            k + rest@.len() == n0,
            forall|t: int| 0 <= t < rest@.len() ==> #[trigger] rest@[t] == ps[k + t],
            out@ == first_of_each_id(ps, k as int),
        decreases rest@.len(),
    {
        let p = rest.remove(0);
        assert(p == ps[k as int]);
        let ghost ids = out@.map_values(|p: Problem| p.id@);
        let mut seen = false;
        let mut j: usize = 0;
        while j < out.len()
            invariant
                j <= out@.len(),
                ids == out@.map_values(|p: Problem| p.id@),
                seen == exists|t: int| 0 <= t < j && ids[t] == p.id@,
            decreases out@.len() - j,
        {
            if str_eq(out[j].id.as_str(), p.id.as_str()) {
                assert(ids[j as int] == p.id@);
                seen = true;
            }
            j = j + 1;
        }
        proof {
            if ids.contains(p.id@) {
                let t = choose|t: int| 0 <= t < ids.len() && ids[t] == p.id@;
                assert(ids[t] == p.id@);
            }
        }
        if !seen {
            out.push(p);
        }
        k = k + 1;
    }
    out
}

/// Deduplication keeps one problem per id: the ids of the result are
/// distinct, and every id of the input is among them.
pub proof fn law_dedup_by_id(ps: Seq<Problem>, n: int)
    requires
        0 <= n <= ps.len(),
    ensures
        forall|a: int, b: int|
            0 <= a < b < first_of_each_id(ps, n).len() ==> (#[trigger] first_of_each_id(ps, n)[a]).id@
                != (#[trigger] first_of_each_id(ps, n)[b]).id@,
        forall|j: int| 0 <= j < n ==> first_of_each_id(ps, n).map_values(|p: Problem| p.id@).contains(
            (#[trigger] ps[j]).id@,
        ),
    decreases n,
{
    if n > 0 {
        law_dedup_by_id(ps, n - 1);
        let prev = first_of_each_id(ps, n - 1);
        let ids = prev.map_values(|p: Problem| p.id@);
        let cur = first_of_each_id(ps, n);
        if !ids.contains(ps[n - 1].id@) {
            assert forall|a: int, b: int| 0 <= a < b < cur.len() implies (#[trigger] cur[a]).id@ != (
            #[trigger] cur[b]).id@ by {
                if b == cur.len() - 1 {
                    assert(ids[a] == prev[a].id@);
                }
            }
            assert forall|j: int| 0 <= j < n implies cur.map_values(|p: Problem| p.id@).contains(
                (#[trigger] ps[j]).id@,
            ) by {
                if j < n - 1 {
                    let t = choose|t: int| 0 <= t < ids.len() && ids[t] == ps[j].id@;
                    assert(cur.map_values(|p: Problem| p.id@)[t] == ps[j].id@);
                } else {
                    assert(cur.map_values(|p: Problem| p.id@)[cur.len() - 1] == ps[j].id@);
                }
            }
        }
    }
}

} // verus!
