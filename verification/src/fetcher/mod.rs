//! Queries OSV.dev for the scanned packages and turns the answers into
//! problem records. The network exchange and the cache files are handled
//! by the caller; this module decides what to ask and what the answers mean.

pub mod cache;
pub mod converter;
pub mod osv;

use vstd::prelude::*;

use crate::fetcher::osv::{Advisory, Query, QueryPackage, QueryResult};
use crate::scanner::manifest::InstalledPackage;
use crate::text::{lowercase, owned, str_eq, to_lowercase};

verus! {

/// A package key as plain values: ecosystem, name, version.
pub type PackageKey = (Seq<char>, Seq<char>, Seq<char>);

/// The key of a package: its ecosystem in lowercase, its name and version.
pub open spec fn package_key(p: InstalledPackage) -> PackageKey {
    (lowercase(p.ecosystem@), p.name@, p.version@)
}

/// The distinct keys of `pkgs[0..n)`, in order of first appearance.
pub open spec fn distinct_keys(pkgs: Seq<InstalledPackage>, n: int) -> Seq<PackageKey>
    decreases n,
{
    if n <= 0 {
        seq![]
    } else {
        let prev = distinct_keys(pkgs, n - 1);
        let k = package_key(pkgs[n - 1]);
        if prev.contains(k) {
            prev
        } else {
            prev.push(k)
        }
    }
}

/// The view of a string triple.
pub open spec fn triple_view(t: (String, String, String)) -> PackageKey {
    (t.0@, t.1@, t.2@)
}

/// This tool's ecosystem names mapped to OSV's; others unchanged.
pub open spec fn osv_ecosystem_spec(eco: Seq<char>) -> Seq<char> {
    if eco == "npm"@ {
        "npm"@
    } else if eco == "pip"@ {
        "PyPI"@
    } else if eco == "go"@ {
        "Go"@
    } else if eco == "cargo"@ {
        "crates.io"@
    } else {
        eco
    }
}

/// All advisories of `results[0..n)`, in order.
pub open spec fn all_vulns(results: Seq<QueryResult>, n: int) -> Seq<Advisory>
    decreases n,
{
    if n <= 0 {
        seq![]
    } else {
        all_vulns(results, n - 1) + results[n - 1].vulns@
    }
}

/// Dedup packages by (ecosystem, name, version) so that the same package
/// is not queried twice when it appears in several repos.
pub fn dedup_packages(packages: &[InstalledPackage]) -> (r: Vec<(String, String, String)>)
    ensures
        r@.map_values(|t: (String, String, String)| triple_view(t)) == distinct_keys(
            packages@,
            packages@.len() as int,
        ),
{
    let mut out: Vec<(String, String, String)> = Vec::new();
    let mut i: usize = 0;
    while i < packages.len()
        invariant
            i <= packages@.len(),
            out@.map_values(|t: (String, String, String)| triple_view(t)) == distinct_keys(
                packages@,
                i as int,
            ),
        decreases packages@.len() - i,
    {
        let ghost prev = distinct_keys(packages@, i as int);
        let pkg = &packages[i];
        let eco = to_lowercase(pkg.ecosystem.as_str());
        let ghost key = package_key(*pkg);
        let mut seen = false;
        let mut j: usize = 0;
        while j < out.len()
            invariant
                j <= out@.len(),
                prev == out@.map_values(|t: (String, String, String)| triple_view(t)),
                key == (eco@, pkg.name@, pkg.version@),
                seen == (exists|t: int| 0 <= t < j && prev[t] == key),
            decreases out@.len() - j,
        {
            let o = &out[j];
            if str_eq(o.0.as_str(), eco.as_str()) && str_eq(o.1.as_str(), pkg.name.as_str()) && str_eq(
                o.2.as_str(),
                pkg.version.as_str(),
            ) {
                assert(prev[j as int] == key);
                seen = true;
            } else {
                assert(prev[j as int] != key);
            }
            j = j + 1;
        }
        proof {
            if prev.contains(key) {
                let t = choose|t: int| 0 <= t < prev.len() && prev[t] == key;
                assert(prev[t] == key);
            }
        }
        if !seen {
            let ghost before = out@.map_values(|t: (String, String, String)| triple_view(t));
            let entry = (eco, owned(pkg.name.as_str()), owned(pkg.version.as_str()));
            assert(triple_view(entry) == key);
            out.push(entry);
            assert(out@.map_values(|t: (String, String, String)| triple_view(t)) =~= before.push(key));
        }
        i = i + 1;
    }
    out
}

/// Map this tool's ecosystem names to OSV ecosystem names.
pub fn to_osv_ecosystem(eco: &str) -> (r: String)
    ensures
        r@ == osv_ecosystem_spec(eco@),
{
    if str_eq(eco, "npm") {
        owned("npm")
    } else if str_eq(eco, "pip") {
        owned("PyPI")
    } else if str_eq(eco, "go") {
        owned("Go")
    } else if str_eq(eco, "cargo") {
        owned("crates.io")
    } else {
        owned(eco)
    }
}

/// The OSV query for one package version, without a page token.
pub fn package_query(ecosystem: &str, name: &str, version: &str) -> (r: Query)
    ensures
        r.version@ == version@,
        r.package.name@ == name@,
        r.package.ecosystem@ == osv_ecosystem_spec(ecosystem@),
        r.page_token is None,
{
    Query {
        version: owned(version),
        package: QueryPackage { name: owned(name), ecosystem: to_osv_ecosystem(ecosystem) },
        page_token: None,
    }
}

/// All advisories of the results, in order.
pub fn collect_advisories(results: Vec<QueryResult>) -> (r: Vec<Advisory>)
    ensures
        r@ == all_vulns(results@, results@.len() as int),
{
    let ghost res = results@;
    let n = results.len();
    let mut results = results;
    let mut rev: Vec<Vec<Advisory>> = Vec::new();
    while results.len() > 0
        invariant
            results@.len() + rev@.len() == n,
            n == res.len(),
            forall|t: int| 0 <= t < results@.len() ==> #[trigger] results@[t] == res[t],
            forall|t: int| 0 <= t < rev@.len() ==> (#[trigger] rev@[t])@ == res[n - 1 - t].vulns@,
        decreases results@.len(),
    {
        let r = results.pop().unwrap();
        let QueryResult { vulns, next_page_token: _ } = r;
        rev.push(vulns);
    }
    let mut out: Vec<Advisory> = Vec::new();
    let mut k: usize = 0;
    while rev.len() > 0
        invariant
            rev@.len() + k == n,
            n == res.len(),
            forall|t: int| 0 <= t < rev@.len() ==> (#[trigger] rev@[t])@ == res[n - 1 - t].vulns@,
            out@ == all_vulns(res, k as int),
        decreases rev@.len(),
    {
        let mut v = rev.pop().unwrap();
        out.append(&mut v);
        k = k + 1;
    }
    out
}

/// Deduplication keeps every package key exactly once: the keys are
/// distinct, each package's key is among them, and each of them is the key
/// of some package.
pub proof fn law_dedup_keeps_each_key_once(pkgs: Seq<InstalledPackage>, n: int)
    requires
        0 <= n <= pkgs.len(),
    ensures
        forall|i: int, j: int|
            0 <= i < j < distinct_keys(pkgs, n).len() ==> #[trigger] distinct_keys(pkgs, n)[i]
                != #[trigger] distinct_keys(pkgs, n)[j],
        forall|j: int| 0 <= j < n ==> distinct_keys(pkgs, n).contains(package_key(#[trigger] pkgs[j])),
        forall|i: int|
            0 <= i < distinct_keys(pkgs, n).len() ==> exists|j: int|
                0 <= j < n && package_key(#[trigger] pkgs[j]) == #[trigger] distinct_keys(pkgs, n)[i],
    decreases n,
{
    if n > 0 {
        law_dedup_keeps_each_key_once(pkgs, n - 1);
        let prev = distinct_keys(pkgs, n - 1);
        let cur = distinct_keys(pkgs, n);
        let k = package_key(pkgs[n - 1]);
        if !prev.contains(k) {
            assert(cur[cur.len() - 1] == k);
            assert forall|j: int| 0 <= j < n implies cur.contains(package_key(#[trigger] pkgs[j])) by {
                if j < n - 1 {
                    let t = choose|t: int| 0 <= t < prev.len() && prev[t] == package_key(pkgs[j]);
                    assert(cur[t] == prev[t]);
                }
            }
            assert forall|i: int| 0 <= i < cur.len() implies exists|j: int|
                0 <= j < n && package_key(#[trigger] pkgs[j]) == #[trigger] cur[i] by {
                if i < prev.len() {
                    assert(cur[i] == prev[i]);
                } else {
                    assert(package_key(pkgs[n - 1]) == cur[i]);
                }
            }
        } else {
            assert forall|i: int| 0 <= i < cur.len() implies exists|j: int|
                0 <= j < n && package_key(#[trigger] pkgs[j]) == #[trigger] cur[i] by {
                let j = choose|j: int| 0 <= j < n - 1 && package_key(#[trigger] pkgs[j]) == #[trigger] prev[i];
                assert(package_key(pkgs[j]) == cur[i]);
            }
        }
    }
}

} // verus!
