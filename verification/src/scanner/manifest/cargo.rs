//! `Cargo.toml` dependencies, with versions from `Cargo.lock`.

use vstd::prelude::*;

use crate::scanner::manifest::npm::{clean_version, clean_version_spec, lock_version, lookup_lock};
use crate::scanner::manifest::{package_views, InstalledPackage, PackageModel};
use crate::text::{opt_view, owned};

verus! {

/// A dependency's entry in `Cargo.toml`, as plain values.
pub enum DepSpec {
    /// `name = "1.2"`
    Text(String),
    /// `name = { ... }`, with its `version` when that is a string.
    Table(Option<String>),
    /// Anything else.
    Other,
}

/// The version written in a dependency entry, cleaned; nothing when there
/// is none.
pub open spec fn spec_version(spec: DepSpec) -> Seq<char> {
    match spec {
        DepSpec::Text(s) => clean_version_spec(s@),
        DepSpec::Table(Some(v)) => clean_version_spec(v@),
        _ => seq![],
    }
}

/// The version written in a dependency entry.
pub fn extract_version_from_spec(spec: &DepSpec) -> (r: String)
    ensures
        r@ == spec_version(*spec),
{
    match spec {
        DepSpec::Text(s) => clean_version(s.as_str()),
        DepSpec::Table(Some(v)) => clean_version(v.as_str()),
        _ => String::new(),
    }
}

/// The packages of `deps[0..n)` with a non-empty resolved version: the
/// lock's first version for the name, else the entry's.
pub open spec fn cargo_packages(
    repo_name: Seq<char>,
    repo_path: Seq<char>,
    deps: Seq<(String, DepSpec)>,
    lock: Seq<(String, String)>,
    n: int,
) -> Seq<PackageModel>
    decreases n,
{
    if n <= 0 {
        seq![]
    } else {
        let prev = cargo_packages(repo_name, repo_path, deps, lock, n - 1);
        let name = deps[n - 1].0@;
        let v = match lock_version(lock, name, 0) {
            Some(v) => v,
            None => spec_version(deps[n - 1].1),
        };
        if v.len() > 0 {
            prev.push((repo_name, repo_path, "cargo"@, name, v))
        } else {
            prev
        }
    }
}

/// What `Cargo.lock` text gives as its packages: `None` when the text is
/// not TOML; else the entries of its `package` array in order, each with
/// its `name` and `version` strings where it has them (none when
/// `package` is missing or not an array).
pub uninterp spec fn toml_lock_packages(text: Seq<char>) -> Option<Seq<(Option<Seq<char>>, Option<Seq<char>>)>>;

/// A lock package as plain values.
pub open spec fn lock_package_view(e: (Option<String>, Option<String>)) -> (Option<Seq<char>>, Option<Seq<char>>) {
    (opt_view(e.0), opt_view(e.1))
}

/// `str::parse::<toml::Value>` on `Cargo.lock` text, read down to the
/// `name` and `version` of each `package` entry.
#[verifier::external_body]
fn lock_packages(text: &str) -> (r: Option<Vec<(Option<String>, Option<String>)>>)
    ensures
        match r {
            Some(v) => toml_lock_packages(text@) == Some(v@.map_values(|e: (Option<String>, Option<String>)| lock_package_view(e))),
            None => toml_lock_packages(text@) is None,
        },
{
    let lock: toml::Value = text.parse().ok()?;
    Some(match lock.get("package").and_then(|p| p.as_array()) {
        Some(ps) => ps.iter().map(|p| (p.get("name").and_then(|n| n.as_str()).map(String::from), p.get("version").and_then(|v| v.as_str()).map(String::from))).collect(),
        None => Vec::new(),
    })
}

/// The (name, version) pairs of the lock packages `es[0..n)` that have
/// both, in order.
pub open spec fn named_versions(es: Seq<(Option<Seq<char>>, Option<Seq<char>>)>, n: int) -> Seq<(Seq<char>, Seq<char>)>
    decreases n,
{
    if n <= 0 {
        seq![]
    } else {
        let prev = named_versions(es, n - 1);
        match es[n - 1] {
            (Some(name), Some(v)) => prev.push((name, v)),
            _ => prev,
        }
    }
}

/// The versions `Cargo.lock` lists: each package with a name and a
/// version, in order; none when the text is not TOML.
pub fn cargo_lock_versions(text: &str) -> (r: Vec<(String, String)>)
    ensures
        r@.map_values(|p: (String, String)| (p.0@, p.1@)) == match toml_lock_packages(text@) {
            Some(es) => named_versions(es, es.len() as int),
            None => seq![],
        },
{
    let mut out: Vec<(String, String)> = Vec::new();
    let entries = match lock_packages(text) {
        Some(e) => e,
        None => {
            assert(out@.map_values(|p: (String, String)| (p.0@, p.1@)) =~= seq![]);
            return out;
        },
    };
    let ghost es = entries@.map_values(|e: (Option<String>, Option<String>)| lock_package_view(e));
    let mut k: usize = 0;
    while k < entries.len()
        invariant
            k <= entries@.len(),
            es == entries@.map_values(|e: (Option<String>, Option<String>)| lock_package_view(e)),
            out@.map_values(|p: (String, String)| (p.0@, p.1@)) == named_versions(es, k as int),
        decreases entries@.len() - k,
    {
        let ghost before = out@.map_values(|p: (String, String)| (p.0@, p.1@));
        assert(es[k as int] == lock_package_view(entries@[k as int]));
        match (&entries[k].0, &entries[k].1) {
            (Some(n), Some(v)) => {
                let pair = (owned(n.as_str()), owned(v.as_str()));
                let ghost pv = (pair.0@, pair.1@);
                out.push(pair);
                assert(out@.map_values(|p: (String, String)| (p.0@, p.1@)) =~= before.push(pv));
            },
            _ => {},
        }
        k = k + 1;
    }
    out
}

/// A dependency entry as plain values: `(0, Some(s))` for the string
/// `s`, `(1, v)` for a table whose `version` string is `v` if any, and
/// `(2, None)` for anything else.
pub open spec fn dep_view(d: DepSpec) -> (u8, Option<Seq<char>>) {
    match d {
        DepSpec::Text(s) => (0, Some(s@)),
        DepSpec::Table(v) => (1, opt_view(v)),
        DepSpec::Other => (2, None),
    }
}

/// The views of dependency entries.
pub open spec fn dep_views(ds: Seq<(String, DepSpec)>) -> Seq<(Seq<char>, (u8, Option<Seq<char>>))> {
    ds.map_values(|d: (String, DepSpec)| (d.0@, dep_view(d.1)))
}

/// What TOML `text` holds under the top-level key `key`: `None` when the
/// text is not TOML; else whether the key is present, with its entries
/// (as `dep_view` describes them, in the order of toml's map) when its
/// value is a table.
pub uninterp spec fn toml_member(text: Seq<char>, key: Seq<char>) -> Option<(bool, Option<Seq<(Seq<char>, (u8, Option<Seq<char>>))>>)>;

/// `toml::from_str` on a manifest, read down to the entries of the table
/// under `key`.
#[verifier::external_body]
fn table_member(text: &str, key: &str) -> (r: Option<(bool, Option<Vec<(String, DepSpec)>>)>)
    ensures
        match r {
            Some((present, m)) => toml_member(text@, key@) == Some((present, match m {
                Some(v) => Some(dep_views(v@)),
                None => None,
            })),
            None => toml_member(text@, key@) is None,
        },
{
    let doc: toml::Table = toml::from_str(text).ok()?;
    Some(match doc.get(key) {
        None => (false, None),
        Some(toml::Value::Table(t)) => (true, Some(t.iter().map(|(k, v)| (k.clone(), match v {
            toml::Value::String(s) => DepSpec::Text(s.clone()),
            toml::Value::Table(e) => DepSpec::Table(e.get("version").and_then(|x| x.as_str()).map(String::from)),
            _ => DepSpec::Other,
        })).collect())),
        Some(_) => (true, None),
    })
}

/// The entries of one `Cargo.toml` section: none when absent, its entries
/// when it is a table, `None` otherwise.
pub open spec fn toml_section(m: (bool, Option<Seq<(Seq<char>, (u8, Option<Seq<char>>))>>)) -> Option<Seq<(Seq<char>, (u8, Option<Seq<char>>))>> {
    if !m.0 {
        Some(seq![])
    } else {
        m.1
    }
}

/// The dependencies `Cargo.toml` text declares: `dependencies` then
/// `dev-dependencies`; `None` when the text is not TOML or a section is
/// not a table.
pub open spec fn cargo_toml_deps(text: Seq<char>) -> Option<Seq<(Seq<char>, (u8, Option<Seq<char>>))>> {
    match (toml_member(text, "dependencies"@), toml_member(text, "dev-dependencies"@)) {
        (Some(d), Some(dd)) => match (toml_section(d), toml_section(dd)) {
            (Some(a), Some(b)) => Some(a + b),
            _ => None,
        },
        _ => None,
    }
}

/// The entries of one section, if it is well formed.
fn section_of(text: &str, key: &str) -> (r: Option<Vec<(String, DepSpec)>>)
    ensures
        match toml_member(text@, key@) {
            Some(m) => match toml_section(m) {
                Some(es) => r matches Some(v) && dep_views(v@) == es,
                None => r is None,
            },
            None => r is None,
        },
{
    match table_member(text, key) {
        Some((present, m)) => {
            if !present {
                let v: Vec<(String, DepSpec)> = Vec::new();
                assert(dep_views(v@) =~= seq![]);
                Some(v)
            } else {
                m
            }
        },
        None => None,
    }
}

/// The dependencies `Cargo.toml` text declares: `dependencies` then
/// `dev-dependencies`; `None` when the text is not TOML or a section is
/// not a table.
pub fn cargo_toml_dependencies(text: &str) -> (r: Option<Vec<(String, DepSpec)>>)
    ensures
        match cargo_toml_deps(text@) {
            Some(ds) => r matches Some(v) && dep_views(v@) == ds,
            None => r is None,
        },
{
    let mut a = match section_of(text, "dependencies") {
        Some(a) => a,
        None => return None,
    };
    let mut b = match section_of(text, "dev-dependencies") {
        Some(b) => b,
        None => return None,
    };
    let ghost va = dep_views(a@);
    let ghost vb = dep_views(b@);
    a.append(&mut b);
    assert(dep_views(a@) =~= va + vb);
    Some(a)
}

/// The packages a `Cargo.toml` declares: its dependencies then its
/// dev-dependencies, each with the first version `Cargo.lock` lists for
/// the name, else the version of its entry; those without are skipped.
pub fn read(repo_name: &str, repo_path: &str, deps: &[(String, DepSpec)], lock: &[(String, String)]) -> (r: Vec<InstalledPackage>)
    ensures
        package_views(r@) == cargo_packages(repo_name@, repo_path@, deps@, lock@, deps@.len() as int),
{
    let mut out: Vec<InstalledPackage> = Vec::new();
    let mut k: usize = 0;
    while k < deps.len()
        invariant
            k <= deps@.len(),
            package_views(out@) == cargo_packages(repo_name@, repo_path@, deps@, lock@, k as int),
        decreases deps@.len() - k,
    {
        let name = deps[k].0.as_str();
        let version = match lookup_lock(lock, name) {
            Some(v) => v,
            None => extract_version_from_spec(&deps[k].1),
        };
        if version.as_str().is_empty() {
        } else {
            let p = InstalledPackage {
                repo_name: owned(repo_name),
                repo_path: owned(repo_path),
                ecosystem: owned("cargo"),
                name: owned(name),
                version,
            };
            let ghost before = package_views(out@);
            let ghost pv = p@;
            out.push(p);
            assert(package_views(out@) =~= before.push(pv));
        }
        k = k + 1;
    }
    out
}

} // verus!
