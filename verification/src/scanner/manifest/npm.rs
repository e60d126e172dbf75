//! `package.json` dependencies, with versions from `package-lock.json`.

use vstd::prelude::*;

use crate::scanner::manifest::{package_views, InstalledPackage, PackageModel};
use crate::text::{
    chars_of, opt_view, owned, push_range, starts_with, starts_with_at, str_eq, string_of, words,
    words_of,
};

verus! {

/// The characters `clean_version` strips from the front of a spec.
pub open spec fn is_spec_prefix_char(c: char) -> bool {
    c == '^' || c == '~' || c == '=' || c == '>' || c == '<' || c == ' '
}

/// `s` without its leading `^ ~ = > <` and spaces.
pub open spec fn strip_spec_prefix(s: Seq<char>) -> Seq<char>
    decreases s.len(),
{
    if s.len() > 0 && is_spec_prefix_char(s[0]) {
        strip_spec_prefix(s.drop_first())
    } else {
        s
    }
}

/// The version of a requirement spec: its first word once the leading
/// operators and spaces are stripped, or nothing.
pub open spec fn clean_version_spec(s: Seq<char>) -> Seq<char> {
    let ws = words(strip_spec_prefix(s));
    if ws.len() > 0 {
        ws[0]
    } else {
        seq![]
    }
}

/// The version a requirement spec such as `^1.2.3` or `>= 2.0, < 3` names.
pub fn clean_version(spec: &str) -> (r: String)
    ensures
        r@ == clean_version_spec(spec@),
{
    let cs = chars_of(spec);
    let n = cs.len();
    let mut k: usize = 0;
    assert(cs@.subrange(0, n as int) =~= cs@);
    while k < n && (cs[k] == '^' || cs[k] == '~' || cs[k] == '=' || cs[k] == '>' || cs[k] == '<'
        || cs[k] == ' ')
        invariant
            k <= n == cs@.len(),
            strip_spec_prefix(spec@) == strip_spec_prefix(cs@.subrange(k as int, n as int)),
            cs@ == spec@,
        decreases n - k,
    {
        assert(cs@.subrange(k as int, n as int).drop_first() =~= cs@.subrange(k + 1, n as int));
        k = k + 1;
    }
    let ws = words_of(cs.as_slice(), k, n);
    if ws.len() > 0 {
        assert(ws[0]@ == ws.deep_view()[0]);
        string_of(ws[0].as_slice())
    } else {
        String::new()
    }
}

/// The version of `name` in a lock listing (first entry for it).
pub open spec fn lock_version(lock: Seq<(String, String)>, name: Seq<char>, j: int) -> Option<Seq<char>>
    decreases lock.len() - j,
{
    if j < 0 || j >= lock.len() {
        None
    } else if lock[j].0@ == name {
        Some(lock[j].1@)
    } else {
        lock_version(lock, name, j + 1)
    }
}

/// The version of `name`: the lock's, else the cleaned spec.
pub open spec fn resolved_version(lock: Seq<(String, String)>, name: Seq<char>, spec: Seq<char>) -> Seq<char> {
    match lock_version(lock, name, 0) {
        Some(v) => v,
        None => clean_version_spec(spec),
    }
}

/// The packages of `deps[0..n)` (name and version spec) with a non-empty
/// resolved version, in order, as packages of ecosystem `eco`.
pub open spec fn dep_packages(
    repo_name: Seq<char>,
    repo_path: Seq<char>,
    eco: Seq<char>,
    deps: Seq<(Seq<char>, Seq<char>)>,
    lock: Seq<(String, String)>,
    n: int,
) -> Seq<PackageModel>
    decreases n,
{
    if n <= 0 {
        seq![]
    } else {
        let prev = dep_packages(repo_name, repo_path, eco, deps, lock, n - 1);
        let v = resolved_version(lock, deps[n - 1].0, deps[n - 1].1);
        if v.len() > 0 {
            prev.push((repo_name, repo_path, eco, deps[n - 1].0, v))
        } else {
            prev
        }
    }
}

/// What `package-lock.json` text gives as its package entries: `None`
/// when the text is not JSON; else the entries of its top-level
/// `packages` object in the order of serde_json's map, each key with the
/// string at its `version` when there is one (none when `packages` is
/// missing or not an object).
pub uninterp spec fn json_lock_packages(text: Seq<char>) -> Option<Seq<(Seq<char>, Option<Seq<char>>)>>;

/// A JSON member (key, string value if any) as plain values.
pub open spec fn member_view(e: (String, Option<String>)) -> (Seq<char>, Option<Seq<char>>) {
    (e.0@, opt_view(e.1))
}

/// `serde_json::from_str` on `package-lock.json` text, read down to the
/// keys of `packages` and their `version` strings.
#[verifier::external_body]
fn lock_packages(text: &str) -> (r: Option<Vec<(String, Option<String>)>>)
    ensures
        match r {
            Some(v) => json_lock_packages(text@) == Some(v@.map_values(|e: (String, Option<String>)| member_view(e))),
            None => json_lock_packages(text@) is None,
        },
{
    let lock: serde_json::Value = serde_json::from_str(text).ok()?;
    Some(match lock["packages"].as_object() {
        Some(m) => m.iter().map(|(k, v)| (k.clone(), v["version"].as_str().map(String::from))).collect(),
        None => Vec::new(),
    })
}

/// `"node_modules/"`.
pub open spec fn node_modules_prefix() -> Seq<char> {
    seq!['n', 'o', 'd', 'e', '_', 'm', 'o', 'd', 'u', 'l', 'e', 's', '/']
}

/// The (name, version) pairs of the lock entries `es[0..n)` keyed
/// `node_modules/<name>` that have a version, in order.
pub open spec fn lock_pairs(es: Seq<(Seq<char>, Option<Seq<char>>)>, n: int) -> Seq<(Seq<char>, Seq<char>)>
    decreases n,
{
    if n <= 0 {
        seq![]
    } else {
        let prev = lock_pairs(es, n - 1);
        let (key, ver) = es[n - 1];
        match ver {
            Some(v) => if starts_with(key, node_modules_prefix()) {
                prev.push((key.subrange(13, key.len() as int), v))
            } else {
                prev
            },
            None => prev,
        }
    }
}

/// The versions `package-lock.json` (v2/v3) resolves: each
/// `node_modules/<name>` entry of `packages` with a version, as
/// (name, version); none when the text is not JSON.
pub fn npm_lock_versions(text: &str) -> (r: Vec<(String, String)>)
    ensures
        r@.map_values(|p: (String, String)| (p.0@, p.1@)) == match json_lock_packages(text@) {
            Some(es) => lock_pairs(es, es.len() as int),
            None => seq![],
        },
{
    let mut out: Vec<(String, String)> = Vec::new();
    let entries = match lock_packages(text) {
        Some(e) => e,
        None => {
            assert(out@.map_values(|p: (String, String)| (p.0@, p.1@)) =~= seq![]);
            return out;
        },
    };
    let ghost es = entries@.map_values(|e: (String, Option<String>)| member_view(e));
    let prefix = ['n', 'o', 'd', 'e', '_', 'm', 'o', 'd', 'u', 'l', 'e', 's', '/'];
    assert(prefix@ =~= node_modules_prefix());
    let mut k: usize = 0;
    while k < entries.len()
        invariant
            k <= entries@.len(),
            es == entries@.map_values(|e: (String, Option<String>)| member_view(e)),
            prefix@ == node_modules_prefix(),
            out@.map_values(|p: (String, String)| (p.0@, p.1@)) == lock_pairs(es, k as int),
        decreases entries@.len() - k,
    {
        let ghost before = out@.map_values(|p: (String, String)| (p.0@, p.1@));
        assert(es[k as int] == member_view(entries@[k as int]));
        match &entries[k].1 {
            Some(v) => {
                let kc = chars_of(entries[k].0.as_str());
                assert(kc@.subrange(0, kc@.len() as int) =~= kc@);
                if starts_with_at(kc.as_slice(), prefix.as_slice(), 0, kc.len()) {
                    let mut name: Vec<char> = Vec::new();
                    push_range(&mut name, kc.as_slice(), 13, kc.len());
                    let pair = (string_of(name.as_slice()), owned(v.as_str()));
                    let ghost pv = (pair.0@, pair.1@);
                    out.push(pair);
                    assert(out@.map_values(|p: (String, String)| (p.0@, p.1@)) =~= before.push(pv));
                }
            },
            None => {},
        }
        k = k + 1;
    }
    out
}

/// What JSON `text` holds under the top-level key `key`: `None` when the
/// text is not a JSON object; else whether the key is present and not
/// `null`, with the members (each key with its value when that is a
/// string) when the value is an object, in the order of serde_json's map.
pub uninterp spec fn json_member(text: Seq<char>, key: Seq<char>) -> Option<(bool, Option<Seq<(Seq<char>, Option<Seq<char>>)>>)>;

/// `serde_json::from_str` on a JSON text, read down to the members of the
/// object under `key`.
#[verifier::external_body]
fn object_member(text: &str, key: &str) -> (r: Option<(bool, Option<Vec<(String, Option<String>)>>)>)
    ensures
        match r {
            Some((present, m)) => json_member(text@, key@) == Some((present, match m {
                Some(v) => Some(v@.map_values(|e: (String, Option<String>)| member_view(e))),
                None => None,
            })),
            None => json_member(text@, key@) is None,
        },
{
    let v: serde_json::Value = serde_json::from_str(text).ok()?;
    Some(match v.as_object()?.get(key) {
        None | Some(serde_json::Value::Null) => (false, None),
        Some(serde_json::Value::Object(m)) => (true, Some(m.iter().map(|(k, e)| (k.clone(), e.as_str().map(String::from))).collect())),
        Some(_) => (true, None),
    })
}

/// The (name, spec) pairs of members `es[0..n)`, if every value is a string.
pub open spec fn string_members(es: Seq<(Seq<char>, Option<Seq<char>>)>, n: int) -> Option<Seq<(Seq<char>, Seq<char>)>>
    decreases n,
{
    if n <= 0 {
        Some(seq![])
    } else {
        match (string_members(es, n - 1), es[n - 1].1) {
            (Some(prev), Some(v)) => Some(prev.push((es[n - 1].0, v))),
            _ => None,
        }
    }
}

/// The dependencies of one `package.json` section: none when absent or
/// `null`; its members when it is an object of strings; `None` otherwise.
pub open spec fn section_pairs(m: (bool, Option<Seq<(Seq<char>, Option<Seq<char>>)>>)) -> Option<Seq<(Seq<char>, Seq<char>)>> {
    if !m.0 {
        Some(seq![])
    } else {
        match m.1 {
            Some(es) => string_members(es, es.len() as int),
            None => None,
        }
    }
}

/// The dependencies `package.json` text declares: `dependencies` then
/// `devDependencies`; `None` when the text is not a JSON object or a
/// section is not an object of strings.
pub open spec fn package_json_deps(text: Seq<char>) -> Option<Seq<(Seq<char>, Seq<char>)>> {
    match (json_member(text, "dependencies"@), json_member(text, "devDependencies"@)) {
        (Some(d), Some(dd)) => match (section_pairs(d), section_pairs(dd)) {
            (Some(a), Some(b)) => Some(a + b),
            _ => None,
        },
        _ => None,
    }
}

/// The pairs of one section, if it is well formed.
fn section_of(text: &str, key: &str) -> (r: Option<Vec<(String, String)>>)
    ensures
        match json_member(text@, key@) {
            Some(m) => match section_pairs(m) {
                Some(ps) => r matches Some(v) && v@.map_values(|p: (String, String)| (p.0@, p.1@)) == ps,
                None => r is None,
            },
            None => r is None,
        },
{
    let (present, members) = match object_member(text, key) {
        Some(m) => m,
        None => return None,
    };
    let mut out: Vec<(String, String)> = Vec::new();
    if !present {
        assert(out@.map_values(|p: (String, String)| (p.0@, p.1@)) =~= seq![]);
        return Some(out);
    }
    let es = match members {
        Some(es) => es,
        None => return None,
    };
    let ghost ev = es@.map_values(|e: (String, Option<String>)| member_view(e));
    let mut k: usize = 0;
    assert(out@.map_values(|p: (String, String)| (p.0@, p.1@)) =~= seq![]);
    while k < es.len()
        invariant
            k <= es@.len(),
            ev == es@.map_values(|e: (String, Option<String>)| member_view(e)),
            json_member(text@, key@) == Some((true, Some(ev))),
            string_members(ev, k as int) == Some(out@.map_values(|p: (String, String)| (p.0@, p.1@))),
        decreases es@.len() - k,
    {
        let ghost before = out@.map_values(|p: (String, String)| (p.0@, p.1@));
        assert(ev[k as int] == member_view(es@[k as int]));
        match &es[k].1 {
            Some(v) => {
                let pair = (owned(es[k].0.as_str()), owned(v.as_str()));
                let ghost pv = (pair.0@, pair.1@);
                out.push(pair);
                assert(out@.map_values(|p: (String, String)| (p.0@, p.1@)) =~= before.push(pv));
            },
            None => {
                proof {
                    assert(ev[k as int].1 is None);
                    assert(string_members(ev, k as int + 1) is None);
                    lemma_string_members_stays_none(ev, k as int + 1, ev.len() as int);
                    assert(ev.len() == es@.len());
                }
                return None;
            },
        }
        k = k + 1;
    }
    Some(out)
}

/// Once a member is not a string, no longer prefix is well formed.
proof fn lemma_string_members_stays_none(es: Seq<(Seq<char>, Option<Seq<char>>)>, i: int, n: int)
    requires
        1 <= i <= n,
        string_members(es, i) is None,
    ensures
        string_members(es, n) is None,
    decreases n - i,
{
    if i < n {
        lemma_string_members_stays_none(es, i + 1, n);
    }
}

/// The dependencies `package.json` text declares (name and version spec):
/// `dependencies` then `devDependencies`; `None` when the text is not a
/// JSON object or a section is not an object of strings.
pub fn package_json_dependencies(text: &str) -> (r: Option<Vec<(String, String)>>)
    ensures
        match package_json_deps(text@) {
            Some(ps) => r matches Some(v) && v@.map_values(|p: (String, String)| (p.0@, p.1@)) == ps,
            None => r is None,
        },
{
    let mut a = match section_of(text, "dependencies") {
        Some(a) => a,
        None => return None,
    };
    let mut b = match section_of(text, "devDependencies") {
        Some(b) => b,
        None => return None,
    };
    let ghost va = a@.map_values(|p: (String, String)| (p.0@, p.1@));
    let ghost vb = b@.map_values(|p: (String, String)| (p.0@, p.1@));
    a.append(&mut b);
    assert(a@.map_values(|p: (String, String)| (p.0@, p.1@)) =~= va + vb);
    Some(a)
}

/// The version of `name` in a lock listing, if it has one.
pub fn lookup_lock(lock: &[(String, String)], name: &str) -> (r: Option<String>)
    ensures
        match lock_version(lock@, name@, 0) {
            Some(v) => r matches Some(s) && s@ == v,
            None => r is None,
        },
{
    let mut j: usize = 0;
    while j < lock.len()
        invariant
            j <= lock@.len(),
            lock_version(lock@, name@, 0) == lock_version(lock@, name@, j as int),
        decreases lock@.len() - j,
    {
        if str_eq(lock[j].0.as_str(), name) {
            return Some(owned(lock[j].1.as_str()));
        }
        j = j + 1;
    }
    None
}

/// The packages a `package.json` declares: its dependencies then its
/// devDependencies (name and version spec, as given), each with the
/// lock's resolved version when the lock lists it, else the cleaned spec;
/// those left without a version are skipped.
pub fn read(repo_name: &str, repo_path: &str, deps: &[(String, String)], lock: &[(String, String)]) -> (r: Vec<InstalledPackage>)
    ensures
        package_views(r@) == dep_packages(
            repo_name@,
            repo_path@,
            "npm"@,
            deps@.map_values(|d: (String, String)| (d.0@, d.1@)),
            lock@,
            deps@.len() as int,
        ),
{
    let ghost dv = deps@.map_values(|d: (String, String)| (d.0@, d.1@));
    let mut out: Vec<InstalledPackage> = Vec::new();
    let mut k: usize = 0;
    while k < deps.len()
        invariant
            k <= deps@.len(),
            dv == deps@.map_values(|d: (String, String)| (d.0@, d.1@)),
            package_views(out@) == dep_packages(repo_name@, repo_path@, "npm"@, dv, lock@, k as int),
        decreases deps@.len() - k,
    {
        let name = deps[k].0.as_str();
        let version = match lookup_lock(lock, name) {
            Some(v) => v,
            None => clean_version(deps[k].1.as_str()),
        };
        if version.as_str().is_empty() {
        } else {
            let p = InstalledPackage {
                repo_name: owned(repo_name),
                repo_path: owned(repo_path),
                ecosystem: owned("npm"),
                name: owned(name),
                version,
            };
            let ghost before = package_views(out@);
            let ghost pv = p@;
            out.push(p);
            assert(package_views(out@) =~= before.push(pv));
        }
        k = k + 1;
    }
    out
}

} // verus!
