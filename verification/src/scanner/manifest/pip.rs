//! `requirements.txt` and `pyproject.toml` dependency lines.

use vstd::prelude::*;

use crate::scanner::manifest::{package_views, InstalledPackage, PackageModel};
use crate::text::{
    before, chars_of, find, find_range, lemma_find_from, lines, lines_of, lowercase, push_all,
    push_range, string_of, to_lowercase, trim, trim_bounds, opt_view, owned,
};

verus! {

/// PEP 503-style name normalization used for matching: lowercase, then
/// every `-` becomes `_`.
pub open spec fn pip_normal(name: Seq<char>) -> Seq<char> {
    lowercase(name).map_values(|c: char| if c == '-' { '_' } else { c })
}

/// Lowercases `name` and replaces `-` with `_`.
pub fn normalize_pip_name(name: &str) -> (r: String)
    ensures
        r@ == pip_normal(name@),
{
    let low = to_lowercase(name);
    let cs = chars_of(low.as_str());
    let mut out: Vec<char> = Vec::new();
    let mut i: usize = 0;
    while i < cs.len()
        invariant
            i <= cs@.len(),
            cs@ == lowercase(name@),
            out@ == cs@.take(i as int).map_values(|c: char| if c == '-' { '_' } else { c }),
        decreases cs@.len() - i,
    {
        let c = cs[i];
        out.push(if c == '-' { '_' } else { c });
        assert(cs@.take(i + 1) =~= cs@.take(i as int).push(c));
        assert(out@ =~= cs@.take(i + 1).map_values(|c: char| if c == '-' { '_' } else { c }));
        i = i + 1;
    }
    assert(cs@.take(cs@.len() as int) =~= cs@);
    string_of(out.as_slice())
}

/// The comparison operators `split_requirement` tries, in order.
pub open spec fn split_ops() -> Seq<Seq<char>> {
    seq![
        seq!['=', '='],
        seq!['~', '='],
        seq!['>', '='],
        seq!['<', '='],
        seq!['>'],
        seq!['<'],
        seq!['!', '='],
    ]
}

/// The operators of `split_ops()`, as character vectors.
pub fn split_ops_exec() -> (r: Vec<Vec<char>>)
    ensures
        r@.len() == 7,
        forall|i: int| 0 <= i < 7 ==> (#[trigger] r@[i])@ == split_ops()[i],
{
    let r = vec![
        vec!['=', '='],
        vec!['~', '='],
        vec!['>', '='],
        vec!['<', '='],
        vec!['>'],
        vec!['<'],
        vec!['!', '='],
    ];
    assert(r@[0]@ =~= split_ops()[0]);
    assert(r@[1]@ =~= split_ops()[1]);
    assert(r@[2]@ =~= split_ops()[2]);
    assert(r@[3]@ =~= split_ops()[3]);
    assert(r@[4]@ =~= split_ops()[4]);
    assert(r@[5]@ =~= split_ops()[5]);
    assert(r@[6]@ =~= split_ops()[6]);
    r
}

/// `(name, version)` of a requirement spec, trying the operators from the
/// `k`-th on: the first operator found in the part before any `[` whose
/// name and version (up to a `,`) are both nonempty after trimming.
pub open spec fn split_requirement_from(spec: Seq<char>, k: int) -> Option<(Seq<char>, Seq<char>)>
    decreases 7 - k,
{
    if k < 0 || k >= 7 {
        None
    } else {
        let op = split_ops()[k];
        let base = before(spec, seq!['[']);
        match find(base, op) {
            Some(idx) => {
                let name = trim(base.subrange(0, idx));
                let version = trim(before(spec.subrange(idx + op.len(), spec.len() as int), seq![',']));
                if name.len() > 0 && version.len() > 0 {
                    Some((name, version))
                } else {
                    split_requirement_from(spec, k + 1)
                }
            },
            None => split_requirement_from(spec, k + 1),
        }
    }
}

/// `split_requirement`: `requests==2.28.0` is `("requests", "2.28.0")`.
pub open spec fn split_requirement_spec(spec: Seq<char>) -> Option<(Seq<char>, Seq<char>)> {
    split_requirement_from(spec, 0)
}

/// Splits a requirement spec into its package name and version.
pub fn split_requirement(spec: &str) -> (r: Option<(String, String)>)
    ensures
        r matches Some(p) ==> split_requirement_spec(spec@) == Some((p.0@, p.1@)),
        r is None ==> split_requirement_spec(spec@) is None,
{
    let s = chars_of(spec);
    let n = s.len();
    assert(s@.subrange(0, n as int) =~= s@);
    let bracket = ['['];
    assert(bracket@ =~= seq!['[']);
    let be = match find_range(s.as_slice(), bracket.as_slice(), 0, n) {
        Some(i) => i,
        None => n,
    };
    proof {
        lemma_find_from(s@, seq!['['], 0);
    }
    let ghost base = s@.subrange(0, be as int);
    assert(base == before(s@, seq!['[']));
    let ops = split_ops_exec();
    let comma = [','];
    assert(comma@ =~= seq![',']);
    let mut k: usize = 0;
    while k < 7
        invariant
            k <= 7,
            s@ == spec@,
            n == s@.len(),
            be <= n,
            base == s@.subrange(0, be as int),
            base == before(s@, seq!['[']),
            ops@.len() == 7,
            forall|i: int| 0 <= i < 7 ==> (#[trigger] ops@[i])@ == split_ops()[i],
            comma@ == seq![','],
            split_requirement_from(s@, 0) == split_requirement_from(s@, k as int),
        decreases 7 - k,
    {
        let op = &ops[k];
        assert(op@ == split_ops()[k as int]);
        match find_range(s.as_slice(), op.as_slice(), 0, be) {
            Some(idx) => {
                proof {
                    lemma_find_from(base, op@, 0);
                }
                let (na, nb) = trim_bounds(s.as_slice(), 0, idx);
                let vstart = idx + op.len();
                let ce = match find_range(s.as_slice(), comma.as_slice(), vstart, n) {
                    Some(ci) => ci,
                    None => n,
                };
                proof {
                    lemma_find_from(s@.subrange(vstart as int, n as int), seq![','], 0);
                }
                let (va, vb) = trim_bounds(s.as_slice(), vstart, ce);
                assert(s@.subrange(vstart as int, ce as int) =~= before(
                    s@.subrange(vstart as int, n as int),
                    seq![','],
                ));
                assert(s@.subrange(0, idx as int) =~= base.subrange(0, idx as int));
                if na < nb && va < vb {
                    let mut name: Vec<char> = Vec::new();
                    push_range(&mut name, s.as_slice(), na, nb);
                    let mut ver: Vec<char> = Vec::new();
                    push_range(&mut ver, s.as_slice(), va, vb);
                    return Some((string_of(name.as_slice()), string_of(ver.as_slice())));
                }
            },
            None => {},
        }
        k = k + 1;
    }
    None
}

/// A `requirements.txt` line (after trimming) names a package with a
/// version unless it is empty, a comment or an option line.
pub open spec fn requirement_line(line: Seq<char>) -> Option<(Seq<char>, Seq<char>)> {
    let t = trim(line);
    if t.len() == 0 || t[0] == '#' || t[0] == '-' {
        None
    } else {
        split_requirement_spec(t)
    }
}

/// `"pip"`.
pub open spec fn pip_eco() -> Seq<char> {
    seq!['p', 'i', 'p']
}

/// The package a requirement line declares in the given repo.
pub fn parse_requirement_line(line: &str, repo_name: &str, repo_path: &str) -> (r: Option<
    InstalledPackage,
>)
    ensures
        r matches Some(p) ==> (match requirement_line(line@) {
            Some(nv) => p.name@ == pip_normal(nv.0) && p.version@ == nv.1 && p.ecosystem@
                == pip_eco() && p.repo_name@ == repo_name@ && p.repo_path@ == repo_path@,
            None => false,
        }),
        r is None ==> requirement_line(line@) is None,
{
    let s = chars_of(line);
    let n = s.len();
    assert(s@.subrange(0, n as int) =~= s@);
    let (a, b) = trim_bounds(s.as_slice(), 0, n);
    if a == b || s[a] == '#' || s[a] == '-' {
        return None;
    }
    let mut t: Vec<char> = Vec::new();
    push_range(&mut t, s.as_slice(), a, b);
    let ts = string_of(t.as_slice());
    match split_requirement(ts.as_str()) {
        Some((name, version)) => {
            let eco = ['p', 'i', 'p'];
            assert(eco@ =~= pip_eco());
            Some(
                InstalledPackage {
                    repo_name: string_of(chars_of(repo_name).as_slice()),
                    repo_path: string_of(chars_of(repo_path).as_slice()),
                    ecosystem: string_of(eco.as_slice()),
                    name: normalize_pip_name(name.as_str()),
                    version,
                },
            )
        },
        None => None,
    }
}

/// The packages a `requirements.txt` declares, one per requirement line, in order.
pub open spec fn requirements_spec(lines: Seq<Seq<char>>) -> Seq<(Seq<char>, Seq<char>)>
    decreases lines.len(),
{
    if lines.len() == 0 {
        seq![]
    } else {
        let rest = requirements_spec(lines.drop_last());
        match requirement_line(lines.last()) {
            Some(nv) => rest.push((pip_normal(nv.0), nv.1)),
            None => rest,
        }
    }
}

/// The packages declared by `requirements.txt` text, in order of the lines.
pub fn read_requirements(content: &str, repo_name: &str, repo_path: &str) -> (r: Vec<
    InstalledPackage,
>)
    ensures
        r@.len() == requirements_spec(lines(content@)).len(),
        forall|i: int|
            0 <= i < r@.len() ==> {
                &&& (#[trigger] r@[i]).name@ == requirements_spec(lines(content@))[i].0
                &&& r@[i].version@ == requirements_spec(lines(content@))[i].1
                &&& r@[i].ecosystem@ == pip_eco()
                &&& r@[i].repo_name@ == repo_name@
                &&& r@[i].repo_path@ == repo_path@
            },
{
    let c = chars_of(content);
    let ls = lines_of(c.as_slice());
    let ghost lv = ls.deep_view();
    let mut out: Vec<InstalledPackage> = Vec::new();
    let mut i: usize = 0;
    while i < ls.len()
        invariant
            lv == ls.deep_view(),
            lv == lines(content@),
            i <= ls@.len(),
            out@.len() == requirements_spec(lv.take(i as int)).len(),
            forall|j: int|
                0 <= j < out@.len() ==> {
                    &&& (#[trigger] out@[j]).name@ == requirements_spec(lv.take(i as int))[j].0
                    &&& out@[j].version@ == requirements_spec(lv.take(i as int))[j].1
                    &&& out@[j].ecosystem@ == pip_eco()
                    &&& out@[j].repo_name@ == repo_name@
                    &&& out@[j].repo_path@ == repo_path@
                },
        decreases ls@.len() - i,
    {
        let line = string_of(ls[i].as_slice());
        assert(ls[i as int].deep_view() == lv[i as int]);
        assert(ls[i as int]@ =~= lv[i as int]);
        assert(lv.take(i + 1).drop_last() =~= lv.take(i as int));
        match parse_requirement_line(line.as_str(), repo_name, repo_path) {
            Some(p) => {
                out.push(p);
            },
            None => {},
        }
        i = i + 1;
    }
    assert(lv.take(ls@.len() as int) =~= lv);
    out
}

/// The packages the dependency strings of `pyproject.toml`
/// (`[project] dependencies`) declare, in order.
pub open spec fn pyproject_packages(deps: Seq<Seq<char>>, repo_name: Seq<char>, repo_path: Seq<char>, n: int) -> Seq<PackageModel>
    decreases n,
{
    if n <= 0 {
        seq![]
    } else {
        let prev = pyproject_packages(deps, repo_name, repo_path, n - 1);
        match requirement_line(deps[n - 1]) {
            Some(nv) => prev.push((repo_name, repo_path, pip_eco(), pip_normal(nv.0), nv.1)),
            None => prev,
        }
    }
}

/// The packages of a `requirements.txt` text.
pub open spec fn requirements_packages(content: Seq<char>, repo_name: Seq<char>, repo_path: Seq<char>) -> Seq<PackageModel> {
    requirements_spec(lines(content)).map_values(
        |nv: (Seq<char>, Seq<char>)| (repo_name, repo_path, pip_eco(), nv.0, nv.1),
    )
}

/// The Python packages of a repo: those of its `requirements.txt` text
/// (if it has one), then those of its `pyproject.toml` dependency strings.
pub fn read(repo_name: &str, repo_path: &str, requirements: Option<&str>, pyproject_deps: &[String]) -> (r: Vec<InstalledPackage>)
    ensures
        package_views(r@) == (match requirements {
            Some(c) => requirements_packages(c@, repo_name@, repo_path@),
            None => seq![],
        }) + pyproject_packages(
            pyproject_deps@.map_values(|s: String| s@),
            repo_name@,
            repo_path@,
            pyproject_deps@.len() as int,
        ),
{
    let mut out: Vec<InstalledPackage> = match requirements {
        Some(c) => {
            let v = read_requirements(c, repo_name, repo_path);
            assert(package_views(v@) =~= requirements_packages(c@, repo_name@, repo_path@));
            v
        },
        None => Vec::new(),
    };
    let ghost base = package_views(out@);
    let mut k: usize = 0;
    while k < pyproject_deps.len()
        invariant
            k <= pyproject_deps@.len(),
            package_views(out@) == base + pyproject_packages(
                pyproject_deps@.map_values(|s: String| s@),
                repo_name@,
                repo_path@,
                k as int,
            ),
        decreases pyproject_deps@.len() - k,
    {
        assert(pyproject_deps@.map_values(|s: String| s@)[k as int] == pyproject_deps@[k as int]@);
        match parse_requirement_line(pyproject_deps[k].as_str(), repo_name, repo_path) {
            Some(p) => {
                let ghost before = package_views(out@);
                let ghost pv = p@;
                out.push(p);
                assert(package_views(out@) =~= before.push(pv));
            },
            None => {},
        }
        k = k + 1;
    }
    out
}

/// What `pyproject.toml` text gives as `[project] dependencies`: `None`
/// when the text is not TOML or has no array there; else its items in
/// order, each the string it holds (`None` for an item that is not a
/// string).
pub uninterp spec fn toml_project_dependencies(text: Seq<char>) -> Option<Seq<Option<Seq<char>>>>;

/// `str::parse::<toml::Value>` on `pyproject.toml` text, read down to the
/// items of `project.dependencies`.
#[verifier::external_body]
fn project_dependencies(text: &str) -> (r: Option<Vec<Option<String>>>)
    ensures
        match r {
            Some(v) => toml_project_dependencies(text@) == Some(v@.map_values(|o: Option<String>| opt_view(o))),
            None => toml_project_dependencies(text@) is None,
        },
{
    let doc: toml::Value = text.parse().ok()?;
    let deps = doc.get("project")?.get("dependencies")?.as_array()?;
    Some(deps.iter().map(|v| v.as_str().map(String::from)).collect())
}

/// The string items among `items[0..n)`, in order.
pub open spec fn string_items(items: Seq<Option<Seq<char>>>, n: int) -> Seq<Seq<char>>
    decreases n,
{
    if n <= 0 {
        seq![]
    } else {
        match items[n - 1] {
            Some(s) => string_items(items, n - 1).push(s),
            None => string_items(items, n - 1),
        }
    }
}

/// The dependency strings of `pyproject.toml` text.
pub open spec fn pyproject_dependency_strings(text: Seq<char>) -> Seq<Seq<char>> {
    match toml_project_dependencies(text) {
        Some(items) => string_items(items, items.len() as int),
        None => seq![],
    }
}

/// The dependency strings of `pyproject.toml` text (`[project]
/// dependencies`); none when the text is not TOML or has no such array.
pub fn pyproject_dependencies(text: &str) -> (r: Vec<String>)
    ensures
        r@.map_values(|s: String| s@) == pyproject_dependency_strings(text@),
{
    let mut out: Vec<String> = Vec::new();
    let items = match project_dependencies(text) {
        Some(v) => v,
        None => {
            assert(out@.map_values(|s: String| s@) =~= seq![]);
            return out;
        },
    };
    let ghost iv = items@.map_values(|o: Option<String>| opt_view(o));
    let mut k: usize = 0;
    while k < items.len()
        invariant
            k <= items@.len(),
            iv == items@.map_values(|o: Option<String>| opt_view(o)),
            out@.map_values(|s: String| s@) == string_items(iv, k as int),
        decreases items@.len() - k,
    {
        let ghost before = out@.map_values(|s: String| s@);
        assert(iv[k as int] == opt_view(items@[k as int]));
        match &items[k] {
            Some(s) => {
                let o = owned(s.as_str());
                let ghost ov = o@;
                out.push(o);
                assert(out@.map_values(|s: String| s@) =~= before.push(ov));
            },
            None => {},
        }
        k = k + 1;
    }
    out
}

/// The packages `pyproject.toml` text declares in `[project]
/// dependencies`, in order; none when it is not TOML or has no such array.
pub fn read_pyproject(repo_name: &str, repo_path: &str, text: &str) -> (r: Vec<InstalledPackage>)
    ensures
        package_views(r@) == pyproject_packages(
            pyproject_dependency_strings(text@),
            repo_name@,
            repo_path@,
            pyproject_dependency_strings(text@).len() as int,
        ),
{
    let deps = pyproject_dependencies(text);
    let r = read(repo_name, repo_path, None, deps.as_slice());
    assert(package_views(r@) =~= seq![] + pyproject_packages(
        deps@.map_values(|s: String| s@),
        repo_name@,
        repo_path@,
        deps@.len() as int,
    ));
    r
}

} // verus!
