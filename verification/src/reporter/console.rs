//! What the terminal report shows: findings grouped by repo in order of
//! repo name, and the summary counts. Colouring and printing are left to
//! the caller.

use vstd::prelude::*;

use crate::problems::schema::{Finding, ProblemKind};
use crate::scanner::repo_finder::{lemma_lt_total, lt_exec, name_lt};
use crate::text::{owned, str_eq};

verus! {

/// The findings of one repo: its name and the indices of its findings, in
/// order.
pub struct RepoFindings {
    pub repo_name: String,
    pub indices: Vec<usize>,
}

/// Whether some finding of `fs[0..n)` is in the repo named `name`.
pub open spec fn has_repo(fs: Seq<Finding>, name: Seq<char>, n: int) -> bool {
    exists|k: int| 0 <= k < n && (#[trigger] fs[k]).repo_name@ == name
}

/// The indices of the findings of `fs[0..n)` in the repo named `name`.
pub open spec fn repo_indices(fs: Seq<Finding>, name: Seq<char>, n: int) -> Seq<usize>
    decreases n,
{
    if n <= 0 {
        seq![]
    } else if fs[n - 1].repo_name@ == name {
        repo_indices(fs, name, n - 1).push((n - 1) as usize)
    } else {
        repo_indices(fs, name, n - 1)
    }
}

/// The repo names of a sequence of groups.
pub open spec fn group_names(gs: Seq<RepoFindings>) -> Seq<Seq<char>> {
    gs.map_values(|g: RepoFindings| g.repo_name@)
}

/// The names are in strictly increasing order.
pub open spec fn strictly_sorted(names: Seq<Seq<char>>) -> bool {
    forall|i: int, j: int| 0 <= i < j < names.len() ==> name_lt(#[trigger] names[i], #[trigger] names[j])
}

/// The views of a sequence of strings.
pub open spec fn name_views(v: Seq<String>) -> Seq<Seq<char>> {
    v.map_values(|s: String| s@)
}

proof fn lemma_lt_strict_trans(a: Seq<char>, b: Seq<char>, c: Seq<char>)
    requires
        name_lt(a, b),
        name_lt(b, c),
    ensures
        name_lt(a, c),
    decreases a.len(),
{
    if a.len() > 0 && b.len() > 0 && c.len() > 0 && a[0] == b[0] && b[0] == c[0] {
        lemma_lt_strict_trans(a.drop_first(), b.drop_first(), c.drop_first());
    }
}

/// The repo names of the findings, each once, in order of name.
fn distinct_repo_names(findings: &[Finding]) -> (r: Vec<String>)
    ensures
        strictly_sorted(name_views(r@)),
        forall|s: Seq<char>| #[trigger] name_views(r@).contains(s) <==> has_repo(findings@, s, findings@.len() as int),
{
    let mut out: Vec<String> = Vec::new();
    let mut k: usize = 0;
    while k < findings.len()
        invariant
            k <= findings@.len(),
            strictly_sorted(name_views(out@)),
            forall|s: Seq<char>| #[trigger] name_views(out@).contains(s) <==> has_repo(findings@, s, k as int),
        decreases findings@.len() - k,
    {
        let name = findings[k].repo_name.as_str();
        let ghost nv = name@;
        let ghost before = name_views(out@);
        let mut j: usize = 0;
        while j < out.len() && lt_exec(out[j].as_str(), name)
            invariant
                nv == name@,
                j <= out@.len(),
                before == name_views(out@),
                forall|t: int| 0 <= t < j ==> name_lt(#[trigger] before[t], nv),
            decreases out@.len() - j,
        {
            j = j + 1;
        }
        if j < out.len() && str_eq(out[j].as_str(), name) {
            assert(before[j as int] == nv);
            assert forall|s: Seq<char>| #[trigger] before.contains(s) <==> has_repo(findings@, s, k + 1) by {
                if s == nv {
                    assert(findings@[k as int].repo_name@ == s);
                }
                if has_repo(findings@, s, k + 1) && s != nv {
                    let w = choose|w: int| 0 <= w < k + 1 && (#[trigger] findings@[w]).repo_name@ == s;
                    assert(w < k);
                    assert(has_repo(findings@, s, k as int));
                }
            }
        } else {
            proof {
                if j < before.len() {
                    lemma_lt_total(before[j as int], nv);
                    assert(name_lt(nv, before[j as int]));
                }
            }
            let ghost after = before.insert(j as int, nv);
            out.insert(j, owned(name));
            assert(name_views(out@) =~= after);
            assert forall|a: int, b: int| 0 <= a < b < after.len() implies name_lt(#[trigger] after[a], #[trigger] after[b]) by {
                if b < j {
                    assert(after[a] == before[a] && after[b] == before[b]);
                } else if b == j {
                    assert(after[a] == before[a]);
                } else if a == j {
                    assert(after[b] == before[b - 1]);
                    if b - 1 > j {
                        assert(name_lt(before[j as int], before[b - 1]));
                        lemma_lt_strict_trans(nv, before[j as int], before[b - 1]);
                    }
                } else if a < j {
                    assert(after[a] == before[a] && after[b] == before[b - 1]);
                } else {
                    assert(after[a] == before[a - 1] && after[b] == before[b - 1]);
                }
            }
            assert forall|s: Seq<char>| #[trigger] after.contains(s) <==> has_repo(findings@, s, k + 1) by {
                if s == nv {
                    assert(after[j as int] == nv);
                    assert(findings@[k as int].repo_name@ == s);
                } else {
                    if after.contains(s) {
                        let t = choose|t: int| 0 <= t < after.len() && after[t] == s;
                        if t < j {
                            assert(before[t] == s);
                        } else {
                            assert(t != j);
                            assert(before[t - 1] == s);
                        }
                        assert(before.contains(s));
                    }
                    if before.contains(s) {
                        let t = choose|t: int| 0 <= t < before.len() && before[t] == s;
                        if t < j {
                            assert(after[t] == s);
                        } else {
                            assert(after[t + 1] == s);
                        }
                    }
                    if has_repo(findings@, s, k + 1) {
                        let w = choose|w: int| 0 <= w < k + 1 && (#[trigger] findings@[w]).repo_name@ == s;
                        assert(w < k);
                        assert(has_repo(findings@, s, k as int));
                    }
                }
            }
        }
        k = k + 1;
    }
    out
}

/// The indices of the findings in the repo named `name`, in order.
fn indices_in_repo(findings: &[Finding], name: &str) -> (r: Vec<usize>)
    ensures
        r@ == repo_indices(findings@, name@, findings@.len() as int),
{
    let mut out: Vec<usize> = Vec::new();
    let mut k: usize = 0;
    while k < findings.len()
        invariant
            k <= findings@.len(),
            out@ == repo_indices(findings@, name@, k as int),
        decreases findings@.len() - k,
    {
        if str_eq(findings[k].repo_name.as_str(), name) {
            out.push(k);
        }
        k = k + 1;
    }
    out
}

/// The findings grouped by repo: one group per repo name, in order of name,
/// each with the indices of its findings in order.
pub fn group_by_repo(findings: &[Finding]) -> (r: Vec<RepoFindings>)
    ensures
        strictly_sorted(group_names(r@)),
        forall|s: Seq<char>|
            #[trigger] group_names(r@).contains(s) <==> has_repo(
                findings@,
                s,
                findings@.len() as int,
            ),
        forall|i: int|
            0 <= i < r@.len() ==> (#[trigger] r@[i]).indices@ == repo_indices(
                findings@,
                r@[i].repo_name@,
                findings@.len() as int,
            ),
{
    let names = distinct_repo_names(findings);
    let ghost nv = name_views(names@);
    let mut out: Vec<RepoFindings> = Vec::new();
    let mut i: usize = 0;
    while i < names.len()
        invariant
            i <= names@.len(),
            nv == name_views(names@),
            group_names(out@) == nv.take(i as int),
            forall|t: int|
                0 <= t < out@.len() ==> (#[trigger] out@[t]).indices@ == repo_indices(
                    findings@,
                    out@[t].repo_name@,
                    findings@.len() as int,
                ),
        decreases names@.len() - i,
    {
        let indices = indices_in_repo(findings, names[i].as_str());
        let ghost gb = group_names(out@);
        let g = RepoFindings { repo_name: owned(names[i].as_str()), indices };
        assert(g.repo_name@ == nv[i as int]);
        out.push(g);
        assert(group_names(out@) =~= gb.push(nv[i as int]));
        assert(nv.take(i + 1) =~= nv.take(i as int).push(nv[i as int]));
        i = i + 1;
    }
    assert(nv.take(names@.len() as int) =~= nv);
    out
}

/// The severity labels the summary counts, in the order it shows them.
pub open spec fn summary_severities() -> Seq<Seq<char>> {
    seq!["critical"@, "high"@, "medium"@, "low"@, "info"@]
}

/// The number of findings of `fs[0..n)` whose problem has severity `sev`.
pub open spec fn severity_count(fs: Seq<Finding>, sev: Seq<char>, n: int) -> nat
    decreases n,
{
    if n <= 0 {
        0
    } else if fs[n - 1].problem.severity@ == sev {
        severity_count(fs, sev, n - 1) + 1
    } else {
        severity_count(fs, sev, n - 1)
    }
}

/// The severities of `summary_severities()[0..k)` that some finding has.
pub open spec fn present_severities(fs: Seq<Finding>, k: int) -> Seq<Seq<char>>
    decreases k,
{
    if k <= 0 {
        seq![]
    } else if severity_count(fs, summary_severities()[k - 1], fs.len() as int) > 0 {
        present_severities(fs, k - 1).push(summary_severities()[k - 1])
    } else {
        present_severities(fs, k - 1)
    }
}

/// The number of supply-chain findings of `fs[0..n)`.
pub open spec fn supply_chain_count(fs: Seq<Finding>, n: int) -> nat
    decreases n,
{
    if n <= 0 {
        0
    } else if fs[n - 1].problem.kind == ProblemKind::SupplyChain {
        supply_chain_count(fs, n - 1) + 1
    } else {
        supply_chain_count(fs, n - 1)
    }
}

/// The number of source locations of `fs[0..n)`.
pub open spec fn hit_count(fs: Seq<Finding>, n: int) -> nat
    decreases n,
{
    if n <= 0 {
        0
    } else {
        hit_count(fs, n - 1) + fs[n - 1].source_hits@.len()
    }
}

/// The counts of the summary.
pub struct SummaryCounts {
    /// The severities with findings, in the summary's order, with their counts.
    pub by_severity: Vec<(&'static str, usize)>,
    pub supply_chain: usize,
    pub typosquats: usize,
    pub source_hits: usize,
}

/// The number of findings with the given severity.
fn count_severity(findings: &[Finding], sev: &str) -> (r: usize)
    ensures
        r == severity_count(findings@, sev@, findings@.len() as int),
{
    let mut c: usize = 0;
    let mut k: usize = 0;
    while k < findings.len()
        invariant
            k <= findings@.len(),
            c == severity_count(findings@, sev@, k as int),
            c <= k,
        decreases findings@.len() - k,
    {
        if str_eq(findings[k].problem.severity.as_str(), sev) {
            c = c + 1;
        }
        k = k + 1;
    }
    c
}

/// The counts the summary shows: findings per severity (those with any,
/// from critical to info), supply-chain findings, typosquat warnings, and
/// flagged source locations.
pub fn summary_counts(findings: &[Finding], typosquats: usize) -> (r: SummaryCounts)
    requires
        hit_count(findings@, findings@.len() as int) <= usize::MAX,
    ensures
        r.by_severity@.map_values(|e: (&str, usize)| e.0@) == present_severities(findings@, 5),
        forall|i: int|
            0 <= i < r.by_severity@.len() ==> (#[trigger] r.by_severity@[i]).1 == severity_count(
                findings@,
                r.by_severity@[i].0@,
                findings@.len() as int,
            ),
        r.supply_chain == supply_chain_count(findings@, findings@.len() as int),
        r.typosquats == typosquats,
        r.source_hits == hit_count(findings@, findings@.len() as int),
{
    let labels: [&'static str; 5] = ["critical", "high", "medium", "low", "info"];
    assert(labels@.map_values(|s: &str| s@) =~= summary_severities());
    let mut by_severity: Vec<(&'static str, usize)> = Vec::new();
    let mut i: usize = 0;
    while i < 5
        invariant
            i <= 5,
            labels@.map_values(|s: &str| s@) == summary_severities(),
            by_severity@.map_values(|e: (&str, usize)| e.0@) == present_severities(findings@, i as int),
            forall|t: int|
                0 <= t < by_severity@.len() ==> (#[trigger] by_severity@[t]).1 == severity_count(
                    findings@,
                    by_severity@[t].0@,
                    findings@.len() as int,
                ),
        decreases 5 - i,
    {
        let ghost before = by_severity@.map_values(|e: (&str, usize)| e.0@);
        let c = count_severity(findings, labels[i]);
        assert(labels[i as int]@ == summary_severities()[i as int]);
        if c > 0 {
            by_severity.push((labels[i], c));
            assert(by_severity@.map_values(|e: (&str, usize)| e.0@) =~= before.push(labels[i as int]@));
        }
        i = i + 1;
    }
    let mut supply: usize = 0;
    let mut hits: usize = 0;
    let mut k: usize = 0;
    while k < findings.len()
        invariant
            k <= findings@.len(),
            supply == supply_chain_count(findings@, k as int),
            supply <= k,
            hits == hit_count(findings@, k as int),
            hit_count(findings@, findings@.len() as int) <= usize::MAX,
        decreases findings@.len() - k,
    {
        proof {
            lemma_hit_count_mono(findings@, k + 1, findings@.len() as int);
        }
        match findings[k].problem.kind {
            ProblemKind::SupplyChain => {
                supply = supply + 1;
            },
            ProblemKind::Cve => {},
        }
        hits = hits + findings[k].source_hits.len();
        k = k + 1;
    }
    SummaryCounts { by_severity, supply_chain: supply, typosquats, source_hits: hits }
}

proof fn lemma_hit_count_mono(fs: Seq<Finding>, a: int, b: int)
    requires
        0 <= a <= b <= fs.len(),
    ensures
        hit_count(fs, a) <= hit_count(fs, b),
    decreases b - a,
{
    if a < b {
        lemma_hit_count_mono(fs, a, b - 1);
    }
}

} // verus!
