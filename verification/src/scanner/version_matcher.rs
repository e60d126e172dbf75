//! Matching installed packages against known problems.

use vstd::prelude::*;

use crate::problems::schema::{Finding, Problem};
use crate::scanner::manifest::InstalledPackage;
use crate::text::{lowercase, to_lowercase, str_eq};
use crate::utils::semver_utils::{
    normalize_version_spec, range_matches, semver_version_parses, version_matches_range,
};

verus! {

/// Whether `problem` applies to the installed package: same ecosystem
/// (case-insensitively), same package name, and the installed version is
/// in the affected range.
pub open spec fn problem_applies(pkg: InstalledPackage, problem: Problem) -> bool {
    &&& lowercase(problem.ecosystem@) == lowercase(pkg.ecosystem@)
    &&& problem.package@ == pkg.name@
    &&& semver_version_parses(normalize_version_spec(pkg.version@))
    &&& range_matches(normalize_version_spec(pkg.version@), problem.affected_range@)
}

/// The `(package index, problem index)` pairs of package `i` that match, in problem order.
pub open spec fn row_pairs(i: int, pkg: InstalledPackage, problems: Seq<Problem>) -> Seq<(int, int)>
    decreases problems.len(),
{
    if problems.len() == 0 {
        seq![]
    } else {
        let rest = row_pairs(i, pkg, problems.drop_last());
        if problem_applies(pkg, problems.last()) {
            rest.push((i, problems.len() - 1))
        } else {
            rest
        }
    }
}

/// All matching `(package index, problem index)` pairs, package-major.
pub open spec fn matched_pairs(packages: Seq<InstalledPackage>, problems: Seq<Problem>) -> Seq<
    (int, int),
>
    decreases packages.len(),
{
    if packages.len() == 0 {
        seq![]
    } else {
        matched_pairs(packages.drop_last(), problems) + row_pairs(
            packages.len() - 1,
            packages.last(),
            problems,
        )
    }
}

/// `f` is the finding for package `pkg` and problem `problem`.
pub open spec fn finding_for(f: Finding, pkg: InstalledPackage, problem: Problem) -> bool {
    &&& f.repo_name@ == pkg.repo_name@
    &&& f.repo_path@ == pkg.repo_path@
    &&& f.package@ == pkg.name@
    &&& f.installed_version@ == pkg.version@
    &&& *f.problem == problem
    &&& f.source_hits@.len() == 0
}

/// The pairs of a row name valid package and problem indices.
pub proof fn lemma_row_pairs_bounds(i: int, pkg: InstalledPackage, problems: Seq<Problem>)
    ensures
        forall|k: int|
            0 <= k < row_pairs(i, pkg, problems).len() ==> {
                let pr = #[trigger] row_pairs(i, pkg, problems)[k];
                &&& pr.0 == i
                &&& 0 <= pr.1 < problems.len()
                &&& problem_applies(pkg, problems[pr.1])
            },
    decreases problems.len(),
{
    if problems.len() > 0 {
        let d = problems.drop_last();
        lemma_row_pairs_bounds(i, pkg, d);
        let rest = row_pairs(i, pkg, d);
        assert forall|k: int| 0 <= k < row_pairs(i, pkg, problems).len() implies {
            let pr = #[trigger] row_pairs(i, pkg, problems)[k];
            &&& pr.0 == i
            &&& 0 <= pr.1 < problems.len()
            &&& problem_applies(pkg, problems[pr.1])
        } by {
            if k < rest.len() {
                let pr = rest[k];
                assert(row_pairs(i, pkg, problems)[k] == pr);
                assert(d[pr.1] == problems[pr.1]);
            }
        }
    }
}

/// Matches installed packages against known problems.
/// Returns a `Finding` for each (package, problem) hit, package by package
/// and, within a package, in the order of `problems`.
pub fn match_problems<'a>(packages: &[InstalledPackage], problems: &'a [Problem]) -> (r: Vec<
    Finding<'a>,
>)
    ensures
        r@.len() == matched_pairs(packages@, problems@).len(),
        forall|k: int|
            0 <= k < r@.len() ==> {
                let pr = matched_pairs(packages@, problems@)[k];
                finding_for(#[trigger] r@[k], packages@[pr.0], problems@[pr.1])
            },
{
    let mut out: Vec<Finding<'a>> = Vec::new();
    let mut i: usize = 0;
    while i < packages.len()
        invariant
            i <= packages@.len(),
            out@.len() == matched_pairs(packages@.take(i as int), problems@).len(),
            forall|k: int|
                0 <= k < out@.len() ==> {
                    let pr = matched_pairs(packages@.take(i as int), problems@)[k];
                    finding_for(#[trigger] out@[k], packages@[pr.0], problems@[pr.1])
                },
        decreases packages@.len() - i,
    {
        let pkg = &packages[i];
        let pkg_eco = to_lowercase(pkg.ecosystem.as_str());
        let ghost base = matched_pairs(packages@.take(i as int), problems@);
        let ghost base_len = out@.len();
        let mut j: usize = 0;
        while j < problems.len()
            invariant
                i < packages@.len(),
                pkg == packages@[i as int],
                pkg_eco@ == lowercase(pkg.ecosystem@),
                j <= problems@.len(),
                base == matched_pairs(packages@.take(i as int), problems@),
                base_len == base.len(),
                out@.len() == base.len() + row_pairs(i as int, *pkg, problems@.take(j as int)).len(),
                forall|k: int|
                    0 <= k < out@.len() ==> {
                        let pr = (base + row_pairs(i as int, *pkg, problems@.take(j as int)))[k];
                        finding_for(#[trigger] out@[k], packages@[pr.0], problems@[pr.1])
                    },
            decreases problems@.len() - j,
        {
            let problem = &problems[j];
            proof {
                lemma_row_pairs_bounds(i as int, *pkg, problems@.take(j as int));
            }
            assert(problems@.take(j + 1).drop_last() =~= problems@.take(j as int));
            assert(problems@.take(j + 1).last() == problems@[j as int]);
            let eco = to_lowercase(problem.ecosystem.as_str());
            let applies = str_eq(eco.as_str(), pkg_eco.as_str()) && str_eq(
                problem.package.as_str(),
                pkg.name.as_str(),
            ) && version_matches_range(pkg.version.as_str(), problem.affected_range.as_str());
            assert(applies == problem_applies(*pkg, problems@[j as int]));
            if applies {
                let f = Finding {
                    repo_name: pkg.repo_name.clone(),
                    repo_path: pkg.repo_path.clone(),
                    package: pkg.name.clone(),
                    installed_version: pkg.version.clone(),
                    problem,
                    source_hits: Vec::new(),
                };
                out.push(f);
                assert(row_pairs(i as int, *pkg, problems@.take(j + 1)) == row_pairs(
                    i as int,
                    *pkg,
                    problems@.take(j as int),
                ).push((i as int, j as int)));
            }
            assert forall|k: int| 0 <= k < out@.len() implies {
                let pr = (base + row_pairs(i as int, *pkg, problems@.take(j + 1)))[k];
                finding_for(#[trigger] out@[k], packages@[pr.0], problems@[pr.1])
            } by {
                if k < out@.len() - 1 || !applies {
                    assert((base + row_pairs(i as int, *pkg, problems@.take(j + 1)))[k] == (base
                        + row_pairs(i as int, *pkg, problems@.take(j as int)))[k]);
                }
            }
            j = j + 1;
        }
        assert(problems@.take(problems@.len() as int) =~= problems@);
        assert(packages@.take(i + 1).drop_last() =~= packages@.take(i as int));
        assert(packages@.take(i + 1).last() == packages@[i as int]);
        assert(matched_pairs(packages@.take(i + 1), problems@) == base + row_pairs(
            i as int,
            *pkg,
            problems@,
        ));
        i = i + 1;
    }
    assert(packages@.take(packages@.len() as int) =~= packages@);
    out
}

} // verus!
