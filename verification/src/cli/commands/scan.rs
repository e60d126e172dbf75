//! The decisions of `scan`: how problem sources are layered and which
//! findings are reported. Walking repos, reading manifests and printing
//! reports are left to the caller.

use vstd::prelude::*;

use crate::cli::args::{severity_arg_label, severity_arg_rank, SeverityArg};
use crate::problems::schema::{severity_rank_of, Finding, Problem};
use crate::text::str_eq;

verus! {

/// The ids of a sequence of problems.
pub open spec fn ids_of(ps: Seq<Problem>) -> Seq<Seq<char>> {
    ps.map_values(|p: Problem| p.id@)
}

/// The problems of `incoming[0..n)` whose id is not among `base_ids`, in order.
pub open spec fn new_problems(base_ids: Seq<Seq<char>>, incoming: Seq<Problem>, n: int) -> Seq<Problem>
    decreases n,
{
    if n <= 0 {
        seq![]
    } else if base_ids.contains(incoming[n - 1].id@) {
        new_problems(base_ids, incoming, n - 1)
    } else {
        new_problems(base_ids, incoming, n - 1).push(incoming[n - 1])
    }
}

/// `base` followed by the problems of `incoming` whose id `base` lacks.
pub open spec fn merged(base: Seq<Problem>, incoming: Seq<Problem>) -> Seq<Problem> {
    base + new_problems(ids_of(base), incoming, incoming.len() as int)
}

/// Whether `ps[0..end)` has a problem with id `id`.
fn has_id(ps: &Vec<Problem>, end: usize, id: &str) -> (r: bool)
    requires
        end <= ps@.len(),
    ensures
        r == ids_of(ps@.take(end as int)).contains(id@),
{
    let ghost ids = ids_of(ps@.take(end as int));
    let mut k: usize = 0;
    while k < end
        invariant
            k <= end <= ps@.len(),
            ids == ids_of(ps@.take(end as int)),
            forall|t: int| 0 <= t < k ==> ids[t] != id@,
        decreases end - k,
    {
        if str_eq(ps[k].id.as_str(), id) {
            assert(ids[k as int] == id@);
            return true;
        }
        k = k + 1;
    }
    false
}

/// Merge `incoming` into `base`, skipping any problem whose id `base`
/// already has: the base wins on an id conflict.
pub fn merge_problems(base: &mut Vec<Problem>, incoming: Vec<Problem>)
    ensures
        final(base)@ == merged(old(base)@, incoming@),
{
    let ghost b0 = base@;
    let ghost inc = incoming@;
    let base_len = base.len();
    assert(b0.take(base_len as int) =~= b0);
    let mut incoming = incoming;
    let n0 = incoming.len();
    let mut k: usize = 0;
    while incoming.len() > 0
        invariant
            n0 == inc.len(),
            base_len == b0.len(),
            k + incoming@.len() == inc.len(),
            forall|t: int| 0 <= t < incoming@.len() ==> #[trigger] incoming@[t] == inc[k + t],
            base@ == b0 + new_problems(ids_of(b0), inc, k as int),
            base@.take(base_len as int) == b0,
        decreases incoming@.len(),
    {
        let p = incoming.remove(0);
        assert(p == inc[k as int]);
        let ghost before = base@;
        if !has_id(base, base_len, p.id.as_str()) {
            base.push(p);
            assert(base@ =~= b0 + new_problems(ids_of(b0), inc, k + 1));
            assert(base@.take(base_len as int) =~= b0);
        }
        k = k + 1;
    }
    assert(inc.len() == k);
}

/// Base wins on an id conflict: merging keeps every base problem where it
/// was, and adds no problem whose id the base already has.
pub proof fn law_merge_base_wins(base: Seq<Problem>, incoming: Seq<Problem>)
    ensures
        merged(base, incoming).len() >= base.len(),
        forall|i: int| 0 <= i < base.len() ==> #[trigger] merged(base, incoming)[i] == base[i],
        forall|j: int|
            base.len() <= j < merged(base, incoming).len() ==> !ids_of(base).contains(
                (#[trigger] merged(base, incoming)[j]).id@,
            ),
{
    lemma_new_problems_fresh(ids_of(base), incoming, incoming.len() as int);
    let m = merged(base, incoming);
    assert forall|j: int| base.len() <= j < m.len() implies !ids_of(base).contains((#[trigger] m[j]).id@) by {
        let np = new_problems(ids_of(base), incoming, incoming.len() as int);
        assert(m[j] == np[j - base.len()]);
    }
}

proof fn lemma_new_problems_fresh(ids: Seq<Seq<char>>, incoming: Seq<Problem>, n: int)
    ensures
        forall|t: int|
            0 <= t < new_problems(ids, incoming, n).len() ==> !ids.contains(
                (#[trigger] new_problems(ids, incoming, n)[t]).id@,
            ),
    decreases n,
{
    if n > 0 {
        lemma_new_problems_fresh(ids, incoming, n - 1);
    }
}

/// The findings of `fs[0..n)` whose problem is at least as severe as `min`.
pub open spec fn severe_enough(fs: Seq<Finding>, min: SeverityArg, n: int) -> Seq<Finding>
    decreases n,
{
    if n <= 0 {
        seq![]
    } else if severity_rank_of(fs[n - 1].problem.severity@) >= severity_arg_rank(min) {
        severe_enough(fs, min, n - 1).push(fs[n - 1])
    } else {
        severe_enough(fs, min, n - 1)
    }
}

/// Keep the findings whose problem is at least as severe as `min`, in order.
pub fn retain_severity<'a>(findings: Vec<Finding<'a>>, min: SeverityArg) -> (r: Vec<Finding<'a>>)
    ensures
        r@ == severe_enough(findings@, min, findings@.len() as int),
{
    let ghost fs = findings@;
    let mut findings = findings;
    let n0 = findings.len();
    let mut out: Vec<Finding<'a>> = Vec::new();
    let mut k: usize = 0;
    while findings.len() > 0
        invariant
            n0 == fs.len(),
            k + findings@.len() == fs.len(),
            forall|t: int| 0 <= t < findings@.len() ==> #[trigger] findings@[t] == fs[k + t],
            out@ == severe_enough(fs, min, k as int),
        decreases findings@.len(),
    {
        let f = findings.remove(0);
        assert(f == fs[k as int]);
        if f.problem.severity_rank() >= min.rank() {
            out.push(f);
        }
        k = k + 1;
    }
    out
}


/// The five severity labels are different texts.
proof fn lemma_labels_differ()
    ensures
        "critical"@ != "high"@,
        "critical"@ != "medium"@,
        "critical"@ != "low"@,
        "critical"@ != "info"@,
        "high"@ != "medium"@,
        "high"@ != "low"@,
        "high"@ != "info"@,
        "medium"@ != "low"@,
        "medium"@ != "info"@,
        "low"@ != "info"@,
{
    reveal_strlit("info");
    reveal_strlit("low");
    reveal_strlit("medium");
    reveal_strlit("high");
    reveal_strlit("critical");
    assert("critical"@.len() == 8 && "medium"@.len() == 6 && "low"@.len() == 3);
    assert("high"@.len() == 4 && "info"@.len() == 4);
    assert("high"@[0] != "info"@[0]);
}

/// A minimum level ranks exactly as the severity label it names, on the
/// scale problems are ranked on; so different levels name labels of
/// different ranks, and the levels keep their order.
pub proof fn law_level_ranks_as_its_label(a: SeverityArg, b: SeverityArg)
    ensures
        severity_rank_of(severity_arg_label(a)) == severity_arg_rank(a),
        a != b ==> severity_rank_of(severity_arg_label(a)) != severity_rank_of(severity_arg_label(b)),
{
    lemma_labels_differ();
}

/// The scale of severity labels: critical above high above medium above
/// low above every other label, which all rank as informational.
pub proof fn law_severity_scale(other: Seq<char>)
    requires
        other != "critical"@,
        other != "high"@,
        other != "medium"@,
        other != "low"@,
    ensures
        severity_rank_of("critical"@) > severity_rank_of("high"@),
        severity_rank_of("high"@) > severity_rank_of("medium"@),
        severity_rank_of("medium"@) > severity_rank_of("low"@),
        severity_rank_of("low"@) > severity_rank_of(other),
        severity_rank_of(other) == severity_rank_of("info"@),
{
    lemma_labels_differ();
}

/// A finding whose problem's severity is exactly the label the minimum
/// level names is kept by the severity filter, as is one with the label of
/// any higher level.
pub proof fn law_filter_keeps_the_minimum(fs: Seq<Finding>, min: SeverityArg, level: SeverityArg, i: int)
    requires
        0 <= i < fs.len(),
        fs[i].problem.severity@ == severity_arg_label(level),
    ensures
        severity_arg_rank(level) >= severity_arg_rank(min) ==> severe_enough(fs, min, fs.len() as int).contains(fs[i]),
{
    law_level_ranks_as_its_label(level, level);
    if severity_arg_rank(level) >= severity_arg_rank(min) {
        lemma_severe_enough_keeps(fs, min, i, fs.len() as int);
    }
}

proof fn lemma_severe_enough_keeps(fs: Seq<Finding>, min: SeverityArg, i: int, n: int)
    requires
        0 <= i < n <= fs.len(),
        severity_rank_of(fs[i].problem.severity@) >= severity_arg_rank(min),
    ensures
        severe_enough(fs, min, n).contains(fs[i]),
    decreases n,
{
    if i < n - 1 {
        lemma_severe_enough_keeps(fs, min, i, n - 1);
        let k = choose|k: int| #![trigger severe_enough(fs, min, n - 1)[k]] 0 <= k < severe_enough(fs, min, n - 1).len() && severe_enough(fs, min, n - 1)[k] == fs[i];
        if severity_rank_of(fs[n - 1].problem.severity@) >= severity_arg_rank(min) {
            assert(severe_enough(fs, min, n)[k] == fs[i]);
        }
    } else {
        assert(severe_enough(fs, min, n)[severe_enough(fs, min, n - 1).len() as int] == fs[i]);
    }
}

} // verus!
