//! Pattern quality: per problem, how many deep-scan runs found a hit and how
//! many found none. The counts accumulate across runs; storing them is left
//! to the caller.

use vstd::prelude::*;

use crate::text::{owned, str_eq};

verus! {

/// Stats for a single problem's source patterns.
#[derive(Debug, Clone, Copy, PartialEq, Eq, Structural)]
pub struct ProblemPatternStats {
    /// Number of scan runs where at least one pattern hit.
    pub runs_with_hits: u32,
    /// Number of scan runs where patterns were checked but none hit.
    pub runs_with_misses: u32,
}

impl Default for ProblemPatternStats {
    fn default() -> (r: ProblemPatternStats)
        ensures
            r.runs_with_hits == 0,
            r.runs_with_misses == 0,
    {
        ProblemPatternStats { runs_with_hits: 0, runs_with_misses: 0 }
    }
}

impl ProblemPatternStats {
    /// Total scan runs where this problem's patterns were evaluated.
    pub fn total_runs(&self) -> (r: u32)
        requires
            self.runs_with_hits + self.runs_with_misses <= u32::MAX,
        ensures
            r == self.runs_with_hits + self.runs_with_misses,
    {
        self.runs_with_hits + self.runs_with_misses
    }
}

/// Per-problem hit/miss stats accumulated across scan runs: the problem id
/// and its stats, one entry per problem, in order of first record.
#[derive(Debug)]
pub struct PatternStats {
    pub problems: Vec<(String, ProblemPatternStats)>,
}

/// Whether no problem id occurs twice among the entries.
pub open spec fn distinct_ids(e: Seq<(String, ProblemPatternStats)>) -> bool {
    forall|i: int, j: int| 0 <= i < j < e.len() ==> (#[trigger] e[i]).0@ != (#[trigger] e[j]).0@
}

/// The index of the first entry of `e` for problem `id`, from `j` on.
pub open spec fn find_key(e: Seq<(String, ProblemPatternStats)>, id: Seq<char>, j: int) -> Option<int>
    decreases e.len() - j,
{
    if j < 0 || j >= e.len() {
        None
    } else if e[j].0@ == id {
        Some(j)
    } else {
        find_key(e, id, j + 1)
    }
}

/// The stats recorded for problem `id`, if any.
pub open spec fn counts(e: Seq<(String, ProblemPatternStats)>, id: Seq<char>) -> Option<ProblemPatternStats> {
    match find_key(e, id, 0) {
        Some(i) => Some(e[i].1),
        None => None,
    }
}

/// `s` with one more run with hits, or with misses.
pub open spec fn bumped(s: ProblemPatternStats, had_hits: bool) -> ProblemPatternStats {
    if had_hits {
        ProblemPatternStats { runs_with_hits: (s.runs_with_hits + 1) as u32, ..s }
    } else {
        ProblemPatternStats { runs_with_misses: (s.runs_with_misses + 1) as u32, ..s }
    }
}

/// The stats of a problem with no run recorded.
pub open spec fn no_runs() -> ProblemPatternStats {
    ProblemPatternStats { runs_with_hits: 0, runs_with_misses: 0 }
}

proof fn lemma_find_key(e: Seq<(String, ProblemPatternStats)>, id: Seq<char>, j: int)
    requires
        0 <= j,
    ensures
        find_key(e, id, j) matches Some(i) ==> j <= i < e.len() && e[i].0@ == id && forall|t: int|
            j <= t < i ==> (#[trigger] e[t]).0@ != id,
        find_key(e, id, j) is None ==> forall|t: int| j <= t < e.len() ==> (#[trigger] e[t]).0@ != id,
    decreases e.len() - j,
{
    if j < e.len() && e[j].0@ != id {
        lemma_find_key(e, id, j + 1);
    }
}

proof fn lemma_find_key_push(e: Seq<(String, ProblemPatternStats)>, x: (String, ProblemPatternStats), id: Seq<char>, j: int)
    requires
        0 <= j <= e.len(),
    ensures
        find_key(e.push(x), id, j) == (match find_key(e, id, j) {
            Some(i) => Some(i),
            None => if x.0@ == id {
                Some(e.len() as int)
            } else {
                None
            },
        }),
    decreases e.len() - j,
{
    if j < e.len() {
        assert(e.push(x)[j] == e[j]);
        if e[j].0@ != id {
            lemma_find_key_push(e, x, id, j + 1);
        }
    } else {
        assert(e.push(x)[j] == x);
        assert(find_key(e.push(x), id, j + 1) is None);
    }
}

proof fn lemma_find_key_update(e: Seq<(String, ProblemPatternStats)>, i: int, x: (String, ProblemPatternStats), id: Seq<char>, j: int)
    requires
        0 <= i < e.len(),
        0 <= j,
        e[i].0@ == x.0@,
    ensures
        find_key(e.update(i, x), id, j) == find_key(e, id, j),
    decreases e.len() - j,
{
    if j < e.len() {
        assert(e.update(i, x)[j].0@ == e[j].0@);
        if e[j].0@ != id {
            lemma_find_key_update(e, i, x, id, j + 1);
        }
    }
}

impl Default for PatternStats {
    fn default() -> (r: PatternStats)
        ensures
            r.problems@.len() == 0,
            distinct_ids(r.problems@),
    {
        PatternStats { problems: Vec::new() }
    }
}

impl PatternStats {
    /// The stats recorded for a problem, if any.
    pub fn get(&self, problem_id: &str) -> (r: Option<ProblemPatternStats>)
        ensures
            r == counts(self.problems@, problem_id@),
    {
        let mut k: usize = 0;
        while k < self.problems.len()
            invariant
                k <= self.problems@.len(),
                find_key(self.problems@, problem_id@, 0) == find_key(self.problems@, problem_id@, k as int),
            decreases self.problems@.len() - k,
        {
            if str_eq(self.problems[k].0.as_str(), problem_id) {
                return Some(self.problems[k].1);
            }
            k = k + 1;
        }
        None
    }
}

/// Record the result of a deep scan for a specific problem: one more run
/// with hits when `had_hits`, else one more run with misses. The stats of
/// every other problem are unchanged; no id comes to occur twice.
pub fn record(stats: &mut PatternStats, problem_id: &str, had_hits: bool)
    requires
        match counts(old(stats).problems@, problem_id@) {
            Some(s) => if had_hits {
                s.runs_with_hits < u32::MAX
            } else {
                s.runs_with_misses < u32::MAX
            },
            None => true,
        },
    ensures
        forall|id: Seq<char>| #[trigger]
            counts(final(stats).problems@, id) == if id == problem_id@ {
                Some(
                    bumped(
                        match counts(old(stats).problems@, id) {
                            Some(s) => s,
                            None => no_runs(),
                        },
                        had_hits,
                    ),
                )
            } else {
                counts(old(stats).problems@, id)
            },
        distinct_ids(old(stats).problems@) ==> distinct_ids(final(stats).problems@),
{
    let ghost e = stats.problems@;
    let mut k: usize = 0;
    while k < stats.problems.len()
        invariant
            k <= stats.problems@.len(),
            e == stats.problems@,
            e == old(stats).problems@,
            find_key(e, problem_id@, 0) == find_key(e, problem_id@, k as int),
            match counts(e, problem_id@) {
                Some(s) => if had_hits {
                    s.runs_with_hits < u32::MAX
                } else {
                    s.runs_with_misses < u32::MAX
                },
                None => true,
            },
        decreases stats.problems@.len() - k,
    {
        if str_eq(stats.problems[k].0.as_str(), problem_id) {
            let old_s = stats.problems[k].1;
            let new_s = if had_hits {
                ProblemPatternStats { runs_with_hits: old_s.runs_with_hits + 1, ..old_s }
            } else {
                ProblemPatternStats { runs_with_misses: old_s.runs_with_misses + 1, ..old_s }
            };
            let key = owned(problem_id);
            let ghost x = (key, new_s);
            stats.problems.set(k, (key, new_s));
            proof {
                assert forall|id: Seq<char>| #[trigger]
                    counts(stats.problems@, id) == if id == problem_id@ {
                        Some(bumped(match counts(e, id) {
                            Some(s) => s,
                            None => no_runs(),
                        }, had_hits))
                    } else {
                        counts(e, id)
                    } by {
                    lemma_find_key_update(e, k as int, x, id, 0);
                    lemma_find_key(e, id, 0);
                    if id != problem_id@ {
                        match find_key(e, id, 0) {
                            Some(i) => {
                                assert(i != k);
                            },
                            None => {},
                        }
                    }
                }
                assert(x.0@ == e[k as int].0@);
                assert forall|i: int, j: int| 0 <= i < j < stats.problems@.len() && distinct_ids(e) implies (
                #[trigger] stats.problems@[i]).0@ != (#[trigger] stats.problems@[j]).0@ by {
                    assert(stats.problems@[i].0@ == e[i].0@);
                    assert(stats.problems@[j].0@ == e[j].0@);
                }
            }
            return;
        }
        k = k + 1;
    }
    let mut fresh = ProblemPatternStats { runs_with_hits: 0, runs_with_misses: 0 };
    if had_hits {
        fresh.runs_with_hits = 1;
    } else {
        fresh.runs_with_misses = 1;
    }
    let key = owned(problem_id);
    let ghost x = (key, fresh);
    assert(find_key(e, problem_id@, 0) is None);
    assert(bumped(no_runs(), had_hits) == fresh);
    stats.problems.push((key, fresh));
    proof {
        assert forall|id: Seq<char>| #[trigger]
            counts(stats.problems@, id) == if id == problem_id@ {
                Some(bumped(match counts(e, id) {
                    Some(s) => s,
                    None => no_runs(),
                }, had_hits))
            } else {
                counts(e, id)
            } by {
            lemma_find_key_push(e, x, id, 0);
            lemma_find_key(e, id, 0);
            assert(stats.problems@ == e.push(x));
            if id == problem_id@ {
                assert(x.0@ == id);
                assert(find_key(e.push(x), id, 0) == Some(e.len() as int));
                assert(e.push(x)[e.len() as int].1 == fresh);
            }
        }
        lemma_find_key(e, problem_id@, 0);
        assert forall|i: int, j: int| 0 <= i < j < stats.problems@.len() && distinct_ids(e) implies (
        #[trigger] stats.problems@[i]).0@ != (#[trigger] stats.problems@[j]).0@ by {
            assert(stats.problems@ == e.push(x));
            if j == e.len() {
                assert(stats.problems@[i] == e[i]);
            } else {
                assert(stats.problems@[i] == e[i] && stats.problems@[j] == e[j]);
            }
        }
    }
}


// ── Quality report ────────────────────────────────────────────────────

/// The hit rate of `s` as a fraction (hits, runs); without runs it is 0/1.
pub open spec fn rate(s: ProblemPatternStats) -> (int, int) {
    let t = s.runs_with_hits + s.runs_with_misses;
    if t == 0 {
        (0, 1)
    } else {
        (s.runs_with_hits as int, t)
    }
}

/// Whether `a`'s hit rate is below `b`'s.
pub open spec fn rate_lt(a: ProblemPatternStats, b: ProblemPatternStats) -> bool {
    rate(a).0 * rate(b).1 < rate(b).0 * rate(a).1
}

/// Whether `a`'s hit rate is below `b`'s, compared exactly as fractions.
pub fn hit_rate_lt(a: &ProblemPatternStats, b: &ProblemPatternStats) -> (r: bool)
    ensures
        r == rate_lt(*a, *b),
{
    let ta: u64 = a.runs_with_hits as u64 + a.runs_with_misses as u64;
    let tb: u64 = b.runs_with_hits as u64 + b.runs_with_misses as u64;
    let (na, da): (u64, u64) = if ta == 0 { (0, 1) } else { (a.runs_with_hits as u64, ta) };
    let (nb, db): (u64, u64) = if tb == 0 { (0, 1) } else { (b.runs_with_hits as u64, tb) };
    let x: u128 = na as u128;
    let y: u128 = db as u128;
    let z: u128 = nb as u128;
    let w: u128 = da as u128;
    assert(x * y <= 0xffff_ffff_ffff_ffff_ffff_ffff_ffff_ffffu128 && z * w <= 0xffff_ffff_ffff_ffff_ffff_ffff_ffff_ffffu128) by (nonlinear_arith)
        requires
            x <= 0xffff_ffff_ffff_ffffu128,
            y <= 0xffff_ffff_ffff_ffffu128,
            z <= 0xffff_ffff_ffff_ffffu128,
            w <= 0xffff_ffff_ffff_ffffu128,
    ;
    x * y < z * w
}

/// A problem whose patterns hit in under 10% of at least 3 runs.
pub open spec fn low_quality(s: ProblemPatternStats) -> bool {
    let t = s.runs_with_hits + s.runs_with_misses;
    t >= 3 && 10 * s.runs_with_hits < t
}

/// Whether a problem's patterns are of low quality: under 10% hits after
/// 3 or more runs.
pub fn is_low_quality(s: &ProblemPatternStats) -> (r: bool)
    ensures
        r == low_quality(*s),
{
    let t: u64 = s.runs_with_hits as u64 + s.runs_with_misses as u64;
    t >= 3 && 10 * (s.runs_with_hits as u64) < t
}

/// Rate order is asymmetric.
proof fn lemma_rate_total(a: ProblemPatternStats, b: ProblemPatternStats)
    ensures
        !(rate_lt(a, b) && rate_lt(b, a)),
{
}

/// "Not below" in rate order is transitive.
proof fn lemma_rate_trans(a: ProblemPatternStats, b: ProblemPatternStats, c: ProblemPatternStats)
    requires
        !rate_lt(b, a),
        !rate_lt(c, b),
    ensures
        !rate_lt(c, a),
{
    let (a0, a1) = rate(a);
    let (b0, b1) = rate(b);
    let (c0, c1) = rate(c);
    assert(a0 * c1 <= c0 * a1) by (nonlinear_arith)
        requires
            a0 * b1 <= b0 * a1,
            b0 * c1 <= c0 * b1,
            a1 > 0,
            b1 > 0,
            c1 > 0,
            a0 >= 0,
            b0 >= 0,
            c0 >= 0,
    ;
}

/// Below-then-not-below in rate order gives below.
proof fn lemma_rate_lt_le(a: ProblemPatternStats, b: ProblemPatternStats, c: ProblemPatternStats)
    requires
        rate_lt(a, b),
        !rate_lt(c, b),
    ensures
        rate_lt(a, c),
{
    let (a0, a1) = rate(a);
    let (b0, b1) = rate(b);
    let (c0, c1) = rate(c);
    assert(a0 * c1 < c0 * a1) by (nonlinear_arith)
        requires
            a0 * b1 < b0 * a1,
            b0 * c1 <= c0 * b1,
            a1 > 0,
            b1 > 0,
            c1 > 0,
            a0 >= 0,
            b0 >= 0,
            c0 >= 0,
    ;
}

/// Whether `order` lists the positions of `e` by rising hit rate.
pub open spec fn rate_sorted(e: Seq<(String, ProblemPatternStats)>, order: Seq<usize>) -> bool {
    forall|i: int, j: int| 0 <= i < j < order.len() ==> !rate_lt(
        e[#[trigger] order[j] as int].1,
        e[#[trigger] order[i] as int].1,
    )
}

/// The order of the quality report: the positions of every entry, each
/// once, lowest hit rate first.
pub fn report_order(stats: &PatternStats) -> (r: Vec<usize>)
    ensures
        r@.len() == stats.problems@.len(),
        forall|i: int| 0 <= i < r@.len() ==> (#[trigger] r@[i]) < stats.problems@.len(),
        forall|i: int, j: int| 0 <= i < j < r@.len() ==> #[trigger] r@[i] != #[trigger] r@[j],
        rate_sorted(stats.problems@, r@),
{
    let ghost e = stats.problems@;
    let n = stats.problems.len();
    let mut out: Vec<usize> = Vec::new();
    let mut k: usize = 0;
    while k < n
        invariant
            k <= n,
            n == e.len(),
            e == stats.problems@,
            out@.len() == k,
            forall|i: int| 0 <= i < out@.len() ==> (#[trigger] out@[i]) < k,
            forall|i: int, j: int| 0 <= i < j < out@.len() ==> #[trigger] out@[i] != #[trigger] out@[j],
            rate_sorted(e, out@),
        decreases n - k,
    {
        let x = stats.problems[k].1;
        let mut j: usize = 0;
        while j < out.len() && !hit_rate_lt(&x, &stats.problems[out[j]].1)
            invariant
                j <= out@.len(),
                e == stats.problems@,
                x == e[k as int].1,
                forall|i: int| 0 <= i < out@.len() ==> (#[trigger] out@[i]) < e.len(),
                forall|t: int| 0 <= t < j ==> !rate_lt(x, e[(#[trigger] out@[t]) as int].1),
            decreases out@.len() - j,
        {
            j = j + 1;
        }
        let ghost before = out@;
        out.insert(j, k);
        assert(out@ =~= before.insert(j as int, k));
        proof {
            assert forall|a: int, b: int| 0 <= a < b < out@.len() implies !rate_lt(
                e[#[trigger] out@[b] as int].1,
                e[#[trigger] out@[a] as int].1,
            ) by {
                if b < j {
                    assert(out@[a] == before[a] && out@[b] == before[b]);
                } else if b == j {
                    assert(out@[a] == before[a]);
                    lemma_rate_total(e[before[a] as int].1, x);
                } else if a == j {
                    assert(out@[b] == before[b - 1]);
                    let y = e[before[j as int] as int].1;
                    assert(rate_lt(x, y));
                    if b - 1 > j {
                        assert(!rate_lt(e[before[b - 1] as int].1, y));
                        lemma_rate_lt_le(x, y, e[before[b - 1] as int].1);
                    }
                    lemma_rate_total(x, e[before[b - 1] as int].1);
                } else if a < j {
                    assert(out@[a] == before[a] && out@[b] == before[b - 1]);
                } else {
                    assert(out@[a] == before[a - 1] && out@[b] == before[b - 1]);
                }
            }
            assert forall|a: int, b: int| 0 <= a < b < out@.len() implies #[trigger] out@[a] != #[trigger] out@[b] by {
                if a == j {
                    assert(out@[b] == before[b - 1]);
                } else if b == j {
                    assert(out@[a] == before[a]);
                } else if b < j {
                    assert(out@[a] == before[a] && out@[b] == before[b]);
                } else if a < j {
                    assert(out@[a] == before[a] && out@[b] == before[b - 1]);
                } else {
                    assert(out@[a] == before[a - 1] && out@[b] == before[b - 1]);
                }
            }
            assert forall|i: int| 0 <= i < out@.len() implies (#[trigger] out@[i]) < k + 1 by {
                if i < j {
                    assert(out@[i] == before[i]);
                } else if i > j {
                    assert(out@[i] == before[i - 1]);
                }
            }
        }
        k = k + 1;
    }
    out
}

} // verus!
