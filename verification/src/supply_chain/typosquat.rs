//! Typosquatting detector: compares scanned package names against the
//! curated popular-package list and flags anything within Levenshtein
//! edit distance 2 that is not itself a popular name.

use vstd::prelude::*;

use crate::harvest::packages::{popular_names, popular_spec};
use crate::scanner::manifest::InstalledPackage;
use crate::text::{chars_of, owned, str_eq};

verus! {

/// Maximum edit distance to consider a potential typosquat.
pub const MAX_DISTANCE: usize = 2;

/// The smallest of three numbers.
pub open spec fn min3(x: nat, y: nat, z: nat) -> nat {
    if x <= y && x <= z {
        x
    } else if y <= z {
        y
    } else {
        z
    }
}

/// The Levenshtein distance between two character sequences: the least
/// number of single-character insertions, deletions and substitutions
/// that turn `a` into `b`.
pub open spec fn lev(a: Seq<char>, b: Seq<char>) -> nat
    decreases a.len() + b.len(),
{
    if a.len() == 0 {
        b.len()
    } else if b.len() == 0 {
        a.len()
    } else {
        let cost: nat = if a.last() == b.last() {
            0
        } else {
            1
        };
        min3(
            lev(a.drop_last(), b.drop_last()) + cost,
            lev(a.drop_last(), b) + 1,
            lev(a, b.drop_last()) + 1,
        )
    }
}

/// The distance is at most the length of the longer sequence.
pub proof fn lemma_lev_le_max(a: Seq<char>, b: Seq<char>)
    ensures
        lev(a, b) <= (if a.len() >= b.len() {
            a.len()
        } else {
            b.len()
        }),
    decreases a.len() + b.len(),
{
    if a.len() > 0 && b.len() > 0 {
        lemma_lev_le_max(a.drop_last(), b.drop_last());
    }
}

/// Levenshtein distance is symmetric: `lev(a, b) == lev(b, a)`.
pub proof fn law_lev_symmetric(a: Seq<char>, b: Seq<char>)
    ensures
        lev(a, b) == lev(b, a),
    decreases a.len() + b.len(),
{
    if a.len() > 0 && b.len() > 0 {
        law_lev_symmetric(a.drop_last(), b.drop_last());
        law_lev_symmetric(a.drop_last(), b);
        law_lev_symmetric(a, b.drop_last());
    }
}

/// The distance is zero exactly when the two sequences are equal.
pub proof fn law_lev_zero_iff_equal(a: Seq<char>, b: Seq<char>)
    ensures
        lev(a, b) == 0 <==> a == b,
    decreases a.len() + b.len(),
{
    if a.len() > 0 && b.len() > 0 {
        law_lev_zero_iff_equal(a.drop_last(), b.drop_last());
        if a == b {
            assert(a.drop_last() == b.drop_last());
        }
        if lev(a, b) == 0 {
            assert(a.last() == b.last());
            assert(a =~= a.drop_last().push(a.last()));
            assert(b =~= b.drop_last().push(b.last()));
        }
    } else if a.len() == 0 && b.len() == 0 {
        assert(a =~= b);
    }
}

/// `x + 1`, or `x` where that does not fit.
fn inc(x: usize) -> (r: usize)
    ensures
        x < usize::MAX ==> r == x + 1,
        x == usize::MAX ==> r == x,
{
    if x < usize::MAX {
        x + 1
    } else {
        x
    }
}

/// One step of the recurrence, on the three neighbouring cells.
proof fn lemma_lev_step(a: Seq<char>, b: Seq<char>, i: int, j: int)
    requires
        0 <= i < a.len(),
        0 <= j < b.len(),
    ensures
        lev(a.take(i + 1), b.take(j + 1)) == min3(
            lev(a.take(i), b.take(j)) + (if a[i] == b[j] {
                0nat
            } else {
                1nat
            }),
            lev(a.take(i), b.take(j + 1)) + 1,
            lev(a.take(i + 1), b.take(j)) + 1,
        ),
{
    let x = a.take(i + 1);
    let y = b.take(j + 1);
    assert(x.drop_last() =~= a.take(i));
    assert(y.drop_last() =~= b.take(j));
    assert(x.last() == a[i]);
    assert(y.last() == b[j]);
}

/// The Levenshtein distance of two character slices, by the two-row
/// dynamic programme.
pub fn lev_chars(a: &[char], b: &[char]) -> (r: usize)
    ensures
        r == lev(a@, b@),
{
    let n = a.len();
    let m = b.len();
    let mut prev: Vec<usize> = Vec::new();
    while prev.len() <= m
        invariant
            m == b@.len(),
            prev@.len() <= m + 1,
            forall|t: int| 0 <= t < prev@.len() ==> prev@[t] == lev(a@.take(0), b@.take(t)),
        decreases m + 1 - prev@.len(),
    {
        let k = prev.len();
        assert(a@.take(0).len() == 0);
        assert(b@.take(k as int).len() == k);
        prev.push(k);
    }
    let mut i: usize = 0;
    while i < n
        invariant
            n == a@.len(),
            m == b@.len(),
            i <= n,
            prev@.len() == m + 1,
            forall|t: int| 0 <= t <= m ==> prev@[t] == lev(a@.take(i as int), b@.take(t)),
        decreases n - i,
    {
        let mut curr: Vec<usize> = Vec::new();
        assert(b@.take(0).len() == 0);
        proof {
            lemma_lev_le_max(a@.take(i + 1), b@.take(0));
        }
        curr.push(i + 1);
        let mut j: usize = 0;
        while j < m
            invariant
                n == a@.len(),
                m == b@.len(),
                i < n,
                j <= m,
                prev@.len() == m + 1,
                forall|t: int| 0 <= t <= m ==> prev@[t] == lev(a@.take(i as int), b@.take(t)),
                curr@.len() == j + 1,
                forall|t: int| 0 <= t <= j ==> curr@[t] == lev(a@.take(i + 1), b@.take(t)),
            decreases m - j,
        {
            let cost: usize = if a[i] == b[j] {
                0
            } else {
                1
            };
            let sub = if cost == 0 {
                prev[j]
            } else {
                inc(prev[j])
            };
            let del = inc(prev[j + 1]);
            let ins = inc(curr[j]);
            proof {
                lemma_lev_step(a@, b@, i as int, j as int);
                lemma_lev_le_max(a@.take(i as int), b@.take(j as int));
                lemma_lev_le_max(a@.take(i + 1), b@.take(j + 1));
            }
            let mut best = sub;
            if del < best {
                best = del;
            }
            if ins < best {
                best = ins;
            }
            curr.push(best);
            j = j + 1;
        }
        prev = curr;
        i = i + 1;
    }
    assert(a@.take(n as int) =~= a@);
    assert(b@.take(m as int) =~= b@);
    prev[m]
}

/// The Levenshtein distance of two strings, counted in characters.
pub fn levenshtein(a: &str, b: &str) -> (r: usize)
    ensures
        r == lev(a@, b@),
{
    let x = chars_of(a);
    let y = chars_of(b);
    lev_chars(x.as_slice(), y.as_slice())
}


/// A warning that a scanned package name looks suspiciously similar to a
/// well-known package (possible typosquat).
#[derive(Debug, Clone)]
pub struct TyposquatWarning {
    pub scanned_name: String,
    pub ecosystem: String,
    pub similar_to: String,
    pub edit_distance: usize,
}

/// A warning as plain values: scanned name, ecosystem, the popular name
/// it resembles, and the distance between the two.
pub type WarningModel = (Seq<char>, Seq<char>, Seq<char>, nat);

impl View for TyposquatWarning {
    type V = WarningModel;

    open spec fn view(&self) -> WarningModel {
        (self.scanned_name@, self.ecosystem@, self.similar_to@, self.edit_distance as nat)
    }
}

/// The views of a sequence of warnings.
pub open spec fn warning_views(ws: Seq<TyposquatWarning>) -> Seq<WarningModel> {
    ws.map_values(|w: TyposquatWarning| w@)
}

/// The views of a sequence of string slices.
pub open spec fn str_views(v: Seq<&str>) -> Seq<Seq<char>> {
    v.map_values(|s: &str| s@)
}

/// Scanning `pop[0..n)` in order, the first popular name at the smallest
/// distance from `name` among those at distance 1 to `MAX_DISTANCE`,
/// with that distance.
pub open spec fn closest_upto(name: Seq<char>, pop: Seq<Seq<char>>, n: int) -> Option<(nat, Seq<char>)>
    decreases n,
{
    if n <= 0 {
        None
    } else {
        let prev = closest_upto(name, pop, n - 1);
        let d = lev(name, pop[n - 1]);
        if d == 0 || d > MAX_DISTANCE {
            prev
        } else {
            match prev {
                Some(b) => if d < b.0 {
                    Some((d, pop[n - 1]))
                } else {
                    prev
                },
                None => Some((d, pop[n - 1])),
            }
        }
    }
}

/// The closest popular name to `name` (see `closest_upto`).
pub open spec fn closest(name: Seq<char>, pop: Seq<Seq<char>>) -> Option<(nat, Seq<char>)> {
    closest_upto(name, pop, pop.len() as int)
}

/// Whether some warning in `ws` is about `name`.
pub open spec fn warned(ws: Seq<WarningModel>, name: Seq<char>) -> bool {
    exists|k: int| 0 <= k < ws.len() && (#[trigger] ws[k]).0 == name
}

/// The warnings one ecosystem yields from `pkgs[0..n)`: a package of that
/// ecosystem whose name is not popular, not warned about yet, and close
/// to some popular name.
pub open spec fn eco_warnings(pkgs: Seq<InstalledPackage>, eco: Seq<char>, n: int) -> Seq<WarningModel>
    decreases n,
{
    if n <= 0 {
        seq![]
    } else {
        let prev = eco_warnings(pkgs, eco, n - 1);
        let p = pkgs[n - 1];
        if p.ecosystem@ == eco && !popular_spec(eco).contains(p.name@) && !warned(prev, p.name@) {
            match closest(p.name@, popular_spec(eco)) {
                Some(c) => prev.push((p.name@, eco, c.1, c.0)),
                None => prev,
            }
        } else {
            prev
        }
    }
}

/// All warnings for `pkgs`: the npm ones, then pip, go and cargo.
pub open spec fn check_spec(pkgs: Seq<InstalledPackage>) -> Seq<WarningModel> {
    let n = pkgs.len() as int;
    eco_warnings(pkgs, "npm"@, n) + eco_warnings(pkgs, "pip"@, n) + eco_warnings(pkgs, "go"@, n)
        + eco_warnings(pkgs, "cargo"@, n)
}

/// Find the closest popular name within `MAX_DISTANCE`.
fn closest_match(name: &str, ecosystem: &str, popular: &[&str]) -> (r: Option<TyposquatWarning>)
    ensures
        match closest(name@, str_views(popular@)) {
            None => r is None,
            Some(c) => r matches Some(w) && w@ == (name@, ecosystem@, c.1, c.0),
        },
{
    let ghost pv = str_views(popular@);
    let mut found = false;
    let mut best_d: usize = 0;
    let mut best_i: usize = 0;
    let mut k: usize = 0;
    while k < popular.len()
        invariant
            k <= popular@.len(),
            pv == str_views(popular@),
            best_i < popular@.len() || !found,
            match closest_upto(name@, pv, k as int) {
                None => !found,
                Some(c) => found && best_i < k && c == (best_d as nat, pv[best_i as int]),
            },
        decreases popular@.len() - k,
    {
        let dist = levenshtein(name, popular[k]);
        if dist == 0 || dist > MAX_DISTANCE {
        } else if !found || dist < best_d {
            found = true;
            best_d = dist;
            best_i = k;
        }
        k = k + 1;
    }
    if found {
        Some(
            TyposquatWarning {
                scanned_name: owned(name),
                ecosystem: owned(ecosystem),
                similar_to: owned(popular[best_i]),
                edit_distance: best_d,
            },
        )
    } else {
        None
    }
}

/// Whether `popular` holds `name`.
fn contains_name(popular: &[&str], name: &str) -> (r: bool)
    ensures
        r == str_views(popular@).contains(name@),
{
    let mut k: usize = 0;
    while k < popular.len()
        invariant
            k <= popular@.len(),
            forall|t: int| 0 <= t < k ==> popular@[t]@ != name@,
        decreases popular@.len() - k,
    {
        if str_eq(popular[k], name) {
            assert(str_views(popular@)[k as int] == name@);
            return true;
        }
        k = k + 1;
    }
    proof {
        if str_views(popular@).contains(name@) {
            let t = choose|t: int| 0 <= t < str_views(popular@).len() && str_views(popular@)[t] == name@;
            assert(popular@[t]@ == name@);
        }
    }
    false
}

/// Whether one of `ws[start..]` is about `name`.
fn warned_since(ws: &Vec<TyposquatWarning>, start: usize, name: &str) -> (r: bool)
    requires
        start <= ws@.len(),
    ensures
        r == warned(warning_views(ws@).subrange(start as int, ws@.len() as int), name@),
{
    let ghost tail = warning_views(ws@).subrange(start as int, ws@.len() as int);
    let mut k = start;
    while k < ws.len()
        invariant
            start <= k <= ws@.len(),
            tail == warning_views(ws@).subrange(start as int, ws@.len() as int),
            forall|t: int| start <= t < k ==> ws@[t].scanned_name@ != name@,
        decreases ws@.len() - k,
    {
        if str_eq(ws[k].scanned_name.as_str(), name) {
            assert(tail[k - start].0 == name@);
            return true;
        }
        k = k + 1;
    }
    proof {
        if warned(tail, name@) {
            let t = choose|t: int| 0 <= t < tail.len() && (#[trigger] tail[t]).0 == name@;
            assert(ws@[t + start].scanned_name@ == name@);
        }
    }
    false
}

/// Appends the warnings of one ecosystem.
fn check_ecosystem(packages: &[InstalledPackage], eco: &str, warnings: &mut Vec<TyposquatWarning>)
    ensures
        warning_views(final(warnings)@) == warning_views(old(warnings)@) + eco_warnings(
            packages@,
            eco@,
            packages@.len() as int,
        ),
{
    let popular = popular_names(eco);
    let ghost pv = str_views(popular@);
    assert(pv =~= popular_spec(eco@));
    let start = warnings.len();
    let ghost base = warning_views(warnings@);
    let mut idx: usize = 0;
    while idx < packages.len()
        invariant
            idx <= packages@.len(),
            start == base.len(),
            start <= warnings@.len(),
            pv == str_views(popular@),
            pv == popular_spec(eco@),
            warning_views(warnings@) == base + eco_warnings(packages@, eco@, idx as int),
        decreases packages@.len() - idx,
    {
        let pkg = &packages[idx];
        let ghost prev = eco_warnings(packages@, eco@, idx as int);
        assert(warning_views(warnings@).len() == warnings@.len());
        assert(warning_views(warnings@).subrange(start as int, warnings@.len() as int) =~= prev);
        if str_eq(pkg.ecosystem.as_str(), eco) && !contains_name(popular.as_slice(), pkg.name.as_str())
            && !warned_since(warnings, start, pkg.name.as_str()) {
            match closest_match(pkg.name.as_str(), eco, popular.as_slice()) {
                Some(w) => {
                    let ghost before = warning_views(warnings@);
                    let ghost wv = w@;
                    warnings.push(w);
                    assert(warning_views(warnings@) =~= before.push(wv));
                    assert(warning_views(warnings@) =~= base + eco_warnings(
                        packages@,
                        eco@,
                        idx + 1,
                    ));
                },
                None => {},
            }
        }
        idx = idx + 1;
    }
}

/// Check all scanned packages against the popular-name list for their
/// ecosystem. Returns warnings for packages within edit distance 2 of a
/// popular name, excluding the popular names themselves.
pub fn check(packages: &[InstalledPackage]) -> (r: Vec<TyposquatWarning>)
    ensures
        warning_views(r@) == check_spec(packages@),
{
    let mut warnings: Vec<TyposquatWarning> = Vec::new();
    assert(warning_views(warnings@) =~= seq![]);
    check_ecosystem(packages, "npm", &mut warnings);
    check_ecosystem(packages, "pip", &mut warnings);
    check_ecosystem(packages, "go", &mut warnings);
    check_ecosystem(packages, "cargo", &mut warnings);
    warnings
}


/// The ecosystems the detector looks at.
pub open spec fn scanned_ecosystem(eco: Seq<char>) -> bool {
    eco == "npm"@ || eco == "pip"@ || eco == "go"@ || eco == "cargo"@
}

/// What a warning claims: its ecosystem is scanned, its name is a scanned
/// package of that ecosystem and not a popular name, and it names a
/// popular name at distance 1 to `MAX_DISTANCE`, none being closer.
pub open spec fn sound_warning(w: WarningModel, pkgs: Seq<InstalledPackage>) -> bool {
    let pop = popular_spec(w.1);
    &&& scanned_ecosystem(w.1)
    &&& exists|j: int| 0 <= j < pkgs.len() && (#[trigger] pkgs[j]).name@ == w.0 && pkgs[j].ecosystem@ == w.1
    &&& !pop.contains(w.0)
    &&& pop.contains(w.2)
    &&& 1 <= w.3 <= MAX_DISTANCE
    &&& w.3 == lev(w.0, w.2)
    &&& forall|q: Seq<char>| #[trigger] pop.contains(q) && lev(w.0, q) >= 1 ==> w.3 <= lev(w.0, q)
}

/// Whether a package should be flagged: its ecosystem is scanned, its
/// name is not popular, and some popular name lies at distance 1 to
/// `MAX_DISTANCE`.
pub open spec fn suspicious(p: InstalledPackage) -> bool {
    let pop = popular_spec(p.ecosystem@);
    &&& scanned_ecosystem(p.ecosystem@)
    &&& !pop.contains(p.name@)
    &&& exists|q: Seq<char>| #[trigger] pop.contains(q) && 1 <= lev(p.name@, q) <= MAX_DISTANCE
}

proof fn lemma_closest_upto(name: Seq<char>, pop: Seq<Seq<char>>, n: int)
    requires
        0 <= n <= pop.len(),
    ensures
        match closest_upto(name, pop, n) {
            None => forall|k: int|
                0 <= k < n ==> lev(name, #[trigger] pop[k]) == 0 || lev(name, pop[k]) > MAX_DISTANCE,
            Some(c) => {
                &&& 1 <= c.0 <= MAX_DISTANCE
                &&& c.0 == lev(name, c.1)
                &&& exists|k: int| 0 <= k < n && #[trigger] pop[k] == c.1
                &&& forall|k: int| 0 <= k < n && lev(name, #[trigger] pop[k]) >= 1 ==> c.0 <= lev(name, pop[k])
            },
        },
    decreases n,
{
    if n > 0 {
        lemma_closest_upto(name, pop, n - 1);
        match closest_upto(name, pop, n) {
            Some(c) => {
                if c.1 == pop[n - 1] {
                    assert(pop[n - 1] == c.1);
                }
            },
            None => {},
        }
    }
}

proof fn lemma_closest(name: Seq<char>, pop: Seq<Seq<char>>)
    ensures
        match closest(name, pop) {
            None => forall|q: Seq<char>|
                #[trigger] pop.contains(q) ==> lev(name, q) == 0 || lev(name, q) > MAX_DISTANCE,
            Some(c) => {
                &&& 1 <= c.0 <= MAX_DISTANCE
                &&& c.0 == lev(name, c.1)
                &&& pop.contains(c.1)
                &&& forall|q: Seq<char>| #[trigger] pop.contains(q) && lev(name, q) >= 1 ==> c.0 <= lev(name, q)
            },
        },
{
    lemma_closest_upto(name, pop, pop.len() as int);
    match closest(name, pop) {
        None => {
            assert forall|q: Seq<char>| #[trigger] pop.contains(q) implies lev(name, q) == 0 || lev(
                name,
                q,
            ) > MAX_DISTANCE by {
                let k = choose|k: int| 0 <= k < pop.len() && pop[k] == q;
                assert(pop[k] == q);
            }
        },
        Some(c) => {
            let k0 = choose|k: int| 0 <= k < pop.len() && #[trigger] pop[k] == c.1;
            assert(pop[k0] == c.1);
            assert forall|q: Seq<char>| #[trigger] pop.contains(q) && lev(name, q) >= 1 implies c.0 <= lev(
                name,
                q,
            ) by {
                let k = choose|k: int| 0 <= k < pop.len() && pop[k] == q;
                assert(pop[k] == q);
            }
        },
    }
}

proof fn lemma_eco_warnings(pkgs: Seq<InstalledPackage>, eco: Seq<char>, n: int)
    requires
        0 <= n <= pkgs.len(),
        scanned_ecosystem(eco),
    ensures
        forall|i: int| #![trigger eco_warnings(pkgs, eco, n)[i]]
            0 <= i < eco_warnings(pkgs, eco, n).len() ==> eco_warnings(pkgs, eco, n)[i].1 == eco
                && sound_warning(eco_warnings(pkgs, eco, n)[i], pkgs),
        forall|i: int, k: int|
            0 <= i < k < eco_warnings(pkgs, eco, n).len() ==> (#[trigger] eco_warnings(pkgs, eco, n)[i]).0
                != (#[trigger] eco_warnings(pkgs, eco, n)[k]).0,
        forall|j: int|
            0 <= j < n && (#[trigger] pkgs[j]).ecosystem@ == eco && suspicious(pkgs[j]) ==> warned(
                eco_warnings(pkgs, eco, n),
                pkgs[j].name@,
            ),
    decreases n,
{
    if n > 0 {
        lemma_eco_warnings(pkgs, eco, n - 1);
        let prev = eco_warnings(pkgs, eco, n - 1);
        let cur = eco_warnings(pkgs, eco, n);
        let p = pkgs[n - 1];
        lemma_closest(p.name@, popular_spec(eco));
        assert forall|j: int|
            0 <= j < n && (#[trigger] pkgs[j]).ecosystem@ == eco && suspicious(pkgs[j]) implies warned(
            cur,
            pkgs[j].name@,
        ) by {
            if j < n - 1 {
                let k = choose|k: int| 0 <= k < prev.len() && (#[trigger] prev[k]).0 == pkgs[j].name@;
                assert(cur[k] == prev[k]);
            } else {
                if warned(prev, p.name@) {
                    let k = choose|k: int| 0 <= k < prev.len() && (#[trigger] prev[k]).0 == p.name@;
                    assert(cur[k] == prev[k]);
                } else {
                    let q = choose|q: Seq<char>|
                        #[trigger] popular_spec(eco).contains(q) && 1 <= lev(p.name@, q) <= MAX_DISTANCE;
                    assert(popular_spec(eco).contains(q));
                    assert(cur[cur.len() - 1].0 == p.name@);
                }
            }
        }
        if cur.len() > prev.len() {
            assert(pkgs[n - 1].name@ == cur[cur.len() - 1].0);
        }
    }
}

/// The four scanned ecosystem names differ from one another.
proof fn lemma_ecosystems_distinct()
    ensures
        "npm"@ != "pip"@,
        "npm"@ != "go"@,
        "npm"@ != "cargo"@,
        "pip"@ != "go"@,
        "pip"@ != "cargo"@,
        "go"@ != "cargo"@,
{
    reveal_strlit("npm");
    reveal_strlit("pip");
    reveal_strlit("go");
    reveal_strlit("cargo");
    assert("npm"@[0] != "pip"@[0]);
    assert("npm"@.len() != "go"@.len());
    assert("npm"@.len() != "cargo"@.len());
    assert("pip"@.len() != "go"@.len());
    assert("pip"@.len() != "cargo"@.len());
    assert("go"@.len() != "cargo"@.len());
}

/// What the detector reports: each warning is sound (see `sound_warning`),
/// no package name is reported twice in one ecosystem, and every
/// suspicious package is reported.
pub proof fn law_check_reports_exactly_suspicious(pkgs: Seq<InstalledPackage>)
    ensures
        forall|i: int| 0 <= i < check_spec(pkgs).len() ==> sound_warning(#[trigger] check_spec(pkgs)[i], pkgs),
        forall|i: int, k: int|
            0 <= i < k < check_spec(pkgs).len() ==> !((#[trigger] check_spec(pkgs)[i]).0 == (
            #[trigger] check_spec(pkgs)[k]).0 && check_spec(pkgs)[i].1 == check_spec(pkgs)[k].1),
        forall|j: int|
            0 <= j < pkgs.len() && suspicious(#[trigger] pkgs[j]) ==> exists|i: int|
                0 <= i < check_spec(pkgs).len() && (#[trigger] check_spec(pkgs)[i]).0 == pkgs[j].name@
                    && check_spec(pkgs)[i].1 == pkgs[j].ecosystem@,
{
    let n = pkgs.len() as int;
    let a = eco_warnings(pkgs, "npm"@, n);
    let b = eco_warnings(pkgs, "pip"@, n);
    let c = eco_warnings(pkgs, "go"@, n);
    let d = eco_warnings(pkgs, "cargo"@, n);
    lemma_eco_warnings(pkgs, "npm"@, n);
    lemma_eco_warnings(pkgs, "pip"@, n);
    lemma_eco_warnings(pkgs, "go"@, n);
    lemma_eco_warnings(pkgs, "cargo"@, n);
    let all = check_spec(pkgs);
    assert(all == a + b + c + d);
    lemma_ecosystems_distinct();
    let la = a.len() as int;
    let lb = la + b.len();
    let lc = lb + c.len();
    assert(forall|i: int| 0 <= i < la ==> #[trigger] all[i] == a[i]);
    assert(forall|i: int| la <= i < lb ==> #[trigger] all[i] == b[i - la]);
    assert(forall|i: int| lb <= i < lc ==> #[trigger] all[i] == c[i - lb]);
    assert(forall|i: int| lc <= i < all.len() ==> #[trigger] all[i] == d[i - lc]);
    assert forall|i: int| 0 <= i < all.len() implies sound_warning(#[trigger] all[i], pkgs) by {
        if i < la {
            assert(all[i] == a[i]);
        } else if i < lb {
            assert(all[i] == b[i - la]);
        } else if i < lc {
            assert(all[i] == c[i - lb]);
        } else {
            assert(all[i] == d[i - lc]);
        }
    }
    assert forall|i: int, k: int| 0 <= i < k < all.len() implies !((#[trigger] all[i]).0 == (
    #[trigger] all[k]).0 && all[i].1 == all[k].1) by {
        if k < la {
            assert(a[i].0 != a[k].0);
        } else if k < lb {
            if i >= la {
                assert(b[i - la].0 != b[k - la].0);
            } else {
                assert(all[i].1 == "npm"@);
                assert(all[k].1 == "pip"@);
            }
        } else if k < lc {
            if i >= lb {
                assert(c[i - lb].0 != c[k - lb].0);
            } else if i >= la {
                assert(all[i].1 == "pip"@);
            } else {
                assert(all[i].1 == "npm"@);
            }
        } else {
            if i >= lc {
                assert(d[i - lc].0 != d[k - lc].0);
            } else if i >= lb {
                assert(all[i].1 == "go"@);
            } else if i >= la {
                assert(all[i].1 == "pip"@);
            } else {
                assert(all[i].1 == "npm"@);
            }
        }
    }
    assert forall|j: int| 0 <= j < pkgs.len() && suspicious(#[trigger] pkgs[j]) implies exists|i: int|
        0 <= i < all.len() && (#[trigger] all[i]).0 == pkgs[j].name@ && all[i].1
            == pkgs[j].ecosystem@ by {
        let name = pkgs[j].name@;
        let e = pkgs[j].ecosystem@;
        if e == "npm"@ {
            let k = choose|k: int| 0 <= k < a.len() && (#[trigger] a[k]).0 == name;
            assert(all[k] == a[k]);
        } else if e == "pip"@ {
            let k = choose|k: int| 0 <= k < b.len() && (#[trigger] b[k]).0 == name;
            assert(all[k + la] == b[k]);
        } else if e == "go"@ {
            let k = choose|k: int| 0 <= k < c.len() && (#[trigger] c[k]).0 == name;
            assert(all[k + lb] == c[k]);
        } else {
            let k = choose|k: int| 0 <= k < d.len() && (#[trigger] d[k]).0 == name;
            assert(all[k + lc] == d[k]);
        }
    }
}

} // verus!
