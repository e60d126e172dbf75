//! Matching a problem's source patterns against the lines of a file.

use vstd::prelude::*;

use crate::deep_scan::context_extractor::{context_of, context_spec};
use crate::problems::schema::{Confidence, SourceHit, SourcePattern};
use crate::text::{chars_of, lines, lines_of, owned, push_range, string_of, trim, trim_bounds};

verus! {

#[verifier::external_type_specification]
#[verifier::external_body]
pub struct ExRegex(regex::Regex);

/// Whether `regex::Regex::new` accepts `pattern` (with the crate's default
/// size limits).
pub uninterp spec fn regex_compiles(pattern: Seq<char>) -> bool;

/// What `regex::Regex::is_match` returns for the regex compiled from
/// `pattern` on `haystack`: whether it matches somewhere in it.
pub uninterp spec fn regex_finds(pattern: Seq<char>, haystack: Seq<char>) -> bool;

/// A compiled regex together with the pattern it was compiled from.
pub struct CompiledRegex {
    inner: regex::Regex,
    pattern: String,
}

impl View for CompiledRegex {
    type V = Seq<char>;

    closed spec fn view(&self) -> Seq<char> {
        self.pattern@
    }
}

/// `regex::Regex::new`: `Some` exactly when the pattern compiles, carrying
/// the pattern it was compiled from.
#[verifier::external_body]
pub(crate) fn compile_regex(pattern: &str) -> (r: Option<CompiledRegex>)
    ensures
        r is Some <==> regex_compiles(pattern@),
        r matches Some(c) ==> c@ == pattern@,
{
    match regex::Regex::new(pattern) {
        Ok(inner) => Some(CompiledRegex { inner, pattern: pattern.to_string() }),
        Err(_) => None,
    }
}

/// `regex::Regex::is_match` on a compiled regex.
#[verifier::external_body]
fn regex_is_match(re: &CompiledRegex, haystack: &str) -> (r: bool)
    ensures
        r == regex_finds(re@, haystack@),
{
    re.inner.is_match(haystack)
}

/// A source hit as plain values: file, line number, trimmed line, context
/// lines, pattern description, confidence label, remediation.
pub type HitModel = (Seq<char>, nat, Seq<char>, Seq<Seq<char>>, Seq<char>, Seq<char>, Seq<char>);

impl View for SourceHit {
    type V = HitModel;

    open spec fn view(&self) -> HitModel {
        (
            self.file@,
            self.line_number as nat,
            self.line_content@,
            self.context@.map_values(|s: String| s@),
            self.pattern_description@,
            self.confidence@,
            self.remediation@,
        )
    }
}

/// The views of a sequence of hits.
pub open spec fn hit_views(hs: Seq<SourceHit>) -> Seq<HitModel> {
    hs.map_values(|h: SourceHit| h@)
}

/// The lowercase name of a confidence level.
pub open spec fn confidence_label(c: Confidence) -> Seq<char> {
    match c {
        Confidence::Definite => "definite"@,
        Confidence::Likely => "likely"@,
        Confidence::Possible => "possible"@,
    }
}

/// The hit of pattern `p` on line `idx` (0-based) of `ls`.
pub open spec fn hit_at(file: Seq<char>, ls: Seq<Seq<char>>, idx: int, p: SourcePattern) -> HitModel {
    (
        file,
        (idx + 1) as nat,
        trim(ls[idx]),
        context_spec(ls, idx, 2),
        p.description@,
        confidence_label(p.confidence),
        p.remediation@,
    )
}

/// The hits of pattern `p` on the lines `ls[0..k)` flagged in `matched`,
/// in line order.
pub open spec fn hits_where(file: Seq<char>, ls: Seq<Seq<char>>, p: SourcePattern, matched: Seq<bool>, k: int) -> Seq<HitModel>
    decreases k,
{
    if k <= 0 {
        seq![]
    } else if matched[k - 1] {
        hits_where(file, ls, p, matched, k - 1).push(hit_at(file, ls, k - 1, p))
    } else {
        hits_where(file, ls, p, matched, k - 1)
    }
}

/// Which lines of `ls` the regex of `p` matches.
pub open spec fn line_matches(ls: Seq<Seq<char>>, p: SourcePattern) -> Seq<bool> {
    Seq::new(ls.len(), |i: int| regex_finds(p.regex@, ls[i]))
}

/// The hits of pattern `p` on all lines of `ls`, in line order.
pub open spec fn pattern_hits(file: Seq<char>, ls: Seq<Seq<char>>, p: SourcePattern) -> Seq<HitModel> {
    hits_where(file, ls, p, line_matches(ls, p), ls.len() as int)
}

/// The number of set flags among `m[0..k)`.
pub open spec fn count_true(m: Seq<bool>, k: int) -> nat
    decreases k,
{
    if k <= 0 {
        0
    } else {
        count_true(m, k - 1) + if m[k - 1] {
            1nat
        } else {
            0nat
        }
    }
}

/// The hits of a pattern are one per flagged line, in line order: their
/// number is the number of flagged lines; every flagged line `i` has a
/// hit with line number `i + 1` (the hit of that line); every hit with
/// line number `n` is the hit of flagged line `n - 1`; and line numbers
/// strictly rise.
pub proof fn law_one_hit_per_flagged_line(file: Seq<char>, ls: Seq<Seq<char>>, p: SourcePattern, matched: Seq<bool>, k: int)
    requires
        0 <= k <= matched.len(),
    ensures
        hits_where(file, ls, p, matched, k).len() == count_true(matched, k),
        forall|i: int| 0 <= i < k && #[trigger] matched[i] ==> exists|j: int|
            0 <= j < hits_where(file, ls, p, matched, k).len() && hits_where(file, ls, p, matched, k)[j]
                == hit_at(file, ls, i, p) && hits_where(file, ls, p, matched, k)[j].1 == i + 1,
        forall|j: int| 0 <= j < hits_where(file, ls, p, matched, k).len() ==> {
            let i = (#[trigger] hits_where(file, ls, p, matched, k)[j]).1 - 1;
            &&& 0 <= i < k
            &&& matched[i]
            &&& hits_where(file, ls, p, matched, k)[j] == hit_at(file, ls, i, p)
        },
        forall|a: int, b: int| 0 <= a < b < hits_where(file, ls, p, matched, k).len() ==> (
        #[trigger] hits_where(file, ls, p, matched, k)[a]).1 < (#[trigger] hits_where(file, ls, p, matched, k)[b]).1,
    decreases k,
{
    if k > 0 {
        law_one_hit_per_flagged_line(file, ls, p, matched, k - 1);
        let prev = hits_where(file, ls, p, matched, k - 1);
        let cur = hits_where(file, ls, p, matched, k);
        if matched[k - 1] {
            assert(cur == prev.push(hit_at(file, ls, k - 1, p)));
            assert forall|i: int| 0 <= i < k && #[trigger] matched[i] implies exists|j: int|
                0 <= j < cur.len() && cur[j] == hit_at(file, ls, i, p) && cur[j].1 == i + 1 by {
                if i == k - 1 {
                    assert(cur[prev.len() as int] == hit_at(file, ls, i, p));
                } else {
                    let j = choose|j: int| 0 <= j < prev.len() && prev[j] == hit_at(file, ls, i, p) && prev[j].1 == i + 1;
                    assert(cur[j] == prev[j]);
                }
            }
            assert forall|j: int| 0 <= j < cur.len() implies {
                let i = (#[trigger] cur[j]).1 - 1;
                &&& 0 <= i < k
                &&& matched[i]
                &&& cur[j] == hit_at(file, ls, i, p)
            } by {
                if j < prev.len() {
                    assert(cur[j] == prev[j]);
                } else {
                    assert(cur[j] == hit_at(file, ls, k - 1, p));
                }
            }
            assert forall|a: int, b: int| 0 <= a < b < cur.len() implies (#[trigger] cur[a]).1 < (#[trigger] cur[b]).1 by {
                if b < prev.len() {
                    assert(cur[a] == prev[a] && cur[b] == prev[b]);
                } else {
                    assert(cur[a] == prev[a]);
                    assert(cur[b] == hit_at(file, ls, k - 1, p));
                }
            }
        } else {
            assert(cur == prev);
        }
    }
}

/// For a pattern, the hits in a file are exactly one per line its regex
/// matches: as many hits as matching lines, a hit at line `i + 1` for
/// every matching line `i`, every hit the hit of a matching line, in
/// rising line order.
pub proof fn law_pattern_hits_match_lines(file: Seq<char>, ls: Seq<Seq<char>>, p: SourcePattern)
    ensures
        pattern_hits(file, ls, p).len() == count_true(line_matches(ls, p), ls.len() as int),
        forall|i: int| 0 <= i < ls.len() && #[trigger] regex_finds(p.regex@, ls[i]) ==> exists|j: int|
            0 <= j < pattern_hits(file, ls, p).len() && pattern_hits(file, ls, p)[j] == hit_at(file, ls, i, p),
        forall|j: int| 0 <= j < pattern_hits(file, ls, p).len() ==> {
            let i = (#[trigger] pattern_hits(file, ls, p)[j]).1 - 1;
            &&& 0 <= i < ls.len()
            &&& regex_finds(p.regex@, ls[i])
            &&& pattern_hits(file, ls, p)[j] == hit_at(file, ls, i, p)
        },
        forall|a: int, b: int| 0 <= a < b < pattern_hits(file, ls, p).len() ==> (
        #[trigger] pattern_hits(file, ls, p)[a]).1 < (#[trigger] pattern_hits(file, ls, p)[b]).1,
{
    let m = line_matches(ls, p);
    law_one_hit_per_flagged_line(file, ls, p, m, ls.len() as int);
    let hs = pattern_hits(file, ls, p);
    assert(hs == hits_where(file, ls, p, m, ls.len() as int));
    assert forall|i: int| 0 <= i < ls.len() && #[trigger] regex_finds(p.regex@, ls[i]) implies exists|j: int|
        0 <= j < pattern_hits(file, ls, p).len() && pattern_hits(file, ls, p)[j] == hit_at(file, ls, i, p) by {
        assert(m[i]);
        let j = choose|j: int| 0 <= j < hs.len() && hs[j] == hit_at(file, ls, i, p) && hs[j].1 == i + 1;
    }
    assert forall|j: int| 0 <= j < pattern_hits(file, ls, p).len() implies {
        let i = (#[trigger] pattern_hits(file, ls, p)[j]).1 - 1;
        &&& 0 <= i < ls.len()
        &&& regex_finds(p.regex@, ls[i])
        &&& pattern_hits(file, ls, p)[j] == hit_at(file, ls, i, p)
    } by {
        assert(hs[j] == hits_where(file, ls, p, m, ls.len() as int)[j]);
        let i = hs[j].1 - 1;
        assert(m[i] == regex_finds(p.regex@, ls[i]));
    }
}

/// The hits of `pats[0..m)` on `ls`: pattern by pattern, those whose regex
/// does not compile contributing nothing.
pub open spec fn scan_hits(file: Seq<char>, ls: Seq<Seq<char>>, pats: Seq<SourcePattern>, m: int) -> Seq<HitModel>
    decreases m,
{
    if m <= 0 {
        seq![]
    } else if regex_compiles(pats[m - 1].regex@) {
        scan_hits(file, ls, pats, m - 1) + pattern_hits(file, ls, pats[m - 1])
    } else {
        scan_hits(file, ls, pats, m - 1)
    }
}

/// Every hit of a file scan is the hit of a pattern whose regex compiles
/// on a line that regex matches; and every line matched by a compiling
/// pattern gives that pattern's hit there.
pub proof fn law_scan_hits_are_matches(file: Seq<char>, ls: Seq<Seq<char>>, pats: Seq<SourcePattern>, m: int)
    requires
        0 <= m <= pats.len(),
    ensures
        forall|j: int| #![trigger scan_hits(file, ls, pats, m)[j]] 0 <= j < scan_hits(file, ls, pats, m).len() ==> exists|q: int|
            0 <= q < m && regex_compiles(#[trigger] pats[q].regex@) && {
                let i = scan_hits(file, ls, pats, m)[j].1 - 1;
                &&& 0 <= i < ls.len()
                &&& regex_finds(pats[q].regex@, ls[i])
                &&& scan_hits(file, ls, pats, m)[j] == hit_at(file, ls, i, pats[q])
            },
        forall|q: int, i: int|
            0 <= q < m && 0 <= i < ls.len() && regex_compiles(pats[q].regex@) && #[trigger] regex_finds(
                pats[q].regex@,
                ls[i],
            ) ==> scan_hits(file, ls, pats, m).contains(hit_at(file, ls, i, pats[q])),
    decreases m,
{
    if m > 0 {
        law_scan_hits_are_matches(file, ls, pats, m - 1);
        let prev = scan_hits(file, ls, pats, m - 1);
        let cur = scan_hits(file, ls, pats, m);
        let pm = pats[m - 1];
        if regex_compiles(pm.regex@) {
            let ph = pattern_hits(file, ls, pm);
            law_pattern_hits_match_lines(file, ls, pm);
            assert(cur == prev + ph);
            assert forall|j: int| #![trigger cur[j]] 0 <= j < cur.len() implies exists|q: int|
                0 <= q < m && regex_compiles(#[trigger] pats[q].regex@) && {
                    let i = cur[j].1 - 1;
                    &&& 0 <= i < ls.len()
                    &&& regex_finds(pats[q].regex@, ls[i])
                    &&& cur[j] == hit_at(file, ls, i, pats[q])
                } by {
                if j < prev.len() {
                    assert(cur[j] == prev[j]);
                } else {
                    assert(cur[j] == ph[j - prev.len()]);
                    assert(regex_compiles(pats[m - 1].regex@));
                }
            }
            assert forall|q: int, i: int|
                0 <= q < m && 0 <= i < ls.len() && regex_compiles(pats[q].regex@) && #[trigger] regex_finds(
                    pats[q].regex@,
                    ls[i],
                ) implies cur.contains(hit_at(file, ls, i, pats[q])) by {
                if q < m - 1 {
                    let k = choose|k: int| 0 <= k < prev.len() && prev[k] == hit_at(file, ls, i, pats[q]);
                    assert(cur[k] == prev[k]);
                } else {
                    let k = choose|k: int| 0 <= k < ph.len() && ph[k] == hit_at(file, ls, i, pm);
                    assert(cur[prev.len() + k] == ph[k]);
                }
            }
        } else {
            assert(cur == prev);
            assert forall|q: int, i: int|
                0 <= q < m && 0 <= i < ls.len() && regex_compiles(pats[q].regex@) && #[trigger] regex_finds(
                    pats[q].regex@,
                    ls[i],
                ) implies cur.contains(hit_at(file, ls, i, pats[q])) by {
                assert(q != m - 1);
            }
            assert forall|j: int| #![trigger cur[j]] 0 <= j < cur.len() implies exists|q: int|
                0 <= q < m && regex_compiles(#[trigger] pats[q].regex@) && {
                    let i = cur[j].1 - 1;
                    &&& 0 <= i < ls.len()
                    &&& regex_finds(pats[q].regex@, ls[i])
                    &&& cur[j] == hit_at(file, ls, i, pats[q])
                } by {
                assert(cur[j] == prev[j]);
            }
        }
    }
}

/// The lowercase name of a confidence level.
pub fn confidence_name(c: Confidence) -> (r: String)
    ensures
        r@ == confidence_label(c),
{
    match c {
        Confidence::Definite => owned("definite"),
        Confidence::Likely => owned("likely"),
        Confidence::Possible => owned("possible"),
    }
}

/// The hit of pattern `p` on line `idx`.
fn make_hit(file: &str, ls: &Vec<Vec<char>>, idx: usize, p: &SourcePattern) -> (r: SourceHit)
    requires
        idx < ls@.len(),
    ensures
        r@ == hit_at(file@, ls.deep_view(), idx as int, *p),
{
    let n = ls.len();
    assert(idx < n);
    let line = &ls[idx];
    let (a, b) = trim_bounds(line.as_slice(), 0, line.len());
    let mut t: Vec<char> = Vec::new();
    push_range(&mut t, line.as_slice(), a, b);
    assert(line@.subrange(0, line@.len() as int) =~= line@);
    assert(line@ == ls.deep_view()[idx as int]);
    let context = context_of(ls, idx, 2);
    SourceHit {
        file: owned(file),
        line_number: idx + 1,
        line_content: string_of(t.as_slice()),
        context,
        pattern_description: owned(p.description.as_str()),
        confidence: confidence_name(p.confidence),
        remediation: owned(p.remediation.as_str()),
    }
}

/// The hits of pattern `p` on the lines of `content` that `matched` flags
/// (one flag per line), in line order.
pub fn hits_from_matches(file: &str, content: &str, p: &SourcePattern, matched: &[bool]) -> (r: Vec<SourceHit>)
    requires
        matched@.len() == lines(content@).len(),
    ensures
        hit_views(r@) == hits_where(file@, lines(content@), *p, matched@, matched@.len() as int),
{
    let cs = chars_of(content);
    let ls = lines_of(cs.as_slice());
    let ghost lv = ls.deep_view();
    let mut hits: Vec<SourceHit> = Vec::new();
    let mut idx: usize = 0;
    while idx < matched.len()
        invariant
            idx <= matched@.len(),
            matched@.len() == ls@.len(),
            lv == ls.deep_view(),
            lv == lines(content@),
            hit_views(hits@) == hits_where(file@, lv, *p, matched@, idx as int),
        decreases matched@.len() - idx,
    {
        if matched[idx] {
            let h = make_hit(file, &ls, idx, p);
            let ghost hv = h@;
            let ghost before = hit_views(hits@);
            hits.push(h);
            assert(hit_views(hits@) =~= before.push(hv));
        }
        idx = idx + 1;
    }
    hits
}

/// Which lines of `content` the compiled regex matches.
fn match_lines(re: &CompiledRegex, content: &str) -> (r: Vec<bool>)
    ensures
        r@ == Seq::new(lines(content@).len(), |i: int| regex_finds(re@, lines(content@)[i])),
{
    let cs = chars_of(content);
    let ls = lines_of(cs.as_slice());
    let ghost lv = ls.deep_view();
    let mut out: Vec<bool> = Vec::new();
    let mut idx: usize = 0;
    while idx < ls.len()
        invariant
            idx <= ls@.len(),
            lv == ls.deep_view(),
            lv == lines(content@),
            lv.len() == ls@.len(),
            out@ == Seq::new(idx as nat, |i: int| regex_finds(re@, lv[i])),
        decreases ls@.len() - idx,
    {
        let line = string_of(ls[idx].as_slice());
        assert(ls[idx as int]@ == lv[idx as int]);
        let b = regex_is_match(re, line.as_str());
        out.push(b);
        assert(out@ =~= Seq::new((idx + 1) as nat, |i: int| regex_finds(re@, lv[i])));
        idx = idx + 1;
    }
    out
}

/// Scan the text of one file (named `file`) for all provided patterns:
/// for each pattern whose regex compiles, every line it matches, with the
/// trimmed line and two lines of context either side.
pub fn scan_content(file: &str, content: &str, patterns: &[SourcePattern]) -> (r: Vec<SourceHit>)
    ensures
        hit_views(r@) == scan_hits(file@, lines(content@), patterns@, patterns@.len() as int),
{
    let ghost lv = lines(content@);
    let mut hits: Vec<SourceHit> = Vec::new();
    let mut m: usize = 0;
    while m < patterns.len()
        invariant
            m <= patterns@.len(),
            lv == lines(content@),
            hit_views(hits@) == scan_hits(file@, lv, patterns@, m as int),
        decreases patterns@.len() - m,
    {
        let p = &patterns[m];
        match compile_regex(p.regex.as_str()) {
            Some(re) => {
                let matched = match_lines(&re, content);
                assert(matched@ =~= line_matches(lv, *p));
                let mut found = hits_from_matches(file, content, p, matched.as_slice());
                let ghost before = hit_views(hits@);
                let ghost fv = hit_views(found@);
                hits.append(&mut found);
                assert(hit_views(hits@) =~= before + fv);
            },
            None => {},
        }
        m = m + 1;
    }
    hits
}

} // verus!
