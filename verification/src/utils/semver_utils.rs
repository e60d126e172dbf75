//! Version range matching.
//!
//! Range format:
//! - AND range: `">=0.8.1 <1.6.0"` (space between comparators)
//! - OR ranges: `">=0.21.0 <0.21.11,>=0.22.0 <0.22.4"` (comma = OR)
//!
//! Parsing versions and requirements and evaluating a requirement are done
//! by the `semver` crate.

use vstd::prelude::*;

use crate::text::{
    chars_of, push_all, split, string_of, trim, trim_bounds, trim_start_char, words, words_of,
};

verus! {

#[verifier::external_type_specification]
#[verifier::external_body]
pub struct ExSemverVersion(semver::Version);

#[verifier::external_type_specification]
#[verifier::external_body]
pub struct ExSemverVersionReq(semver::VersionReq);

/// Whether `semver::Version::parse` accepts `text`.
pub uninterp spec fn semver_version_parses(text: Seq<char>) -> bool;

/// Whether `semver::VersionReq::parse` accepts `text`.
pub uninterp spec fn semver_req_parses(text: Seq<char>) -> bool;

/// What `semver::VersionReq::matches` returns for the requirement parsed
/// from `req_text` and the version parsed from `version_text`.
pub uninterp spec fn semver_req_matches(req_text: Seq<char>, version_text: Seq<char>) -> bool;

/// A `semver::Version` together with the text it was parsed from.
pub struct ParsedVersion {
    inner: semver::Version,
    text: String,
}

/// A `semver::VersionReq` together with the text it was parsed from.
pub struct ParsedReq {
    inner: semver::VersionReq,
    text: String,
}

impl View for ParsedVersion {
    type V = Seq<char>;

    closed spec fn view(&self) -> Seq<char> {
        self.text@
    }
}

impl View for ParsedReq {
    type V = Seq<char>;

    closed spec fn view(&self) -> Seq<char> {
        self.text@
    }
}

/// `semver::Version::parse`: `Some` exactly when the text is a valid
/// version, carrying the text it was parsed from.
#[verifier::external_body]
fn parse_version(text: &str) -> (r: Option<ParsedVersion>)
    ensures
        r is Some <==> semver_version_parses(text@),
        r matches Some(v) ==> v@ == text@,
{
    match semver::Version::parse(text) {
        Ok(inner) => Some(ParsedVersion { inner, text: text.to_string() }),
        Err(_) => None,
    }
}

/// `semver::VersionReq::parse`: `Some` exactly when the text is a valid
/// requirement, carrying the text it was parsed from.
#[verifier::external_body]
fn parse_req(text: &str) -> (r: Option<ParsedReq>)
    ensures
        r is Some <==> semver_req_parses(text@),
        r matches Some(q) ==> q@ == text@,
{
    match semver::VersionReq::parse(text) {
        Ok(inner) => Some(ParsedReq { inner, text: text.to_string() }),
        Err(_) => None,
    }
}

/// `semver::VersionReq::matches` on the parsed requirement and version.
#[verifier::external_body]
fn req_matches(req: &ParsedReq, version: &ParsedVersion) -> (r: bool)
    ensures
        r == semver_req_matches(req@, version@),
{
    req.inner.matches(&version.inner)
}

/// The comparator operators that start a new AND term.
pub open spec fn is_comparator_char(c: char) -> bool {
    c == '>' || c == '<' || c == '=' || c == '~' || c == '^'
}

/// Joins whitespace-separated tokens: a token starting with a comparator
/// operator is preceded by `", "`, any other token by `" "`.
pub open spec fn join_comparators(ws: Seq<Seq<char>>) -> Seq<char>
    decreases ws.len(),
{
    if ws.len() == 0 {
        seq![]
    } else if ws.len() == 1 {
        ws[0]
    } else {
        let last = ws.last();
        let sep = if last.len() > 0 && is_comparator_char(last[0]) {
            seq![',', ' ']
        } else {
            seq![' ']
        };
        join_comparators(ws.drop_last()) + sep + last
    }
}

/// Converts space-separated comparators to comma-separated AND conditions:
/// `">=0.8.1 <1.6.0"` becomes `">=0.8.1, <1.6.0"`.
pub open spec fn space_to_comma_and_spec(segment: Seq<char>) -> Seq<char> {
    join_comparators(words(segment))
}

/// Converts space-separated comparators to comma-separated AND conditions.
/// `">=0.8.1 <1.6.0"` → `">=0.8.1, <1.6.0"`
pub fn space_to_comma_and(segment: &str) -> (r: String)
    ensures
        r@ == space_to_comma_and_spec(segment@),
{
    let s = chars_of(segment);
    let n = s.len();
    let ws = words_of(s.as_slice(), 0, n);
    assert(s@.subrange(0, n as int) =~= s@);
    let ghost wv = ws.deep_view();
    let mut out: Vec<char> = Vec::new();
    let mut i: usize = 0;
    while i < ws.len()
        invariant
            wv == ws.deep_view(),
            wv == words(segment@),
            i <= ws@.len(),
            out@ == join_comparators(wv.take(i as int)),
        decreases ws@.len() - i,
    {
        let tok = &ws[i];
        assert(tok@ =~= wv[i as int]);
        assert(wv.take(i + 1).drop_last() =~= wv.take(i as int));
        assert(wv.take(i + 1).last() == wv[i as int]);
        if i == 0 {
            assert(wv.take(1) =~= seq![wv[0]]);
        } else if tok.len() > 0 && (tok[0] == '>' || tok[0] == '<' || tok[0] == '=' || tok[0]
            == '~' || tok[0] == '^') {
            out.push(',');
            out.push(' ');
        } else {
            out.push(' ');
        }
        push_all(&mut out, tok.as_slice());
        i = i + 1;
    }
    assert(wv.take(ws@.len() as int) =~= wv);
    string_of(out.as_slice())
}

/// Number of `c` in `s`.
pub open spec fn count_char(s: Seq<char>, c: char) -> int
    decreases s.len(),
{
    if s.len() == 0 {
        0
    } else {
        count_char(s.drop_last(), c) + if s.last() == c {
            1int
        } else {
            0int
        }
    }
}

/// A version with missing minor/patch components padded with `.0`, after
/// trimming whitespace and leading `v`s: `"4.17"` becomes `"4.17.0"`,
/// `"4"` becomes `"4.0.0"`; versions with two or more dots stay.
pub open spec fn normalize_version_spec(v: Seq<char>) -> Seq<char> {
    let t = trim_start_char(trim(v), 'v');
    let dots = count_char(t, '.');
    if dots == 0 {
        t + seq!['.', '0', '.', '0']
    } else if dots == 1 {
        t + seq!['.', '0']
    } else {
        t
    }
}

/// Pads a short version string to three components.
pub fn normalize_version(v: &str) -> (r: String)
    ensures
        r@ == normalize_version_spec(v@),
{
    let s = chars_of(v);
    let n = s.len();
    assert(s@.subrange(0, n as int) =~= s@);
    let (a, b) = trim_bounds(s.as_slice(), 0, n);
    let mut i = a;
    while i < b && s[i] == 'v'
        invariant
            a <= i <= b <= n,
            n == s@.len(),
            trim_start_char(s@.subrange(a as int, b as int), 'v') == trim_start_char(
                s@.subrange(i as int, b as int),
                'v',
            ),
        decreases b - i,
    {
        assert(s@.subrange(i as int, b as int).drop_first() =~= s@.subrange(i + 1, b as int));
        i = i + 1;
    }
    let ghost t = s@.subrange(i as int, b as int);
    assert(t == trim_start_char(trim(v@), 'v'));
    let mut out: Vec<char> = Vec::new();
    let mut dots: usize = 0;
    let mut j = i;
    while j < b
        invariant
            i <= j <= b <= n,
            n == s@.len(),
            t == s@.subrange(i as int, b as int),
            out@ == s@.subrange(i as int, j as int),
            dots == count_char(s@.subrange(i as int, j as int), '.'),
            dots <= j - i,
        decreases b - j,
    {
        assert(s@.subrange(i as int, j + 1).drop_last() =~= s@.subrange(i as int, j as int));
        if s[j] == '.' {
            dots = dots + 1;
        }
        out.push(s[j]);
        assert(out@ =~= s@.subrange(i as int, j + 1));
        j = j + 1;
    }
    if dots == 0 {
        out.push('.');
        out.push('0');
        out.push('.');
        out.push('0');
    } else if dots == 1 {
        out.push('.');
        out.push('0');
    }
    assert(out@ =~= normalize_version_spec(v@));
    string_of(out.as_slice())
}

/// Whether some comma-separated segment of the range, trimmed, nonempty and
/// turned into a comma-AND requirement, parses and matches the version.
pub open spec fn range_matches(version_text: Seq<char>, range: Seq<char>) -> bool {
    let segs = split(range, ',');
    exists|i: int|
        0 <= i < segs.len() && {
            let seg = trim(#[trigger] segs[i]);
            &&& seg.len() > 0
            &&& semver_req_parses(space_to_comma_and_spec(seg))
            &&& semver_req_matches(space_to_comma_and_spec(seg), version_text)
        }
}

/// Returns true if `version_str` satisfies `range_str`: the normalized
/// version parses, and some comma-separated alternative of the range
/// (with its space-separated comparators ANDed) matches it.
pub fn version_matches_range(version_str: &str, range_str: &str) -> (r: bool)
    ensures
        r == (semver_version_parses(normalize_version_spec(version_str@)) && range_matches(
            normalize_version_spec(version_str@),
            range_str@,
        )),
{
    let nv = normalize_version(version_str);
    let version = match parse_version(nv.as_str()) {
        Some(v) => v,
        None => return false,
    };
    let rs = chars_of(range_str);
    let n = rs.len();
    let ghost segs = split(rs@, ',');
    let mut pos: usize = 0;
    let ghost mut idx: int = 0;
    assert(rs@.subrange(0, n as int) =~= rs@);
    loop
        invariant
            n == rs@.len(),
            rs@ == range_str@,
            segs == split(rs@, ','),
            version@ == normalize_version_spec(version_str@),
            semver_version_parses(version@),
            pos <= n,
            0 <= idx < segs.len(),
            split(rs@.subrange(pos as int, n as int), ',') == segs.subrange(
                idx,
                segs.len() as int,
            ),
            forall|j: int|
                0 <= j < idx ==> {
                    let seg = trim(#[trigger] segs[j]);
                    !(seg.len() > 0 && semver_req_parses(space_to_comma_and_spec(seg))
                        && semver_req_matches(space_to_comma_and_spec(seg), version@))
                },
        decreases n - pos, segs.len() - idx,
    {
        let ghost rest = rs@.subrange(pos as int, n as int);
        let found = crate::text::find_char(rs.as_slice(), ',', pos, n);
        proof {
            crate::text::lemma_find_char_range(rs@, ',', pos as int, n as int, match found {
                Some(k) => Some(k as int),
                None => None,
            });
        }
        let e = match found {
            Some(k) => k,
            None => n,
        };
        let ghost seg0 = rs@.subrange(pos as int, e as int);
        assert(split(rest, ',')[0] == seg0) by {
            if found is None {
                assert(rest =~= seg0);
            } else {
                assert(rest.subrange(0, e - pos) =~= seg0);
            }
        }
        assert(segs[idx] == seg0);
        let (a, b) = trim_bounds(rs.as_slice(), pos, e);
        let ghost segt = trim(seg0);
        assert(rs@.subrange(a as int, b as int) == segt);
        let mut hit = false;
        if a < b {
            let mut segv: Vec<char> = Vec::new();
            crate::text::push_range(&mut segv, rs.as_slice(), a, b);
            let seg = string_of(segv.as_slice());
            let normalized = space_to_comma_and(seg.as_str());
            assert(normalized@ == space_to_comma_and_spec(segt));
            match parse_req(normalized.as_str()) {
                Some(req) => {
                    hit = req_matches(&req, &version);
                },
                None => {},
            }
        }
        assert(hit == (segt.len() > 0 && semver_req_parses(space_to_comma_and_spec(segt))
            && semver_req_matches(space_to_comma_and_spec(segt), version@)));
        if hit {
            assert(trim(segs[idx]).len() > 0);
            assert(range_matches(normalize_version_spec(version_str@), range_str@));
            return true;
        }
        match found {
            Some(k) => {
                assert(rest.subrange(k + 1 - pos, rest.len() as int) =~= rs@.subrange(
                    k + 1,
                    n as int,
                ));
                let ghost tail = split(rs@.subrange(k + 1, n as int), ',');
                assert(split(rest, ',') == seq![seg0] + tail);
                assert((seq![seg0] + tail).subrange(1, (tail.len() + 1) as int) =~= tail);
                assert(segs.subrange(idx, segs.len() as int).subrange(
                    1,
                    segs.len() - idx,
                ) =~= segs.subrange(idx + 1, segs.len() as int));
                assert(split(rs@.subrange(k + 1, n as int), ',') =~= segs.subrange(
                    idx + 1,
                    segs.len() as int,
                ));
                pos = k + 1;
                proof {
                    idx = idx + 1;
                }
            },
            None => {
                assert(split(rest, ',') == seq![rest]);
                assert(segs.subrange(idx, segs.len() as int).len() == 1);
                assert(idx + 1 == segs.len());
                assert forall|j: int| 0 <= j < segs.len() implies {
                    let seg = trim(#[trigger] segs[j]);
                    !(seg.len() > 0 && semver_req_parses(space_to_comma_and_spec(seg))
                        && semver_req_matches(space_to_comma_and_spec(seg), version@))
                } by {}
                return false;
            },
        }
    }
}

} // verus!
