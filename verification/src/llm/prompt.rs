//! Builds the LLM prompt from a problem's fields and checks the patterns
//! that come back. Every accepted regex compiles.

use vstd::prelude::*;

use crate::deep_scan::pattern_matcher::{compile_regex, regex_compiles};
use crate::problems::schema::{Confidence, Problem, SourcePattern, SourcePatternSet};
use crate::text::{
    chars_of, find, find_char, find_range, lemma_find_char_range, lowercase, owned, push_all,
    push_range, str_eq, string_of, to_lowercase, trim, trim_bounds,
};

verus! {

/// A single message in the chat completion request.
#[derive(Debug, Clone)]
pub struct ChatMessage {
    pub role: String,
    pub content: String,
}

/// One pattern as the LLM returned it, before any check.
pub struct RawPattern {
    pub description: String,
    pub regex: String,
    pub confidence: String,
    pub remediation: String,
}

/// Why the patterns of an LLM response were rejected.
#[derive(Debug, Clone, Copy, PartialEq, Eq)]
pub enum PatternsError {
    /// The response held no JSON object.
    NoJson,
    /// The response listed no pattern.
    NoPatterns,
    /// None of the listed regexes compiles.
    AllRegexBroken,
}

impl PatternsError {
    /// The error message.
    pub fn message(&self) -> (r: &'static str)
        ensures
            r@ == match *self {
                PatternsError::NoJson => "no JSON object found in LLM response"@,
                PatternsError::NoPatterns => "LLM returned zero patterns"@,
                PatternsError::AllRegexBroken => "all LLM-generated regex patterns failed to compile"@,
            },
    {
        match self {
            PatternsError::NoJson => "no JSON object found in LLM response",
            PatternsError::NoPatterns => "LLM returned zero patterns",
            PatternsError::AllRegexBroken => "all LLM-generated regex patterns failed to compile",
        }
    }
}

/// The system prompt: what the model is asked to produce.
pub const SYSTEM_PROMPT: &'static str = "\
You are a security expert that generates regex patterns for source code scanning.

Given a CVE / vulnerability description, generate 2-4 regex patterns that would \
detect affected usage of the vulnerable package in source code.

Rules:
- Each regex must be valid Rust `regex` crate syntax (no look-behind).
- Patterns should match ONE LINE at a time.
- Aim for a mix of confidence levels: one 'definite' pattern (very specific), \
  one or two 'likely' patterns, and optionally a broad 'possible' pattern.
- Keep regex readable — avoid catastrophic backtracking.
- Remediation should be a concise upgrade/fix instruction.

Respond with ONLY a JSON object (no markdown, no explanation):
{
  \"patterns\": [
    {
      \"description\": \"what this pattern detects\",
      \"regex\": \"the_regex_here\",
      \"confidence\": \"definite|likely|possible\",
      \"remediation\": \"how to fix\"
    }
  ]
}";

/// The default languages of source patterns for an ecosystem.
pub open spec fn ecosystem_languages_spec(ecosystem: Seq<char>) -> Seq<Seq<char>> {
    if ecosystem == "npm"@ {
        seq!["js"@, "ts"@]
    } else if ecosystem == "pip"@ {
        seq!["py"@]
    } else if ecosystem == "go"@ {
        seq!["go"@]
    } else if ecosystem == "cargo"@ {
        seq!["rs"@]
    } else {
        seq!["js"@, "ts"@, "py"@]
    }
}

/// The views of a sequence of strings.
pub open spec fn views(v: Seq<String>) -> Seq<Seq<char>> {
    v.map_values(|s: String| s@)
}

/// The strings joined with newlines.
pub open spec fn join_lines(parts: Seq<Seq<char>>) -> Seq<char>
    decreases parts.len(),
{
    if parts.len() == 0 {
        seq![]
    } else if parts.len() == 1 {
        parts[0]
    } else {
        join_lines(parts.drop_last()) + seq!['\n'] + parts.last()
    }
}

/// The references block of the prompt: one per line, or `None`.
pub open spec fn references_text(refs: Seq<Seq<char>>) -> Seq<char> {
    if refs.len() == 0 {
        "None"@
    } else {
        join_lines(refs)
    }
}

/// The user message describing a problem.
pub open spec fn user_prompt(p: Problem) -> Seq<char> {
    "Generate deep-scan regex patterns for this vulnerability:\n\nID: "@ + p.id@ + "\nTitle: "@
        + p.title@ + "\nSeverity: "@ + p.severity@ + "\nEcosystem: "@ + p.ecosystem@
        + "\nPackage: "@ + p.package@ + "\nAffected range: "@ + p.affected_range@
        + "\nFixed in: "@ + (match p.fixed_in {
        Some(f) => f@,
        None => "unknown"@,
    }) + "\nReferences:\n"@ + references_text(views(p.references@))
}

/// The default languages of source patterns for an ecosystem.
pub fn ecosystem_languages(ecosystem: &str) -> (r: Vec<String>)
    ensures
        views(r@) == ecosystem_languages_spec(ecosystem@),
{
    let r = if str_eq(ecosystem, "npm") {
        vec![owned("js"), owned("ts")]
    } else if str_eq(ecosystem, "pip") {
        vec![owned("py")]
    } else if str_eq(ecosystem, "go") {
        vec![owned("go")]
    } else if str_eq(ecosystem, "cargo") {
        vec![owned("rs")]
    } else {
        vec![owned("js"), owned("ts"), owned("py")]
    };
    assert(views(r@) =~= ecosystem_languages_spec(ecosystem@));
    r
}

/// Appends the text of `s` to `out`.
fn push_str(out: &mut Vec<char>, s: &str)
    ensures
        final(out)@ == old(out)@ + s@,
{
    let c = chars_of(s);
    push_all(out, c.as_slice());
}

/// Build the system and user messages for generating source patterns.
pub fn build_messages(problem: &Problem) -> (r: Vec<ChatMessage>)
    ensures
        r@.len() == 2,
        r@[0].role@ == "system"@,
        r@[0].content@ == SYSTEM_PROMPT@,
        r@[1].role@ == "user"@,
        r@[1].content@ == user_prompt(*problem),
{
    let mut u: Vec<char> = Vec::new();
    push_str(&mut u, "Generate deep-scan regex patterns for this vulnerability:\n\nID: ");
    push_str(&mut u, problem.id.as_str());
    push_str(&mut u, "\nTitle: ");
    push_str(&mut u, problem.title.as_str());
    push_str(&mut u, "\nSeverity: ");
    push_str(&mut u, problem.severity.as_str());
    push_str(&mut u, "\nEcosystem: ");
    push_str(&mut u, problem.ecosystem.as_str());
    push_str(&mut u, "\nPackage: ");
    push_str(&mut u, problem.package.as_str());
    push_str(&mut u, "\nAffected range: ");
    push_str(&mut u, problem.affected_range.as_str());
    push_str(&mut u, "\nFixed in: ");
    match &problem.fixed_in {
        Some(f) => push_str(&mut u, f.as_str()),
        None => push_str(&mut u, "unknown"),
    }
    push_str(&mut u, "\nReferences:\n");
    let ghost head = u@;
    let refs = &problem.references;
    if refs.len() == 0 {
        push_str(&mut u, "None");
    } else {
        let mut k: usize = 0;
        while k < refs.len()
            invariant
                k <= refs@.len(),
                refs@.len() > 0,
                u@ == head + (if k == 0 {
                    seq![]
                } else {
                    join_lines(views(refs@).take(k as int))
                }),
            decreases refs@.len() - k,
        {
            let ghost vs = views(refs@);
            assert(vs.take(k + 1).drop_last() =~= vs.take(k as int));
            assert(vs.take(k + 1).last() == refs@[k as int]@);
            if k > 0 {
                u.push('\n');
            } else {
                assert(vs.take(1) =~= seq![refs@[0]@]);
            }
            push_str(&mut u, refs[k].as_str());
            k = k + 1;
        }
        assert(views(refs@).take(refs@.len() as int) =~= views(refs@));
    }
    assert(u@ =~= user_prompt(*problem));
    let user = string_of(u.as_slice());
    let mut msgs: Vec<ChatMessage> = Vec::new();
    msgs.push(ChatMessage { role: owned("system"), content: owned(SYSTEM_PROMPT) });
    msgs.push(ChatMessage { role: owned("user"), content: user });
    msgs
}

/// A markdown code fence.
pub open spec fn fence() -> Seq<char> {
    seq!['`', '`', '`']
}

/// The last index of `c` in `s`.
pub open spec fn rfind_char(s: Seq<char>, c: char) -> Option<int>
    decreases s.len(),
{
    if s.len() == 0 {
        None
    } else if s.last() == c {
        Some(s.len() - 1)
    } else {
        rfind_char(s.drop_last(), c)
    }
}

/// Where the body of a fenced block starts, counted from just after the
/// opening fence: past the rest of the fence's line (its language tag),
/// or right after the fence when no line break follows.
pub open spec fn body_start(after: Seq<char>) -> int {
    match find(after, seq!['\n']) {
        Some(i) => i + 1,
        None => 0,
    }
}

/// The JSON text inside a markdown fence of the trimmed response, if it
/// has an opening and a closing fence.
pub open spec fn fenced_json(t: Seq<char>) -> Option<Seq<char>> {
    match find(t, fence()) {
        Some(s) => {
            let after = t.subrange(s + 3, t.len() as int);
            let body = after.subrange(body_start(after), after.len() as int);
            match find(body, fence()) {
                Some(e) => Some(trim(body.subrange(0, e))),
                None => None,
            }
        },
        None => None,
    }
}

/// The JSON object in an LLM response, which may be wrapped in markdown
/// fences: the fenced body if there is one, else the text from the first
/// `{` to the last `}`.
pub open spec fn extract_json_spec(raw: Seq<char>) -> Option<Seq<char>> {
    let t = trim(raw);
    match fenced_json(t) {
        Some(j) => Some(j),
        None => braced_json(t),
    }
}

/// The last index of `c` in `s[0..end]`.
fn rfind_in(s: &[char], c: char, end: usize) -> (r: Option<usize>)
    requires
        end <= s@.len(),
    ensures
        r matches Some(i) ==> i < end && rfind_char(s@.subrange(0, end as int), c) == Some(i as int),
        r is None ==> rfind_char(s@.subrange(0, end as int), c) is None,
{
    let mut j = end;
    while j > 0
        invariant
            j <= end <= s@.len(),
            rfind_char(s@.subrange(0, end as int), c) == rfind_char(s@.subrange(0, j as int), c),
        decreases j,
    {
        assert(s@.subrange(0, j as int).drop_last() =~= s@.subrange(0, j - 1));
        if s[j - 1] == c {
            return Some(j - 1);
        }
        j = j - 1;
    }
    None
}

/// The fenced JSON of the trimmed text `tv`, if any.
fn fenced_part(tv: &[char]) -> (r: Option<String>)
    ensures
        match fenced_json(tv@) {
            Some(j) => r matches Some(s) && s@ == j,
            None => r is None,
        },
{
    let n = tv.len();
    assert(tv@.subrange(0, n as int) =~= tv@);
    let fence_chars: Vec<char> = vec!['`', '`', '`'];
    assert(fence_chars@ =~= fence());
    match find_range(tv, fence_chars.as_slice(), 0, n) {
        Some(s) => {
            proof {
                crate::text::lemma_find_from(tv@.subrange(0, n as int), fence(), 0);
            }
            let ghost after = tv@.subrange(s + 3, n as int);
            let nl = find_char(tv, '\n', s + 3, n);
            proof {
                lemma_find_char_range(tv@, '\n', s + 3, n as int, match nl {
                    Some(i) => Some(i as int),
                    None => None,
                });
            }
            let bs = match nl {
                Some(i) => i + 1,
                None => s + 3,
            };
            assert(bs - (s + 3) == body_start(after));
            let ghost body = after.subrange(body_start(after), after.len() as int);
            assert(tv@.subrange(bs as int, n as int) =~= body);
            match find_range(tv, fence_chars.as_slice(), bs, n) {
                Some(e) => {
                    proof {
                        crate::text::lemma_find_from(tv@.subrange(bs as int, n as int), fence(), 0);
                    }
                    let (x, y) = trim_bounds(tv, bs, e);
                    assert(tv@.subrange(bs as int, e as int) =~= body.subrange(0, e - bs));
                    let mut out: Vec<char> = Vec::new();
                    push_range(&mut out, tv, x, y);
                    Some(string_of(out.as_slice()))
                },
                None => None,
            }
        },
        None => None,
    }
}

/// The text of `t` from its first `{` to its last `}`, if the last comes
/// after the first.
pub open spec fn braced_json(t: Seq<char>) -> Option<Seq<char>> {
    match (find(t, seq!['{']), rfind_char(t, '}')) {
        (Some(st), Some(en)) => if en > st {
            Some(t.subrange(st, en + 1))
        } else {
            None
        },
        _ => None,
    }
}

/// The braced JSON of the trimmed text `tv`, if any.
fn braced_part(tv: &[char]) -> (r: Option<String>)
    ensures
        match braced_json(tv@) {
            Some(j) => r matches Some(s) && s@ == j,
            None => r is None,
        },
{
    let n = tv.len();
    assert(tv@.subrange(0, n as int) =~= tv@);
    let open = find_char(tv, '{', 0, n);
    proof {
        lemma_find_char_range(tv@, '{', 0, n as int, match open {
            Some(i) => Some(i as int),
            None => None,
        });
    }
    let close = rfind_in(tv, '}', n);
    match (open, close) {
        (Some(st), Some(en)) => {
            if en > st {
                let mut out: Vec<char> = Vec::new();
                push_range(&mut out, tv, st, en + 1);
                Some(string_of(out.as_slice()))
            } else {
                None
            }
        },
        _ => None,
    }
}

/// Extract a JSON object from text that may contain markdown fences.
pub fn extract_json(raw: &str) -> (r: Option<String>)
    ensures
        match extract_json_spec(raw@) {
            Some(j) => r matches Some(s) && s@ == j,
            None => r is None,
        },
{
    let cs = chars_of(raw);
    let (a, b) = trim_bounds(cs.as_slice(), 0, cs.len());
    assert(cs@.subrange(0, cs@.len() as int) =~= cs@);
    let mut tv: Vec<char> = Vec::new();
    push_range(&mut tv, cs.as_slice(), a, b);
    assert(tv@ == trim(raw@));
    match fenced_part(tv.as_slice()) {
        Some(j) => Some(j),
        None => braced_part(tv.as_slice()),
    }
}

/// The confidence level a label names, in any letter case; anything else
/// counts as possible.
pub open spec fn confidence_of(s: Seq<char>) -> Confidence {
    if lowercase(s) == "definite"@ {
        Confidence::Definite
    } else if lowercase(s) == "likely"@ {
        Confidence::Likely
    } else {
        Confidence::Possible
    }
}

/// The confidence level a label names.
pub fn parse_confidence(s: &str) -> (r: Confidence)
    ensures
        r == confidence_of(s@),
{
    let low = to_lowercase(s);
    if str_eq(low.as_str(), "definite") {
        Confidence::Definite
    } else if str_eq(low.as_str(), "likely") {
        Confidence::Likely
    } else {
        Confidence::Possible
    }
}

/// The indices of `flags[0..n)` that are set.
pub open spec fn flagged(flags: Seq<bool>, n: int) -> Seq<int>
    decreases n,
{
    if n <= 0 {
        seq![]
    } else if flags[n - 1] {
        flagged(flags, n - 1).push(n - 1)
    } else {
        flagged(flags, n - 1)
    }
}

/// Which of the patterns have a regex that compiles.
pub open spec fn compiling(raw: Seq<RawPattern>) -> Seq<bool> {
    Seq::new(raw.len(), |i: int| regex_compiles(raw[i].regex@))
}

/// `p` is the checked form of `raw`.
pub open spec fn checked_pattern(p: SourcePattern, raw: RawPattern) -> bool {
    &&& p.description@ == raw.description@
    &&& p.regex@ == raw.regex@
    &&& p.confidence == confidence_of(raw.confidence@)
    &&& p.remediation@ == raw.remediation@
}

/// What checking gives for the patterns `raw`, of which those flagged in
/// `keep` are kept: no patterns or none kept is an error, else the kept
/// ones with the default languages of the ecosystem.
pub open spec fn selection_ok(raw: Seq<RawPattern>, keep: Seq<bool>, ecosystem: Seq<char>, r: Result<SourcePatternSet, PatternsError>) -> bool {
    let idx = flagged(keep, raw.len() as int);
    &&& raw.len() == 0 ==> r == Err::<SourcePatternSet, PatternsError>(PatternsError::NoPatterns)
    &&& raw.len() > 0 && idx.len() == 0 ==> r == Err::<SourcePatternSet, PatternsError>(
        PatternsError::AllRegexBroken,
    )
    &&& r matches Ok(set) ==> {
        &&& raw.len() > 0
        &&& idx.len() > 0
        &&& views(set.languages@) == ecosystem_languages_spec(ecosystem)
        &&& set.patterns@.len() == idx.len()
        &&& forall|i: int| 0 <= i < idx.len() ==> checked_pattern(#[trigger] set.patterns@[i], raw[idx[i]])
    }
    &&& r is Err ==> raw.len() == 0 || idx.len() == 0
}

/// Keep the patterns flagged in `compiles` (one flag per pattern, set when
/// its regex compiles), with their confidence labels read; the set gets
/// the default languages of the ecosystem. Rejected when there are no
/// patterns, or none is kept.
pub fn select_patterns(raw: &[RawPattern], compiles: &[bool], ecosystem: &str) -> (r: Result<SourcePatternSet, PatternsError>)
    requires
        compiles@.len() == raw@.len(),
    ensures
        selection_ok(raw@, compiles@, ecosystem@, r),
{
    if raw.len() == 0 {
        return Err(PatternsError::NoPatterns);
    }
    let mut validated: Vec<SourcePattern> = Vec::new();
    let mut k: usize = 0;
    while k < raw.len()
        invariant
            k <= raw@.len(),
            compiles@.len() == raw@.len(),
            validated@.len() == flagged(compiles@, k as int).len(),
            forall|i: int|
                0 <= i < validated@.len() ==> checked_pattern(
                    #[trigger] validated@[i],
                    raw@[flagged(compiles@, k as int)[i]],
                ),
        decreases raw@.len() - k,
    {
        if compiles[k] {
            let rp = &raw[k];
            validated.push(
                SourcePattern {
                    description: owned(rp.description.as_str()),
                    regex: owned(rp.regex.as_str()),
                    confidence: parse_confidence(rp.confidence.as_str()),
                    remediation: owned(rp.remediation.as_str()),
                },
            );
        }
        k = k + 1;
    }
    if validated.len() == 0 {
        return Err(PatternsError::AllRegexBroken);
    }
    Ok(SourcePatternSet { languages: ecosystem_languages(ecosystem), patterns: validated })
}

/// Check the patterns of an LLM response: those whose regex does not
/// compile are dropped; the set gets the default languages of the
/// ecosystem. Rejected when there are no patterns, or none compiles.
pub fn validate_patterns(raw: &[RawPattern], ecosystem: &str) -> (r: Result<SourcePatternSet, PatternsError>)
    ensures
        selection_ok(raw@, compiling(raw@), ecosystem@, r),
{
    let mut compiles: Vec<bool> = Vec::new();
    let mut k: usize = 0;
    while k < raw.len()
        invariant
            k <= raw@.len(),
            compiles@ == compiling(raw@).take(k as int),
        decreases raw@.len() - k,
    {
        let ok = compile_regex(raw[k].regex.as_str()).is_some();
        compiles.push(ok);
        assert(compiles@ =~= compiling(raw@).take(k + 1));
        k = k + 1;
    }
    assert(compiles@ =~= compiling(raw@));
    select_patterns(raw, compiles.as_slice(), ecosystem)
}

} // verus!
