//! Version rewriting for `package.json`.

use vstd::prelude::*;

use crate::text::{
    char_is_ascii_digit, chars_of, find_from, find_in, is_ascii_digit, lemma_find_from, lemma_trim_start,
    matches_at, occurs_at, push_all, push_range, skip_ws, string_of, ws_prefix_len,
};

verus! {

/// Index of the first ASCII digit in `s` (its length if there is none).
pub open spec fn first_digit(s: Seq<char>) -> int
    decreases s.len(),
{
    if s.len() == 0 {
        0
    } else if is_ascii_digit(s[0]) {
        0
    } else {
        1 + first_digit(s.drop_first())
    }
}

/// The range operator in front of a version spec (`^`, `~`, `>=`, ...):
/// everything before the first ASCII digit.
pub open spec fn version_prefix(s: Seq<char>) -> Seq<char> {
    s.subrange(0, first_digit(s))
}

/// Facts about the first digit of a version spec.
pub proof fn lemma_first_digit(s: Seq<char>)
    ensures
        0 <= first_digit(s) <= s.len(),
        first_digit(s) < s.len() ==> is_ascii_digit(s[first_digit(s)]),
        forall|k: int| 0 <= k < first_digit(s) ==> !is_ascii_digit(#[trigger] s[k]),
    decreases s.len(),
{
    if s.len() > 0 && !is_ascii_digit(s[0]) {
        lemma_first_digit(s.drop_first());
        assert forall|k: int| 0 <= k < first_digit(s) implies !is_ascii_digit(#[trigger] s[k]) by {
            if k > 0 {
                assert(s[k] == s.drop_first()[k - 1]);
            }
        }
    }
}

/// Extract the semver prefix (`^`, `~`, `>=`, etc.) from a version spec.
pub fn extract_prefix(spec: &str) -> (r: String)
    ensures
        r@ == version_prefix(spec@),
{
    let v = chars_of(spec);
    let n = prefix_len(v.as_slice(), 0, v.len());
    assert(v@.subrange(0, v@.len() as int) =~= v@);
    string_of(&v.as_slice()[0..n])
}

/// Length of the version prefix of `s[start..end]`.
pub fn prefix_len(s: &[char], start: usize, end: usize) -> (r: usize)
    requires
        start <= end <= s@.len(),
    ensures
        r == first_digit(s@.subrange(start as int, end as int)),
        start + r <= end,
{
    let ghost full = s@.subrange(start as int, end as int);
    let mut i = start;
    while i < end && !char_is_ascii_digit(s[i])
        invariant
            start <= i <= end <= s@.len(),
            full == s@.subrange(start as int, end as int),
            first_digit(full) == (i - start) + first_digit(s@.subrange(i as int, end as int)),
        decreases end - i,
    {
        assert(s@.subrange(i as int, end as int).drop_first() =~= s@.subrange(
            i + 1,
            end as int,
        ));
        i = i + 1;
    }
    i - start
}

/// What follows a `"name"` key found at `k`: either a quoted version value
/// (`(true, open, close)`, the positions of its two quotes) reached through
/// optional whitespace, a colon and optional whitespace, or no value
/// (`(false, to, 0)`), the scan then resuming at `to`, just past the
/// whitespace and colon that did follow the key.
pub open spec fn key_tail(c: Seq<char>, k: int) -> (bool, int, int) {
    let colon = k + ws_prefix_len(c.subrange(k, c.len() as int));
    if colon < c.len() && c[colon] == ':' {
        let q = colon + 1 + ws_prefix_len(c.subrange(colon + 1, c.len() as int));
        if q < c.len() && c[q] == '"' {
            match find_from(c, seq!['"'], q + 1) {
                Some(close) => (true, q, close),
                None => (false, q, 0),
            }
        } else {
            (false, q, 0)
        }
    } else {
        (false, k, 0)
    }
}

/// The text produced from position `pos` onwards: every `"name": "spec"`
/// entry has its version value replaced by `prefix(spec) ++ new`, and all
/// other characters are copied.
pub open spec fn json_rewrite_from(c: Seq<char>, needle: Seq<char>, new: Seq<char>, pos: int) -> Seq<
    char,
>
    decreases c.len() - pos,
{
    if pos < 0 || pos >= c.len() || needle.len() == 0 {
        seq![]
    } else if occurs_at(c, needle, pos) {
        let k = pos + needle.len();
        let t = key_tail(c, k);
        if t.0 && k <= t.1 < t.2 < c.len() {
            needle + c.subrange(k, t.1 + 1) + version_prefix(c.subrange(t.1 + 1, t.2)) + new
                + seq!['"'] + json_rewrite_from(c, needle, new, t.2 + 1)
        } else if !t.0 && k <= t.1 <= c.len() {
            needle + c.subrange(k, t.1) + json_rewrite_from(c, needle, new, t.1)
        } else {
            seq![]
        }
    } else {
        seq![c[pos]] + json_rewrite_from(c, needle, new, pos + 1)
    }
}

/// Whether some entry is rewritten at or after `pos`.
pub open spec fn json_changed_from(c: Seq<char>, needle: Seq<char>, pos: int) -> bool
    decreases c.len() - pos,
{
    if pos < 0 || pos >= c.len() || needle.len() == 0 {
        false
    } else if occurs_at(c, needle, pos) {
        let k = pos + needle.len();
        let t = key_tail(c, k);
        if t.0 && k <= t.1 < t.2 < c.len() {
            true
        } else if !t.0 && k <= t.1 <= c.len() {
            json_changed_from(c, needle, t.1)
        } else {
            false
        }
    } else {
        json_changed_from(c, needle, pos + 1)
    }
}

/// The quoted key `"name"`.
pub open spec fn quoted(name: Seq<char>) -> Seq<char> {
    seq!['"'] + name + seq!['"']
}

/// The text after a quoted key stays within the content.
pub proof fn lemma_key_tail_bounds(c: Seq<char>, k: int)
    requires
        0 <= k <= c.len(),
    ensures
        key_tail(c, k).0 ==> k <= key_tail(c, k).1 < key_tail(c, k).2 < c.len(),
        !key_tail(c, k).0 ==> k <= key_tail(c, k).1 <= c.len(),
{
    lemma_trim_start(c.subrange(k, c.len() as int));
    let colon = k + ws_prefix_len(c.subrange(k, c.len() as int));
    if colon < c.len() && c[colon] == ':' {
        lemma_trim_start(c.subrange(colon + 1, c.len() as int));
        let q = colon + 1 + ws_prefix_len(c.subrange(colon + 1, c.len() as int));
        if q < c.len() && c[q] == '"' {
            lemma_find_from(c, seq!['"'], q + 1);
        }
    }
}

/// Computes `key_tail(c, k)` over the characters of `c`.
fn exec_key_tail(c: &[char], k: usize) -> (r: (bool, usize, usize))
    requires
        k <= c@.len(),
    ensures
        r.0 == key_tail(c@, k as int).0,
        r.1 == key_tail(c@, k as int).1,
        r.0 ==> r.2 == key_tail(c@, k as int).2,
        r.0 ==> k <= r.1 < r.2 < c@.len(),
        !r.0 ==> k <= r.1 <= c@.len(),
{
    proof {
        lemma_key_tail_bounds(c@, k as int);
    }
    let colon = skip_ws(c, k, c.len());
    if colon < c.len() && c[colon] == ':' {
        let q = skip_ws(c, colon + 1, c.len());
        if q < c.len() && c[q] == '"' {
            let quote = ['"'];
            let found = find_in(c, quote.as_slice(), q + 1, c.len());
            assert(c@.subrange(0, c@.len() as int) =~= c@);
            assert(quote@ =~= seq!['"']);
            match found {
                Some(close) => (true, q, close),
                None => (false, q, 0),
            }
        } else {
            (false, q, 0)
        }
    } else {
        (false, k, 0)
    }
}

proof fn lemma_json_step(c: Seq<char>, n: Seq<char>, new: Seq<char>, pos: int)
    requires
        0 <= pos < c.len(),
        n.len() > 0,
    ensures
        !occurs_at(c, n, pos) ==> json_rewrite_from(c, n, new, pos) == seq![c[pos]]
            + json_rewrite_from(c, n, new, pos + 1) && json_changed_from(c, n, pos)
            == json_changed_from(c, n, pos + 1),
        occurs_at(c, n, pos) && key_tail(c, pos + n.len()).0 ==> {
            let k = pos + n.len();
            let t = key_tail(c, k);
            &&& json_rewrite_from(c, n, new, pos) == n + c.subrange(k, t.1 + 1) + version_prefix(
                c.subrange(t.1 + 1, t.2),
            ) + new + seq!['"'] + json_rewrite_from(c, n, new, t.2 + 1)
            &&& json_changed_from(c, n, pos)
        },
        occurs_at(c, n, pos) && !key_tail(c, pos + n.len()).0 ==> {
            let k = pos + n.len();
            let t = key_tail(c, k);
            &&& json_rewrite_from(c, n, new, pos) == n + c.subrange(k, t.1)
                + json_rewrite_from(c, n, new, t.1)
            &&& json_changed_from(c, n, pos) == json_changed_from(c, n, t.1)
        },
{
    if occurs_at(c, n, pos) {
        lemma_key_tail_bounds(c, pos + n.len());
    }
}

/// When no entry for the package is rewritten, the text comes back unchanged.
pub proof fn lemma_json_unchanged(c: Seq<char>, n: Seq<char>, new: Seq<char>, pos: int)
    requires
        0 <= pos <= c.len(),
        n.len() > 0,
        !json_changed_from(c, n, pos),
    ensures
        json_rewrite_from(c, n, new, pos) == c.subrange(pos, c.len() as int),
    decreases c.len() - pos,
{
    if pos == c.len() {
        assert(c.subrange(pos, c.len() as int) =~= Seq::<char>::empty());
    } else {
        lemma_json_step(c, n, new, pos);
        if occurs_at(c, n, pos) {
            let k = pos + n.len();
            let t = key_tail(c, k);
            lemma_key_tail_bounds(c, k);
            lemma_json_unchanged(c, n, new, t.1);
            assert(c.subrange(pos, k) == n);
            assert(n + c.subrange(k, t.1) + c.subrange(t.1, c.len() as int) =~= c.subrange(
                pos,
                c.len() as int,
            ));
        } else {
            lemma_json_unchanged(c, n, new, pos + 1);
            assert(seq![c[pos]] + c.subrange(pos + 1, c.len() as int) =~= c.subrange(
                pos,
                c.len() as int,
            ));
        }
    }
}

/// `package.json` text in which the package has no `"name": "version"`
/// entry is left exactly as it was.
pub proof fn law_json_untouched_without_entry(content: Seq<char>, name: Seq<char>, new: Seq<char>)
    requires
        !json_changed_from(content, quoted(name), 0),
    ensures
        json_rewrite_from(content, quoted(name), new, 0) == content,
{
    lemma_json_unchanged(content, quoted(name), new, 0);
    assert(content.subrange(0, content.len() as int) =~= content);
}

/// Text-based replacement of a dependency version in `package.json`.
/// Every `"<package_name>": "<spec>"` entry (in `dependencies`,
/// `devDependencies` or anywhere else) gets the version value
/// `prefix(spec) ++ new_version`, keeping the `^`/`~`/`>=` prefix; every
/// other character is copied, so the formatting is preserved.
/// Returns the new text and whether any entry was rewritten.
pub fn replace_json_dep_version(content: &str, package_name: &str, new_version: &str) -> (r: (
    String,
    bool,
))
    ensures
        r.0@ == json_rewrite_from(content@, quoted(package_name@), new_version@, 0),
        r.1 == json_changed_from(content@, quoted(package_name@), 0),
{
    let c = chars_of(content);
    let name = chars_of(package_name);
    let newv = chars_of(new_version);
    let mut needle: Vec<char> = Vec::new();
    needle.push('"');
    push_all(&mut needle, name.as_slice());
    needle.push('"');
    assert(needle@ =~= quoted(package_name@));
    let cs = c.as_slice();
    let ghost n = needle@;
    let ghost full = json_rewrite_from(c@, n, newv@, 0);
    let ghost any = json_changed_from(c@, n, 0);
    let mut out: Vec<char> = Vec::new();
    let mut changed = false;
    let mut pos: usize = 0;
    while pos < cs.len()
        invariant
            cs@ == c@,
            c@ == content@,
            n == needle@,
            n.len() >= 2,
            pos <= cs@.len(),
            full == json_rewrite_from(c@, n, newv@, 0),
            any == json_changed_from(c@, n, 0),
            full == out@ + json_rewrite_from(c@, n, newv@, pos as int),
            any == (changed || json_changed_from(c@, n, pos as int)),
        decreases cs@.len() - pos,
    {
        proof {
            assert(cs@.subrange(0, cs@.len() as int) =~= cs@);
            lemma_json_step(c@, n, newv@, pos as int);
        }
        if matches_at(cs, needle.as_slice(), pos, cs.len()) {
            let k = pos + needle.len();
            push_all(&mut out, needle.as_slice());
            let t = exec_key_tail(cs, k);
            if t.0 {
                push_range(&mut out, cs, k, t.1 + 1);
                let plen = prefix_len(cs, t.1 + 1, t.2);
                push_range(&mut out, cs, t.1 + 1, t.1 + 1 + plen);
                assert(cs@.subrange(t.1 + 1, t.1 + 1 + plen) =~= version_prefix(
                    cs@.subrange(t.1 + 1, t.2 as int),
                ));
                push_all(&mut out, newv.as_slice());
                out.push('"');
                changed = true;
                pos = t.2 + 1;
            } else {
                push_range(&mut out, cs, k, t.1);
                pos = t.1;
            }
        } else {
            out.push(cs[pos]);
            pos = pos + 1;
        }
    }
    assert(json_rewrite_from(c@, n, newv@, pos as int) == Seq::<char>::empty());
    assert(out@ =~= full);
    (string_of(out.as_slice()), changed)
}

} // verus!
