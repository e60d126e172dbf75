//! Character-sequence primitives shared by the parsers and rewriters.
//!
//! Every string in this crate is reasoned about as its `Seq<char>` view.
//! The spec functions here state, over those views, what the `str`
//! methods the manifests are processed with (`trim`, `find`, `lines`,
//! `split`, `starts_with`, `replacen(.., 1)`) compute.

use vstd::prelude::*;

verus! {

/// Unicode `White_Space`, the set `char::is_whitespace` tests.
pub open spec fn is_ws(c: char) -> bool {
    ||| ('\u{9}' <= c && c <= '\u{d}')
    ||| c == ' '
    ||| c == '\u{85}'
    ||| c == '\u{a0}'
    ||| c == '\u{1680}'
    ||| ('\u{2000}' <= c && c <= '\u{200a}')
    ||| c == '\u{2028}'
    ||| c == '\u{2029}'
    ||| c == '\u{202f}'
    ||| c == '\u{205f}'
    ||| c == '\u{3000}'
}

/// Whether `c` is Unicode white space.
pub fn char_is_ws(c: char) -> (r: bool)
    ensures
        r == is_ws(c),
{
    ('\u{9}' <= c && c <= '\u{d}') || c == ' ' || c == '\u{85}' || c == '\u{a0}' || c == '\u{1680}'
        || ('\u{2000}' <= c && c <= '\u{200a}') || c == '\u{2028}' || c == '\u{2029}' || c
        == '\u{202f}' || c == '\u{205f}' || c == '\u{3000}'
}

/// Whether `c` is an ASCII digit.
pub open spec fn is_ascii_digit(c: char) -> bool {
    '0' <= c && c <= '9'
}

/// Whether `c` is an ASCII letter or digit.
pub open spec fn is_ascii_alnum(c: char) -> bool {
    ||| is_ascii_digit(c)
    ||| ('a' <= c && c <= 'z')
    ||| ('A' <= c && c <= 'Z')
}

/// Whether `c` is an ASCII digit.
pub fn char_is_ascii_digit(c: char) -> (r: bool)
    ensures
        r == is_ascii_digit(c),
{
    '0' <= c && c <= '9'
}

/// Whether `c` is an ASCII letter or digit.
pub fn char_is_ascii_alnum(c: char) -> (r: bool)
    ensures
        r == is_ascii_alnum(c),
{
    ('0' <= c && c <= '9') || ('a' <= c && c <= 'z') || ('A' <= c && c <= 'Z')
}

// ── trimming ──────────────────────────────────────────────────────────

/// `str::trim_start`: drops leading whitespace.
pub open spec fn trim_start(s: Seq<char>) -> Seq<char>
    decreases s.len(),
{
    if s.len() > 0 && is_ws(s[0]) {
        trim_start(s.drop_first())
    } else {
        s
    }
}

/// `str::trim_end`: drops trailing whitespace.
pub open spec fn trim_end(s: Seq<char>) -> Seq<char>
    decreases s.len(),
{
    if s.len() > 0 && is_ws(s.last()) {
        trim_end(s.drop_last())
    } else {
        s
    }
}

/// `str::trim`.
pub open spec fn trim(s: Seq<char>) -> Seq<char> {
    trim_end(trim_start(s))
}

/// Number of leading whitespace characters.
pub open spec fn ws_prefix_len(s: Seq<char>) -> int
    decreases s.len(),
{
    if s.len() > 0 && is_ws(s[0]) {
        1 + ws_prefix_len(s.drop_first())
    } else {
        0
    }
}

/// Number of trailing whitespace characters.
pub open spec fn ws_suffix_len(s: Seq<char>) -> int
    decreases s.len(),
{
    if s.len() > 0 && is_ws(s.last()) {
        1 + ws_suffix_len(s.drop_last())
    } else {
        0
    }
}

/// `trim_start` drops exactly the leading white space.
pub proof fn lemma_trim_start(s: Seq<char>)
    ensures
        0 <= ws_prefix_len(s) <= s.len(),
        trim_start(s) == s.subrange(ws_prefix_len(s), s.len() as int),
        forall|k: int| 0 <= k < ws_prefix_len(s) ==> is_ws(#[trigger] s[k]),
        ws_prefix_len(s) < s.len() ==> !is_ws(s[ws_prefix_len(s)]),
    decreases s.len(),
{
    if s.len() > 0 && is_ws(s[0]) {
        lemma_trim_start(s.drop_first());
        assert(s.drop_first().subrange(ws_prefix_len(s.drop_first()), s.drop_first().len() as int)
            =~= s.subrange(ws_prefix_len(s), s.len() as int));
        assert forall|k: int| 0 <= k < ws_prefix_len(s) implies is_ws(#[trigger] s[k]) by {
            if k > 0 {
                assert(s[k] == s.drop_first()[k - 1]);
            }
        }
        if ws_prefix_len(s) < s.len() {
            assert(s[ws_prefix_len(s)] == s.drop_first()[ws_prefix_len(s.drop_first())]);
        }
    } else {
        assert(s.subrange(0, s.len() as int) =~= s);
    }
}

/// `trim_end` drops exactly the trailing white space.
pub proof fn lemma_trim_end(s: Seq<char>)
    ensures
        0 <= ws_suffix_len(s) <= s.len(),
        trim_end(s) == s.subrange(0, s.len() - ws_suffix_len(s)),
        forall|k: int| s.len() - ws_suffix_len(s) <= k < s.len() ==> is_ws(#[trigger] s[k]),
        ws_suffix_len(s) < s.len() ==> !is_ws(s[s.len() - ws_suffix_len(s) - 1]),
    decreases s.len(),
{
    if s.len() > 0 && is_ws(s.last()) {
        lemma_trim_end(s.drop_last());
        assert(s.drop_last().subrange(0, s.drop_last().len() - ws_suffix_len(s.drop_last()))
            =~= s.subrange(0, s.len() - ws_suffix_len(s)));
        assert forall|k: int| s.len() - ws_suffix_len(s) <= k < s.len() implies is_ws(
            #[trigger] s[k],
        ) by {
            if k < s.len() - 1 {
                assert(s[k] == s.drop_last()[k]);
            }
        }
        if ws_suffix_len(s) < s.len() {
            assert(s[s.len() - ws_suffix_len(s) - 1] == s.drop_last()[s.drop_last().len()
                - ws_suffix_len(s.drop_last()) - 1]);
        }
    } else {
        assert(s.subrange(0, s.len() as int) =~= s);
    }
}

/// Index of the first non-whitespace character at or after `start` in `s[start..end]`.
pub fn skip_ws(s: &[char], start: usize, end: usize) -> (r: usize)
    requires
        start <= end <= s@.len(),
    ensures
        start <= r <= end,
        r - start == ws_prefix_len(s@.subrange(start as int, end as int)),
        s@.subrange(r as int, end as int) == trim_start(s@.subrange(start as int, end as int)),
{
    let ghost full = s@.subrange(start as int, end as int);
    let mut i = start;
    while i < end && char_is_ws(s[i])
        invariant
            start <= i <= end <= s@.len(),
            full == s@.subrange(start as int, end as int),
            ws_prefix_len(full) == (i - start) + ws_prefix_len(s@.subrange(i as int, end as int)),
            trim_start(full) == trim_start(s@.subrange(i as int, end as int)),
        decreases end - i,
    {
        assert(s@.subrange(i as int, end as int).drop_first() =~= s@.subrange(
            i + 1,
            end as int,
        ));
        i = i + 1;
    }
    proof {
        lemma_trim_start(s@.subrange(i as int, end as int));
    }
    i
}

/// End index (exclusive) after dropping the trailing whitespace of `s[start..end]`.
pub fn skip_ws_back(s: &[char], start: usize, end: usize) -> (r: usize)
    requires
        start <= end <= s@.len(),
    ensures
        start <= r <= end,
        end - r == ws_suffix_len(s@.subrange(start as int, end as int)),
        s@.subrange(start as int, r as int) == trim_end(s@.subrange(start as int, end as int)),
{
    let ghost full = s@.subrange(start as int, end as int);
    let mut j = end;
    while j > start && char_is_ws(s[j - 1])
        invariant
            start <= j <= end <= s@.len(),
            full == s@.subrange(start as int, end as int),
            ws_suffix_len(full) == (end - j) + ws_suffix_len(s@.subrange(start as int, j as int)),
            trim_end(full) == trim_end(s@.subrange(start as int, j as int)),
        decreases j - start,
    {
        assert(s@.subrange(start as int, j as int).drop_last() =~= s@.subrange(
            start as int,
            j - 1,
        ));
        j = j - 1;
    }
    proof {
        lemma_trim_end(s@.subrange(start as int, j as int));
    }
    j
}

/// Bounds of `trim(s[start..end])` inside `s`.
pub fn trim_bounds(s: &[char], start: usize, end: usize) -> (r: (usize, usize))
    requires
        start <= end <= s@.len(),
    ensures
        start <= r.0 <= r.1 <= end,
        s@.subrange(r.0 as int, r.1 as int) == trim(s@.subrange(start as int, end as int)),
{
    let a = skip_ws(s, start, end);
    let b = skip_ws_back(s, a, end);
    (a, b)
}

// ── searching ─────────────────────────────────────────────────────────

/// `needle` occurs in `hay` at index `i`.
pub open spec fn occurs_at(hay: Seq<char>, needle: Seq<char>, i: int) -> bool {
    0 <= i && i + needle.len() <= hay.len() && hay.subrange(i, i + needle.len()) == needle
}

/// First occurrence of `needle` in `hay` at or after `i`.
pub open spec fn find_from(hay: Seq<char>, needle: Seq<char>, i: int) -> Option<int>
    decreases hay.len() + 1 - i,
{
    if i < 0 || i + needle.len() > hay.len() {
        None
    } else if hay.subrange(i, i + needle.len()) == needle {
        Some(i)
    } else {
        find_from(hay, needle, i + 1)
    }
}

/// `str::find` with a string pattern, over characters.
pub open spec fn find(hay: Seq<char>, needle: Seq<char>) -> Option<int> {
    find_from(hay, needle, 0)
}

/// What a search from `i` finds: the first occurrence at or after `i`.
pub proof fn lemma_find_from(hay: Seq<char>, needle: Seq<char>, i: int)
    requires
        0 <= i,
    ensures
        find_from(hay, needle, i) matches Some(k) ==> i <= k && occurs_at(hay, needle, k) && (
        forall|j: int| i <= j < k ==> !occurs_at(hay, needle, j)),
        find_from(hay, needle, i) is None ==> forall|j: int| i <= j ==> !occurs_at(hay, needle, j),
    decreases hay.len() + 1 - i,
{
    if i + needle.len() > hay.len() {
    } else if hay.subrange(i, i + needle.len()) == needle {
    } else {
        lemma_find_from(hay, needle, i + 1);
    }
}

/// A search in `s[0..end]` from `i` is a search in `s[from..end]` from `i - from`.
pub proof fn lemma_find_shift(s: Seq<char>, n: Seq<char>, from: int, end: int, i: int)
    requires
        0 <= from <= i,
        from <= end <= s.len(),
    ensures
        find_from(s.subrange(0, end), n, i) == (match find_from(s.subrange(from, end), n, i - from) {
            Some(k) => Some(k + from),
            None => None::<int>,
        }),
    decreases end + 1 - i,
{
    let h = s.subrange(0, end);
    let g = s.subrange(from, end);
    if i + n.len() > end {
    } else {
        assert(h.subrange(i, i + n.len()) =~= g.subrange(i - from, i - from + n.len()));
        if h.subrange(i, i + n.len()) != n {
            lemma_find_shift(s, n, from, end, i + 1);
        }
    }
}

/// Exec-side search of `s[from..end]`, stated as `find` on that range.
pub fn find_range(s: &[char], n: &[char], from: usize, end: usize) -> (r: Option<usize>)
    requires
        from <= end <= s@.len(),
    ensures
        r matches Some(k) ==> from <= k && find(s@.subrange(from as int, end as int), n@) == Some(
            k - from,
        ),
        r is None ==> find(s@.subrange(from as int, end as int), n@) is None,
{
    let r = find_in(s, n, from, end);
    proof {
        lemma_find_shift(s@, n@, from as int, end as int, from as int);
        lemma_find_from(s@.subrange(0, end as int), n@, from as int);
    }
    r
}

/// `needle` at `i` in `s[0..end]` is `s[i..end]` starting with `needle`.
pub proof fn lemma_occurs_starts(s: Seq<char>, n: Seq<char>, i: int, end: int)
    requires
        0 <= i <= end <= s.len(),
    ensures
        occurs_at(s.subrange(0, end), n, i) == starts_with(s.subrange(i, end), n),
{
    if i + n.len() <= end {
        assert(s.subrange(0, end).subrange(i, i + n.len()) =~= s.subrange(i, end).subrange(
            0,
            n.len() as int,
        ));
    }
}

/// Whether `s[start..end]` starts with `p`.
pub fn starts_with_at(s: &[char], p: &[char], start: usize, end: usize) -> (r: bool)
    requires
        start <= end <= s@.len(),
    ensures
        r == starts_with(s@.subrange(start as int, end as int), p@),
{
    proof {
        lemma_occurs_starts(s@, p@, start as int, end as int);
    }
    matches_at(s, p, start, end)
}

/// Whether `s` starts with `p`.
pub open spec fn starts_with(s: Seq<char>, p: Seq<char>) -> bool {
    p.len() <= s.len() && s.subrange(0, p.len() as int) == p
}

/// Whether `s` ends with `p`.
pub open spec fn ends_with(s: Seq<char>, p: Seq<char>) -> bool {
    p.len() <= s.len() && s.subrange(s.len() - p.len(), s.len() as int) == p
}

/// Whether `s` ends with `p`.
pub fn ends_with_exec(s: &[char], p: &[char]) -> (r: bool)
    ensures
        r == ends_with(s@, p@),
{
    if p.len() > s.len() {
        return false;
    }
    let st = s.len() - p.len();
    let mut i: usize = 0;
    while i < p.len()
        invariant
            i <= p@.len(),
            st + p@.len() == s@.len(),
            s@.len() == s.len(),
            p@.len() == p.len(),
            forall|k: int| 0 <= k < i ==> s@[st + k] == p@[k],
        decreases p@.len() - i,
    {
        if s[st + i] != p[i] {
            assert(s@.subrange(st as int, s@.len() as int)[i as int] != p@[i as int]);
            return false;
        }
        i = i + 1;
    }
    assert(s@.subrange(st as int, s@.len() as int) =~= p@);
    true
}

/// The view of an optional string.
pub open spec fn opt_view(o: Option<String>) -> Option<Seq<char>> {
    match o {
        Some(s) => Some(s@),
        None => None,
    }
}

/// Whether `needle` occurs in `hay[start..end]` at absolute index `i`.
pub fn matches_at(hay: &[char], needle: &[char], i: usize, end: usize) -> (r: bool)
    requires
        i <= end <= hay@.len(),
    ensures
        r == occurs_at(hay@.subrange(0, end as int), needle@, i as int),
{
    if needle.len() > end - i {
        return false;
    }
    let mut k: usize = 0;
    while k < needle.len()
        invariant
            i + needle@.len() <= end <= hay@.len(),
            k <= needle@.len(),
            forall|m: int| 0 <= m < k ==> hay@[i + m] == needle@[m],
        decreases needle@.len() - k,
    {
        if hay[i + k] != needle[k] {
            assert(hay@.subrange(0, end as int).subrange(i as int, i + needle@.len())[k as int]
                != needle@[k as int]);
            return false;
        }
        k = k + 1;
    }
    assert(hay@.subrange(0, end as int).subrange(i as int, i + needle@.len()) =~= needle@);
    true
}

/// First occurrence of `needle` in `hay[..end]` at or after `from`.
pub fn find_in(hay: &[char], needle: &[char], from: usize, end: usize) -> (r: Option<usize>)
    requires
        from <= end <= hay@.len(),
    ensures
        r matches Some(k) ==> find_from(hay@.subrange(0, end as int), needle@, from as int) == Some(
            k as int,
        ),
        r is None ==> find_from(hay@.subrange(0, end as int), needle@, from as int) is None,
{
    let ghost h = hay@.subrange(0, end as int);
    let mut i = from;
    while i <= end
        invariant
            from <= i,
            end <= hay@.len(),
            h == hay@.subrange(0, end as int),
            find_from(h, needle@, from as int) == find_from(h, needle@, i as int),
        decreases end + 1 - i,
    {
        if needle.len() > end - i {
            return None;
        }
        if matches_at(hay, needle, i, end) {
            return Some(i);
        }
        if i == end {
            assert(find_from(h, needle@, i + 1) is None);
            return None;
        }
        i = i + 1;
    }
    None
}

// ── splitting and joining ─────────────────────────────────────────────

/// The part of `s` before the first occurrence of `sep` (all of `s` if none):
/// `s.split(sep).next().unwrap_or("")`.
pub open spec fn before(s: Seq<char>, sep: Seq<char>) -> Seq<char> {
    match find(s, sep) {
        Some(i) => s.subrange(0, i),
        None => s,
    }
}

/// `str::split` with a one-character separator.
pub open spec fn split(s: Seq<char>, c: char) -> Seq<Seq<char>>
    decreases s.len(),
{
    match find(s, seq![c]) {
        Some(i) => if 0 <= i < s.len() {
            seq![s.subrange(0, i)] + split(s.subrange(i + 1, s.len() as int), c)
        } else {
            seq![s]
        },
        None => seq![s],
    }
}

/// Drops one trailing `'\r'`, as `str::lines` does before a `'\n'`.
pub open spec fn strip_cr(l: Seq<char>) -> Seq<char> {
    if l.len() > 0 && l.last() == '\r' {
        l.drop_last()
    } else {
        l
    }
}

/// `str::lines`: split at `'\n'` (dropping a `'\r'` before it); a final
/// line ending adds no empty line, and the empty string has no lines.
pub open spec fn lines(s: Seq<char>) -> Seq<Seq<char>>
    decreases s.len(),
{
    if s.len() == 0 {
        seq![]
    } else {
        match find(s, seq!['\n']) {
            Some(i) => if 0 <= i < s.len() {
                seq![strip_cr(s.subrange(0, i))] + lines(s.subrange(i + 1, s.len() as int))
            } else {
                seq![s]
            },
            None => seq![s],
        }
    }
}

/// `[T]::join` on strings.
pub open spec fn join(parts: Seq<Seq<char>>, sep: Seq<char>) -> Seq<char>
    decreases parts.len(),
{
    if parts.len() == 0 {
        seq![]
    } else if parts.len() == 1 {
        parts[0]
    } else {
        join(parts.drop_last(), sep) + sep + parts.last()
    }
}

/// `str::replacen(old, new, 1)`.
pub open spec fn replace_first(s: Seq<char>, old: Seq<char>, new: Seq<char>) -> Seq<char> {
    match find(s, old) {
        Some(i) => s.subrange(0, i) + new + s.subrange(i + old.len(), s.len() as int),
        None => s,
    }
}

/// A search for one character finds its first occurrence.
pub proof fn lemma_find_single(s: Seq<char>, c: char)
    ensures
        find(s, seq![c]) matches Some(i) ==> 0 <= i < s.len() && s[i] == c && forall|j: int|
            0 <= j < i ==> s[j] != c,
        find(s, seq![c]) is None ==> forall|j: int| 0 <= j < s.len() ==> s[j] != c,
{
    lemma_find_from(s, seq![c], 0);
    match find(s, seq![c]) {
        Some(i) => {
            assert(s.subrange(i, i + 1)[0] == s[i]);
            assert forall|j: int| 0 <= j < i implies s[j] != c by {
                if s[j] == c {
                    assert(s.subrange(j, j + 1) =~= seq![c]);
                    assert(occurs_at(s, seq![c], j));
                }
            }
        },
        None => {
            assert forall|j: int| 0 <= j < s.len() implies s[j] != c by {
                if s[j] == c {
                    assert(s.subrange(j, j + 1) =~= seq![c]);
                    assert(occurs_at(s, seq![c], j));
                }
            }
        },
    }
}

/// First index `i` in `from..end` with `s[i] == c`.
pub fn find_char(s: &[char], c: char, from: usize, end: usize) -> (r: Option<usize>)
    requires
        from <= end <= s@.len(),
    ensures
        r matches Some(i) ==> from <= i < end && s@[i as int] == c && forall|j: int|
            from <= j < i ==> s@[j] != c,
        r is None ==> forall|j: int| from <= j < end ==> s@[j] != c,
{
    let mut i = from;
    while i < end
        invariant
            from <= i <= end <= s@.len(),
            forall|j: int| from <= j < i ==> s@[j] != c,
        decreases end - i,
    {
        if s[i] == c {
            return Some(i);
        }
        i = i + 1;
    }
    None
}

/// Relates a search of `s[from..end]` for `c` to `find` on that range.
pub proof fn lemma_find_char_range(s: Seq<char>, c: char, from: int, end: int, r: Option<int>)
    requires
        0 <= from <= end <= s.len(),
        r matches Some(i) ==> from <= i < end && s[i] == c && forall|j: int|
            from <= j < i ==> s[j] != c,
        r is None ==> forall|j: int| from <= j < end ==> s[j] != c,
    ensures
        find(s.subrange(from, end), seq![c]) == (match r {
            Some(i) => Some(i - from),
            None => None::<int>,
        }),
{
    let sub = s.subrange(from, end);
    lemma_find_single(sub, c);
    match find(sub, seq![c]) {
        Some(k) => {
            assert(sub[k] == s[from + k]);
            match r {
                Some(i) => {
                    if k < i - from {
                        assert(s[from + k] != c);
                    }
                    if i - from < k {
                        assert(sub[i - from] == s[i]);
                    }
                },
                None => {
                    assert(s[from + k] != c);
                },
            }
        },
        None => {
            match r {
                Some(i) => {
                    assert(sub[i - from] == s[i]);
                },
                None => {},
            }
        },
    }
}

// ── line structure ────────────────────────────────────────────────────

/// Each line followed by `'\n'`.
pub open spec fn concat_nl(ls: Seq<Seq<char>>) -> Seq<char>
    decreases ls.len(),
{
    if ls.len() == 0 {
        seq![]
    } else {
        concat_nl(ls.drop_last()) + ls.last() + seq!['\n']
    }
}

/// How the line-based rewriters put a file back together: every line
/// followed by `'\n'`, except that the last `'\n'` is dropped when the
/// rewritten file's former text did not end with one.
pub open spec fn reassemble(ls: Seq<Seq<char>>, orig: Seq<char>) -> Seq<char> {
    let r = concat_nl(ls);
    if !ends_with(orig, seq!['\n']) && r.len() > 0 {
        r.drop_last()
    } else {
        r
    }
}

/// `concat_nl` of a line followed by more lines.
pub proof fn lemma_concat_nl_cons(a: Seq<char>, rest: Seq<Seq<char>>)
    ensures
        concat_nl(seq![a] + rest) == a + seq!['\n'] + concat_nl(rest),
    decreases rest.len(),
{
    let e = Seq::<Seq<char>>::empty();
    assert(concat_nl(e) == Seq::<char>::empty());
    if rest.len() == 0 {
        assert(seq![a] + rest =~= seq![a]);
        assert(seq![a].drop_last() =~= e);
        assert(concat_nl(seq![a]) == concat_nl(e) + a + seq!['\n']);
        assert(concat_nl(seq![a]) =~= a + seq!['\n'] + concat_nl(rest));
    } else {
        lemma_concat_nl_cons(a, rest.drop_last());
        let s = seq![a] + rest;
        assert(s.drop_last() =~= seq![a] + rest.drop_last());
        assert(s.last() == rest.last());
        assert(concat_nl(s) == concat_nl(s.drop_last()) + s.last() + seq!['\n']);
        assert(concat_nl(rest) == concat_nl(rest.drop_last()) + rest.last() + seq!['\n']);
        assert(concat_nl(s) =~= a + seq!['\n'] + concat_nl(rest));
    }
}

/// Splitting text without `'\r'` into lines and reassembling them gives the text back.
#[verifier::spinoff_prover]
pub proof fn lemma_reassemble_lines(c: Seq<char>)
    requires
        forall|k: int| 0 <= k < c.len() ==> c[k] != '\r',
    ensures
        reassemble(lines(c), c) == c,
        c.len() > 0 && ends_with(c, seq!['\n']) ==> concat_nl(lines(c)) == c,
        c.len() > 0 && !ends_with(c, seq!['\n']) ==> concat_nl(lines(c)) == c + seq!['\n'],
    decreases c.len(),
{
    let e = Seq::<Seq<char>>::empty();
    if c.len() == 0 {
        assert(lines(c) == e);
        assert(concat_nl(e) == Seq::<char>::empty());
        return;
    }
    let nl = seq!['\n'];
    lemma_find_single(c, '\n');
    let ends = ends_with(c, nl);
    assert(ends == (c[c.len() - 1] == '\n')) by {
        if c[c.len() - 1] == '\n' {
            assert(c.subrange(c.len() - 1, c.len() as int) =~= nl);
        } else {
            assert(c.subrange(c.len() - 1, c.len() as int)[0] != nl[0]);
        }
    }
    match find(c, nl) {
        Some(i) => {
            let line = c.subrange(0, i);
            let rest = c.subrange(i + 1, c.len() as int);
            assert(strip_cr(line) == line);
            assert(lines(c) == seq![line] + lines(rest));
            if rest.len() == 0 {
                assert(lines(rest) == e);
                assert(seq![line] + lines(rest) =~= seq![line]);
                lemma_concat_nl_cons(line, e);
                assert(concat_nl(e) == Seq::<char>::empty());
                assert(line + nl =~= c);
                assert(concat_nl(lines(c)) =~= c);
            } else {
                lemma_reassemble_lines(rest);
                lemma_concat_nl_cons(line, lines(rest));
                assert(rest[rest.len() - 1] == c[c.len() - 1]);
                assert(ends_with(rest, nl) == (rest[rest.len() - 1] == '\n')) by {
                    if rest[rest.len() - 1] == '\n' {
                        assert(rest.subrange(rest.len() - 1, rest.len() as int) =~= nl);
                    } else {
                        assert(rest.subrange(rest.len() - 1, rest.len() as int)[0] != nl[0]);
                    }
                }
                if ends {
                    assert(line + nl + rest =~= c);
                    assert(concat_nl(lines(c)) =~= c);
                } else {
                    assert(line + nl + (rest + nl) =~= c + nl);
                    assert(concat_nl(lines(c)) =~= c + nl);
                }
            }
        },
        None => {
            assert(lines(c) == seq![c]);
            lemma_concat_nl_cons(c, e);
            assert(concat_nl(e) == Seq::<char>::empty());
            assert(concat_nl(seq![c]) =~= c + nl);
            assert(seq![c] + e =~= seq![c]);
            assert(!ends);
        },
    }
    if !ends {
        assert((c + nl).drop_last() =~= c);
    }
}

/// Applies a per-line edit: lines for which `f` has a replacement get it,
/// the others stay.
pub open spec fn edit_lines(ls: Seq<Seq<char>>, f: spec_fn(Seq<char>) -> Option<Seq<char>>) -> Seq<
    Seq<char>,
> {
    Seq::new(
        ls.len(),
        |i: int|
            match f(ls[i]) {
                Some(n) => n,
                None => ls[i],
            },
    )
}

/// Whether `f` edits some line of `ls`.
pub open spec fn any_edit(ls: Seq<Seq<char>>, f: spec_fn(Seq<char>) -> Option<Seq<char>>) -> bool {
    exists|i: int| 0 <= i < ls.len() && #[trigger] f(ls[i]) is Some
}

/// A line-based rewrite that edits no line gives back text without
/// `'\r'` exactly.
pub proof fn lemma_no_edit_identity(c: Seq<char>, f: spec_fn(Seq<char>) -> Option<Seq<char>>)
    requires
        forall|k: int| 0 <= k < c.len() ==> c[k] != '\r',
        !any_edit(lines(c), f),
    ensures
        reassemble(edit_lines(lines(c), f), c) == c,
{
    let ls = lines(c);
    assert forall|i: int| 0 <= i < ls.len() implies edit_lines(ls, f)[i] == ls[i] by {
        assert(!(f(ls[i]) is Some));
    }
    assert(edit_lines(ls, f) =~= ls);
    lemma_reassemble_lines(c);
}

/// The lines of `s[start..end]`, as `str::lines` yields them.
pub fn lines_of(s: &[char]) -> (r: Vec<Vec<char>>)
    ensures
        r.deep_view() == lines(s@),
{
    let mut out: Vec<Vec<char>> = Vec::new();
    let mut pos: usize = 0;
    let n = s.len();
    assert(s@.subrange(0, n as int) =~= s@);
    assert(out.deep_view() =~= Seq::<Seq<char>>::empty());
    while pos < n
        invariant
            n == s@.len(),
            pos <= n,
            lines(s@) == out.deep_view() + lines(s@.subrange(pos as int, n as int)),
        decreases n - pos,
    {
        let ghost rest = s@.subrange(pos as int, n as int);
        let found = find_char(s, '\n', pos, n);
        proof {
            lemma_find_char_range(s@, '\n', pos as int, n as int, match found {
                Some(i) => Some(i as int),
                None => None,
            });
        }
        match found {
            Some(i) => {
                let mut line: Vec<char> = Vec::new();
                let mut e = i;
                if e > pos && s[e - 1] == '\r' {
                    e = e - 1;
                }
                push_range(&mut line, s, pos, e);
                assert(line@ =~= strip_cr(rest.subrange(0, i - pos)));
                assert(rest.subrange(i - pos + 1, rest.len() as int) =~= s@.subrange(
                    i + 1,
                    n as int,
                ));
                let ghost before = out.deep_view();
                let ghost lv = line@;
                assert(line.deep_view() =~= line@);
                out.push(line);
                assert(out.deep_view() =~= before.push(lv));
                assert(lines(rest) == seq![strip_cr(rest.subrange(0, i - pos))] + lines(
                    s@.subrange(i + 1, n as int),
                ));
                assert(lines(s@) =~= out.deep_view() + lines(s@.subrange(i + 1, n as int)));
                pos = i + 1;
            },
            None => {
                let mut line: Vec<char> = Vec::new();
                push_range(&mut line, s, pos, n);
                let ghost before = out.deep_view();
                assert(line@ =~= rest);
                assert(line.deep_view() =~= line@);
                out.push(line);
                assert(out.deep_view() =~= before.push(rest));
                assert(lines(s@.subrange(n as int, n as int)) == Seq::<Seq<char>>::empty());
                assert(lines(s@) =~= out.deep_view() + lines(s@.subrange(n as int, n as int)));
                pos = n;
            },
        }
    }
    assert(lines(s@.subrange(n as int, n as int)) == Seq::<Seq<char>>::empty());
    assert(lines(s@) =~= out.deep_view());
    out
}

/// Puts rewritten lines back together: `reassemble(ls, orig)`.
pub fn assemble(ls: &Vec<Vec<char>>, orig_ends_nl: bool) -> (r: Vec<char>)
    ensures
        r@ == (if !orig_ends_nl && concat_nl(ls.deep_view()).len() > 0 {
            concat_nl(ls.deep_view()).drop_last()
        } else {
            concat_nl(ls.deep_view())
        }),
{
    let mut out: Vec<char> = Vec::new();
    let mut i: usize = 0;
    while i < ls.len()
        invariant
            i <= ls@.len(),
            out@ == concat_nl(ls.deep_view().take(i as int)),
        decreases ls@.len() - i,
    {
        push_all(&mut out, ls[i].as_slice());
        out.push('\n');
        assert(ls.deep_view().take(i + 1).drop_last() =~= ls.deep_view().take(i as int));
        i = i + 1;
    }
    assert(ls.deep_view().take(ls@.len() as int) =~= ls.deep_view());
    if !orig_ends_nl && out.len() > 0 {
        out.pop();
    }
    out
}

/// Whether `s` ends with `'\n'`.
pub fn ends_with_newline(s: &[char]) -> (r: bool)
    ensures
        r == ends_with(s@, seq!['\n']),
{
    if s.len() == 0 {
        false
    } else {
        let r = s[s.len() - 1] == '\n';
        if r {
            assert(s@.subrange(s@.len() - 1, s@.len() as int) =~= seq!['\n']);
        } else {
            assert(s@.subrange(s@.len() - 1, s@.len() as int)[0] != seq!['\n'][0]);
        }
        r
    }
}

/// `replace_first` on characters.
pub fn replace_first_exec(s: &[char], old: &[char], new: &[char]) -> (r: Vec<char>)
    ensures
        r@ == replace_first(s@, old@, new@),
{
    let n = s.len();
    assert(s@.subrange(0, n as int) =~= s@);
    let found = find_range(s, old, 0, n);
    let mut out: Vec<char> = Vec::new();
    match found {
        Some(i) => {
            proof {
                lemma_find_from(s@, old@, 0);
            }
            push_range(&mut out, s, 0, i);
            push_all(&mut out, new);
            push_range(&mut out, s, i + old.len(), n);
        },
        None => {
            push_all(&mut out, s);
        },
    }
    out
}

/// What `str::to_lowercase` returns for a string: its lowercase form by
/// the Unicode `Lowercase` mapping.
pub uninterp spec fn lowercase(s: Seq<char>) -> Seq<char>;

/// The ASCII letter `c` in lowercase; any other character is unchanged.
pub open spec fn ascii_lower_char(c: char) -> char {
    if 'A' <= c <= 'Z' {
        ((c as u32) + 32) as char
    } else {
        c
    }
}

/// Whether every character of `s` is ASCII.
pub open spec fn is_ascii_text(s: Seq<char>) -> bool {
    forall|i: int| 0 <= i < s.len() ==> (#[trigger] s[i] as u32) < 128
}

/// `str::to_lowercase`. The contract names the result; of the Unicode
/// case mapping it states only that ASCII text has its ASCII capitals
/// lowered and nothing else changed.
#[verifier::external_body]
pub fn to_lowercase(s: &str) -> (r: String)
    ensures
        r@ == lowercase(s@),
        is_ascii_text(s@) ==> r@ == s@.map_values(|c: char| ascii_lower_char(c)),
{
    s.to_lowercase()
}

/// Whether two character slices are equal.
pub fn chars_eq(a: &[char], b: &[char]) -> (r: bool)
    ensures
        r == (a@ == b@),
{
    if a.len() != b.len() {
        return false;
    }
    let mut i: usize = 0;
    while i < a.len()
        invariant
            a@.len() == b@.len(),
            i <= a@.len(),
            forall|j: int| 0 <= j < i ==> a@[j] == b@[j],
        decreases a@.len() - i,
    {
        if a[i] != b[i] {
            return false;
        }
        i = i + 1;
    }
    assert(a@ =~= b@);
    true
}

/// `str::trim_start_matches(c)`.
pub open spec fn trim_start_char(s: Seq<char>, c: char) -> Seq<char>
    decreases s.len(),
{
    if s.len() > 0 && s[0] == c {
        trim_start_char(s.drop_first(), c)
    } else {
        s
    }
}

/// `str::trim_end_matches(c)`.
pub open spec fn trim_end_char(s: Seq<char>, c: char) -> Seq<char>
    decreases s.len(),
{
    if s.len() > 0 && s.last() == c {
        trim_end_char(s.drop_last(), c)
    } else {
        s
    }
}

/// `str::trim_matches(c)`.
pub open spec fn trim_char(s: Seq<char>, c: char) -> Seq<char> {
    trim_end_char(trim_start_char(s, c), c)
}

/// Bounds of `trim_char(s[start..end], c)` inside `s`.
pub fn trim_char_bounds(s: &[char], c: char, start: usize, end: usize) -> (r: (usize, usize))
    requires
        start <= end <= s@.len(),
    ensures
        start <= r.0 <= r.1 <= end,
        s@.subrange(r.0 as int, r.1 as int) == trim_char(s@.subrange(start as int, end as int), c),
{
    let mut i = start;
    while i < end && s[i] == c
        invariant
            start <= i <= end <= s@.len(),
            trim_start_char(s@.subrange(start as int, end as int), c) == trim_start_char(
                s@.subrange(i as int, end as int),
                c,
            ),
        decreases end - i,
    {
        assert(s@.subrange(i as int, end as int).drop_first() =~= s@.subrange(i + 1, end as int));
        i = i + 1;
    }
    let mut j = end;
    while j > i && s[j - 1] == c
        invariant
            start <= i <= j <= end <= s@.len(),
            trim_end_char(s@.subrange(i as int, end as int), c) == trim_end_char(
                s@.subrange(i as int, j as int),
                c,
            ),
        decreases j - i,
    {
        assert(s@.subrange(i as int, j as int).drop_last() =~= s@.subrange(i as int, j - 1));
        j = j - 1;
    }
    (i, j)
}

/// Whether two strings are equal.
pub fn str_eq(a: &str, b: &str) -> (r: bool)
    ensures
        r == (a@ == b@),
{
    let x = chars_of(a);
    let y = chars_of(b);
    chars_eq(x.as_slice(), y.as_slice())
}

/// An owned copy of `s`.
pub fn owned(s: &str) -> (r: String)
    ensures
        r@ == s@,
{
    String::from_str(s)
}

/// Number of leading non-whitespace characters.
pub open spec fn word_len(s: Seq<char>) -> int
    decreases s.len(),
{
    if s.len() > 0 && !is_ws(s[0]) {
        1 + word_len(s.drop_first())
    } else {
        0
    }
}

/// Bounds of the length of the first word.
pub proof fn lemma_word_len(s: Seq<char>)
    ensures
        0 <= word_len(s) <= s.len(),
        word_len(s) < s.len() ==> is_ws(s[word_len(s)]),
        forall|k: int| 0 <= k < word_len(s) ==> !is_ws(#[trigger] s[k]),
    decreases s.len(),
{
    if s.len() > 0 && !is_ws(s[0]) {
        lemma_word_len(s.drop_first());
        assert forall|k: int| 0 <= k < word_len(s) implies !is_ws(#[trigger] s[k]) by {
            if k > 0 {
                assert(s[k] == s.drop_first()[k - 1]);
            }
        }
        if word_len(s) < s.len() {
            assert(s[word_len(s)] == s.drop_first()[word_len(s.drop_first())]);
        }
    }
}

/// `str::split_whitespace`: the maximal runs of non-whitespace characters.
pub open spec fn words(s: Seq<char>) -> Seq<Seq<char>>
    decreases s.len(),
{
    let t = trim_start(s);
    if t.len() == 0 || t.len() > s.len() {
        seq![]
    } else {
        let k = word_len(t);
        if 0 < k <= t.len() {
            seq![t.subrange(0, k)] + words(t.subrange(k, t.len() as int))
        } else {
            seq![]
        }
    }
}

/// End of the word starting at `start` in `s[..end]`.
pub fn word_end(s: &[char], start: usize, end: usize) -> (r: usize)
    requires
        start <= end <= s@.len(),
    ensures
        start <= r <= end,
        r - start == word_len(s@.subrange(start as int, end as int)),
{
    let ghost full = s@.subrange(start as int, end as int);
    let mut i = start;
    while i < end && !char_is_ws(s[i])
        invariant
            start <= i <= end <= s@.len(),
            full == s@.subrange(start as int, end as int),
            word_len(full) == (i - start) + word_len(s@.subrange(i as int, end as int)),
        decreases end - i,
    {
        assert(s@.subrange(i as int, end as int).drop_first() =~= s@.subrange(i + 1, end as int));
        i = i + 1;
    }
    i
}

/// The words of `s[start..end]`.
pub fn words_of(s: &[char], start: usize, end: usize) -> (r: Vec<Vec<char>>)
    requires
        start <= end <= s@.len(),
    ensures
        r.deep_view() == words(s@.subrange(start as int, end as int)),
{
    let mut out: Vec<Vec<char>> = Vec::new();
    let mut pos = start;
    assert(out.deep_view() =~= Seq::<Seq<char>>::empty());
    while pos < end
        invariant
            start <= pos <= end <= s@.len(),
            words(s@.subrange(start as int, end as int)) == out.deep_view() + words(
                s@.subrange(pos as int, end as int),
            ),
        decreases end - pos,
    {
        let ghost rest = s@.subrange(pos as int, end as int);
        let a = skip_ws(s, pos, end);
        proof {
            lemma_trim_start(rest);
        }
        if a == end {
            assert(words(rest) == Seq::<Seq<char>>::empty());
            assert(words(s@.subrange(end as int, end as int)) == Seq::<Seq<char>>::empty());
            pos = end;
        } else {
            let b = word_end(s, a, end);
            proof {
                lemma_word_len(s@.subrange(a as int, end as int));
            }
            let mut w: Vec<char> = Vec::new();
            push_range(&mut w, s, a, b);
            let ghost before = out.deep_view();
            assert(w.deep_view() =~= w@);
            let ghost wv = w@;
            out.push(w);
            assert(out.deep_view() =~= before.push(wv));
            assert(s@.subrange(a as int, end as int).subrange(b - a, (end - a) as int)
                =~= s@.subrange(b as int, end as int));
            assert(s@.subrange(a as int, end as int).subrange(0, (b - a) as int) =~= wv);
            assert(words(rest) == seq![wv] + words(s@.subrange(b as int, end as int)));
            assert(words(s@.subrange(start as int, end as int)) =~= out.deep_view() + words(
                s@.subrange(b as int, end as int),
            ));
            pos = b;
        }
    }
    assert(words(s@.subrange(end as int, end as int)) == Seq::<Seq<char>>::empty());
    assert(words(s@.subrange(start as int, end as int)) =~= out.deep_view());
    out
}

// ── conversions ───────────────────────────────────────────────────────

/// Appends `c` to `s`: `String::push`.
#[verifier::external_body]
pub fn push_char(s: &mut String, c: char)
    ensures
        final(s)@ == old(s)@.push(c),
{
    s.push(c);
}

/// The characters of `s`, in order.
pub fn chars_of(s: &str) -> (r: Vec<char>)
    ensures
        r@ == s@,
{
    let mut out: Vec<char> = Vec::new();
    for c in it: s.chars()
        invariant
            out@ == it.seq().take(it.index() as int),
    {
        out.push(c);
    }
    out
}

/// A `String` holding exactly the characters `v`.
pub fn string_of(v: &[char]) -> (r: String)
    ensures
        r@ == v@,
{
    let mut s = String::new();
    let mut i: usize = 0;
    while i < v.len()
        invariant
            i <= v@.len(),
            s@ == v@.subrange(0, i as int),
        decreases v@.len() - i,
    {
        push_char(&mut s, v[i]);
        assert(v@.subrange(0, i + 1) =~= v@.subrange(0, i as int).push(v@[i as int]));
        i = i + 1;
    }
    assert(v@.subrange(0, v@.len() as int) =~= v@);
    s
}

/// Appends `v[start..end]` to `out`.
pub fn push_range(out: &mut Vec<char>, v: &[char], start: usize, end: usize)
    requires
        start <= end <= v@.len(),
    ensures
        final(out)@ == old(out)@ + v@.subrange(start as int, end as int),
{
    let mut i = start;
    while i < end
        invariant
            start <= i <= end <= v@.len(),
            out@ == old(out)@ + v@.subrange(start as int, i as int),
        decreases end - i,
    {
        out.push(v[i]);
        assert(v@.subrange(start as int, i + 1) =~= v@.subrange(start as int, i as int).push(
            v@[i as int],
        ));
        i = i + 1;
    }
}

/// Appends all of `v` to `out`.
pub fn push_all(out: &mut Vec<char>, v: &[char])
    ensures
        final(out)@ == old(out)@ + v@,
{
    push_range(out, v, 0, v.len());
    assert(v@.subrange(0, v@.len() as int) =~= v@);
}

} // verus!
