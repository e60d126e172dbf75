//! The lines shown around a source match.

use vstd::prelude::*;

use crate::text::{chars_of, push_all, string_of};

verus! {

/// The decimal digits.
pub open spec fn digit_chars() -> Seq<char> {
    seq!['0', '1', '2', '3', '4', '5', '6', '7', '8', '9']
}

/// The decimal representation of `n`, without leading zeros.
pub open spec fn decimal(n: nat) -> Seq<char>
    decreases n,
{
    if n < 10 {
        seq![digit_chars()[n as int]]
    } else {
        decimal(n / 10).push(digit_chars()[(n % 10) as int])
    }
}

/// `s` right-aligned in a field of width 4, as `{:4}` formats a number.
pub open spec fn pad4(s: Seq<char>) -> Seq<char> {
    if s.len() >= 4 {
        s
    } else {
        Seq::new((4 - s.len()) as nat, |i: int| ' ') + s
    }
}

/// The context line for line `i` (0-based) of `lines` around the match at
/// `match_idx`: a `>` marker on the match itself, the 1-based line number
/// right-aligned in four columns, a bar, then the line.
pub open spec fn context_line(lines: Seq<Seq<char>>, match_idx: int, i: int) -> Seq<char> {
    let marker = if i == match_idx {
        '>'
    } else {
        ' '
    };
    seq![marker, ' '] + pad4(decimal((i + 1) as nat)) + seq![' ', '|', ' '] + lines[i]
}

/// The first line shown: `context` lines above the match, or the first line.
pub open spec fn context_start(match_idx: int, context: int) -> int {
    if match_idx >= context {
        match_idx - context
    } else {
        0
    }
}

/// One past the last line shown: `context` lines below the match, or the end.
pub open spec fn context_end(len: int, match_idx: int, context: int) -> int {
    if match_idx + context + 1 <= len {
        match_idx + context + 1
    } else {
        len
    }
}

/// The context lines around line `match_idx` of `lines`.
pub open spec fn context_spec(lines: Seq<Seq<char>>, match_idx: int, context: int) -> Seq<Seq<char>> {
    let start = context_start(match_idx, context);
    let end = context_end(lines.len() as int, match_idx, context);
    Seq::new((end - start) as nat, |k: int| context_line(lines, match_idx, start + k))
}

/// The character of decimal digit `d`.
fn digit_char(d: usize) -> (r: char)
    requires
        d < 10,
    ensures
        r == digit_chars()[d as int],
{
    if d == 0 {
        '0'
    } else if d == 1 {
        '1'
    } else if d == 2 {
        '2'
    } else if d == 3 {
        '3'
    } else if d == 4 {
        '4'
    } else if d == 5 {
        '5'
    } else if d == 6 {
        '6'
    } else if d == 7 {
        '7'
    } else if d == 8 {
        '8'
    } else {
        '9'
    }
}

/// The decimal representation of `n`.
pub fn decimal_chars(n: usize) -> (r: Vec<char>)
    ensures
        r@ == decimal(n as nat),
    decreases n,
{
    if n < 10 {
        vec![digit_char(n)]
    } else {
        let mut v = decimal_chars(n / 10);
        v.push(digit_char(n % 10));
        v
    }
}

/// Appends context line `i` to `out`.
fn context_line_exec(lines: &Vec<Vec<char>>, match_idx: usize, i: usize) -> (r: String)
    requires
        i < lines@.len(),
    ensures
        r@ == context_line(lines.deep_view(), match_idx as int, i as int),
{
    let mut out: Vec<char> = Vec::new();
    if i == match_idx {
        out.push('>');
    } else {
        out.push(' ');
    }
    out.push(' ');
    let n = lines.len();
    assert(i < n);
    let num = decimal_chars(i + 1);
    let mut pad = num.len();
    while pad < 4
        invariant
            num@.len() <= pad <= 4 || (num@.len() == pad && pad >= 4),
            out@ == seq![if i == match_idx {
                '>'
            } else {
                ' '
            }, ' '] + Seq::new((pad - num@.len()) as nat, |t: int| ' '),
        decreases 4 - pad,
    {
        out.push(' ');
        pad = pad + 1;
    }
    push_all(&mut out, num.as_slice());
    out.push(' ');
    out.push('|');
    out.push(' ');
    push_all(&mut out, lines[i].as_slice());
    proof {
        let marker = if i == match_idx {
            '>'
        } else {
            ' '
        };
        assert(lines[i as int]@ == lines.deep_view()[i as int]);
        if num@.len() >= 4 {
            assert(Seq::new((pad - num@.len()) as nat, |t: int| ' ') =~= Seq::<char>::empty());
        }
        assert(out@ =~= seq![marker, ' '] + pad4(decimal((i + 1) as nat)) + seq![' ', '|', ' ']
            + lines.deep_view()[i as int]);
    }
    string_of(out.as_slice())
}

/// The context lines around `match_idx` in lines given as characters.
pub fn context_of(lines: &Vec<Vec<char>>, match_idx: usize, context_lines: usize) -> (r: Vec<String>)
    requires
        context_start(match_idx as int, context_lines as int) <= lines@.len(),
    ensures
        r@.map_values(|s: String| s@) == context_spec(lines.deep_view(), match_idx as int, context_lines as int),
{
    let start = if match_idx >= context_lines {
        match_idx - context_lines
    } else {
        0
    };
    let end = if match_idx < lines.len() && context_lines < lines.len() - match_idx {
        match_idx + context_lines + 1
    } else {
        lines.len()
    };
    let ghost want = context_spec(lines.deep_view(), match_idx as int, context_lines as int);
    let mut out: Vec<String> = Vec::new();
    let mut i = start;
    while i < end
        invariant
            start <= i <= end <= lines@.len(),
            start == context_start(match_idx as int, context_lines as int),
            end == context_end(lines@.len() as int, match_idx as int, context_lines as int),
            want == context_spec(lines.deep_view(), match_idx as int, context_lines as int),
            lines.deep_view().len() == lines@.len(),
            out@.map_values(|s: String| s@) == want.take(i - start),
        decreases end - i,
    {
        let ghost before = out@.map_values(|s: String| s@);
        let line = context_line_exec(lines, match_idx, i);
        assert(want[i - start] == line@);
        let ghost lv = line@;
        out.push(line);
        assert(out@.map_values(|s: String| s@) =~= before.push(lv));
        assert(want.take(i + 1 - start) =~= want.take(i - start).push(want[i - start]));
        i = i + 1;
    }
    assert(want.take(end - start) =~= want);
    out
}

/// Extract `context_lines` lines above and below a match index, with
/// line-number prefixes.
pub fn extract_context(lines: &[&str], match_idx: usize, context_lines: usize) -> (r: Vec<String>)
    requires
        context_start(match_idx as int, context_lines as int) <= lines@.len(),
    ensures
        r@.map_values(|s: String| s@) == context_spec(
            lines@.map_values(|l: &str| l@),
            match_idx as int,
            context_lines as int,
        ),
{
    let mut cs: Vec<Vec<char>> = Vec::new();
    let mut k: usize = 0;
    while k < lines.len()
        invariant
            k <= lines@.len(),
            cs.deep_view() == lines@.map_values(|l: &str| l@).take(k as int),
        decreases lines@.len() - k,
    {
        let c = chars_of(lines[k]);
        let ghost before = cs.deep_view();
        assert(c.deep_view() =~= c@);
        cs.push(c);
        assert(cs.deep_view() =~= before.push(lines@[k as int]@));
        assert(cs.deep_view() =~= lines@.map_values(|l: &str| l@).take(k + 1));
        k = k + 1;
    }
    assert(lines@.map_values(|l: &str| l@).take(lines@.len() as int) =~= lines@.map_values(|l: &str| l@));
    context_of(&cs, match_idx, context_lines)
}

} // verus!
