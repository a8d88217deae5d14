//! Character-sequence helpers shared by the protocol code: conversion between
//! `str`/`String` and `Vec<char>`, Unicode whitespace trimming, decimal
//! formatting and parsing, searching, and line-ending normalisation.
use vstd::prelude::*;
use vstd::utf8::*;

verus! {

// ---------------------------------------------------------------------------
// Specifications
// ---------------------------------------------------------------------------

/// `needle` occurs in `hay` starting at position `i`.
pub open spec fn occurs_at<A>(hay: Seq<A>, needle: Seq<A>, i: int) -> bool {
    &&& 0 <= i
    &&& i + needle.len() <= hay.len()
    &&& hay.subrange(i, i + needle.len()) == needle
}

/// `needle` occurs somewhere in `hay`.
pub open spec fn occurs_in<A>(hay: Seq<A>, needle: Seq<A>) -> bool {
    exists|i: int| occurs_at(hay, needle, i)
}

/// `i` is the start of the last occurrence of `needle` in `hay`.
pub open spec fn is_last_occurrence<A>(hay: Seq<A>, needle: Seq<A>, i: int) -> bool {
    &&& occurs_at(hay, needle, i)
    &&& forall|j: int| i < j ==> !occurs_at(hay, needle, j)
}

/// Start of the last occurrence of `needle` in `hay` (what `str::rfind` gives).
pub open spec fn last_occurrence<A>(hay: Seq<A>, needle: Seq<A>) -> Option<int> {
    if exists|i: int| is_last_occurrence(hay, needle, i) {
        Some(choose|i: int| is_last_occurrence(hay, needle, i))
    } else {
        None
    }
}

/// Index of the last `c` in `s` strictly before position `k`.
pub open spec fn last_char_before(s: Seq<char>, c: char, k: int) -> Option<int>
    decreases k,
{
    if k <= 0 {
        None
    } else if k - 1 < s.len() && s[k - 1] == c {
        Some(k - 1)
    } else {
        last_char_before(s, c, k - 1)
    }
}

/// Index of the first `c` in `s` at or after position `k`.
pub open spec fn first_char_from(s: Seq<char>, c: char, k: int) -> Option<int>
    decreases s.len() - k,
{
    if k < 0 || k >= s.len() {
        None
    } else if s[k] == c {
        Some(k)
    } else {
        first_char_from(s, c, k + 1)
    }
}

/// Unicode `White_Space`, the set `char::is_whitespace` tests.
pub open spec fn is_ws(c: char) -> bool {
    ||| ('\u{9}' <= c && c <= '\u{d}')
    ||| c == ' '
    ||| c == '\u{85}'
    ||| c == '\u{a0}'
    ||| c == '\u{1680}'
    ||| ('\u{2000}' <= c && c <= '\u{200a}')
    ||| c == '\u{2028}'
    ||| c == '\u{2029}'
    ||| c == '\u{202f}'
    ||| c == '\u{205f}'
    ||| c == '\u{3000}'
}

/// A line terminator character: `'\r'` or `'\n'`.
pub open spec fn is_line_end(c: char) -> bool {
    c == '\r' || c == '\n'
}

/// `s` without its leading characters that satisfy `p`.
pub open spec fn trim_start_while(s: Seq<char>, p: spec_fn(char) -> bool) -> Seq<char>
    decreases s.len(),
{
    if s.len() > 0 && p(s[0]) {
        trim_start_while(s.drop_first(), p)
    } else {
        s
    }
}

/// `s` without its trailing characters that satisfy `p`.
pub open spec fn trim_end_while(s: Seq<char>, p: spec_fn(char) -> bool) -> Seq<char>
    decreases s.len(),
{
    if s.len() > 0 && p(s.last()) {
        trim_end_while(s.drop_last(), p)
    } else {
        s
    }
}

/// `str::trim`: leading and trailing Unicode whitespace removed.
pub open spec fn trim(s: Seq<char>) -> Seq<char> {
    trim_end_while(trim_start_while(s, |c: char| is_ws(c)), |c: char| is_ws(c))
}

/// `trim_end_matches(['\r', '\n'])`.
pub open spec fn strip_line_end(s: Seq<char>) -> Seq<char> {
    trim_end_while(s, |c: char| is_line_end(c))
}

/// Every `"\r\n"` pair, scanned from the left, replaced by `"\n"`.
pub open spec fn crlf_to_lf(s: Seq<char>) -> Seq<char>
    decreases s.len(),
{
    if s.len() == 0 {
        s
    } else if s.len() >= 2 && s[0] == '\r' && s[1] == '\n' {
        seq!['\n'] + crlf_to_lf(s.skip(2))
    } else {
        seq![s[0]] + crlf_to_lf(s.skip(1))
    }
}

/// An ASCII decimal digit.
pub open spec fn is_digit(c: char) -> bool {
    '0' <= c && c <= '9'
}

/// Value of a decimal digit character.
pub open spec fn digit_value(c: char) -> int {
    c as int - '0' as int
}

/// The character of a decimal digit.
pub open spec fn digit_char(d: int) -> char {
    if d == 0 {
        '0'
    } else if d == 1 {
        '1'
    } else if d == 2 {
        '2'
    } else if d == 3 {
        '3'
    } else if d == 4 {
        '4'
    } else if d == 5 {
        '5'
    } else if d == 6 {
        '6'
    } else if d == 7 {
        '7'
    } else if d == 8 {
        '8'
    } else {
        '9'
    }
}

pub open spec fn all_digits(s: Seq<char>) -> bool {
    forall|i: int| 0 <= i < s.len() ==> is_digit(#[trigger] s[i])
}

/// The number a string of decimal digits denotes.
pub open spec fn digits_value(s: Seq<char>) -> int
    decreases s.len(),
{
    if s.len() == 0 {
        0
    } else {
        digits_value(s.drop_last()) * 10 + digit_value(s.last())
    }
}

/// Decimal representation of `n`, without sign or leading zeros.
pub open spec fn dec(n: nat) -> Seq<char>
    decreases n,
{
    if n < 10 {
        seq![digit_char(n as int)]
    } else {
        dec(n / 10).push(digit_char((n % 10) as int))
    }
}

/// Decimal representation of an integer, as `Display` writes it.
pub open spec fn dec_int(v: int) -> Seq<char> {
    if v < 0 {
        seq!['-'] + dec((-v) as nat)
    } else {
        dec(v as nat)
    }
}

/// `"true"` or `"false"`, as `Display` writes a `bool`.
pub open spec fn dec_bool(b: bool) -> Seq<char> {
    if b {
        seq!['t', 'r', 'u', 'e']
    } else {
        seq!['f', 'a', 'l', 's', 'e']
    }
}

/// The value of an optional `+` followed by one or more digits.
pub open spec fn unsigned_text_value(s: Seq<char>) -> Option<int> {
    let body = if s.len() > 0 && s[0] == '+' {
        s.drop_first()
    } else {
        s
    };
    if body.len() > 0 && all_digits(body) {
        Some(digits_value(body))
    } else {
        None
    }
}

/// The value of an optional `+` or `-` followed by one or more digits.
pub open spec fn signed_text_value(s: Seq<char>) -> Option<int> {
    if s.len() > 0 && s[0] == '-' {
        let body = s.drop_first();
        if body.len() > 0 && all_digits(body) {
            Some(-digits_value(body))
        } else {
            None
        }
    } else {
        unsigned_text_value(s)
    }
}

/// What `str::parse::<u64>` gives.
pub open spec fn parse_u64_spec(s: Seq<char>) -> Option<u64> {
    match unsigned_text_value(s) {
        Some(v) => if v <= u64::MAX {
            Some(v as u64)
        } else {
            None
        },
        None => None,
    }
}

/// What `str::parse::<i32>` gives.
pub open spec fn parse_i32_spec(s: Seq<char>) -> Option<i32> {
    match signed_text_value(s) {
        Some(v) => if i32::MIN <= v <= i32::MAX {
            Some(v as i32)
        } else {
            None
        },
        None => None,
    }
}

/// Name for what `String::from_utf8_lossy` decodes from a byte sequence.
pub uninterp spec fn lossy_utf8(bytes: Seq<u8>) -> Seq<char>;

// ---------------------------------------------------------------------------
// Trusted std calls
// ---------------------------------------------------------------------------

/// `String::push`: appends one character to the string.
#[verifier::external_body]
fn push_char(s: &mut String, c: char)
    ensures
        final(s)@ == old(s)@.push(c),
{
    s.push(c);
}

/// `String::from_utf8_lossy`: decodes `bytes`, replacing each invalid
/// sequence by U+FFFD; on valid UTF-8 it is the plain decoding.
#[verifier::external_body]
pub fn utf8_lossy(bytes: &[u8]) -> (r: String)
    ensures
        r@ == lossy_utf8(bytes@),
        valid_utf8(bytes@) ==> r@ == decode_utf8(bytes@),
{
    String::from_utf8_lossy(bytes).into_owned()
}

// ---------------------------------------------------------------------------
// Conversions
// ---------------------------------------------------------------------------

/// The characters of `s`, in order.
pub fn chars_of(s: &str) -> (r: Vec<char>)
    ensures
        r@ == s@,
{
    let mut out: Vec<char> = Vec::new();
    for c in it: s.chars()
        invariant
            out@ == it.seq().take(it.index()),
            it.seq() == s@,
    {
        out.push(c);
    }
    out
}

/// A `String` holding the characters `cs`.
pub fn string_of(cs: &[char]) -> (r: String)
    ensures
        r@ == cs@,
{
    let mut s = String::new();
    let mut i: usize = 0;
    while i < cs.len()
        invariant
            i <= cs.len(),
            s@ == cs@.take(i as int),
        decreases cs.len() - i,
    {
        push_char(&mut s, cs[i]);
        proof {
            assert(cs@.take(i + 1) == cs@.take(i as int).push(cs@[i as int]));
        }
        i = i + 1;
    }
    proof {
        assert(cs@.take(cs@.len() as int) == cs@);
    }
    s
}

/// Appends the characters of `s` to `out`.
pub fn push_str(out: &mut Vec<char>, s: &str)
    ensures
        final(out)@ == old(out)@ + s@,
{
    let ghost start = out@;
    for c in it: s.chars()
        invariant
            out@ == start + it.seq().take(it.index()),
            it.seq() == s@,
    {
        out.push(c);
        proof {
            assert(it.seq().take(it.index() + 1) == it.seq().take(it.index()).push(c));
        }
    }
}

/// Appends the characters of `s` to `out`.
pub fn push_chars(out: &mut Vec<char>, s: &[char])
    ensures
        final(out)@ == old(out)@ + s@,
{
    let ghost start = out@;
    let mut i: usize = 0;
    while i < s.len()
        invariant
            i <= s.len(),
            out@ == start + s@.take(i as int),
        decreases s.len() - i,
    {
        out.push(s[i]);
        proof {
            assert(s@.take(i + 1) == s@.take(i as int).push(s@[i as int]));
        }
        i = i + 1;
    }
    proof {
        assert(s@.take(s@.len() as int) == s@);
    }
}

/// Appends `cs[from..to]` to `out`.
pub fn push_range(out: &mut Vec<char>, cs: &[char], from: usize, to: usize)
    requires
        from <= to <= cs@.len(),
    ensures
        final(out)@ == old(out)@ + cs@.subrange(from as int, to as int),
{
    let ghost start = out@;
    let mut i: usize = from;
    while i < to
        invariant
            from <= i <= to <= cs@.len(),
            out@ == start + cs@.subrange(from as int, i as int),
        decreases to - i,
    {
        out.push(cs[i]);
        proof {
            assert(cs@.subrange(from as int, i + 1) == cs@.subrange(from as int, i as int).push(
                cs@[i as int],
            ));
        }
        i = i + 1;
    }
}

// ---------------------------------------------------------------------------
// Trimming
// ---------------------------------------------------------------------------

proof fn lemma_trim_start_at(s: Seq<char>, p: spec_fn(char) -> bool, k: int)
    requires
        0 <= k <= s.len(),
        forall|i: int| 0 <= i < k ==> p(#[trigger] s[i]),
        k == s.len() || !p(s[k]),
    ensures
        trim_start_while(s, p) == s.skip(k),
    decreases k,
{
    if k == 0 {
        assert(s.skip(0) == s);
    } else {
        let t = s.drop_first();
        assert forall|i: int| 0 <= i < k - 1 implies p(#[trigger] t[i]) by {
            assert(t[i] == s[i + 1]);
        }
        lemma_trim_start_at(t, p, k - 1);
        assert(t.skip(k - 1) == s.skip(k));
    }
}

proof fn lemma_trim_end_at(s: Seq<char>, p: spec_fn(char) -> bool, k: int)
    requires
        0 <= k <= s.len(),
        forall|i: int| k <= i < s.len() ==> p(#[trigger] s[i]),
        k == 0 || !p(s[k - 1]),
    ensures
        trim_end_while(s, p) == s.take(k),
    decreases s.len() - k,
{
    if k == s.len() {
        assert(s.take(k) == s);
    } else {
        let t = s.drop_last();
        assert forall|i: int| k <= i < t.len() implies p(#[trigger] t[i]) by {
            assert(t[i] == s[i]);
        }
        lemma_trim_end_at(t, p, k);
        assert(t.take(k) == s.take(k));
    }
}

/// `char::is_whitespace`.
pub fn is_whitespace(c: char) -> (r: bool)
    ensures
        r == is_ws(c),
{
    ('\u{9}' <= c && c <= '\u{d}') || c == ' ' || c == '\u{85}' || c == '\u{a0}' || c
        == '\u{1680}' || ('\u{2000}' <= c && c <= '\u{200a}') || c == '\u{2028}' || c
        == '\u{2029}' || c == '\u{202f}' || c == '\u{205f}' || c == '\u{3000}'
}

/// Bounds `(a, b)` such that `cs[a..b]` is `trim(cs[from..to])`.
pub fn trim_bounds(cs: &[char], from: usize, to: usize) -> (r: (usize, usize))
    requires
        from <= to <= cs@.len(),
    ensures
        from <= r.0 <= r.1 <= to,
        cs@.subrange(r.0 as int, r.1 as int) == trim(cs@.subrange(from as int, to as int)),
{
    let ghost s = cs@.subrange(from as int, to as int);
    let ghost p = |c: char| is_ws(c);
    let mut a: usize = from;
    while a < to && is_whitespace(cs[a])
        invariant
            from <= a <= to <= cs@.len(),
            forall|i: int| from <= i < a ==> is_ws(#[trigger] cs@[i]),
        decreases to - a,
    {
        a = a + 1;
    }
    proof {
        assert forall|i: int| 0 <= i < a - from implies p(#[trigger] s[i]) by {
            assert(s[i] == cs@[from + i]);
        }
        if a < to {
            assert(s[a - from] == cs@[a as int]);
        }
        lemma_trim_start_at(s, p, a - from);
        assert(s.skip(a - from) == cs@.subrange(a as int, to as int));
    }
    let ghost u = cs@.subrange(a as int, to as int);
    let mut b: usize = to;
    while b > a && is_whitespace(cs[b - 1])
        invariant
            a <= b <= to <= cs@.len(),
            forall|i: int| b <= i < to ==> is_ws(#[trigger] cs@[i]),
        decreases b - a,
    {
        b = b - 1;
    }
    proof {
        assert forall|i: int| b - a <= i < u.len() implies p(#[trigger] u[i]) by {
            assert(u[i] == cs@[a + i]);
        }
        if b > a {
            assert(u[b - a - 1] == cs@[b - 1]);
        }
        lemma_trim_end_at(u, p, b - a);
        assert(u.take(b - a) == cs@.subrange(a as int, b as int));
    }
    (a, b)
}

/// Length of `cs` once trailing `'\r'` and `'\n'` are removed.
pub fn strip_line_end_len(cs: &[char]) -> (r: usize)
    ensures
        r <= cs@.len(),
        cs@.take(r as int) == strip_line_end(cs@),
{
    let ghost p = |c: char| is_line_end(c);
    let mut b: usize = cs.len();
    while b > 0 && (cs[b - 1] == '\r' || cs[b - 1] == '\n')
        invariant
            b <= cs@.len(),
            forall|i: int| b <= i < cs@.len() ==> is_line_end(#[trigger] cs@[i]),
        decreases b,
    {
        b = b - 1;
    }
    proof {
        assert forall|i: int| b <= i < cs@.len() implies p(#[trigger] cs@[i]) by {}
        lemma_trim_end_at(cs@, p, b as int);
    }
    b
}

// ---------------------------------------------------------------------------
// Line endings
// ---------------------------------------------------------------------------

/// `s.replace("\r\n", "\n")`.
pub fn crlf_normalized(cs: &[char]) -> (r: Vec<char>)
    ensures
        r@ == crlf_to_lf(cs@),
{
    let mut out: Vec<char> = Vec::new();
    let mut i: usize = 0;
    proof {
        assert(cs@.skip(0) == cs@);
        assert(out@ + crlf_to_lf(cs@) == crlf_to_lf(cs@));
    }
    while i < cs.len()
        invariant
            i <= cs@.len(),
            out@ + crlf_to_lf(cs@.skip(i as int)) == crlf_to_lf(cs@),
        decreases cs.len() - i,
    {
        let ghost rest = cs@.skip(i as int);
        if i + 1 < cs.len() && cs[i] == '\r' && cs[i + 1] == '\n' {
            out.push('\n');
            proof {
                assert(rest[0] == '\r' && rest[1] == '\n');
                assert(rest.skip(2) == cs@.skip(i + 2));
            }
            i = i + 2;
        } else {
            out.push(cs[i]);
            proof {
                assert(rest[0] == cs@[i as int]);
                assert(rest.skip(1) == cs@.skip(i + 1));
            }
            i = i + 1;
        }
    }
    proof {
        assert(cs@.skip(cs@.len() as int).len() == 0);
    }
    out
}

// ---------------------------------------------------------------------------
// Decimal formatting
// ---------------------------------------------------------------------------

fn digit(d: u128) -> (c: char)
    requires
        d < 10,
    ensures
        c == digit_char(d as int),
{
    if d == 0 {
        '0'
    } else if d == 1 {
        '1'
    } else if d == 2 {
        '2'
    } else if d == 3 {
        '3'
    } else if d == 4 {
        '4'
    } else if d == 5 {
        '5'
    } else if d == 6 {
        '6'
    } else if d == 7 {
        '7'
    } else if d == 8 {
        '8'
    } else {
        '9'
    }
}

/// Appends the decimal representation of `n`.
pub fn push_decimal(out: &mut Vec<char>, n: u128)
    ensures
        final(out)@ == old(out)@ + dec(n as nat),
    decreases n,
{
    if n >= 10 {
        push_decimal(out, n / 10);
    }
    out.push(digit(n % 10));
    proof {
        if n >= 10 {
            assert(dec(n as nat) == dec((n / 10) as nat).push(digit_char((n % 10) as int)));
        } else {
            assert(n % 10 == n);
        }
    }
}

/// Appends the decimal representation of `v`, with a `-` when negative.
pub fn push_i32(out: &mut Vec<char>, v: i32)
    ensures
        final(out)@ == old(out)@ + dec_int(v as int),
{
    if v < 0 {
        out.push('-');
        let m: i64 = -(v as i64);
        push_decimal(out, m as u128);
    } else {
        push_decimal(out, v as u128);
    }
}

/// Appends `"true"` or `"false"`.
pub fn push_bool(out: &mut Vec<char>, b: bool)
    ensures
        final(out)@ == old(out)@ + dec_bool(b),
{
    if b {
        out.push('t');
        out.push('r');
        out.push('u');
        out.push('e');
    } else {
        out.push('f');
        out.push('a');
        out.push('l');
        out.push('s');
        out.push('e');
    }
}

// ---------------------------------------------------------------------------
// Decimal parsing
// ---------------------------------------------------------------------------

/// Saturated value of the digit string `cs[from..to]`: its value when that is
/// below `cap`, else `cap`; `None` when a character is not a digit.
fn digits_capped(cs: &[char], from: usize, to: usize, cap: u128) -> (r: Option<u128>)
    requires
        from <= to <= cs@.len(),
        cap <= u64::MAX as u128 + 1,
    ensures
        match r {
            Some(v) => all_digits(cs@.subrange(from as int, to as int)) && v as int == (
            if digits_value(cs@.subrange(from as int, to as int)) < cap {
                digits_value(cs@.subrange(from as int, to as int))
            } else {
                cap as int
            }),
            None => !all_digits(cs@.subrange(from as int, to as int)),
        },
{
    let mut acc: u128 = 0;
    let mut i: usize = from;
    while i < to
        invariant
            from <= i <= to <= cs@.len(),
            cap <= u64::MAX as u128 + 1,
            all_digits(cs@.subrange(from as int, i as int)),
            acc <= cap,
            acc as int == (if digits_value(cs@.subrange(from as int, i as int)) < cap {
                digits_value(cs@.subrange(from as int, i as int))
            } else {
                cap as int
            }),
            digits_value(cs@.subrange(from as int, i as int)) >= 0,
        decreases to - i,
    {
        let c = cs[i];
        let ghost pre = cs@.subrange(from as int, i as int);
        let ghost next = cs@.subrange(from as int, i + 1);
        assert(next.drop_last() == pre);
        assert(next.last() == c);
        if !('0' <= c && c <= '9') {
            proof {
                assert(!is_digit(next[i - from]));
                assert(cs@.subrange(from as int, to as int)[i - from] == c);
            }
            return None;
        }
        let d: u128 = (c as u32 - '0' as u32) as u128;
        assert(d as int == digit_value(c));
        let t: u128 = acc * 10 + d;
        acc = if t < cap {
            t
        } else {
            cap
        };
        proof {
            assert forall|j: int| 0 <= j < next.len() implies is_digit(#[trigger] next[j]) by {
                if j < pre.len() {
                    assert(next[j] == pre[j]);
                }
            }
        }
        i = i + 1;
    }
    Some(acc)
}

/// `str::parse::<u64>` on the characters `cs[from..to]`.
pub fn parse_u64(cs: &[char], from: usize, to: usize) -> (r: Option<u64>)
    requires
        from <= to <= cs@.len(),
    ensures
        r == parse_u64_spec(cs@.subrange(from as int, to as int)),
{
    let ghost s = cs@.subrange(from as int, to as int);
    let start: usize = if from < to && cs[from] == '+' {
        from + 1
    } else {
        from
    };
    proof {
        if from < to && cs@[from as int] == '+' {
            assert(s[0] == '+');
            assert(s.drop_first() == cs@.subrange(start as int, to as int));
        } else {
            assert(s.len() > 0 ==> s[0] == cs@[from as int]);
        }
    }
    if start == to {
        return None;
    }
    let cap: u128 = u64::MAX as u128 + 1;
    match digits_capped(cs, start, to, cap) {
        Some(v) => if v < cap {
            Some(v as u64)
        } else {
            None
        },
        None => None,
    }
}

/// `str::parse::<i32>` on the characters `cs[from..to]`.
pub fn parse_i32(cs: &[char], from: usize, to: usize) -> (r: Option<i32>)
    requires
        from <= to <= cs@.len(),
    ensures
        r == parse_i32_spec(cs@.subrange(from as int, to as int)),
{
    let ghost s = cs@.subrange(from as int, to as int);
    if from < to && cs[from] == '-' {
        proof {
            assert(s[0] == '-');
            assert(s.drop_first() == cs@.subrange(from + 1, to as int));
        }
        if from + 1 == to {
            return None;
        }
        let cap: u128 = 2147483649;
        match digits_capped(cs, from + 1, to, cap) {
            Some(v) => if v <= 2147483648 {
                let m: i64 = v as i64;
                Some((-m) as i32)
            } else {
                None
            },
            None => None,
        }
    } else {
        proof {
            assert(s.len() > 0 ==> s[0] == cs@[from as int]);
        }
        let start: usize = if from < to && cs[from] == '+' {
            from + 1
        } else {
            from
        };
        proof {
            if from < to && cs@[from as int] == '+' {
                assert(s.drop_first() == cs@.subrange(start as int, to as int));
            }
        }
        if start == to {
            return None;
        }
        let cap: u128 = 2147483648;
        match digits_capped(cs, start, to, cap) {
            Some(v) => if v < cap {
                Some(v as i32)
            } else {
                None
            },
            None => None,
        }
    }
}

// ---------------------------------------------------------------------------
// Searching
// ---------------------------------------------------------------------------

/// `needle` occurs in `hay` at position `i`.
pub fn chars_occur_at(hay: &[char], needle: &[char], i: usize) -> (r: bool)
    ensures
        r == occurs_at(hay@, needle@, i as int),
{
    if needle.len() > hay.len() || i > hay.len() - needle.len() {
        return false;
    }
    let mut k: usize = 0;
    while k < needle.len()
        invariant
            i + needle@.len() <= hay@.len(),
            hay@.len() <= usize::MAX,
            k <= needle@.len(),
            forall|j: int| 0 <= j < k ==> hay@[i + j] == needle@[j],
        decreases needle.len() - k,
    {
        if hay[i + k] != needle[k] {
            proof {
                assert(hay@.subrange(i as int, i + needle@.len())[k as int] != needle@[k as int]);
            }
            return false;
        }
        k = k + 1;
    }
    proof {
        assert(hay@.subrange(i as int, i + needle@.len()) =~= needle@);
    }
    true
}

/// `str::rfind` with a non-empty pattern.
pub fn rfind_chars(hay: &[char], needle: &[char]) -> (r: Option<usize>)
    ensures
        match r {
            Some(i) => last_occurrence(hay@, needle@) == Some(i as int) && is_last_occurrence(
                hay@,
                needle@,
                i as int,
            ),
            None => last_occurrence(hay@, needle@) == None::<int> && !occurs_in(hay@, needle@),
        },
{
    let mut i: usize = hay.len();
    loop
        invariant
            i <= hay@.len(),
            forall|j: int| i < j ==> !occurs_at(hay@, needle@, j),
        decreases i,
    {
        if chars_occur_at(hay, needle, i) {
            proof {
                let k = i as int;
                assert(is_last_occurrence(hay@, needle@, k));
                let c = choose|c: int| is_last_occurrence(hay@, needle@, c);
                assert(c == k);
            }
            return Some(i);
        }
        if i == 0 {
            proof {
                assert forall|j: int| !occurs_at(hay@, needle@, j) by {
                    if j < 0 {
                    }
                }
            }
            return None;
        }
        i = i - 1;
    }
}

/// Index of the last `c` in `cs[..k]` (`str::rfind` with a `char`).
pub fn rfind_char_before(cs: &[char], c: char, k: usize) -> (r: Option<usize>)
    requires
        k <= cs@.len(),
    ensures
        match r {
            Some(i) => last_char_before(cs@, c, k as int) == Some(i as int) && i < k,
            None => last_char_before(cs@, c, k as int) == None::<int>,
        },
{
    let mut i: usize = k;
    while i > 0
        invariant
            i <= k <= cs@.len(),
            last_char_before(cs@, c, i as int) == last_char_before(cs@, c, k as int),
        decreases i,
    {
        if cs[i - 1] == c {
            return Some(i - 1);
        }
        i = i - 1;
    }
    None
}

/// Index of the first `c` in `cs[k..]` (`str::find` with a `char`).
pub fn find_char_from(cs: &[char], c: char, k: usize) -> (r: Option<usize>)
    requires
        k <= cs@.len(),
    ensures
        match r {
            Some(i) => first_char_from(cs@, c, k as int) == Some(i as int) && k <= i < cs@.len(),
            None => first_char_from(cs@, c, k as int) == None::<int>,
        },
{
    let mut i: usize = k;
    while i < cs.len()
        invariant
            k <= i <= cs@.len(),
            first_char_from(cs@, c, i as int) == first_char_from(cs@, c, k as int),
            forall|j: int| k <= j < i ==> cs@[j] != c,
        decreases cs.len() - i,
    {
        if cs[i] == c {
            return Some(i);
        }
        i = i + 1;
    }
    None
}

// ---------------------------------------------------------------------------
// Lemmas
// ---------------------------------------------------------------------------

/// The first `c` at or after `k` is at `m` when `s[m] == c` and no `c`
/// stands in between.
pub proof fn lemma_first_char_at(s: Seq<char>, c: char, k: int, m: int)
    requires
        0 <= k <= m < s.len(),
        s[m] == c,
        forall|j: int| k <= j < m ==> s[j] != c,
    ensures
        first_char_from(s, c, k) == Some(m),
    decreases m - k,
{
    if k < m {
        lemma_first_char_at(s, c, k + 1, m);
    }
}

/// Trimming the front of `a + b` stops inside `a` or at the start of `b`.
pub proof fn lemma_trim_start_concat(a: Seq<char>, b: Seq<char>, p: spec_fn(char) -> bool)
    requires
        b.len() > 0,
        !p(b[0]),
    ensures
        trim_start_while(a + b, p) == trim_start_while(a, p) + b,
    decreases a.len(),
{
    if a.len() == 0 {
        assert(a + b == b);
    } else {
        assert((a + b)[0] == a[0]);
        if p(a[0]) {
            assert((a + b).drop_first() == a.drop_first() + b);
            lemma_trim_start_concat(a.drop_first(), b, p);
        }
    }
}

/// What trimming the front leaves is a suffix of the input.
pub proof fn lemma_trim_start_suffix(s: Seq<char>, p: spec_fn(char) -> bool) -> (n: int)
    ensures
        0 <= n <= s.len(),
        trim_start_while(s, p) == s.skip(n),
    decreases s.len(),
{
    if s.len() > 0 && p(s[0]) {
        let k = lemma_trim_start_suffix(s.drop_first(), p);
        assert(s.drop_first().skip(k) == s.skip(k + 1));
        k + 1
    } else {
        assert(s.skip(0) == s);
        0
    }
}

proof fn lemma_digit_char(d: int)
    requires
        0 <= d < 10,
    ensures
        is_digit(digit_char(d)),
        digit_value(digit_char(d)) == d,
{
}

/// `dec(n)` is a non-empty string of digits whose value is `n`.
pub proof fn lemma_dec(n: nat)
    ensures
        dec(n).len() > 0,
        all_digits(dec(n)),
        digits_value(dec(n)) == n,
    decreases n,
{
    if n < 10 {
        lemma_digit_char(n as int);
        assert(dec(n).drop_last() == Seq::<char>::empty());
        assert(digits_value(Seq::<char>::empty()) == 0);
        assert(dec(n).last() == digit_char(n as int));
        assert(digits_value(dec(n)) == digits_value(dec(n).drop_last()) * 10 + digit_value(
            dec(n).last(),
        ));
    } else {
        lemma_dec(n / 10);
        lemma_digit_char((n % 10) as int);
        let d = dec(n);
        assert(d.drop_last() == dec(n / 10));
        assert(d.last() == digit_char((n % 10) as int));
        assert(digits_value(d) == digits_value(dec(n / 10)) * 10 + digit_value(d.last()));
        assert(n == (n / 10) * 10 + n % 10) by (nonlinear_arith);
        assert forall|i: int| 0 <= i < d.len() implies is_digit(#[trigger] d[i]) by {
            if i < d.len() - 1 {
                assert(d[i] == dec(n / 10)[i]);
            }
        }
    }
}

/// Parsing the decimal text of an `i32` gives it back.
pub proof fn lemma_parse_i32_dec_int(v: i32)
    ensures
        parse_i32_spec(dec_int(v as int)) == Some(v),
        forall|i: int|
            0 <= i < dec_int(v as int).len() ==> is_digit(#[trigger] dec_int(v as int)[i])
                || dec_int(v as int)[i] == '-',
{
    let s = dec_int(v as int);
    if v < 0 {
        let m = (-(v as int)) as nat;
        lemma_dec(m);
        assert(s.drop_first() == dec(m));
        assert forall|i: int| 0 <= i < s.len() implies is_digit(#[trigger] s[i]) || s[i] == '-' by {
            if i > 0 {
                assert(s[i] == dec(m)[i - 1]);
            }
        }
    } else {
        lemma_dec(v as nat);
        assert(is_digit(s[0]));
    }
}

/// Law: a text without `'\r'` is left as it is by line-ending normalisation.
pub proof fn lemma_crlf_to_lf_plain(s: Seq<char>)
    requires
        forall|i: int| 0 <= i < s.len() ==> #[trigger] s[i] != '\r',
    ensures
        crlf_to_lf(s) == s,
    decreases s.len(),
{
    if s.len() > 0 {
        let t = s.skip(1);
        assert forall|i: int| 0 <= i < t.len() implies #[trigger] t[i] != '\r' by {
            assert(t[i] == s[i + 1]);
        }
        lemma_crlf_to_lf_plain(t);
        assert(seq![s[0]] + t == s);
    }
}

/// Law: normalisation turns each CRLF into exactly one LF and keeps the text
/// on both sides of it: for `s1` not ending in `'\r'`, normalising
/// `s1 + "\r\n" + s2` gives the normalised `s1`, one `'\n'`, and the
/// normalised `s2`.
pub proof fn lemma_crlf_to_lf_split(s1: Seq<char>, s2: Seq<char>)
    requires
        s1.len() == 0 || s1.last() != '\r',
    ensures
        crlf_to_lf(s1 + seq!['\r', '\n'] + s2) == crlf_to_lf(s1) + seq!['\n'] + crlf_to_lf(s2),
    decreases s1.len(),
{
    let w = s1 + seq!['\r', '\n'] + s2;
    if s1.len() == 0 {
        assert(w == seq!['\r', '\n'] + s2);
        assert(w.skip(2) == s2);
        assert(crlf_to_lf(s1) == s1);
        assert(s1 + seq!['\n'] + crlf_to_lf(s2) == seq!['\n'] + crlf_to_lf(s2));
    } else if s1.len() >= 2 && s1[0] == '\r' && s1[1] == '\n' {
        let r = s1.skip(2);
        assert(w[0] == '\r' && w[1] == '\n');
        assert(w.skip(2) == r + seq!['\r', '\n'] + s2);
        if r.len() > 0 {
            assert(r.last() == s1.last());
        }
        lemma_crlf_to_lf_split(r, s2);
        assert(crlf_to_lf(s1) == seq!['\n'] + crlf_to_lf(r));
        assert(crlf_to_lf(w) == seq!['\n'] + crlf_to_lf(w.skip(2)));
    } else {
        let r = s1.skip(1);
        assert(w[0] == s1[0]);
        if s1.len() == 1 {
            assert(w[1] == '\r');
            assert(s1[0] != '\r');
        } else {
            assert(w[1] == s1[1]);
        }
        assert(!(w.len() >= 2 && w[0] == '\r' && w[1] == '\n'));
        assert(w.skip(1) == r + seq!['\r', '\n'] + s2);
        if r.len() > 0 {
            assert(r.last() == s1.last());
        }
        lemma_crlf_to_lf_split(r, s2);
        assert(crlf_to_lf(s1) == seq![s1[0]] + crlf_to_lf(r));
        assert(crlf_to_lf(w) == seq![w[0]] + crlf_to_lf(w.skip(1)));
    }
}

} // verus!
