//! The decisions and text processing around the native LinuxKit engine: the
//! shell script wrapped around a one-shot command, the sentinel trailer that
//! marks where its output ends, parsing that trailer back, and the small
//! status checks made around the engine's C entry points.
use vstd::prelude::*;
use vstd::utf8::*;
use crate::text::{
    chars_of, find_char_from, first_char_from, last_char_before, last_occurrence, occurs_at,
    occurs_in, parse_i32, parse_i32_spec, push_chars, push_range, rfind_char_before, rfind_chars,
    string_of, trim, trim_bounds, dec_int, is_ws, is_last_occurrence, trim_start_while,
    trim_end_while, lemma_first_char_at, lemma_trim_start_concat, lemma_trim_start_suffix,
    lemma_parse_i32_dec_int, crlf_normalized, crlf_to_lf, dec, is_digit, lemma_dec, lossy_utf8,
    push_decimal, push_i32, push_str, strip_line_end, strip_line_end_len, utf8_lossy,
};

verus! {

/// Default time a one-shot command may run, in seconds.
pub const COMMAND_TIMEOUT_SECS: u64 = 30;

// ---------------------------------------------------------------------------
// Byte search
// ---------------------------------------------------------------------------

/// `needle` is non-empty and occurs as a contiguous run inside `haystack`.
pub fn contains_bytes(haystack: &[u8], needle: &[u8]) -> (r: bool)
    ensures
        r == (needle@.len() > 0 && occurs_in(haystack@, needle@)),
{
    if needle.len() == 0 {
        return false;
    }
    if needle.len() > haystack.len() {
        proof {
            assert forall|i: int| !occurs_at(haystack@, needle@, i) by {}
        }
        return false;
    }
    let last: usize = haystack.len() - needle.len();
    let mut i: usize = 0;
    while i <= last
        invariant
            last + needle@.len() == haystack@.len(),
            haystack@.len() <= usize::MAX,
            0 < needle@.len(),
            i <= last + 1,
            forall|j: int| 0 <= j < i ==> !occurs_at(haystack@, needle@, j),
        decreases last + 1 - i,
    {
        let mut k: usize = 0;
        let mut same = true;
        while k < needle.len()
            invariant
                i <= last,
                last + needle@.len() == haystack@.len(),
                haystack@.len() <= usize::MAX,
                k <= needle@.len(),
                same ==> forall|m: int| 0 <= m < k ==> haystack@[i + m] == needle@[m],
                !same ==> !occurs_at(haystack@, needle@, i as int),
            decreases needle.len() - k,
        {
            if same && haystack[i + k] != needle[k] {
                proof {
                    assert(haystack@.subrange(i as int, i + needle@.len())[k as int]
                        != needle@[k as int]);
                }
                same = false;
            }
            k = k + 1;
        }
        if same {
            proof {
                assert(haystack@.subrange(i as int, i + needle@.len()) =~= needle@);
                assert(occurs_at(haystack@, needle@, i as int));
            }
            return true;
        }
        i = i + 1;
    }
    proof {
        assert forall|j: int| !occurs_at(haystack@, needle@, j) by {
            if 0 <= j && j < i {
            }
        }
    }
    false
}

// ---------------------------------------------------------------------------
// Single-quoting for the guest shell
// ---------------------------------------------------------------------------

/// How one character is written inside single quotes: a quote closes the
/// quoting, is escaped with a backslash, and reopens it.
pub open spec fn quote_piece(c: char) -> Seq<char> {
    if c == '\'' {
        seq!['\'', '\\', '\'', '\'']
    } else {
        seq![c]
    }
}

/// The quoted form of the characters of `s`, without the outer quotes.
pub open spec fn quote_body(s: Seq<char>) -> Seq<char>
    decreases s.len(),
{
    if s.len() == 0 {
        s
    } else {
        quote_piece(s[0]) + quote_body(s.drop_first())
    }
}

/// `s` as one single-quoted shell word.
pub open spec fn shell_quoted(s: Seq<char>) -> Seq<char> {
    seq!['\''] + quote_body(s) + seq!['\'']
}

/// The value of a shell word made of single-quoted runs and backslash-escaped
/// characters (POSIX quoting), or `None` when the word holds anything else or
/// leaves a quote open. `quoted` says whether a single quote is open.
pub open spec fn word_value(s: Seq<char>, quoted: bool) -> Option<Seq<char>>
    decreases s.len(),
{
    if s.len() == 0 {
        if quoted {
            None
        } else {
            Some(Seq::<char>::empty())
        }
    } else if quoted {
        if s[0] == '\'' {
            word_value(s.drop_first(), false)
        } else {
            match word_value(s.drop_first(), true) {
                Some(v) => Some(seq![s[0]] + v),
                None => None,
            }
        }
    } else if s[0] == '\'' {
        word_value(s.drop_first(), true)
    } else if s[0] == '\\' && s.len() >= 2 {
        match word_value(s.skip(2), false) {
            Some(v) => Some(seq![s[1]] + v),
            None => None,
        }
    } else {
        None
    }
}

proof fn lemma_quote_body_push(s: Seq<char>, c: char)
    ensures
        quote_body(s.push(c)) == quote_body(s) + quote_piece(c),
    decreases s.len(),
{
    if s.len() == 0 {
        assert(s.push(c).drop_first() == s);
        assert(quote_body(s) == Seq::<char>::empty());
    } else {
        assert(s.push(c).drop_first() == s.drop_first().push(c));
        lemma_quote_body_push(s.drop_first(), c);
    }
}

proof fn lemma_quoted_run(s: Seq<char>)
    ensures
        word_value(quote_body(s) + seq!['\''], true) == Some(s),
    decreases s.len(),
{
    let empty = Seq::<char>::empty();
    if s.len() == 0 {
        assert(quote_body(s) + seq!['\''] == seq!['\'']);
        assert(seq!['\''].drop_first() == empty);
        assert(word_value(empty, false) == Some(empty));
        assert(word_value(seq!['\''], true) == word_value(empty, false));
        assert(s == empty);
    } else {
        let rest = s.drop_first();
        let tail = quote_body(rest) + seq!['\''];
        lemma_quoted_run(rest);
        let w = quote_body(s) + seq!['\''];
        assert(w == quote_piece(s[0]) + tail);
        if s[0] == '\'' {
            let w1 = w.drop_first();
            let w2 = seq!['\''] + tail;
            assert(w1 == seq!['\\', '\'', '\''] + tail);
            assert(w1[0] == '\\' && w1.len() >= 2 && w1[1] == '\'');
            assert(w1.skip(2) == w2);
            assert(w2.drop_first() == tail);
            assert(word_value(w2, false) == word_value(tail, true));
            assert(word_value(w1, false) == Some(seq!['\''] + rest));
            assert(word_value(w, true) == word_value(w1, false));
            assert(seq!['\''] + rest == s);
        } else {
            assert(w[0] == s[0]);
            assert(w.drop_first() == tail);
            assert(word_value(w, true) == Some(seq![s[0]] + rest));
            assert(seq![s[0]] + rest == s);
        }
    }
}

/// Law: the guest shell reads `shell_quote(s)` back as exactly `s`, whatever
/// characters `s` holds.
pub proof fn lemma_shell_quote_round_trip(s: Seq<char>)
    ensures
        word_value(shell_quoted(s), false) == Some(s),
{
    lemma_quoted_run(s);
    let w = shell_quoted(s);
    assert(w.drop_first() == quote_body(s) + seq!['\'']);
}

/// Wraps `value` in single quotes for the guest shell, writing each `'` as
/// `'\''`.
pub fn shell_quote(value: &str) -> (r: String)
    ensures
        r@ == shell_quoted(value@),
{
    let cs = chars_of(value);
    let mut out: Vec<char> = Vec::new();
    out.push('\'');
    let mut i: usize = 0;
    while i < cs.len()
        invariant
            i <= cs@.len(),
            out@ == seq!['\''] + quote_body(cs@.take(i as int)),
        decreases cs.len() - i,
    {
        let c = cs[i];
        if c == '\'' {
            out.push('\'');
            out.push('\\');
            out.push('\'');
            out.push('\'');
        } else {
            out.push(c);
        }
        proof {
            assert(cs@.take(i + 1) == cs@.take(i as int).push(c));
            lemma_quote_body_push(cs@.take(i as int), c);
        }
        i = i + 1;
    }
    out.push('\'');
    proof {
        assert(cs@.take(cs@.len() as int) == cs@);
    }
    string_of(&out)
}

// ---------------------------------------------------------------------------
// The sentinel trailer
// ---------------------------------------------------------------------------

/// What `parse_command_output` gives for the output text `raw` and the
/// sentinel `sentinel`: the last line holding `sentinel:` is read as
/// `sentinel:<exit code>:<cwd>` (the line trimmed, split at its first two
/// colons); the result is the text with that line removed, the exit code, and
/// the cwd (`/root` when the line has no second colon).
pub open spec fn parse_output_spec(raw: Seq<char>, sentinel: Seq<char>) -> Option<
    (Seq<char>, i32, Seq<char>),
> {
    match last_occurrence(raw, sentinel.push(':')) {
        None => None,
        Some(idx) => {
            let line_start = match last_char_before(raw, '\n', idx) {
                Some(p) => p + 1,
                None => 0,
            };
            let line_end = match first_char_from(raw, '\n', idx) {
                Some(o) => o + 1,
                None => raw.len() as int,
            };
            let line = trim(raw.subrange(idx, line_end));
            match first_char_from(line, ':', 0) {
                None => None,
                Some(a) => {
                    let second = first_char_from(line, ':', a + 1);
                    let code_end = match second {
                        Some(b) => b,
                        None => line.len() as int,
                    };
                    match parse_i32_spec(line.subrange(a + 1, code_end)) {
                        None => None,
                        Some(code) => Some(
                            (
                                raw.subrange(0, line_start) + raw.subrange(line_end, raw.len() as int),
                                code,
                                match second {
                                    Some(b) => line.subrange(b + 1, line.len() as int),
                                    None => seq!['/', 'r', 'o', 'o', 't'],
                                },
                            ),
                        ),
                    }
                },
            }
        },
    }
}

/// `r` is the exec form of the spec result `s`.
pub open spec fn parsed_output_is(
    r: Option<(Vec<char>, i32, Vec<char>)>,
    s: Option<(Seq<char>, i32, Seq<char>)>,
) -> bool {
    match (r, s) {
        (None, None) => true,
        (Some(x), Some(y)) => x.0@ == y.0 && x.1 == y.1 && x.2@ == y.2,
        _ => false,
    }
}

fn slice_to_vec(cs: &[char], from: usize, to: usize) -> (r: Vec<char>)
    requires
        from <= to <= cs@.len(),
    ensures
        r@ == cs@.subrange(from as int, to as int),
{
    let mut out: Vec<char> = Vec::new();
    push_range(&mut out, cs, from, to);
    out
}

/// Character-level form of `parse_command_output`.
pub fn parse_output_chars(raw: &[char], sentinel: &[char]) -> (r: Option<(Vec<char>, i32, Vec<char>)>)
    ensures
        parsed_output_is(r, parse_output_spec(raw@, sentinel@)),
{
    let mut marker: Vec<char> = Vec::new();
    push_chars(&mut marker, sentinel);
    marker.push(':');
    assert(marker@ == sentinel@.push(':'));
    let idx = match rfind_chars(raw, &marker) {
        Some(i) => i,
        None => return None,
    };
    proof {
        assert(occurs_at(raw@, marker@, idx as int));
    }
    let line_start: usize = match rfind_char_before(raw, '\n', idx) {
        Some(p) => p + 1,
        None => 0,
    };
    let n = raw.len();
    let line_end: usize = match find_char_from(raw, '\n', idx) {
        Some(o) => {
            assert(o < n);
            o + 1
        },
        None => n,
    };
    proof {
        assert(line_end as int == match first_char_from(raw@, '\n', idx as int) {
            Some(o) => o + 1,
            None => raw@.len() as int,
        });
        assert(line_start as int == match last_char_before(raw@, '\n', idx as int) {
            Some(p) => p + 1,
            None => 0,
        });
    }
    let (ta, tb) = trim_bounds(raw, idx, line_end);
    let line = slice_to_vec(raw, ta, tb);
    assert(line@ == trim(raw@.subrange(idx as int, line_end as int)));
    let a = match find_char_from(&line, ':', 0) {
        Some(a) => a,
        None => return None,
    };
    let second = find_char_from(&line, ':', a + 1);
    let code_end: usize = match second {
        Some(b) => b,
        None => line.len(),
    };
    let code = match parse_i32(&line, a + 1, code_end) {
        Some(c) => c,
        None => return None,
    };
    let mut cwd_after: Vec<char> = Vec::new();
    match second {
        Some(b) => push_range(&mut cwd_after, &line, b + 1, line.len()),
        None => {
            cwd_after.push('/');
            cwd_after.push('r');
            cwd_after.push('o');
            cwd_after.push('o');
            cwd_after.push('t');
        },
    }
    let mut stdout: Vec<char> = Vec::new();
    push_range(&mut stdout, raw, 0, line_start);
    push_range(&mut stdout, raw, line_end, raw.len());
    proof {
        assert(stdout@ == raw@.subrange(0, line_start as int) + raw@.subrange(
            line_end as int,
            raw@.len() as int,
        ));
        let t = parse_output_spec(raw@, sentinel@).unwrap();
        assert(t.1 == code);
        assert(t.0 == stdout@);
        assert(t.2 == cwd_after@);
    }
    Some((stdout, code, cwd_after))
}

/// Splits the output of a wrapped command at its sentinel trailer
/// (`<sentinel>:<exit code>:<cwd>`): the output without the trailer line, the
/// exit code and the cwd after the command; `None` when no well-formed
/// trailer is found.
pub fn parse_command_output(raw: &str, sentinel: &str) -> (r: Option<(String, i32, String)>)
    ensures
        match (r, parse_output_spec(raw@, sentinel@)) {
            (None, None) => true,
            (Some(x), Some(y)) => x.0@ == y.0 && x.1 == y.1 && x.2@ == y.2,
            _ => false,
        },
{
    let rc = chars_of(raw);
    let sc = chars_of(sentinel);
    match parse_output_chars(&rc, &sc) {
        Some((o, c, w)) => Some((string_of(&o), c, string_of(&w))),
        None => None,
    }
}

/// The trailer line the wrapped script prints once the command is done:
/// `<sentinel>:<exit code>:<cwd>` and a newline.
pub open spec fn trailer_line(sentinel: Seq<char>, code: i32, cwd: Seq<char>) -> Seq<char> {
    sentinel.push(':') + dec_int(code as int) + seq![':'] + cwd + seq!['\n']
}

proof fn lemma_trailer_marker(
    head: Seq<char>,
    sentinel: Seq<char>,
    code: i32,
    cwd: Seq<char>,
    rest: Seq<char>,
)
    requires
        forall|i: int| 0 <= i < sentinel.len() ==> #[trigger] sentinel[i] != '\n',
        !occurs_in(trailer_line(sentinel, code, cwd).drop_first(), sentinel.push(':')),
        !occurs_in(rest, sentinel.push(':')),
    ensures
        last_occurrence(head + trailer_line(sentinel, code, cwd) + rest, sentinel.push(':'))
            == Some(head.len() as int),
{
    let m = sentinel.push(':');
    let t = trailer_line(sentinel, code, cwd);
    let raw = head + t + rest;
    let idx = head.len() as int;
    let end = idx + t.len();
    assert(raw.subrange(idx, idx + m.len()) == m);
    assert(occurs_at(raw, m, idx));
    assert(raw[end - 1] == '\n');
    assert forall|j: int| idx < j implies !occurs_at(raw, m, j) by {
        if occurs_at(raw, m, j) {
            if j + m.len() <= end {
                let td = t.drop_first();
                assert(td.subrange(j - idx - 1, j - idx - 1 + m.len()) == raw.subrange(
                    j,
                    j + m.len(),
                ));
                assert(occurs_at(td, m, j - idx - 1));
            } else if j >= end {
                assert(rest.subrange(j - end, j - end + m.len()) == raw.subrange(j, j + m.len()));
                assert(occurs_at(rest, m, j - end));
            } else {
                let k = end - 1 - j;
                assert(raw.subrange(j, j + m.len())[k] == raw[end - 1]);
                assert(m[k] == '\n');
                if k < sentinel.len() {
                    assert(m[k] == sentinel[k]);
                }
            }
        }
    }
    assert(is_last_occurrence(raw, m, idx));
    let c = choose|c: int| is_last_occurrence(raw, m, c);
    assert(c == idx);
}

proof fn lemma_trailer_line_end(
    head: Seq<char>,
    sentinel: Seq<char>,
    code: i32,
    cwd: Seq<char>,
    rest: Seq<char>,
)
    requires
        forall|i: int| 0 <= i < sentinel.len() ==> #[trigger] sentinel[i] != '\n',
        forall|i: int| 0 <= i < cwd.len() ==> #[trigger] cwd[i] != '\n',
    ensures
        first_char_from(head + trailer_line(sentinel, code, cwd) + rest, '\n', head.len() as int)
            == Some((head.len() + trailer_line(sentinel, code, cwd).len() - 1) as int),
{
    let m = sentinel.push(':');
    let d = dec_int(code as int);
    let t = trailer_line(sentinel, code, cwd);
    let raw = head + t + rest;
    let idx = head.len() as int;
    let end = idx + t.len();
    lemma_parse_i32_dec_int(code);
    let body = m + d + seq![':'] + cwd;
    assert(t == body.push('\n'));
    assert forall|j: int| idx <= j < end - 1 implies raw[j] != '\n' by {
        let k = j - idx;
        assert(raw[j] == body[k]);
        if k < sentinel.len() {
            assert(body[k] == sentinel[k]);
        } else if k == sentinel.len() {
        } else if k < m.len() + d.len() {
            assert(body[k] == d[k - m.len()]);
        } else if k == m.len() + d.len() {
        } else {
            assert(body[k] == cwd[k - m.len() - d.len() - 1]);
        }
    }
    assert(raw[end - 1] == '\n');
    lemma_first_char_at(raw, '\n', idx, end - 1);
}

/// The trailer line once trimmed: the sentinel without its leading whitespace,
/// then `:<exit code>:<cwd>`. Returns how much of the sentinel was trimmed.
proof fn lemma_trailer_trim(sentinel: Seq<char>, code: i32, cwd: Seq<char>) -> (n: int)
    requires
        cwd.len() > 0 ==> !is_ws(cwd.last()),
    ensures
        0 <= n <= sentinel.len(),
        trim(trailer_line(sentinel, code, cwd)) == sentinel.skip(n) + seq![':'] + dec_int(
            code as int,
        ) + seq![':'] + cwd,
{
    let d = dec_int(code as int);
    let t = trailer_line(sentinel, code, cwd);
    let ws = |ch: char| is_ws(ch);
    let rest = seq![':'] + d + seq![':'] + cwd + seq!['\n'];
    assert(t == sentinel + rest);
    assert(!ws(rest[0]));
    lemma_trim_start_concat(sentinel, rest, ws);
    let n = lemma_trim_start_suffix(sentinel, ws);
    let s2 = sentinel.skip(n);
    let line = s2 + seq![':'] + d + seq![':'] + cwd;
    assert(s2 + rest == line.push('\n'));
    assert(trim_start_while(t, ws) == line.push('\n'));
    if cwd.len() > 0 {
        assert(line.last() == cwd.last());
    } else {
        assert(line.last() == ':');
    }
    assert(line.push('\n').drop_last() == line);
    assert(trim_end_while(line, ws) == line);
    assert(trim_end_while(line.push('\n'), ws) == line);
    n
}

proof fn lemma_trailer_fields(s2: Seq<char>, code: i32, cwd: Seq<char>)
    requires
        forall|i: int| 0 <= i < s2.len() ==> #[trigger] s2[i] != ':',
    ensures
        ({
            let d = dec_int(code as int);
            let line = s2 + seq![':'] + d + seq![':'] + cwd;
            let a = s2.len() as int;
            let b = a + 1 + d.len();
            &&& first_char_from(line, ':', 0) == Some(a)
            &&& first_char_from(line, ':', a + 1) == Some(b)
            &&& line.subrange(a + 1, b) == d
            &&& line.subrange(b + 1, line.len() as int) == cwd
            &&& parse_i32_spec(d) == Some(code)
        }),
{
    let d = dec_int(code as int);
    let line = s2 + seq![':'] + d + seq![':'] + cwd;
    let a = s2.len() as int;
    let b = a + 1 + d.len();
    lemma_parse_i32_dec_int(code);
    assert forall|j: int| 0 <= j < a implies line[j] != ':' by {
        assert(line[j] == s2[j]);
    }
    assert(line[a] == ':');
    lemma_first_char_at(line, ':', 0, a);
    assert forall|j: int| a + 1 <= j < b implies line[j] != ':' by {
        assert(line[j] == d[j - a - 1]);
    }
    assert(line[b] == ':');
    lemma_first_char_at(line, ':', a + 1, b);
    assert(line.subrange(a + 1, b) == d);
    assert(line.subrange(b + 1, line.len() as int) == cwd);
}

/// Law: when a command's output `out` is followed by a newline, the trailer
/// line, and any further text `rest`, parsing gives back exactly `out`, its
/// newline and `rest` with the trailer line cut out, the exit code and the
/// cwd. This holds whenever the sentinel holds no `:` or newline, the cwd
/// holds no newline and does not end in whitespace, the trailer holds its
/// `<sentinel>:` only once, at its start, and `rest` does not hold it.
pub proof fn lemma_trailer_round_trip(
    out: Seq<char>,
    sentinel: Seq<char>,
    code: i32,
    cwd: Seq<char>,
    rest: Seq<char>,
)
    requires
        forall|i: int| 0 <= i < sentinel.len() ==> #[trigger] sentinel[i] != ':' && sentinel[i] != '\n',
        forall|i: int| 0 <= i < cwd.len() ==> #[trigger] cwd[i] != '\n',
        cwd.len() > 0 ==> !is_ws(cwd.last()),
        !occurs_in(trailer_line(sentinel, code, cwd).drop_first(), sentinel.push(':')),
        !occurs_in(rest, sentinel.push(':')),
    ensures
        parse_output_spec(out.push('\n') + trailer_line(sentinel, code, cwd) + rest, sentinel)
            == Some((out.push('\n') + rest, code, cwd)),
{
    let t = trailer_line(sentinel, code, cwd);
    let head = out.push('\n');
    let raw = head + t + rest;
    let idx = head.len() as int;
    let end = idx + t.len();
    lemma_trailer_marker(head, sentinel, code, cwd, rest);
    assert(raw[idx - 1] == '\n');
    assert(last_char_before(raw, '\n', idx) == Some(idx - 1));
    lemma_trailer_line_end(head, sentinel, code, cwd, rest);
    assert(raw.subrange(idx, end) == t);
    assert(raw.subrange(0, idx) == head);
    assert(raw.subrange(end, raw.len() as int) == rest);
    let n = lemma_trailer_trim(sentinel, code, cwd);
    let s2 = sentinel.skip(n);
    assert forall|i: int| 0 <= i < s2.len() implies #[trigger] s2[i] != ':' by {
        assert(s2[i] == sentinel[i + n]);
    }
    lemma_trailer_fields(s2, code, cwd);
}
// ---------------------------------------------------------------------------
// One-shot commands
// ---------------------------------------------------------------------------

/// What a one-shot command run in the guest produced.
#[derive(Debug)]
pub struct NativeCommandOutput {
    pub stdout: String,
    pub stderr: String,
    pub exit_code: i32,
    pub timed_out: bool,
    pub cwd_after: String,
}

/// The sentinel for a command started `nanos` nanoseconds after the epoch.
pub open spec fn sentinel_spec(nanos: u128) -> Seq<char> {
    "__TERAX_DONE_"@ + dec(nanos as nat) + "__"@
}

/// `__TERAX_DONE_<nanos>__`, the marker that ends a wrapped command's output.
pub fn command_sentinel(nanos: u128) -> (r: String)
    ensures
        r@ == sentinel_spec(nanos),
{
    let mut out: Vec<char> = Vec::new();
    push_str(&mut out, "__TERAX_DONE_");
    push_decimal(&mut out, nanos);
    push_str(&mut out, "__");
    string_of(&out)
}

/// Law: a sentinel holds no `:` and no newline, so it can head a trailer line
/// (see `lemma_trailer_round_trip`).
pub proof fn lemma_sentinel_plain(nanos: u128)
    ensures
        forall|i: int|
            0 <= i < sentinel_spec(nanos).len() ==> #[trigger] sentinel_spec(nanos)[i] != ':'
                && sentinel_spec(nanos)[i] != '\n',
{
    reveal_strlit("__TERAX_DONE_");
    reveal_strlit("__");
    let a = "__TERAX_DONE_"@;
    let d = dec(nanos as nat);
    let s = sentinel_spec(nanos);
    lemma_dec(nanos as nat);
    assert forall|i: int| 0 <= i < s.len() implies #[trigger] s[i] != ':' && s[i] != '\n' by {
        if i < a.len() {
            assert(s[i] == a[i]);
        } else if i < a.len() + d.len() {
            assert(s[i] == d[i - a.len()]);
            assert(is_digit(d[i - a.len()]));
        } else {
            assert(s[i] == '_');
        }
    }
}

/// The script run for a one-shot command: enter `cwd`, run the command, and
/// print the sentinel trailer with its exit status and final directory.
pub open spec fn command_script_spec(command: Seq<char>, cwd: Seq<char>, sentinel: Seq<char>) -> Seq<
    char,
> {
    "cd -- "@ + shell_quoted(cwd) + " || exit $?\n"@ + command
        + "\n__terax_status=$?\nprintf '\\n"@ + sentinel
        + ":%s:%s\\n' \"$__terax_status\" \"$PWD\"\nexit \"$__terax_status\"\n"@
}

/// Law: the script first enters `cwd`: it starts with `cd -- ` followed by
/// one shell word whose quoted value is exactly `cwd`, whatever characters
/// `cwd` holds, and then ` || exit $?` and the command on its own line.
pub proof fn lemma_script_enters_cwd(command: Seq<char>, cwd: Seq<char>, sentinel: Seq<char>)
    ensures
        exists|w: Seq<char>|
            #![trigger word_value(w, false)]
            word_value(w, false) == Some(cwd) && command_script_spec(command, cwd, sentinel) == "cd -- "@
                + w + " || exit $?\n"@ + command + "\n__terax_status=$?\nprintf '\\n"@ + sentinel
                + ":%s:%s\\n' \"$__terax_status\" \"$PWD\"\nexit \"$__terax_status\"\n"@,
{
    lemma_shell_quote_round_trip(cwd);
    let w = shell_quoted(cwd);
    assert(word_value(w, false) == Some(cwd));
}

/// The shell script that runs `command` in `cwd` and marks its end with
/// `sentinel`.
pub fn command_script(command: &str, cwd: &str, sentinel: &str) -> (r: String)
    ensures
        r@ == command_script_spec(command@, cwd@, sentinel@),
{
    let quoted = shell_quote(cwd);
    let mut out: Vec<char> = Vec::new();
    push_str(&mut out, "cd -- ");
    push_str(&mut out, quoted.as_str());
    push_str(&mut out, " || exit $?\n");
    push_str(&mut out, command);
    push_str(&mut out, "\n__terax_status=$?\nprintf '\\n");
    push_str(&mut out, sentinel);
    push_str(&mut out, ":%s:%s\\n' \"$__terax_status\" \"$PWD\"\nexit \"$__terax_status\"\n");
    string_of(&out)
}

/// How long a one-shot command may run: the requested time, 30 s when none
/// is given, and never less than one second.
pub fn effective_timeout_secs(timeout_secs: Option<u64>) -> (r: u64)
    ensures
        r == (match timeout_secs {
            Some(t) => if t >= 1 {
                t
            } else {
                1
            },
            None => COMMAND_TIMEOUT_SECS,
        }),
        r >= 1,
{
    let t = match timeout_secs {
        Some(t) => t,
        None => COMMAND_TIMEOUT_SECS,
    };
    if t >= 1 {
        t
    } else {
        1
    }
}

/// What the wait for a one-shot command does next.
#[derive(Debug, Clone, Copy, PartialEq, Eq)]
pub enum CommandWait {
    /// The command exited or printed its sentinel.
    Finished,
    /// The deadline passed first.
    TimedOut,
    /// Keep waiting for output.
    Waiting,
}

/// One check of the wait loop: done once the command exited or its output
/// holds the sentinel's bytes, timed out once the deadline is reached.
pub fn command_wait_step(exited: bool, output: &[u8], sentinel: &str, deadline_reached: bool) -> (r:
    CommandWait)
    ensures
        (exited || occurs_in(output@, encode_utf8(sentinel@)) && encode_utf8(sentinel@).len() > 0)
            ==> r is Finished,
        !(exited || occurs_in(output@, encode_utf8(sentinel@)) && encode_utf8(sentinel@).len() > 0)
            ==> (if deadline_reached {
            r is TimedOut
        } else {
            r is Waiting
        }),
{
    if exited || contains_bytes(output, sentinel.as_bytes()) {
        CommandWait::Finished
    } else if deadline_reached {
        CommandWait::TimedOut
    } else {
        CommandWait::Waiting
    }
}

/// The result of a one-shot command from the bytes it printed: the text
/// (decoded leniently, CRLF turned into LF) split at its sentinel trailer, or
/// taken whole with `fallback_code` and the starting `cwd` when no trailer is
/// found.
pub fn finish_command_output(
    output: &[u8],
    sentinel: &str,
    cwd: &str,
    fallback_code: i32,
    timed_out: bool,
) -> (r: NativeCommandOutput)
    ensures
        ({
            let raw = crlf_to_lf(lossy_utf8(output@));
            match parse_output_spec(raw, sentinel@) {
                Some(p) => r.stdout@ == p.0 && r.exit_code == p.1 && r.cwd_after@ == p.2,
                None => r.stdout@ == raw && r.exit_code == fallback_code && r.cwd_after@ == cwd@,
            }
        }),
        r.stderr@ == Seq::<char>::empty(),
        r.timed_out == timed_out,
{
    let text = utf8_lossy(output);
    let tc = chars_of(text.as_str());
    let raw = crlf_normalized(&tc);
    let sc = chars_of(sentinel);
    let (stdout, exit_code, cwd_after) = match parse_output_chars(&raw, &sc) {
        Some((o, c, w)) => (string_of(&o), c, string_of(&w)),
        None => (string_of(&raw), fallback_code, string_of(&chars_of(cwd))),
    };
    NativeCommandOutput { stdout, stderr: String::new(), exit_code, timed_out, cwd_after }
}

// ---------------------------------------------------------------------------
// Status checks around the engine's entry points
// ---------------------------------------------------------------------------

fn text_with_code(prefix: &str, v: i32) -> (r: String)
    ensures
        r@ == prefix@ + dec_int(v as int),
{
    let mut out: Vec<char> = Vec::new();
    push_str(&mut out, prefix);
    push_i32(&mut out, v);
    string_of(&out)
}

/// The engine's boot status: 0 is success, anything else an error that names
/// the status.
pub fn boot_result(status: i32) -> (r: Result<(), String>)
    ensures
        status == 0 ==> r is Ok,
        status != 0 ==> (r matches Err(e) && e@ == "ios-linuxkit boot failed: "@ + dec_int(
            status as int,
        )),
{
    if status == 0 {
        Ok(())
    } else {
        Err(text_with_code("ios-linuxkit boot failed: ", status))
    }
}

/// Whether an interactive session started: a negative status or no terminal
/// handle is a failure that names the status.
pub fn session_start_result(status: i32, terminal_is_null: bool) -> (r: Result<(), String>)
    ensures
        !(status < 0 || terminal_is_null) ==> r is Ok,
        (status < 0 || terminal_is_null) ==> (r matches Err(e) && e@
            == "ios-linuxkit session failed: "@ + dec_int(status as int)),
{
    if status < 0 || terminal_is_null {
        Err(text_with_code("ios-linuxkit session failed: ", status))
    } else {
        Ok(())
    }
}

/// Whether a one-shot command started: a negative status or no terminal
/// handle is a failure that names the status.
pub fn command_start_result(status: i32, terminal_is_null: bool) -> (r: Result<(), String>)
    ensures
        !(status < 0 || terminal_is_null) ==> r is Ok,
        (status < 0 || terminal_is_null) ==> (r matches Err(e) && e@
            == "ios-linuxkit command failed: "@ + dec_int(status as int)),
{
    if status < 0 || terminal_is_null {
        Err(text_with_code("ios-linuxkit command failed: ", status))
    } else {
        Ok(())
    }
}

/// Length of the text in an error buffer: up to its first NUL byte.
pub open spec fn nul_terminated_len(buf: Seq<u8>) -> int {
    if exists|i: int| 0 <= i < buf.len() && buf[i] == 0 {
        choose|i: int|
            0 <= i < buf.len() && buf[i] == 0 && forall|j: int| 0 <= j < i ==> buf[j] != 0
    } else {
        buf.len() as int
    }
}

/// The outcome of importing a root archive: status 0 is success; otherwise
/// the error names the engine's message (the error buffer up to its first
/// NUL), or says the import failed when that message is empty.
pub fn root_import_result(status: i32, error: &[u8]) -> (r: Result<(), String>)
    ensures
        status == 0 ==> r is Ok,
        status != 0 ==> (r matches Err(e) && e@ == "ios-linuxkit root import failed: "@ + (if nul_terminated_len(error@) == 0 {
            "fakefs import failed"@
        } else {
            lossy_utf8(error@.subrange(0, nul_terminated_len(error@)))
        })),
{
    if status == 0 {
        return Ok(());
    }
    let mut end: usize = 0;
    while end < error.len() && error[end] != 0
        invariant
            end <= error@.len(),
            forall|j: int| 0 <= j < end ==> error@[j] != 0,
        decreases error.len() - end,
    {
        end = end + 1;
    }
    proof {
        if end < error@.len() {
            let c = choose|i: int|
                0 <= i < error@.len() && error@[i] == 0 && forall|j: int|
                    0 <= j < i ==> error@[j] != 0;
            assert(c == end as int) by {
                if c < end {
                    assert(error@[c] != 0);
                }
                if c > end {
                    assert(error@[end as int] == 0);
                }
            }
        } else {
            assert(!exists|i: int| 0 <= i < error@.len() && error@[i] == 0);
        }
    }
    let mut out: Vec<char> = Vec::new();
    push_str(&mut out, "ios-linuxkit root import failed: ");
    if end == 0 {
        push_str(&mut out, "fakefs import failed");
    } else {
        let mut prefix: Vec<u8> = Vec::new();
        let mut i: usize = 0;
        while i < end
            invariant
                i <= end <= error@.len(),
                prefix@ == error@.subrange(0, i as int),
            decreases end - i,
        {
            prefix.push(error[i]);
            proof {
                assert(error@.subrange(0, i + 1) == error@.subrange(0, i as int).push(error@[i as int]));
            }
            i = i + 1;
        }
        let message = utf8_lossy(prefix.as_slice());
        push_str(&mut out, message.as_str());
    }
    Err(string_of(&out))
}

/// A line the engine logged: its text without trailing CR/LF, or `None` when
/// nothing is left.
pub fn native_log_message(bytes: &[u8]) -> (r: Option<String>)
    ensures
        strip_line_end(lossy_utf8(bytes@)).len() == 0 ==> r is None,
        strip_line_end(lossy_utf8(bytes@)).len() > 0 ==> (r matches Some(m) && m@ == strip_line_end(
            lossy_utf8(bytes@),
        )),
{
    let text = utf8_lossy(bytes);
    let cs = chars_of(text.as_str());
    let n = strip_line_end_len(&cs);
    if n == 0 {
        None
    } else {
        let mut out: Vec<char> = Vec::new();
        push_range(&mut out, &cs, 0, n);
        Some(string_of(&out))
    }
}

// ---------------------------------------------------------------------------
// Interactive sessions
// ---------------------------------------------------------------------------

/// An interactive guest session: the engine's terminal handle (0 when there
/// is none) and whether the session was closed.
#[derive(Debug)]
pub struct NativePtySession {
    terminal: usize,
    closed: bool,
}

impl NativePtySession {
    /// The engine's terminal handle.
    pub closed spec fn handle(&self) -> usize {
        self.terminal
    }

    /// The session was closed.
    pub closed spec fn is_closed(&self) -> bool {
        self.closed
    }

    /// A fresh session on the terminal handle `terminal`.
    pub fn from_handle(terminal: usize) -> (r: Self)
        ensures
            r.handle() == terminal,
            !r.is_closed(),
    {
        NativePtySession { terminal, closed: false }
    }

    /// The terminal handle to send `data` to: none when there is no terminal
    /// or nothing to send.
    pub fn write(&self, data: &[u8]) -> (r: Option<usize>)
        ensures
            (self.handle() == 0 || data@.len() == 0) ==> r is None,
            !(self.handle() == 0 || data@.len() == 0) ==> r == Some(self.handle()),
    {
        if self.terminal == 0 || data.len() == 0 {
            None
        } else {
            Some(self.terminal)
        }
    }

    /// The terminal handle and size to resize to: none when there is no
    /// terminal.
    pub fn resize(&self, cols: u16, rows: u16) -> (r: Option<(usize, i32, i32)>)
        ensures
            self.handle() == 0 ==> r is None,
            self.handle() != 0 ==> r == Some((self.handle(), cols as i32, rows as i32)),
    {
        if self.terminal == 0 {
            None
        } else {
            Some((self.terminal, cols as i32, rows as i32))
        }
    }

    /// Marks the session closed and gives the terminal handle to release:
    /// only on the first call, and only when there is a terminal.
    pub fn close(&mut self) -> (r: Option<usize>)
        ensures
            final(self).is_closed(),
            final(self).handle() == old(self).handle(),
            r == close_release(old(self).handle(), old(self).is_closed()),
    {
        if self.closed {
            return None;
        }
        self.closed = true;
        if self.terminal != 0 {
            Some(self.terminal)
        } else {
            None
        }
    }
}

/// The handle `close` releases for a session with handle `terminal`.
pub open spec fn close_release(terminal: usize, closed: bool) -> Option<usize> {
    if closed || terminal == 0 {
        None
    } else {
        Some(terminal)
    }
}

/// Law: closing releases the terminal at most once; a second close releases
/// nothing.
pub proof fn lemma_close_once(terminal: usize, closed: bool)
    ensures
        close_release(terminal, true) is None,
        !closed && terminal != 0 ==> close_release(terminal, closed) == Some(terminal),
{
}

// ---------------------------------------------------------------------------
// How guest shells are started
// ---------------------------------------------------------------------------

/// The guest shell every session runs.
pub fn linuxkit_shell() -> (r: &'static str)
    ensures
        r@ == "/bin/ash"@,
{
    "/bin/ash"
}

/// The strings of a list of strings.
pub open spec fn strings_view(v: Seq<String>) -> Seq<Seq<char>> {
    v.map_values(|s: String| s@)
}

/// The arguments of an interactive session: `-ash`, whose leading dash makes
/// ash a login shell.
pub fn login_shell_argv() -> (r: Vec<String>)
    ensures
        strings_view(r@) == seq!["-ash"@],
{
    let mut v: Vec<String> = Vec::new();
    v.push("-ash".to_owned());
    v
}

/// The arguments of a one-shot command: `ash -lc <script>`.
pub fn command_argv(script: String) -> (r: Vec<String>)
    ensures
        strings_view(r@) == seq!["ash"@, "-lc"@, script@],
{
    let mut v: Vec<String> = Vec::new();
    v.push("ash".to_owned());
    v.push("-lc".to_owned());
    v.push(script);
    v
}

/// The environment every guest shell starts with.
pub fn linuxkit_env() -> (r: Vec<String>)
    ensures
        strings_view(r@) == seq![
            "TERM=xterm-256color"@,
            "HOME=/root"@,
            "USER=root"@,
            "LOGNAME=root"@,
            "SHELL=/bin/ash"@,
            "PATH=/usr/local/sbin:/usr/local/bin:/usr/sbin:/usr/bin:/sbin:/bin"@,
        ],
{
    let mut v: Vec<String> = Vec::new();
    v.push("TERM=xterm-256color".to_owned());
    v.push("HOME=/root".to_owned());
    v.push("USER=root".to_owned());
    v.push("LOGNAME=root".to_owned());
    v.push("SHELL=/bin/ash".to_owned());
    v.push("PATH=/usr/local/sbin:/usr/local/bin:/usr/sbin:/usr/bin:/sbin:/bin".to_owned());
    v
}

} // verus!
