use terax_linuxkit::paths::{canon_with_separator, to_canon};
use terax_linuxkit::text::{
    chars_of, crlf_normalized, is_whitespace, parse_i32, parse_u64, push_decimal, push_i32,
    rfind_chars, string_of, strip_line_end_len, trim_bounds, utf8_lossy,
};

fn cs(s: &str) -> Vec<char> {
    s.chars().collect()
}

#[test]
fn chars_and_strings_round_trip() {
    assert_eq!(chars_of("héllo"), vec!['h', 'é', 'l', 'l', 'o']);
    assert_eq!(string_of(&['a', 'ß', '字']), "aß字");
}

#[test]
fn parse_u64_cases() {
    let p = |s: &str| {
        let v = cs(s);
        parse_u64(&v, 0, v.len())
    };
    assert_eq!(p("0"), Some(0));
    assert_eq!(p("+42"), Some(42));
    assert_eq!(p("18446744073709551615"), Some(u64::MAX));
    assert_eq!(p("18446744073709551616"), None);
    assert_eq!(p(""), None);
    assert_eq!(p("+"), None);
    assert_eq!(p("-1"), None);
    assert_eq!(p("12a"), None);
    assert_eq!(p(" 1"), None);
}

#[test]
fn parse_i32_cases() {
    let p = |s: &str| {
        let v = cs(s);
        parse_i32(&v, 0, v.len())
    };
    assert_eq!(p("-2147483648"), Some(i32::MIN));
    assert_eq!(p("2147483647"), Some(i32::MAX));
    assert_eq!(p("2147483648"), None);
    assert_eq!(p("-2147483649"), None);
    assert_eq!(p("+7"), Some(7));
    assert_eq!(p("-0"), Some(0));
    assert_eq!(p("-"), None);
    assert_eq!(p("--1"), None);
    assert_eq!(p("007"), Some(7));
}

#[test]
fn decimal_formatting() {
    let mut out = Vec::new();
    push_decimal(&mut out, 0);
    out.push(' ');
    push_decimal(&mut out, u128::MAX);
    out.push(' ');
    push_i32(&mut out, i32::MIN);
    assert_eq!(
        string_of(&out),
        format!("0 {} {}", u128::MAX, i32::MIN)
    );
}

#[test]
fn whitespace_matches_std() {
    for c in ['\t', '\n', '\u{b}', '\u{c}', '\r', ' ', '\u{85}', '\u{a0}', '\u{1680}', '\u{2000}',
        '\u{200a}', '\u{2028}', '\u{2029}', '\u{202f}', '\u{205f}', '\u{3000}', 'a', '\u{200b}',
        '\u{180e}', '\u{feff}', '_']
    {
        assert_eq!(is_whitespace(c), c.is_whitespace(), "{:?}", c);
    }
}

#[test]
fn trimming_bounds() {
    let v = cs("\t a b \u{3000}\n");
    let (a, b) = trim_bounds(&v, 0, v.len());
    assert_eq!(string_of(&v[a..b]), "a b");
    let w = cs("   ");
    let (a, b) = trim_bounds(&w, 0, w.len());
    assert_eq!(a, b);
    let x = cs("ab\r\n\r");
    assert_eq!(strip_line_end_len(&x), 2);
}

#[test]
fn crlf_and_rfind() {
    assert_eq!(string_of(&crlf_normalized(&cs("a\r\nb\r\r\nc\n\r"))), "a\nb\r\nc\n\r");
    assert_eq!(rfind_chars(&cs("abcabc"), &cs("bc")), Some(4));
    assert_eq!(rfind_chars(&cs("abcabc"), &cs("x")), None);
}

#[test]
fn lossy_decoding_replaces_invalid_bytes() {
    assert_eq!(utf8_lossy(b"ok \xe2\x82\xac"), "ok €");
    assert_eq!(utf8_lossy(b"a\xffb"), "a\u{fffd}b");
}

#[test]
fn canonical_paths() {
    assert_eq!(canon_with_separator("C:\\Users\\me", '\\'), "C:/Users/me");
    assert_eq!(canon_with_separator("/a\\b", '/'), "/a\\b");
    let expected = if std::path::MAIN_SEPARATOR == '\\' { "a/b" } else { "a\\b" };
    assert_eq!(to_canon("a\\b"), expected);
    assert_eq!(to_canon("/home/user/x"), "/home/user/x");
}
