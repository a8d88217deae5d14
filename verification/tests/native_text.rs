use terax_linuxkit::native::{
    command_argv, linuxkit_env, linuxkit_shell, login_shell_argv,
    boot_result, command_script, command_sentinel, command_start_result, command_wait_step,
    contains_bytes, effective_timeout_secs, finish_command_output, native_log_message,
    parse_command_output, root_import_result, session_start_result, shell_quote, CommandWait,
    NativePtySession, COMMAND_TIMEOUT_SECS,
};

#[test]
fn contains_bytes_finds_inner_run() {
    assert!(contains_bytes(b"hello world", b"lo w"));
    assert!(contains_bytes(b"hello", b"hello"));
    assert!(contains_bytes(b"abcabd", b"abd"));
}

#[test]
fn contains_bytes_rejects_empty_long_and_absent() {
    assert!(!contains_bytes(b"hello", b""));
    assert!(!contains_bytes(b"", b""));
    assert!(!contains_bytes(b"hi", b"high"));
    assert!(!contains_bytes(b"hello", b"hex"));
}

#[test]
fn shell_quote_plain_text() {
    assert_eq!(shell_quote("abc"), "'abc'");
    assert_eq!(shell_quote(""), "''");
    assert_eq!(shell_quote("/root/my dir"), "'/root/my dir'");
}

#[test]
fn shell_quote_escapes_single_quotes() {
    assert_eq!(shell_quote("it's"), "'it'\\''s'");
    assert_eq!(shell_quote("'"), "''\\'''");
    assert_eq!(shell_quote("a$b\"c"), "'a$b\"c'");
}

#[test]
fn parse_command_output_splits_trailer() {
    let raw = "hello\n__S__:0:/root/dir\n";
    assert_eq!(
        parse_command_output(raw, "__S__"),
        Some(("hello\n".to_string(), 0, "/root/dir".to_string()))
    );
}

#[test]
fn parse_command_output_keeps_text_after_trailer() {
    let raw = "a\n__S__:17:/tmp\nb";
    assert_eq!(
        parse_command_output(raw, "__S__"),
        Some(("a\nb".to_string(), 17, "/tmp".to_string()))
    );
}

#[test]
fn parse_command_output_negative_code_and_trimmed_line() {
    let raw = "out\n  __S__:-2:/var/log  \n";
    assert_eq!(
        parse_command_output(raw, "__S__"),
        Some(("out\n".to_string(), -2, "/var/log".to_string()))
    );
}

#[test]
fn parse_command_output_cwd_defaults_to_root() {
    let raw = "x\n__S__:5\n";
    assert_eq!(
        parse_command_output(raw, "__S__"),
        Some(("x\n".to_string(), 5, "/root".to_string()))
    );
}

#[test]
fn parse_command_output_cwd_keeps_colons() {
    let raw = "__S__:1:/a:b:c\n";
    assert_eq!(
        parse_command_output(raw, "__S__"),
        Some(("".to_string(), 1, "/a:b:c".to_string()))
    );
}

#[test]
fn parse_command_output_uses_last_marker() {
    let raw = "__S__:1:/first\nmiddle\n__S__:2:/second\n";
    assert_eq!(
        parse_command_output(raw, "__S__"),
        Some(("__S__:1:/first\nmiddle\n".to_string(), 2, "/second".to_string()))
    );
}

#[test]
fn parse_command_output_rejects_missing_or_bad_trailer() {
    assert_eq!(parse_command_output("no trailer here\n", "__S__"), None);
    assert_eq!(parse_command_output("__S__:abc:/x\n", "__S__"), None);
    assert_eq!(parse_command_output("__S__:\n", "__S__"), None);
    assert_eq!(parse_command_output("__S__:99999999999:/x\n", "__S__"), None);
    assert_eq!(parse_command_output("__S__ 5\n", "__S__"), None);
}

#[test]
fn command_sentinel_format() {
    assert_eq!(command_sentinel(0), "__TERAX_DONE_0__");
    assert_eq!(command_sentinel(1234567890123), "__TERAX_DONE_1234567890123__");
}

#[test]
fn command_script_wraps_command() {
    let script = command_script("ls -la", "/root/it's", "__TERAX_DONE_7__");
    let expected = "cd -- '/root/it'\\''s' || exit $?\nls -la\n__terax_status=$?\nprintf '\\n__TERAX_DONE_7__:%s:%s\\n' \"$__terax_status\" \"$PWD\"\nexit \"$__terax_status\"\n";
    assert_eq!(script, expected);
}

#[test]
fn effective_timeout_defaults_and_floor() {
    assert_eq!(effective_timeout_secs(None), COMMAND_TIMEOUT_SECS);
    assert_eq!(effective_timeout_secs(None), 30);
    assert_eq!(effective_timeout_secs(Some(0)), 1);
    assert_eq!(effective_timeout_secs(Some(5)), 5);
}

#[test]
fn wait_step_decisions() {
    assert_eq!(command_wait_step(true, b"", "__S__", false), CommandWait::Finished);
    assert_eq!(command_wait_step(false, b"x __S__ y", "__S__", true), CommandWait::Finished);
    assert_eq!(command_wait_step(false, b"partial __S", "__S__", true), CommandWait::TimedOut);
    assert_eq!(command_wait_step(false, b"partial", "__S__", false), CommandWait::Waiting);
}

#[test]
fn finish_output_with_trailer_and_crlf() {
    let out = finish_command_output(b"line1\r\nline2\r\n__S__:3:/home\r\n", "__S__", "/root", 9, false);
    assert_eq!(out.stdout, "line1\nline2\n");
    assert_eq!(out.exit_code, 3);
    assert_eq!(out.cwd_after, "/home");
    assert_eq!(out.stderr, "");
    assert!(!out.timed_out);
}

#[test]
fn finish_output_without_trailer_falls_back() {
    let out = finish_command_output(b"oops\xff\r\n", "__S__", "/work", -1, true);
    assert_eq!(out.stdout, "oops\u{fffd}\n");
    assert_eq!(out.exit_code, -1);
    assert_eq!(out.cwd_after, "/work");
    assert!(out.timed_out);
}

#[test]
fn boot_and_start_results() {
    assert_eq!(boot_result(0), Ok(()));
    assert_eq!(boot_result(-3), Err("ios-linuxkit boot failed: -3".to_string()));
    assert_eq!(session_start_result(0, false), Ok(()));
    assert_eq!(session_start_result(0, true), Err("ios-linuxkit session failed: 0".to_string()));
    assert_eq!(session_start_result(-12, false), Err("ios-linuxkit session failed: -12".to_string()));
    assert_eq!(command_start_result(4, false), Ok(()));
    assert_eq!(command_start_result(-1, false), Err("ios-linuxkit command failed: -1".to_string()));
}

#[test]
fn root_import_messages() {
    assert_eq!(root_import_result(0, b"ignored"), Ok(()));
    assert_eq!(
        root_import_result(1, b"bad archive\0junk"),
        Err("ios-linuxkit root import failed: bad archive".to_string())
    );
    assert_eq!(
        root_import_result(2, b"\0\0\0"),
        Err("ios-linuxkit root import failed: fakefs import failed".to_string())
    );
    assert_eq!(
        root_import_result(2, b""),
        Err("ios-linuxkit root import failed: fakefs import failed".to_string())
    );
    assert_eq!(
        root_import_result(3, b"x\xffy"),
        Err("ios-linuxkit root import failed: x\u{fffd}y".to_string())
    );
}

#[test]
fn native_log_lines() {
    assert_eq!(native_log_message(b"booting\r\n"), Some("booting".to_string()));
    assert_eq!(native_log_message(b"a\nb\n\n"), Some("a\nb".to_string()));
    assert_eq!(native_log_message(b"\r\n"), None);
    assert_eq!(native_log_message(b""), None);
    assert_eq!(native_log_message(b"\xfe"), Some("\u{fffd}".to_string()));
}

#[test]
fn pty_session_handles() {
    let none = NativePtySession::from_handle(0);
    assert_eq!(none.write(b"x"), None);
    assert_eq!(none.resize(80, 24), None);
    let s = NativePtySession::from_handle(7);
    assert_eq!(s.write(b""), None);
    assert_eq!(s.write(b"ls\n"), Some(7));
    assert_eq!(s.resize(120, 40), Some((7, 120, 40)));
}

#[test]
fn pty_session_closes_once() {
    let mut s = NativePtySession::from_handle(42);
    assert_eq!(s.close(), Some(42));
    assert_eq!(s.close(), None);
    let mut z = NativePtySession::from_handle(0);
    assert_eq!(z.close(), None);
}

#[test]
fn round_trip_of_script_trailer() {
    let sentinel = command_sentinel(987654321);
    let raw = format!("some output\n{}:{}:{}\n", sentinel, -7, "/srv/app");
    assert_eq!(
        parse_command_output(&raw, &sentinel),
        Some(("some output\n".to_string(), -7, "/srv/app".to_string()))
    );
}

#[test]
fn guest_shell_launch_parameters() {
    assert_eq!(linuxkit_shell(), "/bin/ash");
    assert_eq!(login_shell_argv(), vec!["-ash".to_string()]);
    assert_eq!(
        command_argv("echo hi".to_string()),
        vec!["ash".to_string(), "-lc".to_string(), "echo hi".to_string()]
    );
    assert_eq!(
        linuxkit_env(),
        vec![
            "TERM=xterm-256color".to_string(),
            "HOME=/root".to_string(),
            "USER=root".to_string(),
            "LOGNAME=root".to_string(),
            "SHELL=/bin/ash".to_string(),
            "PATH=/usr/local/sbin:/usr/local/bin:/usr/sbin:/usr/bin:/sbin:/bin".to_string(),
        ]
    );
}

#[test]
fn round_trip_with_text_after_trailer() {
    let sentinel = command_sentinel(55);
    let raw = format!("first\n{}:{}:{}\ntail line\n", sentinel, 3, "/opt");
    assert_eq!(
        parse_command_output(&raw, &sentinel),
        Some(("first\ntail line\n".to_string(), 3, "/opt".to_string()))
    );
}
