use terax_linuxkit::bridge::{BridgeAction, BridgeSession, BRIDGE_PORT, DEFAULT_TIMEOUT_SECS};
use terax_linuxkit::native::NativeCommandOutput;

#[test]
fn new_session_defaults() {
    let s = BridgeSession::new();
    assert_eq!(s.cwd(), "/root");
    assert_eq!(s.timeout(), DEFAULT_TIMEOUT_SECS);
    assert_eq!(s.timeout(), 60);
    assert_eq!(BRIDGE_PORT, 8765);
}

#[test]
fn greeting_names_cwd_and_timeout() {
    let s = BridgeSession::new();
    assert_eq!(
        s.greeting(),
        "# terax-debug-bridge ready (cwd=/root, timeout=60s). Lines are shell commands; ':timeout N' / ':quit' are control verbs.\n"
    );
}

#[test]
fn step_skips_empty_and_quits() {
    let mut s = BridgeSession::new();
    assert_eq!(s.step(""), BridgeAction::Skip);
    assert_eq!(s.step("\r\n"), BridgeAction::Skip);
    assert_eq!(s.step(":quit"), BridgeAction::Quit);
    assert_eq!(s.step(":quit\r"), BridgeAction::Quit);
}

#[test]
fn step_sets_timeout() {
    let mut s = BridgeSession::new();
    assert_eq!(s.step(":timeout 5"), BridgeAction::Reply("# timeout=5s\n".to_string()));
    assert_eq!(s.timeout(), 5);
    assert_eq!(s.step(":timeout  12 "), BridgeAction::Reply("# timeout=12s\n".to_string()));
    assert_eq!(s.timeout(), 12);
    assert_eq!(s.step(":timeout 0"), BridgeAction::Reply("# timeout=1s\n".to_string()));
    assert_eq!(s.timeout(), 1);
}

#[test]
fn step_reports_invalid_timeout() {
    let mut s = BridgeSession::new();
    assert_eq!(
        s.step(":timeout soon"),
        BridgeAction::Reply("# invalid timeout: soon\n".to_string())
    );
    assert_eq!(s.step(":timeout -3"), BridgeAction::Reply("# invalid timeout: -3\n".to_string()));
    assert_eq!(s.timeout(), 60);
}

#[test]
fn step_runs_other_lines() {
    let mut s = BridgeSession::new();
    assert_eq!(s.step("ls -la\r"), BridgeAction::Run("ls -la".to_string()));
    assert_eq!(s.step(":timeout"), BridgeAction::Run(":timeout".to_string()));
    assert_eq!(s.step(" :quit"), BridgeAction::Run(" :quit".to_string()));
}

fn output(stdout: &str, code: i32, cwd_after: &str, timed_out: bool) -> NativeCommandOutput {
    NativeCommandOutput {
        stdout: stdout.to_string(),
        stderr: String::new(),
        exit_code: code,
        timed_out,
        cwd_after: cwd_after.to_string(),
    }
}

#[test]
fn after_run_writes_output_and_trailer() {
    let mut s = BridgeSession::new();
    let text = s.after_run(Ok(output("hi\n", 0, "/tmp", false)));
    assert_eq!(text, "hi\n\n###TERAX code=0 cwd=/tmp timed_out=false###\n");
    assert_eq!(s.cwd(), "/tmp");
    let text = s.after_run(Ok(output("", -1, "", true)));
    assert_eq!(text, "\n###TERAX code=-1 cwd=/tmp timed_out=true###\n");
    assert_eq!(s.cwd(), "/tmp");
}

#[test]
fn after_run_reports_errors() {
    let mut s = BridgeSession::new();
    let text = s.after_run(Err("boot failed".to_string()));
    assert_eq!(text, "\n###TERAX error=boot failed###\n");
    assert_eq!(s.cwd(), "/root");
}
