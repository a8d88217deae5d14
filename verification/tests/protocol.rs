use terax_linuxkit::linuxkit::{
    FsRequest, LinuxKitBackend, LinuxKitRequest, LinuxKitResponse, LinuxKitTransport,
    PtyOpenRequest, ShellRunRequest,
};
use terax_linuxkit::mobile_fs::{
    fs_canonicalize, fs_create_dir, fs_create_file, fs_delete, fs_glob, fs_grep, fs_list_files,
    fs_read_dir, fs_read_file, fs_rename, fs_search, fs_stat, fs_write_file, json_payload,
    request_json, request_unit, subdir_names, unit_reply, DirEntry, EntryKind,
};
use terax_linuxkit::mobile_shell::{
    shell_bg_kill, shell_bg_list, shell_bg_logs, shell_bg_spawn, shell_run_command,
    shell_session_close, shell_session_open, shell_session_run, u32_reply,
};

const FS_UNWIRED: &str =
    "fs_* is not wired yet; mobile builds should delegate this request to rcarmo/ios-linuxkit";

fn unwired(command: &str) -> String {
    format!(
        "{} is not wired yet; mobile builds should delegate this request to rcarmo/ios-linuxkit",
        command
    )
}

#[test]
fn transport_reports_unwired_with_command_name() {
    let t = LinuxKitTransport::default();
    let err = t.request(LinuxKitRequest::BackgroundList).unwrap_err();
    assert_eq!(err.code, "linuxkit_transport_unwired");
    assert_eq!(err.message, unwired("shell_bg_list"));
    let err = t
        .request(LinuxKitRequest::PtyOpen(PtyOpenRequest { cols: 80, rows: 24, cwd: None }))
        .unwrap_err();
    assert_eq!(err.message, unwired("pty_open"));
    let err = t
        .request(LinuxKitRequest::ShellRun(ShellRunRequest {
            command: "ls".to_string(),
            cwd: None,
            timeout_secs: Some(3),
        }))
        .unwrap_err();
    assert_eq!(err.message, unwired("shell_run_command"));
    let err = t.request(LinuxKitRequest::Fs(FsRequest::Stat { path: "/".to_string() })).unwrap_err();
    assert_eq!(err.message, FS_UNWIRED);
}

#[test]
fn backend_keeps_only_the_message() {
    let b = LinuxKitBackend::new();
    let err = b.request(LinuxKitRequest::BackgroundList).unwrap_err();
    assert_eq!(err, unwired("shell_bg_list"));
    let d = LinuxKitBackend::default();
    assert!(d.request(LinuxKitRequest::BackgroundList).is_err());
}

#[test]
fn backend_unsupported_message() {
    let b = LinuxKitBackend::new();
    assert_eq!(
        b.unsupported("pty_open"),
        "pty_open is not wired yet; mobile builds should delegate this command to rcarmo/ios-linuxkit"
    );
}

#[test]
fn filesystem_commands_fail_while_unwired() {
    assert_eq!(fs_read_file("/a".to_string()).unwrap_err(), FS_UNWIRED);
    assert_eq!(fs_write_file("/a".to_string(), "x".to_string()).unwrap_err(), FS_UNWIRED);
    assert_eq!(fs_canonicalize("/a".to_string()).unwrap_err(), FS_UNWIRED);
    assert_eq!(fs_stat("/a".to_string()).unwrap_err(), FS_UNWIRED);
    assert_eq!(fs_read_dir("/a".to_string(), true).unwrap_err(), FS_UNWIRED);
    assert_eq!(fs_create_file("/a".to_string()).unwrap_err(), FS_UNWIRED);
    assert_eq!(fs_create_dir("/a".to_string()).unwrap_err(), FS_UNWIRED);
    assert_eq!(fs_rename("/a".to_string(), "/b".to_string()).unwrap_err(), FS_UNWIRED);
    assert_eq!(fs_delete("/a".to_string()).unwrap_err(), FS_UNWIRED);
    assert_eq!(
        fs_search("/".to_string(), "q".to_string(), Some(5), Some(true)).unwrap_err(),
        FS_UNWIRED
    );
    assert_eq!(fs_list_files("/".to_string(), None, Some(2), None).unwrap_err(), FS_UNWIRED);
    assert_eq!(
        fs_grep("x".to_string(), "/".to_string(), Some(vec!["*.rs".to_string()]), Some(true), None)
            .unwrap_err(),
        FS_UNWIRED
    );
    assert_eq!(fs_glob("*.md".to_string(), "/".to_string(), Some(1)).unwrap_err(), FS_UNWIRED);
    assert_eq!(
        request_json(FsRequest::Delete { path: "/x".to_string() }, "anything").unwrap_err(),
        FS_UNWIRED
    );
    assert_eq!(request_unit(FsRequest::CreateDir { path: "/x".to_string() }).unwrap_err(), FS_UNWIRED);
}

#[test]
fn shell_commands_fail_while_unwired() {
    assert_eq!(
        shell_run_command("ls".to_string(), None, None).unwrap_err(),
        unwired("shell_run_command")
    );
    assert_eq!(shell_session_open(None).unwrap_err(), unwired("shell_session_open"));
    assert_eq!(
        shell_session_run(1, "pwd".to_string(), Some("/".to_string()), Some(4)).unwrap_err(),
        unwired("shell_session_run")
    );
    assert_eq!(shell_session_close(1).unwrap_err(), unwired("shell_session_close"));
    assert_eq!(shell_bg_spawn("sleep 1".to_string(), None).unwrap_err(), unwired("shell_bg_spawn"));
    assert_eq!(shell_bg_logs(3, Some(10)).unwrap_err(), unwired("shell_bg_logs"));
    assert_eq!(shell_bg_kill(3).unwrap_err(), unwired("shell_bg_kill"));
    assert_eq!(shell_bg_list().unwrap_err(), unwired("shell_bg_list"));
}

#[test]
fn json_payload_takes_only_json() {
    let value = serde_json::Value::Bool(true);
    let r = json_payload(LinuxKitResponse::Json { value: value.clone() }, "fs_stat");
    assert_eq!(r, Ok(value));
    assert_eq!(
        json_payload(LinuxKitResponse::Unit, "fs_stat"),
        Err("ios-linuxkit fs_stat returned an unexpected response".to_string())
    );
    assert_eq!(
        json_payload(LinuxKitResponse::U32 { value: 3 }, "shell_bg_list"),
        Err("ios-linuxkit shell_bg_list returned an unexpected response".to_string())
    );
}

#[test]
fn unit_reply_accepts_unit_and_json() {
    assert_eq!(unit_reply(LinuxKitResponse::Unit), Ok(()));
    assert_eq!(unit_reply(LinuxKitResponse::Json { value: serde_json::Value::Null }), Ok(()));
    assert_eq!(
        unit_reply(LinuxKitResponse::U32 { value: 1 }),
        Err("ios-linuxkit filesystem command returned an unexpected response".to_string())
    );
}

#[test]
fn u32_reply_takes_only_numbers() {
    assert_eq!(u32_reply(LinuxKitResponse::U32 { value: 41 }, "shell_bg_spawn"), Ok(41));
    assert_eq!(
        u32_reply(LinuxKitResponse::Unit, "shell_session_open"),
        Err("ios-linuxkit shell_session_open returned an unexpected response".to_string())
    );
}

fn entry(name: &str, kind: EntryKind) -> DirEntry {
    DirEntry { name: name.to_string(), kind, size: 1, mtime: 2 }
}

#[test]
fn subdir_names_keeps_directories_in_order() {
    let entries = vec![
        entry("src", EntryKind::Dir),
        entry("main.rs", EntryKind::File),
        entry("link", EntryKind::Symlink),
        entry("docs", EntryKind::Dir),
    ];
    assert_eq!(subdir_names(entries), vec!["src".to_string(), "docs".to_string()]);
    assert_eq!(subdir_names(Vec::new()), Vec::<String>::new());
}
