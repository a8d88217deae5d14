//! Shell commands of the mobile build: one-shot commands, shell sessions and
//! background processes, each a request to the LinuxKit backend. A command
//! that returns data hands back the JSON payload of the reply.
use vstd::prelude::*;
use crate::linuxkit::{
    backend_reply, reply_view, unwired_request, BackgroundKillRequest, BackgroundLogsRequest, BackgroundSpawnRequest,
    LinuxKitBackend, LinuxKitRequest, LinuxKitResponse, ShellRunRequest, ShellSessionCloseRequest,
    ShellSessionOpenRequest, ShellSessionRunRequest,
};
use crate::mobile_fs::{json_outcome, json_payload, unexpected_reply};

verus! {

/// Terminal state kept by the mobile build (none: the guest keeps it).
pub struct PtyState;

impl Default for PtyState {
    fn default() -> (r: Self)
        ensures
            r == PtyState,
    {
        PtyState
    }
}

/// Shell state kept by the mobile build (none: the guest keeps it).
pub struct ShellState;

impl Default for ShellState {
    fn default() -> (r: Self)
        ensures
            r == ShellState,
    {
        ShellState
    }
}

#[derive(Debug)]
pub struct CommandOutput {
    pub stdout: String,
    pub stderr: String,
    pub exit_code: Option<i32>,
    pub timed_out: bool,
    pub truncated: bool,
}

#[derive(Debug)]
pub struct SessionRunOutput {
    pub stdout: String,
    pub stderr: String,
    pub exit_code: Option<i32>,
    pub timed_out: bool,
    pub truncated: bool,
    pub cwd_after: String,
}

#[derive(Debug)]
pub struct BackgroundLogResponse {
    pub bytes: String,
    pub next_offset: u64,
    pub dropped: u64,
    pub exited: bool,
    pub exit_code: Option<i32>,
}

#[derive(Debug)]
pub struct BackgroundProcInfo {
    pub handle: u32,
    pub command: String,
    pub cwd: Option<String>,
    pub started_at_ms: u64,
    pub exited: bool,
    pub exit_code: Option<i32>,
}

/// The outcome of a request whose reply should carry a number.
pub open spec fn u32_outcome(reply: Result<LinuxKitResponse, Seq<char>>, command: Seq<char>) -> Result<
    u32,
    Seq<char>,
> {
    match reply {
        Err(e) => Err(e),
        Ok(LinuxKitResponse::U32 { value }) => Ok(value),
        Ok(_) => Err(unexpected_reply(command)),
    }
}

/// The outcome of a request for which any reply is success.
pub open spec fn done_outcome(reply: Result<LinuxKitResponse, Seq<char>>) -> Result<(), Seq<char>> {
    match reply {
        Err(e) => Err(e),
        Ok(_) => Ok(()),
    }
}

/// A reply that carries a number (a session or process handle); any other
/// kind of reply is an error naming `command`.
pub fn u32_reply(response: LinuxKitResponse, command: &str) -> (r: Result<u32, String>)
    ensures
        match response {
            LinuxKitResponse::U32 { value } => r == Ok::<u32, String>(value),
            _ => r matches Err(e) && e@ == unexpected_reply(command@),
        },
{
    match response {
        LinuxKitResponse::U32 { value } => Ok(value),
        _ => {
            let mut out: Vec<char> = Vec::new();
            crate::text::push_str(&mut out, "ios-linuxkit ");
            crate::text::push_str(&mut out, command);
            crate::text::push_str(&mut out, " returned an unexpected response");
            Err(crate::text::string_of(&out))
        },
    }
}

/// Runs `command` once in the guest and hands back the JSON payload of the
/// reply.
pub fn shell_run_command(command: String, cwd: Option<String>, timeout_secs: Option<u64>) -> (r:
    Result<serde_json::Value, String>)
    ensures
        reply_view(r) == json_outcome(backend_reply(LinuxKitRequest::ShellRun((ShellRunRequest { command, cwd, timeout_secs }))), "shell_run_command"@),
        r matches Err(e) && e@ == unwired_request("shell_run_command"@),
{
    let response = LinuxKitBackend::new().request(
        LinuxKitRequest::ShellRun(ShellRunRequest { command, cwd, timeout_secs }),
    )?;
    json_payload(response, "shell_run_command")
}

/// Opens a shell session and hands back its id.
pub fn shell_session_open(cwd: Option<String>) -> (r: Result<u32, String>)
    ensures
        reply_view(r) == u32_outcome(backend_reply(LinuxKitRequest::ShellSessionOpen((ShellSessionOpenRequest { cwd }))), "shell_session_open"@),
        r matches Err(e) && e@ == unwired_request("shell_session_open"@),
{
    let response = LinuxKitBackend::new().request(
        LinuxKitRequest::ShellSessionOpen(ShellSessionOpenRequest { cwd }),
    )?;
    u32_reply(response, "shell_session_open")
}

/// Runs `command` in session `id` and hands back the JSON payload of the
/// reply.
pub fn shell_session_run(id: u32, command: String, cwd: Option<String>, timeout_secs: Option<u64>) -> (r:
    Result<serde_json::Value, String>)
    ensures
        reply_view(r) == json_outcome(backend_reply(LinuxKitRequest::ShellSessionRun((ShellSessionRunRequest { id, command, cwd, timeout_secs }))), "shell_session_run"@),
        r matches Err(e) && e@ == unwired_request("shell_session_run"@),
{
    let response = LinuxKitBackend::new().request(
        LinuxKitRequest::ShellSessionRun(ShellSessionRunRequest { id, command, cwd, timeout_secs }),
    )?;
    json_payload(response, "shell_session_run")
}

/// Closes session `id`; any reply is success.
pub fn shell_session_close(id: u32) -> (r: Result<(), String>)
    ensures
        reply_view(r) == done_outcome(backend_reply(LinuxKitRequest::ShellSessionClose((ShellSessionCloseRequest { id })))),
        r matches Err(e) && e@ == unwired_request("shell_session_close"@),
{
    let _ = LinuxKitBackend::new().request(
        LinuxKitRequest::ShellSessionClose(ShellSessionCloseRequest { id }),
    )?;
    Ok(())
}

/// Starts `command` in the background and hands back its handle.
pub fn shell_bg_spawn(command: String, cwd: Option<String>) -> (r: Result<u32, String>)
    ensures
        reply_view(r) == u32_outcome(backend_reply(LinuxKitRequest::BackgroundSpawn((BackgroundSpawnRequest { command, cwd }))), "shell_bg_spawn"@),
        r matches Err(e) && e@ == unwired_request("shell_bg_spawn"@),
{
    let response = LinuxKitBackend::new().request(
        LinuxKitRequest::BackgroundSpawn(BackgroundSpawnRequest { command, cwd }),
    )?;
    u32_reply(response, "shell_bg_spawn")
}

/// The output of background process `handle` since `since_offset`, as the
/// JSON payload of the reply.
pub fn shell_bg_logs(handle: u32, since_offset: Option<u64>) -> (r: Result<serde_json::Value, String>)
    ensures
        reply_view(r) == json_outcome(backend_reply(LinuxKitRequest::BackgroundLogs((BackgroundLogsRequest { handle, since_offset }))), "shell_bg_logs"@),
        r matches Err(e) && e@ == unwired_request("shell_bg_logs"@),
{
    let response = LinuxKitBackend::new().request(
        LinuxKitRequest::BackgroundLogs(BackgroundLogsRequest { handle, since_offset }),
    )?;
    json_payload(response, "shell_bg_logs")
}

/// Stops background process `handle`; any reply is success.
pub fn shell_bg_kill(handle: u32) -> (r: Result<(), String>)
    ensures
        reply_view(r) == done_outcome(backend_reply(LinuxKitRequest::BackgroundKill((BackgroundKillRequest { handle })))),
        r matches Err(e) && e@ == unwired_request("shell_bg_kill"@),
{
    let _ = LinuxKitBackend::new().request(
        LinuxKitRequest::BackgroundKill(BackgroundKillRequest { handle }),
    )?;
    Ok(())
}

/// The background processes, as the JSON payload of the reply.
pub fn shell_bg_list() -> (r: Result<serde_json::Value, String>)
    ensures
        reply_view(r) == json_outcome(backend_reply(LinuxKitRequest::BackgroundList), "shell_bg_list"@),
        r matches Err(e) && e@ == unwired_request("shell_bg_list"@),
{
    let response = LinuxKitBackend::new().request(LinuxKitRequest::BackgroundList)?;
    json_payload(response, "shell_bg_list")
}

} // verus!
