//! The typed protocol between the mobile command shims and the LinuxKit
//! guest, and the backend that carries it. The transport is not wired to the
//! guest yet: every request is answered with a `linuxkit_transport_unwired`
//! error that names the command.
use vstd::prelude::*;

verus! {

/// `serde_json::Value`, carried opaquely in JSON replies.
#[verifier::external_type_specification]
#[verifier::external_body]
pub struct ExJsonValue(serde_json::Value);

#[derive(Debug)]
pub struct PtyOpenRequest {
    pub cols: u16,
    pub rows: u16,
    pub cwd: Option<String>,
}

#[derive(Debug)]
pub struct PtyWriteRequest {
    pub id: u32,
    pub data: String,
}

#[derive(Debug)]
pub struct PtyResizeRequest {
    pub id: u32,
    pub cols: u16,
    pub rows: u16,
}

#[derive(Debug)]
pub struct PtyCloseRequest {
    pub id: u32,
}

#[derive(Debug)]
pub struct ShellRunRequest {
    pub command: String,
    pub cwd: Option<String>,
    pub timeout_secs: Option<u64>,
}

#[derive(Debug)]
pub struct ShellSessionOpenRequest {
    pub cwd: Option<String>,
}

#[derive(Debug)]
pub struct ShellSessionRunRequest {
    pub id: u32,
    pub command: String,
    pub cwd: Option<String>,
    pub timeout_secs: Option<u64>,
}

#[derive(Debug)]
pub struct ShellSessionCloseRequest {
    pub id: u32,
}

#[derive(Debug)]
pub struct BackgroundSpawnRequest {
    pub command: String,
    pub cwd: Option<String>,
}

#[derive(Debug)]
pub struct BackgroundLogsRequest {
    pub handle: u32,
    pub since_offset: Option<u64>,
}

#[derive(Debug)]
pub struct BackgroundKillRequest {
    pub handle: u32,
}

/// A filesystem operation on the guest workspace.
#[derive(Debug)]
pub enum FsRequest {
    ReadDir { path: String, show_hidden: bool },
    ReadFile { path: String },
    WriteFile { path: String, content: String },
    Stat { path: String },
    Canonicalize { path: String },
    CreateFile { path: String },
    CreateDir { path: String },
    Rename { from: String, to: String },
    Delete { path: String },
    Search { root: String, query: String, max_results: Option<usize> },
    ListFiles { root: String, max_results: Option<usize> },
    Grep {
        root: String,
        pattern: String,
        glob: Option<Vec<String>>,
        case_insensitive: Option<bool>,
        max_results: Option<usize>,
    },
    Glob { root: String, pattern: String, max_results: Option<usize> },
}

/// A request to the LinuxKit guest.
#[derive(Debug)]
pub enum LinuxKitRequest {
    PtyOpen(PtyOpenRequest),
    PtyWrite(PtyWriteRequest),
    PtyResize(PtyResizeRequest),
    PtyClose(PtyCloseRequest),
    ShellRun(ShellRunRequest),
    ShellSessionOpen(ShellSessionOpenRequest),
    ShellSessionRun(ShellSessionRunRequest),
    ShellSessionClose(ShellSessionCloseRequest),
    BackgroundSpawn(BackgroundSpawnRequest),
    BackgroundLogs(BackgroundLogsRequest),
    BackgroundKill(BackgroundKillRequest),
    BackgroundList,
    Fs(FsRequest),
}

/// A reply from the LinuxKit guest.
#[allow(inconsistent_fields)]
#[derive(Debug)]
pub enum LinuxKitResponse {
    Unit,
    U32 { value: u32 },
    Json { value: serde_json::Value },
}

/// An error reported by the transport.
#[derive(Debug)]
pub struct LinuxKitError {
    pub code: String,
    pub message: String,
}

pub type LinuxKitResult<T> = Result<T, LinuxKitError>;

/// The command name a request is reported under.
pub open spec fn request_command(request: LinuxKitRequest) -> Seq<char> {
    match request {
        LinuxKitRequest::PtyOpen(_) => "pty_open"@,
        LinuxKitRequest::PtyWrite(_) => "pty_write"@,
        LinuxKitRequest::PtyResize(_) => "pty_resize"@,
        LinuxKitRequest::PtyClose(_) => "pty_close"@,
        LinuxKitRequest::ShellRun(_) => "shell_run_command"@,
        LinuxKitRequest::ShellSessionOpen(_) => "shell_session_open"@,
        LinuxKitRequest::ShellSessionRun(_) => "shell_session_run"@,
        LinuxKitRequest::ShellSessionClose(_) => "shell_session_close"@,
        LinuxKitRequest::BackgroundSpawn(_) => "shell_bg_spawn"@,
        LinuxKitRequest::BackgroundLogs(_) => "shell_bg_logs"@,
        LinuxKitRequest::BackgroundKill(_) => "shell_bg_kill"@,
        LinuxKitRequest::BackgroundList => "shell_bg_list"@,
        LinuxKitRequest::Fs(_) => "fs_*"@,
    }
}

/// The message the unwired transport answers a request for `command` with.
pub open spec fn unwired_request(command: Seq<char>) -> Seq<char> {
    command + " is not wired yet; mobile builds should delegate this request to rcarmo/ios-linuxkit"@
}

/// The message for a command the mobile backend does not support yet.
pub open spec fn unwired_command(command: Seq<char>) -> Seq<char> {
    command + " is not wired yet; mobile builds should delegate this command to rcarmo/ios-linuxkit"@
}

/// What the backend answers `request` with: the reply, or the text of the
/// error. Callers see this as a function of the whole request; that it is the
/// unwired error for every request is `lemma_backend_reply`.
pub closed spec fn backend_reply(request: LinuxKitRequest) -> Result<LinuxKitResponse, Seq<char>> {
    Err(unwired_request(request_command(request)))
}

/// The backend answers every request with the unwired error naming its
/// command.
pub proof fn lemma_backend_reply(request: LinuxKitRequest)
    ensures
        backend_reply(request) == Err::<LinuxKitResponse, Seq<char>>(
            unwired_request(request_command(request)),
        ),
{
}

/// A reply with its error text taken as characters.
pub open spec fn reply_view<T>(r: Result<T, String>) -> Result<T, Seq<char>> {
    match r {
        Ok(v) => Ok(v),
        Err(e) => Err(e@),
    }
}

fn request_command_name(request: &LinuxKitRequest) -> (r: &'static str)
    ensures
        r@ == request_command(*request),
{
    match request {
        LinuxKitRequest::PtyOpen(_) => "pty_open",
        LinuxKitRequest::PtyWrite(_) => "pty_write",
        LinuxKitRequest::PtyResize(_) => "pty_resize",
        LinuxKitRequest::PtyClose(_) => "pty_close",
        LinuxKitRequest::ShellRun(_) => "shell_run_command",
        LinuxKitRequest::ShellSessionOpen(_) => "shell_session_open",
        LinuxKitRequest::ShellSessionRun(_) => "shell_session_run",
        LinuxKitRequest::ShellSessionClose(_) => "shell_session_close",
        LinuxKitRequest::BackgroundSpawn(_) => "shell_bg_spawn",
        LinuxKitRequest::BackgroundLogs(_) => "shell_bg_logs",
        LinuxKitRequest::BackgroundKill(_) => "shell_bg_kill",
        LinuxKitRequest::BackgroundList => "shell_bg_list",
        LinuxKitRequest::Fs(_) => "fs_*",
    }
}

fn concat_str(a: &str, b: &str) -> (r: String)
    ensures
        r@ == a@ + b@,
{
    let mut out: Vec<char> = Vec::new();
    crate::text::push_str(&mut out, a);
    crate::text::push_str(&mut out, b);
    crate::text::string_of(&out)
}

/// The in-process bridge to the LinuxKit guest (not wired yet).
#[derive(Debug)]
pub struct LinuxKitTransport;

impl Default for LinuxKitTransport {
    fn default() -> (r: Self)
        ensures
            r == LinuxKitTransport,
    {
        LinuxKitTransport
    }
}

impl LinuxKitTransport {
    /// Sends `request` to the guest. Until the bridge is wired, every request
    /// fails with code `linuxkit_transport_unwired` and a message naming its
    /// command.
    pub fn request(&self, request: LinuxKitRequest) -> (r: LinuxKitResult<LinuxKitResponse>)
        ensures
            r matches Err(e) && e.code@ == "linuxkit_transport_unwired"@ && e.message@
                == unwired_request(request_command(request)),
    {
        let command = request_command_name(&request);
        Err(
            LinuxKitError {
                code: "linuxkit_transport_unwired".to_owned(),
                message: concat_str(
                    command,
                    " is not wired yet; mobile builds should delegate this request to rcarmo/ios-linuxkit",
                ),
            },
        )
    }
}

/// The backend the mobile command shims talk to.
pub struct LinuxKitBackend {
    transport: LinuxKitTransport,
}

impl Default for LinuxKitBackend {
    fn default() -> (r: Self)
        ensures
            r.transport() == LinuxKitTransport,
    {
        LinuxKitBackend { transport: LinuxKitTransport }
    }
}

impl LinuxKitBackend {
    /// The transport requests go through.
    pub closed spec fn transport(&self) -> LinuxKitTransport {
        self.transport
    }

    pub fn new() -> (r: Self)
        ensures
            r.transport() == LinuxKitTransport,
    {
        LinuxKitBackend { transport: LinuxKitTransport }
    }

    /// The error text for `command` while the mobile backend lacks it.
    pub fn unsupported(&self, command: &str) -> (r: String)
        ensures
            r@ == unwired_command(command@),
    {
        concat_str(
            command,
            " is not wired yet; mobile builds should delegate this command to rcarmo/ios-linuxkit",
        )
    }

    /// Sends `request` through the transport, keeping only the message of an
    /// error.
    pub fn request(&self, request: LinuxKitRequest) -> (r: Result<LinuxKitResponse, String>)
        ensures
            reply_view(r) == backend_reply(request),
            r matches Err(e) && e@ == unwired_request(request_command(request)),
    {
        match self.transport.request(request) {
            Ok(response) => Ok(response),
            Err(e) => Err(e.message),
        }
    }
}

} // verus!
