//! Filesystem commands of the mobile build: each one is a request to the
//! LinuxKit backend. A command that returns data hands back the JSON payload
//! of the reply; turning it into the result types below is the caller's
//! deserialisation step.
use vstd::prelude::*;
use crate::linuxkit::{
    backend_reply, reply_view, unwired_request, FsRequest, LinuxKitBackend, LinuxKitRequest,
    LinuxKitResponse,
};

verus! {

#[derive(Debug)]
pub enum ReadResult {
    Text { content: String, size: u64 },
    Binary { size: u64 },
    TooLarge { size: u64, limit: u64 },
}

#[derive(Debug, Clone, Copy, PartialEq, Eq)]
pub enum StatKind {
    File,
    Dir,
    Symlink,
}

#[derive(Debug)]
pub struct FileStat {
    pub size: u64,
    pub mtime: u64,
    pub kind: StatKind,
}

#[derive(Debug, Clone, Copy, PartialEq, Eq)]
pub enum EntryKind {
    File,
    Dir,
    Symlink,
}

#[derive(Debug)]
pub struct DirEntry {
    pub name: String,
    pub kind: EntryKind,
    pub size: u64,
    pub mtime: u64,
}

#[derive(Debug)]
pub struct SearchHit {
    pub path: String,
    pub rel: String,
    pub name: String,
    pub is_dir: bool,
}

#[derive(Debug)]
pub struct SearchResult {
    pub hits: Vec<SearchHit>,
    pub truncated: bool,
}

#[derive(Debug)]
pub struct ListFilesResult {
    pub files: Vec<String>,
    pub truncated: bool,
}

#[derive(Debug)]
pub struct GrepHit {
    pub path: String,
    pub rel: String,
    pub line: u64,
    pub text: String,
}

#[derive(Debug)]
pub struct GrepResponse {
    pub hits: Vec<GrepHit>,
    pub truncated: bool,
    pub files_scanned: usize,
}

#[derive(Debug)]
pub struct GlobHit {
    pub path: String,
    pub rel: String,
}

#[derive(Debug)]
pub struct GlobResponse {
    pub hits: Vec<GlobHit>,
    pub truncated: bool,
}

/// The error for a reply of the wrong kind to `command`.
pub open spec fn unexpected_reply(command: Seq<char>) -> Seq<char> {
    "ios-linuxkit "@ + command + " returned an unexpected response"@
}

/// The error for a filesystem command answered with the wrong kind of reply.
pub open spec fn unexpected_fs_reply() -> Seq<char> {
    "ios-linuxkit filesystem command returned an unexpected response"@
}

/// What every filesystem request is answered with while the transport is
/// unwired.
pub open spec fn unwired_fs() -> Seq<char> {
    unwired_request("fs_*"@)
}

/// The outcome of a request whose reply should carry a JSON payload.
pub open spec fn json_outcome(reply: Result<LinuxKitResponse, Seq<char>>, command: Seq<char>) -> Result<
    serde_json::Value,
    Seq<char>,
> {
    match reply {
        Err(e) => Err(e),
        Ok(LinuxKitResponse::Json { value }) => Ok(value),
        Ok(_) => Err(unexpected_reply(command)),
    }
}

/// The outcome of a filesystem request whose reply carries no data.
pub open spec fn unit_outcome(reply: Result<LinuxKitResponse, Seq<char>>) -> Result<(), Seq<char>> {
    match reply {
        Err(e) => Err(e),
        Ok(LinuxKitResponse::U32 { .. }) => Err(unexpected_fs_reply()),
        Ok(_) => Ok(()),
    }
}

/// The JSON payload of a reply to `command`; any other kind of reply is an
/// error naming the command.
pub fn json_payload(response: LinuxKitResponse, command: &str) -> (r: Result<serde_json::Value, String>)
    ensures
        match response {
            LinuxKitResponse::Json { value } => r == Ok::<serde_json::Value, String>(value),
            _ => r matches Err(e) && e@ == unexpected_reply(command@),
        },
{
    match response {
        LinuxKitResponse::Json { value } => Ok(value),
        _ => {
            let mut out: Vec<char> = Vec::new();
            crate::text::push_str(&mut out, "ios-linuxkit ");
            crate::text::push_str(&mut out, command);
            crate::text::push_str(&mut out, " returned an unexpected response");
            Err(crate::text::string_of(&out))
        },
    }
}

/// A filesystem reply that carries no data: unit and JSON replies succeed,
/// a number is unexpected.
pub fn unit_reply(response: LinuxKitResponse) -> (r: Result<(), String>)
    ensures
        match response {
            LinuxKitResponse::U32 { .. } => r matches Err(e) && e@ == unexpected_fs_reply(),
            _ => r is Ok,
        },
{
    match response {
        LinuxKitResponse::Unit | LinuxKitResponse::Json { .. } => Ok(()),
        _ => Err("ios-linuxkit filesystem command returned an unexpected response".to_owned()),
    }
}

/// Sends a filesystem request and hands back the JSON payload of the reply.
pub fn request_json(request: FsRequest, command: &str) -> (r: Result<serde_json::Value, String>)
    ensures
        reply_view(r) == json_outcome(backend_reply(LinuxKitRequest::Fs(request)), command@),
        r matches Err(e) && e@ == unwired_fs(),
{
    let backend = LinuxKitBackend::new();
    let response = backend.request(LinuxKitRequest::Fs(request))?;
    json_payload(response, command)
}

/// Sends a filesystem request whose reply carries no data.
pub fn request_unit(request: FsRequest) -> (r: Result<(), String>)
    ensures
        reply_view(r) == unit_outcome(backend_reply(LinuxKitRequest::Fs(request))),
        r matches Err(e) && e@ == unwired_fs(),
{
    let backend = LinuxKitBackend::new();
    let response = backend.request(LinuxKitRequest::Fs(request))?;
    unit_reply(response)
}

pub fn fs_read_file(path: String) -> (r: Result<serde_json::Value, String>)
    ensures
        reply_view(r) == json_outcome(
            backend_reply(LinuxKitRequest::Fs((FsRequest::ReadFile { path }))),
            "fs_read_file"@,
        ),
        r matches Err(e) && e@ == unwired_fs(),
{
    request_json(FsRequest::ReadFile { path }, "fs_read_file")
}

pub fn fs_write_file(path: String, content: String) -> (r: Result<(), String>)
    ensures
        reply_view(r) == unit_outcome(backend_reply(LinuxKitRequest::Fs((FsRequest::WriteFile { path, content })))),
        r matches Err(e) && e@ == unwired_fs(),
{
    request_unit(FsRequest::WriteFile { path, content })
}

pub fn fs_canonicalize(path: String) -> (r: Result<serde_json::Value, String>)
    ensures
        reply_view(r) == json_outcome(
            backend_reply(LinuxKitRequest::Fs((FsRequest::Canonicalize { path }))),
            "fs_canonicalize"@,
        ),
        r matches Err(e) && e@ == unwired_fs(),
{
    request_json(FsRequest::Canonicalize { path }, "fs_canonicalize")
}

pub fn fs_stat(path: String) -> (r: Result<serde_json::Value, String>)
    ensures
        reply_view(r) == json_outcome(
            backend_reply(LinuxKitRequest::Fs((FsRequest::Stat { path }))),
            "fs_stat"@,
        ),
        r matches Err(e) && e@ == unwired_fs(),
{
    request_json(FsRequest::Stat { path }, "fs_stat")
}

pub fn fs_read_dir(path: String, show_hidden: bool) -> (r: Result<serde_json::Value, String>)
    ensures
        reply_view(r) == json_outcome(
            backend_reply(LinuxKitRequest::Fs((FsRequest::ReadDir { path, show_hidden }))),
            "fs_read_dir"@,
        ),
        r matches Err(e) && e@ == unwired_fs(),
{
    request_json(FsRequest::ReadDir { path, show_hidden }, "fs_read_dir")
}

/// The names of the directories among `entries`, in order.
pub open spec fn dir_names(entries: Seq<DirEntry>) -> Seq<Seq<char>>
    decreases entries.len(),
{
    if entries.len() == 0 {
        Seq::empty()
    } else {
        let rest = dir_names(entries.drop_last());
        match entries.last().kind {
            EntryKind::Dir => rest.push(entries.last().name@),
            _ => rest,
        }
    }
}

/// Whether an entry is a directory.
pub open spec fn is_dir_entry(e: DirEntry) -> bool {
    e.kind is Dir
}

/// Law: the subdirectory names are exactly the names of the directory
/// entries, in their order, whatever the names are: keep the entries whose
/// kind is `Dir`, then take their names.
pub proof fn lemma_dir_names_are_dir_entries(entries: Seq<DirEntry>)
    ensures
        dir_names(entries) == entries.filter(|e: DirEntry| is_dir_entry(e)).map_values(
            |e: DirEntry| e.name@,
        ),
        dir_names(entries).len() == entries.filter(|e: DirEntry| is_dir_entry(e)).len(),
    decreases entries.len(),
{
    let p = |e: DirEntry| is_dir_entry(e);
    reveal_with_fuel(Seq::<DirEntry>::filter, 1);
    if entries.len() > 0 {
        let pre = entries.drop_last();
        lemma_dir_names_are_dir_entries(pre);
        let f = pre.filter(p);
        if p(entries.last()) {
            assert(entries.filter(p) == f.push(entries.last()));
            assert(f.push(entries.last()).map_values(|e: DirEntry| e.name@) =~= f.map_values(
                |e: DirEntry| e.name@,
            ).push(entries.last().name@));
        } else {
            assert(entries.filter(p) == f);
        }
    } else {
        assert(entries.filter(p) == entries);
        assert(entries.map_values(|e: DirEntry| e.name@) =~= Seq::<Seq<char>>::empty());
    }
}

/// The names of the entries that are directories, in their order.
pub fn subdir_names(entries: Vec<DirEntry>) -> (r: Vec<String>)
    ensures
        r@.map_values(|s: String| s@) == dir_names(entries@),
        r@.map_values(|s: String| s@) == entries@.filter(|e: DirEntry| is_dir_entry(e)).map_values(
            |e: DirEntry| e.name@,
        ),
{
    let mut out: Vec<String> = Vec::new();
    let mut i: usize = 0;
    while i < entries.len()
        invariant
            i <= entries@.len(),
            out@.map_values(|s: String| s@) == dir_names(entries@.take(i as int)),
        decreases entries.len() - i,
    {
        let entry = &entries[i];
        let ghost pre = entries@.take(i as int);
        proof {
            assert(entries@.take(i + 1).drop_last() == pre);
            assert(entries@.take(i + 1).last() == entries@[i as int]);
        }
        match entry.kind {
            EntryKind::Dir => {
                out.push(entry.name.clone());
                proof {
                    assert(out@.map_values(|s: String| s@) == dir_names(pre).push(entry.name@));
                }
            },
            _ => {},
        }
        i = i + 1;
    }
    proof {
        assert(entries@.take(entries@.len() as int) == entries@);
        lemma_dir_names_are_dir_entries(entries@);
    }
    out
}

pub fn fs_create_file(path: String) -> (r: Result<(), String>)
    ensures
        reply_view(r) == unit_outcome(backend_reply(LinuxKitRequest::Fs((FsRequest::CreateFile { path })))),
        r matches Err(e) && e@ == unwired_fs(),
{
    request_unit(FsRequest::CreateFile { path })
}

pub fn fs_create_dir(path: String) -> (r: Result<(), String>)
    ensures
        reply_view(r) == unit_outcome(backend_reply(LinuxKitRequest::Fs((FsRequest::CreateDir { path })))),
        r matches Err(e) && e@ == unwired_fs(),
{
    request_unit(FsRequest::CreateDir { path })
}

pub fn fs_rename(from: String, to: String) -> (r: Result<(), String>)
    ensures
        reply_view(r) == unit_outcome(backend_reply(LinuxKitRequest::Fs((FsRequest::Rename { from, to })))),
        r matches Err(e) && e@ == unwired_fs(),
{
    request_unit(FsRequest::Rename { from, to })
}

pub fn fs_delete(path: String) -> (r: Result<(), String>)
    ensures
        reply_view(r) == unit_outcome(backend_reply(LinuxKitRequest::Fs((FsRequest::Delete { path })))),
        r matches Err(e) && e@ == unwired_fs(),
{
    request_unit(FsRequest::Delete { path })
}

/// Searches `root` for names matching `query`; `show_hidden` is accepted and
/// not forwarded, as the guest decides.
pub fn fs_search(root: String, query: String, limit: Option<usize>, show_hidden: Option<bool>) -> (r:
    Result<serde_json::Value, String>)
    ensures
        reply_view(r) == json_outcome(
            backend_reply(LinuxKitRequest::Fs((FsRequest::Search { root, query, max_results: limit }))),
            "fs_search"@,
        ),
        r matches Err(e) && e@ == unwired_fs(),
{
    let _ = show_hidden;
    request_json(FsRequest::Search { root, query, max_results: limit }, "fs_search")
}

/// Lists the files under `root`; `max_depth` and `show_hidden` are accepted
/// and not forwarded.
pub fn fs_list_files(
    root: String,
    limit: Option<usize>,
    max_depth: Option<usize>,
    show_hidden: Option<bool>,
) -> (r: Result<serde_json::Value, String>)
    ensures
        reply_view(r) == json_outcome(
            backend_reply(LinuxKitRequest::Fs((FsRequest::ListFiles { root, max_results: limit }))),
            "fs_list_files"@,
        ),
        r matches Err(e) && e@ == unwired_fs(),
{
    let _ = (max_depth, show_hidden);
    request_json(FsRequest::ListFiles { root, max_results: limit }, "fs_list_files")
}

pub fn fs_grep(
    pattern: String,
    root: String,
    glob: Option<Vec<String>>,
    case_insensitive: Option<bool>,
    max_results: Option<usize>,
) -> (r: Result<serde_json::Value, String>)
    ensures
        reply_view(r) == json_outcome(
            backend_reply(LinuxKitRequest::Fs((FsRequest::Grep { root, pattern, glob, case_insensitive, max_results }))),
            "fs_grep"@,
        ),
        r matches Err(e) && e@ == unwired_fs(),
{
    request_json(FsRequest::Grep { root, pattern, glob, case_insensitive, max_results }, "fs_grep")
}

pub fn fs_glob(pattern: String, root: String, max_results: Option<usize>) -> (r: Result<
    serde_json::Value,
    String,
>)
    ensures
        reply_view(r) == json_outcome(
            backend_reply(LinuxKitRequest::Fs((FsRequest::Glob { root, pattern, max_results }))),
            "fs_glob"@,
        ),
        r matches Err(e) && e@ == unwired_fs(),
{
    request_json(FsRequest::Glob { root, pattern, max_results }, "fs_glob")
}

} // verus!
