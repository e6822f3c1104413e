//! The server's runtime files, the record of a running server, and the
//! liveness decision.
use crate::text::{
    chars_of, decimal, join, parse_unsigned, parse_unsigned_chars, path_join, trim, trim_bounds,
    slice_chars,
};
use vstd::prelude::*;

verus! {

broadcast use vstd::string::group_string_axioms;

/// The pid and port of a started server, as recorded in the runtime directory.
#[derive(Debug, Clone, PartialEq, Eq)]
pub struct ServerHandle {
    pub pid: u32,
    pub port: u16,
}

/// What the runtime files say about the server.
#[derive(Debug, PartialEq, Eq)]
pub enum AliveStatus {
    /// A recorded server whose process lives and whose health check passes.
    Running(ServerHandle),
    /// A record whose process is gone or does not answer.
    Stale,
    /// No usable record.
    Absent,
}

pub open spec fn runtime_dir_of(root: Seq<char>) -> Seq<char> {
    join(join(root, ".playgrounds"@), ".runtime"@)
}

/// `<root>/.playgrounds/.runtime`.
pub fn runtime_dir(project_root: &str) -> (r: String)
    ensures
        r@ == runtime_dir_of(project_root@),
{
    let p = path_join(project_root, ".playgrounds");
    path_join(p.as_str(), ".runtime")
}

/// `<root>/.playgrounds/.runtime/server.pid`.
pub fn pid_path(project_root: &str) -> (r: String)
    ensures
        r@ == join(runtime_dir_of(project_root@), "server.pid"@),
{
    let d = runtime_dir(project_root);
    path_join(d.as_str(), "server.pid")
}

/// `<root>/.playgrounds/.runtime/server.port`.
pub fn port_path(project_root: &str) -> (r: String)
    ensures
        r@ == join(runtime_dir_of(project_root@), "server.port"@),
{
    let d = runtime_dir(project_root);
    path_join(d.as_str(), "server.port")
}

/// `<root>/.playgrounds/.runtime/server.log`.
pub fn log_path(project_root: &str) -> (r: String)
    ensures
        r@ == join(runtime_dir_of(project_root@), "server.log"@),
{
    let d = runtime_dir(project_root);
    path_join(d.as_str(), "server.log")
}

/// The handle recorded by the pid and port files' contents: each is trimmed
/// and parsed as a `u32` pid and a `u16` port; `None` when either fails.
pub open spec fn handle_of(pid_text: Seq<char>, port_text: Seq<char>) -> Option<ServerHandle> {
    match (parse_unsigned(trim(pid_text), u32::MAX as nat), parse_unsigned(trim(port_text), u16::MAX as nat)) {
        (Some(pid), Some(port)) => Some(ServerHandle { pid: pid as u32, port: port as u16 }),
        _ => None,
    }
}

fn parse_trimmed(s: &str, max: u64) -> (r: Option<u64>)
    ensures
        match r {
            Some(n) => parse_unsigned(trim(s@), max as nat) == Some(n as nat),
            None => parse_unsigned(trim(s@), max as nat) is None,
        },
{
    let v = chars_of(s);
    let (a, b) = trim_bounds(&v, 0, v.len());
    assert(v@.subrange(0, v@.len() as int) =~= v@);
    let t = slice_chars(&v, a, b);
    parse_unsigned_chars(&t, max)
}

/// The handle whose pid file holds `pid_text` and port file `port_text`.
pub fn parse_handle(pid_text: &str, port_text: &str) -> (r: Option<ServerHandle>)
    ensures
        r == handle_of(pid_text@, port_text@),
{
    let pid = parse_trimmed(pid_text, u32::MAX as u64);
    let port = parse_trimmed(port_text, u16::MAX as u64);
    match (pid, port) {
        (Some(pid), Some(port)) => Some(ServerHandle { pid: pid as u32, port: port as u16 }),
        _ => None,
    }
}

/// The text written to the pid file.
pub fn pid_text(h: &ServerHandle) -> (r: String)
    ensures
        r@ == decimal(h.pid as nat),
{
    crate::text::decimal_string(h.pid as u64)
}

/// The text written to the port file.
pub fn port_text(h: &ServerHandle) -> (r: String)
    ensures
        r@ == decimal(h.port as nat),
{
    crate::text::decimal_string(h.port as u64)
}

/// Whether process `pid` exists: `nix::sys::signal::kill` with no signal (a
/// permission and existence check) succeeds.  What comes back depends on the
/// processes of the machine, so nothing is stated of it.
#[verifier::external_body]
pub fn is_alive(pid: u32) -> bool {
    nix::sys::signal::kill(nix::unistd::Pid::from_raw(pid as i32), None).is_ok()
}

/// The status of the server from its record (`None`: no readable record), whether
/// the recorded process lives, and whether its health check answered.  The two
/// flags matter only when there is a record, and `healthy` only when the
/// process lives.
pub open spec fn status_of(handle: Option<ServerHandle>, alive: bool, healthy: bool) -> AliveStatus {
    match handle {
        None => AliveStatus::Absent,
        Some(h) => if !alive || !healthy {
            AliveStatus::Stale
        } else {
            AliveStatus::Running(h)
        },
    }
}

/// Decides the server status: absent without a record; stale when the process
/// is gone or the health check fails; running otherwise.
pub fn probe(handle: Option<ServerHandle>, alive: bool, healthy: bool) -> (r: AliveStatus)
    ensures
        r == status_of(handle, alive, healthy),
{
    match handle {
        None => AliveStatus::Absent,
        Some(h) => if !alive || !healthy {
            AliveStatus::Stale
        } else {
            AliveStatus::Running(h)
        },
    }
}

/// The health check request sent to the server.
pub fn healthz_request() -> (r: Vec<u8>)
    ensures
        r@ == crate::text::ascii_bytes("GET /healthz HTTP/1.0\r\nHost: 127.0.0.1\r\n\r\n"@),
{
    crate::text::ascii_bytes_of("GET /healthz HTTP/1.0\r\nHost: 127.0.0.1\r\n\r\n")
}

/// A health check answer passes when its status line starts `HTTP/1.0 200` or
/// `HTTP/1.1 200`.
pub open spec fn healthy_answer(head: Seq<u8>) -> bool {
    crate::text::byte_prefix(head, crate::text::ascii_bytes("HTTP/1.0 200"@))
        || crate::text::byte_prefix(head, crate::text::ascii_bytes("HTTP/1.1 200"@))
}

/// Whether the first bytes of the server's answer report success.
pub fn healthz_ok(head: &[u8]) -> (r: bool)
    ensures
        r == healthy_answer(head@),
{
    let a = crate::text::ascii_bytes_of("HTTP/1.0 200");
    let b = crate::text::ascii_bytes_of("HTTP/1.1 200");
    crate::text::starts_with_bytes(head, &a) || crate::text::starts_with_bytes(head, &b)
}

/// What is written is read back: the pid and port files of a handle parse
/// to that handle.
pub proof fn law_handle_round_trip(h: ServerHandle)
    ensures
        handle_of(decimal(h.pid as nat), decimal(h.port as nat)) == Some(h),
{
    crate::text::lemma_decimal_parses(h.pid as nat, u32::MAX as nat);
    crate::text::lemma_decimal_parses(h.port as nat, u16::MAX as nat);
}

} // verus!
