//! The decisions of `start`, `stop` and `status`, and the text they print.
//! Spawning, signalling, sleeping and printing are done by the caller, which
//! feeds back what it observed.
use crate::playctl::error::ExitError;
use crate::playctl::proc::{is_alive, AliveStatus, ServerHandle};
use crate::text::{decimal, push_decimal, push_str, string_of};
use vstd::prelude::*;

verus! {

broadcast use vstd::string::group_string_axioms;

/// How long `start` waits for the new server's health check.
pub const START_TIMEOUT_MS: u64 = 5000;

/// How long `stop` waits for the server to exit after SIGTERM.
pub const STOP_TIMEOUT_MS: u64 = 3000;

/// The pause between two checks while waiting.
pub const POLL_INTERVAL_MS: u64 = 100;

/// How many consecutive ports `start` tries.
pub const PORT_ATTEMPTS: u16 = 16;

pub open spec fn url_of(port: u16) -> Seq<char> {
    "http://127.0.0.1:"@ + decimal(port as nat) + "/"@
}

/// The line `start` prints: the URL, or `{"url":"<url>"}` with `--json`.
pub fn url_line(port: u16, json: bool) -> (r: String)
    ensures
        r@ == (if json {
            "{\"url\":\""@ + url_of(port) + "\"}"@
        } else {
            url_of(port)
        }),
{
    let mut v: Vec<char> = Vec::new();
    if json {
        push_str(&mut v, "{\"url\":\"");
    }
    push_str(&mut v, "http://127.0.0.1:");
    push_decimal(&mut v, port as u64);
    push_str(&mut v, "/");
    if json {
        push_str(&mut v, "\"}");
    }
    string_of(&v)
}

/// What `status` prints for a server status and a playground count.
pub open spec fn status_text(status: AliveStatus, count: nat, json: bool) -> Seq<char> {
    match status {
        AliveStatus::Running(h) => {
            let url = "http://127.0.0.1:"@ + decimal(h.port as nat);
            if json {
                "{\"state\":\"running\",\"url\":\""@ + url + "\",\"count\":"@ + decimal(count) + "}"@
            } else {
                "running   "@ + url + "   "@ + decimal(count) + " playgrounds"@
            }
        },
        _ => if json {
            "{\"state\":\"stopped\"}"@
        } else {
            "stopped"@
        },
    }
}

/// The line `status` prints.
pub fn status_line(status: &AliveStatus, count: u64, json: bool) -> (r: String)
    ensures
        r@ == status_text(*status, count as nat, json),
{
    let mut v: Vec<char> = Vec::new();
    match status {
        AliveStatus::Running(h) => {
            if json {
                push_str(&mut v, "{\"state\":\"running\",\"url\":\"");
                push_str(&mut v, "http://127.0.0.1:");
                push_decimal(&mut v, h.port as u64);
                push_str(&mut v, "\",\"count\":");
                push_decimal(&mut v, count);
                push_str(&mut v, "}");
            } else {
                push_str(&mut v, "running   ");
                push_str(&mut v, "http://127.0.0.1:");
                push_decimal(&mut v, h.port as u64);
                push_str(&mut v, "   ");
                push_decimal(&mut v, count);
                push_str(&mut v, " playgrounds");
            }
        },
        _ => {
            if json {
                push_str(&mut v, "{\"state\":\"stopped\"}");
            } else {
                push_str(&mut v, "stopped");
            }
        },
    }
    string_of(&v)
}

/// The ports `start` tries from `base`: `PORT_ATTEMPTS` consecutive ports, as
/// far as they exist.
pub open spec fn candidate_ports_of(base: u16) -> Seq<u16> {
    let n = if base as int + PORT_ATTEMPTS as int - 1 <= u16::MAX as int {
        PORT_ATTEMPTS as int
    } else {
        u16::MAX as int - base as int + 1
    };
    Seq::new(n as nat, |i: int| (base as int + i) as u16)
}

/// The ports to try, in order.
pub fn candidate_ports(base: u16) -> (r: Vec<u16>)
    ensures
        r@ == candidate_ports_of(base),
{
    let mut r: Vec<u16> = Vec::new();
    let mut i: u16 = 0;
    while i < PORT_ATTEMPTS && (base as u32 + i as u32) <= u16::MAX as u32
        invariant
            i <= PORT_ATTEMPTS,
            base as int + i as int <= u16::MAX as int + 1,
            r@ =~= Seq::new(i as nat, |k: int| (base as int + k) as u16),
        decreases PORT_ATTEMPTS - i,
    {
        r.push((base as u32 + i as u32) as u16);
        i = i + 1;
        assert(r@ =~= Seq::new(i as nat, |k: int| (base as int + k) as u16));
    }
    r
}

/// The error when every candidate port was taken.
pub fn ports_exhausted(base: u16) -> (r: ExitError)
    ensures
        r == (ExitError::PortExhausted { start: base, tried: PORT_ATTEMPTS }),
{
    ExitError::PortExhausted { start: base, tried: PORT_ATTEMPTS }
}

/// What `start` does once it knows the server status.
#[derive(Debug, Clone, PartialEq, Eq)]
pub enum StartPlan {
    /// A healthy server runs already: print its URL.
    Report { port: u16 },
    /// Clear any stale record and launch a new server.
    Launch,
}

/// `start` is idempotent: a running server is reported, anything else is
/// (re)launched.
pub fn start_plan(status: &AliveStatus) -> (r: StartPlan)
    ensures
        match *status {
            AliveStatus::Running(h) => r == (StartPlan::Report { port: h.port }),
            _ => r == StartPlan::Launch,
        },
{
    match status {
        AliveStatus::Running(h) => StartPlan::Report { port: h.port },
        _ => StartPlan::Launch,
    }
}

/// One step of waiting for a launched server.
#[derive(Debug, Clone, PartialEq, Eq)]
pub enum StartStep {
    /// Record the server and print its URL.
    Ready,
    /// Sleep `POLL_INTERVAL_MS`, then check again.
    Wait,
    /// Kill the child and fail.
    GiveUp(ExitError),
}

/// After `elapsed_ms` of waiting, with the health check result (`healthy`, taken
/// only while time is left): ready when healthy, wait while time is left, else
/// give up with a server-not-up error.
pub fn start_step(elapsed_ms: u64, healthy: bool) -> (r: StartStep)
    ensures
        elapsed_ms >= START_TIMEOUT_MS ==> r == StartStep::GiveUp(
            ExitError::ServerNotUp { timeout_ms: START_TIMEOUT_MS },
        ),
        elapsed_ms < START_TIMEOUT_MS && healthy ==> r == StartStep::Ready,
        elapsed_ms < START_TIMEOUT_MS && !healthy ==> r == StartStep::Wait,
{
    if elapsed_ms >= START_TIMEOUT_MS {
        StartStep::GiveUp(ExitError::ServerNotUp { timeout_ms: START_TIMEOUT_MS })
    } else if healthy {
        StartStep::Ready
    } else {
        StartStep::Wait
    }
}

/// One step of waiting for a server told to stop.
#[derive(Debug, Clone, PartialEq, Eq)]
pub enum StopStep {
    /// The process is gone: clear the record and report `stopped`.
    Stopped,
    /// Sleep `POLL_INTERVAL_MS`, then check again.
    Wait,
    /// Send SIGKILL, then clear the record and report `stopped`.
    Kill,
}

/// After `elapsed_ms` since SIGTERM, with whether the process still lives
/// (checked only while time is left).
pub fn stop_step(elapsed_ms: u64, alive: bool) -> (r: StopStep)
    ensures
        elapsed_ms >= STOP_TIMEOUT_MS ==> r == StopStep::Kill,
        elapsed_ms < STOP_TIMEOUT_MS && !alive ==> r == StopStep::Stopped,
        elapsed_ms < STOP_TIMEOUT_MS && alive ==> r == StopStep::Wait,
{
    if elapsed_ms >= STOP_TIMEOUT_MS {
        StopStep::Kill
    } else if !alive {
        StopStep::Stopped
    } else {
        StopStep::Wait
    }
}

/// One poll while stopping process `pid`, `elapsed_ms` after SIGTERM: past
/// the timeout it is time to kill, without looking at the process; before
/// it, the process is looked up and found gone or still there.
pub fn poll_stop(elapsed_ms: u64, pid: u32) -> (r: StopStep)
    ensures
        elapsed_ms >= STOP_TIMEOUT_MS ==> r == StopStep::Kill,
        elapsed_ms < STOP_TIMEOUT_MS ==> (r == StopStep::Stopped || r == StopStep::Wait),
{
    if elapsed_ms >= STOP_TIMEOUT_MS {
        return StopStep::Kill;
    }
    stop_step(elapsed_ms, is_alive(pid))
}

/// The record written once a launched server answers.
pub fn launched_handle(pid: u32, port: u16) -> (r: ServerHandle)
    ensures
        r == (ServerHandle { pid, port }),
{
    ServerHandle { pid, port }
}

} // verus!
