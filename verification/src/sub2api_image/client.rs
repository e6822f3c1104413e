//! Settings of the HTTP client: the request timeout and the `User-Agent`.
use crate::text::{push_str, string_of};
use vstd::prelude::*;

verus! {

broadcast use vstd::string::group_string_axioms;

/// How long one request may take, in seconds: image generation is slow.
pub const REQUEST_TIMEOUT_SECS: u64 = 300;

/// The program's name, as it introduces itself.
pub const NAME: &'static str = "sub2api-image";

/// The program's version.
pub const VERSION: &'static str = "0.1.0";

/// The operating system part: its type, followed by its version unless the
/// version is empty or `Unknown`.
pub open spec fn os_label(os_type: Seq<char>, os_version: Seq<char>) -> Seq<char> {
    if os_version.len() == 0 || os_version == "Unknown"@ {
        os_type
    } else {
        os_type + " "@ + os_version
    }
}

/// The terminal part: `TERM_PROGRAM` when set and not empty, else `Terminal`.
pub open spec fn term_label(term_program: Option<String>) -> Seq<char> {
    match term_program {
        Some(t) => if t@.len() > 0 {
            t@
        } else {
            "Terminal"@
        },
        None => "Terminal"@,
    }
}

/// `NAME/VERSION (OS; ARCH) TERM (NAME; VERSION)`.
pub open spec fn agent_text(
    os_type: Seq<char>,
    os_version: Seq<char>,
    arch: Seq<char>,
    term_program: Option<String>,
) -> Seq<char> {
    NAME@ + "/"@ + VERSION@ + " ("@ + os_label(os_type, os_version) + "; "@ + arch + ") "@
        + term_label(term_program) + " ("@ + NAME@ + "; "@ + VERSION@ + ")"@
}

/// The `User-Agent` for a system, an architecture and a terminal.
pub fn user_agent_for(os_type: &str, os_version: &str, arch: &str, term_program: &Option<String>) -> (r:
    String)
    ensures
        r@ == agent_text(os_type@, os_version@, arch@, *term_program),
{
    proof {
        reveal_strlit("Unknown");
    }
    let mut v: Vec<char> = Vec::new();
    push_str(&mut v, NAME);
    push_str(&mut v, "/");
    push_str(&mut v, VERSION);
    push_str(&mut v, " (");
    push_str(&mut v, os_type);
    let unknown = os_version.is_empty() || crate::text::chars_eq(
        &crate::text::chars_of(os_version),
        &crate::text::chars_of("Unknown"),
    );
    if !unknown {
        push_str(&mut v, " ");
        push_str(&mut v, os_version);
    }
    push_str(&mut v, "; ");
    push_str(&mut v, arch);
    push_str(&mut v, ") ");
    match term_program {
        Some(t) => if t.as_str().is_empty() {
            push_str(&mut v, "Terminal");
        } else {
            push_str(&mut v, t.as_str());
        },
        None => push_str(&mut v, "Terminal"),
    }
    push_str(&mut v, " (");
    push_str(&mut v, NAME);
    push_str(&mut v, "; ");
    push_str(&mut v, VERSION);
    push_str(&mut v, ")");
    assert(v@ =~= agent_text(os_type@, os_version@, arch@, *term_program));
    string_of(&v)
}

/// `os_info::get()`, with the type and the version of the running system
/// as `Display` writes them.  The machine decides, so nothing is claimed
/// of the result.
#[verifier::external_body]
fn os_identity() -> (String, String) {
    let info = os_info::get();
    (info.os_type().to_string(), info.version().to_string())
}

/// The `User-Agent` of this program on the running system, for the given
/// architecture and terminal.
pub fn user_agent(arch: &str, term_program: &Option<String>) -> (r: String)
    ensures
        exists|os_type: Seq<char>, os_version: Seq<char>|
            r@ == agent_text(os_type, os_version, arch@, *term_program),
{
    let (os_type, os_version) = os_identity();
    user_agent_for(os_type.as_str(), os_version.as_str(), arch, term_program)
}

} // verus!
