//! Error kinds of `sub2api-image` and their process exit codes.
//!
//! A failure travels as a chain of links, outermost first: the context added
//! by callers, then the error it wraps.  A link is either one of the kinds
//! below or a plain message from elsewhere; the exit code is the code of the
//! outermost kind in the chain.
use crate::text::{push_str, string_of};
use vstd::prelude::*;

verus! {

broadcast use vstd::string::group_string_axioms;

/// A classified failure.  Each kind maps to one exit code.
#[derive(Debug, Clone, PartialEq, Eq)]
pub enum AppError {
    /// The configuration file is missing, unreadable or incomplete.
    Config(String),
    /// The command line asks for something impossible.
    Input(String),
    /// The request could not be sent or its answer not read.
    Network(String),
    /// The gateway answered with an error status.
    Api(String),
    /// The answer could not be understood.
    Parse(String),
    /// A local file could not be written.
    Io(String),
}

/// The kind of an `AppError`, without its detail.
#[derive(Debug, Clone, Copy, PartialEq, Eq)]
pub enum ErrorKind {
    Config,
    Input,
    Network,
    Api,
    Parse,
    Io,
}

impl View for AppError {
    type V = (ErrorKind, Seq<char>);

    /// The kind and the detail text.
    open spec fn view(&self) -> (ErrorKind, Seq<char>) {
        match self {
            AppError::Config(s) => (ErrorKind::Config, s@),
            AppError::Input(s) => (ErrorKind::Input, s@),
            AppError::Network(s) => (ErrorKind::Network, s@),
            AppError::Api(s) => (ErrorKind::Api, s@),
            AppError::Parse(s) => (ErrorKind::Parse, s@),
            AppError::Io(s) => (ErrorKind::Io, s@),
        }
    }
}

/// A result with its error read through the error's view.
pub open spec fn result_view<T>(r: Result<T, AppError>) -> Result<T, (ErrorKind, Seq<char>)> {
    match r {
        Ok(v) => Ok(v),
        Err(e) => Err(e@),
    }
}

impl AppError {
    /// 2 for configuration and input errors, 3 network, 4 API, 5 parse, 6 I/O.
    pub open spec fn code(&self) -> u8 {
        match self {
            AppError::Config(_) => 2,
            AppError::Input(_) => 2,
            AppError::Network(_) => 3,
            AppError::Api(_) => 4,
            AppError::Parse(_) => 5,
            AppError::Io(_) => 6,
        }
    }

    /// The text the error displays: a prefix naming the kind, then the detail.
    pub open spec fn text(&self) -> Seq<char> {
        match self {
            AppError::Config(s) => "config error: "@ + s@,
            AppError::Input(s) => "input error: "@ + s@,
            AppError::Network(s) => "network error: "@ + s@,
            AppError::Api(s) => "api error: "@ + s@,
            AppError::Parse(s) => "response parse error: "@ + s@,
            AppError::Io(s) => "io error: "@ + s@,
        }
    }

    /// The process exit code of this kind.
    pub fn exit_code(&self) -> (r: u8)
        ensures
            r == self.code(),
    {
        match self {
            AppError::Config(_) | AppError::Input(_) => 2,
            AppError::Network(_) => 3,
            AppError::Api(_) => 4,
            AppError::Parse(_) => 5,
            AppError::Io(_) => 6,
        }
    }

    /// The error's message, as it is displayed.
    pub fn message(&self) -> (r: String)
        ensures
            r@ == self.text(),
    {
        let mut v: Vec<char> = Vec::new();
        let detail = match self {
            AppError::Config(s) => {
                push_str(&mut v, "config error: ");
                s
            },
            AppError::Input(s) => {
                push_str(&mut v, "input error: ");
                s
            },
            AppError::Network(s) => {
                push_str(&mut v, "network error: ");
                s
            },
            AppError::Api(s) => {
                push_str(&mut v, "api error: ");
                s
            },
            AppError::Parse(s) => {
                push_str(&mut v, "response parse error: ");
                s
            },
            AppError::Io(s) => {
                push_str(&mut v, "io error: ");
                s
            },
        };
        push_str(&mut v, detail.as_str());
        string_of(&v)
    }
}

/// One link of an error chain.
#[derive(Debug, Clone, PartialEq, Eq)]
pub enum ErrorLink {
    /// A classified failure.
    App(AppError),
    /// Any other error, by its message.
    Other(String),
}

/// The text a link displays.
pub open spec fn link_text(l: ErrorLink) -> Seq<char> {
    match l {
        ErrorLink::App(e) => e.text(),
        ErrorLink::Other(s) => s@,
    }
}

/// The code of the outermost classified link; 1 when no link is classified.
pub open spec fn chain_code(chain: Seq<ErrorLink>) -> u8
    decreases chain.len(),
{
    if chain.len() == 0 {
        1
    } else {
        match chain[0] {
            ErrorLink::App(e) => e.code(),
            ErrorLink::Other(_) => chain_code(chain.drop_first()),
        }
    }
}

/// The exit code of a failure: that of its outermost classified link, or 1
/// when none is classified.
pub fn exit_code_from(chain: &Vec<ErrorLink>) -> (r: u8)
    ensures
        r == chain_code(chain@),
{
    let mut i: usize = 0;
    assert(chain@.skip(0) =~= chain@);
    while i < chain.len()
        invariant
            i <= chain@.len(),
            chain_code(chain@) == chain_code(chain@.skip(i as int)),
        decreases chain@.len() - i,
    {
        assert(chain@.skip(i as int).drop_first() =~= chain@.skip(i + 1));
        match &chain[i] {
            ErrorLink::App(e) => {
                return e.exit_code();
            },
            ErrorLink::Other(_) => {},
        }
        i = i + 1;
    }
    1
}

/// The lines printed for a failure: `Error: ` and the outermost link, then
/// `  caused by: ` and each link it wraps, in order.
pub open spec fn report_text(chain: Seq<ErrorLink>, i: int) -> Seq<char> {
    if i == 0 {
        "Error: "@ + link_text(chain[i])
    } else {
        "  caused by: "@ + link_text(chain[i])
    }
}

/// The lines that report a failure, one per link of its chain.
pub fn report_lines(chain: &Vec<ErrorLink>) -> (r: Vec<String>)
    ensures
        r@.len() == chain@.len(),
        forall|i: int| 0 <= i < r@.len() ==> #[trigger] r@[i]@ == report_text(chain@, i),
{
    let mut out: Vec<String> = Vec::new();
    let mut i: usize = 0;
    while i < chain.len()
        invariant
            i <= chain@.len(),
            out@.len() == i,
            forall|j: int| 0 <= j < i ==> #[trigger] out@[j]@ == report_text(chain@, j),
        decreases chain@.len() - i,
    {
        let mut v: Vec<char> = Vec::new();
        if i == 0 {
            push_str(&mut v, "Error: ");
        } else {
            push_str(&mut v, "  caused by: ");
        }
        match &chain[i] {
            ErrorLink::App(e) => {
                let m = e.message();
                push_str(&mut v, m.as_str());
            },
            ErrorLink::Other(s) => {
                push_str(&mut v, s.as_str());
            },
        }
        out.push(string_of(&v));
        i = i + 1;
    }
    out
}

/// Wrapping a failure in plain context never changes its exit code, and a
/// chain with no classified link exits with 1.
pub proof fn law_context_keeps_code(context: String, chain: Seq<ErrorLink>)
    ensures
        chain_code(seq![ErrorLink::Other(context)] + chain) == chain_code(chain),
        chain_code(Seq::<ErrorLink>::empty()) == 1,
{
    assert((seq![ErrorLink::Other(context)] + chain).drop_first() =~= chain);
}

/// A failure wrapped in a classified context exits with the context's code,
/// whatever it wraps.
pub proof fn law_outermost_kind_decides(e: AppError, chain: Seq<ErrorLink>)
    ensures
        chain_code(seq![ErrorLink::App(e)] + chain) == e.code(),
{
}

} // verus!
