//! Error kinds of `playctl` and their process exit codes.
//!
//! Errors travel as a chain of messages, outermost first (the context added by
//! callers, then the error it wraps).  `classify` finds the exit code from the
//! fixed prefix that each kind puts at the start of its message.
use crate::text::{decimal, matches_at, occurs_at, push_decimal, push_str, chars_of, string_of};
use vstd::prelude::*;

verus! {

broadcast use vstd::string::group_string_axioms;

/// A `playctl` failure.  Each kind maps to one exit code.
#[derive(Debug, Clone, PartialEq, Eq)]
pub enum ExitError {
    /// Bad arguments, an existing or invalid slug, an unknown template.
    User(String),
    /// The environment: unwritable runtime directory, missing project root.
    Env(String),
    /// Every port tried was occupied.
    PortExhausted { start: u16, tried: u16 },
    /// The server did not answer its health check in time.
    ServerNotUp { timeout_ms: u64 },
    /// Anything else.
    Internal(String),
}

impl ExitError {
    pub open spec fn code(&self) -> u8 {
        match self {
            ExitError::User(_) => 1,
            ExitError::Env(_) => 2,
            ExitError::PortExhausted { .. } => 3,
            ExitError::ServerNotUp { .. } => 4,
            ExitError::Internal(_) => 5,
        }
    }

    /// The text the error displays.
    pub open spec fn text(&self) -> Seq<char> {
        match self {
            ExitError::User(s) => "user error: "@ + s@,
            ExitError::Env(s) => "env error: "@ + s@,
            ExitError::PortExhausted { start, tried } => "port exhaustion: tried "@ + decimal(
                *tried as nat,
            ) + " ports starting at "@ + decimal(*start as nat),
            ExitError::ServerNotUp { timeout_ms } => "server failed to start within "@ + decimal(
                *timeout_ms as nat,
            ) + "ms"@,
            ExitError::Internal(s) => "internal error: "@ + s@,
        }
    }

    /// The process exit code: 1 user, 2 environment, 3 port exhaustion,
    /// 4 server not up, 5 internal.
    pub fn exit_code(&self) -> (r: u8)
        ensures
            r == self.code(),
    {
        match self {
            ExitError::User(_) => 1,
            ExitError::Env(_) => 2,
            ExitError::PortExhausted { .. } => 3,
            ExitError::ServerNotUp { .. } => 4,
            ExitError::Internal(_) => 5,
        }
    }

    /// The error's message, as it is displayed.
    pub fn message(&self) -> (r: String)
        ensures
            r@ == self.text(),
    {
        let mut v: Vec<char> = Vec::new();
        match self {
            ExitError::User(s) => {
                push_str(&mut v, "user error: ");
                push_str(&mut v, s.as_str());
            },
            ExitError::Env(s) => {
                push_str(&mut v, "env error: ");
                push_str(&mut v, s.as_str());
            },
            ExitError::PortExhausted { start, tried } => {
                push_str(&mut v, "port exhaustion: tried ");
                push_decimal(&mut v, *tried as u64);
                push_str(&mut v, " ports starting at ");
                push_decimal(&mut v, *start as u64);
            },
            ExitError::ServerNotUp { timeout_ms } => {
                push_str(&mut v, "server failed to start within ");
                push_decimal(&mut v, *timeout_ms);
                push_str(&mut v, "ms");
            },
            ExitError::Internal(s) => {
                push_str(&mut v, "internal error: ");
                push_str(&mut v, s.as_str());
            },
        }
        string_of(&v)
    }
}

/// The exit code that a single message of the chain announces, if any.
pub open spec fn link_code(s: Seq<char>) -> Option<u8> {
    if occurs_at(s, 0, "user error:"@) {
        Some(1u8)
    } else if occurs_at(s, 0, "env error:"@) {
        Some(2u8)
    } else if occurs_at(s, 0, "port exhaustion:"@) {
        Some(3u8)
    } else if occurs_at(s, 0, "server failed to start within"@) {
        Some(4u8)
    } else if occurs_at(s, 0, "internal error:"@) {
        Some(5u8)
    } else {
        None
    }
}

/// The code of the first message that starts with one of the five prefixes;
/// 5 when none does.
pub open spec fn classify_chain(chain: Seq<Seq<char>>) -> u8
    decreases chain.len(),
{
    if chain.len() == 0 {
        5
    } else {
        match link_code(chain[0]) {
            Some(c) => c,
            None => classify_chain(chain.drop_first()),
        }
    }
}

pub open spec fn chain_view(chain: Seq<String>) -> Seq<Seq<char>> {
    chain.map_values(|s: String| s@)
}

fn link_code_exec(s: &String) -> (r: Option<u8>)
    ensures
        r == link_code(s@),
{
    let v = chars_of(s.as_str());
    if matches_at(&v, 0, &chars_of("user error:")) {
        Some(1)
    } else if matches_at(&v, 0, &chars_of("env error:")) {
        Some(2)
    } else if matches_at(&v, 0, &chars_of("port exhaustion:")) {
        Some(3)
    } else if matches_at(&v, 0, &chars_of("server failed to start within")) {
        Some(4)
    } else if matches_at(&v, 0, &chars_of("internal error:")) {
        Some(5)
    } else {
        None
    }
}

/// The exit code for an error given as its chain of messages, outermost first.
///
/// Each message is checked on its own for a kind's prefix (`user error:`,
/// `env error:`, `port exhaustion:`, `server failed to start within`,
/// `internal error:`); the first match decides.  A prefix inside a message, not
/// at its start, never counts.  No match at all gives 5.
pub fn classify(chain: &Vec<String>) -> (r: u8)
    ensures
        r == classify_chain(chain_view(chain@)),
{
    let mut i: usize = 0;
    assert(chain_view(chain@).skip(0) =~= chain_view(chain@));
    while i < chain.len()
        invariant
            i <= chain@.len(),
            classify_chain(chain_view(chain@)) == classify_chain(chain_view(chain@).skip(i as int)),
        decreases chain.len() - i,
    {
        let ghost rest = chain_view(chain@).skip(i as int);
        assert(rest[0] == chain@[i as int]@);
        match link_code_exec(&chain[i]) {
            Some(c) => {
                return c;
            },
            None => {
                assert(rest.drop_first() =~= chain_view(chain@).skip(i + 1));
            },
        }
        i = i + 1;
    }
    assert(chain_view(chain@).skip(i as int).len() == 0);
    5
}

proof fn lemma_starts_with_own_prefix(prefix: Seq<char>, head: Seq<char>, tail: Seq<char>)
    requires
        head.len() >= prefix.len(),
        head.take(prefix.len() as int) == prefix,
    ensures
        occurs_at(head + tail, 0, prefix),
{
    assert((head + tail).subrange(0, prefix.len() as int) =~= prefix);
}

proof fn lemma_not_prefix(s: Seq<char>, prefix: Seq<char>)
    requires
        s.len() > 0,
        prefix.len() > 0,
        s[0] != prefix[0],
    ensures
        !occurs_at(s, 0, prefix),
{
    if occurs_at(s, 0, prefix) {
        assert(s.subrange(0, prefix.len() as int)[0] == s[0]);
    }
}

/// The message of an error announces that error's exit code.
pub proof fn lemma_link_code_of_message(e: ExitError)
    ensures
        link_code(e.text()) == Some(e.code()),
{
    reveal_strlit("user error: ");
    reveal_strlit("env error: ");
    reveal_strlit("port exhaustion: tried ");
    reveal_strlit("server failed to start within ");
    reveal_strlit("internal error: ");
    reveal_strlit("user error:");
    reveal_strlit("env error:");
    reveal_strlit("port exhaustion:");
    reveal_strlit("server failed to start within");
    reveal_strlit("internal error:");
    let t = e.text();
    match e {
        ExitError::User(s) => {
            assert("user error: "@.take(11) =~= "user error:"@);
            lemma_starts_with_own_prefix("user error:"@, "user error: "@, s@);
        },
        ExitError::Env(s) => {
            lemma_not_prefix(t, "user error:"@);
            assert("env error: "@.take(10) =~= "env error:"@);
            lemma_starts_with_own_prefix("env error:"@, "env error: "@, s@);
        },
        ExitError::PortExhausted { start, tried } => {
            let tail = decimal(tried as nat) + " ports starting at "@ + decimal(start as nat);
            assert(t =~= "port exhaustion: tried "@ + tail);
            lemma_not_prefix(t, "user error:"@);
            lemma_not_prefix(t, "env error:"@);
            assert("port exhaustion: tried "@.take(16) =~= "port exhaustion:"@);
            lemma_starts_with_own_prefix("port exhaustion:"@, "port exhaustion: tried "@, tail);
        },
        ExitError::ServerNotUp { timeout_ms } => {
            let tail = decimal(timeout_ms as nat) + "ms"@;
            assert(t =~= "server failed to start within "@ + tail);
            lemma_not_prefix(t, "user error:"@);
            lemma_not_prefix(t, "env error:"@);
            lemma_not_prefix(t, "port exhaustion:"@);
            assert("server failed to start within "@.take(29) =~= "server failed to start within"@);
            lemma_starts_with_own_prefix(
                "server failed to start within"@,
                "server failed to start within "@,
                tail,
            );
        },
        ExitError::Internal(s) => {
            lemma_not_prefix(t, "user error:"@);
            lemma_not_prefix(t, "env error:"@);
            lemma_not_prefix(t, "port exhaustion:"@);
            lemma_not_prefix(t, "server failed to start within"@);
            assert("internal error: "@.take(15) =~= "internal error:"@);
            lemma_starts_with_own_prefix("internal error:"@, "internal error: "@, s@);
        },
    }
}

/// An error classifies as its own exit code when its message heads the chain,
/// whatever its payload says and whatever the messages behind it say.
pub proof fn law_message_classifies(e: ExitError, rest: Seq<Seq<char>>)
    ensures
        classify_chain(seq![e.text()] + rest) == e.code(),
{
    lemma_link_code_of_message(e);
    assert((seq![e.text()] + rest)[0] == e.text());
}

/// Context messages that carry none of the prefixes do not change the code of
/// the chain they wrap.
pub proof fn law_plain_context_is_transparent(context: Seq<Seq<char>>, chain: Seq<Seq<char>>)
    requires
        forall|i: int| 0 <= i < context.len() ==> link_code(#[trigger] context[i]) is None,
    ensures
        classify_chain(context + chain) == classify_chain(chain),
    decreases context.len(),
{
    if context.len() > 0 {
        assert((context + chain)[0] == context[0]);
        assert((context + chain).drop_first() =~= context.drop_first() + chain);
        law_plain_context_is_transparent(context.drop_first(), chain);
    } else {
        assert(context + chain =~= chain);
    }
}

} // verus!
