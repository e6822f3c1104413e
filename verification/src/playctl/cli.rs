//! The command line of `playctl`, as plain values.
use vstd::prelude::*;

verus! {

/// Global options and the command.
#[derive(Debug, Clone, PartialEq, Eq)]
pub struct Cli {
    /// Project root given with `--root`, overriding detection.
    pub root: Option<String>,
    /// First port to try (`--port`, default 4747).
    pub port: u16,
    /// Print only the URL on success, only errors on failure.
    pub quiet: bool,
    /// Emit machine-readable JSON.
    pub json: bool,
    pub cmd: Cmd,
}

/// The subcommands.
#[derive(Debug, Clone, PartialEq, Eq)]
pub enum Cmd {
    Start,
    Stop,
    Status,
    List,
    New { slug: String, template: String, title: Option<String>, description: Option<String> },
    Reindex,
    Open { slug: Option<String> },
    PrintTemplate { name: String },
    ServeForeground { root: String, port: u16 },
}

/// The port tried first when `--port` is not given.
pub const DEFAULT_PORT: u16 = 4747;

/// The template `new` uses when `--template` is not given.
pub const DEFAULT_TEMPLATE: &'static str = "design-playground";

} // verus!
