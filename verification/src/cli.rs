//! Command-line surface: the parsed argument shapes and the decision of what
//! an invocation does. Argument parsing itself is I/O and lives outside the
//! library; these types mirror the accepted grammar.

use vstd::prelude::*;

verus! {

/// The subcommands the tool accepts: `add <path>` appends a path to the
/// bookmark store.
pub enum Commands {
    Add { path: Option<String> },
}

/// A parsed invocation: with no subcommand the interactive selector runs.
pub struct Args {
    pub command: Option<Commands>,
}

/// What a given invocation must do.
pub enum Plan {
    /// Append this path to the bookmark store; nothing goes to standard output.
    AddPath(String),
    /// `add` was given without a path: report the missing argument on
    /// standard error and exit cleanly.
    MissingPath,
    /// Run the interactive selector session.
    Interactive,
}

/// Decides what an invocation does: `add <path>` appends, `add` without a
/// path is a reportable error, and a bare invocation starts a session.
pub fn plan(args: Args) -> (p: Plan)
    ensures
        match args.command {
            Some(Commands::Add { path: Some(s) }) => p matches Plan::AddPath(q) && q == s,
            Some(Commands::Add { path: None }) => p == Plan::MissingPath,
            None => p == Plan::Interactive,
        },
{
    match args.command {
        Some(Commands::Add { path: Some(s) }) => Plan::AddPath(s),
        Some(Commands::Add { path: None }) => Plan::MissingPath,
        None => Plan::Interactive,
    }
}

} // verus!
