//! Command-line arguments.
use vstd::prelude::*;

verus! {

/// The arguments of the program.
#[derive(Debug)]
pub struct Cli {
    pub command: Option<Command>,
    /// Append every ACP wire message (both directions) to the given file,
    /// one line per message prefixed with `>>` (sent) or `<<` (received).
    pub acp_log: Option<String>,
    /// Only log wire messages for agents whose id contains this substring.
    pub acp_log_filter: Option<String>,
}

/// A subcommand.
#[derive(Debug)]
pub enum Command {
    /// Initialize a workspace: select agent, scan for devcontainer projects,
    /// generate credential layer.
    Init {
        /// Path to the workspace root.
        path: String,
    },
}

/// What the program is to do.
#[derive(Debug)]
pub enum Start {
    /// Initialize the workspace at a path.
    Init(String),
    /// Launch the UI, with what is logged.
    Tui { acp_log: Option<String>, acp_log_filter: Option<String> },
}

impl Cli {
    /// What the program is to do: a subcommand if there is one, or else the UI.
    pub fn start(self) -> (r: Start)
        ensures
            match self.command {
                Some(Command::Init { path }) => r matches Start::Init(p) && p == path,
                None => r matches Start::Tui { acp_log, acp_log_filter } && acp_log == self.acp_log
                    && acp_log_filter == self.acp_log_filter,
            },
    {
        match self.command {
            Some(Command::Init { path }) => Start::Init(path),
            None => Start::Tui { acp_log: self.acp_log, acp_log_filter: self.acp_log_filter },
        }
    }
}

} // verus!
