//! What an invocation asks for.

use vstd::prelude::*;

verus! {

/// The subcommands.
#[derive(Clone, Copy, Debug, PartialEq, Eq, Structural)]
pub enum Command {
    /// Install all declared hooks into the hook directory.
    Build {
        /// Use the shell of the operator's session as the interpreter of
        /// generated scripts, in place of the default.
        use_current_shell: bool,
    },
    /// List the declared hooks.
    List,
    /// Remove the declared hooks from the hook directory.
    Clean {
        /// Remove the whole hook directory instead, whatever is declared.
        all: bool,
    },
    /// List the recognized hook events.
    ListEvents,
}

/// The options of an invocation.
#[derive(Debug, PartialEq, Eq)]
pub struct Opt {
    /// The path of the configuration file.
    pub config: String,
    /// Whether the warning about stale hooks is left out.
    pub ignore_stale: bool,
    /// What to do.
    pub command: Command,
}

pub struct OptView {
    pub config: Seq<char>,
    pub ignore_stale: bool,
    pub command: Command,
}

impl View for Opt {
    type V = OptView;

    open spec fn view(&self) -> OptView {
        OptView { config: self.config@, ignore_stale: self.ignore_stale, command: self.command }
    }
}

impl OptView {
    /// Whether the invocation reads the configuration: every command but
    /// the listing of events does, and so does the warning about stale hooks.
    pub open spec fn reads_config(self) -> bool {
        !self.ignore_stale || self.command != Command::ListEvents
    }
}

impl Opt {
    /// Whether the invocation reads the configuration.
    pub fn needs_config(&self) -> (r: bool)
        ensures
            r == self@.reads_config(),
    {
        !self.ignore_stale || !matches!(self.command, Command::ListEvents)
    }
}

} // verus!
