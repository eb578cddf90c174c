//! The command line and which of the program's modes it selects.
use vstd::prelude::*;

verus! {

/// The parsed command line.
pub struct Cli {
    /// An alias name to resolve, or a command to run as it is.
    pub cmd: Option<String>,
    /// The short name of an alias to add or update.
    pub name: Option<String>,
    /// The command of an alias to add or update.
    pub command: Option<String>,
    /// List all aliases.
    pub show: bool,
}

/// What one invocation does.
#[derive(Debug, PartialEq, Eq)]
pub enum Mode {
    /// List every alias.
    Show,
    /// Resolve `target` and run it.
    Run { target: String },
    /// Add or update the alias `name`.
    Add { name: String, command: String },
    /// Nothing to do.
    Idle,
}

impl Cli {
    /// Picks the mode: listing first, then running, then adding, which needs
    /// both a name and a command.
    pub fn mode(self) -> (r: Mode)
        ensures
            self.show ==> r == Mode::Show,
            !self.show && self.cmd is Some ==> (r matches Mode::Run { target } && target
                == self.cmd->0),
            !self.show && self.cmd is None && self.name is Some && self.command is Some ==> (
            r matches Mode::Add { name, command } && name == self.name->0 && command
                == self.command->0),
            !self.show && self.cmd is None && (self.name is None || self.command is None) ==> r
                == Mode::Idle,
    {
        if self.show {
            return Mode::Show;
        }
        match self.cmd {
            Some(target) => Mode::Run { target },
            None => match (self.name, self.command) {
                (Some(name), Some(command)) => Mode::Add { name, command },
                _ => Mode::Idle,
            },
        }
    }
}

} // verus!
