//! The command line: what was asked, and what to do for it.

use vstd::prelude::*;
use vstd::string::StringExecFns;

verus! {

/// The options of the `check` command.
#[derive(Debug)]
pub struct Check {
    /// The path of a file or directory to check.
    pub path: Option<String>,
    /// Whether to check all targets.
    pub all_targets: bool,
    /// Whether to check with all features.
    pub all_features: bool,
}

/// The commands.
#[derive(Debug)]
pub enum Commands {
    /// Check availability.
    Check(Check),
    /// Remove artifacts from the target directory.
    Clean,
}

/// The command line.
#[derive(Debug)]
pub struct Cli {
    /// Print the version.
    pub version: bool,
    /// Suppress output; counted.
    pub quiet: u8,
    pub command: Option<Commands>,
}

/// What the program does for a command line.
#[derive(Clone, Copy, Debug, PartialEq, Eq, Structural)]
pub enum CliAction {
    /// Execute the command.
    Execute,
    /// Print the version, after the name of the program if `with_name`.
    PrintVersion { with_name: bool },
    /// Serve the language server protocol.
    Serve,
}

/// The version line: `v` and the version, after the name of the program
/// unless output is suppressed.
pub open spec fn spec_version_text(quiet: u8, version: Seq<char>) -> Seq<char> {
    if quiet == 0 {
        "RustOwl "@ + "v"@ + version
    } else {
        "v"@ + version
    }
}

impl Cli {
    /// What to do: a command is executed; without one the version is
    /// printed if asked for, and else the server is started.
    pub fn action(&self) -> (r: CliAction)
        ensures
            r == if self.command is Some {
                CliAction::Execute
            } else if self.version {
                CliAction::PrintVersion { with_name: self.quiet == 0 }
            } else {
                CliAction::Serve
            },
    {
        if self.command.is_some() {
            CliAction::Execute
        } else if self.version {
            CliAction::PrintVersion { with_name: self.quiet == 0 }
        } else {
            CliAction::Serve
        }
    }

    /// The version line for the version `version`.
    pub fn version_text(&self, version: &str) -> (r: String)
        ensures
            r@ == spec_version_text(self.quiet, version@),
    {
        let mut text = if self.quiet == 0 {
            "RustOwl ".to_owned()
        } else {
            String::new()
        };
        text.append("v");
        text.append(version);
        assert(text@ =~= spec_version_text(self.quiet, version@));
        text
    }
}

impl Commands {
    /// The exit code of the `check` command: zero if the analysis gave a
    /// result, one if it gave none.
    pub fn check_exit_code(analyzed: bool) -> (r: i32)
        ensures
            r == if analyzed {
                0i32
            } else {
                1i32
            },
    {
        if analyzed {
            0
        } else {
            1
        }
    }
}

} // verus!
