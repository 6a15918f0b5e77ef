//! The shells for which a completion script can be made.

use crate::strings::{occurs_at, str_eq};
use std::path::Path;
use vstd::prelude::*;
use vstd::string::StringExecFns;

verus! {

/// A shell with a completion script.
#[derive(Clone, Copy, Debug, Eq, Hash, PartialEq, Structural)]
#[non_exhaustive]
pub enum Shell {
    /// Bourne Again shell
    Bash,
    /// Elvish shell
    Elvish,
    /// Friendly Interactive shell
    Fish,
    /// PowerShell
    Power,
    /// Z shell
    Zsh,
    /// Nushell
    Nushell,
}

/// The shell whose executable has the name `name`, without directory and
/// extension.
pub open spec fn spec_shell_of_executable(name: Seq<char>) -> Option<Shell> {
    if name == "bash"@ {
        Some(Shell::Bash)
    } else if name == "zsh"@ {
        Some(Shell::Zsh)
    } else if name == "fish"@ {
        Some(Shell::Fish)
    } else if name == "elvish"@ {
        Some(Shell::Elvish)
    } else if name == "powershell"@ || name == "powershell_ise"@ {
        Some(Shell::Power)
    } else if name == "nushell"@ {
        Some(Shell::Nushell)
    } else {
        None
    }
}

/// The name of the shell on the command line.
pub open spec fn spec_shell_name(shell: Shell) -> Seq<char> {
    match shell {
        Shell::Bash => "bash"@,
        Shell::Elvish => "elvish"@,
        Shell::Fish => "fish"@,
        Shell::Power => "power"@,
        Shell::Zsh => "zsh"@,
        Shell::Nushell => "nushell"@,
    }
}

/// The shell with the command-line name `name`.
pub open spec fn spec_shell_from_str(name: Seq<char>) -> Option<Shell> {
    if name == "bash"@ {
        Some(Shell::Bash)
    } else if name == "elvish"@ {
        Some(Shell::Elvish)
    } else if name == "fish"@ {
        Some(Shell::Fish)
    } else if name == "power"@ {
        Some(Shell::Power)
    } else if name == "zsh"@ {
        Some(Shell::Zsh)
    } else if name == "nushell"@ {
        Some(Shell::Nushell)
    } else {
        None
    }
}

/// The name of an executable of `shell` stands somewhere in `path`.
pub open spec fn names_shell(path: Seq<char>, shell: Shell) -> bool {
    exists|name: Seq<char>, i: int| #[trigger]
        occurs_at(path, name, i) && spec_shell_of_executable(name) == Some(shell)
}

/// The stem of the last component of a path, as `Path::file_stem` of std
/// gives it for the platform; none where the path has no file name or the
/// stem is no valid text.  Which part of the path the stem is depends on
/// the platform, so the contract claims only what std says on each: the
/// stem is a portion of the file name, which is a component of the path,
/// and so stands in the path as it is.
#[verifier::external_body]
fn file_stem(path: &str) -> (r: Option<String>)
    ensures
        r is Some ==> exists|i: int| occurs_at(path@, r->0@, i),
{
    Path::new(path).file_stem().and_then(|stem| stem.to_str()).map(|stem| stem.to_owned())
}

/// The shell whose executable has the name `name`.
pub fn shell_of_executable(name: &str) -> (r: Option<Shell>)
    ensures
        r == spec_shell_of_executable(name@),
{
    if str_eq(name, "bash") {
        Some(Shell::Bash)
    } else if str_eq(name, "zsh") {
        Some(Shell::Zsh)
    } else if str_eq(name, "fish") {
        Some(Shell::Fish)
    } else if str_eq(name, "elvish") {
        Some(Shell::Elvish)
    } else if str_eq(name, "powershell") || str_eq(name, "powershell_ise") {
        Some(Shell::Power)
    } else if str_eq(name, "nushell") {
        Some(Shell::Nushell)
    } else {
        None
    }
}

/// The shell whose executable stands at `path`: the shell with the stem
/// of the path as the name of its executable.  No shell for a path
/// without a stem.  Which part of the path is its stem is for the
/// platform to say, so of a shell that is found the contract says that
/// the path holds the name of its executable.
pub fn parse_shell_from_path(path: &str) -> (r: Option<Shell>)
    ensures
        r is Some ==> names_shell(path@, r->0),
{
    match file_stem(path) {
        Some(name) => {
            let found = shell_of_executable(name.as_str());
            proof {
                if found is Some {
                    let i = choose|i: int| occurs_at(path@, name@, i);
                    assert(occurs_at(path@, name@, i));
                }
            }
            found
        },
        None => None,
    }
}

impl Shell {
    /// The shell whose executable stands at `path`.
    pub fn from_shell_path(path: &str) -> (r: Option<Self>)
        ensures
            r is Some ==> names_shell(path@, r->0),
    {
        parse_shell_from_path(path)
    }

    /// The shell that the environment names: the one whose executable the
    /// variable `SHELL` holds, if it is set; else PowerShell on Windows
    /// and none elsewhere.
    pub fn from_env(shell_variable: Option<&str>, on_windows: bool) -> (r: Option<Self>)
        ensures
            match shell_variable {
                None => r == if on_windows {
                    Some(Shell::Power)
                } else {
                    None::<Shell>
                },
                Some(path) => match r {
                    Some(shell) => names_shell(path@, shell) || (on_windows && shell
                        == Shell::Power),
                    None => !on_windows,
                },
            },
    {
        let named = match shell_variable {
            Some(path) => Self::from_shell_path(path),
            None => None,
        };
        match named {
            Some(shell) => Some(shell),
            None => if on_windows {
                Some(Shell::Power)
            } else {
                None
            },
        }
    }

    /// The name of the shell on the command line.
    pub fn name(&self) -> (r: &'static str)
        ensures
            r@ == spec_shell_name(*self),
    {
        match self {
            Shell::Bash => "bash",
            Shell::Elvish => "elvish",
            Shell::Fish => "fish",
            Shell::Power => "power",
            Shell::Zsh => "zsh",
            Shell::Nushell => "nushell",
        }
    }

    /// The name of the shell, as it is displayed.
    pub fn to_string(&self) -> (r: String)
        ensures
            r@ == spec_shell_name(*self),
    {
        self.name().to_owned()
    }

    /// The shell with the command-line name `s`, or a message that names
    /// `s` as no shell.
    pub fn from_str(s: &str) -> (r: Result<Self, String>)
        ensures
            match r {
                Ok(shell) => spec_shell_from_str(s@) == Some(shell),
                Err(message) => spec_shell_from_str(s@) is None && message@ == "invalid variant: "@
                    + s@,
            },
    {
        if str_eq(s, "bash") {
            Ok(Shell::Bash)
        } else if str_eq(s, "elvish") {
            Ok(Shell::Elvish)
        } else if str_eq(s, "fish") {
            Ok(Shell::Fish)
        } else if str_eq(s, "power") {
            Ok(Shell::Power)
        } else if str_eq(s, "zsh") {
            Ok(Shell::Zsh)
        } else if str_eq(s, "nushell") {
            Ok(Shell::Nushell)
        } else {
            let mut message = "invalid variant: ".to_owned();
            message.append(s);
            Err(message)
        }
    }
}

} // verus!
