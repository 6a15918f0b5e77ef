//! Decisions around the analysis of a target: how the build is asked to
//! check it, and which of its messages are events.

use crate::backend::AnalyzerEvent;
use vstd::prelude::*;

verus! {

/// The target of a message of the build.
#[derive(Clone, Debug)]
pub struct CargoCheckMessageTarget {
    pub name: String,
}

/// A message of the build, as far as it matters here.
#[derive(Clone, Debug)]
pub enum CargoCheckMessage {
    CompilerArtifact { target: CargoCheckMessageTarget },
    BuildFinished {  },
}

/// The arguments with which the build checks a workspace: all targets and
/// all features only if asked for; the check goes on after an error and
/// reports in JSON.
pub open spec fn spec_check_args(all_targets: bool, all_features: bool) -> Seq<Seq<char>> {
    seq!["check"@, "--workspace"@] + (if all_targets {
        seq!["--all-targets"@]
    } else {
        Seq::<Seq<char>>::empty()
    }) + (if all_features {
        seq!["--all-features"@]
    } else {
        Seq::<Seq<char>>::empty()
    }) + seq!["--keep-going"@, "--message-format=json"@]
}

/// The arguments with which the build checks a workspace.
pub fn check_args(all_targets: bool, all_features: bool) -> (r: Vec<&'static str>)
    ensures
        r@.map_values(|s: &'static str| s@) == spec_check_args(all_targets, all_features),
{
    let mut args: Vec<&'static str> = Vec::new();
    args.push("check");
    args.push("--workspace");
    if all_targets {
        args.push("--all-targets");
    }
    if all_features {
        args.push("--all-features");
    }
    args.push("--keep-going");
    args.push("--message-format=json");
    assert(args@.map_values(|s: &'static str| s@) =~= spec_check_args(all_targets, all_features));
    args
}

/// The event that a message of the build is: a finished crate counts as
/// checked, of `package_count` in all; the end of the build is no event.
pub fn event_of(message: CargoCheckMessage, package_count: usize) -> (r: Option<AnalyzerEvent>)
    ensures
        match (message, r) {
            (
                CargoCheckMessage::CompilerArtifact { target },
                Some(AnalyzerEvent::CrateChecked { package, package_count: count }),
            ) => package@ == target.name@ && count == package_count,
            (CargoCheckMessage::BuildFinished {  }, None) => true,
            _ => false,
        },
{
    match message {
        CargoCheckMessage::CompilerArtifact { target } => Some(
            AnalyzerEvent::CrateChecked { package: target.name, package_count },
        ),
        CargoCheckMessage::BuildFinished {  } => None,
    }
}

/// The path that is analysed for a registered path: the root of the
/// workspace that the build reports for it; without one, the path itself
/// if it is a Rust source file; else none.
pub fn target_path(workspace_root: Option<String>, path: String, is_rust_file: bool) -> (r: Option<
    String,
>)
    ensures
        match r {
            Some(t) => match workspace_root {
                Some(root) => t@ == root@,
                None => is_rust_file && t@ == path@,
            },
            None => workspace_root is None && !is_rust_file,
        },
{
    match workspace_root {
        Some(root) => Some(root),
        None => if is_rust_file {
            Some(path)
        } else {
            None
        },
    }
}

} // verus!
