//! Whether this machine can run a jail.
use vstd::prelude::*;

use crate::bwrap::{bwrap_broken, bwrap_missing, check_bwrap, VersionReply};
use crate::sbpl::{check_sandbox_exec, sandbox_exec_missing};

verus! {

/// What was found out about the program that makes jails on this machine.
#[derive(Clone, Copy, Debug, PartialEq, Eq, Structural)]
pub enum Probe {
    /// On Linux: how asking `bwrap` for its version went.
    Bwrap(VersionReply),
    /// On macOS: whether the file of `sandbox-exec` is there.
    SandboxExec { is_file: bool },
    /// Elsewhere: nothing.
    Unsupported,
}

/// What keeps this machine from running a jail, if anything does.
pub open spec fn obstacle(probe: Probe) -> Option<Seq<char>> {
    match probe {
        Probe::Bwrap(VersionReply::Succeeded) => None,
        Probe::Bwrap(VersionReply::Failed) => Some(bwrap_broken()),
        Probe::Bwrap(VersionReply::NotStarted) => Some(bwrap_missing()),
        Probe::SandboxExec { is_file: true } => None,
        Probe::SandboxExec { is_file: false } => Some(sandbox_exec_missing()),
        Probe::Unsupported => Some("ai-jail is only supported on Linux and macOS"@),
    }
}

/// Whether this machine can run a jail, and what to tell the user where it cannot.
pub fn check_sandbox(probe: Probe) -> (checked: Result<(), String>)
    ensures
        match checked {
            Ok(_) => obstacle(probe) is None,
            Err(complaint) => obstacle(probe) == Some(complaint@),
        },
        checked is Ok <==> probe == Probe::Bwrap(VersionReply::Succeeded) || probe == (
        Probe::SandboxExec { is_file: true }),
        probe is Unsupported ==> (checked matches Err(complaint) && complaint@
            == "ai-jail is only supported on Linux and macOS"@),
        probe == Probe::Bwrap(VersionReply::Failed) ==> (checked matches Err(complaint)
            && complaint@ == "bwrap found but returned an error. Check your installation."@),
        probe == Probe::Bwrap(VersionReply::NotStarted) ==> (checked matches Err(complaint)
            && complaint@
            == "bwrap (bubblewrap) not found. Install it:\n  Arch: pacman -S bubblewrap\n  Debian/Ubuntu: apt install bubblewrap\n  Fedora: dnf install bubblewrap"@),
        probe == (Probe::SandboxExec { is_file: false }) ==> (checked matches Err(complaint)
            && complaint@
            == "sandbox-exec not found at /usr/bin/sandbox-exec. This tool is required for sandboxing on macOS."@),
{
    match probe {
        Probe::Bwrap(reply) => check_bwrap(reply),
        Probe::SandboxExec { is_file } => check_sandbox_exec(is_file),
        Probe::Unsupported => Err("ai-jail is only supported on Linux and macOS".to_owned()),
    }
}

} // verus!
