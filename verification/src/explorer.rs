//! The file-manager launcher choice.
//!
//! Opening a path in the native file manager spawns one launcher program,
//! chosen by the host operating system. The library pins the choice; the
//! process shell detects the platform and spawns the process.

use vstd::prelude::*;

verus! {

/// The host platform, detected once by the process shell.
#[derive(Clone, Copy, PartialEq, Eq, Structural, Debug)]
pub enum HostOs {
    Windows,
    MacOs,
    Linux,
}

/// The launcher program of each platform.
pub open spec fn explorer_command_of(os: HostOs) -> Seq<char> {
    match os {
        HostOs::Windows => "explorer"@,
        HostOs::MacOs => "open"@,
        HostOs::Linux => "xdg-open"@,
    }
}

/// Picks the file-manager launcher program for the host platform.
pub fn explorer_command(os: HostOs) -> (r: &'static str)
    ensures
        r@ == explorer_command_of(os),
{
    match os {
        HostOs::Windows => "explorer",
        HostOs::MacOs => "open",
        HostOs::Linux => "xdg-open",
    }
}

} // verus!
