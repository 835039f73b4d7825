//! Flag-style sandbox mode selector.
//!
//! Mirrors the variants of [`crate::policy::SandboxPolicy`], but without any
//! of the associated data so it can be expressed as a simple command-line
//! flag. Argument parsing itself lives with the caller; only the mapping to
//! [`crate::policy::SandboxMode`] is this library's concern.

use vstd::prelude::*;

use crate::policy::SandboxMode;

verus! {

#[derive(Clone, Copy, Debug)]
pub enum SandboxModeCliArg {
    ReadOnly,
    CurrentDirWrite,
    DangerFullAccess,
}

/// The mode a given flag value selects.
pub open spec fn spec_mode_of_cli_arg(value: SandboxModeCliArg) -> SandboxMode {
    match value {
        SandboxModeCliArg::ReadOnly => SandboxMode::ReadOnly,
        SandboxModeCliArg::CurrentDirWrite => SandboxMode::CurrentDirWrite,
        SandboxModeCliArg::DangerFullAccess => SandboxMode::DangerFullAccess,
    }
}

impl From<SandboxModeCliArg> for SandboxMode {
    fn from(value: SandboxModeCliArg) -> (r: SandboxMode) {
        match value {
            SandboxModeCliArg::ReadOnly => SandboxMode::ReadOnly,
            SandboxModeCliArg::CurrentDirWrite => SandboxMode::CurrentDirWrite,
            SandboxModeCliArg::DangerFullAccess => SandboxMode::DangerFullAccess,
        }
    }
}

impl vstd::std_specs::convert::FromSpecImpl<SandboxModeCliArg> for SandboxMode {
    open spec fn obeys_from_spec() -> bool {
        true
    }

    open spec fn from_spec(value: SandboxModeCliArg) -> SandboxMode {
        spec_mode_of_cli_arg(value)
    }
}

/// The mode a bare "run it automatically" flag selects: writes confined
/// to the working directory when set, read-only otherwise.
pub fn create_sandbox_mode(full_auto: bool) -> (r: SandboxMode)
    ensures
        r == if full_auto {
            SandboxMode::CurrentDirWrite
        } else {
            SandboxMode::ReadOnly
        },
{
    if full_auto {
        SandboxMode::CurrentDirWrite
    } else {
        SandboxMode::ReadOnly
    }
}

} // verus!
