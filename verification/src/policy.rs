//! The platform-independent sandbox policy value type and its pure
//! access predicates.

use vstd::prelude::*;

verus! {

/// Whether an externally managed sandbox still allows network egress.
#[derive(Clone, Copy, Debug, PartialEq, Eq, Structural)]
pub enum NetworkAccess {
    Restricted,
    Enabled,
}

/// Coarse sandbox mode as selected on a command line or in configuration;
/// carries no per-variant options.
#[derive(Clone, Copy, Debug, PartialEq, Eq, Structural)]
pub enum SandboxMode {
    ReadOnly,
    CurrentDirWrite,
    DangerFullAccess,
}

/// The closed set of sandbox policies, immutable once constructed.
///
/// - `DangerFullAccess`: no restriction at all.
/// - `ReadOnly`: full read access, no write access, no network access.
/// - `CurrentDirWrite`: full read access; writes confined to resolved
///   writable roots; network access gated by the flag.
/// - `ExternalSandbox`: enforcement is delegated to an outer sandbox the
///   process already runs inside; locally full read/write, with only the
///   network toggle left to honor.
#[allow(inconsistent_fields)]
#[derive(Clone, Copy, Debug, PartialEq, Eq, Structural)]
pub enum SandboxPolicy {
    DangerFullAccess,
    ReadOnly,
    CurrentDirWrite {
        network_access: bool,
        exclude_tmpdir_env_var: bool,
        exclude_slash_tmp: bool,
    },
    ExternalSandbox {
        network_access: NetworkAccess,
    },
}

impl SandboxPolicy {
    /// True exactly for the variants whose enforcement (if any) grants
    /// unrestricted writes: `DangerFullAccess` outright, and
    /// `ExternalSandbox` because the outer sandbox already decides.
    pub open spec fn spec_has_full_disk_write_access(self) -> bool {
        match self {
            SandboxPolicy::DangerFullAccess => true,
            SandboxPolicy::ReadOnly => false,
            SandboxPolicy::CurrentDirWrite { .. } => false,
            SandboxPolicy::ExternalSandbox { .. } => true,
        }
    }

    /// Every variant grants full read access except `ReadOnly`, which
    /// grants it too: reads are never restricted by this engine.
    pub open spec fn spec_has_full_disk_read_access(self) -> bool {
        true
    }

    /// True exactly when the policy allows unrestricted network egress.
    pub open spec fn spec_has_full_network_access(self) -> bool {
        match self {
            SandboxPolicy::DangerFullAccess => true,
            SandboxPolicy::ReadOnly => false,
            SandboxPolicy::CurrentDirWrite { network_access, .. } => network_access,
            SandboxPolicy::ExternalSandbox { network_access } => {
                network_access == NetworkAccess::Enabled
            },
        }
    }

    pub fn has_full_disk_write_access(&self) -> (r: bool)
        ensures
            r == self.spec_has_full_disk_write_access(),
    {
        match self {
            SandboxPolicy::DangerFullAccess => true,
            SandboxPolicy::ReadOnly => false,
            SandboxPolicy::CurrentDirWrite { .. } => false,
            SandboxPolicy::ExternalSandbox { .. } => true,
        }
    }

    pub fn has_full_disk_read_access(&self) -> (r: bool)
        ensures
            r == self.spec_has_full_disk_read_access(),
    {
        true
    }

    pub fn has_full_network_access(&self) -> (r: bool)
        ensures
            r == self.spec_has_full_network_access(),
    {
        match self {
            SandboxPolicy::DangerFullAccess => true,
            SandboxPolicy::ReadOnly => false,
            SandboxPolicy::CurrentDirWrite { network_access, .. } => *network_access,
            SandboxPolicy::ExternalSandbox { network_access } => {
                matches!(network_access, NetworkAccess::Enabled)
            },
        }
    }
}

} // verus!
