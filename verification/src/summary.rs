//! One-line human-readable summaries of sandbox policies.

use vstd::prelude::*;

use crate::policy::NetworkAccess;
use crate::policy::SandboxPolicy;

verus! {

/// The writable-location list a `CurrentDirWrite` summary shows between
/// brackets: the working directory always, then the optional temporary
/// locations.
pub open spec fn spec_writable_entries(
    exclude_tmpdir_env_var: bool,
    exclude_slash_tmp: bool,
) -> Seq<char> {
    "workdir"@ + (if !exclude_slash_tmp {
        ", /tmp"@
    } else {
        Seq::<char>::empty()
    }) + (if !exclude_tmpdir_env_var {
        ", $TMPDIR"@
    } else {
        Seq::<char>::empty()
    })
}

/// The summary text of a policy.
pub open spec fn spec_summarize(policy: SandboxPolicy) -> Seq<char> {
    match policy {
        SandboxPolicy::DangerFullAccess => "danger-full-access"@,
        SandboxPolicy::ReadOnly => "read-only"@,
        SandboxPolicy::ExternalSandbox { network_access } => {
            if network_access == NetworkAccess::Enabled {
                "external-sandbox"@ + " (network access enabled)"@
            } else {
                "external-sandbox"@
            }
        },
        SandboxPolicy::CurrentDirWrite {
            network_access,
            exclude_tmpdir_env_var,
            exclude_slash_tmp,
        } => {
            "current-dir-write"@ + " ["@ + spec_writable_entries(
                exclude_tmpdir_env_var,
                exclude_slash_tmp,
            ) + "]"@ + (if network_access {
                " (network access enabled)"@
            } else {
                Seq::<char>::empty()
            })
        },
    }
}

/// Exactly [`spec_summarize`].
pub fn summarize_sandbox_policy(sandbox_policy: &SandboxPolicy) -> (r: String)
    ensures
        r@ == spec_summarize(*sandbox_policy),
{
    match sandbox_policy {
        SandboxPolicy::DangerFullAccess => String::from_str("danger-full-access"),
        SandboxPolicy::ReadOnly => String::from_str("read-only"),
        SandboxPolicy::ExternalSandbox { network_access } => {
            let mut s = String::from_str("external-sandbox");
            if matches!(network_access, NetworkAccess::Enabled) {
                s.append(" (network access enabled)");
            }
            s
        },
        SandboxPolicy::CurrentDirWrite {
            network_access,
            exclude_tmpdir_env_var,
            exclude_slash_tmp,
        } => {
            let mut s = String::from_str("current-dir-write");
            s.append(" [");
            s.append("workdir");
            if !*exclude_slash_tmp {
                s.append(", /tmp");
            }
            if !*exclude_tmpdir_env_var {
                s.append(", $TMPDIR");
            }
            s.append("]");
            if *network_access {
                s.append(" (network access enabled)");
            }
            proof {
                assert(s@ =~= spec_summarize(*sandbox_policy));
            }
            s
        },
    }
}

} // verus!
