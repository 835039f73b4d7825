//! Linux kernel-ruleset compiler.
//!
//! Produces, from the same resolved writable roots as the other backend,
//! a structural ruleset: per-directory read/write/execute grants with the
//! same root-minus-carve-out semantics, plus a flag demanding that
//! socket-creation and connection syscalls be denied when the policy
//! grants no network access. Establishing the ruleset in the kernel must
//! happen before the target's program image loads, which requires a
//! companion helper executable installed ahead of time; compilation fails
//! with a configuration error when the helper is absent, never by
//! degrading silently to no enforcement.

use vstd::prelude::*;

use crate::policy::SandboxPolicy;
use crate::resolver::WritableRoot;
use crate::resolver::WritableRootView;
use crate::resolver::resolve_writable_roots;

verus! {

/// Why a policy could not be compiled into kernel enforcement.
#[derive(Clone, Copy, Debug, PartialEq, Eq, Structural)]
pub enum PolicyCompilationError {
    /// The companion helper that applies the kernel ruleset before the
    /// target starts is not installed; running unsandboxed instead is
    /// never an acceptable fallback.
    MissingLinuxSandboxHelper,
}

impl PolicyCompilationError {
    /// A human-readable description of the error.
    pub fn message(&self) -> (r: &'static str)
        ensures
            r@ == "the helper that applies the kernel sandbox is not installed"@,
    {
        "the helper that applies the kernel sandbox is not installed"
    }
}

/// Compiled artifact of this backend: a structural description of the
/// filesystem grants and the syscall filter, consumed by the helper that
/// establishes them in the kernel.
pub struct LinuxRuleset {
    /// Path of the helper executable that applies the ruleset.
    pub helper: String,
    /// Full disk read access is always granted.
    pub full_read: bool,
    /// Unrestricted writes; when set, `writable_roots` is empty.
    pub full_write: bool,
    /// Write (and execute) grants, each minus its read-only carve-outs.
    pub writable_roots: Vec<WritableRoot>,
    /// Deny socket-creation and connection syscalls.
    pub deny_network_syscalls: bool,
}

/// Compiles `policy` for the working directory `cwd` into a kernel
/// ruleset, with `tmpdir_env` the `TMPDIR`-style value as the caller read
/// it and `helper` the path of the companion helper executable, if
/// installed.
///
/// Fails exactly when the helper is absent. On success the artifact
/// grants full read access, grants full write access exactly when the
/// policy does, demands the network syscall filter exactly when the
/// policy withholds network access, and carries the resolved writable
/// roots: none unless the policy is `CurrentDirWrite`, at least the
/// working directory's root when it is, each with its carve-outs beneath
/// its own root and no two naming the same directory.
pub fn compile_linux_ruleset(
    policy: &SandboxPolicy,
    cwd: &String,
    tmpdir_env: &Option<String>,
    helper: &Option<String>,
) -> (r: Result<LinuxRuleset, PolicyCompilationError>)
    ensures
        r is Err <==> *helper is None,
        r is Err ==> r == Result::<LinuxRuleset, PolicyCompilationError>::Err(
            PolicyCompilationError::MissingLinuxSandboxHelper,
        ),
        r matches Ok(rs) ==> {
            &&& Some(rs.helper@) == helper.deep_view()
            &&& rs.full_read == true
            &&& rs.full_write == policy.spec_has_full_disk_write_access()
            &&& rs.deny_network_syscalls == !policy.spec_has_full_network_access()
            &&& (rs.full_write ==> rs.writable_roots@.len() == 0)
            &&& (!(*policy is CurrentDirWrite) ==> rs.writable_roots@.len() == 0)
            &&& (*policy is CurrentDirWrite ==> rs.writable_roots@.len() >= 1)
            &&& forall|k: int|
                0 <= k < rs.writable_roots@.len() ==> (
                #[trigger] rs.writable_roots.deep_view()[k]).wf()
            &&& forall|j: int, k: int|
                0 <= j < k < rs.writable_roots@.len() ==> (
                #[trigger] rs.writable_roots.deep_view()[j]).root != (
                #[trigger] rs.writable_roots.deep_view()[k]).root
        },
{
    let helper_path = match helper {
        Some(h) => h.clone(),
        None => {
            return Err(PolicyCompilationError::MissingLinuxSandboxHelper);
        },
    };
    let full_write = policy.has_full_disk_write_access();
    let writable_roots = if full_write {
        Vec::new()
    } else {
        resolve_writable_roots(policy, cwd, tmpdir_env)
    };
    Ok(
        LinuxRuleset {
            helper: helper_path,
            full_read: policy.has_full_disk_read_access(),
            full_write,
            writable_roots,
            deny_network_syscalls: !policy.has_full_network_access(),
        },
    )
}

} // verus!
