//! Sandboxed process launch preparation.
//!
//! Assembles everything a spawn needs — program, arguments, working
//! directory, environment and stdio strategy — as plain values. The
//! launcher adds exactly one reserved marker variable naming the active
//! backend (so a nested run can detect the sandbox it is inside) without
//! disturbing any other key the caller set; if the caller set the marker
//! itself, the launcher's value wins, since it reflects the enforcement
//! actually applied. Performing the spawn and awaiting the exit is the
//! calling layer's work; compiled enforcement must be fully established
//! before the target's first instruction, so the program launched here is
//! always the enforcement binary or helper, never the target directly.

use vstd::prelude::*;

use crate::landlock::LinuxRuleset;
use crate::landlock::PolicyCompilationError;
use crate::landlock::compile_linux_ruleset;
use crate::policy::SandboxPolicy;
use crate::resolver::WritableRootView;
use crate::seatbelt::MACOS_PATH_TO_SEATBELT_EXECUTABLE;
use crate::seatbelt::create_seatbelt_command_args;
use crate::seatbelt::spec_seatbelt_args;

verus! {

/// The reserved environment variable marking which sandbox backend a
/// child process runs under.
pub const SANDBOX_ENV_VAR: &'static str = "AISH_SANDBOX";

/// How the three standard streams of the child are set up: inherited
/// from the parent, or redirected to pipes, uniformly across all three.
#[derive(Clone, Copy, Debug, PartialEq, Eq, Structural)]
pub enum StdioPolicy {
    Inherit,
    Pipe,
}

/// The enforcement backend actually applied to a spawned child.
#[derive(Clone, Copy, Debug, PartialEq, Eq, Structural)]
pub enum SandboxBackend {
    Seatbelt,
    LinuxSandbox,
}

/// The marker value naming a backend.
pub open spec fn spec_backend_marker(backend: SandboxBackend) -> Seq<char> {
    match backend {
        SandboxBackend::Seatbelt => "seatbelt"@,
        SandboxBackend::LinuxSandbox => "linux"@,
    }
}

fn backend_marker(backend: SandboxBackend) -> (r: &'static str)
    ensures
        r@ == spec_backend_marker(backend),
{
    match backend {
        SandboxBackend::Seatbelt => "seatbelt",
        SandboxBackend::LinuxSandbox => "linux",
    }
}

/// `env` with every entry for `key` removed, order otherwise kept.
pub open spec fn spec_without_key(
    env: Seq<(Seq<char>, Seq<char>)>,
    key: Seq<char>,
) -> Seq<(Seq<char>, Seq<char>)>
    decreases env.len(),
{
    if env.len() == 0 {
        Seq::<(Seq<char>, Seq<char>)>::empty()
    } else if env.last().0 == key {
        spec_without_key(env.drop_last(), key)
    } else {
        spec_without_key(env.drop_last(), key).push(env.last())
    }
}

/// How many entries of `env` carry `key`.
pub open spec fn spec_count_key(env: Seq<(Seq<char>, Seq<char>)>, key: Seq<char>) -> nat
    decreases env.len(),
{
    if env.len() == 0 {
        0
    } else if env.last().0 == key {
        spec_count_key(env.drop_last(), key) + 1
    } else {
        spec_count_key(env.drop_last(), key)
    }
}

/// The caller's environment with the reserved marker set to `marker`:
/// every non-marker entry kept in order, the marker appended once.
pub open spec fn spec_env_with_marker(
    env: Seq<(Seq<char>, Seq<char>)>,
    marker: Seq<char>,
) -> Seq<(Seq<char>, Seq<char>)> {
    spec_without_key(env, SANDBOX_ENV_VAR@).push((SANDBOX_ENV_VAR@, marker))
}

/// An environment that never mentioned the marker key passes through
/// untouched: the launcher removes or overwrites no other key.
pub proof fn lemma_other_keys_untouched(env: Seq<(Seq<char>, Seq<char>)>, key: Seq<char>)
    requires
        forall|i: int| 0 <= i < env.len() ==> (#[trigger] env[i]).0 != key,
    ensures
        spec_without_key(env, key) == env,
    decreases env.len(),
{
    if env.len() > 0 {
        lemma_other_keys_untouched(env.drop_last(), key);
        assert(spec_without_key(env, key) =~= env);
    }
}

/// Stripping a key leaves no entry for it behind.
pub proof fn lemma_without_key_removes_key(env: Seq<(Seq<char>, Seq<char>)>, key: Seq<char>)
    ensures
        spec_count_key(spec_without_key(env, key), key) == 0,
    decreases env.len(),
{
    if env.len() > 0 {
        lemma_without_key_removes_key(env.drop_last(), key);
        if env.last().0 != key {
            let stripped = spec_without_key(env.drop_last(), key);
            assert(stripped.push(env.last()).drop_last() =~= stripped);
        }
    }
}

/// The prepared environment carries exactly one marker entry: the one
/// the launcher appended, whatever the caller had set.
pub proof fn lemma_exactly_one_marker(env: Seq<(Seq<char>, Seq<char>)>, marker: Seq<char>)
    ensures
        spec_count_key(spec_env_with_marker(env, marker), SANDBOX_ENV_VAR@) == 1,
        spec_env_with_marker(env, marker).last() == (SANDBOX_ENV_VAR@, marker),
{
    lemma_without_key_removes_key(env, SANDBOX_ENV_VAR@);
    let stripped = spec_without_key(env, SANDBOX_ENV_VAR@);
    assert(stripped.push((SANDBOX_ENV_VAR@, marker)).drop_last() =~= stripped);
}

/// Exactly [`spec_env_with_marker`], executable form.
pub fn env_with_sandbox_marker(env: &Vec<(String, String)>, backend: SandboxBackend) -> (r: Vec<
    (String, String),
>)
    ensures
        r.deep_view() == spec_env_with_marker(env.deep_view(), spec_backend_marker(backend)),
{
    let marker_key = String::from_str(SANDBOX_ENV_VAR);
    let mut r: Vec<(String, String)> = Vec::new();
    let mut i: usize = 0;
    while i < env.len()
        invariant
            i <= env@.len(),
            marker_key@ == SANDBOX_ENV_VAR@,
            r.deep_view() == spec_without_key(
                env.deep_view().subrange(0, i as int),
                SANDBOX_ENV_VAR@,
            ),
        decreases env@.len() - i,
    {
        let ghost prefix = env.deep_view().subrange(0, i as int);
        let ghost next = env.deep_view().subrange(0, i + 1 as int);
        proof {
            assert(next.drop_last() =~= prefix);
            assert(next.last() == env.deep_view()[i as int]);
            assert(env.deep_view()[i as int] == env@[i as int].deep_view());
        }
        let entry = &env[i];
        if !entry.0.eq(&marker_key) {
            let kept = (entry.0.clone(), entry.1.clone());
            let ghost pre = r.deep_view();
            proof {
                assert(kept.deep_view() == env.deep_view()[i as int]);
            }
            r.push(kept);
            proof {
                assert(r.deep_view() =~~= pre.push(env.deep_view()[i as int]));
            }
        }
        i += 1;
    }
    proof {
        assert(env.deep_view().subrange(0, env@.len() as int) =~= env.deep_view());
    }
    let marker_value = String::from_str(backend_marker(backend));
    let ghost pre = r.deep_view();
    r.push((marker_key, marker_value));
    proof {
        assert(r.deep_view() =~~= pre.push((SANDBOX_ENV_VAR@, spec_backend_marker(backend))));
    }
    r
}

/// Everything one spawn needs, as plain values: the program (always the
/// enforcement binary or helper), its arguments, the child's working
/// directory, the prepared environment, and the stdio strategy.
pub struct SpawnRequest {
    pub program: String,
    pub args: Vec<String>,
    pub cwd: String,
    pub env: Vec<(String, String)>,
    pub stdio: StdioPolicy,
}

/// Prepares the spawn of `command` under the Seatbelt backend: the
/// program is the fixed enforcement binary path, the arguments are the
/// compiled profile arguments for `policy` resolved against
/// `sandbox_policy_cwd`, the child runs in `command_cwd`, and the
/// environment is the caller's with the marker naming this backend.
pub fn prepare_seatbelt_spawn(
    command: Vec<String>,
    command_cwd: String,
    policy: &SandboxPolicy,
    sandbox_policy_cwd: &String,
    tmpdir_env: &Option<String>,
    platform_params: &Vec<(String, String)>,
    stdio_policy: StdioPolicy,
    env: &Vec<(String, String)>,
) -> (r: SpawnRequest)
    ensures
        r.program@ == MACOS_PATH_TO_SEATBELT_EXECUTABLE@,
        r.cwd@ == command_cwd@,
        r.stdio == stdio_policy,
        r.env.deep_view() == spec_env_with_marker(
            env.deep_view(),
            spec_backend_marker(SandboxBackend::Seatbelt),
        ),
        exists|roots: Seq<WritableRootView>|
            {
                &&& r.args.deep_view() == #[trigger] spec_seatbelt_args(
                    *policy,
                    roots,
                    platform_params.deep_view(),
                    command.deep_view(),
                )
                &&& (*policy is CurrentDirWrite ==> roots.len() >= 1)
                &&& (!(*policy is CurrentDirWrite) ==> roots.len() == 0)
                &&& forall|k: int| 0 <= k < roots.len() ==> (#[trigger] roots[k]).wf()
                &&& forall|j: int, k: int|
                    0 <= j < k < roots.len() ==> (#[trigger] roots[j]).root != (
                    #[trigger] roots[k]).root
            },
{
    let args = create_seatbelt_command_args(
        command,
        policy,
        sandbox_policy_cwd,
        tmpdir_env,
        platform_params,
    );
    SpawnRequest {
        program: String::from_str(MACOS_PATH_TO_SEATBELT_EXECUTABLE),
        args,
        cwd: command_cwd,
        env: env_with_sandbox_marker(env, SandboxBackend::Seatbelt),
        stdio: stdio_policy,
    }
}

/// Prepares the spawn of `command` under the Linux kernel-ruleset
/// backend: the policy is compiled into a ruleset (failing, never
/// degrading, when the companion helper is absent), the program is the
/// helper that establishes the ruleset before the target's image loads,
/// the arguments are the target command for the helper to exec, and the
/// environment carries the marker naming this backend. The ruleset is
/// returned beside the request for the caller to hand to the helper.
pub fn prepare_linux_spawn(
    command: Vec<String>,
    command_cwd: String,
    policy: &SandboxPolicy,
    sandbox_policy_cwd: &String,
    tmpdir_env: &Option<String>,
    helper: &Option<String>,
    stdio_policy: StdioPolicy,
    env: &Vec<(String, String)>,
) -> (r: Result<(SpawnRequest, LinuxRuleset), PolicyCompilationError>)
    ensures
        r is Err <==> *helper is None,
        r is Err ==> r == Result::<(SpawnRequest, LinuxRuleset), PolicyCompilationError>::Err(
            PolicyCompilationError::MissingLinuxSandboxHelper,
        ),
        r matches Ok(p) ==> {
            &&& Some(p.0.program@) == helper.deep_view()
            &&& p.0.program@ == p.1.helper@
            &&& p.0.args.deep_view() == command.deep_view()
            &&& p.0.cwd@ == command_cwd@
            &&& p.0.stdio == stdio_policy
            &&& p.0.env.deep_view() == spec_env_with_marker(
                env.deep_view(),
                spec_backend_marker(SandboxBackend::LinuxSandbox),
            )
            &&& p.1.full_write == policy.spec_has_full_disk_write_access()
            &&& p.1.deny_network_syscalls == !policy.spec_has_full_network_access()
            &&& (*policy is CurrentDirWrite ==> p.1.writable_roots@.len() >= 1)
            &&& (!(*policy is CurrentDirWrite) ==> p.1.writable_roots@.len() == 0)
            &&& forall|k: int|
                0 <= k < p.1.writable_roots@.len() ==> (
                #[trigger] p.1.writable_roots.deep_view()[k]).wf()
            &&& forall|j: int, k: int|
                0 <= j < k < p.1.writable_roots@.len() ==> (
                #[trigger] p.1.writable_roots.deep_view()[j]).root != (
                #[trigger] p.1.writable_roots.deep_view()[k]).root
        },
{
    let ruleset = match compile_linux_ruleset(policy, sandbox_policy_cwd, tmpdir_env, helper) {
        Ok(rs) => rs,
        Err(e) => {
            return Err(e);
        },
    };
    let request = SpawnRequest {
        program: ruleset.helper.clone(),
        args: command,
        cwd: command_cwd,
        env: env_with_sandbox_marker(env, SandboxBackend::LinuxSandbox),
        stdio: stdio_policy,
    };
    Ok((request, ruleset))
}

} // verus!
