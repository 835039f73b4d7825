//! macOS Seatbelt profile compiler.
//!
//! Builds a textual profile from fixed composable fragments — base,
//! optional full-read, per-root write clauses, optional network — and a
//! parameter table. No filesystem path is ever interpolated into the
//! profile text itself: every path is referenced through a symbolic
//! parameter name (`WRITABLE_ROOT_0`, `WRITABLE_ROOT_0_RO_1`, ...) whose
//! concrete value travels out-of-band as a `-Dname=value` binding, so a
//! path containing profile-language metacharacters cannot corrupt or
//! escape the policy.

use vstd::prelude::*;

use crate::policy::SandboxPolicy;
use crate::resolver::WritableRoot;
use crate::resolver::WritableRootView;
use crate::resolver::resolve_writable_roots;

verus! {

/// Fixed absolute path of the enforcement binary. Only this exact path is
/// ever executed, never one found through a search path an attacker could
/// prepend to; if this binary has been tampered with, the attacker already
/// has more privilege than the sandbox withholds.
pub const MACOS_PATH_TO_SEATBELT_EXECUTABLE: &'static str = "/usr/bin/sandbox-exec";

/// Always-present base fragment: closed by default, plus the minimum
/// operations a process needs to start at all.
pub const SEATBELT_BASE_POLICY: &'static str = "(version 1)\n\n; Closed by default.\n(deny default)\n\n; Minimum operations for the target process to start and run.\n(allow process-exec)\n(allow process-fork)\n(allow signal (target same-sandbox))\n(allow sysctl-read)\n(allow mach-lookup)\n\n; Terminal and null devices.\n(allow file-write-data (require-all (path \"/dev/null\") (vnode-type CHARACTER-DEVICE)))\n(allow file-write-data (require-all (path \"/dev/tty\") (vnode-type CHARACTER-DEVICE)))";

/// Optional network fragment, appended only when the policy grants full
/// network access.
pub const SEATBELT_NETWORK_POLICY: &'static str = "; allow network access\n(allow network-outbound)\n(allow network-inbound)\n(allow system-socket)";

/// Optional full-read fragment.
pub const SEATBELT_READ_POLICY: &'static str = "; allow read-only file operations\n(allow file-read*)";

/// The unconditional full-write clause: deliberately simpler than the
/// general per-root case, so the fully-trusted branch has no clause
/// ordering to get wrong.
pub const SEATBELT_FULL_WRITE_POLICY: &'static str = "(allow file-write* (regex #\"^/\"))";

/// The decimal digits of `n`, most significant first.
pub open spec fn spec_decimal(n: nat) -> Seq<char>
    decreases n,
{
    if n < 10 {
        spec_decimal_digit(n)
    } else {
        spec_decimal((n / 10) as nat) + spec_decimal_digit((n % 10) as nat)
    }
}

/// One decimal digit as a one-character sequence.
pub open spec fn spec_decimal_digit(d: nat) -> Seq<char> {
    if d == 0 {
        "0"@
    } else if d == 1 {
        "1"@
    } else if d == 2 {
        "2"@
    } else if d == 3 {
        "3"@
    } else if d == 4 {
        "4"@
    } else if d == 5 {
        "5"@
    } else if d == 6 {
        "6"@
    } else if d == 7 {
        "7"@
    } else if d == 8 {
        "8"@
    } else {
        "9"@
    }
}

fn decimal_digit_str(d: usize) -> (r: &'static str)
    requires
        d < 10,
    ensures
        r@ == spec_decimal_digit(d as nat),
{
    match d {
        0 => "0",
        1 => "1",
        2 => "2",
        3 => "3",
        4 => "4",
        5 => "5",
        6 => "6",
        7 => "7",
        8 => "8",
        _ => "9",
    }
}

/// `n` written in decimal.
pub fn decimal_string(n: usize) -> (r: String)
    ensures
        r@ == spec_decimal(n as nat),
    decreases n,
{
    if n < 10 {
        String::from_str(decimal_digit_str(n))
    } else {
        let prefix = decimal_string(n / 10);
        prefix.concat(decimal_digit_str(n % 10))
    }
}

/// The symbolic parameter name standing for writable root `i`.
pub open spec fn spec_root_param(i: nat) -> Seq<char> {
    "WRITABLE_ROOT_"@ + spec_decimal(i)
}

/// The symbolic parameter name standing for read-only carve-out `j` of
/// writable root `i`.
pub open spec fn spec_ro_param(i: nat, j: nat) -> Seq<char> {
    spec_root_param(i) + "_RO_"@ + spec_decimal(j)
}

fn root_param(i: usize) -> (r: String)
    ensures
        r@ == spec_root_param(i as nat),
{
    let mut s = String::from_str("WRITABLE_ROOT_");
    let d = decimal_string(i);
    s.append(d.as_str());
    s
}

fn ro_param(i: usize, j: usize) -> (r: String)
    ensures
        r@ == spec_ro_param(i as nat, j as nat),
{
    let mut s = root_param(i);
    s.append("_RO_");
    let d = decimal_string(j);
    s.append(d.as_str());
    proof {
        assert(s@ =~= spec_ro_param(i as nat, j as nat));
    }
    s
}

/// A profile clause matching everything under the directory a parameter
/// names.
pub open spec fn spec_subpath_clause(param: Seq<char>) -> Seq<char> {
    "(subpath (param \""@ + param + "\"))"@
}

fn subpath_clause(param: &String) -> (r: String)
    ensures
        r@ == spec_subpath_clause(param@),
{
    let mut s = String::from_str("(subpath (param \"");
    s.append(param.as_str());
    s.append("\"))");
    proof {
        assert(s@ =~= spec_subpath_clause(param@));
    }
    s
}

/// A clause excluding everything under the directory a parameter names.
pub open spec fn spec_require_not(param: Seq<char>) -> Seq<char> {
    "(require-not "@ + spec_subpath_clause(param) + ")"@
}

fn require_not(param: &String) -> (r: String)
    ensures
        r@ == spec_require_not(param@),
{
    let mut s = String::from_str("(require-not ");
    let c = subpath_clause(param);
    s.append(c.as_str());
    s.append(")");
    proof {
        assert(s@ =~= spec_require_not(param@));
    }
    s
}

/// The space-prefixed carve-out exclusions of root `i`, for its first
/// `count` carve-outs.
pub open spec fn spec_require_nots(i: nat, count: nat) -> Seq<char>
    decreases count,
{
    if count == 0 {
        Seq::<char>::empty()
    } else {
        spec_require_nots(i, (count - 1) as nat) + " "@ + spec_require_not(
            spec_ro_param(i, (count - 1) as nat),
        )
    }
}

/// The write clause of root `i` with `n_subpaths` carve-outs: a bare
/// subpath clause when there is nothing to exclude, otherwise a compound
/// clause meaning "under the root and under none of the carve-outs".
pub open spec fn spec_root_clause(i: nat, n_subpaths: nat) -> Seq<char> {
    if n_subpaths == 0 {
        spec_subpath_clause(spec_root_param(i))
    } else {
        "(require-all "@ + spec_subpath_clause(spec_root_param(i)) + spec_require_nots(
            i,
            n_subpaths,
        ) + " )"@
    }
}

fn root_clause(i: usize, root: &WritableRoot) -> (r: String)
    ensures
        r@ == spec_root_clause(i as nat, root@.read_only_subpaths.len()),
{
    let param = root_param(i);
    let bare = subpath_clause(&param);
    let n = root.read_only_subpaths.len();
    if n == 0 {
        bare
    } else {
        let mut s = String::from_str("(require-all ");
        s.append(bare.as_str());
        let mut j: usize = 0;
        while j < n
            invariant
                j <= n,
                n == root@.read_only_subpaths.len(),
                s@ == "(require-all "@ + spec_subpath_clause(spec_root_param(i as nat))
                    + spec_require_nots(i as nat, j as nat),
            decreases n - j,
        {
            s.append(" ");
            let rn = require_not(&ro_param(i, j));
            s.append(rn.as_str());
            j += 1;
        }
        s.append(" )");
        proof {
            assert(s@ =~= spec_root_clause(i as nat, root@.read_only_subpaths.len()));
        }
        s
    }
}

/// The write clauses of the first `n` roots, joined by single spaces.
pub open spec fn spec_write_clauses(roots: Seq<WritableRootView>, n: nat) -> Seq<char>
    decreases n,
{
    if n == 0 {
        Seq::<char>::empty()
    } else if n == 1 {
        spec_root_clause(0, roots[0].read_only_subpaths.len())
    } else {
        spec_write_clauses(roots, (n - 1) as nat) + " "@ + spec_root_clause(
            (n - 1) as nat,
            roots[n - 1].read_only_subpaths.len(),
        )
    }
}

/// The file-write fragment: the deliberately short full-access clause
/// when the policy grants full disk write access; empty when there is no
/// writable root (absence of roots never upgrades to full access); the
/// joined per-root clauses otherwise.
pub open spec fn spec_write_fragment(policy: SandboxPolicy, roots: Seq<WritableRootView>) -> Seq<
    char,
> {
    if policy.spec_has_full_disk_write_access() {
        SEATBELT_FULL_WRITE_POLICY@
    } else if roots.len() == 0 {
        Seq::<char>::empty()
    } else {
        "(allow file-write*\n"@ + spec_write_clauses(roots, roots.len()) + "\n)"@
    }
}

/// The read fragment: present exactly when full disk read access is
/// granted.
pub open spec fn spec_read_fragment(policy: SandboxPolicy) -> Seq<char> {
    if policy.spec_has_full_disk_read_access() {
        SEATBELT_READ_POLICY@
    } else {
        Seq::<char>::empty()
    }
}

/// The network fragment: present exactly when full network access is
/// granted.
pub open spec fn spec_network_fragment(policy: SandboxPolicy) -> Seq<char> {
    if policy.spec_has_full_network_access() {
        SEATBELT_NETWORK_POLICY@
    } else {
        Seq::<char>::empty()
    }
}

/// The whole profile text: base, read, write and network fragments, in
/// this fixed order, separated by newlines.
pub open spec fn spec_profile(policy: SandboxPolicy, roots: Seq<WritableRootView>) -> Seq<char> {
    SEATBELT_BASE_POLICY@ + "\n"@ + spec_read_fragment(policy) + "\n"@ + spec_write_fragment(
        policy,
        roots,
    ) + "\n"@ + spec_network_fragment(policy)
}

/// The parameter bindings of root `i`: its own parameter first, then one
/// per carve-out, in order.
pub open spec fn spec_root_params(i: nat, root: WritableRootView) -> Seq<(Seq<char>, Seq<char>)> {
    seq![(spec_root_param(i), root.root)] + Seq::new(
        root.read_only_subpaths.len(),
        |j: int| (spec_ro_param(i, j as nat), root.read_only_subpaths[j]),
    )
}

/// The parameter bindings of the first `n` roots, grouped by root.
pub open spec fn spec_roots_params(roots: Seq<WritableRootView>, n: nat) -> Seq<
    (Seq<char>, Seq<char>),
>
    decreases n,
{
    if n == 0 {
        Seq::<(Seq<char>, Seq<char>)>::empty()
    } else {
        spec_roots_params(roots, (n - 1) as nat) + spec_root_params(
            (n - 1) as nat,
            roots[n - 1],
        )
    }
}

/// The path bindings the profile's write clauses refer to: none at all on
/// the full-write branch (its clause names no parameter), one binding per
/// root and per carve-out otherwise.
pub open spec fn spec_write_params(policy: SandboxPolicy, roots: Seq<WritableRootView>) -> Seq<
    (Seq<char>, Seq<char>),
> {
    if policy.spec_has_full_disk_write_access() {
        Seq::<(Seq<char>, Seq<char>)>::empty()
    } else {
        spec_roots_params(roots, roots.len())
    }
}

/// One `-Dname=value` argument.
pub open spec fn spec_param_arg(name: Seq<char>, value: Seq<char>) -> Seq<char> {
    "-D"@ + name + "="@ + value
}

fn param_arg(name: &String, value: &String) -> (r: String)
    ensures
        r@ == spec_param_arg(name@, value@),
{
    let mut s = String::from_str("-D");
    s.append(name.as_str());
    s.append("=");
    s.append(value.as_str());
    proof {
        assert(s@ =~= spec_param_arg(name@, value@));
    }
    s
}

/// The full `sandbox-exec` argument vector: the profile under `-p`, one
/// `-D` binding per parameter (write-clause bindings first, then the
/// caller's platform bindings), a `--` separator, then the command.
pub open spec fn spec_seatbelt_args(
    policy: SandboxPolicy,
    roots: Seq<WritableRootView>,
    platform_params: Seq<(Seq<char>, Seq<char>)>,
    command: Seq<Seq<char>>,
) -> Seq<Seq<char>> {
    let params = spec_write_params(policy, roots) + platform_params;
    seq!["-p"@, spec_profile(policy, roots)] + Seq::new(
        params.len(),
        |i: int| spec_param_arg(params[i].0, params[i].1),
    ) + seq!["--"@] + command
}

/// The write clauses of two root sequences of the same shape are the
/// same text, for any prefix length.
proof fn lemma_write_clauses_shape(
    roots1: Seq<WritableRootView>,
    roots2: Seq<WritableRootView>,
    n: nat,
)
    requires
        n <= roots1.len(),
        n <= roots2.len(),
        forall|k: int|
            0 <= k < n ==> (#[trigger] roots1[k]).read_only_subpaths.len() == (
            #[trigger] roots2[k]).read_only_subpaths.len(),
    ensures
        spec_write_clauses(roots1, n) == spec_write_clauses(roots2, n),
    decreases n,
{
    if n > 1 {
        lemma_write_clauses_shape(roots1, roots2, (n - 1) as nat);
    }
}

/// No filesystem path ever reaches the profile text: the profile is a
/// function of the policy and of the shape of the roots alone — how many
/// there are and how many carve-outs each has — never of the path strings,
/// which travel only in the out-of-band parameter table. A path full of
/// profile-language metacharacters therefore cannot corrupt or escape the
/// policy.
pub proof fn lemma_profile_free_of_paths(
    policy: SandboxPolicy,
    roots1: Seq<WritableRootView>,
    roots2: Seq<WritableRootView>,
)
    requires
        roots1.len() == roots2.len(),
        forall|k: int|
            0 <= k < roots1.len() ==> (#[trigger] roots1[k]).read_only_subpaths.len() == (
            #[trigger] roots2[k]).read_only_subpaths.len(),
    ensures
        spec_profile(policy, roots1) == spec_profile(policy, roots2),
{
    lemma_write_clauses_shape(roots1, roots2, roots1.len());
}

/// Determinism: compiling the same policy over the same resolved roots
/// twice yields structurally identical artifacts — the compiler is a
/// mathematical function of its inputs.
pub proof fn lemma_compile_deterministic(
    a: SeatbeltArtifact,
    b: SeatbeltArtifact,
    policy: SandboxPolicy,
    roots: Seq<WritableRootView>,
)
    requires
        a.spec_value() == (spec_profile(policy, roots), spec_write_params(policy, roots)),
        b.spec_value() == (spec_profile(policy, roots), spec_write_params(policy, roots)),
    ensures
        a.profile@ == b.profile@,
        a.params.deep_view() == b.params.deep_view(),
{
}

/// Under `ReadOnly` nothing is ever writable and the network stays
/// closed: with the empty root sequence the resolver hands it, the
/// profile holds the base fragment and the full-read fragment, an empty
/// write fragment and an empty network fragment, and binds no path
/// parameter at all. Any write attempt falls to the base policy's
/// default deny, while reads are fully granted.
pub proof fn lemma_read_only_grants_no_write()
    ensures
        spec_write_fragment(SandboxPolicy::ReadOnly, Seq::<WritableRootView>::empty())
            == Seq::<char>::empty(),
        spec_network_fragment(SandboxPolicy::ReadOnly) == Seq::<char>::empty(),
        spec_read_fragment(SandboxPolicy::ReadOnly) == SEATBELT_READ_POLICY@,
        spec_write_params(SandboxPolicy::ReadOnly, Seq::<WritableRootView>::empty())
            == Seq::<(Seq<char>, Seq<char>)>::empty(),
        spec_profile(SandboxPolicy::ReadOnly, Seq::<WritableRootView>::empty())
            == SEATBELT_BASE_POLICY@ + "\n"@ + SEATBELT_READ_POLICY@ + "\n"@ + "\n"@,
{
}

/// Under `DangerFullAccess` the write fragment is the deliberately short
/// unconditional full-write clause — whatever roots are supplied — and no
/// path parameter is bound: a write anywhere is left to the invoking
/// user's own privileges.
pub proof fn lemma_full_access_writes_everywhere(roots: Seq<WritableRootView>)
    ensures
        spec_write_fragment(SandboxPolicy::DangerFullAccess, roots)
            == SEATBELT_FULL_WRITE_POLICY@,
        spec_write_params(SandboxPolicy::DangerFullAccess, roots)
            == Seq::<(Seq<char>, Seq<char>)>::empty(),
        spec_network_fragment(SandboxPolicy::DangerFullAccess) == SEATBELT_NETWORK_POLICY@,
{
}

/// Absence of writable roots never upgrades to full access: for any
/// policy short of full write access, compiling with no roots emits no
/// write clause at all.
pub proof fn lemma_no_roots_no_write(policy: SandboxPolicy)
    requires
        !policy.spec_has_full_disk_write_access(),
    ensures
        spec_write_fragment(policy, Seq::<WritableRootView>::empty()) == Seq::<char>::empty(),
        spec_write_params(policy, Seq::<WritableRootView>::empty()) == Seq::<
            (Seq<char>, Seq<char>),
        >::empty(),
{
}

/// Compiled artifact of this backend: the profile text plus the
/// name-to-path bindings that accompany it out-of-band.
pub struct SeatbeltArtifact {
    pub profile: String,
    pub params: Vec<(String, String)>,
}

impl SeatbeltArtifact {
    /// The artifact's mathematical value.
    pub open spec fn spec_value(self) -> (Seq<char>, Seq<(Seq<char>, Seq<char>)>) {
        (self.profile@, self.params.deep_view())
    }
}

/// Builds the profile text for a policy over already-resolved writable
/// roots. Exactly [`spec_profile`].
pub fn build_profile(policy: &SandboxPolicy, roots: &Vec<WritableRoot>) -> (r: String)
    ensures
        r@ == spec_profile(*policy, roots.deep_view()),
{
    let mut s = String::from_str(SEATBELT_BASE_POLICY);
    s.append("\n");
    if policy.has_full_disk_read_access() {
        s.append(SEATBELT_READ_POLICY);
    }
    s.append("\n");
    if policy.has_full_disk_write_access() {
        s.append(SEATBELT_FULL_WRITE_POLICY);
    } else if roots.len() > 0 {
        s.append("(allow file-write*\n");
        let mut i: usize = 0;
        while i < roots.len()
            invariant
                i <= roots@.len(),
                roots@.len() > 0,
                !policy.spec_has_full_disk_write_access(),
                s@ == SEATBELT_BASE_POLICY@ + "\n"@ + spec_read_fragment(*policy) + "\n"@
                    + "(allow file-write*\n"@ + spec_write_clauses(roots.deep_view(), i as nat),
            decreases roots@.len() - i,
        {
            if i > 0 {
                s.append(" ");
            }
            let clause = root_clause(i, &roots[i]);
            s.append(clause.as_str());
            proof {
                assert(roots.deep_view()[i as int] == roots@[i as int]@);
            }
            i += 1;
        }
        s.append("\n)");
    }
    s.append("\n");
    if policy.has_full_network_access() {
        s.append(SEATBELT_NETWORK_POLICY);
    }
    proof {
        assert(s@ =~= spec_profile(*policy, roots.deep_view()));
    }
    s
}

/// Builds the parameter bindings for a policy over already-resolved
/// writable roots. Exactly [`spec_write_params`].
pub fn build_write_params(policy: &SandboxPolicy, roots: &Vec<WritableRoot>) -> (r: Vec<
    (String, String),
>)
    ensures
        r.deep_view() == spec_write_params(*policy, roots.deep_view()),
{
    let mut params: Vec<(String, String)> = Vec::new();
    if !policy.has_full_disk_write_access() {
        let mut i: usize = 0;
        while i < roots.len()
            invariant
                i <= roots@.len(),
                params.deep_view() == spec_roots_params(roots.deep_view(), i as nat),
            decreases roots@.len() - i,
        {
            let wr = &roots[i];
            params.push((root_param(i), wr.root.clone()));
            let mut j: usize = 0;
            while j < wr.read_only_subpaths.len()
                invariant
                    i < roots@.len(),
                    j <= wr@.read_only_subpaths.len(),
                    wr == roots@[i as int],
                    params.deep_view() == spec_roots_params(roots.deep_view(), i as nat) + seq![
                        (spec_root_param(i as nat), wr@.root),
                    ] + Seq::new(
                        j as nat,
                        |k: int| (spec_ro_param(i as nat, k as nat), wr@.read_only_subpaths[k]),
                    ),
                decreases wr@.read_only_subpaths.len() - j,
            {
                let name = ro_param(i, j);
                let value = wr.read_only_subpaths[j].clone();
                let ghost pre = params.deep_view();
                proof {
                    assert(value@ == wr@.read_only_subpaths[j as int]);
                }
                params.push((name, value));
                proof {
                    assert(params.deep_view() =~~= pre.push(
                        (spec_ro_param(i as nat, j as nat), wr@.read_only_subpaths[j as int]),
                    ));
                    assert(params.deep_view() =~~= spec_roots_params(roots.deep_view(), i as nat)
                        + seq![(spec_root_param(i as nat), wr@.root)] + Seq::new(
                        (j + 1) as nat,
                        |k: int| (spec_ro_param(i as nat, k as nat), wr@.read_only_subpaths[k]),
                    ));
                }
                j += 1;
            }
            proof {
                assert(roots.deep_view()[i as int] == roots@[i as int]@);
                assert(spec_root_params(i as nat, roots.deep_view()[i as int]) == seq![
                    (spec_root_param(i as nat), wr@.root),
                ] + Seq::new(
                    wr@.read_only_subpaths.len(),
                    |k: int| (spec_ro_param(i as nat, k as nat), wr@.read_only_subpaths[k]),
                ));
                assert(params.deep_view() =~~= spec_roots_params(
                    roots.deep_view(),
                    (i + 1) as nat,
                ));
            }
            i += 1;
        }
        proof {
            assert(params.deep_view() == spec_roots_params(roots.deep_view(), roots@.len()));
        }
    }
    proof {
        assert(params.deep_view() =~~= spec_write_params(*policy, roots.deep_view()));
    }
    params
}

/// Compiles a policy over already-resolved writable roots into the
/// backend artifact. Exactly [`spec_profile`] and [`spec_write_params`]:
/// identical inputs always yield structurally identical artifacts.
pub fn compile_seatbelt_for_roots(policy: &SandboxPolicy, roots: &Vec<WritableRoot>) -> (r:
    SeatbeltArtifact)
    ensures
        r.spec_value() == (
            spec_profile(*policy, roots.deep_view()),
            spec_write_params(*policy, roots.deep_view()),
        ),
{
    SeatbeltArtifact { profile: build_profile(policy, roots), params: build_write_params(policy, roots) }
}

/// Turns an artifact, extra platform bindings and the target command into
/// the full `sandbox-exec` argument vector. Exactly [`spec_seatbelt_args`]
/// at the artifact's value.
pub fn seatbelt_args_for_artifact(
    artifact: &SeatbeltArtifact,
    platform_params: &Vec<(String, String)>,
    command: &Vec<String>,
) -> (args: Vec<String>)
    ensures
        args.deep_view() == seq![seq!['-', 'p'], artifact.profile@] + Seq::new(
            artifact.params.deep_view().len() + platform_params.deep_view().len(),
            |i: int|
                spec_param_arg(
                    (artifact.params.deep_view() + platform_params.deep_view())[i].0,
                    (artifact.params.deep_view() + platform_params.deep_view())[i].1,
                ),
        ) + seq![seq!['-', '-']] + command.deep_view(),
{
    let ghost all_params = artifact.params.deep_view() + platform_params.deep_view();
    let mut args: Vec<String> = Vec::new();
    args.push(String::from_str("-p"));
    args.push(artifact.profile.clone());
    let mut i: usize = 0;
    while i < artifact.params.len()
        invariant
            i <= artifact.params@.len(),
            all_params == artifact.params.deep_view() + platform_params.deep_view(),
            args.deep_view() == seq!["-p"@, artifact.profile@] + Seq::new(
                i as nat,
                |k: int| spec_param_arg(all_params[k].0, all_params[k].1),
            ),
        decreases artifact.params@.len() - i,
    {
        let p = &artifact.params[i];
        let a = param_arg(&p.0, &p.1);
        let ghost pre = args.deep_view();
        proof {
            assert(all_params[i as int] == artifact.params@[i as int].deep_view());
            assert(a@ == spec_param_arg(all_params[i as int].0, all_params[i as int].1));
        }
        args.push(a);
        proof {
            assert(args.deep_view() =~~= pre.push(
                spec_param_arg(all_params[i as int].0, all_params[i as int].1),
            ));
            assert(args.deep_view() =~~= seq!["-p"@, artifact.profile@] + Seq::new(
                (i + 1) as nat,
                |k: int| spec_param_arg(all_params[k].0, all_params[k].1),
            ));
        }
        i += 1;
    }
    let mut j: usize = 0;
    while j < platform_params.len()
        invariant
            j <= platform_params@.len(),
            all_params == artifact.params.deep_view() + platform_params.deep_view(),
            args.deep_view() == seq!["-p"@, artifact.profile@] + Seq::new(
                (artifact.params@.len() + j) as nat,
                |k: int| spec_param_arg(all_params[k].0, all_params[k].1),
            ),
        decreases platform_params@.len() - j,
    {
        let p = &platform_params[j];
        let a = param_arg(&p.0, &p.1);
        let ghost m = artifact.params@.len() + j;
        let ghost pre = args.deep_view();
        proof {
            assert(all_params[m as int] == platform_params@[j as int].deep_view());
            assert(a@ == spec_param_arg(all_params[m as int].0, all_params[m as int].1));
        }
        args.push(a);
        proof {
            assert(args.deep_view() =~~= pre.push(
                spec_param_arg(all_params[m as int].0, all_params[m as int].1),
            ));
            assert(args.deep_view() =~~= seq!["-p"@, artifact.profile@] + Seq::new(
                (artifact.params@.len() + j + 1) as nat,
                |k: int| spec_param_arg(all_params[k].0, all_params[k].1),
            ));
        }
        j += 1;
    }
    args.push(String::from_str("--"));
    let mut c: usize = 0;
    while c < command.len()
        invariant
            c <= command@.len(),
            all_params == artifact.params.deep_view() + platform_params.deep_view(),
            args.deep_view() == seq!["-p"@, artifact.profile@] + Seq::new(
                all_params.len(),
                |k: int| spec_param_arg(all_params[k].0, all_params[k].1),
            ) + seq!["--"@] + command.deep_view().subrange(0, c as int),
        decreases command@.len() - c,
    {
        let a = command[c].clone();
        let ghost pre = args.deep_view();
        proof {
            assert(a@ == command.deep_view()[c as int]);
        }
        args.push(a);
        proof {
            assert(args.deep_view() =~~= pre.push(command.deep_view()[c as int]));
            assert(args.deep_view() =~~= seq!["-p"@, artifact.profile@] + Seq::new(
                all_params.len(),
                |k: int| spec_param_arg(all_params[k].0, all_params[k].1),
            ) + seq!["--"@] + command.deep_view().subrange(0, (c + 1) as int));
        }
        c += 1;
    }
    proof {
        reveal_strlit("-p");
        reveal_strlit("--");
        assert(command.deep_view().subrange(0, command@.len() as int) =~= command.deep_view());
        assert(args.deep_view() =~~= seq![seq!['-', 'p'], artifact.profile@] + Seq::new(
            all_params.len(),
            |i: int| spec_param_arg(all_params[i].0, all_params[i].1),
        ) + seq![seq!['-', '-']] + command.deep_view());
    }
    args
}

/// The `sandbox-exec` argument vector for a command under a policy:
/// resolves the writable roots for the working directory (`tmpdir_env` is
/// the `TMPDIR`-style value as the caller read it, `platform_params` the
/// caller's extra platform bindings), compiles them, and assembles the
/// argument vector. The roots come from the live filesystem, so the
/// ensures names them existentially: for some root sequence of the
/// resolver's shape, the result is exactly [`spec_seatbelt_args`].
pub fn create_seatbelt_command_args(
    command: Vec<String>,
    policy: &SandboxPolicy,
    sandbox_policy_cwd: &String,
    tmpdir_env: &Option<String>,
    platform_params: &Vec<(String, String)>,
) -> (args: Vec<String>)
    ensures
        exists|roots: Seq<WritableRootView>|
            {
                &&& args.deep_view() == #[trigger] spec_seatbelt_args(
                    *policy,
                    roots,
                    platform_params.deep_view(),
                    command.deep_view(),
                )
                &&& (*policy is CurrentDirWrite ==> roots.len() >= 1)
                &&& (!(*policy is CurrentDirWrite) ==> roots.len() == 0)
                &&& forall|k: int| 0 <= k < roots.len() ==> (#[trigger] roots[k]).wf()
                &&& forall|j: int, k: int|
                    0 <= j < k < roots.len() ==> (#[trigger] roots[j]).root != (
                    #[trigger] roots[k]).root
            },
{
    let roots = resolve_writable_roots(policy, sandbox_policy_cwd, tmpdir_env);
    let artifact = compile_seatbelt_for_roots(policy, &roots);
    let args = seatbelt_args_for_artifact(&artifact, platform_params, &command);
    proof {
        reveal_strlit("-p");
        reveal_strlit("--");
        assert(seq!['-', 'p'] =~= "-p"@);
        assert(seq!['-', '-'] =~= "--"@);
        let rs = roots.deep_view();
        assert(args.deep_view() =~~= spec_seatbelt_args(
            *policy,
            rs,
            platform_params.deep_view(),
            command.deep_view(),
        ));
    }
    args
}

} // verus!
