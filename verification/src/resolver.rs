//! Writable-root resolution for the `CurrentDirWrite` policy.
//!
//! A candidate list is built from the working directory, the system
//! temporary directory and the caller-supplied `TMPDIR` value; each
//! candidate is canonicalized against the live filesystem, duplicates are
//! dropped (the canonical path, not its spelling, is a root's identity),
//! and two well-known sensitive subdirectories found directly beneath a
//! root become read-only carve-outs of that root.

use vstd::prelude::*;

use crate::paths::canonicalize_or_self;
use crate::paths::is_descendant_path;
use crate::paths::is_existing_dir;
use crate::paths::join_path;
use crate::paths::lemma_join_is_descendant;
use crate::paths::spec_join_path;
use crate::policy::SandboxPolicy;

verus! {

/// A directory under which writes are granted, minus the listed
/// read-only carve-outs beneath it.
pub struct WritableRoot {
    pub root: String,
    pub read_only_subpaths: Vec<String>,
}

/// The mathematical value of a [`WritableRoot`]: plain character
/// sequences for the root and its carve-outs.
#[verifier::ext_equal]
pub struct WritableRootView {
    pub root: Seq<char>,
    pub read_only_subpaths: Seq<Seq<char>>,
}

impl View for WritableRoot {
    type V = WritableRootView;

    open spec fn view(&self) -> WritableRootView {
        WritableRootView {
            root: self.root@,
            read_only_subpaths: self.read_only_subpaths.deep_view(),
        }
    }
}

impl DeepView for WritableRoot {
    type V = WritableRootView;

    open spec fn deep_view(&self) -> WritableRootView {
        self.view()
    }
}

impl WritableRootView {
    /// Invariant: every read-only carve-out lies at or beneath its own
    /// root; the resolver never emits a carve-out outside its root.
    pub open spec fn wf(self) -> bool {
        forall|i: int|
            0 <= i < self.read_only_subpaths.len() ==> is_descendant_path(
                self.root,
                #[trigger] self.read_only_subpaths[i],
            )
    }
}

impl Clone for WritableRoot {
    fn clone(&self) -> (r: Self)
        ensures
            r@ == self@,
    {
        let r = WritableRoot {
            root: self.root.clone(),
            read_only_subpaths: self.read_only_subpaths.clone(),
        };
        proof {
            assert(r.read_only_subpaths.deep_view() =~= self.read_only_subpaths.deep_view());
            assert(r@ =~= self@);
        }
        r
    }
}

/// The name of the version-control metadata directory excluded from
/// writes: rewriting its hooks would run attacker code at the user's next
/// commit.
pub open spec fn spec_vcs_dir_name() -> Seq<char> {
    ".git"@
}

/// The name of the agent-config directory excluded from writes: editing
/// its configuration would let the agent weaken its own sandbox.
pub open spec fn spec_agent_dir_name() -> Seq<char> {
    ".aish"@
}

/// The single root a candidate directory contributes: the directory
/// itself, with a carve-out for each sensitive subdirectory found
/// directly beneath it.
pub open spec fn spec_root_with_carveouts(root: Seq<char>, vcs: bool, agent: bool) -> WritableRootView {
    WritableRootView {
        root: root,
        read_only_subpaths: (if vcs {
            seq![spec_join_path(root, spec_vcs_dir_name())]
        } else {
            Seq::<Seq<char>>::empty()
        }) + (if agent {
            seq![spec_join_path(root, spec_agent_dir_name())]
        } else {
            Seq::<Seq<char>>::empty()
        }),
    }
}

/// The writable roots assembled from per-candidate facts: `canon[i]` is
/// the canonical form of candidate `i`, and `vcs[i]` / `agent[i]` say
/// whether the two sensitive subdirectories exist beneath it. A candidate
/// equal to an earlier one contributes nothing.
pub open spec fn spec_assemble(canon: Seq<Seq<char>>, vcs: Seq<bool>, agent: Seq<bool>) -> Seq<
    WritableRootView,
>
    decreases canon.len(),
{
    if canon.len() == 0 {
        Seq::<WritableRootView>::empty()
    } else {
        let prefix = spec_assemble(canon.drop_last(), vcs.drop_last(), agent.drop_last());
        if canon.drop_last().contains(canon.last()) {
            prefix
        } else {
            prefix.push(
                spec_root_with_carveouts(
                    canon.last(),
                    vcs[canon.len() - 1],
                    agent[canon.len() - 1],
                ),
            )
        }
    }
}

/// A candidate that canonicalizes to the same path as an earlier one is
/// ignored: an aliased temporary directory and its canonical target
/// collapse to one root.
pub proof fn lemma_duplicate_candidate_ignored(canon: Seq<Seq<char>>, vcs: Seq<bool>, agent: Seq<bool>)
    requires
        canon.len() > 0,
        canon.drop_last().contains(canon.last()),
    ensures
        spec_assemble(canon, vcs, agent) == spec_assemble(
            canon.drop_last(),
            vcs.drop_last(),
            agent.drop_last(),
        ),
{
}

/// Every assembled root is the canonical form of one of the candidates.
pub proof fn lemma_assembled_roots_are_candidates(
    canon: Seq<Seq<char>>,
    vcs: Seq<bool>,
    agent: Seq<bool>,
)
    ensures
        forall|k: int|
            0 <= k < spec_assemble(canon, vcs, agent).len() ==> canon.contains(
                (#[trigger] spec_assemble(canon, vcs, agent)[k]).root,
            ),
    decreases canon.len(),
{
    if canon.len() > 0 {
        lemma_assembled_roots_are_candidates(canon.drop_last(), vcs.drop_last(), agent.drop_last());
        let prev = spec_assemble(canon.drop_last(), vcs.drop_last(), agent.drop_last());
        assert forall|k: int|
            0 <= k < spec_assemble(canon, vcs, agent).len() implies canon.contains(
            (#[trigger] spec_assemble(canon, vcs, agent)[k]).root,
        ) by {
            if k < prev.len() {
                let r = prev[k].root;
                assert(canon.drop_last().contains(r));
                let j = choose|j: int| 0 <= j < canon.drop_last().len() && canon.drop_last()[j] == r;
                assert(canon[j] == r);
            } else {
                assert(canon[canon.len() - 1] == spec_assemble(canon, vcs, agent)[k].root);
            }
        }
    }
}

/// Dropping duplicates loses no location: every candidate's canonical
/// form still stands as some root; in particular the working directory
/// is always covered.
pub proof fn lemma_every_candidate_covered(canon: Seq<Seq<char>>, vcs: Seq<bool>, agent: Seq<bool>)
    ensures
        forall|i: int|
            0 <= i < canon.len() ==> exists|k: int|
                0 <= k < spec_assemble(canon, vcs, agent).len() && (#[trigger] canon[i])
                    == spec_assemble(canon, vcs, agent)[k].root,
    decreases canon.len(),
{
    if canon.len() > 0 {
        let sub = canon.drop_last();
        lemma_every_candidate_covered(sub, vcs.drop_last(), agent.drop_last());
        let prev = spec_assemble(sub, vcs.drop_last(), agent.drop_last());
        let whole = spec_assemble(canon, vcs, agent);
        assert forall|i: int| 0 <= i < canon.len() implies exists|k: int|
            0 <= k < whole.len() && (#[trigger] canon[i]) == whole[k].root by {
            if i < canon.len() - 1 {
                assert(sub[i] == canon[i]);
                let k = choose|k: int| 0 <= k < prev.len() && sub[i] == prev[k].root;
                assert(whole[k].root == canon[i]);
            } else if sub.contains(canon.last()) {
                let j = choose|j: int| 0 <= j < sub.len() && sub[j] == canon.last();
                let k = choose|k: int| 0 <= k < prev.len() && sub[j] == prev[k].root;
                assert(whole[k].root == canon[i]);
            } else {
                assert(whole[prev.len() as int].root == canon[i]);
            }
        }
    }
}

/// No two assembled roots name the same directory: canonical paths are
/// deduplicated, so no conflicting rules are emitted for one location.
pub proof fn lemma_assembled_roots_distinct(canon: Seq<Seq<char>>, vcs: Seq<bool>, agent: Seq<bool>)
    ensures
        forall|j: int, k: int|
            0 <= j < k < spec_assemble(canon, vcs, agent).len() ==> (
            #[trigger] spec_assemble(canon, vcs, agent)[j]).root != (
            #[trigger] spec_assemble(canon, vcs, agent)[k]).root,
    decreases canon.len(),
{
    if canon.len() > 0 {
        let sub_canon = canon.drop_last();
        lemma_assembled_roots_distinct(sub_canon, vcs.drop_last(), agent.drop_last());
        lemma_assembled_roots_are_candidates(sub_canon, vcs.drop_last(), agent.drop_last());
        let prev = spec_assemble(sub_canon, vcs.drop_last(), agent.drop_last());
        let whole = spec_assemble(canon, vcs, agent);
        assert forall|j: int, k: int| 0 <= j < k < whole.len() implies (#[trigger] whole[j]).root
            != (#[trigger] whole[k]).root by {
            if k < prev.len() {
            } else if !sub_canon.contains(canon.last()) {
                assert(whole[k].root == canon.last());
                assert(sub_canon.contains(whole[j].root));
            }
        }
    }
}

/// Every assembled root satisfies the carve-out invariant.
pub proof fn lemma_assembled_roots_wf(canon: Seq<Seq<char>>, vcs: Seq<bool>, agent: Seq<bool>)
    ensures
        forall|k: int|
            0 <= k < spec_assemble(canon, vcs, agent).len() ==> (#[trigger] spec_assemble(
                canon,
                vcs,
                agent,
            )[k]).wf(),
    decreases canon.len(),
{
    reveal_strlit(".git");
    reveal_strlit(".aish");
    if canon.len() > 0 {
        lemma_assembled_roots_wf(canon.drop_last(), vcs.drop_last(), agent.drop_last());
        let prev = spec_assemble(canon.drop_last(), vcs.drop_last(), agent.drop_last());
        let whole = spec_assemble(canon, vcs, agent);
        assert forall|k: int| 0 <= k < whole.len() implies (#[trigger] whole[k]).wf() by {
            if k >= prev.len() {
                let root = canon.last();
                lemma_join_is_descendant(root, spec_vcs_dir_name());
                lemma_join_is_descendant(root, spec_agent_dir_name());
                assert(whole[k] == spec_root_with_carveouts(
                    root,
                    vcs[canon.len() - 1],
                    agent[canon.len() - 1],
                ));
            }
        }
    }
}

/// One candidate is never dropped; with at least one candidate at least
/// one root comes out.
pub proof fn lemma_assemble_len(canon: Seq<Seq<char>>, vcs: Seq<bool>, agent: Seq<bool>)
    ensures
        canon.len() > 0 ==> spec_assemble(canon, vcs, agent).len() >= 1,
        spec_assemble(canon, vcs, agent).len() <= canon.len(),
    decreases canon.len(),
{
    if canon.len() > 0 {
        lemma_assemble_len(canon.drop_last(), vcs.drop_last(), agent.drop_last());
    }
}

/// Exactly [`spec_root_with_carveouts`], executable form.
fn root_with_carveouts(root: String, vcs: bool, agent: bool) -> (r: WritableRoot)
    ensures
        r@ == spec_root_with_carveouts(root@, vcs, agent),
{
    let mut subs: Vec<String> = Vec::new();
    if vcs {
        subs.push(join_path(&root, ".git"));
    }
    if agent {
        subs.push(join_path(&root, ".aish"));
    }
    let r = WritableRoot { root, read_only_subpaths: subs };
    proof {
        assert(r@.read_only_subpaths =~= spec_root_with_carveouts(r.root@, vcs, agent)
            .read_only_subpaths);
        assert(r@ =~= spec_root_with_carveouts(r.root@, vcs, agent));
    }
    r
}

/// Whether one of the first `upto` entries of `v` equals `s`.
fn contains_string(v: &Vec<String>, upto: usize, s: &String) -> (b: bool)
    requires
        upto <= v@.len(),
    ensures
        b == v.deep_view().subrange(0, upto as int).contains(s@),
{
    let ghost prefix = v.deep_view().subrange(0, upto as int);
    let mut i: usize = 0;
    while i < upto
        invariant
            i <= upto,
            upto <= v@.len(),
            prefix == v.deep_view().subrange(0, upto as int),
            forall|j: int| 0 <= j < i ==> prefix[j] != s@,
        decreases upto - i,
    {
        if v[i].eq(s) {
            assert(prefix[i as int] == s@);
            return true;
        }
        i += 1;
    }
    false
}

/// Exactly [`spec_assemble`], executable form: builds the deduplicated
/// writable roots from per-candidate facts.
pub fn assemble_writable_roots(canon: &Vec<String>, vcs: &Vec<bool>, agent: &Vec<bool>) -> (r: Vec<
    WritableRoot,
>)
    requires
        canon@.len() == vcs@.len(),
        canon@.len() == agent@.len(),
    ensures
        r.deep_view() == spec_assemble(canon.deep_view(), vcs@, agent@),
{
    let mut r: Vec<WritableRoot> = Vec::new();
    let mut i: usize = 0;
    while i < canon.len()
        invariant
            i <= canon@.len(),
            canon@.len() == vcs@.len(),
            canon@.len() == agent@.len(),
            r.deep_view() == spec_assemble(
                canon.deep_view().subrange(0, i as int),
                vcs@.subrange(0, i as int),
                agent@.subrange(0, i as int),
            ),
        decreases canon@.len() - i,
    {
        let ghost cprefix = canon.deep_view().subrange(0, i as int);
        let ghost cnext = canon.deep_view().subrange(0, i + 1 as int);
        proof {
            assert(cnext.drop_last() =~= cprefix);
            assert(vcs@.subrange(0, i + 1 as int).drop_last() =~= vcs@.subrange(0, i as int));
            assert(agent@.subrange(0, i + 1 as int).drop_last() =~= agent@.subrange(0, i as int));
            assert(cnext.last() == canon.deep_view()[i as int]);
        }
        if !contains_string(canon, i, &canon[i]) {
            let root = root_with_carveouts(canon[i].clone(), vcs[i], agent[i]);
            r.push(root);
        }
        proof {
            assert(r.deep_view() =~= spec_assemble(
                cnext,
                vcs@.subrange(0, i + 1 as int),
                agent@.subrange(0, i + 1 as int),
            ));
        }
        i += 1;
    }
    proof {
        assert(canon.deep_view().subrange(0, canon@.len() as int) =~= canon.deep_view());
        assert(vcs@.subrange(0, canon@.len() as int) =~= vcs@);
        assert(agent@.subrange(0, canon@.len() as int) =~= agent@);
    }
    r
}

/// The candidate writable directories a policy names, before
/// canonicalization: the working directory always; the system temporary
/// directory unless excluded; the caller-supplied `TMPDIR` value unless
/// excluded, absent or empty. Every variant other than `CurrentDirWrite`
/// fails closed with no candidates.
pub open spec fn spec_candidate_roots(
    policy: SandboxPolicy,
    cwd: Seq<char>,
    tmpdir: Option<Seq<char>>,
) -> Seq<Seq<char>> {
    match policy {
        SandboxPolicy::CurrentDirWrite { exclude_tmpdir_env_var, exclude_slash_tmp, .. } => {
            let base = seq![cwd];
            let with_tmp = if !exclude_slash_tmp {
                base.push("/tmp"@)
            } else {
                base
            };
            match tmpdir {
                Some(t) => if !exclude_tmpdir_env_var && t.len() > 0 {
                    with_tmp.push(t)
                } else {
                    with_tmp
                },
                None => with_tmp,
            }
        },
        _ => Seq::<Seq<char>>::empty(),
    }
}

/// Exactly [`spec_candidate_roots`], executable form.
pub fn candidate_roots(policy: &SandboxPolicy, cwd: &String, tmpdir_env: &Option<String>) -> (r:
    Vec<String>)
    ensures
        r.deep_view() == spec_candidate_roots(*policy, cwd@, tmpdir_env.deep_view()),
{
    let mut v: Vec<String> = Vec::new();
    match policy {
        SandboxPolicy::CurrentDirWrite { exclude_tmpdir_env_var, exclude_slash_tmp, .. } => {
            v.push(cwd.clone());
            if !*exclude_slash_tmp {
                v.push(String::from_str("/tmp"));
            }
            match tmpdir_env {
                Some(t) => {
                    if !*exclude_tmpdir_env_var && !t.as_str().is_empty() {
                        v.push(t.clone());
                    }
                },
                None => {},
            }
        },
        _ => {},
    }
    proof {
        assert(v.deep_view() =~= spec_candidate_roots(*policy, cwd@, tmpdir_env.deep_view()));
    }
    v
}

/// Resolves the writable roots for `policy` under the working directory
/// `cwd`, with `tmpdir_env` the value of the `TMPDIR`-style environment
/// variable as the caller read it. Canonical forms and the presence of
/// sensitive subdirectories come from the live filesystem, so the ensures
/// state what holds of every outcome: the roots are assembled exactly as
/// [`spec_assemble`] says from one fact vector per candidate, at least
/// one root (the working directory's) survives, every carve-out lies
/// beneath its root, and no directory appears as two roots.
pub fn resolve_writable_roots(
    policy: &SandboxPolicy,
    cwd: &String,
    tmpdir_env: &Option<String>,
) -> (r: Vec<WritableRoot>)
    ensures
        !(*policy is CurrentDirWrite) ==> r@.len() == 0,
        *policy is CurrentDirWrite ==> r@.len() >= 1,
        (*policy matches SandboxPolicy::CurrentDirWrite {
            exclude_tmpdir_env_var: true,
            exclude_slash_tmp: true,
            ..
        }) ==> r@.len() == 1,
        forall|k: int| 0 <= k < r@.len() ==> (#[trigger] r.deep_view()[k]).wf(),
        forall|j: int, k: int|
            0 <= j < k < r@.len() ==> (#[trigger] r.deep_view()[j]).root != (
            #[trigger] r.deep_view()[k]).root,
        exists|canon: Seq<Seq<char>>, vcs: Seq<bool>, agent: Seq<bool>|
            canon.len() == spec_candidate_roots(*policy, cwd@, tmpdir_env.deep_view()).len()
                && r.deep_view() == #[trigger] spec_assemble(canon, vcs, agent),
{
    let cands = candidate_roots(policy, cwd, tmpdir_env);
    let mut canon: Vec<String> = Vec::new();
    let mut vcs: Vec<bool> = Vec::new();
    let mut agent: Vec<bool> = Vec::new();
    let mut i: usize = 0;
    while i < cands.len()
        invariant
            i <= cands@.len(),
            canon@.len() == i,
            vcs@.len() == i,
            agent@.len() == i,
        decreases cands@.len() - i,
    {
        let c = canonicalize_or_self(&cands[i]);
        let has_vcs = is_existing_dir(&join_path(&c, ".git"));
        let has_agent = is_existing_dir(&join_path(&c, ".aish"));
        canon.push(c);
        vcs.push(has_vcs);
        agent.push(has_agent);
        i += 1;
    }
    let r = assemble_writable_roots(&canon, &vcs, &agent);
    proof {
        let cseq = canon.deep_view();
        lemma_assembled_roots_wf(cseq, vcs@, agent@);
        lemma_assembled_roots_distinct(cseq, vcs@, agent@);
        lemma_assemble_len(cseq, vcs@, agent@);
        assert(cseq.len() == spec_candidate_roots(*policy, cwd@, tmpdir_env.deep_view()).len()
            && r.deep_view() == spec_assemble(cseq, vcs@, agent@));
        if *policy is CurrentDirWrite {
            assert(spec_candidate_roots(*policy, cwd@, tmpdir_env.deep_view()).len() >= 1);
        }
        if (*policy matches SandboxPolicy::CurrentDirWrite {
            exclude_tmpdir_env_var: true,
            exclude_slash_tmp: true,
            ..
        }) {
            assert(cseq.len() == 1);
            assert(spec_assemble(cseq, vcs@, agent@).len() == 1);
        }
    }
    r
}

} // verus!
