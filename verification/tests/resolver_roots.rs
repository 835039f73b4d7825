use sandboxing::resolver::assemble_writable_roots;
use sandboxing::resolver::candidate_roots;
use sandboxing::resolver::resolve_writable_roots;
use sandboxing::policy::NetworkAccess;
use sandboxing::policy::SandboxPolicy;

#[test]
fn cwd_root_carries_vcs_and_agent_carveouts() {
    // One candidate whose two sensitive subdirectories both exist: one
    // root, with exactly those two paths as read-only carve-outs.
    let canon = vec!["/repo".to_string()];
    let vcs = vec![true];
    let agent = vec![true];
    let roots = assemble_writable_roots(&canon, &vcs, &agent);
    assert_eq!(roots.len(), 1);
    assert_eq!(roots[0].root, "/repo");
    assert_eq!(
        roots[0].read_only_subpaths,
        vec!["/repo/.git".to_string(), "/repo/.aish".to_string()]
    );
}

#[test]
fn missing_sensitive_dirs_leave_no_carveouts() {
    let canon = vec!["/work".to_string()];
    let roots = assemble_writable_roots(&canon, &vec![false], &vec![false]);
    assert_eq!(roots.len(), 1);
    assert_eq!(roots[0].root, "/work");
    assert!(roots[0].read_only_subpaths.is_empty());
}

#[test]
fn aliased_candidates_collapse_to_one_root() {
    // Two candidates that canonicalized to the same directory: only the
    // first contributes a root.
    let canon = vec!["/work".to_string(), "/tmp".to_string(), "/tmp".to_string()];
    let vcs = vec![false, false, false];
    let agent = vec![false, false, false];
    let roots = assemble_writable_roots(&canon, &vcs, &agent);
    assert_eq!(roots.len(), 2);
    assert_eq!(roots[0].root, "/work");
    assert_eq!(roots[1].root, "/tmp");
}

#[test]
fn root_slash_joins_without_double_separator() {
    let canon = vec!["/".to_string()];
    let roots = assemble_writable_roots(&canon, &vec![true], &vec![false]);
    assert_eq!(roots.len(), 1);
    assert_eq!(roots[0].read_only_subpaths, vec!["/.git".to_string()]);
}

#[test]
fn candidates_for_current_dir_write_with_all_roots() {
    let policy = SandboxPolicy::CurrentDirWrite {
        network_access: false,
        exclude_tmpdir_env_var: false,
        exclude_slash_tmp: false,
    };
    let cands = candidate_roots(
        &policy,
        &"/work".to_string(),
        &Some("/var/tmpdir".to_string()),
    );
    assert_eq!(
        cands,
        vec![
            "/work".to_string(),
            "/tmp".to_string(),
            "/var/tmpdir".to_string()
        ]
    );
}

#[test]
fn empty_tmpdir_value_is_ignored() {
    let policy = SandboxPolicy::CurrentDirWrite {
        network_access: false,
        exclude_tmpdir_env_var: false,
        exclude_slash_tmp: true,
    };
    let cands = candidate_roots(&policy, &"/work".to_string(), &Some(String::new()));
    assert_eq!(cands, vec!["/work".to_string()]);
}

#[test]
fn both_excludes_leave_cwd_only() {
    // Resolution with both temporary-directory sources excluded keeps
    // the working directory as the only root, whatever the environment
    // says.
    let policy = SandboxPolicy::CurrentDirWrite {
        network_access: false,
        exclude_tmpdir_env_var: true,
        exclude_slash_tmp: true,
    };
    let roots = resolve_writable_roots(&policy, &"/usr".to_string(), &Some("/tmp".to_string()));
    assert_eq!(roots.len(), 1);
    assert_eq!(roots[0].root, "/usr");
}

#[test]
fn tmpdir_equal_to_slash_tmp_collapses_after_canonicalization() {
    // The TMPDIR value names the same directory as the system temporary
    // directory; after canonicalization only one root stands for it.
    let policy = SandboxPolicy::CurrentDirWrite {
        network_access: false,
        exclude_tmpdir_env_var: false,
        exclude_slash_tmp: false,
    };
    let roots = resolve_writable_roots(&policy, &"/usr".to_string(), &Some("/tmp".to_string()));
    assert_eq!(roots.len(), 2);
    assert_eq!(roots[0].root, "/usr");
    assert_eq!(roots[1].root, "/tmp");
}

#[test]
fn symlinked_root_resolves_to_its_canonical_target() {
    // `/bin` is a symlink to `/usr/bin` on merged-usr systems like this
    // one; the root that comes out carries the canonical target, not the
    // alias the caller spelled.
    let policy = SandboxPolicy::CurrentDirWrite {
        network_access: false,
        exclude_tmpdir_env_var: true,
        exclude_slash_tmp: true,
    };
    let roots = resolve_writable_roots(&policy, &"/bin".to_string(), &None);
    assert_eq!(roots.len(), 1);
    assert_eq!(roots[0].root, "/usr/bin");
}

#[test]
fn non_current_dir_write_policies_resolve_to_no_roots() {
    let cwd = "/usr".to_string();
    let none = None;
    assert!(resolve_writable_roots(&SandboxPolicy::ReadOnly, &cwd, &none).is_empty());
    assert!(resolve_writable_roots(&SandboxPolicy::DangerFullAccess, &cwd, &none).is_empty());
    assert!(resolve_writable_roots(
        &SandboxPolicy::ExternalSandbox {
            network_access: NetworkAccess::Enabled
        },
        &cwd,
        &none
    )
    .is_empty());
}
