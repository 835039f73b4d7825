use sandboxing::policy::SandboxPolicy;
use sandboxing::resolver::WritableRoot;
use sandboxing::seatbelt::MACOS_PATH_TO_SEATBELT_EXECUTABLE;
use sandboxing::seatbelt::SEATBELT_BASE_POLICY;
use sandboxing::seatbelt::SEATBELT_FULL_WRITE_POLICY;
use sandboxing::seatbelt::SEATBELT_NETWORK_POLICY;
use sandboxing::seatbelt::SEATBELT_READ_POLICY;
use sandboxing::seatbelt::build_profile;
use sandboxing::seatbelt::build_write_params;
use sandboxing::seatbelt::compile_seatbelt_for_roots;
use sandboxing::seatbelt::create_seatbelt_command_args;
use sandboxing::seatbelt::decimal_string;
use sandboxing::seatbelt::seatbelt_args_for_artifact;

fn repo_roots() -> Vec<WritableRoot> {
    vec![WritableRoot {
        root: "/repo".to_string(),
        read_only_subpaths: vec!["/repo/.git".to_string(), "/repo/.aish".to_string()],
    }]
}

fn current_dir_write_all_excluded() -> SandboxPolicy {
    SandboxPolicy::CurrentDirWrite {
        network_access: false,
        exclude_tmpdir_env_var: true,
        exclude_slash_tmp: true,
    }
}

#[test]
fn decimal_strings_are_exact() {
    assert_eq!(decimal_string(0), "0");
    assert_eq!(decimal_string(7), "7");
    assert_eq!(decimal_string(10), "10");
    assert_eq!(decimal_string(105), "105");
}

#[test]
fn profile_for_root_with_carveouts_matches_expected_text() {
    let policy = current_dir_write_all_excluded();
    let profile = build_profile(&policy, &repo_roots());
    let expected = format!(
        "{SEATBELT_BASE_POLICY}\n{SEATBELT_READ_POLICY}\n(allow file-write*\n(require-all (subpath (param \"WRITABLE_ROOT_0\")) (require-not (subpath (param \"WRITABLE_ROOT_0_RO_0\"))) (require-not (subpath (param \"WRITABLE_ROOT_0_RO_1\"))) )\n)\n"
    );
    assert_eq!(profile, expected);
}

#[test]
fn params_bind_each_path_out_of_band() {
    let policy = current_dir_write_all_excluded();
    let params = build_write_params(&policy, &repo_roots());
    assert_eq!(
        params,
        vec![
            ("WRITABLE_ROOT_0".to_string(), "/repo".to_string()),
            ("WRITABLE_ROOT_0_RO_0".to_string(), "/repo/.git".to_string()),
            ("WRITABLE_ROOT_0_RO_1".to_string(), "/repo/.aish".to_string()),
        ]
    );
}

#[test]
fn profile_text_never_contains_the_paths() {
    let policy = current_dir_write_all_excluded();
    let profile = build_profile(&policy, &repo_roots());
    assert!(!profile.contains("/repo"));
}

#[test]
fn args_wrap_profile_params_and_command() {
    let policy = current_dir_write_all_excluded();
    let artifact = compile_seatbelt_for_roots(&policy, &repo_roots());
    let command = vec!["bash".to_string(), "-c".to_string(), "true".to_string()];
    let args = seatbelt_args_for_artifact(&artifact, &Vec::new(), &command);
    let expected_profile = build_profile(&policy, &repo_roots());
    assert_eq!(
        args,
        vec![
            "-p".to_string(),
            expected_profile,
            "-DWRITABLE_ROOT_0=/repo".to_string(),
            "-DWRITABLE_ROOT_0_RO_0=/repo/.git".to_string(),
            "-DWRITABLE_ROOT_0_RO_1=/repo/.aish".to_string(),
            "--".to_string(),
            "bash".to_string(),
            "-c".to_string(),
            "true".to_string(),
        ]
    );
}

#[test]
fn compiling_twice_yields_identical_artifacts() {
    let policy = current_dir_write_all_excluded();
    let first = compile_seatbelt_for_roots(&policy, &repo_roots());
    let second = compile_seatbelt_for_roots(&policy, &repo_roots());
    assert_eq!(first.profile, second.profile);
    assert_eq!(first.params, second.params);
    let command = vec!["true".to_string()];
    let args1 = create_seatbelt_command_args(
        command.clone(),
        &policy,
        &"/usr".to_string(),
        &None,
        &Vec::new(),
    );
    let args2 = create_seatbelt_command_args(
        command,
        &policy,
        &"/usr".to_string(),
        &None,
        &Vec::new(),
    );
    assert_eq!(args1, args2);
}

#[test]
fn read_only_profile_grants_reads_and_nothing_else() {
    let profile = build_profile(&SandboxPolicy::ReadOnly, &Vec::new());
    let expected = format!("{SEATBELT_BASE_POLICY}\n{SEATBELT_READ_POLICY}\n\n");
    assert_eq!(profile, expected);
    let params = build_write_params(&SandboxPolicy::ReadOnly, &Vec::new());
    assert!(params.is_empty());
}

#[test]
fn full_access_profile_takes_the_short_full_write_branch() {
    let profile = build_profile(&SandboxPolicy::DangerFullAccess, &Vec::new());
    let expected = format!(
        "{SEATBELT_BASE_POLICY}\n{SEATBELT_READ_POLICY}\n{SEATBELT_FULL_WRITE_POLICY}\n{SEATBELT_NETWORK_POLICY}"
    );
    assert_eq!(profile, expected);
    assert!(build_write_params(&SandboxPolicy::DangerFullAccess, &repo_roots()).is_empty());
}

#[test]
fn network_fragment_follows_the_network_flag() {
    let with_network = SandboxPolicy::CurrentDirWrite {
        network_access: true,
        exclude_tmpdir_env_var: true,
        exclude_slash_tmp: true,
    };
    let profile = build_profile(&with_network, &repo_roots());
    assert!(profile.ends_with(SEATBELT_NETWORK_POLICY));
    let without = build_profile(&current_dir_write_all_excluded(), &repo_roots());
    assert!(!without.contains("network-outbound"));
}

#[test]
fn end_to_end_args_for_read_only_under_real_cwd() {
    let command = vec!["cat".to_string(), "/etc/hostname".to_string()];
    let args = create_seatbelt_command_args(
        command,
        &SandboxPolicy::ReadOnly,
        &"/usr".to_string(),
        &None,
        &Vec::new(),
    );
    let expected_profile = format!("{SEATBELT_BASE_POLICY}\n{SEATBELT_READ_POLICY}\n\n");
    assert_eq!(
        args,
        vec![
            "-p".to_string(),
            expected_profile,
            "--".to_string(),
            "cat".to_string(),
            "/etc/hostname".to_string(),
        ]
    );
}

#[test]
fn end_to_end_args_resolve_cwd_as_sole_writable_root() {
    let command = vec!["true".to_string()];
    let args = create_seatbelt_command_args(
        command,
        &current_dir_write_all_excluded(),
        &"/usr".to_string(),
        &None,
        &Vec::new(),
    );
    let expected_profile = format!(
        "{SEATBELT_BASE_POLICY}\n{SEATBELT_READ_POLICY}\n(allow file-write*\n(subpath (param \"WRITABLE_ROOT_0\"))\n)\n"
    );
    assert_eq!(
        args,
        vec![
            "-p".to_string(),
            expected_profile,
            "-DWRITABLE_ROOT_0=/usr".to_string(),
            "--".to_string(),
            "true".to_string(),
        ]
    );
}

#[test]
fn enforcement_binary_path_is_fixed() {
    assert_eq!(MACOS_PATH_TO_SEATBELT_EXECUTABLE, "/usr/bin/sandbox-exec");
}
