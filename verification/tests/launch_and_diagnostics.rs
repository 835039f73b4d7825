use sandboxing::denials::SandboxDenial;
use sandboxing::denials::accumulate_denials;
use sandboxing::landlock::PolicyCompilationError;
use sandboxing::landlock::compile_linux_ruleset;
use sandboxing::launcher::SANDBOX_ENV_VAR;
use sandboxing::launcher::SandboxBackend;
use sandboxing::launcher::StdioPolicy;
use sandboxing::launcher::env_with_sandbox_marker;
use sandboxing::launcher::prepare_linux_spawn;
use sandboxing::launcher::prepare_seatbelt_spawn;
use sandboxing::policy::SandboxPolicy;
use sandboxing::skills::SkillLoadOutcome;
use sandboxing::skills::SkillMetadata;
use sandboxing::skills::SkillsManager;

fn current_dir_write() -> SandboxPolicy {
    SandboxPolicy::CurrentDirWrite {
        network_access: false,
        exclude_tmpdir_env_var: true,
        exclude_slash_tmp: true,
    }
}

#[test]
fn marker_is_added_without_touching_other_keys() {
    let env = vec![
        ("PATH".to_string(), "/bin".to_string()),
        ("HOME".to_string(), "/root".to_string()),
    ];
    let marked = env_with_sandbox_marker(&env, SandboxBackend::Seatbelt);
    assert_eq!(
        marked,
        vec![
            ("PATH".to_string(), "/bin".to_string()),
            ("HOME".to_string(), "/root".to_string()),
            (SANDBOX_ENV_VAR.to_string(), "seatbelt".to_string()),
        ]
    );
}

#[test]
fn marker_set_by_caller_is_overwritten_once() {
    let env = vec![
        (SANDBOX_ENV_VAR.to_string(), "stale".to_string()),
        ("PATH".to_string(), "/bin".to_string()),
        (SANDBOX_ENV_VAR.to_string(), "staler".to_string()),
    ];
    let marked = env_with_sandbox_marker(&env, SandboxBackend::LinuxSandbox);
    assert_eq!(
        marked,
        vec![
            ("PATH".to_string(), "/bin".to_string()),
            (SANDBOX_ENV_VAR.to_string(), "linux".to_string()),
        ]
    );
}

#[test]
fn seatbelt_spawn_uses_fixed_enforcement_binary() {
    let request = prepare_seatbelt_spawn(
        vec!["true".to_string()],
        "/usr".to_string(),
        &current_dir_write(),
        &"/usr".to_string(),
        &None,
        &Vec::new(),
        StdioPolicy::Inherit,
        &vec![("PATH".to_string(), "/bin".to_string())],
    );
    assert_eq!(request.program, "/usr/bin/sandbox-exec");
    assert_eq!(request.cwd, "/usr");
    assert_eq!(request.stdio, StdioPolicy::Inherit);
    assert_eq!(request.args[0], "-p");
    assert_eq!(
        request.env.last(),
        Some(&(SANDBOX_ENV_VAR.to_string(), "seatbelt".to_string()))
    );
}

#[test]
fn linux_spawn_without_helper_is_a_configuration_error() {
    let r = prepare_linux_spawn(
        vec!["true".to_string()],
        "/usr".to_string(),
        &current_dir_write(),
        &"/usr".to_string(),
        &None,
        &None,
        StdioPolicy::Pipe,
        &Vec::new(),
    );
    assert!(matches!(
        r,
        Err(PolicyCompilationError::MissingLinuxSandboxHelper)
    ));
    assert_eq!(
        PolicyCompilationError::MissingLinuxSandboxHelper.message(),
        "the helper that applies the kernel sandbox is not installed"
    );
}

#[test]
fn linux_spawn_runs_the_helper_around_the_command() {
    let helper = Some("/opt/sandbox-helper".to_string());
    let (request, ruleset) = prepare_linux_spawn(
        vec!["true".to_string(), "arg".to_string()],
        "/usr".to_string(),
        &current_dir_write(),
        &"/usr".to_string(),
        &None,
        &helper,
        StdioPolicy::Pipe,
        &Vec::new(),
    )
    .expect("helper present");
    assert_eq!(request.program, "/opt/sandbox-helper");
    assert_eq!(request.args, vec!["true".to_string(), "arg".to_string()]);
    assert_eq!(
        request.env,
        vec![(SANDBOX_ENV_VAR.to_string(), "linux".to_string())]
    );
    assert!(ruleset.full_read);
    assert!(!ruleset.full_write);
    assert!(ruleset.deny_network_syscalls);
    assert_eq!(ruleset.writable_roots.len(), 1);
    assert_eq!(ruleset.writable_roots[0].root, "/usr");
}

#[test]
fn linux_ruleset_for_full_access_has_no_roots_and_open_network() {
    let helper = Some("/opt/sandbox-helper".to_string());
    let rs = compile_linux_ruleset(
        &SandboxPolicy::DangerFullAccess,
        &"/usr".to_string(),
        &None,
        &helper,
    )
    .expect("helper present");
    assert!(rs.full_write);
    assert!(rs.writable_roots.is_empty());
    assert!(!rs.deny_network_syscalls);
}

#[test]
fn linux_compilation_is_deterministic() {
    let helper = Some("/opt/sandbox-helper".to_string());
    let a = compile_linux_ruleset(&current_dir_write(), &"/usr".to_string(), &None, &helper)
        .expect("helper present");
    let b = compile_linux_ruleset(&current_dir_write(), &"/usr".to_string(), &None, &helper)
        .expect("helper present");
    assert_eq!(a.helper, b.helper);
    assert_eq!(a.full_read, b.full_read);
    assert_eq!(a.full_write, b.full_write);
    assert_eq!(a.deny_network_syscalls, b.deny_network_syscalls);
    assert_eq!(a.writable_roots.len(), b.writable_roots.len());
    for (x, y) in a.writable_roots.iter().zip(b.writable_roots.iter()) {
        assert_eq!(x.root, y.root);
        assert_eq!(x.read_only_subpaths, y.read_only_subpaths);
    }
}

#[test]
fn linux_ruleset_for_read_only_denies_writes_and_network() {
    let helper = Some("/opt/sandbox-helper".to_string());
    let rs = compile_linux_ruleset(&SandboxPolicy::ReadOnly, &"/usr".to_string(), &None, &helper)
        .expect("helper present");
    assert!(!rs.full_write);
    assert!(rs.writable_roots.is_empty());
    assert!(rs.deny_network_syscalls);
}

fn denial(name: &str, capability: &str) -> SandboxDenial {
    SandboxDenial {
        name: name.to_string(),
        capability: capability.to_string(),
    }
}

#[test]
fn denials_are_deduplicated_in_first_seen_order() {
    let events = vec![
        denial("bash", "file-write-data"),
        denial("bash", "network-outbound"),
        denial("bash", "file-write-data"),
        denial("cat", "file-write-data"),
    ];
    let report = accumulate_denials(&events);
    let pairs: Vec<(String, String)> = report
        .iter()
        .map(|d| (d.name.clone(), d.capability.clone()))
        .collect();
    assert_eq!(
        pairs,
        vec![
            ("bash".to_string(), "file-write-data".to_string()),
            ("bash".to_string(), "network-outbound".to_string()),
            ("cat".to_string(), "file-write-data".to_string()),
        ]
    );
}

#[test]
fn empty_denial_stream_yields_empty_report() {
    let report = accumulate_denials(&Vec::new());
    assert!(report.is_empty());
}

fn outcome(names: &[&str]) -> SkillLoadOutcome {
    SkillLoadOutcome {
        skills: names
            .iter()
            .map(|n| SkillMetadata {
                name: n.to_string(),
                description: format!("{n} description"),
                short_description: n.to_string(),
                path: format!("/skills/{n}"),
            })
            .collect(),
        errors: Vec::new(),
    }
}

#[test]
fn skills_manager_caches_the_first_outcome() {
    let mut manager = SkillsManager::new("/home/agent/.aish".to_string());
    let first = manager.skills(outcome(&["alpha"]));
    assert_eq!(first.skills.len(), 1);
    assert_eq!(first.skills[0].name, "alpha");
    // A later load is ignored while the cache stands.
    let second = manager.skills(outcome(&["beta", "gamma"]));
    assert_eq!(second.skills.len(), 1);
    assert_eq!(second.skills[0].name, "alpha");
}

#[test]
fn forced_reload_replaces_the_cache() {
    let mut manager = SkillsManager::new("/home/agent/.aish".to_string());
    let _ = manager.skills(outcome(&["alpha"]));
    let reloaded = manager.skills_with_options(true, outcome(&["beta"]));
    assert_eq!(reloaded.skills.len(), 1);
    assert_eq!(reloaded.skills[0].name, "beta");
    // The replacement is what later unforced calls see.
    let after = manager.skills_with_options(false, outcome(&["gamma"]));
    assert_eq!(after.skills[0].name, "beta");
}
