use sandboxing::cli_arg::SandboxModeCliArg;
use sandboxing::policy::NetworkAccess;
use sandboxing::policy::SandboxMode;
use sandboxing::policy::SandboxPolicy;
use sandboxing::summary::summarize_sandbox_policy;

#[test]
fn maps_cli_args_to_protocol_modes() {
    assert_eq!(SandboxMode::ReadOnly, SandboxModeCliArg::ReadOnly.into());
    assert_eq!(
        SandboxMode::CurrentDirWrite,
        SandboxModeCliArg::CurrentDirWrite.into()
    );
    assert_eq!(
        SandboxMode::DangerFullAccess,
        SandboxModeCliArg::DangerFullAccess.into()
    );
}

#[test]
fn summarizes_external_sandbox_without_network_access_suffix() {
    let summary = summarize_sandbox_policy(&SandboxPolicy::ExternalSandbox {
        network_access: NetworkAccess::Restricted,
    });
    assert_eq!(summary, "external-sandbox");
}

#[test]
fn summarizes_external_sandbox_with_enabled_network() {
    let summary = summarize_sandbox_policy(&SandboxPolicy::ExternalSandbox {
        network_access: NetworkAccess::Enabled,
    });
    assert_eq!(summary, "external-sandbox (network access enabled)");
}

#[test]
fn current_dir_write_summary_includes_network_access() {
    let summary = summarize_sandbox_policy(&SandboxPolicy::CurrentDirWrite {
        network_access: true,
        exclude_tmpdir_env_var: true,
        exclude_slash_tmp: true,
    });
    assert_eq!(
        summary,
        "current-dir-write [workdir] (network access enabled)"
    );
}

#[test]
fn current_dir_write_summary_lists_all_writable_entries() {
    let summary = summarize_sandbox_policy(&SandboxPolicy::CurrentDirWrite {
        network_access: false,
        exclude_tmpdir_env_var: false,
        exclude_slash_tmp: false,
    });
    assert_eq!(summary, "current-dir-write [workdir, /tmp, $TMPDIR]");
}

#[test]
fn summarizes_simple_policies() {
    assert_eq!(
        summarize_sandbox_policy(&SandboxPolicy::DangerFullAccess),
        "danger-full-access"
    );
    assert_eq!(summarize_sandbox_policy(&SandboxPolicy::ReadOnly), "read-only");
}

#[test]
fn full_disk_write_access_by_variant() {
    assert!(SandboxPolicy::DangerFullAccess.has_full_disk_write_access());
    assert!(!SandboxPolicy::ReadOnly.has_full_disk_write_access());
    assert!(!SandboxPolicy::CurrentDirWrite {
        network_access: true,
        exclude_tmpdir_env_var: false,
        exclude_slash_tmp: false,
    }
    .has_full_disk_write_access());
    assert!(SandboxPolicy::ExternalSandbox {
        network_access: NetworkAccess::Restricted,
    }
    .has_full_disk_write_access());
}

#[test]
fn full_disk_read_access_is_always_granted() {
    assert!(SandboxPolicy::ReadOnly.has_full_disk_read_access());
    assert!(SandboxPolicy::DangerFullAccess.has_full_disk_read_access());
}

#[test]
fn full_network_access_by_variant() {
    assert!(SandboxPolicy::DangerFullAccess.has_full_network_access());
    assert!(!SandboxPolicy::ReadOnly.has_full_network_access());
    assert!(SandboxPolicy::CurrentDirWrite {
        network_access: true,
        exclude_tmpdir_env_var: true,
        exclude_slash_tmp: true,
    }
    .has_full_network_access());
    assert!(!SandboxPolicy::CurrentDirWrite {
        network_access: false,
        exclude_tmpdir_env_var: true,
        exclude_slash_tmp: true,
    }
    .has_full_network_access());
    assert!(SandboxPolicy::ExternalSandbox {
        network_access: NetworkAccess::Enabled,
    }
    .has_full_network_access());
    assert!(!SandboxPolicy::ExternalSandbox {
        network_access: NetworkAccess::Restricted,
    }
    .has_full_network_access());
}
