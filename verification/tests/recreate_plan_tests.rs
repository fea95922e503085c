use agentkernel::recreate_plan::{
    check_import_network, import_name, import_step_failure, import_steps, invalid_restore_name_message,
    restore_name, restore_step_failure, restore_steps, snapshot_not_found_message, ImportShape, ImportStep,
    RecreateFailure, RestoreStep,
};

#[test]
fn import_name_prefers_path_then_body_then_config() {
    assert_eq!(import_name(Some(" from-path "), Some("from-body"), "from-config"), "from-path");
    assert_eq!(import_name(None, Some("\tfrom-body\n"), "from-config"), "from-body");
    assert_eq!(import_name(None, None, "  from-config"), "from-config");
}

#[test]
fn import_network_needs_a_bridge_backend() {
    assert_eq!(check_import_network(false, false), Ok(()));
    assert_eq!(check_import_network(true, true), Ok(()));
    assert_eq!(
        check_import_network(true, false),
        Err((
            422,
            "Managed bridge networking is supported only by Docker and Podman backends".to_string()
        ))
    );
}

#[test]
fn import_steps_follow_the_configuration() {
    let all = ImportShape { owner_tracked: true, has_init_script: true, has_managed_network: true };
    assert_eq!(
        import_steps(all),
        vec![
            ImportStep::Create,
            ImportStep::SetOwnerMetadata,
            ImportStep::SetInitScript,
            ImportStep::SetManagedNetwork,
            ImportStep::Start
        ]
    );
    let bare = ImportShape { owner_tracked: false, has_init_script: false, has_managed_network: false };
    assert_eq!(import_steps(bare), vec![ImportStep::Create, ImportStep::Start]);
}

#[test]
fn import_failures_remove_the_sandbox_once_it_exists() {
    assert_eq!(
        import_step_failure(ImportStep::Create, "no space"),
        RecreateFailure::Fail(500, "Failed to create sandbox from config: no space".to_string())
    );
    assert_eq!(
        import_step_failure(ImportStep::SetOwnerMetadata, "io"),
        RecreateFailure::RemoveAndFail(500, "Failed to persist imported sandbox ownership: io".to_string())
    );
    assert_eq!(
        import_step_failure(ImportStep::SetInitScript, "io"),
        RecreateFailure::RemoveAndFail(500, "Failed to set init script: io".to_string())
    );
    assert_eq!(
        import_step_failure(ImportStep::SetManagedNetwork, "io"),
        RecreateFailure::RemoveAndFail(500, "Failed to set managed network: io".to_string())
    );
    assert_eq!(
        import_step_failure(ImportStep::Start, "boot"),
        RecreateFailure::RemoveAndFail(500, "Failed to start sandbox from config: boot".to_string())
    );
}

#[test]
fn restore_name_defaults_to_the_snapshot_sandbox() {
    assert_eq!(restore_name(None, "web"), "web-restored");
    assert_eq!(restore_name(Some("copy"), "web"), "copy");
}

#[test]
fn restore_messages() {
    assert_eq!(snapshot_not_found_message("snap1"), "Snapshot 'snap1' not found");
    assert_eq!(invalid_restore_name_message("too long"), "Invalid restore name: too long");
}

#[test]
fn restore_steps_and_failures() {
    assert_eq!(
        restore_steps(true, true),
        vec![
            RestoreStep::SetOwnerMetadata,
            RestoreStep::SetWorkDir,
            RestoreStep::SetConfigPath,
            RestoreStep::SetRemoteSnapshot
        ]
    );
    assert_eq!(restore_steps(false, false), vec![RestoreStep::SetWorkDir, RestoreStep::SetConfigPath]);
    assert_eq!(
        restore_step_failure(RestoreStep::SetOwnerMetadata, "io"),
        RecreateFailure::RemoveAndFail(500, "Failed to persist restored sandbox ownership: io".to_string())
    );
    assert_eq!(
        restore_step_failure(RestoreStep::SetWorkDir, "io"),
        RecreateFailure::Fail(500, "io".to_string())
    );
}
