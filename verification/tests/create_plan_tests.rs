use agentkernel::create_plan::{
    check_create_request, clone_url, create_image, create_resources, create_step_outcome, create_steps,
    git_checkout_command, git_clone_command, git_install_command, CreateShape, CreateStep, StepOutcome,
};

fn bare() -> CreateShape {
    CreateShape {
        volumes: false,
        network: false,
        config_path: false,
        owner: false,
        secrets: false,
        secret_mappings: false,
        secret_files: false,
        placeholder_secrets: false,
        init_script: false,
        template_metadata: false,
        labels: false,
        description: false,
        lifecycle: false,
        profile: false,
        source_url: false,
        source_ref: false,
    }
}

#[test]
fn creation_defaults() {
    assert_eq!(create_image(None), "alpine:3.24");
    assert_eq!(create_image(Some("python:3.12")), "python:3.12");
    assert_eq!(create_resources(None, None), (1, 512));
    assert_eq!(create_resources(Some(4), Some(2048)), (4, 2048));
}

#[test]
fn creation_request_checks() {
    assert_eq!(
        check_create_request(true, false, false, false),
        Err((403, "LLM model governance requires a validated tenant identity for sandbox creation".to_string()))
    );
    assert_eq!(check_create_request(true, true, false, false), Ok(()));
    assert_eq!(
        check_create_request(false, false, false, true),
        Err((400, "source_ref requires source_url".to_string()))
    );
    assert_eq!(check_create_request(false, false, true, true), Ok(()));
}

#[test]
fn bare_creation_sets_ownership_and_starts() {
    assert_eq!(
        create_steps(bare()),
        vec![CreateStep::SetTenant, CreateStep::SetOwnerMetadata, CreateStep::Start]
    );
}

#[test]
fn full_creation_runs_every_step_in_order() {
    let mut all = bare();
    all.volumes = true;
    all.network = true;
    all.config_path = true;
    all.owner = true;
    all.secrets = true;
    all.secret_mappings = true;
    all.secret_files = true;
    all.placeholder_secrets = true;
    all.init_script = true;
    all.template_metadata = true;
    all.labels = true;
    all.description = true;
    all.lifecycle = true;
    all.profile = true;
    all.source_url = true;
    all.source_ref = true;
    let steps = create_steps(all);
    assert_eq!(steps.len(), 20);
    assert_eq!(steps[0], CreateStep::SetVolumes);
    assert_eq!(steps[15], CreateStep::CheckProfile);
    assert_eq!(steps[16], CreateStep::Start);
    assert_eq!(steps[19], CreateStep::CheckoutRef);

    let mut no_url = bare();
    no_url.source_ref = true;
    assert!(!create_steps(no_url).contains(&CreateStep::CheckoutRef));
}

#[test]
fn failed_steps_remove_the_sandbox() {
    assert_eq!(
        create_step_outcome(CreateStep::SetVolumes, "disk full", "", ""),
        StepOutcome::RemoveAndFail(500, "Failed to set volume mounts: disk full".to_string())
    );
    assert_eq!(
        create_step_outcome(CreateStep::SetSecretBindings, "bad", "", ""),
        StepOutcome::RemoveAndFail(400, "Invalid secret bindings: bad".to_string())
    );
    assert_eq!(
        create_step_outcome(CreateStep::CheckProfile, "paranoid", "", ""),
        StepOutcome::RemoveAndFail(400, "Invalid profile 'paranoid'. Use: permissive, moderate, restrictive".to_string())
    );
    assert_eq!(
        create_step_outcome(CreateStep::CloneSource, "exit 128", "git:https://example.com/r.git", "main"),
        StepOutcome::RemoveAndFail(500, "Failed to clone https://example.com/r.git: exit 128".to_string())
    );
    assert_eq!(
        create_step_outcome(CreateStep::CheckoutRef, "no such ref", "https://example.com/r.git", "v2"),
        StepOutcome::RemoveAndFail(500, "Failed to checkout v2: no such ref".to_string())
    );
    assert_eq!(
        create_step_outcome(CreateStep::Start, "boom", "", ""),
        StepOutcome::RemoveAndFail(500, "boom".to_string())
    );
}

#[test]
fn best_effort_steps_go_on() {
    assert_eq!(
        create_step_outcome(CreateStep::EnablePlaceholderSecrets, "nope", "", ""),
        StepOutcome::Warn("Warning: Failed to set placeholder secrets: nope".to_string())
    );
    assert_eq!(create_step_outcome(CreateStep::InstallGit, "nope", "", ""), StepOutcome::Continue);
}

#[test]
fn source_commands() {
    assert_eq!(clone_url("git:https://h/r"), "https://h/r");
    assert_eq!(clone_url("https://h/r"), "https://h/r");
    assert_eq!(git_clone_command("git:https://h/r"), vec!["git", "clone", "https://h/r", "/workspace"]);
    assert_eq!(git_checkout_command("main"), vec!["git", "-C", "/workspace", "checkout", "main"]);
    let install = git_install_command();
    assert_eq!(install[0], "sh");
    assert_eq!(install[1], "-c");
    assert!(install[2].starts_with("which git"));
}
