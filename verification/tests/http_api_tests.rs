use agentkernel::http_api::{
    api_key_owner_id, compute_idempotency_key, default_activity_name, default_encoding,
    default_extend_by, default_fast, default_initial_interval_ms, default_max_attempts,
    build_secret_mappings, default_max_interval_ms, default_plugin_scope, extract_secret_mappings,
    file_route_path, fork_identity_matches_source, git_file_status, image_record_name,
    is_agentkernel_image, is_retryable_error, path_segments, persisted_start_configuration_dir,
    persisted_start_configuration_path, provider_to_domain, recorded_backend, recording_path,
    reject_git_credentials, resolve_profile, valid_recording_id, validate_git_file_path,
    validate_git_path, validate_persisted_start_token, decide_start_claim, DockerImageRecord,
    GitCredentials, PersistedStartBinding, RequestError, SandboxOwnership, SecurityProfile,
    StartClaimError,
};
use agentkernel::policy::{
    Action, FORK_CHILD_POLICY_ACTIONS, FORK_SOURCE_POLICY_ACTION,
    FULL_STATE_RUNTIME_POLICY_ACTION,
};

fn segs(path: &str) -> Vec<String> {
    path_segments(path)
}

#[test]
fn full_state_http_policy_requires_run_for_runtime_transitions() {
    assert_eq!(FULL_STATE_RUNTIME_POLICY_ACTION, Action::Run);
    assert_eq!(FORK_SOURCE_POLICY_ACTION, Action::Run);
    assert_eq!(FORK_CHILD_POLICY_ACTIONS, [Action::Create, Action::Run]);
}

#[test]
fn test_recording_ids_cannot_escape_recordings_directory() {
    assert!(valid_recording_id("sandbox-20260823-120000"));
    assert!(valid_recording_id("recording.v2"));
    assert!(!valid_recording_id(""));
    assert!(!valid_recording_id("../secrets"));
    assert!(!valid_recording_id("recording/cast"));
    assert!(!valid_recording_id("%2e%2e%2fsecrets"));
    assert!(!valid_recording_id(".hidden"));
}

#[test]
fn recording_path_joins_validated_ids_only() {
    assert_eq!(
        recording_path("/home/u/.agentkernel/recordings", "session-1").unwrap(),
        "/home/u/.agentkernel/recordings/session-1.cast"
    );
    assert_eq!(recording_path("rec/", "a").unwrap(), "rec/a.cast");
    assert_eq!(recording_path("rec", "../x"), Err(RequestError::InvalidSessionId));
    assert_eq!(RequestError::InvalidSessionId.message(), "Invalid session id");
}

#[test]
fn test_default_fast_returns_true() {
    assert!(default_fast());
}

#[test]
fn request_defaults_match_the_documented_values() {
    assert_eq!(default_activity_name(), "activity");
    assert_eq!(default_max_attempts(), 3);
    assert_eq!(default_initial_interval_ms(), 1000);
    assert_eq!(default_max_interval_ms(), 30_000);
    assert_eq!(default_extend_by(), "1h");
    assert_eq!(default_plugin_scope(), "project");
}

#[test]
fn test_agentkernel_image_match_is_anchored() {
    let managed = DockerImageRecord {
        id: "sha256:managed".to_string(),
        repository: "agentkernel-my-project".to_string(),
        tag: "latest".to_string(),
    };
    let snapshot = DockerImageRecord {
        id: "sha256:snapshot".to_string(),
        repository: "agentkernel-snap".to_string(),
        tag: "checkpoint".to_string(),
    };
    let unrelated = DockerImageRecord {
        id: "sha256:unrelated".to_string(),
        repository: "my-agentkernel-tools".to_string(),
        tag: "latest".to_string(),
    };
    assert!(is_agentkernel_image(&managed));
    assert!(is_agentkernel_image(&snapshot));
    assert!(!is_agentkernel_image(&unrelated));
}

#[test]
fn image_record_names() {
    let tagged = DockerImageRecord {
        id: "sha256:1".to_string(),
        repository: "agentkernel".to_string(),
        tag: "v1".to_string(),
    };
    let untagged = DockerImageRecord {
        id: "sha256:2".to_string(),
        repository: "<none>".to_string(),
        tag: "<none>".to_string(),
    };
    assert!(is_agentkernel_image(&tagged));
    assert_eq!(image_record_name(&tagged), "agentkernel:v1");
    assert_eq!(image_record_name(&untagged), "sha256:2");
}

#[test]
fn test_path_segments_parsing() {
    assert_eq!(segs("/sandboxes/my-sandbox/exec"), vec!["sandboxes", "my-sandbox", "exec"]);
}

#[test]
fn test_path_segments_health() {
    assert_eq!(segs("/health"), vec!["health"]);
}

#[test]
fn test_path_segments_run() {
    assert_eq!(segs("/run"), vec!["run"]);
}

#[test]
fn test_path_segments_sandboxes() {
    assert_eq!(segs("/sandboxes"), vec!["sandboxes"]);
}

#[test]
fn test_path_segments_sandbox_by_name() {
    assert_eq!(segs("/sandboxes/test-123"), vec!["sandboxes", "test-123"]);
}

#[test]
fn test_path_segments_sandbox_by_uuid() {
    assert_eq!(
        segs("/sandboxes/by-uuid/019abc12-1234-7def-89ab-0123456789ab"),
        vec!["sandboxes", "by-uuid", "019abc12-1234-7def-89ab-0123456789ab"]
    );
}

#[test]
fn test_path_segments_orchestration_events() {
    assert_eq!(segs("/orchestrations/orch-1/events"), vec!["orchestrations", "orch-1", "events"]);
}

#[test]
fn test_path_segments_orchestration_terminate() {
    assert_eq!(
        segs("/orchestrations/orch-1/terminate"),
        vec!["orchestrations", "orch-1", "terminate"]
    );
}

#[test]
fn test_path_segments_orchestration_definitions() {
    assert_eq!(segs("/orchestrations/definitions"), vec!["orchestrations", "definitions"]);
}

#[test]
fn test_path_segments_orchestration_definition_by_name() {
    assert_eq!(
        segs("/orchestrations/definitions/deploy-pipeline"),
        vec!["orchestrations", "definitions", "deploy-pipeline"]
    );
}

#[test]
fn test_path_segments_stores() {
    assert_eq!(segs("/stores"), vec!["stores"]);
}

#[test]
fn test_path_segments_store_id() {
    assert_eq!(segs("/stores/store-1"), vec!["stores", "store-1"]);
}

#[test]
fn test_path_segments_store_query() {
    assert_eq!(segs("/stores/store-1/query"), vec!["stores", "store-1", "query"]);
}

#[test]
fn test_path_segments_store_command() {
    assert_eq!(segs("/stores/store-1/command"), vec!["stores", "store-1", "command"]);
}

#[test]
fn test_path_segments_file_simple() {
    let segments = segs("/sandboxes/my-box/files/tmp/hello.txt");
    assert_eq!(segments, vec!["sandboxes", "my-box", "files", "tmp", "hello.txt"]);
    let file_path = file_route_path(&segments);
    assert_eq!(file_path, "tmp/hello.txt");
}

#[test]
fn test_path_segments_file_nested() {
    let segments = segs("/sandboxes/dev/files/home/user/projects/src/main.rs");
    let file_path = file_route_path(&segments);
    assert_eq!(file_path, "home/user/projects/src/main.rs");
}

#[test]
fn test_path_segments_batch_run() {
    assert_eq!(segs("/batch/run"), vec!["batch", "run"]);
}

#[test]
fn test_path_segments_sandbox_logs() {
    assert_eq!(segs("/sandboxes/my-sandbox/logs"), vec!["sandboxes", "my-sandbox", "logs"]);
}

#[test]
fn path_segments_drop_empty_pieces() {
    assert!(segs("/").is_empty());
    assert!(segs("").is_empty());
    assert_eq!(segs("//a///b/"), vec!["a", "b"]);
}

#[test]
fn test_default_encoding_returns_utf8() {
    assert_eq!(default_encoding(), "utf8");
}

#[derive(Debug, Clone, Copy, PartialEq, Eq)]
enum BackendType {
    Docker,
    Podman,
}

#[test]
fn test_recorded_backend_wins_over_server_default() {
    assert_eq!(
        recorded_backend(Some(BackendType::Podman), BackendType::Docker),
        BackendType::Podman
    );
    assert_eq!(recorded_backend(None, BackendType::Docker), BackendType::Docker);
}

#[test]
fn test_resolve_profile_permissive() {
    let profile = resolve_profile("permissive");
    assert!(profile.is_some());
}

#[test]
fn test_resolve_profile_moderate() {
    let profile = resolve_profile("moderate");
    assert!(profile.is_some());
}

#[test]
fn test_resolve_profile_restrictive() {
    let profile = resolve_profile("restrictive");
    assert!(profile.is_some());
}

#[test]
fn test_resolve_profile_unknown() {
    let profile = resolve_profile("nonexistent");
    assert!(profile.is_none());
}

#[test]
fn resolve_profile_ignores_case() {
    assert_eq!(resolve_profile("MODERATE"), Some(SecurityProfile::Moderate));
    assert_eq!(resolve_profile("Restrictive"), Some(SecurityProfile::Restrictive));
    assert_eq!(resolve_profile("permissive "), None);
}

#[test]
fn test_validate_git_path_resolves_daytona_relative_paths() {
    assert_eq!(validate_git_path("workspace/repo").unwrap(), "/workspace/repo");
    assert_eq!(validate_git_path("./repo").unwrap(), "/workspace/repo");
    assert_eq!(validate_git_path("/workspace/repo").unwrap(), "/workspace/repo");
    assert!(validate_git_path("../outside").is_err());
    assert!(validate_git_path("/workspace/../etc").is_err());
    assert!(validate_git_path("-repo").is_err());
}

#[test]
fn git_path_edge_cases() {
    assert_eq!(validate_git_path(""), Err(RequestError::GitPathRequired));
    assert_eq!(validate_git_path("."), Ok("/workspace".to_string()));
    assert_eq!(validate_git_path("./"), Ok("/workspace".to_string()));
    assert_eq!(validate_git_path("workspace/"), Ok("/workspace".to_string()));
    assert_eq!(validate_git_path("repo///"), Ok("/workspace/repo".to_string()));
    assert_eq!(validate_git_path(".//etc"), Err(RequestError::GitPathParentReference));
    assert_eq!(validate_git_path("a\\b"), Err(RequestError::GitPathInvalidCharacters));
    assert_eq!(validate_git_path(&"a".repeat(1025)), Err(RequestError::GitPathTooLong));
    assert_eq!(validate_git_path("-x"), Err(RequestError::GitPathLeadingDash));
}

#[test]
fn test_validate_git_file_path_rejects_option_and_traversal() {
    assert!(validate_git_file_path("src/main.rs").is_ok());
    assert!(validate_git_file_path(".").is_ok());
    assert!(validate_git_file_path("--cached").is_err());
    assert!(validate_git_file_path("../secret").is_err());
    assert!(validate_git_file_path("/absolute/file").is_err());
}

#[test]
fn git_file_path_errors_are_specific() {
    assert_eq!(validate_git_file_path(""), Err(RequestError::GitFilePathEmpty));
    assert_eq!(validate_git_file_path("a\nb"), Err(RequestError::GitFilePathInvalidCharacters));
    assert_eq!(validate_git_file_path("a/../b"), Err(RequestError::GitFilePathParentReference));
    assert_eq!(validate_git_file_path("a/..b"), Ok(()));
}

#[test]
fn git_status_letters() {
    assert_eq!(git_file_status(b'M'), "Modified");
    assert_eq!(git_file_status(b'?'), "Untracked");
    assert_eq!(git_file_status(b'U'), "Updated but unmerged");
    assert_eq!(git_file_status(b' '), "Unmodified");
}

#[test]
fn git_credentials_are_refused() {
    let none = GitCredentials { username: None, password: Some(String::new()) };
    assert!(reject_git_credentials(&none).is_ok());
    let user = GitCredentials { username: Some("me".to_string()), password: None };
    assert_eq!(reject_git_credentials(&user), Err(RequestError::GitCredentialsUnsupported));
}

#[test]
fn start_tokens_are_lowercase_hex_of_fixed_length() {
    let token = "0123456789abcdef".repeat(4);
    assert!(validate_persisted_start_token(&token).is_ok());
    assert!(validate_persisted_start_token(&token.to_uppercase()).is_err());
    assert!(validate_persisted_start_token(&token[..63]).is_err());
    assert_eq!(
        persisted_start_configuration_path("/data", &token).unwrap(),
        format!("/data/delegated-start/{token}.json")
    );
    assert!(persisted_start_configuration_path("/data", "../../etc/passwd").is_err());
    assert_eq!(persisted_start_configuration_dir("/data/"), "/data/delegated-start");
}

#[test]
fn api_key_owner_is_a_sha256_fingerprint() {
    assert_eq!(
        api_key_owner_id("secret"),
        "api-key:2bb80d537b1da3e38bd30361aa855686bde0eacd7162fef6a25fe97bf527a25b"
    );
}

#[test]
fn idempotency_key_is_stable() {
    let a = compute_idempotency_key("orch-1", "activity", 1);
    let b = compute_idempotency_key("orch-1", "activity", 1);
    assert_eq!(a, b);
    assert_ne!(a, compute_idempotency_key("orch-1", "activity", 2));
    assert_eq!(
        compute_idempotency_key("o", "a", -5),
        "e3502b4af2c27d557dfc0139a5051f97643795c3095c2fa1747b6189f619e7e4"
    );
}

#[test]
fn retryable_errors() {
    let markers = vec!["quota".to_string(), String::new()];
    assert!(!is_retryable_error("quota exceeded", &markers));
    assert!(is_retryable_error("timeout", &markers));
    assert!(is_retryable_error("anything", &Vec::new()));
}

#[test]
fn provider_domains() {
    assert_eq!(provider_to_domain("openai"), "api.openai.com");
    assert_eq!(provider_to_domain("gemini"), "generativelanguage.googleapis.com");
    assert_eq!(provider_to_domain("example.org"), "example.org");
}

#[test]
fn fork_identity_must_match_all_owner_fields() {
    let source = SandboxOwnership {
        tenant_id: Some("t".to_string()),
        owner_user_id: Some("u".to_string()),
        owner_org_id: None,
    };
    assert!(fork_identity_matches_source(&source, Some("t"), Some("u"), None));
    assert!(!fork_identity_matches_source(&source, Some("t"), Some("u"), Some("o")));
    assert!(!fork_identity_matches_source(&source, None, Some("u"), None));
}

fn binding(name: &str, owner: Option<&str>) -> PersistedStartBinding {
    PersistedStartBinding {
        sandbox_name: name.to_string(),
        sandbox_uuid: "uuid-1".to_string(),
        tenant_id: None,
        owner_user_id: owner.map(str::to_string),
        owner_org_id: None,
    }
}

#[test]
fn start_claims_are_bound_to_generation_and_owner() {
    let stored = binding("demo", Some("u"));
    assert_eq!(
        decide_start_claim(Some(false), &stored, "anonymous", &binding("demo", Some("u")), "anonymous"),
        Ok(())
    );
    assert_eq!(
        decide_start_claim(Some(false), &stored, "anonymous", &binding("demo", Some("x")), "anonymous"),
        Err(StartClaimError::WrongBinding)
    );
    assert_eq!(
        decide_start_claim(Some(false), &stored, "anonymous", &binding("demo", Some("u")), "other"),
        Err(StartClaimError::WrongBinding)
    );
    assert_eq!(
        decide_start_claim(Some(true), &stored, "a", &binding("demo", Some("u")), "a"),
        Err(StartClaimError::Expired)
    );
    assert_eq!(
        decide_start_claim(None, &stored, "a", &binding("demo", Some("u")), "a"),
        Err(StartClaimError::InvalidExpiration)
    );
}

#[test]
fn secret_mappings_drop_values() {
    let bindings = vec![
        "API_KEY=sk-123:api.openai.com".to_string(),
        "BROKEN".to_string(),
        "TOKEN=a:b:host.example".to_string(),
        "NOHOST=value".to_string(),
    ];
    let mappings = extract_secret_mappings(&bindings);
    assert_eq!(
        mappings,
        vec![
            ("API_KEY".to_string(), "api.openai.com".to_string()),
            ("TOKEN".to_string(), "host.example".to_string()),
        ]
    );
}

#[test]
fn bound_secrets_override_persisted_mappings() {
    let persisted = vec![
        ("API_KEY".to_string(), "old.example".to_string()),
        ("DB".to_string(), "db.local".to_string()),
    ];
    let bindings = vec![
        "API_KEY=secret:api.example.com".to_string(),
        "malformed".to_string(),
        "TOKEN=x:y:host".to_string(),
        "TOKEN=z:other".to_string(),
    ];
    let merged = build_secret_mappings(&persisted, &bindings);
    assert_eq!(
        merged,
        vec![
            ("API_KEY".to_string(), "api.example.com".to_string()),
            ("DB".to_string(), "db.local".to_string()),
            ("TOKEN".to_string(), "other".to_string()),
        ]
    );
    assert!(build_secret_mappings(&Vec::new(), &Vec::new()).is_empty());
}
