use agentkernel::http_api::{
    bearer_token, check_body_size, check_content_length, identity_for_token, key_is_configured,
    llm_pagination_value, llm_query_value, llm_usage_visible, owner_access_allowed, parse_git_status,
    query_param, quota_org, sandbox_access_allowed, start_request_owner_id, trusted_owner_identity,
    trusted_tenant_for_sandbox, BodyError, QueryError,
};
use agentkernel::identity::{AgentIdentity, JwtClaims, JwtError};

fn claims(sub: &str, org: &str, roles: &[&str]) -> JwtClaims {
    JwtClaims {
        sub: sub.to_string(),
        email: format!("{sub}@example.com"),
        org_id: org.to_string(),
        roles: roles.iter().map(|r| r.to_string()).collect(),
        mfa_verified: false,
        exp: None,
        iat: None,
    }
}

#[test]
fn test_parse_git_status_matches_daytona_shape() {
    let status = parse_git_status(
        "## feature/api...origin/feature/api [ahead 2, behind 1]\n M src/lib.rs\nA  added.txt\n?? untracked.txt\nR  old.txt -> new.txt\n",
    );
    assert_eq!(status.current_branch, "feature/api");
    assert_eq!(status.upstream.as_deref(), Some("origin/feature/api"));
    assert_eq!(status.ahead, 2);
    assert_eq!(status.behind, 1);
    assert!(status.branch_published);
    assert!(!status.detached);
    assert_eq!(status.file_status.len(), 4);
    assert_eq!(status.file_status[0].name, "src/lib.rs");
    assert_eq!(status.file_status[0].worktree, "Modified");
    assert_eq!(status.file_status[1].staging, "Added");
    assert_eq!(status.file_status[2].worktree, "Untracked");
    assert_eq!(status.file_status[3].name, "new.txt");
    assert_eq!(status.file_status[3].extra, "old.txt");
}

#[test]
fn test_parse_git_status_detached_head() {
    let status = parse_git_status("## HEAD (no branch)\n?? notes.txt\n");
    assert!(status.detached);
    assert!(status.current_branch.is_empty());
    assert!(!status.branch_published);
}

#[test]
fn git_status_edge_cases() {
    let unborn = parse_git_status("## No commits yet on main\n");
    assert_eq!(unborn.current_branch, "main");
    assert!(unborn.upstream.is_none());
    assert!(unborn.file_status.is_empty());

    let plain = parse_git_status(" M a\nxy\n");
    assert_eq!(plain.current_branch, "");
    assert_eq!(plain.file_status.len(), 1);
    assert_eq!(plain.file_status[0].staging, "Unmodified");

    let counts = parse_git_status("## main...origin/main [behind 7]\n");
    assert_eq!((counts.ahead, counts.behind), (0, 7));
    let bad = parse_git_status("## main...origin/main [ahead x, behind +3]\n");
    assert_eq!((bad.ahead, bad.behind), (0, 3));
}

#[test]
fn test_git_query_path_is_percent_decoded_and_strict() {
    assert_eq!(query_param("path=%2Fworkspace%2Frepo", "path").unwrap(), "/workspace/repo");
    assert!(query_param("path=%2Fworkspace&extra=x", "path").is_err());
    assert!(query_param("path=%2Fworkspace&path=%2Frepo", "path").is_err());
    assert!(query_param("", "path").is_err());
}

#[test]
fn query_errors_are_specific() {
    assert_eq!(query_param("path", "path"), Err(QueryError::Invalid));
    assert_eq!(query_param("path=%FF", "path"), Err(QueryError::Encoding));
    let e = query_param("path=a&extra=x", "path").unwrap_err();
    assert_eq!(e.message(), "Unsupported query parameter 'extra'; only 'path' is accepted");
    let e = query_param("path=a&path=b", "path").unwrap_err();
    assert_eq!(e.message(), "Query parameter 'path' may only be specified once");
    assert_eq!(query_param("&&", "path").unwrap_err().message(), "Query parameter 'path' is required");
    assert_eq!(query_param("&path=a+b%20c&", "path").unwrap(), "a+b c");
    assert_eq!(query_param("path=%zz", "path").unwrap(), "%zz");
}

#[test]
fn llm_query_values_take_the_first_match() {
    assert_eq!(llm_query_value(Some("limit=10&offset=5"), "offset").as_deref(), Some("5"));
    assert_eq!(llm_query_value(Some("a=1&a=2"), "a").as_deref(), Some("1"));
    assert_eq!(llm_query_value(Some("flag&x=1"), "flag").as_deref(), Some(""));
    assert_eq!(llm_query_value(Some("q=%41%42"), "q").as_deref(), Some("AB"));
    assert_eq!(llm_query_value(Some("q=%FF"), "q").as_deref(), Some("%FF"));
    assert!(llm_query_value(Some("a=1"), "b").is_none());
    assert!(llm_query_value(None, "a").is_none());
}

#[test]
fn llm_pagination_is_bounded() {
    assert_eq!(llm_pagination_value(None, "limit", 50, 500), Ok(50));
    assert_eq!(llm_pagination_value(Some("limit=20"), "limit", 50, 500), Ok(20));
    assert_eq!(
        llm_pagination_value(Some("limit=0"), "limit", 50, 500),
        Err("limit must be between 1 and 500".to_string())
    );
    assert_eq!(
        llm_pagination_value(Some("limit=501"), "limit", 50, 500),
        Err("limit must be between 1 and 500".to_string())
    );
    assert_eq!(llm_pagination_value(Some("offset=0"), "offset", 0, 1000), Ok(0));
    assert_eq!(
        llm_pagination_value(Some("offset=1001"), "offset", 0, 1000),
        Err("offset must be at most 1000".to_string())
    );
    assert_eq!(
        llm_pagination_value(Some("offset=-1"), "offset", 0, 1000),
        Err("offset must be a non-negative integer".to_string())
    );
}

#[test]
fn llm_usage_visibility() {
    assert!(llm_usage_visible(Some(("t", "u")), "t", "u", false));
    assert!(!llm_usage_visible(Some(("t", "u")), "t", "v", false));
    assert!(llm_usage_visible(Some(("t", "u")), "t", "v", true));
    assert!(!llm_usage_visible(Some(("t", "u")), "s", "u", true));
    assert!(!llm_usage_visible(None, "t", "u", true));
}

#[test]
fn content_length_is_checked_before_reading() {
    assert_eq!(check_content_length(None), Ok(()));
    assert_eq!(check_content_length(Some(Some("1024"))), Ok(()));
    assert_eq!(check_content_length(Some(Some("16777216"))), Ok(()));
    assert_eq!(check_content_length(Some(Some("16777217"))), Err(BodyError::TooLarge));
    assert_eq!(check_content_length(Some(Some("abc"))), Err(BodyError::InvalidContentLength));
    assert_eq!(check_content_length(Some(None)), Err(BodyError::InvalidContentLength));
    assert_eq!(check_body_size(16_777_217), Err(BodyError::TooLarge));
    assert_eq!(BodyError::TooLarge.message(), "Request body exceeds the maximum size of 16777216 bytes");
    assert_eq!(BodyError::TooLarge.status(), 413);
    assert_eq!(BodyError::InvalidContentLength.message(), "Invalid Content-Length header");
    assert_eq!(BodyError::InvalidContentLength.status(), 400);
}

#[test]
fn bearer_tokens_and_identities() {
    assert_eq!(bearer_token(Some("Bearer abc")), Some("abc"));
    assert_eq!(bearer_token(Some("Basic abc")), None);
    assert_eq!(bearer_token(None), None);
    let keys = vec!["secret-key".to_string()];
    assert!(key_is_configured(&keys, "secret-key"));
    assert!(!key_is_configured(&keys, "secret-kez"));

    let raw = identity_for_token("tok", None, &keys);
    assert_eq!(raw.api_key.as_deref(), Some("tok"));
    let jwt = identity_for_token("tok", Some(Ok(claims("u1", "org", &[]))), &keys);
    assert_eq!(jwt.subject(), Some("u1"));
    let fallback = identity_for_token("secret-key", Some(Err(JwtError::MissingKid)), &keys);
    assert_eq!(fallback.api_key.as_deref(), Some("secret-key"));
    let anon = identity_for_token("nope", Some(Err(JwtError::MissingKid)), &keys);
    assert!(!anon.is_authenticated());
}

#[test]
fn trusted_owners_come_from_validated_credentials() {
    let keys = vec!["secret-key".to_string()];
    let jwt = AgentIdentity::from_jwt(claims("user-1", "acme", &[]));
    assert_eq!(
        trusted_owner_identity(&jwt, Some("cfg"), &keys),
        Some(("acme".to_string(), "user-1".to_string()))
    );
    let no_org = AgentIdentity::from_jwt(claims("user-1", "  ", &[]));
    assert_eq!(
        trusted_owner_identity(&no_org, None, &keys),
        Some(("local".to_string(), "user-1".to_string()))
    );
    let key = AgentIdentity::from_api_key("secret-key".to_string());
    let (tenant, user) = trusted_owner_identity(&key, Some("cfg"), &keys).unwrap();
    assert_eq!(tenant, "cfg");
    assert!(user.starts_with("api-key:"));
    assert_eq!(user.len(), "api-key:".len() + 64);
    assert!(trusted_owner_identity(&AgentIdentity::from_api_key("guess".to_string()), None, &keys).is_none());
    assert!(trusted_owner_identity(&AgentIdentity::anonymous(), None, &keys).is_none());

    assert_eq!(trusted_tenant_for_sandbox(&AgentIdentity::from_jwt(claims("u", " acme ", &[])), None, &keys).as_deref(), Some("acme"));
    assert_eq!(trusted_tenant_for_sandbox(&key, Some("cfg"), &keys).as_deref(), Some("cfg"));
    assert_eq!(trusted_tenant_for_sandbox(&key, Some(" "), &keys), None);
    assert_eq!(trusted_tenant_for_sandbox(&AgentIdentity::from_api_key("guess".to_string()), Some("cfg"), &keys), None);

    assert_eq!(quota_org(&jwt, Some("cfg")), "acme");
    assert_eq!(quota_org(&key, Some("cfg")), "cfg");
    assert_eq!(quota_org(&key, None), "default");
}

#[test]
fn sandbox_access_is_owner_scoped_and_admin_can_cross_owners() {
    let user = AgentIdentity::from_jwt(claims("alice", "acme", &[]));
    let admin = AgentIdentity::from_jwt(claims("root", "ops", &["admin"]));
    assert!(owner_access_allowed(&user, Some("alice"), Some("acme"), "alice", "acme"));
    assert!(!owner_access_allowed(&user, Some("bob"), Some("acme"), "alice", "acme"));
    assert!(!owner_access_allowed(&user, Some("alice"), None, "alice", "acme"));
    assert!(owner_access_allowed(&admin, Some("bob"), Some("acme"), "root", "ops"));

    // Unowned state: any trusted principal, or anonymous without auth.
    assert!(sandbox_access_allowed(&user, None, None, true, true, "alice", "acme"));
    assert!(!sandbox_access_allowed(&AgentIdentity::anonymous(), None, None, false, true, "anonymous", "default"));
    assert!(sandbox_access_allowed(&AgentIdentity::anonymous(), None, None, false, false, "anonymous", "default"));
    assert!(!sandbox_access_allowed(&user, Some("bob"), Some("acme"), true, true, "alice", "acme"));
}

#[test]
fn start_owner_ids() {
    assert_eq!(start_request_owner_id(None), "anonymous");
    assert_eq!(start_request_owner_id(Some("")), "anonymous");
    let id = start_request_owner_id(Some("token"));
    assert!(id.starts_with("api-key:"));
    assert_ne!(id, start_request_owner_id(Some("token2")));
}

use agentkernel::http_api::{
    backend_discovery, parse_backend_selection, sandbox_status, validate_backend_volume_support,
    BackendReadiness,
};

fn readiness(backend: &str, configured: bool, usable: bool, reason: &str) -> BackendReadiness {
    BackendReadiness { backend: backend.to_string(), configured, usable, reason: reason.to_string() }
}

#[test]
fn test_backend_discovery_reports_configured_and_usable_readiness() {
    let all = vec![
        readiness("docker", true, true, "docker daemon reachable"),
        readiness("firecracker", false, false, "KVM unavailable"),
    ];
    let discovery = backend_discovery(Some("docker"), &all);
    let docker = discovery.backends.iter().find(|backend| backend.backend == "docker").unwrap();
    let expected = &all[0];

    assert_eq!(docker.configured, expected.configured);
    assert_eq!(docker.usable, expected.usable);
    assert_eq!(docker.readiness_reason, expected.reason);
    assert!(!docker.usable || docker.configured);
    assert_eq!(discovery.default_backend.as_deref(), Some("docker"));
    assert_eq!(discovery.backends.len(), 2);
    assert_eq!(discovery.backends[1].readiness_reason, "KVM unavailable");
    assert!(backend_discovery(None, &all).default_backend.is_none());
}

#[test]
fn test_create_request_rejects_unsupported_backend_volumes() {
    let error = validate_backend_volume_support("firecracker", false, &vec!["cache:/cache".to_string()]).unwrap_err();
    assert!(error.contains("does not support host volume mounts"));
    assert_eq!(error, "Backend 'firecracker' does not support host volume mounts");
    assert!(validate_backend_volume_support("docker", true, &vec![]).is_ok());
    assert!(validate_backend_volume_support("docker", true, &vec!["cache:/cache".to_string()]).is_ok());
    assert!(validate_backend_volume_support("firecracker", false, &vec![]).is_ok());
}

#[test]
fn backend_selection_is_optional_and_normalized() {
    let known: Vec<String> = ["docker", "podman", "firecracker"].iter().map(|s| s.to_string()).collect();
    assert_eq!(parse_backend_selection(None, &known), Ok(None));
    assert_eq!(parse_backend_selection(Some("   "), &known), Ok(None));
    assert_eq!(parse_backend_selection(Some("Automatic"), &known), Ok(None));
    assert_eq!(parse_backend_selection(Some(" AUTO "), &known), Ok(None));
    assert_eq!(parse_backend_selection(Some(" docker "), &known), Ok(Some("docker".to_string())));
    assert_eq!(parse_backend_selection(Some(" FIRECRACKER "), &known), Ok(Some("firecracker".to_string())));
    assert!(parse_backend_selection(Some("not-a-backend"), &known).is_err());
    assert_eq!(parse_backend_selection(Some("autox"), &known), Err("autox".to_string()));
}

#[test]
fn sandbox_status_defaults() {
    assert_eq!(sandbox_status(Some("paused"), true), "paused");
    assert_eq!(sandbox_status(None, true), "running");
    assert_eq!(sandbox_status(None, false), "stopped");
}

use agentkernel::http_api::{
    git_command_error, injected_start_files, persisted_start_files, sandbox_lifecycle_error, FileInjection,
    StartFileInjectionRequest,
};

#[test]
fn lifecycle_errors_map_to_statuses() {
    let (status, text) = sandbox_lifecycle_error("pause", "Sandbox 'x' NOT FOUND");
    assert_eq!(status, 404);
    assert_eq!(text, "Failed to pause sandbox: Sandbox 'x' NOT FOUND");
    assert_eq!(sandbox_lifecycle_error("fork", "backend does not support fork").0, 422);
    assert_eq!(sandbox_lifecycle_error("fork", "Requires Firecracker").0, 422);
    assert_eq!(sandbox_lifecycle_error("resume", "sandbox is not paused").0, 409);
    assert_eq!(sandbox_lifecycle_error("stop", "Refusing to stop: checkpoint pending").0, 409);
    assert_eq!(sandbox_lifecycle_error("stop", "disk full").0, 500);
}

#[test]
fn git_errors_name_the_operation() {
    assert_eq!(git_command_error("push", Ok((1, "  rejected\n"))), "git push failed (exit code 1): rejected");
    assert_eq!(git_command_error("pull", Ok((-2, ""))), "git pull failed (exit code -2): ");
    assert_eq!(git_command_error("status", Err("sandbox unreachable")), "git status failed: sandbox unreachable");
}

#[test]
fn start_files_round_trip_through_base64() {
    let files = vec![
        FileInjection { dest: "/etc/app.conf".to_string(), content: b"key=value\n".to_vec() },
        FileInjection { dest: "/bin/blob".to_string(), content: vec![0, 255, 128, 7] },
    ];
    let persisted = persisted_start_files(&files);
    assert_eq!(persisted[0].content_base64, "a2V5PXZhbHVlCg==");
    assert_eq!(persisted[1].dest, "/bin/blob");
    let back = injected_start_files(&persisted).unwrap();
    assert_eq!(back.len(), 2);
    assert_eq!(back[0].content, b"key=value\n".to_vec());
    assert_eq!(back[1].content, vec![0, 255, 128, 7]);

    let bad = vec![
        StartFileInjectionRequest { dest: "/ok".to_string(), content_base64: "AA==".to_string() },
        StartFileInjectionRequest { dest: "/bad".to_string(), content_base64: "***".to_string() },
    ];
    assert_eq!(injected_start_files(&bad).unwrap_err(), "invalid base64 content for startup file '/bad'");
}

use agentkernel::http_api::{auth_gate, path_segments, public_endpoint, sandbox_gate, AuthGate, HttpMethod, PublicEndpoint};

#[test]
fn public_endpoints_and_gates() {
    let segs = |p: &str| path_segments(p);
    assert_eq!(public_endpoint(HttpMethod::Get, &segs("/health")), Some(PublicEndpoint::Health));
    assert_eq!(public_endpoint(HttpMethod::Get, &segs("/metrics/")), Some(PublicEndpoint::Metrics));
    assert_eq!(public_endpoint(HttpMethod::Post, &segs("/health")), None);
    assert_eq!(public_endpoint(HttpMethod::Get, &segs("/sandboxes")), None);

    assert_eq!(auth_gate(true, &segs("/sandboxes"), false), AuthGate::Proceed);
    assert_eq!(auth_gate(false, &segs("/sandboxes"), true), AuthGate::Reject);
    assert_eq!(auth_gate(false, &segs("/scim/v2/Users"), true), AuthGate::ScimAuthenticationRequired);
    assert_eq!(auth_gate(true, &segs("/scim/v2/Users"), false), AuthGate::ScimAuthenticationRequired);
    assert_eq!(auth_gate(true, &segs("/scim/v2/Users"), true), AuthGate::Proceed);

    assert_eq!(sandbox_gate(HttpMethod::Get, &segs("/sandboxes/demo")).as_deref(), Some("demo"));
    assert_eq!(sandbox_gate(HttpMethod::Post, &segs("/sandboxes/demo/exec")).as_deref(), Some("demo"));
    assert_eq!(sandbox_gate(HttpMethod::Get, &segs("/sandboxes/demo/files/a/b")).as_deref(), Some("demo"));
    assert_eq!(sandbox_gate(HttpMethod::Post, &segs("/sandboxes/demo/start")), None);
    assert_eq!(sandbox_gate(HttpMethod::Post, &segs("/sandboxes/demo/config")), None);
    assert_eq!(sandbox_gate(HttpMethod::Get, &segs("/sandboxes/demo/config")).as_deref(), Some("demo"));
    assert_eq!(sandbox_gate(HttpMethod::Get, &segs("/sandboxes/by-uuid/123")), None);
    assert_eq!(sandbox_gate(HttpMethod::Post, &segs("/sandboxes/import-config")), None);
    assert_eq!(sandbox_gate(HttpMethod::Get, &segs("/sandboxes")), None);
}
