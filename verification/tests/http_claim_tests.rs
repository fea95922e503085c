use agentkernel::http_api::{
    api_key_owner_id, claim_unowned_local_start_sandbox, claim_unowned_start_sandbox, compute_idempotency_key,
    fork_identity_matches_source, is_retryable_error, quota_org, sandbox_access_allowed, trusted_owner_identity,
    ApiResponse, ClaimDecision, SandboxOwnership,
};
use agentkernel::identity::AgentIdentity;

#[test]
fn test_api_response_success() {
    let response = ApiResponse::success("test data");
    assert!(response.success);
    assert_eq!(response.data, Some("test data"));
    assert!(response.error.is_none());
}

#[test]
fn test_api_response_error() {
    let response = ApiResponse::<()>::error("test error");
    assert!(!response.success);
    assert!(response.data.is_none());
    assert_eq!(response.error, Some("test error".to_string()));
}

#[test]
fn test_compute_idempotency_key_is_stable() {
    let first = compute_idempotency_key("orch-1", "run-tests", 7);
    let second = compute_idempotency_key("orch-1", "run-tests", 7);
    assert_eq!(first, second);
    assert_eq!(first.len(), 64);
}

#[test]
fn test_non_retryable_error_match() {
    let markers = vec!["PermissionDenied".to_string()];
    assert!(!is_retryable_error("PermissionDenied: blocked", &markers));
    assert!(is_retryable_error("Temporary network issue", &markers));
}

#[test]
fn fork_identity_must_match_atomically_cloned_source_owner() {
    let source = SandboxOwnership {
        tenant_id: Some("tenant-a".to_string()),
        owner_user_id: Some("persisted-owner".to_string()),
        owner_org_id: Some("persisted-org".to_string()),
    };
    assert!(fork_identity_matches_source(&source, Some("tenant-a"), Some("persisted-owner"), Some("persisted-org")));
    assert!(!fork_identity_matches_source(&source, Some("tenant-b"), Some("persisted-owner"), Some("persisted-org")));
    assert!(!fork_identity_matches_source(&source, Some("tenant-a"), Some("other-owner"), Some("persisted-org")));
}

#[test]
fn trusted_local_principal_can_manage_unowned_no_start_state() {
    // Open server (no API keys): anonymous callers may manage unowned state.
    let anonymous = AgentIdentity::anonymous();
    let open_keys: Vec<String> = vec![];
    let trusted = trusted_owner_identity(&anonymous, None, &open_keys).is_some();
    assert!(sandbox_access_allowed(&anonymous, None, None, trusted, false, "anonymous", "default"));

    // Authenticated server: the configured key is trusted, anonymous is not.
    let keys = vec!["owner".to_string()];
    let owner = AgentIdentity::from_api_key("owner".to_string());
    let trusted = trusted_owner_identity(&owner, None, &keys).is_some();
    assert!(sandbox_access_allowed(&owner, None, None, trusted, true, "owner", "default"));
    let trusted = trusted_owner_identity(&anonymous, None, &keys).is_some();
    assert!(!sandbox_access_allowed(&anonymous, None, None, trusted, true, "anonymous", "default"));
}

#[test]
fn valid_start_token_claims_unowned_sandbox_after_prior_refresh_without_overwrite() {
    let keys: Vec<String> = vec![];
    let anonymous = AgentIdentity::anonymous();
    let claim = claim_unowned_start_sandbox(true, false, true, &anonymous, None, &keys, "anonymous");
    assert_eq!(claim, ClaimDecision::Assign(None, "anonymous".to_string(), "default".to_string()));
    // Owners recorded since are preserved.
    assert_eq!(claim_unowned_start_sandbox(true, true, true, &anonymous, None, &keys, "anonymous"), ClaimDecision::Keep);
}

#[test]
fn unowned_sandbox_cannot_be_claimed_without_valid_start_token() {
    let keys: Vec<String> = vec![];
    let anonymous = AgentIdentity::anonymous();
    assert_eq!(claim_unowned_start_sandbox(true, false, false, &anonymous, None, &keys, "anonymous"), ClaimDecision::Deny);
    assert_eq!(claim_unowned_start_sandbox(false, false, false, &anonymous, None, &keys, "anonymous"), ClaimDecision::Keep);
}

#[test]
fn untrusted_callers_cannot_claim() {
    let keys = vec!["owner".to_string()];
    let guess = AgentIdentity::from_api_key("guess".to_string());
    assert_eq!(claim_unowned_start_sandbox(true, false, true, &guess, None, &keys, "x"), ClaimDecision::Forbidden);
    let anonymous = AgentIdentity::anonymous();
    assert_eq!(claim_unowned_start_sandbox(true, false, true, &anonymous, None, &keys, "anonymous"), ClaimDecision::Forbidden);
}

#[test]
fn configured_org_start_claim_allows_cli_origin_fork() {
    let keys = vec!["owner".to_string()];
    let identity = AgentIdentity::from_api_key("owner".to_string());
    let quota_user = api_key_owner_id("owner");
    let claim = claim_unowned_start_sandbox(true, false, true, &identity, Some("acme"), &keys, quota_user.as_str());
    let ClaimDecision::Assign(tenant, user, org) = claim else { panic!("expected an assignment") };
    assert_eq!(tenant.as_deref(), Some("acme"));
    assert_eq!(org, quota_org(&identity, Some("acme")));
    let source = SandboxOwnership { tenant_id: tenant, owner_user_id: Some(user.clone()), owner_org_id: Some(org.clone()) };
    assert!(fork_identity_matches_source(&source, Some("acme"), Some(quota_user.as_str()), Some(org.as_str())));
}

#[test]
fn configured_api_key_start_claim_allows_cli_origin_fork() {
    let trusted_owner = ("local".to_string(), api_key_owner_id("owner"));
    let claimed = claim_unowned_local_start_sandbox(true, false, true, Some((trusted_owner.0.as_str(), trusted_owner.1.as_str())))
        .unwrap();
    let source = SandboxOwnership { tenant_id: None, owner_user_id: Some(claimed.1.clone()), owner_org_id: Some(claimed.0.clone()) };
    assert!(fork_identity_matches_source(&source, None, Some(trusted_owner.1.as_str()), Some(trusted_owner.0.as_str())));
    assert!(claim_unowned_local_start_sandbox(true, false, false, Some(("local", "u"))).is_none());
    assert!(claim_unowned_local_start_sandbox(true, true, true, Some(("local", "u"))).is_none());
    assert!(claim_unowned_local_start_sandbox(true, false, true, None).is_none());
}

#[test]
fn consuming_path_sits_beside_the_configurations() {
    assert_eq!(
        agentkernel::http_api::consuming_start_configuration_path("/data", "0190-ab"),
        "/data/delegated-start/.consuming-0190-ab"
    );
}

#[test]
fn revocation_looks_at_json_and_claimed_files() {
    assert!(agentkernel::http_api::is_start_configuration_entry("abc.json", Some("json")));
    assert!(agentkernel::http_api::is_start_configuration_entry(".consuming-0190-ab", Some("0190-ab")));
    assert!(agentkernel::http_api::is_start_configuration_entry(".consuming-x", None));
    assert!(!agentkernel::http_api::is_start_configuration_entry("notes.txt", Some("txt")));
    assert!(!agentkernel::http_api::is_start_configuration_entry("README", None));
}
