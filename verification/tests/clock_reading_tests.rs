use agentkernel::clock::rfc3339_passed_at;
use agentkernel::create_plan::{create_refusal, CreateChecks};
use agentkernel::http_api::{start_expiry_at, validate_start_binding, validate_start_binding_at, PersistedStartBinding, StartClaimError};
use agentkernel::identity::oidc::{usable_tokens_when, OidcDeviceFlow, OidcError, StoredTokens, TokenResponse};
use agentkernel::permissions::epoch_nanos;

fn binding(uuid: &str) -> PersistedStartBinding {
    PersistedStartBinding {
        sandbox_name: "demo".to_string(),
        sandbox_uuid: uuid.to_string(),
        tenant_id: None,
        owner_user_id: Some("u1".to_string()),
        owner_org_id: None,
    }
}

#[test]
fn passed_at_compares_seconds_then_nanoseconds() {
    let at = "2023-11-14T22:13:20+00:00";
    assert_eq!(rfc3339_passed_at(at, (1_700_000_000, 0)), Some(false));
    assert_eq!(rfc3339_passed_at(at, (1_700_000_000, 1)), Some(true));
    assert_eq!(rfc3339_passed_at(at, (1_699_999_999, 999_999_999)), Some(false));
    assert_eq!(rfc3339_passed_at(at, (1_700_000_300, 0)), Some(true));
    assert_eq!(rfc3339_passed_at("2023-11-14T23:13:20+01:00", (1_700_000_001, 0)), Some(true));
    assert_eq!(rfc3339_passed_at("yesterday", (1_700_000_000, 0)), None);
}

#[test]
fn start_binding_is_read_against_the_given_instant() {
    let b = binding("uuid-1");
    let at = "2023-11-14T22:18:20+00:00";
    assert_eq!(validate_start_binding_at(at, (1_700_000_000, 0), &b, "o", &b, "o"), Ok(()));
    assert_eq!(
        validate_start_binding_at(at, (1_700_000_301, 0), &b, "o", &b, "o"),
        Err(StartClaimError::Expired)
    );
    assert_eq!(
        validate_start_binding_at("soon", (1_700_000_000, 0), &b, "o", &b, "o"),
        Err(StartClaimError::InvalidExpiration)
    );
    assert_eq!(
        validate_start_binding_at(at, (1_700_000_000, 0), &b, "o", &binding("uuid-2"), "o"),
        Err(StartClaimError::WrongBinding)
    );
    assert_eq!(
        validate_start_binding("2000-01-01T00:00:00+00:00", &b, "o", &b, "o"),
        Err(StartClaimError::Expired)
    );
}

#[test]
fn start_expiry_is_five_minutes_after_the_instant() {
    assert_eq!(start_expiry_at((1_700_000_000, 0)).unwrap(), "2023-11-14T22:18:20+00:00");
    assert_eq!(start_expiry_at((1_700_000_000, 500_000_000)).unwrap(), "2023-11-14T22:18:20.500+00:00");
    assert_eq!(start_expiry_at((8_210_266_876_799, 0)), None);
}

fn stored(expires_at: Option<&str>, refresh: Option<&str>) -> StoredTokens {
    StoredTokens {
        access_token: "a".to_string(),
        id_token: None,
        refresh_token: refresh.map(|r| r.to_string()),
        expires_at: expires_at.map(|e| e.to_string()),
        issuer: "https://idp.example".to_string(),
        client_id: "cli".to_string(),
    }
}

#[test]
fn tokens_are_read_against_the_given_instant() {
    let at = Some("2023-11-14T22:13:20+00:00");
    assert!(usable_tokens_when(stored(at, None), (1_700_000_000, 0)).is_some());
    assert!(usable_tokens_when(stored(at, None), (1_700_000_001, 0)).is_none());
    assert!(usable_tokens_when(stored(at, Some("r")), (1_700_000_001, 0)).is_some());
    assert!(usable_tokens_when(stored(Some("later"), None), (1_700_000_001, 0)).is_some());
}

#[test]
fn stored_expiry_is_the_instant_plus_the_lifetime() {
    let flow = OidcDeviceFlow::new("https://idp.example".to_string(), "cli".to_string());
    let token = TokenResponse {
        access_token: "acc".to_string(),
        id_token: None,
        refresh_token: None,
        token_type: "Bearer".to_string(),
        expires_in: Some(3600),
        scope: None,
    };
    let st = flow.tokens_to_store_at(&token, (1_700_000_000, 0)).unwrap();
    assert_eq!(st.expires_at.as_deref(), Some("2023-11-14T23:13:20+00:00"));
    assert!(flow.tokens_to_store_at(&token, (8_210_266_876_000, 0)).is_none());
}

#[test]
fn identifier_seed_is_the_epoch_nanoseconds() {
    assert_eq!(epoch_nanos((1_700_000_000, 42)), 1_700_000_000_000_000_042);
    assert_eq!(epoch_nanos((-5, 7)), 0);
}

#[test]
fn insecure_permission_message_writes_every_octal_digit() {
    let e = OidcError::InsecurePermissions { mode: 0o1644, path: "/t".to_string() };
    assert_eq!(
        e.message(),
        "Token file has insecure permissions 1644 (expected 0600). Fix with: chmod 600 /t"
    );
    let e = OidcError::InsecurePermissions { mode: 0, path: "/t".to_string() };
    assert!(e.message().starts_with("Token file has insecure permissions 0 ("));
}

fn checks() -> CreateChecks {
    CreateChecks {
        backend_selection: None,
        backend_unavailable: None,
        name_invalid: None,
        has_source_ref: false,
        has_source_url: false,
        source_url_invalid: None,
        source_ref_invalid: None,
        network_invalid: None,
        image_invalid: None,
        ports_invalid: None,
        volumes_invalid: None,
        network_unsupported: false,
        volumes_unsupported: None,
    }
}

#[test]
fn create_checks_answer_the_first_failure() {
    assert_eq!(create_refusal(&checks()), None);
    let mut c = checks();
    c.backend_unavailable = Some("firecracker".to_string());
    c.name_invalid = Some("bad name".to_string());
    assert_eq!(
        create_refusal(&c),
        Some((422, "Backend 'firecracker' is unavailable. Use GET /backends to see ready backends".to_string()))
    );
    let mut c = checks();
    c.has_source_ref = true;
    c.ports_invalid = Some("x".to_string());
    assert_eq!(create_refusal(&c), Some((400, "source_ref requires source_url".to_string())));
    let mut c = checks();
    c.ports_invalid = Some("bad".to_string());
    c.network_unsupported = true;
    assert_eq!(create_refusal(&c), Some((400, "Invalid port mapping: bad".to_string())));
    let mut c = checks();
    c.volumes_invalid = Some("no such volume".to_string());
    assert_eq!(create_refusal(&c), Some((400, "Invalid volume mount: no such volume".to_string())));
    let mut c = checks();
    c.network_invalid = Some("cidr".to_string());
    assert_eq!(create_refusal(&c), Some((400, "Invalid managed network: cidr".to_string())));
    let mut c = checks();
    c.network_unsupported = true;
    c.volumes_unsupported = Some("Backend 'x' does not support host volume mounts".to_string());
    assert_eq!(
        create_refusal(&c),
        Some((422, "Managed bridge networking is supported only by Docker and Podman backends".to_string()))
    );
}
