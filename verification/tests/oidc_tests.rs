use agentkernel::identity::oidc::{
    check_token_file_mode, default_interval, default_token_type, device_authorization_endpoint,
    poll_step, unparsed_token_error, usable_tokens, usable_tokens_at, OidcConfig, OidcDeviceFlow,
    OidcError, PollStep, StoredTokens, TokenErrorResponse, TokenResponse,
};

fn config(device: Option<&str>) -> OidcConfig {
    OidcConfig {
        authorization_endpoint: "https://accounts.example.com/authorize".to_string(),
        token_endpoint: "https://accounts.example.com/token".to_string(),
        device_authorization_endpoint: device.map(|d| d.to_string()),
        jwks_uri: "https://accounts.example.com/.well-known/jwks.json".to_string(),
        issuer: "https://accounts.example.com".to_string(),
        userinfo_endpoint: None,
        response_types_supported: vec!["code".to_string()],
        grant_types_supported: vec![],
    }
}

fn stored(expires_at: Option<&str>, refresh: Option<&str>) -> StoredTokens {
    StoredTokens {
        access_token: "access-123".to_string(),
        id_token: Some("id-456".to_string()),
        refresh_token: refresh.map(|r| r.to_string()),
        expires_at: expires_at.map(|e| e.to_string()),
        issuer: "https://example.com".to_string(),
        client_id: "my-client".to_string(),
    }
}

fn error(code: &str, description: Option<&str>) -> TokenErrorResponse {
    TokenErrorResponse { error: code.to_string(), error_description: description.map(|d| d.to_string()) }
}

#[test]
fn test_token_store_path() {
    let path = OidcDeviceFlow::token_store_path();
    assert!(path.contains("agentkernel"));
    assert!(path.contains("tokens.json"));
}

#[test]
fn token_store_path_is_below_home() {
    assert_eq!(OidcDeviceFlow::token_store_path_in(Some("/home/ann")), "/home/ann/.agentkernel/auth/tokens.json");
    assert_eq!(OidcDeviceFlow::token_store_path_in(Some("/home/ann/")), "/home/ann/.agentkernel/auth/tokens.json");
    assert_eq!(OidcDeviceFlow::token_store_path_in(None), "./.agentkernel/auth/tokens.json");
}

#[test]
fn test_oidc_device_flow_new() {
    let flow = OidcDeviceFlow::new("https://accounts.example.com".to_string(), "my-client-id".to_string());
    assert_eq!(flow.discovery_url, "https://accounts.example.com");
    assert_eq!(flow.client_id, "my-client-id");
    assert!(flow.scopes.contains(&"openid".to_string()));
    assert_eq!(flow.scopes, vec!["openid", "profile", "email"]);
}

#[test]
fn test_oidc_device_flow_with_scopes() {
    let flow = OidcDeviceFlow::new("https://example.com".to_string(), "client".to_string())
        .with_scopes(vec!["openid".to_string(), "custom:read".to_string()]);

    assert_eq!(flow.scopes.len(), 2);
    assert!(flow.scopes.contains(&"custom:read".to_string()));
    assert_eq!(flow.scope_param(), "openid custom:read");
}

#[test]
fn well_known_url_drops_trailing_slashes() {
    let flow = OidcDeviceFlow::new("https://example.com//".to_string(), "c".to_string());
    assert_eq!(flow.well_known_url(), "https://example.com/.well-known/openid-configuration");
    let flow = OidcDeviceFlow::new("https://example.com/tenant".to_string(), "c".to_string());
    assert_eq!(flow.well_known_url(), "https://example.com/tenant/.well-known/openid-configuration");
}

#[test]
fn scope_param_joins_default_scopes_with_spaces() {
    let flow = OidcDeviceFlow::new("https://example.com".to_string(), "c".to_string());
    assert_eq!(flow.scope_param(), "openid profile email");
    assert_eq!(flow.with_scopes(vec![]).scope_param(), "");
}

#[test]
fn defaults_of_the_documents() {
    assert_eq!(default_interval(), 5);
    assert_eq!(default_token_type(), "Bearer");
}

#[test]
fn device_endpoint_is_required() {
    assert_eq!(
        device_authorization_endpoint(&config(Some("https://accounts.example.com/device/code"))).unwrap(),
        "https://accounts.example.com/device/code"
    );
    let err = device_authorization_endpoint(&config(None)).unwrap_err();
    assert_eq!(err.message(), "OIDC provider does not support device authorization flow");
}

#[test]
fn polling_follows_the_error_code() {
    assert!(matches!(poll_step(&error("authorization_pending", None)), PollStep::Continue));
    assert!(matches!(poll_step(&error("slow_down", None)), PollStep::SlowDown));
    match poll_step(&error("expired_token", None)) {
        PollStep::Fail(e) => assert_eq!(e.message(), "Device authorization expired. Please try again."),
        _ => panic!("expired token must stop polling"),
    }
    match poll_step(&error("access_denied", Some("no"))) {
        PollStep::Fail(e) => assert_eq!(e.message(), "User denied authorization."),
        _ => panic!("denial must stop polling"),
    }
    match poll_step(&error("invalid_client", Some("bad client"))) {
        PollStep::Fail(e) => assert_eq!(e.message(), "Token request failed: invalid_client (bad client)"),
        _ => panic!("other errors must stop polling"),
    }
    match poll_step(&error("server_error", None)) {
        PollStep::Fail(e) => assert_eq!(e.message(), "Token request failed: server_error (no description)"),
        _ => panic!("other errors must stop polling"),
    }
}

#[test]
fn unparsed_refusal_is_unknown() {
    let e = unparsed_token_error("<html>oops</html>".to_string());
    assert_eq!(e.error, "unknown");
    assert_eq!(e.error_description.as_deref(), Some("<html>oops</html>"));
    match poll_step(&e) {
        PollStep::Fail(err) => assert_eq!(err.message(), "Token request failed: unknown (<html>oops</html>)"),
        _ => panic!("unknown errors must stop polling"),
    }
}

#[test]
fn token_file_must_be_owner_only() {
    assert!(check_token_file_mode(0o100600, "/h/tokens.json").is_ok());
    assert!(check_token_file_mode(0o600, "/h/tokens.json").is_ok());
    let err = check_token_file_mode(0o100644, "/h/tokens.json").unwrap_err();
    assert!(matches!(err, OidcError::InsecurePermissions { mode: 0o644, .. }));
    assert_eq!(
        err.message(),
        "Token file has insecure permissions 644 (expected 0600). Fix with: chmod 600 /h/tokens.json"
    );
    let err = check_token_file_mode(0o007, "t").unwrap_err();
    assert_eq!(err.message(), "Token file has insecure permissions 7 (expected 0600). Fix with: chmod 600 t");
    let err = check_token_file_mode(0o040, "t").unwrap_err();
    assert_eq!(err.message(), "Token file has insecure permissions 40 (expected 0600). Fix with: chmod 600 t");
}

#[test]
fn expired_tokens_are_kept_only_when_refreshable() {
    assert!(usable_tokens_at(stored(Some("x"), None), Some(true)).is_none());
    assert!(usable_tokens_at(stored(Some("x"), Some("r")), Some(true)).is_some());
    assert!(usable_tokens_at(stored(Some("x"), None), Some(false)).is_some());
    assert!(usable_tokens_at(stored(Some("x"), None), None).is_some());
    assert!(usable_tokens_at(stored(None, None), None).is_some());
}

#[test]
fn usable_tokens_reads_the_clock() {
    assert!(usable_tokens(stored(Some("2000-01-01T00:00:00+00:00"), None)).is_none());
    assert!(usable_tokens(stored(Some("2000-01-01T00:00:00+00:00"), Some("r"))).is_some());
    assert!(usable_tokens(stored(Some("9999-01-01T00:00:00+00:00"), None)).is_some());
    assert!(usable_tokens(stored(Some("not a date"), None)).is_some());
    assert_eq!(usable_tokens(stored(None, None)).unwrap().access_token, "access-123");
}

#[test]
fn stored_tokens_record_issuer_client_and_expiry() {
    let flow = OidcDeviceFlow::new("https://example.com".to_string(), "my-client".to_string());
    let token = TokenResponse {
        access_token: "a".to_string(),
        id_token: Some("i".to_string()),
        refresh_token: None,
        token_type: "Bearer".to_string(),
        expires_in: Some(3600),
        scope: None,
    };
    let st = flow.tokens_to_store(&token).unwrap();
    assert_eq!(st.access_token, "a");
    assert_eq!(st.id_token.as_deref(), Some("i"));
    assert!(st.refresh_token.is_none());
    assert_eq!(st.issuer, "https://example.com");
    assert_eq!(st.client_id, "my-client");
    let at = st.expires_at.unwrap();
    assert!(at.len() >= 20);
    assert!(usable_tokens(stored(Some(at.as_str()), None)).is_some());
    let lifeless = TokenResponse { expires_in: None, ..token };
    assert!(flow.tokens_to_store(&lifeless).unwrap().expires_at.is_none());
}

#[test]
fn stored_tokens_take_the_given_expiry() {
    let flow = OidcDeviceFlow::new("https://idp.example".to_string(), "cli".to_string());
    let token = TokenResponse {
        access_token: "acc".to_string(),
        id_token: None,
        refresh_token: Some("ref".to_string()),
        token_type: "Bearer".to_string(),
        expires_in: Some(60),
        scope: Some("openid".to_string()),
    };
    let st = flow.tokens_with_expiry(&token, Some("2030-05-01T00:00:00+00:00".to_string()));
    assert_eq!(st.expires_at.as_deref(), Some("2030-05-01T00:00:00+00:00"));
    assert_eq!(st.refresh_token.as_deref(), Some("ref"));
    assert_eq!(st.issuer, "https://idp.example");
    assert_eq!(st.client_id, "cli");
    assert_eq!(st.access_token, "acc");
}
