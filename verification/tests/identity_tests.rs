use agentkernel::identity::{
    constant_time_eq, to_cedar_context, to_cedar_principal, validate_api_key, AgentIdentity,
    IdentityError, JwtClaims,
};
use agentkernel::json::JsonValue;

fn claims(roles: &[&str], mfa: bool) -> JwtClaims {
    JwtClaims {
        sub: "user-123".to_string(),
        email: "user@example.com".to_string(),
        org_id: "acme-corp".to_string(),
        roles: roles.iter().map(|r| r.to_string()).collect(),
        mfa_verified: mfa,
        exp: None,
        iat: None,
    }
}

#[test]
fn test_agent_identity_anonymous() {
    let identity = AgentIdentity::anonymous();
    assert!(!identity.is_authenticated());
    assert!(identity.subject().is_none());
    assert!(identity.email().is_none());
    assert!(!identity.has_role("admin"));
    assert!(!identity.mfa_verified());
}

#[test]
fn test_agent_identity_from_jwt() {
    let identity = AgentIdentity::from_jwt(claims(&["developer", "admin"], true));

    assert!(identity.is_authenticated());
    assert_eq!(identity.subject(), Some("user-123"));
    assert_eq!(identity.email(), Some("user@example.com"));
    assert_eq!(identity.org_id(), Some("acme-corp"));
    assert!(identity.has_role("developer"));
    assert!(identity.has_role("admin"));
    assert!(!identity.has_role("viewer"));
    assert!(identity.mfa_verified());
}

#[test]
fn test_agent_identity_from_api_key() {
    let identity = AgentIdentity::from_api_key("ak_test_12345678".to_string());
    assert!(identity.is_authenticated());
    assert!(identity.subject().is_none());
    assert!(identity.jwt_claims.is_none());
    assert_eq!(identity.api_key, Some("ak_test_12345678".to_string()));
}

#[test]
fn test_validate_api_key_valid() {
    let result = validate_api_key("correct-key", "correct-key");
    assert!(result.is_ok());
    let identity = result.unwrap();
    assert!(identity.is_authenticated());
}

#[test]
fn test_validate_api_key_invalid() {
    let result = validate_api_key("wrong-key", "correct-key");
    assert!(result.is_err());
}

#[test]
fn test_validate_api_key_different_length() {
    let result = validate_api_key("short", "much-longer-key");
    assert!(result.is_err());
}

#[test]
fn test_constant_time_eq() {
    assert!(constant_time_eq(b"hello", b"hello"));
    assert!(!constant_time_eq(b"hello", b"world"));
    assert!(!constant_time_eq(b"hello", b"hell"));
    assert!(constant_time_eq(b"", b""));
}

#[test]
fn test_to_cedar_principal_jwt() {
    let identity = AgentIdentity::from_jwt(claims(&["developer"], false));
    let principal = to_cedar_principal(&identity);
    assert_eq!(principal, "AgentKernel::User::\"user-123\"");
}

#[test]
fn test_to_cedar_principal_api_key() {
    let identity = AgentIdentity::from_api_key("ak_test_12345678abcdef".to_string());
    let principal = to_cedar_principal(&identity);
    assert_eq!(principal, "AgentKernel::ApiClient::\"ak_test_\"");
}

#[test]
fn test_to_cedar_principal_anonymous() {
    let identity = AgentIdentity::anonymous();
    let principal = to_cedar_principal(&identity);
    assert_eq!(principal, "AgentKernel::Anonymous::\"anonymous\"");
}

#[test]
fn cedar_principal_keeps_short_api_keys_whole() {
    let identity = AgentIdentity::from_api_key("ak_1".to_string());
    assert_eq!(to_cedar_principal(&identity), "AgentKernel::ApiClient::\"ak_1\"");
}

#[test]
fn jwt_identity_wins_over_api_key_in_principal() {
    let identity = AgentIdentity {
        api_key: Some("ak_test_12345678".to_string()),
        jwt_claims: Some(claims(&[], false)),
    };
    assert_eq!(to_cedar_principal(&identity), "AgentKernel::User::\"user-123\"");
}

#[test]
fn invalid_api_key_error_message() {
    let err = validate_api_key("a", "b").unwrap_err();
    assert_eq!(err, IdentityError::InvalidApiKey);
    assert_eq!(err.message(), "Invalid API key");
}

fn context_value<'a>(ctx: &'a [(String, JsonValue)], key: &str) -> Option<&'a JsonValue> {
    ctx.iter().find(|(k, _)| k == key).map(|(_, v)| v)
}

fn as_str(v: Option<&JsonValue>) -> Option<&str> {
    match v {
        Some(JsonValue::Str(s)) => Some(s.as_str()),
        _ => None,
    }
}

fn as_bool(v: Option<&JsonValue>) -> Option<bool> {
    match v {
        Some(JsonValue::Bool(b)) => Some(*b),
        _ => None,
    }
}

#[test]
fn test_to_cedar_context_jwt() {
    let identity = AgentIdentity::from_jwt(claims(&["developer"], true));
    let context = to_cedar_context(&identity);

    assert_eq!(as_str(context_value(&context, "email")), Some("user@example.com"));
    assert_eq!(as_str(context_value(&context, "org_id")), Some("acme-corp"));
    assert_eq!(as_bool(context_value(&context, "mfa_verified")), Some(true));
    assert_eq!(as_bool(context_value(&context, "is_authenticated")), Some(true));
    match context_value(&context, "roles") {
        Some(JsonValue::Array(items)) => {
            assert_eq!(items.len(), 1);
            assert_eq!(as_str(items.first()), Some("developer"));
        }
        other => panic!("roles is not an array: {:?}", other),
    }
}

#[test]
fn test_to_cedar_context_anonymous() {
    let identity = AgentIdentity::anonymous();
    let context = to_cedar_context(&identity);

    assert_eq!(as_bool(context_value(&context, "is_authenticated")), Some(false));
    assert!(context_value(&context, "email").is_none());
}

#[test]
fn cedar_context_of_an_api_client_is_authenticated_only() {
    let identity = AgentIdentity::from_api_key("ak_secret_key".to_string());
    let context = to_cedar_context(&identity);
    assert_eq!(context.len(), 1);
    assert_eq!(as_bool(context_value(&context, "is_authenticated")), Some(true));
}

#[test]
fn cedar_principal_shows_the_first_eight_characters_of_a_key() {
    let short = AgentIdentity::from_api_key("aéééééé".to_string());
    assert_eq!(to_cedar_principal(&short), r#"AgentKernel::ApiClient::"aéééééé""#);
    let long = AgentIdentity::from_api_key("ключ-1234567".to_string());
    assert_eq!(to_cedar_principal(&long), r#"AgentKernel::ApiClient::"ключ-123""#);
}
