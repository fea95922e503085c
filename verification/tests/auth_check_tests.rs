use agentkernel::http_api::{after_jwt_validation, authentication_required, check_auth, AuthCheck};

fn keys() -> Vec<String> {
    vec!["key-one".to_string(), "key-two".to_string()]
}

#[test]
fn authentication_is_required_once_configured() {
    assert!(!authentication_required(false, false));
    assert!(authentication_required(true, false));
    assert!(authentication_required(false, true));
}

#[test]
fn open_server_lets_everything_through() {
    assert_eq!(check_auth(false, None, &Vec::new(), false), AuthCheck::Allow);
    assert_eq!(check_auth(false, Some("garbage"), &Vec::new(), false), AuthCheck::Allow);
}

#[test]
fn configured_keys_pass_and_others_are_refused() {
    assert_eq!(check_auth(true, Some("Bearer key-two"), &keys(), false), AuthCheck::Allow);
    assert_eq!(
        check_auth(true, Some("Bearer key-three"), &keys(), false),
        AuthCheck::Deny("Invalid bearer token".to_string())
    );
    assert_eq!(
        check_auth(true, Some("Basic a2V5"), &keys(), false),
        AuthCheck::Deny("Invalid authorization format. Use: Bearer <api_key>".to_string())
    );
    assert_eq!(
        check_auth(true, None, &keys(), false),
        AuthCheck::Deny("Missing Authorization header".to_string())
    );
}

#[test]
fn unknown_tokens_go_to_jwt_validation_when_a_key_set_is_configured() {
    assert_eq!(
        check_auth(true, Some("Bearer eyJhbGciOi"), &keys(), true),
        AuthCheck::ValidateJwt("eyJhbGciOi".to_string())
    );
    assert_eq!(check_auth(true, Some("Bearer key-one"), &keys(), true), AuthCheck::Allow);
    assert_eq!(after_jwt_validation(true), Ok(()));
    assert_eq!(after_jwt_validation(false), Err("Invalid bearer token".to_string()));
}
