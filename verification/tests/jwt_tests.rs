use agentkernel::identity::{
    check_jwt_algorithm, header_key_id, jwt_key_id, jwt_verification_key, select_jwks_key, JwksKey,
    JwksResponse, JwtError,
};

const RS256_TOKEN: &str = "eyJhbGciOiJSUzI1NiIsInR5cCI6IkpXVCIsImtpZCI6ImsxIn0.eyJzdWIiOiJ1In0.sig";
const HS256_TOKEN: &str = "eyJhbGciOiJIUzI1NiIsInR5cCI6IkpXVCIsImtpZCI6ImsxIn0.eyJzdWIiOiJ1In0.sig";
const NO_KID_TOKEN: &str = "eyJhbGciOiJSUzI1NiIsInR5cCI6IkpXVCJ9.eyJzdWIiOiJ1In0.sig";

fn key(kid: Option<&str>, n: Option<&str>, e: Option<&str>) -> JwksKey {
    JwksKey {
        kty: "RSA".to_string(),
        use_: Some("sig".to_string()),
        kid: kid.map(|k| k.to_string()),
        alg: Some("RS256".to_string()),
        n: n.map(|x| x.to_string()),
        e: e.map(|x| x.to_string()),
    }
}

#[test]
fn key_id_comes_from_the_header() {
    assert_eq!(jwt_key_id(RS256_TOKEN), Ok("k1".to_string()));
    assert_eq!(jwt_key_id(NO_KID_TOKEN), Err(JwtError::MissingKid));
    assert_eq!(jwt_key_id("not-a-token"), Err(JwtError::MalformedHeader));
    assert_eq!(header_key_id(&Some((Some("x".to_string()), "RS256".to_string()))), Ok("x".to_string()));
    assert_eq!(header_key_id(&None).unwrap_err().message(), "Failed to decode JWT header");
    assert_eq!(JwtError::MissingKid.message(), "JWT header missing 'kid' field");
}

#[test]
fn first_key_with_the_id_is_used() {
    let jwks = JwksResponse {
        keys: vec![
            key(Some("k0"), Some("AAAA"), Some("AQAB")),
            key(Some("k1"), Some("sXch"), Some("AQAB")),
            key(Some("k1"), Some("other"), Some("AQAB")),
        ],
    };
    assert_eq!(select_jwks_key("k1", &jwks), Ok(("sXch".to_string(), "AQAB".to_string())));
    let err = select_jwks_key("k9", &jwks).unwrap_err();
    assert_eq!(err.message(), "No matching key found for kid 'k9'");
    let partial = JwksResponse { keys: vec![key(Some("k1"), None, Some("AQAB")), key(Some("k2"), Some("n"), None)] };
    assert_eq!(select_jwks_key("k1", &partial), Err(JwtError::MissingModulus));
    assert_eq!(select_jwks_key("k2", &partial), Err(JwtError::MissingExponent));
    assert_eq!(JwtError::MissingExponent.message(), "JWKS key missing 'e' field");
}

#[test]
fn only_rsa_pkcs1_algorithms_are_supported() {
    assert!(check_jwt_algorithm("RS256").is_ok());
    assert!(check_jwt_algorithm("RS384").is_ok());
    assert!(check_jwt_algorithm("RS512").is_ok());
    let err = check_jwt_algorithm("HS256").unwrap_err();
    assert_eq!(err.message(), "Unsupported JWT algorithm: HS256");
}

#[test]
fn verification_key_follows_the_checks_in_order() {
    let good = JwksResponse { keys: vec![key(Some("k1"), Some("sXch"), Some("AQAB"))] };
    let (_, alg) = jwt_verification_key(RS256_TOKEN, &good).unwrap();
    assert_eq!(alg, "RS256");
    assert_eq!(
        jwt_verification_key(HS256_TOKEN, &good).err(),
        Some(JwtError::UnsupportedAlgorithm("HS256".to_string()))
    );
    let bad_key = JwksResponse { keys: vec![key(Some("k1"), Some("!!!"), Some("AQAB"))] };
    assert_eq!(jwt_verification_key(RS256_TOKEN, &bad_key).err(), Some(JwtError::InvalidKey));
    assert_eq!(jwt_verification_key(NO_KID_TOKEN, &good).err(), Some(JwtError::MissingKid));
    let empty = JwksResponse { keys: vec![] };
    assert_eq!(jwt_verification_key(RS256_TOKEN, &empty).err(), Some(JwtError::NoMatchingKey("k1".to_string())));
}
