//! Agent identities: API-key and JWT based authentication and the mapping of
//! an identity to a Cedar policy principal.

use vstd::prelude::*;
use vstd::utf8::*;
use crate::text::{rsplit_once_char, rsplit_once_spec, str_eq};
use crate::json::JsonValue;

pub mod oidc;

verus! {

broadcast use vstd::string::group_string_axioms;

/// JWT claims extracted from a validated token.
#[derive(Debug, Clone)]
pub struct JwtClaims {
    /// Subject identifier (unique user ID)
    pub sub: String,
    /// User email address
    pub email: String,
    /// Organization identifier
    pub org_id: String,
    /// Roles assigned to the user
    pub roles: Vec<String>,
    /// Whether the user has completed MFA verification
    pub mfa_verified: bool,
    /// Token expiration (Unix timestamp)
    pub exp: Option<u64>,
    /// Token issued-at (Unix timestamp)
    pub iat: Option<u64>,
}

/// Agent identity combining API key and JWT-based authentication.
#[derive(Debug, Clone)]
pub struct AgentIdentity {
    /// API key used for authentication (if present)
    pub api_key: Option<String>,
    /// JWT claims extracted from a validated token (if present)
    pub jwt_claims: Option<JwtClaims>,
}

/// Errors of identity validation.
#[derive(Debug, Clone, Copy, PartialEq, Eq, Structural)]
pub enum IdentityError {
    /// The presented API key does not match the expected one.
    InvalidApiKey,
}

impl IdentityError {
    /// Human-readable message of the error.
    pub fn message(&self) -> (s: String)
        ensures
            s@ == "Invalid API key"@,
    {
        String::from_str("Invalid API key")
    }
}

/// Whether an identity's validated claims grant `role`.
pub open spec fn has_role_spec(identity: AgentIdentity, role: Seq<char>) -> bool {
    identity.jwt_claims is Some && roles_contain(identity.jwt_claims->0.roles@, role)
}

/// Whether the role list holds `role`.
pub open spec fn roles_contain(roles: Seq<String>, role: Seq<char>) -> bool {
    exists|i: int| 0 <= i < roles.len() && #[trigger] roles[i]@ == role
}

impl AgentIdentity {
    /// Create an empty identity (no authentication)
    pub fn anonymous() -> (id: Self)
        ensures
            id.api_key is None,
            id.jwt_claims is None,
    {
        AgentIdentity { api_key: None, jwt_claims: None }
    }

    /// Create an identity from validated JWT claims
    pub fn from_jwt(claims: JwtClaims) -> (id: Self)
        ensures
            id.api_key is None,
            id.jwt_claims == Some(claims),
    {
        AgentIdentity { api_key: None, jwt_claims: Some(claims) }
    }

    /// Create an identity from an API key
    pub fn from_api_key(key: String) -> (id: Self)
        ensures
            id.api_key == Some(key),
            id.jwt_claims is None,
    {
        AgentIdentity { api_key: Some(key), jwt_claims: None }
    }

    /// Get the user's subject identifier, if available
    pub fn subject(&self) -> (r: Option<&str>)
        ensures
            r is Some <==> self.jwt_claims is Some,
            r is Some ==> r->0@ == self.jwt_claims->0.sub@,
    {
        match &self.jwt_claims {
            Some(c) => Some(c.sub.as_str()),
            None => None,
        }
    }

    /// Get the user's email, if available
    pub fn email(&self) -> (r: Option<&str>)
        ensures
            r is Some <==> self.jwt_claims is Some,
            r is Some ==> r->0@ == self.jwt_claims->0.email@,
    {
        match &self.jwt_claims {
            Some(c) => Some(c.email.as_str()),
            None => None,
        }
    }

    /// Get the user's organization ID, if available
    pub fn org_id(&self) -> (r: Option<&str>)
        ensures
            r is Some <==> self.jwt_claims is Some,
            r is Some ==> r->0@ == self.jwt_claims->0.org_id@,
    {
        match &self.jwt_claims {
            Some(c) => Some(c.org_id.as_str()),
            None => None,
        }
    }

    /// Check if the identity has a specific role
    pub fn has_role(&self, role: &str) -> (r: bool)
        ensures
            r == (self.jwt_claims is Some && roles_contain(self.jwt_claims->0.roles@, role@)),
    {
        match &self.jwt_claims {
            None => false,
            Some(c) => {
                let n = c.roles.len();
                for i in 0..n
                    invariant
                        self.jwt_claims == Some(*c),
                        n == c.roles@.len(),
                        forall|j: int| 0 <= j < i ==> c.roles@[j]@ != role@,
                {
                    if str_eq(c.roles[i].as_str(), role) {
                        assert(c.roles@[i as int]@ == role@);
                        return true;
                    }
                }
                false
            },
        }
    }

    /// Check if MFA is verified
    pub fn mfa_verified(&self) -> (r: bool)
        ensures
            r == (self.jwt_claims is Some && self.jwt_claims->0.mfa_verified),
    {
        match &self.jwt_claims {
            Some(c) => c.mfa_verified,
            None => false,
        }
    }

    /// Whether this identity is authenticated (has either API key or JWT)
    pub fn is_authenticated(&self) -> (r: bool)
        ensures
            r == (self.api_key is Some || self.jwt_claims is Some),
    {
        self.api_key.is_some() || self.jwt_claims.is_some()
    }
}

/// Constant-time byte comparison to prevent timing attacks.
///
/// Every byte of equal-length inputs is visited, whatever the outcome.
pub fn constant_time_eq(a: &[u8], b: &[u8]) -> (r: bool)
    ensures
        r == (a@ == b@),
{
    if a.len() != b.len() {
        return false;
    }
    let mut diff: u8 = 0;
    let n = a.len();
    for i in 0..n
        invariant
            n == a@.len(),
            n == b@.len(),
            (diff == 0) == (forall|j: int| 0 <= j < i ==> a@[j] == b@[j]),
    {
        let x = a[i];
        let y = b[i];
        let old_diff = diff;
        diff = diff | (x ^ y);
        assert((old_diff | (x ^ y)) == 0 <==> (old_diff == 0 && x == y)) by (bit_vector);
    }
    if diff == 0 {
        assert(a@ =~= b@);
        true
    } else {
        false
    }
}

/// Validate an API key against an expected value.
///
/// The comparison runs in constant time to prevent timing attacks.
pub fn validate_api_key(key: &str, expected: &str) -> (r: Result<AgentIdentity, IdentityError>)
    ensures
        r is Ok <==> encode_utf8(key@) == encode_utf8(expected@),
        r matches Ok(id) ==> id.api_key is Some && id.api_key->0@ == key@ && id.jwt_claims is None,
        r matches Err(e) ==> e == IdentityError::InvalidApiKey,
{
    if constant_time_eq(key.as_bytes(), expected.as_bytes()) {
        Ok(AgentIdentity::from_api_key(key.to_owned()))
    } else {
        Err(IdentityError::InvalidApiKey)
    }
}

/// The part of an API key that may be shown: its first eight characters,
/// or the whole key when it is shorter.
pub open spec fn api_key_display_prefix(key: Seq<char>) -> Seq<char> {
    if key.len() >= 8 {
        key.take(8)
    } else {
        key
    }
}

/// The Cedar principal an identity stands for.
pub open spec fn cedar_principal(identity: AgentIdentity) -> Seq<char> {
    match identity.jwt_claims {
        Some(claims) => "AgentKernel::User::\""@ + claims.sub@ + "\""@,
        None => match identity.api_key {
            Some(key) => "AgentKernel::ApiClient::\""@ + api_key_display_prefix(key@) + "\""@,
            None => "AgentKernel::Anonymous::\"anonymous\""@,
        },
    }
}

/// Convert an AgentIdentity to a Cedar policy principal entity reference:
///   `AgentKernel::User::"<sub>"` for JWT-authenticated users,
///   `AgentKernel::ApiClient::"<key_prefix>"` for API key authenticated clients
///   (only the first eight characters of the key are exposed), and
///   `AgentKernel::Anonymous::"anonymous"` for unauthenticated requests.
pub fn to_cedar_principal(identity: &AgentIdentity) -> (r: String)
    ensures
        r@ == cedar_principal(*identity),
{
    if let Some(claims) = &identity.jwt_claims {
        let mut s = String::from_str("AgentKernel::User::\"");
        s.append(claims.sub.as_str());
        s.append("\"");
        s
    } else if let Some(key) = &identity.api_key {
        let k: &str = key.as_str();
        let mut s = String::from_str("AgentKernel::ApiClient::\"");
        if k.unicode_len() >= 8 {
            let prefix = k.substring_char(0, 8);
            assert(prefix@ =~= api_key_display_prefix(k@));
            s.append(prefix);
        } else {
            assert(k@ == api_key_display_prefix(k@));
            s.append(k);
        }
        s.append("\"");
        s
    } else {
        String::from_str("AgentKernel::Anonymous::\"anonymous\"")
    }
}

/// Whether `v` is the JSON string `s`.
pub open spec fn is_json_str(v: JsonValue, s: Seq<char>) -> bool {
    v matches JsonValue::Str(x) && x@ == s
}

/// Whether `v` is the JSON array of the strings `items`, in order.
pub open spec fn is_json_str_array(v: JsonValue, items: Seq<String>) -> bool {
    &&& v matches JsonValue::Array(a)
    &&& a@.len() == items.len()
    &&& forall|i: int| 0 <= i < items.len() ==> is_json_str(#[trigger] a@[i], items[i]@)
}

/// The Cedar context attributes of an identity: for validated claims the
/// email, organisation, roles and MFA flag, then in every case whether the
/// identity is authenticated.
pub open spec fn is_cedar_context(identity: AgentIdentity, ctx: Seq<(String, JsonValue)>) -> bool {
    match identity.jwt_claims {
        Some(c) => {
            &&& ctx.len() == 5
            &&& ctx[0].0@ == "email"@ && is_json_str(ctx[0].1, c.email@)
            &&& ctx[1].0@ == "org_id"@ && is_json_str(ctx[1].1, c.org_id@)
            &&& ctx[2].0@ == "roles"@ && is_json_str_array(ctx[2].1, c.roles@)
            &&& ctx[3].0@ == "mfa_verified"@ && ctx[3].1 == JsonValue::Bool(c.mfa_verified)
            &&& ctx[4].0@ == "is_authenticated"@ && ctx[4].1 == JsonValue::Bool(true)
        },
        None => {
            &&& ctx.len() == 1
            &&& ctx[0].0@ == "is_authenticated"@
            &&& ctx[0].1 == JsonValue::Bool(identity.api_key is Some)
        },
    }
}

/// The JSON array of a list of strings.
fn json_str_array(items: &Vec<String>) -> (v: JsonValue)
    ensures
        is_json_str_array(v, items@),
{
    let mut a: Vec<JsonValue> = Vec::new();
    let n = items.len();
    for i in 0..n
        invariant
            n == items@.len(),
            a@.len() == i,
            forall|k: int| 0 <= k < i ==> is_json_str(#[trigger] a@[k], items@[k]@),
    {
        a.push(JsonValue::Str(items[i].clone()));
    }
    JsonValue::Array(a)
}

/// Build the Cedar context attributes of an identity, each name with its
/// value; the names are distinct.
pub fn to_cedar_context(identity: &AgentIdentity) -> (ctx: Vec<(String, JsonValue)>)
    ensures
        is_cedar_context(*identity, ctx@),
{
    let mut ctx: Vec<(String, JsonValue)> = Vec::new();
    if let Some(claims) = &identity.jwt_claims {
        ctx.push((String::from_str("email"), JsonValue::Str(claims.email.clone())));
        ctx.push((String::from_str("org_id"), JsonValue::Str(claims.org_id.clone())));
        ctx.push((String::from_str("roles"), json_str_array(&claims.roles)));
        ctx.push((String::from_str("mfa_verified"), JsonValue::Bool(claims.mfa_verified)));
    }
    ctx.push((String::from_str("is_authenticated"), JsonValue::Bool(identity.is_authenticated())));
    ctx
}

} // verus!

verus! {

/// JWKS (JSON Web Key Set) key for JWT verification.
#[derive(Debug, Clone)]
pub struct JwksKey {
    /// Key type (e.g., "RSA")
    pub kty: String,
    /// Key use (e.g., "sig")
    pub use_: Option<String>,
    /// Key ID
    pub kid: Option<String>,
    /// Algorithm (e.g., "RS256")
    pub alg: Option<String>,
    /// RSA modulus (base64url-encoded)
    pub n: Option<String>,
    /// RSA exponent (base64url-encoded)
    pub e: Option<String>,
}

/// JWKS response containing multiple keys.
#[derive(Debug, Clone)]
pub struct JwksResponse {
    pub keys: Vec<JwksKey>,
}

/// Why a JWT cannot be verified against a key set.
#[derive(Debug, Clone, PartialEq, Eq)]
pub enum JwtError {
    /// The token's header does not decode.
    MalformedHeader,
    /// The header names no key.
    MissingKid,
    /// No key of the set has the header's key ID.
    NoMatchingKey(String),
    /// The matching key has no modulus.
    MissingModulus,
    /// The matching key has no exponent.
    MissingExponent,
    /// The modulus or exponent is not valid base64url.
    InvalidKey,
    /// The header names an algorithm other than RS256, RS384 or RS512.
    UnsupportedAlgorithm(String),
    /// The token has no signature part, or its signature does not verify
    /// against the key.
    InvalidSignature,
}

/// The plain value of a `JwtError`.
pub enum JwtErrorView {
    MalformedHeader,
    MissingKid,
    NoMatchingKey(Seq<char>),
    MissingModulus,
    MissingExponent,
    InvalidKey,
    UnsupportedAlgorithm(Seq<char>),
    InvalidSignature,
}

impl View for JwtError {
    type V = JwtErrorView;

    open spec fn view(&self) -> JwtErrorView {
        match self {
            JwtError::MalformedHeader => JwtErrorView::MalformedHeader,
            JwtError::MissingKid => JwtErrorView::MissingKid,
            JwtError::NoMatchingKey(kid) => JwtErrorView::NoMatchingKey(kid@),
            JwtError::MissingModulus => JwtErrorView::MissingModulus,
            JwtError::MissingExponent => JwtErrorView::MissingExponent,
            JwtError::InvalidKey => JwtErrorView::InvalidKey,
            JwtError::UnsupportedAlgorithm(alg) => JwtErrorView::UnsupportedAlgorithm(alg@),
            JwtError::InvalidSignature => JwtErrorView::InvalidSignature,
        }
    }
}

/// The message of each error.
pub open spec fn jwt_error_message(e: JwtErrorView) -> Seq<char> {
    match e {
        JwtErrorView::MalformedHeader => "Failed to decode JWT header"@,
        JwtErrorView::MissingKid => "JWT header missing 'kid' field"@,
        JwtErrorView::NoMatchingKey(kid) => "No matching key found for kid '"@ + kid + "'"@,
        JwtErrorView::MissingModulus => "JWKS key missing 'n' field"@,
        JwtErrorView::MissingExponent => "JWKS key missing 'e' field"@,
        JwtErrorView::InvalidKey => "Failed to create decoding key"@,
        JwtErrorView::UnsupportedAlgorithm(alg) => "Unsupported JWT algorithm: "@ + alg,
        JwtErrorView::InvalidSignature => "JWT validation failed"@,
    }
}

impl JwtError {
    /// The message shown for the error.
    pub fn message(&self) -> (s: String)
        ensures
            s@ == jwt_error_message(self@),
    {
        match self {
            JwtError::MalformedHeader => String::from_str("Failed to decode JWT header"),
            JwtError::MissingKid => String::from_str("JWT header missing 'kid' field"),
            JwtError::NoMatchingKey(kid) => {
                let mut s = String::from_str("No matching key found for kid '");
                s.append(kid.as_str());
                s.append("'");
                s
            },
            JwtError::MissingModulus => String::from_str("JWKS key missing 'n' field"),
            JwtError::MissingExponent => String::from_str("JWKS key missing 'e' field"),
            JwtError::InvalidKey => String::from_str("Failed to create decoding key"),
            JwtError::UnsupportedAlgorithm(alg) => {
                let mut s = String::from_str("Unsupported JWT algorithm: ");
                s.append(alg.as_str());
                s
            },
            JwtError::InvalidSignature => String::from_str("JWT validation failed"),
        }
    }
}

/// The key ID and the algorithm name (as `{:?}` prints it) of a token's
/// header, or `None` when the header does not decode.
pub uninterp spec fn jwt_header_of(token: Seq<char>) -> Option<(Option<Seq<char>>, Seq<char>)>;

/// The plain value of a decoded header.
pub open spec fn header_view(h: Option<(Option<String>, String)>) -> Option<(Option<Seq<char>>, Seq<char>)> {
    match h {
        Some((kid, alg)) => Some(
            (
                match kid {
                    Some(k) => Some(k@),
                    None => None,
                },
                alg@,
            ),
        ),
        None => None,
    }
}

/// Calls `jsonwebtoken::decode_header`; gives the header's `kid` and the
/// `{:?}` name of its `alg`, or `None` on an error. The header depends on
/// the token alone; the result is named `jwt_header_of`.
#[verifier::external_body]
fn decode_jwt_header(token: &str) -> (r: Option<(Option<String>, String)>)
    ensures
        header_view(r) == jwt_header_of(token@),
{
    jsonwebtoken::decode_header(token).ok().map(|h| (h.kid, format!("{:?}", h.alg)))
}

#[verifier::external_type_specification]
#[verifier::external_body]
pub struct ExDecodingKey(jsonwebtoken::DecodingKey);

/// Whether `jsonwebtoken::DecodingKey::from_rsa_components` accepts a
/// modulus and exponent (both valid base64url).
pub uninterp spec fn rsa_components_accepted(n: Seq<char>, e: Seq<char>) -> bool;

/// The RSA decoding key `jsonwebtoken::DecodingKey::from_rsa_components`
/// builds from a base64url modulus and exponent.
pub uninterp spec fn rsa_key_of(n: Seq<char>, e: Seq<char>) -> jsonwebtoken::DecodingKey;

/// Calls `jsonwebtoken::DecodingKey::from_rsa_components`; `None` on an
/// error. Whether it succeeds, and the key it builds, depend on its
/// arguments alone and are named `rsa_components_accepted` and
/// `rsa_key_of`.
#[verifier::external_body]
fn rsa_decoding_key(n: &str, e: &str) -> (r: Option<jsonwebtoken::DecodingKey>)
    ensures
        r is Some == rsa_components_accepted(n@, e@),
        r matches Some(k) ==> k == rsa_key_of(n@, e@),
{
    jsonwebtoken::DecodingKey::from_rsa_components(n, e).ok()
}

/// The key ID a decoded header names.
pub open spec fn key_id_outcome(h: Option<(Option<Seq<char>>, Seq<char>)>) -> Result<Seq<char>, JwtErrorView> {
    match h {
        None => Err(JwtErrorView::MalformedHeader),
        Some((None, _)) => Err(JwtErrorView::MissingKid),
        Some((Some(kid), _)) => Ok(kid),
    }
}

/// The key ID of a decoded header.
pub fn header_key_id(header: &Option<(Option<String>, String)>) -> (r: Result<String, JwtError>)
    ensures
        match r {
            Ok(kid) => key_id_outcome(header_view(*header)) == Ok::<Seq<char>, JwtErrorView>(kid@),
            Err(e) => key_id_outcome(header_view(*header)) == Err::<Seq<char>, JwtErrorView>(e@),
        },
{
    match header {
        None => Err(JwtError::MalformedHeader),
        Some((None, _)) => Err(JwtError::MissingKid),
        Some((Some(kid), _)) => Ok(kid.clone()),
    }
}

/// The key ID of a token's header: the first check made before the key set
/// is fetched.
pub fn jwt_key_id(token: &str) -> (r: Result<String, JwtError>)
    ensures
        match r {
            Ok(kid) => key_id_outcome(jwt_header_of(token@)) == Ok::<Seq<char>, JwtErrorView>(kid@),
            Err(e) => key_id_outcome(jwt_header_of(token@)) == Err::<Seq<char>, JwtErrorView>(e@),
        },
{
    let header = decode_jwt_header(token);
    header_key_id(&header)
}

/// Whether a key has the given ID.
pub open spec fn key_has_id(k: JwksKey, kid: Seq<char>) -> bool {
    k.kid matches Some(x) && x@ == kid
}

/// The RSA components of the first key with the given ID.
pub open spec fn key_components_outcome(keys: Seq<JwksKey>, kid: Seq<char>) -> Result<(Seq<char>, Seq<char>), JwtErrorView> {
    if exists|i: int| 0 <= i < keys.len() && key_has_id(#[trigger] keys[i], kid) {
        let i = choose|i: int|
            0 <= i < keys.len() && key_has_id(#[trigger] keys[i], kid) && forall|j: int|
                0 <= j < i ==> !key_has_id(#[trigger] keys[j], kid);
        match (keys[i].n, keys[i].e) {
            (None, _) => Err(JwtErrorView::MissingModulus),
            (Some(_), None) => Err(JwtErrorView::MissingExponent),
            (Some(n), Some(e)) => Ok((n@, e@)),
        }
    } else {
        Err(JwtErrorView::NoMatchingKey(kid))
    }
}

/// Find the key with the given ID and read its RSA modulus and exponent.
pub fn select_jwks_key(kid: &str, jwks: &JwksResponse) -> (r: Result<(String, String), JwtError>)
    ensures
        match r {
            Ok((n, e)) => key_components_outcome(jwks.keys@, kid@) == Ok::<(Seq<char>, Seq<char>), JwtErrorView>((n@, e@)),
            Err(err) => key_components_outcome(jwks.keys@, kid@) == Err::<(Seq<char>, Seq<char>), JwtErrorView>(err@),
        },
{
    let keys = &jwks.keys;
    let count = keys.len();
    for i in 0..count
        invariant
            count == keys@.len(),
            keys == &jwks.keys,
            forall|j: int| 0 <= j < i ==> !key_has_id(#[trigger] keys@[j], kid@),
    {
        let k = &keys[i];
        let matches = match &k.kid {
            Some(x) => str_eq(x.as_str(), kid),
            None => false,
        };
        if matches {
            assert(key_has_id(keys@[i as int], kid@));
            let ghost w = choose|w: int|
                0 <= w < keys@.len() && key_has_id(#[trigger] keys@[w], kid@) && forall|j: int|
                    0 <= j < w ==> !key_has_id(#[trigger] keys@[j], kid@);
            assert(w == i) by {
                if w < i {
                    assert(!key_has_id(keys@[w], kid@));
                } else if w > i {
                    assert(!key_has_id(keys@[i as int], kid@));
                }
            }
            return match (&k.n, &k.e) {
                (None, _) => Err(JwtError::MissingModulus),
                (Some(_), None) => Err(JwtError::MissingExponent),
                (Some(n), Some(e)) => Ok((n.clone(), e.clone())),
            };
        }
    }
    Err(JwtError::NoMatchingKey(kid.to_owned()))
}

/// The algorithms tokens may be signed with: RSASSA-PKCS1-v1_5 with
/// SHA-256, SHA-384 or SHA-512.
pub open spec fn supported_jwt_algorithm(alg: Seq<char>) -> bool {
    alg == "RS256"@ || alg == "RS384"@ || alg == "RS512"@
}

/// Refuse every algorithm but RS256, RS384 and RS512.
pub fn check_jwt_algorithm(alg: &str) -> (r: Result<(), JwtError>)
    ensures
        supported_jwt_algorithm(alg@) ==> r is Ok,
        !supported_jwt_algorithm(alg@) ==> (r matches Err(e) && e@ == JwtErrorView::UnsupportedAlgorithm(alg@)),
{
    if str_eq(alg, "RS256") || str_eq(alg, "RS384") || str_eq(alg, "RS512") {
        Ok(())
    } else {
        Err(JwtError::UnsupportedAlgorithm(alg.to_owned()))
    }
}

/// What verification needs of a token and a key set, in the order the
/// checks are made: the header and its key ID, the matching key and its
/// components, the decoding key, and a supported algorithm. Gives the
/// components and the algorithm's name.
pub open spec fn verification_outcome(token: Seq<char>, keys: Seq<JwksKey>) -> Result<(Seq<char>, Seq<char>, Seq<char>), JwtErrorView> {
    match key_id_outcome(jwt_header_of(token)) {
        Err(e) => Err(e),
        Ok(kid) => match key_components_outcome(keys, kid) {
            Err(e) => Err(e),
            Ok((n, e)) => if !rsa_components_accepted(n, e) {
                Err(JwtErrorView::InvalidKey)
            } else {
                let alg = match jwt_header_of(token) {
                    Some((_, a)) => a,
                    None => Seq::empty(),
                };
                if supported_jwt_algorithm(alg) {
                    Ok((n, e, alg))
                } else {
                    Err(JwtErrorView::UnsupportedAlgorithm(alg))
                }
            },
        },
    }
}

/// The decoding key and the algorithm to verify `token` with, taken from
/// the key set published by the issuer.
pub fn jwt_verification_key(token: &str, jwks: &JwksResponse) -> (r: Result<(jsonwebtoken::DecodingKey, String), JwtError>)
    ensures
        match r {
            Ok((k, alg)) => verification_outcome(token@, jwks.keys@) matches Ok((n, e, a)) && a == alg@ && k
                == rsa_key_of(n, e),
            Err(e) => verification_outcome(token@, jwks.keys@) == Err::<(Seq<char>, Seq<char>, Seq<char>), JwtErrorView>(e@),
        },
{
    let header = decode_jwt_header(token);
    let kid = match header_key_id(&header) {
        Ok(kid) => kid,
        Err(e) => return Err(e),
    };
    let (n, e) = match select_jwks_key(kid.as_str(), jwks) {
        Ok(c) => c,
        Err(err) => return Err(err),
    };
    let key = match rsa_decoding_key(n.as_str(), e.as_str()) {
        Some(k) => k,
        None => return Err(JwtError::InvalidKey),
    };
    let alg = match &header {
        Some((_, alg)) => alg.clone(),
        None => return Err(JwtError::MalformedHeader),
    };
    match check_jwt_algorithm(alg.as_str()) {
        Ok(()) => Ok((key, alg)),
        Err(err) => Err(err),
    }
}

/// Whether a JWT signature verifies: `jsonwebtoken::crypto::verify` of the
/// signature part over the message (header and payload parts with the dot
/// between them) with the RSA key of modulus `n` and exponent `e`, for the
/// algorithm named `alg`.
pub uninterp spec fn jwt_signature_valid(signature: Seq<char>, message: Seq<char>, n: Seq<char>, e: Seq<char>, alg: Seq<char>) -> bool;

/// Calls `jsonwebtoken::crypto::verify` with the signature, the message's
/// bytes, the key (the one built from `n` and `e`) and the algorithm named
/// `alg`; an error of the call (a signature that is not base64url) counts
/// as a signature that does not verify. The outcome depends on these
/// arguments alone and is named `jwt_signature_valid`.
#[verifier::external_body]
fn jwt_signature_ok(signature: &str, message: &str, key: &jsonwebtoken::DecodingKey, n: &str, e: &str, alg: &str) -> (r: bool)
    requires
        *key == rsa_key_of(n@, e@),
        supported_jwt_algorithm(alg@),
    ensures
        r == jwt_signature_valid(signature@, message@, n@, e@, alg@),
{
    match alg.parse::<jsonwebtoken::Algorithm>() {
        Ok(algorithm) => jsonwebtoken::crypto::verify(signature, message.as_bytes(), key, algorithm).unwrap_or(false),
        Err(_) => false,
    }
}

/// The message and the signature of a token: the text before its last `.`
/// and the text after it.
pub open spec fn jwt_signed_parts(token: Seq<char>) -> Option<(Seq<char>, Seq<char>)> {
    rsplit_once_spec(token, '.', "."@)
}

/// What verifying a token against a key set gives: the checks of
/// `verification_outcome`, then the signature, which must verify with the
/// chosen key and algorithm.
pub open spec fn signature_outcome(token: Seq<char>, keys: Seq<JwksKey>) -> Result<(Seq<char>, Seq<char>, Seq<char>), JwtErrorView> {
    match verification_outcome(token, keys) {
        Err(e) => Err(e),
        Ok((n, e, alg)) => match jwt_signed_parts(token) {
            Some((message, signature)) => if jwt_signature_valid(signature, message, n, e, alg) {
                Ok((n, e, alg))
            } else {
                Err(JwtErrorView::InvalidSignature)
            },
            None => Err(JwtErrorView::InvalidSignature),
        },
    }
}

/// Verify a token's signature with the key the issuer publishes for it:
/// the key and algorithm are chosen as `jwt_verification_key` chooses
/// them, and the signature must verify. Gives the key and the algorithm
/// for decoding the claims.
pub fn verify_jwt_signature(token: &str, jwks: &JwksResponse) -> (r: Result<(jsonwebtoken::DecodingKey, String), JwtError>)
    ensures
        match r {
            Ok((k, alg)) => signature_outcome(token@, jwks.keys@) matches Ok((n, e, a)) && a == alg@ && k == rsa_key_of(n, e),
            Err(err) => signature_outcome(token@, jwks.keys@) == Err::<(Seq<char>, Seq<char>, Seq<char>), JwtErrorView>(err@),
        },
{
    let header = decode_jwt_header(token);
    let kid = match header_key_id(&header) {
        Ok(kid) => kid,
        Err(e) => return Err(e),
    };
    let (n, e) = match select_jwks_key(kid.as_str(), jwks) {
        Ok(c) => c,
        Err(err) => return Err(err),
    };
    let key = match rsa_decoding_key(n.as_str(), e.as_str()) {
        Some(k) => k,
        None => return Err(JwtError::InvalidKey),
    };
    let alg = match &header {
        Some((_, alg)) => alg.clone(),
        None => return Err(JwtError::MalformedHeader),
    };
    match check_jwt_algorithm(alg.as_str()) {
        Ok(()) => {},
        Err(err) => return Err(err),
    }
    match rsplit_once_char(token, '.', ".") {
        Some((message, signature)) => {
            if jwt_signature_ok(signature.as_str(), message.as_str(), &key, n.as_str(), e.as_str(), alg.as_str()) {
                Ok((key, alg))
            } else {
                Err(JwtError::InvalidSignature)
            }
        },
        None => Err(JwtError::InvalidSignature),
    }
}

/// How the claims of a verified token are checked: with the algorithm of
/// its header, expiry checked with 60 seconds of leeway for clock skew, and
/// `exp` and `sub` required.
#[derive(Debug, Clone)]
pub struct JwtClaimsPolicy {
    pub algorithm: String,
    pub validate_exp: bool,
    pub leeway_secs: u64,
    pub required_claims: Vec<String>,
}

/// The policy for the claims of a token signed with `algorithm`.
pub fn jwt_claims_policy(algorithm: String) -> (p: JwtClaimsPolicy)
    ensures
        p.algorithm == algorithm,
        p.validate_exp,
        p.leeway_secs == 60,
        p.required_claims@.len() == 2,
        p.required_claims@[0]@ == "exp"@,
        p.required_claims@[1]@ == "sub"@,
{
    let mut required: Vec<String> = Vec::new();
    required.push(String::from_str("exp"));
    required.push(String::from_str("sub"));
    JwtClaimsPolicy { algorithm, validate_exp: true, leeway_secs: 60, required_claims: required }
}

} // verus!

