//! OIDC Device Authorization Flow (RFC 8628) for CLI authentication: the
//! discovery and token documents, the decisions taken while polling the
//! token endpoint, and the rules for storing and reloading tokens at
//! `~/.agentkernel/auth/tokens.json`.

use vstd::prelude::*;
use crate::clock::{
    clock_instant, is_utc_rfc3339, passed_at, rfc3339_after, rfc3339_after_of, rfc3339_instant, rfc3339_passed_at,
    utc_now_instant, LAST_FOUR_DIGIT_YEAR, LATEST_TIMESTAMP,
};
use crate::http_api::{join_path, path_join};
use crate::text::{dec_char, join_from, join_with, push_dec_digit, str_eq, trim_end_char, trim_end_matches_char, views};

verus! {

broadcast use vstd::string::group_string_axioms;

/// OpenID Connect Discovery configuration.
#[derive(Debug, Clone)]
pub struct OidcConfig {
    /// Authorization endpoint URL
    pub authorization_endpoint: String,
    /// Token endpoint URL
    pub token_endpoint: String,
    /// Device authorization endpoint URL (RFC 8628)
    pub device_authorization_endpoint: Option<String>,
    /// JWKS (JSON Web Key Set) URI for token verification
    pub jwks_uri: String,
    /// Issuer identifier
    pub issuer: String,
    /// UserInfo endpoint
    pub userinfo_endpoint: Option<String>,
    /// Supported response types
    pub response_types_supported: Vec<String>,
    /// Supported grant types
    pub grant_types_supported: Vec<String>,
}

/// Response from the device authorization endpoint.
#[derive(Debug, Clone)]
pub struct DeviceAuthResponse {
    /// Device verification code (used by client for polling)
    pub device_code: String,
    /// User code to display (user enters this in browser)
    pub user_code: String,
    /// Verification URI where user enters the code
    pub verification_uri: String,
    /// Optional: complete verification URI with code pre-filled
    pub verification_uri_complete: Option<String>,
    /// Lifetime of device_code and user_code in seconds
    pub expires_in: u64,
    /// Polling interval in seconds (default: 5)
    pub interval: u64,
}

/// The polling interval used when the device authorization response names
/// none.
pub fn default_interval() -> (r: u64)
    ensures
        r == 5,
{
    5
}

/// Token response from the token endpoint.
#[derive(Debug, Clone)]
pub struct TokenResponse {
    /// OAuth 2.0 access token
    pub access_token: String,
    /// OIDC ID token (JWT containing user claims)
    pub id_token: Option<String>,
    /// Refresh token for obtaining new access tokens
    pub refresh_token: Option<String>,
    /// Token type (usually "Bearer")
    pub token_type: String,
    /// Access token lifetime in seconds
    pub expires_in: Option<u64>,
    /// Granted scopes (space-separated)
    pub scope: Option<String>,
}

/// The token type used when the token response names none.
pub fn default_token_type() -> (r: String)
    ensures
        r@ == "Bearer"@,
{
    String::from_str("Bearer")
}

/// Error response from the token endpoint during polling.
#[derive(Debug, Clone)]
pub struct TokenErrorResponse {
    /// Error code
    pub error: String,
    /// Human-readable error description
    pub error_description: Option<String>,
}

/// Stored token data persisted to disk.
#[derive(Debug, Clone)]
pub struct StoredTokens {
    /// Access token
    pub access_token: String,
    /// ID token
    pub id_token: Option<String>,
    /// Refresh token
    pub refresh_token: Option<String>,
    /// When the access token expires (ISO 8601)
    pub expires_at: Option<String>,
    /// OIDC issuer URL
    pub issuer: String,
    /// Client ID used for authentication
    pub client_id: String,
}

/// OIDC Device Authorization Flow settings: the issuer to discover, the
/// client and the scopes requested.
#[derive(Debug, Clone)]
pub struct OidcDeviceFlow {
    /// OIDC discovery URL (issuer URL)
    pub discovery_url: String,
    /// OAuth client ID
    pub client_id: String,
    /// Scopes to request
    pub scopes: Vec<String>,
}

/// Failures of the device flow, each with the message shown to the user.
#[derive(Debug, Clone)]
pub enum OidcError {
    /// The discovery document names no device authorization endpoint.
    NoDeviceAuthorization,
    /// The device code expired before the user finished.
    AuthorizationExpired,
    /// The user refused the authorization.
    AccessDenied,
    /// The token endpoint answered with another error code.
    TokenRequestFailed { error: String, description: Option<String> },
    /// The token file may be read or written by others (`mode` holds the
    /// permission bits).
    InsecurePermissions { mode: u32, path: String },
}

/// Octal digits of `n`, least significant first.
pub open spec fn oct_digits_rev(n: nat) -> Seq<char>
    decreases n,
{
    if n < 8 {
        seq![dec_char(n)]
    } else {
        seq![dec_char(n % 8)] + oct_digits_rev(n / 8)
    }
}

/// `{:o}`: the octal representation of `n` without leading zeros.
pub open spec fn oct_repr(n: nat) -> Seq<char> {
    oct_digits_rev(n).reverse()
}

/// The description shown for a token error, or `no description`.
pub open spec fn description_or_default(d: Option<String>) -> Seq<char> {
    match d {
        Some(s) => s@,
        None => "no description"@,
    }
}

/// The message of each error.
pub open spec fn oidc_error_message(e: OidcError) -> Seq<char> {
    match e {
        OidcError::NoDeviceAuthorization => "OIDC provider does not support device authorization flow"@,
        OidcError::AuthorizationExpired => "Device authorization expired. Please try again."@,
        OidcError::AccessDenied => "User denied authorization."@,
        OidcError::TokenRequestFailed { error, description } => "Token request failed: "@ + error@
            + " ("@ + description_or_default(description) + ")"@,
        OidcError::InsecurePermissions { mode, path } => "Token file has insecure permissions "@
            + oct_repr(mode as nat) + " (expected 0600). Fix with: chmod 600 "@ + path@,
    }
}

/// The octal representation of `n` is that of `n / 8` followed by its last
/// digit.
proof fn lemma_oct_repr_step(n: nat)
    requires
        n >= 8,
    ensures
        oct_repr(n) == oct_repr(n / 8).push(dec_char(n % 8)),
{
    let rest = oct_digits_rev(n / 8);
    assert(oct_digits_rev(n) == seq![dec_char(n % 8)] + rest);
    assert(oct_repr(n) =~= oct_repr(n / 8).push(dec_char(n % 8)));
}

/// Append the octal representation of `n` to `s`.
fn push_octal(s: &mut String, n: u32)
    ensures
        final(s)@ == old(s)@ + oct_repr(n as nat),
    decreases n,
{
    let ghost start = s@;
    if n >= 8 {
        push_octal(s, n / 8);
        push_dec_digit(s, (n % 8) as u8);
        proof {
            lemma_oct_repr_step(n as nat);
        }
        assert(s@ =~= start + oct_repr(n as nat));
    } else {
        push_dec_digit(s, n as u8);
        assert(oct_repr(n as nat) =~= seq![dec_char(n as nat)]);
        assert(s@ =~= start + oct_repr(n as nat));
    }
}

impl OidcError {
    /// The message shown to the user.
    pub fn message(&self) -> (s: String)
        ensures
            s@ == oidc_error_message(*self),
    {
        match self {
            OidcError::NoDeviceAuthorization => String::from_str(
                "OIDC provider does not support device authorization flow",
            ),
            OidcError::AuthorizationExpired => String::from_str("Device authorization expired. Please try again."),
            OidcError::AccessDenied => String::from_str("User denied authorization."),
            OidcError::TokenRequestFailed { error, description } => {
                let mut s = String::from_str("Token request failed: ");
                s.append(error.as_str());
                s.append(" (");
                match description {
                    Some(d) => s.append(d.as_str()),
                    None => s.append("no description"),
                }
                s.append(")");
                s
            },
            OidcError::InsecurePermissions { mode, path } => {
                let mut s = String::from_str("Token file has insecure permissions ");
                push_octal(&mut s, *mode);
                s.append(" (expected 0600). Fix with: chmod 600 ");
                s.append(path.as_str());
                s
            },
        }
    }
}

/// The scopes requested unless others are set: `openid`, `profile`,
/// `email`.
pub open spec fn default_scopes() -> Seq<Seq<char>> {
    seq!["openid"@, "profile"@, "email"@]
}

/// The discovery document's URL for an issuer URL: trailing slashes are
/// dropped before `/.well-known/openid-configuration`.
pub open spec fn well_known_url_of(discovery_url: Seq<char>) -> Seq<char> {
    trim_end_char(discovery_url, '/') + "/.well-known/openid-configuration"@
}

/// The token file under a home directory.
pub open spec fn tokens_file_in(home: Seq<char>) -> Seq<char> {
    join_path(join_path(join_path(home, ".agentkernel"@), "auth"@), "tokens.json"@)
}

/// The home directory used for the token file: the user's, or `.`.
pub open spec fn token_home(home: Option<Seq<char>>) -> Seq<char> {
    match home {
        Some(h) => h,
        None => "."@,
    }
}

/// The record stored for a token response: the tokens, the issuer and the
/// client of the flow; an expiry exactly when the response gives a
/// lifetime.
pub open spec fn stored_from(flow: OidcDeviceFlow, token: TokenResponse, st: StoredTokens) -> bool {
    &&& st.access_token@ == token.access_token@
    &&& st.id_token == token.id_token
    &&& st.refresh_token == token.refresh_token
    &&& st.expires_at is Some <==> token.expires_in is Some
    &&& st.issuer@ == flow.discovery_url@
    &&& st.client_id@ == flow.client_id@
}

/// Calls `dirs::home_dir()` and converts the path to text (lossily, as
/// `to_string_lossy` does). The home directory comes from the environment,
/// so nothing is promised about it.
#[verifier::external_body]
fn home_dir() -> (r: Option<String>) {
    dirs::home_dir().map(|p| p.to_string_lossy().into_owned())
}

/// Copy an optional string.
fn copy_opt(o: &Option<String>) -> (r: Option<String>)
    ensures
        r == *o,
{
    match o {
        Some(s) => Some(s.clone()),
        None => None,
    }
}

impl OidcDeviceFlow {
    /// Create a new OIDC device flow handler requesting the default scopes.
    pub fn new(discovery_url: String, client_id: String) -> (f: Self)
        ensures
            f.discovery_url == discovery_url,
            f.client_id == client_id,
            views(f.scopes@) == default_scopes(),
    {
        let mut scopes: Vec<String> = Vec::new();
        scopes.push(String::from_str("openid"));
        scopes.push(String::from_str("profile"));
        scopes.push(String::from_str("email"));
        assert(views(scopes@) =~= default_scopes());
        OidcDeviceFlow { discovery_url, client_id, scopes }
    }

    /// Set custom scopes for the flow.
    pub fn with_scopes(self, scopes: Vec<String>) -> (f: Self)
        ensures
            f.discovery_url == self.discovery_url,
            f.client_id == self.client_id,
            f.scopes == scopes,
    {
        OidcDeviceFlow { discovery_url: self.discovery_url, client_id: self.client_id, scopes }
    }

    /// The URL of the issuer's discovery document.
    pub fn well_known_url(&self) -> (r: String)
        ensures
            r@ == well_known_url_of(self.discovery_url@),
    {
        let mut r = String::from_str(trim_end_matches_char(self.discovery_url.as_str(), '/'));
        r.append("/.well-known/openid-configuration");
        r
    }

    /// The `scope` parameter of the device authorization request: the
    /// scopes separated by spaces.
    pub fn scope_param(&self) -> (r: String)
        ensures
            r@ == join_with(views(self.scopes@), " "@),
    {
        assert(views(self.scopes@).skip(0) =~= views(self.scopes@));
        join_from(&self.scopes, 0, " ")
    }

    /// The token file below `home`, or below `.` when there is no home
    /// directory.
    pub fn token_store_path_in(home: Option<&str>) -> (r: String)
        ensures
            r@ == tokens_file_in(token_home(
                match home {
                    Some(h) => Some(h@),
                    None => None,
                },
            )),
    {
        let base = match home {
            Some(h) => h,
            None => ".",
        };
        let a = path_join(base, ".agentkernel");
        let b = path_join(a.as_str(), "auth");
        path_join(b.as_str(), "tokens.json")
    }

    /// Get the path to the token storage file:
    /// `~/.agentkernel/auth/tokens.json` under the user's home directory.
    pub fn token_store_path() -> (r: String)
        ensures
            exists|home: Seq<char>| r@ == tokens_file_in(home),
    {
        let home = home_dir();
        let r = match &home {
            Some(h) => Self::token_store_path_in(Some(h.as_str())),
            None => Self::token_store_path_in(None),
        };
        proof {
            let h = token_home(
                match home {
                    Some(h) => Some(h@),
                    None => None,
                },
            );
            assert(r@ == tokens_file_in(h));
        }
        r
    }

    /// The record to store for a token response received at the instant
    /// `now`: its expiry is `now` plus the token's lifetime. `None` only
    /// where that moment is past the end of chrono's range of dates.
    pub fn tokens_to_store_at(&self, token: &TokenResponse, now: (i64, u32)) -> (st: Option<StoredTokens>)
        ensures
            match token.expires_in {
                None => st matches Some(t) && stored_from(*self, *token, t),
                Some(secs) => match rfc3339_after_of(now, secs) {
                    None => st is None,
                    Some(text) => st matches Some(t) && stored_from(*self, *token, t) && (t.expires_at matches Some(at)
                        && at@ == text),
                },
            },
            (clock_instant(now) && (token.expires_in matches Some(secs) ==> now.0 + secs <= LATEST_TIMESTAMP)) ==> st is Some,
            st matches Some(t) ==> (t.expires_at matches Some(at) ==> is_utc_rfc3339(at@)),
            st matches Some(t) ==> (clock_instant(now) && token.expires_in is Some && now.0 + token.expires_in->0
                <= LAST_FOUR_DIGIT_YEAR ==> (t.expires_at matches Some(at) && rfc3339_instant(at@) == Some(
                ((now.0 + token.expires_in->0) as i64, now.1),
            ))),
    {
        let expires_at = match token.expires_in {
            Some(secs) => match rfc3339_after(now, secs) {
                Some(at) => Some(at),
                None => return None,
            },
            None => None,
        };
        Some(self.tokens_with_expiry(token, expires_at))
    }

    /// The record to store for a token response received now: its expiry
    /// is what the clock reads plus the token's lifetime.
    pub fn tokens_to_store(&self, token: &TokenResponse) -> (st: Option<StoredTokens>)
        ensures
            exists|now: (i64, u32)|
                clock_instant(now) && match token.expires_in {
                    None => st matches Some(t) && stored_from(*self, *token, t),
                    Some(secs) => match rfc3339_after_of(now, secs) {
                        None => st is None,
                        Some(text) => st matches Some(t) && stored_from(*self, *token, t) && (t.expires_at matches Some(
                            at,
                        ) && at@ == text),
                    },
                },
            st matches Some(t) ==> stored_from(*self, *token, t) && (t.expires_at matches Some(at) ==> is_utc_rfc3339(
                at@,
            )),
    {
        let now = utc_now_instant();
        self.tokens_to_store_at(token, now)
    }

    /// The record to store for a token response, with the expiry read from
    /// the clock for its lifetime.
    pub fn tokens_with_expiry(&self, token: &TokenResponse, expires_at: Option<String>) -> (st: StoredTokens)
        ensures
            st.access_token@ == token.access_token@,
            st.id_token == token.id_token,
            st.refresh_token == token.refresh_token,
            st.expires_at == expires_at,
            st.issuer@ == self.discovery_url@,
            st.client_id@ == self.client_id@,
    {
        StoredTokens {
            access_token: token.access_token.clone(),
            id_token: copy_opt(&token.id_token),
            refresh_token: copy_opt(&token.refresh_token),
            expires_at,
            issuer: self.discovery_url.clone(),
            client_id: self.client_id.clone(),
        }
    }
}

/// The endpoint the device flow starts at, when the provider has one.
pub fn device_authorization_endpoint(config: &OidcConfig) -> (r: Result<String, OidcError>)
    ensures
        match config.device_authorization_endpoint {
            Some(e) => r matches Ok(x) && x@ == e@,
            None => r matches Err(OidcError::NoDeviceAuthorization),
        },
{
    match &config.device_authorization_endpoint {
        Some(e) => Ok(e.clone()),
        None => Err(OidcError::NoDeviceAuthorization),
    }
}

/// What polling does after the token endpoint refused.
#[derive(Debug, Clone)]
pub enum PollStep {
    /// Wait one interval and poll again.
    Continue,
    /// Wait one interval plus five seconds and poll again.
    SlowDown,
    /// Stop with this error.
    Fail(OidcError),
}

/// The step taken for an error code of the token endpoint.
pub open spec fn poll_step_of(e: TokenErrorResponse) -> PollStep {
    if e.error@ == "authorization_pending"@ {
        PollStep::Continue
    } else if e.error@ == "slow_down"@ {
        PollStep::SlowDown
    } else if e.error@ == "expired_token"@ {
        PollStep::Fail(OidcError::AuthorizationExpired)
    } else if e.error@ == "access_denied"@ {
        PollStep::Fail(OidcError::AccessDenied)
    } else {
        PollStep::Fail(OidcError::TokenRequestFailed { error: e.error, description: e.error_description })
    }
}

/// Decide how polling goes on after the token endpoint answered with an
/// error: keep waiting while authorization is pending, back off when asked
/// to slow down, and stop on every other code.
pub fn poll_step(error: &TokenErrorResponse) -> (r: PollStep)
    ensures
        r == poll_step_of(*error),
{
    let code = error.error.as_str();
    if str_eq(code, "authorization_pending") {
        PollStep::Continue
    } else if str_eq(code, "slow_down") {
        PollStep::SlowDown
    } else if str_eq(code, "expired_token") {
        PollStep::Fail(OidcError::AuthorizationExpired)
    } else if str_eq(code, "access_denied") {
        PollStep::Fail(OidcError::AccessDenied)
    } else {
        PollStep::Fail(
            OidcError::TokenRequestFailed { error: error.error.clone(), description: copy_opt(&error.error_description) },
        )
    }
}

/// The error read from a refusal whose body is not an error document: code
/// `unknown`, the body as its description.
pub fn unparsed_token_error(body: String) -> (r: TokenErrorResponse)
    ensures
        r.error@ == "unknown"@,
        r.error_description == Some(body),
{
    TokenErrorResponse { error: String::from_str("unknown"), error_description: Some(body) }
}

/// The permission bits of a file mode.
pub open spec fn permission_bits(mode: u32) -> u32 {
    mode & 0o777u32
}

/// The token file is accepted only when readable and writable by its owner
/// alone (permission bits `0600`).
pub fn check_token_file_mode(mode: u32, path: &str) -> (r: Result<(), OidcError>)
    ensures
        permission_bits(mode) == 0o600u32 ==> r is Ok,
        permission_bits(mode) != 0o600u32 ==> (r matches Err(OidcError::InsecurePermissions { mode: m, path: p })
            && m == permission_bits(mode) && p@ == path@),
        r matches Err(OidcError::InsecurePermissions { mode: m, .. }) ==> m < 512,
{
    let m = mode & 0o777u32;
    assert(m < 512) by (bit_vector)
        requires
            m == mode & 0o777u32,
    ;
    if m == 0o600u32 {
        Ok(())
    } else {
        Err(OidcError::InsecurePermissions { mode: m, path: path.to_owned() })
    }
}

/// What loading keeps of stored tokens, given whether their expiry
/// (`None` when it does not parse) has passed: expired tokens are kept
/// only when they can be refreshed.
pub open spec fn usable_tokens_of(tokens: StoredTokens, expired: Option<bool>) -> Option<StoredTokens> {
    if tokens.expires_at is Some && expired == Some(true) && tokens.refresh_token is None {
        None
    } else {
        Some(tokens)
    }
}

/// Decide whether stored tokens are still usable, given whether their
/// expiry has passed.
pub fn usable_tokens_at(tokens: StoredTokens, expired: Option<bool>) -> (r: Option<StoredTokens>)
    ensures
        r == usable_tokens_of(tokens, expired),
{
    if tokens.expires_at.is_some() && expired == Some(true) && tokens.refresh_token.is_none() {
        None
    } else {
        Some(tokens)
    }
}

/// Decide whether stored tokens are still usable at the instant `now`:
/// tokens without an expiry, or whose expiry does not parse or has not
/// passed, are kept; expired ones only when they hold a refresh token.
pub fn usable_tokens_when(tokens: StoredTokens, now: (i64, u32)) -> (r: Option<StoredTokens>)
    ensures
        r == usable_tokens_of(tokens, expiry_reading(tokens.expires_at, now)),
{
    let expired = match &tokens.expires_at {
        Some(at) => rfc3339_passed_at(at.as_str(), now),
        None => None,
    };
    usable_tokens_at(tokens, expired)
}

/// Decide whether stored tokens are still usable now, reading the clock.
pub fn usable_tokens(tokens: StoredTokens) -> (r: Option<StoredTokens>)
    ensures
        exists|now: (i64, u32)| clock_instant(now) && r == usable_tokens_of(tokens, expiry_reading(tokens.expires_at, now)),
        tokens.expires_at is None ==> r == Some(tokens),
        tokens.refresh_token is Some ==> r == Some(tokens),
        (tokens.expires_at matches Some(at) && rfc3339_instant(at@) is None) ==> r == Some(tokens),
{
    let now = utc_now_instant();
    usable_tokens_when(tokens, now)
}

/// Whether a stored expiry, read against the instant `now`, has passed:
/// `None` when there is none or it does not parse.
pub open spec fn expiry_reading(expires_at: Option<String>, now: (i64, u32)) -> Option<bool> {
    match expires_at {
        Some(at) => passed_at(at@, now),
        None => None,
    }
}

} // verus!
