//! Request-level rules of the HTTP API: path routing helpers, defaults of
//! request bodies, and the validation of tokens, recording identifiers and
//! sandbox Git paths.

use vstd::prelude::*;
use vstd::utf8::*;
use crate::text::{
    chars_of, has_prefix, has_substring, join_from, join_with, keep_non_empty, non_empty_pieces,
    opt_str_view, opt_string_eq, opt_string_eq_str, opt_string_view, push_dec_i64,
    rsplit_once_char, rsplit_once_spec, signed_dec_repr, split_char, split_on, split_once_char,
    split_once_spec, starts_with, str_eq, strip_prefix, strip_prefix_or_keep, contains_str,
    trim_end_char, trim_end_matches_char, views, lines, lines_of, split_once_at, split_once_str,
    split_str, split_str_spec, parse_u32, parse_u32_spec, parse_usize, parse_usize_spec, dec_repr,
    push_dec_u64, trim_str, trimmed, occurs_at,
};
use crate::json::{
    canonical, json_equiv, lemma_canonical_respects_equiv, write_canonical_json, JsonValue,
};
use crate::identity::{constant_time_eq, has_role_spec, AgentIdentity, JwtClaims, JwtError};
use crate::digest::{sha256_hex, sha256_hex_of_text};
use crate::clock::{
    clock_instant, instant_after, is_utc_rfc3339, passed_at, rfc3339_after, rfc3339_after_of, rfc3339_instant, rfc3339_passed_at,
    utc_now_instant, LAST_FOUR_DIGIT_YEAR, LATEST_TIMESTAMP,
};

verus! {

broadcast use vstd::string::group_string_axioms;

/// Errors raised by request validation, each with the message the API
/// returns for it.
#[derive(Debug, Clone, Copy, PartialEq, Eq, Structural)]
pub enum RequestError {
    InvalidStartToken,
    GitPathRequired,
    GitPathTooLong,
    GitPathInvalidCharacters,
    GitPathLeadingDash,
    GitPathParentReference,
    GitFilePathEmpty,
    GitFilePathTooLong,
    GitFilePathNotRelative,
    GitFilePathInvalidCharacters,
    GitFilePathParentReference,
    GitCredentialsUnsupported,
    InvalidSessionId,
}

/// The message of each request error.
pub open spec fn request_error_message(e: RequestError) -> Seq<char> {
    match e {
        RequestError::InvalidStartToken => "invalid persisted start configuration token"@,
        RequestError::GitPathRequired => "Git repository path is required"@,
        RequestError::GitPathTooLong => "Git repository path is too long (max 1024 characters)"@,
        RequestError::GitPathInvalidCharacters => "Git repository path contains invalid control or separator characters"@,
        RequestError::GitPathLeadingDash => "Git repository path cannot start with '-'"@,
        RequestError::GitPathParentReference => "Git repository path cannot contain parent directory references"@,
        RequestError::GitFilePathEmpty => "Git file path cannot be empty"@,
        RequestError::GitFilePathTooLong => "Git file path is too long (max 4096 characters)"@,
        RequestError::GitFilePathNotRelative => "Git file paths must be relative and cannot start with '-'"@,
        RequestError::GitFilePathInvalidCharacters => "Git file path contains invalid control or separator characters"@,
        RequestError::GitFilePathParentReference => "Git file path cannot contain parent directory references"@,
        RequestError::GitCredentialsUnsupported => "Git username/password authentication is not supported; configure credentials inside the sandbox"@,
        RequestError::InvalidSessionId => "Invalid session id"@,
    }
}

impl RequestError {
    /// The message sent to the client.
    pub fn message(&self) -> (s: String)
        ensures
            s@ == request_error_message(*self),
    {
        match self {
            RequestError::InvalidStartToken => String::from_str(
                "invalid persisted start configuration token",
            ),
            RequestError::GitPathRequired => String::from_str("Git repository path is required"),
            RequestError::GitPathTooLong => String::from_str(
                "Git repository path is too long (max 1024 characters)",
            ),
            RequestError::GitPathInvalidCharacters => String::from_str(
                "Git repository path contains invalid control or separator characters",
            ),
            RequestError::GitPathLeadingDash => String::from_str(
                "Git repository path cannot start with '-'",
            ),
            RequestError::GitPathParentReference => String::from_str(
                "Git repository path cannot contain parent directory references",
            ),
            RequestError::GitFilePathEmpty => String::from_str("Git file path cannot be empty"),
            RequestError::GitFilePathTooLong => String::from_str(
                "Git file path is too long (max 4096 characters)",
            ),
            RequestError::GitFilePathNotRelative => String::from_str(
                "Git file paths must be relative and cannot start with '-'",
            ),
            RequestError::GitFilePathInvalidCharacters => String::from_str(
                "Git file path contains invalid control or separator characters",
            ),
            RequestError::GitFilePathParentReference => String::from_str(
                "Git file path cannot contain parent directory references",
            ),
            RequestError::GitCredentialsUnsupported => String::from_str(
                "Git username/password authentication is not supported; configure credentials inside the sandbox",
            ),
            RequestError::InvalidSessionId => String::from_str("Invalid session id"),
        }
    }
}

// ---------------------------------------------------------------------------
// Routing helpers
// ---------------------------------------------------------------------------

/// The non-empty `/`-separated segments of a request path.
pub open spec fn path_segments_of(path: Seq<char>) -> Seq<Seq<char>> {
    non_empty_pieces(split_on(path, '/'))
}

/// Split a request path into its non-empty segments, as the router does
/// before matching a route.
pub fn path_segments(path: &str) -> (r: Vec<String>)
    ensures
        views(r@) == path_segments_of(path@),
{
    keep_non_empty(split_char(path, '/'))
}

/// The file path addressed by a `/sandboxes/{name}/files/{path...}` route:
/// the segments after the third, joined with `/`.
pub fn file_route_path(segments: &Vec<String>) -> (r: String)
    requires
        segments@.len() >= 3,
    ensures
        r@ == join_with(views(segments@).skip(3), "/"@),
{
    join_from(segments, 3, "/")
}

// ---------------------------------------------------------------------------
// Request defaults
// ---------------------------------------------------------------------------

/// Default of `fast` in run requests: use the container pool.
pub fn default_fast() -> (r: bool)
    ensures
        r,
{
    true
}

/// Default encoding of file write requests.
pub fn default_encoding() -> (r: String)
    ensures
        r@ == "utf8"@,
{
    String::from_str("utf8")
}

/// Default name of a runtime activity.
pub fn default_activity_name() -> (r: String)
    ensures
        r@ == "activity"@,
{
    String::from_str("activity")
}

/// Default retry budget of a runtime activity.
pub fn default_max_attempts() -> (r: u32)
    ensures
        r == 3,
{
    3
}

/// Default first retry delay, in milliseconds.
pub fn default_initial_interval_ms() -> (r: u64)
    ensures
        r == 1000,
{
    1000
}

/// Default cap on the retry delay, in milliseconds.
pub fn default_max_interval_ms() -> (r: u64)
    ensures
        r == 30_000,
{
    30_000
}

/// Default TTL extension.
pub fn default_extend_by() -> (r: String)
    ensures
        r@ == "1h"@,
{
    String::from_str("1h")
}

/// Default scope of an agent plugin installation.
pub fn default_plugin_scope() -> (r: String)
    ensures
        r@ == "project"@,
{
    String::from_str("project")
}

/// Prefer the backend persisted with a sandbox over the manager's automatic
/// default.
pub fn recorded_backend<B>(recorded: Option<B>, manager_default: B) -> (r: B)
    ensures
        r == match recorded {
            Some(b) => b,
            None => manager_default,
        },
{
    match recorded {
        Some(b) => b,
        None => manager_default,
    }
}

// ---------------------------------------------------------------------------
// Paths
// ---------------------------------------------------------------------------

/// `Path::join` of a relative name onto `base`.
pub open spec fn join_path(base: Seq<char>, name: Seq<char>) -> Seq<char> {
    if base.len() == 0 {
        name
    } else if base.last() == '/' {
        base + name
    } else {
        base + "/"@ + name
    }
}

/// Join the relative `name` onto the directory `base`.
pub fn path_join(base: &str, name: &str) -> (r: String)
    ensures
        r@ == join_path(base@, name@),
{
    let bv = chars_of(base);
    let mut r = String::from_str(base);
    if bv.len() > 0 && bv[bv.len() - 1] != '/' {
        r.append("/");
    }
    r.append(name);
    r
}

/// Whether `b` is an ASCII digit or a lowercase hexadecimal letter.
pub open spec fn is_lower_hex_byte(b: u8) -> bool {
    (48 <= b <= 57) || (97 <= b <= 102)
}

/// Whether `t` is a start configuration token: 64 lowercase hex bytes.
pub open spec fn valid_start_token(t: Seq<char>) -> bool {
    encode_utf8(t).len() == 64 && forall|i: int| 0 <= i < 64 ==> is_lower_hex_byte(#[trigger] encode_utf8(t)[i])
}

/// Accept only tokens made of 64 lowercase hexadecimal digits.
pub fn validate_persisted_start_token(token: &str) -> (r: Result<(), RequestError>)
    ensures
        r is Ok <==> valid_start_token(token@),
        r matches Err(e) ==> e == RequestError::InvalidStartToken,
{
    let b = token.as_bytes();
    if b.len() != 64 {
        return Err(RequestError::InvalidStartToken);
    }
    for i in 0..64
        invariant
            b@ == encode_utf8(token@),
            b@.len() == 64,
            forall|j: int| 0 <= j < i ==> is_lower_hex_byte(#[trigger] b@[j]),
    {
        let x = b[i];
        if !((48 <= x && x <= 57) || (97 <= x && x <= 102)) {
            return Err(RequestError::InvalidStartToken);
        }
    }
    Ok(())
}

/// The directory holding persisted start configurations.
pub fn persisted_start_configuration_dir(data_dir: &str) -> (r: String)
    ensures
        r@ == join_path(data_dir@, "delegated-start"@),
{
    path_join(data_dir, "delegated-start")
}

/// The file of the start configuration with `token`, after validating it.
pub fn persisted_start_configuration_path(data_dir: &str, token: &str) -> (r: Result<String, RequestError>)
    ensures
        r is Ok <==> valid_start_token(token@),
        r matches Ok(p) ==> p@ == join_path(join_path(data_dir@, "delegated-start"@), token@ + ".json"@),
        r matches Err(e) ==> e == RequestError::InvalidStartToken,
{
    validate_persisted_start_token(token)?;
    let dir = persisted_start_configuration_dir(data_dir);
    let mut name = String::from_str(token);
    name.append(".json");
    Ok(path_join(dir.as_str(), name.as_str()))
}

/// Where a start configuration is moved while it is consumed: a file named
/// `.consuming-` and a fresh identifier in the configurations' directory.
/// Moving it there is how one request, and only one, claims it.
pub fn consuming_start_configuration_path(data_dir: &str, unique: &str) -> (r: String)
    ensures
        r@ == join_path(join_path(data_dir@, "delegated-start"@), ".consuming-"@ + unique@),
{
    let dir = persisted_start_configuration_dir(data_dir);
    let mut name = String::from_str(".consuming-");
    name.append(unique);
    proof {
        reveal_strlit(".consuming-");
    }
    path_join(dir.as_str(), name.as_str())
}

/// Whether a file of the configurations' directory may hold a start
/// configuration of some sandbox: a `.json` file, or one being consumed.
pub open spec fn start_configuration_entry(file_name: Seq<char>, extension: Option<Seq<char>>) -> bool {
    extension == Some("json"@) || has_prefix(file_name, ".consuming-"@)
}

/// Whether a directory entry is looked at when the start configurations of
/// a sandbox are revoked.
pub fn is_start_configuration_entry(file_name: &str, extension: Option<&str>) -> (r: bool)
    ensures
        r == start_configuration_entry(
            file_name@,
            match extension {
                Some(e) => Some(e@),
                None => None,
            },
        ),
{
    let json = match extension {
        Some(e) => str_eq(e, "json"),
        None => false,
    };
    proof {
        reveal_strlit("json");
        reveal_strlit(".consuming-");
    }
    json || starts_with(file_name, ".consuming-")
}

/// Whether `b` may appear in a recording identifier.
pub open spec fn is_recording_id_byte(b: u8) -> bool {
    (48 <= b <= 57) || (65 <= b <= 90) || (97 <= b <= 122) || b == 45 || b == 95 || b == 46
}

/// Recording identifiers are non-empty, do not start with `.`, and hold only
/// ASCII letters, digits, `-`, `_` and `.`; so they cannot leave the
/// recordings directory.
pub open spec fn valid_recording_id_spec(id: Seq<char>) -> bool {
    &&& id.len() > 0
    &&& id[0] != '.'
    &&& forall|i: int| 0 <= i < encode_utf8(id).len() ==> is_recording_id_byte(#[trigger] encode_utf8(id)[i])
}

/// Whether `id` names a recording inside the recordings directory.
pub fn valid_recording_id(id: &str) -> (r: bool)
    ensures
        r == valid_recording_id_spec(id@),
{
    if id.is_empty() {
        return false;
    }
    if id.get_char(0) == '.' {
        return false;
    }
    let b = id.as_bytes();
    let n = b.len();
    for i in 0..n
        invariant
            n == b@.len(),
            b@ == encode_utf8(id@),
            forall|j: int| 0 <= j < i ==> is_recording_id_byte(#[trigger] b@[j]),
    {
        let x = b[i];
        if !((48 <= x && x <= 57) || (65 <= x && x <= 90) || (97 <= x && x <= 122) || x == 45
            || x == 95 || x == 46) {
            return false;
        }
    }
    true
}

/// The `.cast` file of a recording inside `recordings_dir`.
pub fn recording_path(recordings_dir: &str, id: &str) -> (r: Result<String, RequestError>)
    ensures
        r is Ok <==> valid_recording_id_spec(id@),
        r matches Ok(p) ==> p@ == join_path(recordings_dir@, id@ + ".cast"@),
        r matches Err(e) ==> e == RequestError::InvalidSessionId,
{
    if !valid_recording_id(id) {
        return Err(RequestError::InvalidSessionId);
    }
    let mut name = String::from_str(id);
    name.append(".cast");
    Ok(path_join(recordings_dir, name.as_str()))
}

// ---------------------------------------------------------------------------
// Sandbox Git paths
// ---------------------------------------------------------------------------

/// Characters refused in Git paths: NUL, line breaks and backslash.
pub open spec fn bad_path_char(c: char) -> bool {
    c == '\0' || c == '\n' || c == '\r' || c == '\\'
}

/// Whether some character of `s` is refused in Git paths.
pub open spec fn has_bad_path_char(s: Seq<char>) -> bool {
    exists|i: int| 0 <= i < s.len() && bad_path_char(#[trigger] s[i])
}

/// Whether some `/`-separated component of `s` is `..`.
pub open spec fn has_parent_component(s: Seq<char>) -> bool {
    exists|i: int| 0 <= i < split_on(s, '/').len() && #[trigger] split_on(s, '/')[i] == ".."@
}

/// The relative part of a Daytona-style repository path: without a leading
/// `./`, then without a leading `workspace/`, then without trailing `/`.
pub open spec fn git_relative_part(p: Seq<char>) -> Seq<char> {
    trim_end_char(strip_prefix_or_keep(strip_prefix_or_keep(p, "./"@), "workspace/"@), '/')
}

/// Outcome of validating a sandbox Git repository path: absolute paths are
/// kept (when no component is `..`); relative ones are resolved under
/// `/workspace`.
pub open spec fn git_path_outcome(p: Seq<char>) -> Result<Seq<char>, RequestError> {
    if p.len() == 0 {
        Err(RequestError::GitPathRequired)
    } else if encode_utf8(p).len() > 1024 {
        Err(RequestError::GitPathTooLong)
    } else if has_bad_path_char(p) {
        Err(RequestError::GitPathInvalidCharacters)
    } else if p[0] == '/' {
        if has_parent_component(p) {
            Err(RequestError::GitPathParentReference)
        } else {
            Ok(p)
        }
    } else if p[0] == '-' {
        Err(RequestError::GitPathLeadingDash)
    } else {
        let rel = git_relative_part(p);
        if rel.len() == 0 || rel == "."@ {
            Ok("/workspace"@)
        } else if rel[0] == '/' || has_parent_component(rel) {
            Err(RequestError::GitPathParentReference)
        } else {
            Ok("/workspace/"@ + rel)
        }
    }
}

/// Whether some char of `s` is refused in Git paths.
fn contains_bad_path_char(s: &str) -> (r: bool)
    ensures
        r == has_bad_path_char(s@),
{
    let v = chars_of(s);
    let n = v.len();
    for i in 0..n
        invariant
            n == v@.len(),
            v@ == s@,
            forall|j: int| 0 <= j < i ==> !bad_path_char(#[trigger] s@[j]),
    {
        let c = v[i];
        if c == '\0' || c == '\n' || c == '\r' || c == '\\' {
            assert(bad_path_char(s@[i as int]));
            return true;
        }
    }
    false
}

/// Whether some `/`-separated component of `s` is `..`.
pub fn contains_parent_component(s: &str) -> (r: bool)
    ensures
        r == has_parent_component(s@),
{
    let parts = split_char(s, '/');
    let n = parts.len();
    for i in 0..n
        invariant
            n == parts@.len(),
            views(parts@) == split_on(s@, '/'),
            forall|j: int| 0 <= j < i ==> split_on(s@, '/')[j] != ".."@,
    {
        assert(views(parts@)[i as int] == parts@[i as int]@);
        if str_eq(parts[i].as_str(), "..") {
            return true;
        }
    }
    false
}

/// Validate a sandbox Git repository path, resolving Daytona-style
/// relative paths under `/workspace` and refusing traversal and
/// option-like values.
pub fn validate_git_path(path: &str) -> (r: Result<String, RequestError>)
    ensures
        match git_path_outcome(path@) {
            Ok(p) => r is Ok && r->Ok_0@ == p,
            Err(e) => r == Err::<String, RequestError>(e),
        },
{
    if path.is_empty() {
        return Err(RequestError::GitPathRequired);
    }
    if path.as_bytes().len() > 1024 {
        return Err(RequestError::GitPathTooLong);
    }
    if contains_bad_path_char(path) {
        return Err(RequestError::GitPathInvalidCharacters);
    }
    let first = path.get_char(0);
    if first == '/' {
        if contains_parent_component(path) {
            return Err(RequestError::GitPathParentReference);
        }
        return Ok(path.to_owned());
    }
    if first == '-' {
        return Err(RequestError::GitPathLeadingDash);
    }
    let r1: &str = match strip_prefix(path, "./") {
        Some(x) => x,
        None => path,
    };
    let r2: &str = match strip_prefix(r1, "workspace/") {
        Some(x) => x,
        None => r1,
    };
    let rel = trim_end_matches_char(r2, '/');
    assert(rel@ == git_relative_part(path@));
    if rel.is_empty() || str_eq(rel, ".") {
        return Ok(String::from_str("/workspace"));
    }
    if rel.get_char(0) == '/' || contains_parent_component(rel) {
        return Err(RequestError::GitPathParentReference);
    }
    let mut resolved = String::from_str("/workspace/");
    resolved.append(rel);
    Ok(resolved)
}

/// Outcome of validating a path given to `git add`.
pub open spec fn git_file_path_outcome(p: Seq<char>) -> Result<(), RequestError> {
    if p.len() == 0 {
        Err(RequestError::GitFilePathEmpty)
    } else if encode_utf8(p).len() > 4096 {
        Err(RequestError::GitFilePathTooLong)
    } else if p[0] == '-' || p[0] == '/' {
        Err(RequestError::GitFilePathNotRelative)
    } else if has_bad_path_char(p) {
        Err(RequestError::GitFilePathInvalidCharacters)
    } else if has_parent_component(p) {
        Err(RequestError::GitFilePathParentReference)
    } else {
        Ok(())
    }
}

/// Validate a file path passed to Git: relative, not option-like, free of
/// control characters and of `..` components.
pub fn validate_git_file_path(path: &str) -> (r: Result<(), RequestError>)
    ensures
        r == git_file_path_outcome(path@),
{
    if path.is_empty() {
        return Err(RequestError::GitFilePathEmpty);
    }
    if path.as_bytes().len() > 4096 {
        return Err(RequestError::GitFilePathTooLong);
    }
    let first = path.get_char(0);
    if first == '-' || first == '/' {
        return Err(RequestError::GitFilePathNotRelative);
    }
    if contains_bad_path_char(path) {
        return Err(RequestError::GitFilePathInvalidCharacters);
    }
    if contains_parent_component(path) {
        return Err(RequestError::GitFilePathParentReference);
    }
    Ok(())
}

/// Porcelain status letter to its Daytona name.
pub open spec fn git_status_name(status: u8) -> Seq<char> {
    if status == 77 {
        "Modified"@
    } else if status == 65 {
        "Added"@
    } else if status == 68 {
        "Deleted"@
    } else if status == 82 {
        "Renamed"@
    } else if status == 67 {
        "Copied"@
    } else if status == 85 {
        "Updated but unmerged"@
    } else if status == 63 {
        "Untracked"@
    } else {
        "Unmodified"@
    }
}

/// Name of a porcelain status letter (`M`, `A`, `D`, `R`, `C`, `U`, `?`).
pub fn git_file_status(status: u8) -> (r: &'static str)
    ensures
        r@ == git_status_name(status),
{
    if status == 77 {
        "Modified"
    } else if status == 65 {
        "Added"
    } else if status == 68 {
        "Deleted"
    } else if status == 82 {
        "Renamed"
    } else if status == 67 {
        "Copied"
    } else if status == 85 {
        "Updated but unmerged"
    } else if status == 63 {
        "Untracked"
    } else {
        "Unmodified"
    }
}

/// Credentials carried by a Git remote request.
pub struct GitCredentials {
    pub username: Option<String>,
    pub password: Option<String>,
}

/// Whether an optional string is present and non-empty.
pub open spec fn present_non_empty(s: Option<String>) -> bool {
    s is Some && s->0@.len() > 0
}

/// Username/password authentication is refused; credentials belong inside
/// the sandbox.
pub fn reject_git_credentials(request: &GitCredentials) -> (r: Result<(), RequestError>)
    ensures
        r is Err <==> (present_non_empty(request.username) || present_non_empty(request.password)),
        r matches Err(e) ==> e == RequestError::GitCredentialsUnsupported,
{
    let user = match &request.username {
        Some(u) => !u.as_str().is_empty(),
        None => false,
    };
    let pass = match &request.password {
        Some(p) => !p.as_str().is_empty(),
        None => false,
    };
    if user || pass {
        Err(RequestError::GitCredentialsUnsupported)
    } else {
        Ok(())
    }
}

// ---------------------------------------------------------------------------
// Owner fingerprints and idempotency keys
// ---------------------------------------------------------------------------

/// Owner identifier of an API-key caller: `api-key:` and the hex SHA-256
/// of the key, so the secret itself is never stored.
pub open spec fn api_key_owner_text(key: Seq<char>) -> Seq<char> {
    "api-key:"@ + sha256_hex_of_text(key)
}

/// One-way owner fingerprint of an API key.
pub fn api_key_owner_id(key: &str) -> (r: String)
    ensures
        r@ == api_key_owner_text(key@),
{
    let mut r = String::from_str("api-key:");
    let h = sha256_hex(key);
    r.append(h.as_str());
    r
}

/// The text hashed into an activity's idempotency key.
pub open spec fn idempotency_material(orchestration_id: Seq<char>, activity_name: Seq<char>, sequence: int) -> Seq<char> {
    orchestration_id + ":"@ + activity_name + ":"@ + signed_dec_repr(sequence)
}

/// Stable idempotency key of an orchestration activity:
/// `hex(sha256("{orchestration_id}:{activity_name}:{sequence}"))`.
pub fn compute_idempotency_key(orchestration_id: &str, activity_name: &str, sequence: i64) -> (r: String)
    ensures
        r@ == sha256_hex_of_text(idempotency_material(orchestration_id@, activity_name@, sequence as int)),
{
    let mut m = String::from_str(orchestration_id);
    m.append(":");
    m.append(activity_name);
    m.append(":");
    push_dec_i64(&mut m, sequence);
    sha256_hex(m.as_str())
}

/// Whether an activity error may be retried: it is not, when it contains
/// one of the non-empty non-retryable markers.
pub open spec fn retryable(error: Seq<char>, markers: Seq<String>) -> bool {
    !exists|i: int| 0 <= i < markers.len() && #[trigger] markers[i]@.len() > 0 && has_substring(error, markers[i]@)
}

/// Whether `error` may be retried under the given non-retryable markers.
pub fn is_retryable_error(error: &str, non_retryable_errors: &Vec<String>) -> (r: bool)
    ensures
        r == retryable(error@, non_retryable_errors@),
{
    let n = non_retryable_errors.len();
    for i in 0..n
        invariant
            n == non_retryable_errors@.len(),
            forall|j: int| 0 <= j < i ==> !(#[trigger] non_retryable_errors@[j]@.len() > 0 && has_substring(error@, non_retryable_errors@[j]@)),
    {
        let marker = non_retryable_errors[i].as_str();
        if !marker.is_empty() && contains_str(error, marker) {
            assert(non_retryable_errors@[i as int]@.len() > 0);
            return false;
        }
    }
    true
}

// ---------------------------------------------------------------------------
// LLM providers and security profiles
// ---------------------------------------------------------------------------

/// Egress domain of an LLM provider; unknown providers name their domain.
pub open spec fn provider_domain(provider: Seq<char>) -> Seq<char> {
    if provider == "openai"@ {
        "api.openai.com"@
    } else if provider == "anthropic"@ {
        "api.anthropic.com"@
    } else if provider == "google"@ || provider == "gemini"@ {
        "generativelanguage.googleapis.com"@
    } else if provider == "deepseek"@ {
        "api.deepseek.com"@
    } else if provider == "groq"@ {
        "api.groq.com"@
    } else if provider == "mistral"@ {
        "api.mistral.ai"@
    } else if provider == "cohere"@ {
        "api.cohere.com"@
    } else if provider == "together"@ {
        "api.together.xyz"@
    } else if provider == "fireworks"@ {
        "api.fireworks.ai"@
    } else {
        provider
    }
}

/// Map an LLM provider name to the domain its API is served from.
pub fn provider_to_domain(provider: &str) -> (r: String)
    ensures
        r@ == provider_domain(provider@),
{
    if str_eq(provider, "openai") {
        String::from_str("api.openai.com")
    } else if str_eq(provider, "anthropic") {
        String::from_str("api.anthropic.com")
    } else if str_eq(provider, "google") || str_eq(provider, "gemini") {
        String::from_str("generativelanguage.googleapis.com")
    } else if str_eq(provider, "deepseek") {
        String::from_str("api.deepseek.com")
    } else if str_eq(provider, "groq") {
        String::from_str("api.groq.com")
    } else if str_eq(provider, "mistral") {
        String::from_str("api.mistral.ai")
    } else if str_eq(provider, "cohere") {
        String::from_str("api.cohere.com")
    } else if str_eq(provider, "together") {
        String::from_str("api.together.xyz")
    } else if str_eq(provider, "fireworks") {
        String::from_str("api.fireworks.ai")
    } else {
        provider.to_owned()
    }
}

/// Sandbox security profiles selectable by name.
#[derive(Debug, Clone, Copy, PartialEq, Eq, Structural)]
pub enum SecurityProfile {
    Permissive,
    Moderate,
    Restrictive,
}

/// Unicode lowercase of `s`, as `str::to_lowercase` computes it.
pub uninterp spec fn unicode_lowercase(s: Seq<char>) -> Seq<char>;

/// Calls `str::to_lowercase` (Unicode lowercase mapping; not locale
/// dependent). The result is named `unicode_lowercase`.
#[verifier::external_body]
fn to_lowercase(s: &str) -> (r: String)
    ensures
        r@ == unicode_lowercase(s@),
{
    s.to_lowercase()
}

/// The profile named by an already lowercased name.
pub open spec fn profile_named(lower: Seq<char>) -> Option<SecurityProfile> {
    if lower == "permissive"@ {
        Some(SecurityProfile::Permissive)
    } else if lower == "moderate"@ {
        Some(SecurityProfile::Moderate)
    } else if lower == "restrictive"@ {
        Some(SecurityProfile::Restrictive)
    } else {
        None
    }
}

/// The profile named by a lowercased profile name.
pub fn profile_from_lowercase(lower: &str) -> (r: Option<SecurityProfile>)
    ensures
        r == profile_named(lower@),
{
    if str_eq(lower, "permissive") {
        Some(SecurityProfile::Permissive)
    } else if str_eq(lower, "moderate") {
        Some(SecurityProfile::Moderate)
    } else if str_eq(lower, "restrictive") {
        Some(SecurityProfile::Restrictive)
    } else {
        None
    }
}

/// Resolve a profile name, ignoring case, to a SecurityProfile.
pub fn resolve_profile(name: &str) -> (r: Option<SecurityProfile>)
    ensures
        r == profile_named(unicode_lowercase(name@)),
{
    let lower = to_lowercase(name);
    profile_from_lowercase(lower.as_str())
}

// ---------------------------------------------------------------------------
// Container images
// ---------------------------------------------------------------------------

/// An image as the container runtime lists it.
#[derive(Debug)]
pub struct DockerImageRecord {
    pub id: String,
    pub repository: String,
    pub tag: String,
}

/// The name an image is shown and removed by: its ID when untagged,
/// `repository:tag` otherwise.
pub open spec fn image_record_name_spec(image: DockerImageRecord) -> Seq<char> {
    if image.tag@ == "<none>"@ {
        image.id@
    } else {
        image.repository@ + ":"@ + image.tag@
    }
}

/// The display name of an image record.
pub fn image_record_name(image: &DockerImageRecord) -> (r: String)
    ensures
        r@ == image_record_name_spec(*image),
{
    if str_eq(image.tag.as_str(), "<none>") {
        image.id.clone()
    } else {
        let mut r = image.repository.clone();
        r.append(":");
        r.append(image.tag.as_str());
        r
    }
}

/// Images of the `agentkernel` namespace: the repository is `agentkernel`
/// or starts with `agentkernel-` (so `my-agentkernel-tools` is not one).
pub open spec fn agentkernel_image(image: DockerImageRecord) -> bool {
    image.repository@ == "agentkernel"@ || has_prefix(image.repository@, "agentkernel-"@)
}

/// Whether an image belongs to agentkernel; the match is anchored.
pub fn is_agentkernel_image(image: &DockerImageRecord) -> (r: bool)
    ensures
        r == agentkernel_image(*image),
{
    str_eq(image.repository.as_str(), "agentkernel") || starts_with(
        image.repository.as_str(),
        "agentkernel-",
    )
}

// ---------------------------------------------------------------------------
// Sandbox ownership bindings
// ---------------------------------------------------------------------------

/// The tenant and owners recorded with a sandbox.
pub struct SandboxOwnership {
    pub tenant_id: Option<String>,
    pub owner_user_id: Option<String>,
    pub owner_org_id: Option<String>,
}

/// A fork must carry exactly the source sandbox's tenant and owners.
pub fn fork_identity_matches_source(
    source: &SandboxOwnership,
    tenant_id: Option<&str>,
    owner_user_id: Option<&str>,
    owner_org_id: Option<&str>,
) -> (r: bool)
    ensures
        r == (opt_string_view(source.tenant_id) == opt_str_view(tenant_id)
            && opt_string_view(source.owner_user_id) == opt_str_view(owner_user_id)
            && opt_string_view(source.owner_org_id) == opt_str_view(owner_org_id)),
{
    opt_string_eq_str(&source.tenant_id, tenant_id) && opt_string_eq_str(
        &source.owner_user_id,
        owner_user_id,
    ) && opt_string_eq_str(&source.owner_org_id, owner_org_id)
}

/// The sandbox generation and owners a persisted start configuration is
/// bound to.
pub struct PersistedStartBinding {
    pub sandbox_name: String,
    pub sandbox_uuid: String,
    pub tenant_id: Option<String>,
    pub owner_user_id: Option<String>,
    pub owner_org_id: Option<String>,
}

/// Whether two bindings name the same sandbox generation and owners.
pub open spec fn same_binding(a: PersistedStartBinding, b: PersistedStartBinding) -> bool {
    &&& a.sandbox_name@ == b.sandbox_name@
    &&& a.sandbox_uuid@ == b.sandbox_uuid@
    &&& opt_string_view(a.tenant_id) == opt_string_view(b.tenant_id)
    &&& opt_string_view(a.owner_user_id) == opt_string_view(b.owner_user_id)
    &&& opt_string_view(a.owner_org_id) == opt_string_view(b.owner_org_id)
}

/// Why a persisted start configuration was refused.
#[derive(Debug, Clone, Copy, PartialEq, Eq, Structural)]
pub enum StartClaimError {
    /// The stored expiration is not an RFC 3339 timestamp.
    InvalidExpiration,
    /// The configuration is past its expiration.
    Expired,
    /// The configuration belongs to another sandbox generation or owner.
    WrongBinding,
}

/// The message of each start-claim error.
pub open spec fn start_claim_error_message(e: StartClaimError) -> Seq<char> {
    match e {
        StartClaimError::InvalidExpiration => "persisted start configuration has an invalid expiration"@,
        StartClaimError::Expired => "persisted start configuration has expired"@,
        StartClaimError::WrongBinding => "persisted start configuration does not belong to this sandbox generation and owner"@,
    }
}

impl StartClaimError {
    /// The message sent to the client.
    pub fn message(&self) -> (s: String)
        ensures
            s@ == start_claim_error_message(*self),
    {
        match self {
            StartClaimError::InvalidExpiration => String::from_str(
                "persisted start configuration has an invalid expiration",
            ),
            StartClaimError::Expired => String::from_str("persisted start configuration has expired"),
            StartClaimError::WrongBinding => String::from_str(
                "persisted start configuration does not belong to this sandbox generation and owner",
            ),
        }
    }
}

/// The decision on a start configuration, given whether its expiration
/// parsed and has passed (`None` when it does not parse).
pub open spec fn start_claim_outcome(
    expired: Option<bool>,
    stored: PersistedStartBinding,
    stored_owner: Seq<char>,
    binding: PersistedStartBinding,
    request_owner: Seq<char>,
) -> Result<(), StartClaimError> {
    match expired {
        None => Err(StartClaimError::InvalidExpiration),
        Some(true) => Err(StartClaimError::Expired),
        Some(false) => if same_binding(stored, binding) && stored_owner == request_owner {
            Ok(())
        } else {
            Err(StartClaimError::WrongBinding)
        },
    }
}

/// Decide on a start configuration from the expiry reading: only a
/// configuration that has not expired, for the same sandbox generation,
/// tenant, owners and requesting owner is accepted.
pub fn decide_start_claim(
    expired: Option<bool>,
    stored: &PersistedStartBinding,
    stored_owner: &str,
    binding: &PersistedStartBinding,
    request_owner: &str,
) -> (r: Result<(), StartClaimError>)
    ensures
        r == start_claim_outcome(expired, *stored, stored_owner@, *binding, request_owner@),
{
    match expired {
        None => Err(StartClaimError::InvalidExpiration),
        Some(true) => Err(StartClaimError::Expired),
        Some(false) => {
            if stored.sandbox_name.eq(&binding.sandbox_name) && stored.sandbox_uuid.eq(
                &binding.sandbox_uuid,
            ) && opt_string_eq(&stored.tenant_id, &binding.tenant_id) && opt_string_eq(
                &stored.owner_user_id,
                &binding.owner_user_id,
            ) && opt_string_eq(&stored.owner_org_id, &binding.owner_org_id) && str_eq(
                stored_owner,
                request_owner,
            ) {
                Ok(())
            } else {
                Err(StartClaimError::WrongBinding)
            }
        },
    }
}

/// Validate a persisted start configuration against the sandbox it is
/// presented for and the requesting owner, its expiration read against the
/// instant `now`.
pub fn validate_start_binding_at(
    expires_at: &str,
    now: (i64, u32),
    stored: &PersistedStartBinding,
    stored_owner: &str,
    binding: &PersistedStartBinding,
    request_owner: &str,
) -> (r: Result<(), StartClaimError>)
    ensures
        r == start_claim_outcome(passed_at(expires_at@, now), *stored, stored_owner@, *binding, request_owner@),
{
    let expired = rfc3339_passed_at(expires_at, now);
    decide_start_claim(expired, stored, stored_owner, binding, request_owner)
}

/// Validate a persisted start configuration against the sandbox it is
/// presented for and the requesting owner; its expiration is read against
/// the clock.
pub fn validate_start_binding(
    expires_at: &str,
    stored: &PersistedStartBinding,
    stored_owner: &str,
    binding: &PersistedStartBinding,
    request_owner: &str,
) -> (r: Result<(), StartClaimError>)
    ensures
        exists|now: (i64, u32)|
            clock_instant(now) && r == start_claim_outcome(
                passed_at(expires_at@, now),
                *stored,
                stored_owner@,
                *binding,
                request_owner@,
            ),
        r == Err::<(), StartClaimError>(StartClaimError::InvalidExpiration) <==> rfc3339_instant(expires_at@) is None,
        r is Ok ==> same_binding(*stored, *binding) && stored_owner@ == request_owner@,
{
    let now = utc_now_instant();
    validate_start_binding_at(expires_at, now, stored, stored_owner, binding, request_owner)
}

// ---------------------------------------------------------------------------
// Secret bindings
// ---------------------------------------------------------------------------

/// The `(env var, host)` pair of a binding `KEY=value:host`; the secret
/// value is dropped so it never appears in responses.
pub open spec fn secret_mapping_of(raw: Seq<char>) -> Option<(Seq<char>, Seq<char>)> {
    match split_once_spec(raw, '=', "="@) {
        Some((key, rest)) => match rsplit_once_spec(rest, ':', ":"@) {
            Some((_value, host)) => Some((key, host)),
            None => None,
        },
        None => None,
    }
}

/// The mappings of all well-formed bindings, in order.
pub open spec fn secret_mappings_of(bindings: Seq<Seq<char>>) -> Seq<(Seq<char>, Seq<char>)> {
    bindings.filter_map(|raw: Seq<char>| secret_mapping_of(raw))
}

/// The view of a list of string pairs.
pub open spec fn pair_views(v: Seq<(String, String)>) -> Seq<(Seq<char>, Seq<char>)> {
    v.map_values(|p: (String, String)| (p.0@, p.1@))
}

/// The env-var-to-host mappings of secret bindings (`KEY=value:host`), in
/// binding order; malformed bindings are skipped. Collected into a map, a
/// later binding of the same key wins.
pub fn extract_secret_mappings(bindings: &Vec<String>) -> (r: Vec<(String, String)>)
    ensures
        pair_views(r@) == secret_mappings_of(views(bindings@)),
{
    let mut r: Vec<(String, String)> = Vec::new();
    let n = bindings.len();
    for i in 0..n
        invariant
            n == bindings@.len(),
            pair_views(r@) == secret_mappings_of(views(bindings@).take(i as int)),
    {
        let raw = bindings[i].as_str();
        let ghost before = r@;
        proof {
            assert(views(bindings@).take(i + 1) =~= views(bindings@).take(i as int).push(raw@));
            assert(views(bindings@).take(i + 1).drop_last() =~= views(bindings@).take(i as int));
        }
        if let Some((key, rest)) = split_once_char(raw, '=', "=") {
            if let Some((_value, host)) = rsplit_once_char(rest.as_str(), ':', ":") {
                r.push((key, host));
                assert(pair_views(r@) =~= pair_views(before).push(secret_mapping_of(raw@)->0));
            }
        }
    }
    assert(views(bindings@).take(n as int) =~= views(bindings@));
    r
}

/// The map that a list of pairs collects into: a later pair of a key
/// overrides an earlier one.
pub open spec fn pairs_map(s: Seq<(Seq<char>, Seq<char>)>) -> Map<Seq<char>, Seq<char>>
    decreases s.len(),
{
    if s.len() == 0 {
        Map::empty()
    } else {
        pairs_map(s.drop_last()).insert(s.last().0, s.last().1)
    }
}

/// Whether no key occurs twice in a list of pairs.
pub open spec fn keys_distinct(s: Seq<(Seq<char>, Seq<char>)>) -> bool {
    forall|i: int, j: int| 0 <= i < s.len() && 0 <= j < s.len() && i != j ==> #[trigger] s[i].0 != #[trigger] s[j].0
}

/// Replacing the value of a key held once overrides it in the map.
proof fn lemma_pairs_map_update(s: Seq<(Seq<char>, Seq<char>)>, j: int, v: Seq<char>)
    requires
        keys_distinct(s),
        0 <= j < s.len(),
    ensures
        pairs_map(s.update(j, (s[j].0, v))) == pairs_map(s).insert(s[j].0, v),
    decreases s.len(),
{
    let k = s[j].0;
    let t = s.update(j, (k, v));
    let n = s.len() - 1;
    if j == n {
        assert(t.drop_last() =~= s.drop_last());
        assert(pairs_map(t) =~= pairs_map(s).insert(k, v));
    } else {
        assert(t.drop_last() =~= s.drop_last().update(j, (k, v)));
        assert(keys_distinct(s.drop_last()));
        lemma_pairs_map_update(s.drop_last(), j, v);
        assert(s[n].0 != k);
        assert(pairs_map(t) =~= pairs_map(s).insert(k, v));
    }
}

/// Set `key` to `value` in a list of distinct keys: the value of a key
/// already held is replaced, a new key is appended.
fn upsert_pair(r: &mut Vec<(String, String)>, key: String, value: String)
    requires
        keys_distinct(pair_views(old(r)@)),
    ensures
        keys_distinct(pair_views(final(r)@)),
        pairs_map(pair_views(final(r)@)) == pairs_map(pair_views(old(r)@)).insert(key@, value@),
{
    let n = r.len();
    let mut i: usize = 0;
    while i < n
        invariant
            n == r@.len(),
            r@ == old(r)@,
            keys_distinct(pair_views(r@)),
            i <= n,
            forall|k: int| 0 <= k < i ==> (#[trigger] r@[k]).0@ != key@,
        decreases n - i,
    {
        if str_eq(r[i].0.as_str(), key.as_str()) {
            let ghost before = pair_views(r@);
            proof {
                lemma_pairs_map_update(before, i as int, value@);
            }
            r.set(i, (key, value));
            assert(pair_views(r@) =~= before.update(i as int, (before[i as int].0, value@)));
            return;
        }
        i += 1;
    }
    let ghost before = pair_views(r@);
    r.push((key, value));
    assert(pair_views(r@) =~= before.push((key@, value@)));
    assert(pair_views(r@).drop_last() =~= before);
}

/// The secret mappings of a sandbox: the persisted template mappings, then
/// the mappings of the secrets actually bound, which override a template
/// mapping of the same env var.
pub fn build_secret_mappings(persisted: &Vec<(String, String)>, bindings: &Vec<String>) -> (r: Vec<(String, String)>)
    ensures
        keys_distinct(pair_views(r@)),
        pairs_map(pair_views(r@)) == pairs_map(pair_views(persisted@) + secret_mappings_of(views(bindings@))),
{
    let mut all: Vec<(String, String)> = Vec::new();
    let np = persisted.len();
    for i in 0..np
        invariant
            np == persisted@.len(),
            pair_views(all@) == pair_views(persisted@).take(i as int),
    {
        let ghost prev = all@;
        let k = persisted[i].0.clone();
        let v = persisted[i].1.clone();
        all.push((k, v));
        assert(pair_views(all@) =~= pair_views(prev).push((persisted@[i as int].0@, persisted@[i as int].1@)));
        assert(pair_views(all@) =~= pair_views(persisted@).take(i + 1));
    }
    let mut bound = extract_secret_mappings(bindings);
    let ghost before = all@;
    all.append(&mut bound);
    let ghost input = pair_views(persisted@) + secret_mappings_of(views(bindings@));
    assert(pair_views(all@) =~= input) by {
        assert(pair_views(before) =~= pair_views(persisted@));
    }
    let mut r: Vec<(String, String)> = Vec::new();
    let n = all.len();
    for i in 0..n
        invariant
            n == all@.len(),
            pair_views(all@) == input,
            keys_distinct(pair_views(r@)),
            pairs_map(pair_views(r@)) == pairs_map(input.take(i as int)),
    {
        assert(input.take(i + 1).drop_last() =~= input.take(i as int));
        upsert_pair(&mut r, all[i].0.clone(), all[i].1.clone());
    }
    assert(input.take(n as int) =~= input);
    r
}

} // verus!

verus! {

// ---------------------------------------------------------------------------
// Git status (`git status --porcelain=v1 --branch`)
// ---------------------------------------------------------------------------

/// One changed file of a repository.
#[derive(Debug, Clone)]
pub struct GitFileStatus {
    pub name: String,
    pub extra: String,
    pub staging: String,
    pub worktree: String,
}

/// The state of a repository: branch, upstream and changed files.
#[derive(Debug, Clone)]
pub struct GitStatusResponse {
    pub current_branch: String,
    pub file_status: Vec<GitFileStatus>,
    pub branch_published: bool,
    pub ahead: u32,
    pub behind: u32,
    pub upstream: Option<String>,
    pub detached: bool,
}

/// The branch part of a branch header `branch...upstream [counts]`.
pub open spec fn header_branch_part(h: Seq<char>) -> Seq<char> {
    match split_once_at(h, "..."@) {
        Some((b, _)) => b,
        None => h,
    }
}

/// The tracking part of a branch header (after `...`), empty when absent.
pub open spec fn header_tracking(h: Seq<char>) -> Seq<char> {
    match split_once_at(h, "..."@) {
        Some((_, t)) => t,
        None => Seq::empty(),
    }
}

/// The branch named by a header; an unborn branch is reported by its name.
pub open spec fn header_branch(h: Seq<char>) -> Seq<char> {
    strip_prefix_or_keep(header_branch_part(h), "No commits yet on "@)
}

/// Whether the header describes a detached HEAD.
pub open spec fn header_detached(h: Seq<char>) -> bool {
    has_prefix(header_branch(h), "HEAD ("@) || header_branch(h) == "HEAD"@
}

/// The upstream named by the header: the tracking part before ` [`, when
/// not empty.
pub open spec fn header_upstream(h: Seq<char>) -> Option<Seq<char>> {
    let t = header_tracking(h);
    if t.len() == 0 {
        None
    } else {
        let remote = match split_once_at(t, " ["@) {
            Some((r, _)) => r,
            None => t,
        };
        if remote.len() == 0 {
            None
        } else {
            Some(remote)
        }
    }
}

/// A count, or 0 when it does not parse.
pub open spec fn count_or_zero(s: Seq<char>) -> u32 {
    match parse_u32_spec(s) {
        Some(v) => v,
        None => 0,
    }
}

/// The ahead and behind counts of the items `ahead N`, `behind M`; a later
/// item wins over an earlier one.
pub open spec fn count_items_of(items: Seq<Seq<char>>) -> (u32, u32)
    decreases items.len(),
{
    if items.len() == 0 {
        (0, 0)
    } else {
        let (a, b) = count_items_of(items.drop_last());
        let it = items.last();
        if has_prefix(it, "ahead "@) {
            (count_or_zero(it.skip(6)), b)
        } else if has_prefix(it, "behind "@) {
            (a, count_or_zero(it.skip(7)))
        } else {
            (a, b)
        }
    }
}

/// The ahead and behind counts of a header: the items in the brackets
/// after the first ` [`.
pub open spec fn header_counts(h: Seq<char>) -> (u32, u32) {
    match split_once_at(h, " ["@) {
        Some((_, c)) => count_items_of(split_str_spec(trim_end_char(c, ']'), ", "@)),
        None => (0, 0),
    }
}

/// The branch header of the output: its first line, when it starts with
/// `## `, without that prefix.
pub open spec fn status_header(output: Seq<char>) -> Option<Seq<char>> {
    let ls = lines_of(output);
    if ls.len() > 0 && has_prefix(ls[0], "## "@) {
        Some(ls[0].skip(3))
    } else {
        None
    }
}

/// The lines after the branch header.
pub open spec fn status_body(output: Seq<char>) -> Seq<Seq<char>> {
    if status_header(output) is Some {
        lines_of(output).skip(1)
    } else {
        lines_of(output)
    }
}

/// Whether a line is long enough (three bytes) to describe a file.
pub open spec fn is_file_line(line: Seq<char>) -> bool {
    encode_utf8(line).len() >= 3
}

/// The output can be read: the path of every file line starts on a
/// character boundary (after the two status bytes and the space).
pub open spec fn git_status_readable(output: Seq<char>) -> bool {
    forall|k: int|
        0 <= k < status_body(output).len() && is_file_line(#[trigger] status_body(output)[k])
            ==> is_char_boundary(encode_utf8(status_body(output)[k]), 3)
}

/// The entry of a file line `XY path` or `XY old -> new`: (name, extra,
/// staging, worktree).
pub open spec fn status_entry_of(line: Seq<char>) -> (Seq<char>, Seq<char>, Seq<char>, Seq<char>) {
    let b = encode_utf8(line);
    let raw = decode_utf8(b.subrange(3, b.len() as int));
    match split_once_at(raw, " -> "@) {
        Some((old, new)) => (new, old, git_status_name(b[0]), git_status_name(b[1])),
        None => (raw, Seq::empty(), git_status_name(b[0]), git_status_name(b[1])),
    }
}

/// The plain value of a file entry.
pub open spec fn file_status_view(f: GitFileStatus) -> (Seq<char>, Seq<char>, Seq<char>, Seq<char>) {
    (f.name@, f.extra@, f.staging@, f.worktree@)
}

/// The entries of the file lines, in order.
pub open spec fn status_entries(body: Seq<Seq<char>>) -> Seq<(Seq<char>, Seq<char>, Seq<char>, Seq<char>)> {
    body.filter(|l: Seq<char>| is_file_line(l)).map_values(|l: Seq<char>| status_entry_of(l))
}

/// Read one file line.
fn status_entry(line: &str) -> (f: GitFileStatus)
    requires
        is_file_line(line@),
        is_char_boundary(encode_utf8(line@), 3),
    ensures
        file_status_view(f) == status_entry_of(line@),
{
    let b = line.as_bytes();
    let staging = git_file_status(b[0]);
    let worktree = git_file_status(b[1]);
    let (_, raw) = line.split_at(3);
    proof {
        encode_utf8_decode_utf8(raw@);
        assert(raw@ == decode_utf8(encode_utf8(line@).subrange(3, encode_utf8(line@).len() as int)));
    }
    match split_once_str(raw, " -> ") {
        Some((old, new)) => GitFileStatus {
            name: new,
            extra: old,
            staging: staging.to_owned(),
            worktree: worktree.to_owned(),
        },
        None => GitFileStatus {
            name: raw.to_owned(),
            extra: String::new(),
            staging: staging.to_owned(),
            worktree: worktree.to_owned(),
        },
    }
}

/// Read the count items of a branch header.
fn count_items(items: &Vec<String>) -> (r: (u32, u32))
    ensures
        r == count_items_of(views(items@)),
{
    let mut ahead: u32 = 0;
    let mut behind: u32 = 0;
    let n = items.len();
    for i in 0..n
        invariant
            n == items@.len(),
            (ahead, behind) == count_items_of(views(items@).take(i as int)),
    {
        let it = items[i].as_str();
        proof {
            reveal_strlit("ahead ");
            reveal_strlit("behind ");
            assert(views(items@).take(i + 1).drop_last() =~= views(items@).take(i as int));
            assert(views(items@).take(i + 1).last() == it@);
        }
        if let Some(v) = strip_prefix(it, "ahead ") {
            ahead = match parse_u32(v) {
                Some(x) => x,
                None => 0,
            };
        } else if let Some(v) = strip_prefix(it, "behind ") {
            behind = match parse_u32(v) {
                Some(x) => x,
                None => 0,
            };
        }
    }
    assert(views(items@).take(n as int) =~= views(items@));
    (ahead, behind)
}

/// Read a branch header: the branch, whether HEAD is detached, the
/// upstream and the ahead/behind counts.
fn git_header_fields(h: &str) -> (r: (String, bool, Option<String>, u32, u32))
    ensures
        r.0@ == header_branch(h@),
        r.1 == header_detached(h@),
        opt_string_view(r.2) == header_upstream(h@),
        (r.3, r.4) == header_counts(h@),
{
    let (branch_part, tracking) = match split_once_str(h, "...") {
        Some((b, t)) => (b, t),
        None => (h.to_owned(), String::new()),
    };
    let branch = match strip_prefix(branch_part.as_str(), "No commits yet on ") {
        Some(b) => b.to_owned(),
        None => branch_part.clone(),
    };
    let detached = starts_with(branch.as_str(), "HEAD (") || str_eq(branch.as_str(), "HEAD");
    let upstream = if tracking.as_str().unicode_len() > 0 {
        let remote = match split_once_str(tracking.as_str(), " [") {
            Some((r, _)) => r,
            None => tracking.clone(),
        };
        if remote.as_str().unicode_len() > 0 {
            Some(remote)
        } else {
            None
        }
    } else {
        None
    };
    let (ahead, behind) = match split_once_str(h, " [") {
        Some((_, counts)) => {
            let trimmed = trim_end_matches_char(counts.as_str(), ']');
            proof {
                reveal_strlit(", ");
            }
            let items = split_str(trimmed, ", ");
            count_items(&items)
        },
        None => (0, 0),
    };
    (branch, detached, upstream, ahead, behind)
}

/// Parse `git status --porcelain=v1 --branch` output: the branch header
/// (branch, detached HEAD, upstream, ahead/behind counts) and one entry per
/// changed file, renames giving the new name and the old one as `extra`.
pub fn parse_git_status(output: &str) -> (r: GitStatusResponse)
    requires
        git_status_readable(output@),
    ensures
        r.file_status@.map_values(|f: GitFileStatus| file_status_view(f)) == status_entries(status_body(output@)),
        match status_header(output@) {
            Some(h) => {
                &&& r.detached == header_detached(h)
                &&& r.current_branch@ == (if header_detached(h) { Seq::empty() } else { header_branch(h) })
                &&& opt_string_view(r.upstream) == header_upstream(h)
                &&& (r.ahead, r.behind) == header_counts(h)
            },
            None => {
                &&& !r.detached
                &&& r.current_branch@.len() == 0
                &&& r.upstream is None
                &&& r.ahead == 0 && r.behind == 0
            },
        },
        r.branch_published == r.upstream is Some,
{
    let ls = lines(output);
    let n = ls.len();
    let mut current_branch = String::new();
    let mut upstream: Option<String> = None;
    let mut detached = false;
    let mut ahead: u32 = 0;
    let mut behind: u32 = 0;
    let mut start: usize = 0;
    if n > 0 && starts_with(ls[0].as_str(), "## ") {
        let first = ls[0].as_str();
        proof {
            reveal_strlit("## ");
        }
        let header = first.substring_char(3, first.unicode_len());
        assert(header@ =~= lines_of(output@)[0].skip(3));
        let (branch, det, up, a, b) = git_header_fields(header);
        if det {
            detached = true;
        } else {
            current_branch = branch;
        }
        upstream = up;
        ahead = a;
        behind = b;
        start = 1;
    }
    let ghost body = status_body(output@);
    let ghost pred = |l: Seq<char>| is_file_line(l);
    let ghost entry = |l: Seq<char>| status_entry_of(l);
    assert(body =~= views(ls@).skip(start as int));
    let mut files: Vec<GitFileStatus> = Vec::new();
    assert(body.take(0) =~= Seq::<Seq<char>>::empty());
    for i in start..n
        invariant
            n == ls@.len(),
            start <= n,
            body == views(ls@).skip(start as int),
            body == status_body(output@),
            git_status_readable(output@),
            pred == (|l: Seq<char>| is_file_line(l)),
            entry == (|l: Seq<char>| status_entry_of(l)),
            files@.map_values(|f: GitFileStatus| file_status_view(f)) == body.take(i - start).filter(pred).map_values(entry),
    {
        let line = ls[i].as_str();
        let k = i - start;
        proof {
            assert(body[k as int] == line@);
            assert(body.take(k + 1) =~= body.take(k as int).push(line@));
            body.take(k as int).lemma_filter_push(line@, pred);
        }
        if line.as_bytes().len() >= 3 {
            proof {
                assert(is_file_line(body[k as int]));
            }
            let f = status_entry(line);
            let ghost before = files@;
            files.push(f);
            proof {
                assert(files@.map_values(|f: GitFileStatus| file_status_view(f)) =~= before.map_values(
                    |f: GitFileStatus| file_status_view(f),
                ).push(file_status_view(f)));
                assert(body.take(k + 1).filter(pred) == body.take(k as int).filter(pred).push(line@));
                assert(body.take(k + 1).filter(pred).map_values(entry) =~= body.take(k as int).filter(
                    pred,
                ).map_values(entry).push(status_entry_of(line@)));
            }
        } else {
            assert(encode_utf8(line@).len() < 3);
            assert(!is_file_line(line@));
            assert(!pred(line@));
            assert(body.take(k + 1).filter(pred) == body.take(k as int).filter(pred));
        }
    }
    assert(body.take(n - start) =~= body);
    let branch_published = upstream.is_some();
    GitStatusResponse { current_branch, file_status: files, branch_published, ahead, behind, upstream, detached }
}

} // verus!

verus! {

// ---------------------------------------------------------------------------
// Query strings
// ---------------------------------------------------------------------------

/// The text of `s` with its `%XX` escapes decoded, or `None` when the
/// decoded bytes are not UTF-8.
pub uninterp spec fn percent_decoded(s: Seq<char>) -> Option<Seq<char>>;

/// Calls `urlencoding::decode` (percent-decoding; `+` stays as it is); `None`
/// when the decoded bytes are not UTF-8. The result depends on `s` alone and
/// is named `percent_decoded`; a text without `%` comes back unchanged, as
/// the source returns its input borrowed in that case.
#[verifier::external_body]
pub(crate) fn url_decode(s: &str) -> (r: Option<String>)
    ensures
        opt_string_view(r) == percent_decoded(s@),
        !s@.contains('%') ==> opt_string_view(r) == Some(s@),
{
    urlencoding::decode(s).ok().map(|c| c.into_owned())
}

/// Why a Git request's query string is refused.
#[derive(Debug, Clone, PartialEq, Eq)]
pub enum QueryError {
    /// A parameter without `=`.
    Invalid,
    /// A name or value whose escapes do not decode to UTF-8.
    Encoding,
    /// A parameter other than the expected one.
    Unsupported(String),
    /// The expected parameter given more than once.
    Repeated(String),
    /// The expected parameter is absent.
    Missing,
}

/// The plain value of a `QueryError`.
pub enum QueryErrorView {
    Invalid,
    Encoding,
    Unsupported(Seq<char>),
    Repeated(Seq<char>),
    Missing,
}

impl View for QueryError {
    type V = QueryErrorView;

    open spec fn view(&self) -> QueryErrorView {
        match self {
            QueryError::Invalid => QueryErrorView::Invalid,
            QueryError::Encoding => QueryErrorView::Encoding,
            QueryError::Unsupported(k) => QueryErrorView::Unsupported(k@),
            QueryError::Repeated(n) => QueryErrorView::Repeated(n@),
            QueryError::Missing => QueryErrorView::Missing,
        }
    }
}

/// The message of each error.
pub open spec fn query_error_message(e: QueryErrorView) -> Seq<char> {
    match e {
        QueryErrorView::Invalid => "Invalid query parameter"@,
        QueryErrorView::Encoding => "Invalid query parameter encoding"@,
        QueryErrorView::Unsupported(k) => "Unsupported query parameter '"@ + k + "'; only 'path' is accepted"@,
        QueryErrorView::Repeated(n) => "Query parameter '"@ + n + "' may only be specified once"@,
        QueryErrorView::Missing => "Query parameter 'path' is required"@,
    }
}

impl QueryError {
    /// The message shown for the error.
    pub fn message(&self) -> (s: String)
        ensures
            s@ == query_error_message(self@),
    {
        match self {
            QueryError::Invalid => String::from_str("Invalid query parameter"),
            QueryError::Encoding => String::from_str("Invalid query parameter encoding"),
            QueryError::Unsupported(k) => {
                let mut s = String::from_str("Unsupported query parameter '");
                s.append(k.as_str());
                s.append("'; only 'path' is accepted");
                s
            },
            QueryError::Repeated(n) => {
                let mut s = String::from_str("Query parameter '");
                s.append(n.as_str());
                s.append("' may only be specified once");
                s
            },
            QueryError::Missing => String::from_str("Query parameter 'path' is required"),
        }
    }
}

/// One `key=value` pair read while looking for `name`, after the value
/// `v` found so far.
pub open spec fn query_step(pair: Seq<char>, name: Seq<char>, v: Option<Seq<char>>) -> Result<Option<Seq<char>>, QueryErrorView> {
    match split_once_spec(pair, '=', "="@) {
        None => Err(QueryErrorView::Invalid),
        Some((k, raw)) => match percent_decoded(k) {
            None => Err(QueryErrorView::Encoding),
            Some(key) => match percent_decoded(raw) {
                None => Err(QueryErrorView::Encoding),
                Some(d) => if key != name {
                    Err(QueryErrorView::Unsupported(key))
                } else if v is Some {
                    Err(QueryErrorView::Repeated(name))
                } else {
                    Ok(Some(d))
                },
            },
        },
    }
}

/// The pairs read in order; the first refused pair stops the reading.
pub open spec fn query_fold(pairs: Seq<Seq<char>>, name: Seq<char>) -> Result<Option<Seq<char>>, QueryErrorView>
    decreases pairs.len(),
{
    if pairs.len() == 0 {
        Ok(None)
    } else {
        match query_fold(pairs.drop_last(), name) {
            Err(e) => Err(e),
            Ok(v) => query_step(pairs.last(), name, v),
        }
    }
}

/// The value of the only parameter a query may hold.
pub open spec fn query_param_outcome(query: Seq<char>, name: Seq<char>) -> Result<Seq<char>, QueryErrorView> {
    match query_fold(non_empty_pieces(split_on(query, '&')), name) {
        Err(e) => Err(e),
        Ok(None) => Err(QueryErrorView::Missing),
        Ok(Some(v)) => Ok(v),
    }
}

/// Once a prefix of the pairs is refused, so is the whole query.
proof fn lemma_query_refusal_sticks(pairs: Seq<Seq<char>>, name: Seq<char>, k: int)
    requires
        0 <= k <= pairs.len(),
        query_fold(pairs.take(k), name) is Err,
    ensures
        query_fold(pairs, name) == query_fold(pairs.take(k), name),
    decreases pairs.len(),
{
    if k == pairs.len() {
        assert(pairs.take(k) =~= pairs);
    } else {
        assert(pairs.drop_last().take(k) =~= pairs.take(k));
        lemma_query_refusal_sticks(pairs.drop_last(), name, k);
    }
}

/// Read the value of the single parameter `name` of a query string: every
/// non-empty pair must be `name=value` (both percent-decoded), given once.
pub fn query_param(query: &str, name: &str) -> (r: Result<String, QueryError>)
    ensures
        match r {
            Ok(v) => query_param_outcome(query@, name@) == Ok::<Seq<char>, QueryErrorView>(v@),
            Err(e) => query_param_outcome(query@, name@) == Err::<Seq<char>, QueryErrorView>(e@),
        },
{
    let pairs = keep_non_empty(split_char(query, '&'));
    let ghost ps = views(pairs@);
    let mut value: Option<String> = None;
    let n = pairs.len();
    assert(ps.take(0) =~= Seq::<Seq<char>>::empty());
    for i in 0..n
        invariant
            n == pairs@.len(),
            ps == views(pairs@),
            ps == non_empty_pieces(split_on(query@, '&')),
            query_fold(ps.take(i as int), name@) == Ok::<Option<Seq<char>>, QueryErrorView>(opt_string_view(value)),
    {
        let pair = pairs[i].as_str();
        proof {
            assert(ps.take(i + 1).drop_last() =~= ps.take(i as int));
            assert(ps.take(i + 1).last() == pair@);
        }
        let (k, raw) = match split_once_char(pair, '=', "=") {
            Some(kr) => kr,
            None => {
                proof {
                    lemma_query_refusal_sticks(ps, name@, i + 1);
                }
                return Err(QueryError::Invalid);
            },
        };
        let key = match url_decode(k.as_str()) {
            Some(x) => x,
            None => {
                proof {
                    lemma_query_refusal_sticks(ps, name@, i + 1);
                }
                return Err(QueryError::Encoding);
            },
        };
        let decoded = match url_decode(raw.as_str()) {
            Some(x) => x,
            None => {
                proof {
                    lemma_query_refusal_sticks(ps, name@, i + 1);
                }
                return Err(QueryError::Encoding);
            },
        };
        if !str_eq(key.as_str(), name) {
            proof {
                lemma_query_refusal_sticks(ps, name@, i + 1);
            }
            return Err(QueryError::Unsupported(key));
        }
        if value.is_some() {
            proof {
                lemma_query_refusal_sticks(ps, name@, i + 1);
            }
            return Err(QueryError::Repeated(name.to_owned()));
        }
        value = Some(decoded);
    }
    assert(ps.take(n as int) =~= ps);
    match value {
        Some(v) => Ok(v),
        None => Err(QueryError::Missing),
    }
}

/// The name of a `name=value` pair (the whole pair when it has no `=`).
pub open spec fn pair_name(pair: Seq<char>) -> Seq<char> {
    match split_once_spec(pair, '=', "="@) {
        Some((n, _)) => n,
        None => pair,
    }
}

/// The value of a pair (empty when it has no `=`).
pub open spec fn pair_value(pair: Seq<char>) -> Seq<char> {
    match split_once_spec(pair, '=', "="@) {
        Some((_, v)) => v,
        None => Seq::empty(),
    }
}

/// A value percent-decoded, or as it is when it does not decode.
pub open spec fn decoded_or_raw(v: Seq<char>) -> Seq<char> {
    match percent_decoded(v) {
        Some(d) => d,
        None => v,
    }
}

/// `i` is the first pair named `key`.
pub open spec fn is_first_named(pairs: Seq<Seq<char>>, key: Seq<char>, i: int) -> bool {
    0 <= i < pairs.len() && pair_name(pairs[i]) == key && forall|j: int| 0 <= j < i ==> pair_name(#[trigger] pairs[j]) != key
}

/// The decoded value of the first pair named `key` of an optional query.
pub open spec fn llm_query_value_of(query: Option<Seq<char>>, key: Seq<char>) -> Option<Seq<char>> {
    match query {
        None => None,
        Some(q) => {
            let ps = split_on(q, '&');
            if exists|i: int| is_first_named(ps, key, i) {
                let i = choose|i: int| is_first_named(ps, key, i);
                Some(decoded_or_raw(pair_value(ps[i])))
            } else {
                None
            }
        },
    }
}

/// The value of the first parameter named `key` (percent-decoded when it
/// decodes); a pair without `=` has an empty value.
pub fn llm_query_value(query: Option<&str>, key: &str) -> (r: Option<String>)
    ensures
        opt_string_view(r) == llm_query_value_of(opt_str_view(query), key@),
{
    let q = match query {
        Some(q) => q,
        None => return None,
    };
    let pairs = split_char(q, '&');
    let ghost ps = views(pairs@);
    let n = pairs.len();
    for i in 0..n
        invariant
            n == pairs@.len(),
            ps == views(pairs@),
            ps == split_on(q@, '&'),
            opt_str_view(query) == Some(q@),
            forall|j: int| 0 <= j < i ==> pair_name(#[trigger] ps[j]) != key@,
    {
        let pair = pairs[i].as_str();
        assert(ps[i as int] == pair@);
        let (name, value) = match split_once_char(pair, '=', "=") {
            Some(nv) => nv,
            None => (pair.to_owned(), String::new()),
        };
        assert(name@ == pair_name(pair@));
        assert(value@ == pair_value(pair@));
        if str_eq(name.as_str(), key) {
            proof {
                assert(is_first_named(ps, key@, i as int));
                let w = choose|w: int| is_first_named(ps, key@, w);
                if w < i {
                    assert(pair_name(ps[w]) != key@);
                } else if w > i {
                    assert(pair_name(ps[i as int]) != key@);
                }
                assert(w == i);
                assert(llm_query_value_of(opt_str_view(query), key@) == Some(decoded_or_raw(value@)));
            }
            return match url_decode(value.as_str()) {
                Some(d) => Some(d),
                None => Some(value),
            };
        }
    }
    None
}

/// The outcome of reading a pagination parameter.
pub open spec fn pagination_outcome(query: Option<Seq<char>>, key: Seq<char>, default: usize, max: usize) -> Result<usize, Seq<char>> {
    match llm_query_value_of(query, key) {
        None => Ok(default),
        Some(raw) => match parse_usize_spec(raw) {
            None => Err(key + " must be a non-negative integer"@),
            Some(v) => if key == "limit"@ && !(1 <= v <= max) {
                Err("limit must be between 1 and "@ + dec_repr(max as nat))
            } else if key == "offset"@ && v > max {
                Err("offset must be at most "@ + dec_repr(max as nat))
            } else {
                Ok(v)
            },
        },
    }
}

/// A pagination parameter: `default` when absent; otherwise a
/// non-negative integer, a `limit` between 1 and `max`, an `offset` at most
/// `max`.
pub fn llm_pagination_value(query: Option<&str>, key: &str, default: usize, max: usize) -> (r: Result<usize, String>)
    ensures
        match r {
            Ok(v) => pagination_outcome(opt_str_view(query), key@, default, max) == Ok::<usize, Seq<char>>(v),
            Err(m) => pagination_outcome(opt_str_view(query), key@, default, max) == Err::<usize, Seq<char>>(m@),
        },
{
    let raw = match llm_query_value(query, key) {
        Some(raw) => raw,
        None => return Ok(default),
    };
    let value = match parse_usize(raw.as_str()) {
        Some(v) => v,
        None => {
            let mut m = key.to_owned();
            m.append(" must be a non-negative integer");
            return Err(m);
        },
    };
    let is_limit = str_eq(key, "limit");
    let is_offset = str_eq(key, "offset");
    if (is_limit && !(1 <= value && value <= max)) || (is_offset && value > max) {
        if is_limit {
            let mut m = String::from_str("limit must be between 1 and ");
            push_dec_u64(&mut m, max as u64);
            return Err(m);
        } else {
            let mut m = String::from_str("offset must be at most ");
            push_dec_u64(&mut m, max as u64);
            return Err(m);
        }
    }
    Ok(value)
}

/// Whether LLM usage recorded for a sandbox is visible to a caller: the
/// sandbox belongs to the caller's tenant, and to the caller unless the
/// caller is an administrator.
pub open spec fn llm_usage_visible_spec(scope: Option<(Seq<char>, Seq<char>)>, tenant: Seq<char>, user: Seq<char>, is_admin: bool) -> bool {
    match scope {
        Some((t, u)) => t == tenant && (is_admin || u == user),
        None => false,
    }
}

/// Decide whether LLM usage of a sandbox whose owner scope is `scope`
/// (tenant, user) is visible to a caller.
pub fn llm_usage_visible(scope: Option<(&str, &str)>, tenant: &str, user: &str, is_admin: bool) -> (r: bool)
    ensures
        r == llm_usage_visible_spec(
            match scope {
                Some((t, u)) => Some((t@, u@)),
                None => None,
            },
            tenant@,
            user@,
            is_admin,
        ),
{
    match scope {
        Some((t, u)) => str_eq(t, tenant) && (is_admin || str_eq(u, user)),
        None => false,
    }
}

} // verus!

verus! {

// ---------------------------------------------------------------------------
// Request bodies
// ---------------------------------------------------------------------------

/// The largest request body accepted: 16 MiB.
pub const MAX_HTTP_REQUEST_BODY_BYTES: usize = 16777216;

/// Why a request body is refused.
#[derive(Debug, Clone, Copy, PartialEq, Eq, Structural)]
pub enum BodyError {
    /// The `Content-Length` header is not a number.
    InvalidContentLength,
    /// The body is larger than the limit.
    TooLarge,
}

impl BodyError {
    /// The HTTP status of the refusal.
    pub fn status(&self) -> (s: u16)
        ensures
            s == (match self {
                BodyError::InvalidContentLength => 400u16,
                BodyError::TooLarge => 413u16,
            }),
    {
        match self {
            BodyError::InvalidContentLength => 400,
            BodyError::TooLarge => 413,
        }
    }

    /// The message of the refusal.
    pub fn message(&self) -> (s: String)
        ensures
            s@ == (match self {
                BodyError::InvalidContentLength => "Invalid Content-Length header"@,
                BodyError::TooLarge => "Request body exceeds the maximum size of "@ + dec_repr(
                    MAX_HTTP_REQUEST_BODY_BYTES as nat,
                ) + " bytes"@,
            }),
    {
        match self {
            BodyError::InvalidContentLength => String::from_str("Invalid Content-Length header"),
            BodyError::TooLarge => {
                let mut s = String::from_str("Request body exceeds the maximum size of ");
                push_dec_u64(&mut s, MAX_HTTP_REQUEST_BODY_BYTES as u64);
                s.append(" bytes");
                s
            },
        }
    }
}

/// Check the declared `Content-Length` (its text, or `None` when the header
/// is absent or not visible ASCII) before the body is read.
pub fn check_content_length(header: Option<Option<&str>>) -> (r: Result<(), BodyError>)
    ensures
        match header {
            None => r is Ok,
            Some(None) => r == Err::<(), BodyError>(BodyError::InvalidContentLength),
            Some(Some(v)) => match parse_usize_spec(v@) {
                None => r == Err::<(), BodyError>(BodyError::InvalidContentLength),
                Some(len) => if len > MAX_HTTP_REQUEST_BODY_BYTES {
                    r == Err::<(), BodyError>(BodyError::TooLarge)
                } else {
                    r is Ok
                },
            },
        },
{
    match header {
        None => Ok(()),
        Some(None) => Err(BodyError::InvalidContentLength),
        Some(Some(v)) => match parse_usize(v) {
            None => Err(BodyError::InvalidContentLength),
            Some(len) => if len > MAX_HTTP_REQUEST_BODY_BYTES {
                Err(BodyError::TooLarge)
            } else {
                Ok(())
            },
        },
    }
}

/// Check the size of a body once read.
pub fn check_body_size(len: usize) -> (r: Result<(), BodyError>)
    ensures
        r is Ok <==> len <= MAX_HTTP_REQUEST_BODY_BYTES,
        r is Err ==> r == Err::<(), BodyError>(BodyError::TooLarge),
{
    if len > MAX_HTTP_REQUEST_BODY_BYTES {
        Err(BodyError::TooLarge)
    } else {
        Ok(())
    }
}

// ---------------------------------------------------------------------------
// Identities and ownership
// ---------------------------------------------------------------------------

/// Constant-time comparison of two API keys (as bytes).
pub fn keys_equal(a: &str, b: &str) -> (r: bool)
    ensures
        r == (a@ == b@),
{
    let r = constant_time_eq(a.as_bytes(), b.as_bytes());
    proof {
        if r {
            encode_utf8_decode_utf8(a@);
            encode_utf8_decode_utf8(b@);
        }
    }
    r
}

/// Whether a key is one of the configured API keys.
pub open spec fn is_configured_key(api_keys: Seq<String>, key: Seq<char>) -> bool {
    exists|i: int| 0 <= i < api_keys.len() && #[trigger] api_keys[i]@ == key
}

/// Whether `key` is one of the configured keys (each compared in constant
/// time).
pub fn key_is_configured(api_keys: &Vec<String>, key: &str) -> (r: bool)
    ensures
        r == is_configured_key(api_keys@, key@),
{
    let n = api_keys.len();
    for i in 0..n
        invariant
            n == api_keys@.len(),
            forall|j: int| 0 <= j < i ==> api_keys@[j]@ != key@,
    {
        if keys_equal(key, api_keys[i].as_str()) {
            return true;
        }
    }
    false
}

/// The token of an `Authorization: Bearer <token>` header.
pub open spec fn bearer_token_of(header: Option<Seq<char>>) -> Option<Seq<char>> {
    match header {
        Some(h) => if has_prefix(h, "Bearer "@) {
            Some(h.skip(7))
        } else {
            None
        },
        None => None,
    }
}

/// The token of a bearer `Authorization` header.
pub fn bearer_token(header: Option<&str>) -> (r: Option<&str>)
    ensures
        opt_str_view(r) == bearer_token_of(opt_str_view(header)),
{
    match header {
        Some(h) => {
            proof {
                reveal_strlit("Bearer ");
            }
            strip_prefix(h, "Bearer ")
        },
        None => None,
    }
}

/// The identity a bearer token gives: without a JWKS endpoint the token is
/// taken as an API key; with one, a valid JWT gives its claims, and a token
/// that fails JWT validation counts only when it is a configured API key.
pub fn identity_for_token(token: &str, jwt: Option<Result<JwtClaims, JwtError>>, api_keys: &Vec<String>) -> (id: AgentIdentity)
    ensures
        match jwt {
            None => id.jwt_claims is None && (id.api_key matches Some(k) && k@ == token@),
            Some(Ok(c)) => id.jwt_claims == Some(c) && id.api_key is None,
            Some(Err(_)) => id.jwt_claims is None && if is_configured_key(api_keys@, token@) {
                (id.api_key matches Some(k) && k@ == token@)
            } else {
                id.api_key is None
            },
        },
{
    match jwt {
        None => AgentIdentity::from_api_key(token.to_owned()),
        Some(Ok(claims)) => AgentIdentity::from_jwt(claims),
        Some(Err(_)) => if key_is_configured(api_keys, token) {
            AgentIdentity::from_api_key(token.to_owned())
        } else {
            AgentIdentity::anonymous()
        },
    }
}

/// Authentication is required once API keys or a JWKS endpoint are
/// configured.
pub fn authentication_required(api_keys_configured: bool, jwks_configured: bool) -> (r: bool)
    ensures
        r == (api_keys_configured || jwks_configured),
{
    api_keys_configured || jwks_configured
}

/// What the authentication check decides before any JWT is validated.
#[derive(Debug, Clone, PartialEq, Eq)]
pub enum AuthCheck {
    /// The request is authenticated.
    Allow,
    /// The bearer token is no configured key: it passes only as a JWT that
    /// the configured key set validates.
    ValidateJwt(String),
    /// The request is refused (401) with this message.
    Deny(String),
}

/// The decision on a request's `Authorization` header.
pub open spec fn auth_check_is(required: bool, header: Option<Seq<char>>, api_keys: Seq<String>, jwks_configured: bool, r: AuthCheck) -> bool {
    if !required {
        r == AuthCheck::Allow
    } else {
        match header {
            None => r matches AuthCheck::Deny(m) && m@ == "Missing Authorization header"@,
            Some(_) => match bearer_token_of(header) {
                None => r matches AuthCheck::Deny(m) && m@ == "Invalid authorization format. Use: Bearer <api_key>"@,
                Some(t) => if is_configured_key(api_keys, t) {
                    r == AuthCheck::Allow
                } else if jwks_configured {
                    r matches AuthCheck::ValidateJwt(x) && x@ == t
                } else {
                    r matches AuthCheck::Deny(m) && m@ == "Invalid bearer token"@
                },
            },
        }
    }
}

/// Check a request's `Authorization` header: a bearer token that is one of
/// the configured API keys passes; another one goes to JWT validation when
/// a key set is configured, and is refused otherwise.
pub fn check_auth(required: bool, header: Option<&str>, api_keys: &Vec<String>, jwks_configured: bool) -> (r: AuthCheck)
    ensures
        auth_check_is(required, opt_str_view(header), api_keys@, jwks_configured, r),
{
    if !required {
        return AuthCheck::Allow;
    }
    match header {
        None => AuthCheck::Deny(String::from_str("Missing Authorization header")),
        Some(_) => match bearer_token(header) {
            None => AuthCheck::Deny(String::from_str("Invalid authorization format. Use: Bearer <api_key>")),
            Some(token) => if key_is_configured(api_keys, token) {
                AuthCheck::Allow
            } else if jwks_configured {
                AuthCheck::ValidateJwt(token.to_owned())
            } else {
                AuthCheck::Deny(String::from_str("Invalid bearer token"))
            },
        },
    }
}

/// The end of the check for a token sent to JWT validation: it passes
/// exactly when the token validated.
pub fn after_jwt_validation(valid: bool) -> (r: Result<(), String>)
    ensures
        valid ==> r is Ok,
        !valid ==> (r matches Err(m) && m@ == "Invalid bearer token"@),
{
    if valid {
        Ok(())
    } else {
        Err(String::from_str("Invalid bearer token"))
    }
}

/// Where authentication is required, a request passes the header check only
/// with a bearer token that is a configured API key; any other token must
/// still validate as a JWT, and only when a key set is configured.
pub proof fn lemma_only_configured_keys_pass(
    header: Option<Seq<char>>,
    api_keys: Seq<String>,
    jwks_configured: bool,
    r: AuthCheck,
)
    requires
        auth_check_is(true, header, api_keys, jwks_configured, r),
    ensures
        r == AuthCheck::Allow ==> (bearer_token_of(header) matches Some(t) && is_configured_key(api_keys, t)),
        r is ValidateJwt ==> jwks_configured && (bearer_token_of(header) matches Some(t) && !is_configured_key(api_keys, t)),
{
}


/// Whether a value is empty once trimmed.
fn blank(s: &str) -> (r: bool)
    ensures
        r == (trimmed(s@).len() == 0),
{
    trim_str(s).as_str().unicode_len() == 0
}

/// The organization of the identity's claims, when not blank.
pub open spec fn claimed_org(identity: AgentIdentity) -> Option<Seq<char>> {
    match identity.jwt_claims {
        Some(c) => if trimmed(c.org_id@).len() == 0 {
            None
        } else {
            Some(c.org_id@)
        },
        None => None,
    }
}

/// The subject of the identity's claims, when not blank.
pub open spec fn claimed_subject(identity: AgentIdentity) -> Option<Seq<char>> {
    match identity.jwt_claims {
        Some(c) => if trimmed(c.sub@).len() == 0 {
            None
        } else {
            Some(c.sub@)
        },
        None => None,
    }
}

/// The (tenant, user) the server has authenticated for a request: the
/// tenant is the claimed organization, else the configured one, else
/// `local`; the user is the JWT subject, or else the fingerprint of a
/// configured API key. Unauthenticated callers have none.
pub open spec fn trusted_owner_of(identity: AgentIdentity, config_org: Option<Seq<char>>, api_keys: Seq<String>) -> Option<(Seq<char>, Seq<char>)> {
    let tenant = match claimed_org(identity) {
        Some(o) => o,
        None => match config_org {
            Some(o) => o,
            None => "local"@,
        },
    };
    match claimed_subject(identity) {
        Some(s) => Some((tenant, s)),
        None => match identity.api_key {
            Some(k) => if is_configured_key(api_keys, k@) {
                Some((tenant, api_key_owner_text(k@)))
            } else {
                None
            },
            None => None,
        },
    }
}

/// Copy an optional text.
fn copy_opt_str(o: Option<&str>) -> (r: Option<String>)
    ensures
        opt_string_view(r) == opt_str_view(o),
{
    match o {
        Some(s) => Some(s.to_owned()),
        None => None,
    }
}

/// The (tenant, user) the server has authenticated for a request, if any.
pub fn trusted_owner_identity(identity: &AgentIdentity, config_org: Option<&str>, api_keys: &Vec<String>) -> (r: Option<(String, String)>)
    ensures
        match r {
            Some((t, u)) => trusted_owner_of(*identity, opt_str_view(config_org), api_keys@) == Some((t@, u@)),
            None => trusted_owner_of(*identity, opt_str_view(config_org), api_keys@) is None,
        },
{
    let tenant = match identity.org_id() {
        Some(o) if !blank(o) => o.to_owned(),
        _ => match config_org {
            Some(o) => o.to_owned(),
            None => String::from_str("local"),
        },
    };
    if let Some(s) = identity.subject() {
        if !blank(s) {
            return Some((tenant, s.to_owned()));
        }
    }
    match &identity.api_key {
        Some(k) => if key_is_configured(api_keys, k.as_str()) {
            Some((tenant, api_key_owner_id(k.as_str())))
        } else {
            None
        },
        None => None,
    }
}

/// The tenant a new sandbox is recorded under: the claimed organization,
/// or, for a configured API key, the configured organization when not
/// blank.
pub open spec fn trusted_tenant_of(identity: AgentIdentity, config_org: Option<Seq<char>>, api_keys: Seq<String>) -> Option<Seq<char>> {
    match identity.jwt_claims {
        Some(c) if trimmed(c.org_id@).len() > 0 => Some(trimmed(c.org_id@)),
        _ => match identity.api_key {
            Some(k) if is_configured_key(api_keys, k@) => match config_org {
                Some(o) if trimmed(o).len() > 0 => Some(o),
                _ => None,
            },
            _ => None,
        },
    }
}

/// Return the tenant that the server has actually authenticated for a new
/// sandbox. A bearer value alone is not enough: an unchecked token would let
/// a caller choose its organization.
pub fn trusted_tenant_for_sandbox(identity: &AgentIdentity, config_org: Option<&str>, api_keys: &Vec<String>) -> (r: Option<String>)
    ensures
        opt_string_view(r) == trusted_tenant_of(*identity, opt_str_view(config_org), api_keys@),
{
    if let Some(o) = identity.org_id() {
        let t = trim_str(o);
        if t.as_str().unicode_len() > 0 {
            return Some(t);
        }
    }
    let valid = match &identity.api_key {
        Some(k) => key_is_configured(api_keys, k.as_str()),
        None => false,
    };
    if valid {
        match config_org {
            Some(o) => if blank(o) {
                None
            } else {
                Some(o.to_owned())
            },
            None => None,
        }
    } else {
        None
    }
}

/// The organization quotas are counted against: the claimed one, else the
/// configured one, else `default`.
pub open spec fn quota_org_of(identity: AgentIdentity, config_org: Option<Seq<char>>) -> Seq<char> {
    match identity.jwt_claims {
        Some(c) => c.org_id@,
        None => match config_org {
            Some(o) => o,
            None => "default"@,
        },
    }
}

/// The organization quotas are counted against for an identity.
pub fn quota_org(identity: &AgentIdentity, config_org: Option<&str>) -> (r: String)
    ensures
        r@ == quota_org_of(*identity, opt_str_view(config_org)),
{
    match identity.org_id() {
        Some(o) => o.to_owned(),
        None => match config_org {
            Some(o) => o.to_owned(),
            None => String::from_str("default"),
        },
    }
}

/// Whether a caller may act on state owned by (`owner_user`, `owner_org`):
/// administrators may; others only on state fully owned by their own quota
/// subject (`subject_user`, `subject_org`). Partial ownership is never
/// trusted.
pub open spec fn owner_access_of(is_admin: bool, owner_user: Option<Seq<char>>, owner_org: Option<Seq<char>>, subject_user: Seq<char>, subject_org: Seq<char>) -> bool {
    is_admin || match (owner_user, owner_org) {
        (Some(u), Some(o)) => u == subject_user && o == subject_org,
        _ => false,
    }
}

/// Decide owner-scoped access for an identity.
pub fn owner_access_allowed(
    identity: &AgentIdentity,
    owner_user_id: Option<&str>,
    owner_org_id: Option<&str>,
    subject_user: &str,
    subject_org: &str,
) -> (r: bool)
    ensures
        r == owner_access_of(
            has_role_spec(*identity, "admin"@),
            opt_str_view(owner_user_id),
            opt_str_view(owner_org_id),
            subject_user@,
            subject_org@,
        ),
{
    if identity.has_role("admin") {
        return true;
    }
    match (owner_user_id, owner_org_id) {
        (Some(u), Some(o)) => str_eq(u, subject_user) && str_eq(o, subject_org),
        _ => false,
    }
}

/// Whether a caller may act on a sandbox: unowned state (recorded without
/// any owner) is open to any authenticated principal, or to anonymous
/// callers when the server requires no authentication; owned state follows
/// the owner rule.
pub open spec fn sandbox_access_of(
    trusted: bool,
    auth_required: bool,
    authenticated: bool,
    is_admin: bool,
    owner_user: Option<Seq<char>>,
    owner_org: Option<Seq<char>>,
    subject_user: Seq<char>,
    subject_org: Seq<char>,
) -> bool {
    if owner_user is None && owner_org is None {
        trusted || (!auth_required && !authenticated)
    } else {
        owner_access_of(is_admin, owner_user, owner_org, subject_user, subject_org)
    }
}

/// Decide whether an identity may read or change a sandbox, given its
/// recorded owners, whether the caller is a trusted owner, whether the
/// server requires authentication, and the caller's quota subject.
pub fn sandbox_access_allowed(
    identity: &AgentIdentity,
    owner_user_id: Option<&str>,
    owner_org_id: Option<&str>,
    trusted: bool,
    auth_required: bool,
    subject_user: &str,
    subject_org: &str,
) -> (r: bool)
    ensures
        r == sandbox_access_of(
            trusted,
            auth_required,
            identity.api_key is Some || identity.jwt_claims is Some,
            has_role_spec(*identity, "admin"@),
            opt_str_view(owner_user_id),
            opt_str_view(owner_org_id),
            subject_user@,
            subject_org@,
        ),
{
    if owner_user_id.is_none() && owner_org_id.is_none() {
        return trusted || (!auth_required && !identity.is_authenticated());
    }
    owner_access_allowed(identity, owner_user_id, owner_org_id, subject_user, subject_org)
}

/// Tenant isolation: a caller who is not an administrator reaches owned
/// state only when both recorded owners are its own quota subject.
pub proof fn lemma_owned_state_is_tenant_scoped(
    owner_user: Seq<char>,
    owner_org: Seq<char>,
    subject_user: Seq<char>,
    subject_org: Seq<char>,
    trusted: bool,
    auth_required: bool,
    authenticated: bool,
)
    ensures
        sandbox_access_of(trusted, auth_required, authenticated, false, Some(owner_user), Some(owner_org), subject_user, subject_org)
            <==> (owner_user == subject_user && owner_org == subject_org),
{
}

/// Partially recorded ownership is never trusted: without the admin role,
/// state with only one of the two owners recorded is out of reach.
pub proof fn lemma_partial_ownership_denied(
    owner: Seq<char>,
    subject_user: Seq<char>,
    subject_org: Seq<char>,
    trusted: bool,
    auth_required: bool,
    authenticated: bool,
)
    ensures
        !sandbox_access_of(trusted, auth_required, authenticated, false, Some(owner), None, subject_user, subject_org),
        !sandbox_access_of(trusted, auth_required, authenticated, false, None, Some(owner), subject_user, subject_org),
{
}

/// Administrators reach every owned sandbox.
pub proof fn lemma_admin_crosses_owners(
    owner_user: Option<Seq<char>>,
    owner_org: Option<Seq<char>>,
    subject_user: Seq<char>,
    subject_org: Seq<char>,
    trusted: bool,
    auth_required: bool,
    authenticated: bool,
)
    requires
        owner_user is Some || owner_org is Some,
    ensures
        sandbox_access_of(trusted, auth_required, authenticated, true, owner_user, owner_org, subject_user, subject_org),
{
}

/// When the server requires authentication, an anonymous caller that is
/// not a trusted owner reaches no sandbox.
pub proof fn lemma_anonymous_locked_out(
    owner_user: Option<Seq<char>>,
    owner_org: Option<Seq<char>>,
    subject_user: Seq<char>,
    subject_org: Seq<char>,
)
    requires
        owner_user is None && owner_org is None,
    ensures
        !sandbox_access_of(false, true, false, false, owner_user, owner_org, subject_user, subject_org),
{
}

/// The owner recorded for a start request: the fingerprint of its bearer
/// token, or `anonymous` without one.
pub open spec fn start_owner_of(token: Option<Seq<char>>) -> Seq<char> {
    match token {
        Some(t) => if t.len() > 0 {
            api_key_owner_text(t)
        } else {
            "anonymous"@
        },
        None => "anonymous"@,
    }
}

/// The owner recorded for a start request carrying `token` (the bearer
/// token of the request, or the local API key for CLI starts).
pub fn start_request_owner_id(token: Option<&str>) -> (r: String)
    ensures
        r@ == start_owner_of(opt_str_view(token)),
{
    match token {
        Some(t) => if t.unicode_len() > 0 {
            api_key_owner_id(t)
        } else {
            String::from_str("anonymous")
        },
        None => String::from_str("anonymous"),
    }
}

} // verus!

verus! {

// ---------------------------------------------------------------------------
// Backends
// ---------------------------------------------------------------------------

/// `char::to_ascii_lowercase`.
pub open spec fn ascii_lower(c: char) -> char {
    if 'A' <= c <= 'Z' {
        ((c as u32) + 32) as char
    } else {
        c
    }
}

/// Whether two texts are equal ignoring ASCII case.
pub open spec fn eq_ignore_ascii_case_spec(a: Seq<char>, b: Seq<char>) -> bool {
    a.len() == b.len() && forall|i: int| 0 <= i < a.len() ==> ascii_lower(#[trigger] a[i]) == ascii_lower(b[i])
}

/// Lowercase an ASCII letter.
fn lower_char(c: char) -> (r: char)
    ensures
        r == ascii_lower(c),
{
    if 'A' <= c && c <= 'Z' {
        let b: u8 = ((c as u32) + 32) as u8;
        b as char
    } else {
        c
    }
}

/// Whether two texts are equal ignoring ASCII case.
fn eq_ignore_ascii_case(a: &str, b: &str) -> (r: bool)
    ensures
        r == eq_ignore_ascii_case_spec(a@, b@),
{
    let av = chars_of(a);
    let bv = chars_of(b);
    if av.len() != bv.len() {
        return false;
    }
    let n = av.len();
    for i in 0..n
        invariant
            n == av@.len(),
            n == bv@.len(),
            av@ == a@,
            bv@ == b@,
            forall|j: int| 0 <= j < i ==> ascii_lower(#[trigger] a@[j]) == ascii_lower(b@[j]),
    {
        if lower_char(av[i]) != lower_char(bv[i]) {
            return false;
        }
    }
    true
}

/// The backend a create request names: none (automatic selection) when the
/// value is absent, blank, `auto` or `automatic` in any case; otherwise the
/// trimmed name, to be parsed as a backend type.
pub open spec fn backend_selection_of(value: Option<Seq<char>>) -> Option<Seq<char>> {
    match value {
        None => None,
        Some(v) => {
            let t = trimmed(v);
            if t.len() == 0 || eq_ignore_ascii_case_spec(t, "automatic"@) || eq_ignore_ascii_case_spec(t, "auto"@) {
                None
            } else {
                Some(t)
            }
        },
    }
}

/// The first of the known backend names that equals `name` ignoring ASCII
/// case.
pub open spec fn first_known_backend(known: Seq<Seq<char>>, name: Seq<char>) -> Option<Seq<char>>
    decreases known.len(),
{
    if known.len() == 0 {
        None
    } else if eq_ignore_ascii_case_spec(known[0], name) {
        Some(known[0])
    } else {
        first_known_backend(known.skip(1), name)
    }
}

/// The backend selection of a create request: `Ok(None)` for automatic
/// selection, the known backend the name stands for, or `Err` with the
/// name when no known backend has it.
pub open spec fn backend_choice_of(value: Option<Seq<char>>, known: Seq<Seq<char>>) -> Result<Option<Seq<char>>, Seq<char>> {
    match backend_selection_of(value) {
        None => Ok(None),
        Some(name) => match first_known_backend(known, name) {
            Some(b) => Ok(Some(b)),
            None => Err(name),
        },
    }
}

/// Read the backend selection of a create request against the names of the
/// known backend types (as the backend module lists them): `None` for
/// automatic selection, else the backend named, in any ASCII case. An
/// unknown name is refused and given back in the error.
pub fn parse_backend_selection(value: Option<&str>, known: &Vec<String>) -> (r: Result<Option<String>, String>)
    ensures
        match backend_choice_of(opt_str_view(value), views(known@)) {
            Ok(c) => r matches Ok(x) && opt_string_view(x) == c,
            Err(name) => r matches Err(e) && e@ == name,
        },
{
    let t = match value {
        None => return Ok(None),
        Some(v) => trim_str(v),
    };
    if t.as_str().unicode_len() == 0 || eq_ignore_ascii_case(t.as_str(), "automatic") || eq_ignore_ascii_case(
        t.as_str(),
        "auto",
    ) {
        return Ok(None);
    }
    let n = known.len();
    assert(views(known@).skip(0) =~= views(known@));
    for i in 0..n
        invariant
            n == known@.len(),
            backend_selection_of(opt_str_view(value)) == Some(t@),
            first_known_backend(views(known@), t@) == first_known_backend(views(known@).skip(i as int), t@),
    {
        let ghost rest = views(known@).skip(i as int);
        assert(rest.skip(1) =~= views(known@).skip(i + 1));
        assert(rest[0] == known@[i as int]@);
        if eq_ignore_ascii_case(known[i].as_str(), t.as_str()) {
            return Ok(Some(known[i].clone()));
        }
    }
    assert(views(known@).skip(n as int) =~= Seq::<Seq<char>>::empty());
    Err(t)
}

/// The status shown for a sandbox: the status its recorded state gives
/// for the current process state, else `running` or `stopped`.
pub fn sandbox_status(recorded: Option<&str>, running: bool) -> (r: String)
    ensures
        r@ == match recorded {
            Some(s) => s@,
            None => if running {
                "running"@
            } else {
                "stopped"@
            },
        },
{
    match recorded {
        Some(s) => s.to_owned(),
        None => if running {
            String::from_str("running")
        } else {
            String::from_str("stopped")
        },
    }
}

/// Host volume mounts are refused on a backend without host volumes.
pub fn validate_backend_volume_support(backend: &str, host_volumes: bool, specs: &Vec<String>) -> (r: Result<(), String>)
    ensures
        r is Err <==> (specs@.len() > 0 && !host_volumes),
        r matches Err(m) ==> m@ == "Backend '"@ + backend@ + "' does not support host volume mounts"@,
{
    if specs.len() > 0 && !host_volumes {
        let mut m = String::from_str("Backend '");
        m.append(backend);
        m.append("' does not support host volume mounts");
        Err(m)
    } else {
        Ok(())
    }
}

/// How ready a backend is on this host.
#[derive(Debug, Clone)]
pub struct BackendReadiness {
    pub backend: String,
    pub configured: bool,
    pub usable: bool,
    pub reason: String,
}

/// One backend as the discovery endpoint reports it.
#[derive(Debug, Clone)]
pub struct BackendDescriptor {
    pub backend: String,
    pub configured: bool,
    pub usable: bool,
    pub readiness_reason: String,
}

/// The backends the server knows and the one automatic creation uses.
#[derive(Debug, Clone)]
pub struct BackendDiscovery {
    pub default_backend: Option<String>,
    pub backends: Vec<BackendDescriptor>,
}

/// A descriptor reports its backend's readiness as it is.
pub open spec fn describes(d: BackendDescriptor, r: BackendReadiness) -> bool {
    d.backend@ == r.backend@ && d.configured == r.configured && d.usable == r.usable && d.readiness_reason@
        == r.reason@
}

/// The discovery document: one descriptor per backend, in order, each
/// reporting that backend's readiness, and the automatic default.
pub fn backend_discovery(default_backend: Option<&str>, readiness: &Vec<BackendReadiness>) -> (d: BackendDiscovery)
    ensures
        opt_string_view(d.default_backend) == opt_str_view(default_backend),
        d.backends@.len() == readiness@.len(),
        forall|i: int| 0 <= i < readiness@.len() ==> describes(#[trigger] d.backends@[i], readiness@[i]),
{
    let mut backends: Vec<BackendDescriptor> = Vec::new();
    let n = readiness.len();
    for i in 0..n
        invariant
            n == readiness@.len(),
            backends@.len() == i,
            forall|j: int| 0 <= j < i ==> describes(#[trigger] backends@[j], readiness@[j]),
    {
        let r = &readiness[i];
        backends.push(
            BackendDescriptor {
                backend: r.backend.clone(),
                configured: r.configured,
                usable: r.usable,
                readiness_reason: r.reason.clone(),
            },
        );
    }
    BackendDiscovery { default_backend: copy_opt_str(default_backend), backends }
}

} // verus!

verus! {

// ---------------------------------------------------------------------------
// Sandbox state fingerprints
// ---------------------------------------------------------------------------

/// The fingerprint a delegated start binds to: the lowercase hex SHA-256
/// of the canonical JSON text of the sandbox's recorded state.
pub fn sandbox_state_sha256(state: &JsonValue) -> (r: String)
    ensures
        r@ == sha256_hex_of_text(canonical(*state)),
{
    let mut text = String::new();
    write_canonical_json(state, &mut text);
    sha256_hex(text.as_str())
}

/// A state's fingerprint depends on the state's value alone: two records
/// that hold the same values, with the keys of every object, at any depth,
/// inserted in whatever order, have the same fingerprint.
pub proof fn lemma_state_hash_ignores_entry_order(a: JsonValue, b: JsonValue)
    requires
        json_equiv(a, b),
    ensures
        sha256_hex_of_text(canonical(a)) == sha256_hex_of_text(canonical(b)),
{
    lemma_canonical_respects_equiv(a, b);
}

} // verus!

verus! {

// ---------------------------------------------------------------------------
// Files injected at start
// ---------------------------------------------------------------------------

/// The standard base64 text of some bytes.
pub uninterp spec fn base64_encoded(data: Seq<u8>) -> Seq<char>;

/// The bytes a standard base64 text decodes to, or `None` when it is not
/// valid base64.
pub uninterp spec fn base64_decoded(text: Seq<char>) -> Option<Seq<u8>>;

/// Calls `base64::Engine::encode` with the standard engine (padded, `+` and
/// `/`). The text depends on the bytes alone and is named
/// `base64_encoded`; decoding it with the same engine gives the bytes back.
#[verifier::external_body]
fn base64_encode(data: &[u8]) -> (r: String)
    ensures
        r@ == base64_encoded(data@),
        base64_decoded(r@) == Some(data@),
{
    base64::Engine::encode(&base64::engine::general_purpose::STANDARD, data)
}

/// Calls `base64::Engine::decode` with the standard engine; `None` on a
/// decoding error. The result depends on the text alone and is named
/// `base64_decoded`.
#[verifier::external_body]
fn base64_decode(text: &str) -> (r: Option<Vec<u8>>)
    ensures
        match r {
            Some(v) => base64_decoded(text@) == Some(v@),
            None => base64_decoded(text@) is None,
        },
{
    base64::Engine::decode(&base64::engine::general_purpose::STANDARD, text).ok()
}

/// A file written into a sandbox before it starts.
#[derive(Debug, Clone)]
pub struct FileInjection {
    pub dest: String,
    pub content: Vec<u8>,
}

/// A file of a persisted start configuration: its destination and its
/// content in base64.
#[derive(Debug, Clone)]
pub struct StartFileInjectionRequest {
    pub dest: String,
    pub content_base64: String,
}

/// The persisted form of the files to inject: same destinations, contents
/// in base64.
pub fn persisted_start_files(files: &Vec<FileInjection>) -> (r: Vec<StartFileInjectionRequest>)
    ensures
        r@.len() == files@.len(),
        forall|k: int| 0 <= k < files@.len() ==> {
            &&& (#[trigger] r@[k]).dest@ == files@[k].dest@
            &&& r@[k].content_base64@ == base64_encoded(files@[k].content@)
            &&& base64_decoded(r@[k].content_base64@) == Some(files@[k].content@)
        },
{
    let mut r: Vec<StartFileInjectionRequest> = Vec::new();
    let n = files.len();
    for i in 0..n
        invariant
            n == files@.len(),
            r@.len() == i,
            forall|k: int| 0 <= k < i ==> {
                &&& (#[trigger] r@[k]).dest@ == files@[k].dest@
                &&& r@[k].content_base64@ == base64_encoded(files@[k].content@)
                &&& base64_decoded(r@[k].content_base64@) == Some(files@[k].content@)
            },
    {
        let f = &files[i];
        let text = base64_encode(f.content.as_slice());
        r.push(StartFileInjectionRequest { dest: f.dest.clone(), content_base64: text });
    }
    r
}

/// The files a persisted configuration injects, each content decoded; the
/// first file whose content is not base64 is reported by its destination.
pub open spec fn decoded_start_files(reqs: Seq<StartFileInjectionRequest>) -> Result<Seq<(Seq<char>, Seq<u8>)>, Seq<char>>
    decreases reqs.len(),
{
    if reqs.len() == 0 {
        Ok(Seq::empty())
    } else {
        match decoded_start_files(reqs.drop_last()) {
            Err(m) => Err(m),
            Ok(done) => match base64_decoded(reqs.last().content_base64@) {
                Some(bytes) => Ok(done.push((reqs.last().dest@, bytes))),
                None => Err("invalid base64 content for startup file '"@ + reqs.last().dest@ + "'"@),
            },
        }
    }
}

/// The plain values of injected files.
pub open spec fn injection_views(fs: Seq<FileInjection>) -> Seq<(Seq<char>, Seq<u8>)> {
    fs.map_values(|f: FileInjection| (f.dest@, f.content@))
}

/// Once a prefix fails to decode, so does the whole list.
proof fn lemma_decode_failure_sticks(reqs: Seq<StartFileInjectionRequest>, k: int)
    requires
        0 <= k <= reqs.len(),
        decoded_start_files(reqs.take(k)) is Err,
    ensures
        decoded_start_files(reqs) == decoded_start_files(reqs.take(k)),
    decreases reqs.len(),
{
    if k == reqs.len() {
        assert(reqs.take(k) =~= reqs);
    } else {
        assert(reqs.drop_last().take(k) =~= reqs.take(k));
        lemma_decode_failure_sticks(reqs.drop_last(), k);
    }
}

/// Decode the files of a persisted start configuration.
pub fn injected_start_files(reqs: &Vec<StartFileInjectionRequest>) -> (r: Result<Vec<FileInjection>, String>)
    ensures
        match r {
            Ok(fs) => decoded_start_files(reqs@) == Ok::<Seq<(Seq<char>, Seq<u8>)>, Seq<char>>(injection_views(fs@)),
            Err(m) => decoded_start_files(reqs@) == Err::<Seq<(Seq<char>, Seq<u8>)>, Seq<char>>(m@),
        },
{
    let mut fs: Vec<FileInjection> = Vec::new();
    let n = reqs.len();
    assert(reqs@.take(0) =~= Seq::<StartFileInjectionRequest>::empty());
    assert(injection_views(fs@) =~= Seq::<(Seq<char>, Seq<u8>)>::empty());
    for i in 0..n
        invariant
            n == reqs@.len(),
            decoded_start_files(reqs@.take(i as int)) == Ok::<Seq<(Seq<char>, Seq<u8>)>, Seq<char>>(injection_views(fs@)),
    {
        proof {
            assert(reqs@.take(i + 1).drop_last() =~= reqs@.take(i as int));
            assert(reqs@.take(i + 1).last() == reqs@[i as int]);
        }
        let q = &reqs[i];
        match base64_decode(q.content_base64.as_str()) {
            Some(bytes) => {
                let ghost before = fs@;
                fs.push(FileInjection { dest: q.dest.clone(), content: bytes });
                assert(injection_views(fs@) =~= injection_views(before).push((q.dest@, bytes@)));
            },
            None => {
                let mut m = String::from_str("invalid base64 content for startup file '");
                m.append(q.dest.as_str());
                m.append("'");
                proof {
                    lemma_decode_failure_sticks(reqs@, i + 1);
                }
                return Err(m);
            },
        }
    }
    assert(reqs@.take(n as int) =~= reqs@);
    Ok(fs)
}

/// Decoding what was persisted gives back the files: the same
/// destinations and contents, in order.
pub proof fn lemma_start_files_roundtrip(files: Seq<FileInjection>, reqs: Seq<StartFileInjectionRequest>)
    requires
        reqs.len() == files.len(),
        forall|k: int| 0 <= k < files.len() ==> (#[trigger] reqs[k]).dest@ == files[k].dest@ && base64_decoded(reqs[k].content_base64@)
            == Some(files[k].content@),
    ensures
        decoded_start_files(reqs) == Ok::<Seq<(Seq<char>, Seq<u8>)>, Seq<char>>(injection_views(files)),
    decreases files.len(),
{
    if files.len() == 0 {
        assert(injection_views(files) =~= Seq::<(Seq<char>, Seq<u8>)>::empty());
    } else {
        let fi = files.drop_last();
        let ri = reqs.drop_last();
        assert forall|k: int| 0 <= k < fi.len() implies (#[trigger] ri[k]).dest@ == fi[k].dest@ && base64_decoded(ri[k].content_base64@)
            == Some(fi[k].content@) by {
            assert(ri[k] == reqs[k] && fi[k] == files[k]);
        }
        lemma_start_files_roundtrip(fi, ri);
        assert(reqs.last() == reqs[reqs.len() - 1]);
        assert(injection_views(files) =~= injection_views(fi).push((files.last().dest@, files.last().content@)));
    }
}

/// How long a persisted start configuration stays usable, in seconds.
pub const START_CONFIGURATION_LIFETIME: u64 = 300;

/// The expiry written into a start configuration persisted at the instant
/// `now`: five minutes later, as the RFC 3339 text of a UTC instant. `None`
/// only where that moment is past the end of chrono's range of dates.
pub fn start_expiry_at(now: (i64, u32)) -> (r: Option<String>)
    ensures
        match r {
            Some(t) => rfc3339_after_of(now, START_CONFIGURATION_LIFETIME) == Some(t@),
            None => rfc3339_after_of(now, START_CONFIGURATION_LIFETIME) is None,
        },
        clock_instant(now) && now.0 + START_CONFIGURATION_LIFETIME <= LATEST_TIMESTAMP ==> r is Some,
        r matches Some(t) ==> is_utc_rfc3339(t@),
        r matches Some(t) ==> (clock_instant(now) && now.0 + START_CONFIGURATION_LIFETIME <= LAST_FOUR_DIGIT_YEAR
            ==> rfc3339_instant(t@) == Some(((now.0 + START_CONFIGURATION_LIFETIME) as i64, now.1))),
{
    rfc3339_after(now, START_CONFIGURATION_LIFETIME)
}

/// A start configuration lasts five minutes: one whose expiry reads back as
/// five minutes after the instant `written` (as `start_expiry_at` writes
/// it) is accepted, for its own sandbox and owner, at every instant up to
/// then, and refused as expired at every instant after.
pub proof fn lemma_start_configuration_lasts_five_minutes(
    expiry: Seq<char>,
    written: (i64, u32),
    later: (i64, u32),
    stored: PersistedStartBinding,
    owner: Seq<char>,
)
    requires
        rfc3339_instant(expiry) == Some(((written.0 + START_CONFIGURATION_LIFETIME) as i64, written.1)),
    ensures
        start_claim_outcome(passed_at(expiry, later), stored, owner, stored, owner) == if instant_after(
            later,
            ((written.0 + START_CONFIGURATION_LIFETIME) as i64, written.1),
        ) {
            Err::<(), StartClaimError>(StartClaimError::Expired)
        } else {
            Ok(())
        },
{
}

/// The expiry written into a start configuration persisted now: five
/// minutes after what the clock reads.
pub fn persisted_start_expiry() -> (r: Option<String>)
    ensures
        exists|now: (i64, u32)|
            clock_instant(now) && match r {
                Some(t) => rfc3339_after_of(now, START_CONFIGURATION_LIFETIME) == Some(t@),
                None => rfc3339_after_of(now, START_CONFIGURATION_LIFETIME) is None,
            },
        r matches Some(t) ==> is_utc_rfc3339(t@),
{
    let now = utc_now_instant();
    start_expiry_at(now)
}

} // verus!

verus! {

// ---------------------------------------------------------------------------
// Error responses
// ---------------------------------------------------------------------------

/// `s` with ASCII letters lowercased.
pub open spec fn ascii_lowered(s: Seq<char>) -> Seq<char> {
    s.map_values(|c: char| ascii_lower(c))
}

/// The characters of `s`, ASCII letters lowercased.
fn lowered_chars(s: &str) -> (r: Vec<char>)
    ensures
        r@ == ascii_lowered(s@),
{
    let cs = chars_of(s);
    let mut r: Vec<char> = Vec::new();
    let n = cs.len();
    for i in 0..n
        invariant
            n == cs@.len(),
            cs@ == s@,
            r@ == ascii_lowered(s@.take(i as int)),
    {
        let ghost before = r@;
        r.push(lower_char(cs[i]));
        assert(r@ =~= ascii_lowered(s@.take(i + 1)));
    }
    assert(s@.take(n as int) =~= s@);
    r
}

/// Whether the text `t` (given as characters) contains `p`.
fn chars_contain(t: &Vec<char>, p: &str) -> (r: bool)
    ensures
        r == has_substring(t@, p@),
{
    let pv = chars_of(p);
    let n = t.len();
    let m = pv.len();
    if m > n {
        assert forall|i: int| !occurs_at(t@, p@, i) by {}
        return false;
    }
    let mut i: usize = 0;
    let last = n - m;
    while i <= last
        invariant
            n == t@.len(),
            m == p@.len(),
            pv@ == p@,
            m <= n,
            last == n - m,
            i <= last + 1,
            forall|j: int| 0 <= j < i ==> !occurs_at(t@, p@, j),
        decreases n - i,
    {
        let mut k: usize = 0;
        while k < m && t[i + k] == pv[k]
            invariant
                n == t@.len(),
                m == p@.len(),
                pv@ == p@,
                i + m <= n,
                k <= m,
                forall|q: int| 0 <= q < k ==> t@[i + q] == p@[q],
            decreases m - k,
        {
            k = k + 1;
        }
        if k == m {
            assert(t@.subrange(i as int, i + m) =~= p@);
            assert(occurs_at(t@, p@, i as int));
            return true;
        }
        assert(!occurs_at(t@, p@, i as int)) by {
            assert(t@.subrange(i as int, i + m)[k as int] != p@[k as int]);
        }
        i = i + 1;
    }
    assert forall|j: int| !occurs_at(t@, p@, j) by {
        if 0 <= j < i {
        }
    }
    false
}

/// The HTTP status of a failed lifecycle operation, read from its message
/// (compared without ASCII case): 404 for what is missing, 422 for what the
/// backend cannot do, 409 for a state conflict, 500 otherwise.
pub open spec fn lifecycle_status_of(message: Seq<char>) -> u16 {
    let n = ascii_lowered(message);
    if has_substring(n, "not found"@) {
        404
    } else if has_substring(n, "not support"@) || has_substring(n, "unsupported"@) || has_substring(n, "requires firecracker"@)
        || has_substring(n, "requires linux x86_64"@) || has_substring(n, "firecracker backend"@) {
        422
    } else if has_substring(n, "already"@) || has_substring(n, "must be"@) || has_substring(n, "not running"@)
        || has_substring(n, "not paused"@) || has_substring(n, "is paused"@) || has_substring(n, "cold start"@)
        || has_substring(n, "refusing to stop"@) || has_substring(n, "cannot pause"@) || has_substring(n, "cannot resume"@)
        || has_substring(n, "cannot fork"@) {
        409
    } else {
        500
    }
}

/// The response to a failed lifecycle operation (`operation` on a sandbox,
/// with the full error chain as `message`): its status and its text.
pub fn sandbox_lifecycle_error(operation: &str, message: &str) -> (r: (u16, String))
    ensures
        r.0 == lifecycle_status_of(message@),
        r.1@ == "Failed to "@ + operation@ + " sandbox: "@ + message@,
{
    let n = lowered_chars(message);
    let status: u16 = if chars_contain(&n, "not found") {
        404
    } else if chars_contain(&n, "not support") || chars_contain(&n, "unsupported") || chars_contain(&n, "requires firecracker")
        || chars_contain(&n, "requires linux x86_64") || chars_contain(&n, "firecracker backend") {
        422
    } else if chars_contain(&n, "already") || chars_contain(&n, "must be") || chars_contain(&n, "not running")
        || chars_contain(&n, "not paused") || chars_contain(&n, "is paused") || chars_contain(&n, "cold start")
        || chars_contain(&n, "refusing to stop") || chars_contain(&n, "cannot pause") || chars_contain(&n, "cannot resume")
        || chars_contain(&n, "cannot fork") {
        409
    } else {
        500
    };
    let mut text = String::from_str("Failed to ");
    text.append(operation);
    text.append(" sandbox: ");
    text.append(message);
    (status, text)
}

/// The message of a failed Git command: with the exit code and trimmed
/// output when the command ran and failed, else with the error.
pub open spec fn git_error_detail_of(operation: Seq<char>, failure: Result<(i32, Seq<char>), Seq<char>>) -> Seq<char> {
    match failure {
        Ok((code, output)) => "git "@ + operation + " failed (exit code "@ + signed_dec_repr(code as int) + "): "@ + trimmed(output),
        Err(error) => "git "@ + operation + " failed: "@ + error,
    }
}

/// The message reported when a Git command fails: `failure` is the exit
/// code and output of a command that ran, or the error that kept it from
/// running.
pub fn git_command_error(operation: &str, failure: Result<(i32, &str), &str>) -> (r: String)
    ensures
        r@ == git_error_detail_of(
            operation@,
            match failure {
                Ok((c, o)) => Ok((c, o@)),
                Err(e) => Err(e@),
            },
        ),
{
    let mut r = String::from_str("git ");
    r.append(operation);
    match failure {
        Ok((code, output)) => {
            r.append(" failed (exit code ");
            push_dec_i64(&mut r, code as i64);
            r.append("): ");
            let t = trim_str(output);
            r.append(t.as_str());
        },
        Err(error) => {
            r.append(" failed: ");
            r.append(error);
        },
    }
    r
}

} // verus!

verus! {

// ---------------------------------------------------------------------------
// Request dispatch gates
// ---------------------------------------------------------------------------

/// The HTTP methods the API routes on.
#[derive(Debug, Clone, Copy, PartialEq, Eq, Structural)]
pub enum HttpMethod {
    Get,
    Post,
    Put,
    Patch,
    Delete,
    Other,
}

/// The endpoints served without authentication.
#[derive(Debug, Clone, Copy, PartialEq, Eq, Structural)]
pub enum PublicEndpoint {
    Health,
    Status,
    Metrics,
    Stats,
}

/// The public endpoint a request addresses: `GET /health`, `/status`,
/// `/metrics` or `/stats`.
pub open spec fn public_endpoint_of(method: HttpMethod, segs: Seq<Seq<char>>) -> Option<PublicEndpoint> {
    if method == HttpMethod::Get && segs.len() == 1 {
        if segs[0] == "health"@ {
            Some(PublicEndpoint::Health)
        } else if segs[0] == "status"@ {
            Some(PublicEndpoint::Status)
        } else if segs[0] == "metrics"@ {
            Some(PublicEndpoint::Metrics)
        } else if segs[0] == "stats"@ {
            Some(PublicEndpoint::Stats)
        } else {
            None
        }
    } else {
        None
    }
}

/// The endpoint a request addresses when it is one of those served before
/// authentication.
pub fn public_endpoint(method: HttpMethod, segments: &Vec<String>) -> (r: Option<PublicEndpoint>)
    ensures
        r == public_endpoint_of(method, views(segments@)),
{
    if method != HttpMethod::Get || segments.len() != 1 {
        return None;
    }
    let s = segments[0].as_str();
    if str_eq(s, "health") {
        Some(PublicEndpoint::Health)
    } else if str_eq(s, "status") {
        Some(PublicEndpoint::Status)
    } else if str_eq(s, "metrics") {
        Some(PublicEndpoint::Metrics)
    } else if str_eq(s, "stats") {
        Some(PublicEndpoint::Stats)
    } else {
        None
    }
}

/// What follows the authentication check.
#[derive(Debug, Clone, Copy, PartialEq, Eq, Structural)]
pub enum AuthGate {
    /// Go on to routing.
    Proceed,
    /// Answer with the authentication failure.
    Reject,
    /// Answer with SCIM's authentication-required error.
    ScimAuthenticationRequired,
}

/// SCIM provisioning is always privileged: it needs a successful check and
/// configured API keys, and its refusals use SCIM's own error; other routes
/// need a successful check.
pub open spec fn auth_gate_of(authenticated: bool, scim: bool, api_keys_configured: bool) -> AuthGate {
    if !authenticated {
        if scim {
            AuthGate::ScimAuthenticationRequired
        } else {
            AuthGate::Reject
        }
    } else if scim && !api_keys_configured {
        AuthGate::ScimAuthenticationRequired
    } else {
        AuthGate::Proceed
    }
}

/// Whether a path is under `/scim`.
pub open spec fn is_scim_path(segs: Seq<Seq<char>>) -> bool {
    segs.len() > 0 && segs[0] == "scim"@
}

/// Decide what follows authentication for a request with these segments.
pub fn auth_gate(authenticated: bool, segments: &Vec<String>, api_keys_configured: bool) -> (r: AuthGate)
    ensures
        r == auth_gate_of(authenticated, is_scim_path(views(segments@)), api_keys_configured),
{
    let scim = segments.len() > 0 && str_eq(segments[0].as_str(), "scim");
    if !authenticated {
        if scim {
            AuthGate::ScimAuthenticationRequired
        } else {
            AuthGate::Reject
        }
    } else if scim && !api_keys_configured {
        AuthGate::ScimAuthenticationRequired
    } else {
        AuthGate::Proceed
    }
}

/// The sandbox whose ownership a request must pass before dispatch: the
/// name after `/sandboxes/`, except for the name-independent routes
/// (`import-config`, `by-uuid`), the legacy config import
/// (`POST /sandboxes/{name}/config`) and start (`POST
/// /sandboxes/{name}/start`, which checks ownership after its one-shot
/// token).
pub open spec fn sandbox_gate_of(method: HttpMethod, segs: Seq<Seq<char>>) -> Option<Seq<char>> {
    if segs.len() >= 2 && segs[0] == "sandboxes"@ && segs[1] != "import-config"@ && segs[1] != "by-uuid"@
        && !(method == HttpMethod::Post && segs.len() == 3 && segs[2] == "config"@)
        && !(method == HttpMethod::Post && segs.len() == 3 && segs[2] == "start"@) {
        Some(segs[1])
    } else {
        None
    }
}

/// The sandbox a request must be allowed to act on before it is
/// dispatched, if any.
pub fn sandbox_gate(method: HttpMethod, segments: &Vec<String>) -> (r: Option<String>)
    ensures
        opt_string_view(r) == sandbox_gate_of(method, views(segments@)),
{
    let n = segments.len();
    if n < 2 || !str_eq(segments[0].as_str(), "sandboxes") {
        return None;
    }
    let name = segments[1].as_str();
    if str_eq(name, "import-config") || str_eq(name, "by-uuid") {
        return None;
    }
    if method == HttpMethod::Post && n == 3 && (str_eq(segments[2].as_str(), "config") || str_eq(segments[2].as_str(), "start")) {
        return None;
    }
    Some(name.to_owned())
}

/// Only `GET /health`, `/status`, `/metrics` and `/stats` are served
/// without authentication.
pub proof fn lemma_public_endpoints(method: HttpMethod, segs: Seq<Seq<char>>)
    ensures
        public_endpoint_of(method, segs) is Some ==> method == HttpMethod::Get && segs.len() == 1 && (segs[0] == "health"@
            || segs[0] == "status"@ || segs[0] == "metrics"@ || segs[0] == "stats"@),
{
}

/// SCIM is never reached without configured API keys and a successful
/// authentication check.
pub proof fn lemma_scim_is_privileged(authenticated: bool, api_keys_configured: bool)
    ensures
        auth_gate_of(authenticated, true, api_keys_configured) == AuthGate::Proceed ==> authenticated && api_keys_configured,
        auth_gate_of(authenticated, true, api_keys_configured) != AuthGate::Reject,
{
}

/// Every route below `/sandboxes/{name}/...` that acts on an existing
/// sandbox (all but the config import and start) passes the ownership
/// gate for that name.
pub proof fn lemma_sandbox_routes_are_gated(method: HttpMethod, segs: Seq<Seq<char>>)
    requires
        segs.len() >= 2,
        segs[0] == "sandboxes"@,
        segs[1] != "import-config"@,
        segs[1] != "by-uuid"@,
        segs.len() != 3 || method != HttpMethod::Post || (segs[2] != "config"@ && segs[2] != "start"@),
    ensures
        sandbox_gate_of(method, segs) == Some(segs[1]),
{
}

} // verus!

verus! {

// ---------------------------------------------------------------------------
// Response envelope
// ---------------------------------------------------------------------------

/// The envelope of every JSON response: success with data, or failure with
/// an error message.
#[derive(Debug)]
pub struct ApiResponse<T> {
    pub success: bool,
    pub data: Option<T>,
    pub error: Option<String>,
}

impl<T> ApiResponse<T> {
    /// A successful response carrying `data`.
    pub fn success(data: T) -> (r: Self)
        ensures
            r.success,
            r.data == Some(data),
            r.error is None,
    {
        ApiResponse { success: true, data: Some(data), error: None }
    }

    /// A failed response carrying `msg`.
    pub fn error(msg: &str) -> (r: ApiResponse<()>)
        ensures
            !r.success,
            r.data is None,
            r.error matches Some(e) && e@ == msg@,
    {
        ApiResponse { success: false, data: None, error: Some(msg.to_owned()) }
    }
}

// ---------------------------------------------------------------------------
// First claim of a CLI-created sandbox
// ---------------------------------------------------------------------------

/// What a start does about a sandbox's ownership.
#[derive(Debug, Clone, PartialEq, Eq)]
pub enum ClaimDecision {
    /// Leave the recorded ownership as it is.
    Keep,
    /// Refuse as if the sandbox did not exist (404).
    Deny,
    /// Refuse: a trusted identity is required (403).
    Forbidden,
    /// Record these owners: tenant, user, organization.
    Assign(Option<String>, String, String),
}

/// The decision on the first claim of an unowned sandbox at start: owned
/// (or absent) sandboxes keep their owners; only a valid one-shot start
/// token may claim, and only for a trusted identity (or anonymous callers
/// when no API keys are configured), which becomes the owner.
pub open spec fn claim_of(
    recorded: bool,
    owned: bool,
    token_ok: bool,
    identity: AgentIdentity,
    config_org: Option<Seq<char>>,
    api_keys: Seq<String>,
    quota_user: Seq<char>,
) -> (bool, bool, bool, Option<(Option<Seq<char>>, Seq<char>, Seq<char>)>) {
    if !recorded || owned {
        (true, false, false, None)
    } else if !token_ok {
        (false, true, false, None)
    } else if !(trusted_owner_of(identity, config_org, api_keys) is Some || (!(identity.api_key is Some
        || identity.jwt_claims is Some) && api_keys.len() == 0)) {
        (false, false, true, None)
    } else {
        (false, false, false, Some((trusted_tenant_of(identity, config_org, api_keys), quota_user, quota_org_of(identity, config_org))))
    }
}

/// The plain value of a claim decision, in the shape of `claim_of`.
pub open spec fn claim_view(d: ClaimDecision) -> (bool, bool, bool, Option<(Option<Seq<char>>, Seq<char>, Seq<char>)>) {
    match d {
        ClaimDecision::Keep => (true, false, false, None),
        ClaimDecision::Deny => (false, true, false, None),
        ClaimDecision::Forbidden => (false, false, true, None),
        ClaimDecision::Assign(t, u, o) => (false, false, false, Some((opt_string_view(t), u@, o@))),
    }
}

/// Decide the first claim of a sandbox at start. `recorded` and `owned` say
/// whether the sandbox is recorded and whether it has any owner;
/// `token_ok` whether a valid one-shot start token bound to it was
/// consumed; `quota_user` is the caller's quota user.
pub fn claim_unowned_start_sandbox(
    recorded: bool,
    owned: bool,
    token_ok: bool,
    identity: &AgentIdentity,
    config_org: Option<&str>,
    api_keys: &Vec<String>,
    quota_user: &str,
) -> (r: ClaimDecision)
    ensures
        claim_view(r) == claim_of(recorded, owned, token_ok, *identity, opt_str_view(config_org), api_keys@, quota_user@),
{
    if !recorded || owned {
        return ClaimDecision::Keep;
    }
    if !token_ok {
        return ClaimDecision::Deny;
    }
    let trusted = trusted_owner_identity(identity, config_org, api_keys).is_some() || (!identity.is_authenticated()
        && api_keys.len() == 0);
    if !trusted {
        return ClaimDecision::Forbidden;
    }
    let tenant = trusted_tenant_for_sandbox(identity, config_org, api_keys);
    let org = quota_org(identity, config_org);
    ClaimDecision::Assign(tenant, quota_user.to_owned(), org)
}

/// A claim never overwrites recorded owners and never assigns without a
/// valid start token.
pub proof fn lemma_claims_need_token_and_unowned(
    recorded: bool,
    owned: bool,
    token_ok: bool,
    identity: AgentIdentity,
    config_org: Option<Seq<char>>,
    api_keys: Seq<String>,
    quota_user: Seq<char>,
)
    ensures
        claim_of(recorded, owned, token_ok, identity, config_org, api_keys, quota_user).3 is Some ==> recorded && !owned && token_ok,
{
}

/// The owner a local start records (without enterprise identities): only a
/// valid start token claims, only an unowned recorded sandbox, and only
/// when the server authenticated an owner.
pub fn claim_unowned_local_start_sandbox(
    recorded: bool,
    owned: bool,
    token_ok: bool,
    trusted_owner: Option<(&str, &str)>,
) -> (r: Option<(String, String)>)
    ensures
        r is Some <==> (token_ok && recorded && !owned && trusted_owner is Some),
        r matches Some((t, u)) ==> (trusted_owner matches Some((tt, uu)) && t@ == tt@ && u@ == uu@),
{
    if !token_ok || !recorded || owned {
        return None;
    }
    match trusted_owner {
        Some((t, u)) => Some((t.to_owned(), u.to_owned())),
        None => None,
    }
}

} // verus!
