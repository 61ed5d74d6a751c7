//! The client side of the daemon's HTTP API: its settings, the answers it decodes, and
//! how error answers become API errors again.
use vstd::prelude::*;

use crate::audit::AuditEntry;
use crate::errors::{api_error_code, ApiError};
use crate::fsops::{is_char, trim_by, trim_end_by, trim_end_matching, trim_whitespace, whitespace_pred};
use crate::scope::ScopeSet;
use crate::text::{opt_text, str_eq};
use crate::token::{is_blank, str_is_blank, Expiry, TokenId, TokenView};

verus! {

broadcast use vstd::string::group_string_axioms;

/// Where the daemon listens unless told otherwise.
pub const DEFAULT_BASE_URL: &'static str = "http://127.0.0.1:18301";

/// How long a request may take unless told otherwise, in seconds.
pub const DEFAULT_TIMEOUT_SECS: u64 = 30;

/// How a client reaches the daemon. The timeout is in seconds.
#[derive(Debug, Clone)]
pub struct MemoClientConfig {
    pub base_url: String,
    pub token: Option<String>,
    pub timeout_secs: u64,
}

impl Default for MemoClientConfig {
    /// The local daemon, no token, 30 seconds.
    fn default() -> (c: MemoClientConfig)
        ensures
            c.base_url@ == "http://127.0.0.1:18301"@,
            c.token is None,
            c.timeout_secs == 30,
    {
        MemoClientConfig {
            base_url: DEFAULT_BASE_URL.to_owned(),
            token: None,
            timeout_secs: DEFAULT_TIMEOUT_SECS,
        }
    }
}

/// The body of an error answer.
#[derive(Debug)]
pub struct ErrorResponse {
    pub error: ErrorEnvelope,
}

/// An error as the daemon reports it.
#[derive(Debug)]
pub struct ErrorEnvelope {
    pub code: String,
    pub message: String,
    pub mount: Option<String>,
    pub path: Option<String>,
    pub limit: Option<u64>,
    pub actual: Option<u64>,
}

/// Why a client call failed. Transport and decoding failures carry their messages.
#[derive(Debug)]
pub enum MemoClientError {
    InvalidBaseUrl(String),
    Request(String),
    Decode(String),
    Api(ApiError),
}

impl MemoClientError {
    /// The API error, when the daemon answered with one.
    pub fn as_api_error(&self) -> (r: Option<&ApiError>)
        ensures
            match *self {
                MemoClientError::Api(e) => r == Some(&e),
                _ => r is None,
            },
    {
        match self {
            MemoClientError::Api(error) => Some(error),
            _ => None,
        }
    }
}

/// The message of an error answer with the mount and path it names appended.
pub open spec fn contextual_message(e: ErrorEnvelope) -> Seq<char> {
    match (opt_text(e.mount), opt_text(e.path)) {
        (Some(m), Some(p)) => e.message@ + " (mount: "@ + m + ", path: "@ + p + ")"@,
        (Some(m), None) => e.message@ + " (mount: "@ + m + ")"@,
        (None, Some(p)) => e.message@ + " (path: "@ + p + ")"@,
        (None, None) => e.message@,
    }
}

/// `o`, or 0 when it is absent.
pub open spec fn or_zero(o: Option<u64>) -> u64 {
    match o {
        Some(v) => v,
        None => 0,
    }
}

/// The API error an error answer stands for: its code picks the kind; messages of path,
/// lookup and conflict errors carry the mount and path; an unknown code is internal.
pub open spec fn mapped_api_error(e: ErrorEnvelope, r: ApiError) -> bool {
    let c = e.code@;
    if c == "auth_required"@ {
        r == ApiError::AuthRequired
    } else if c == "token_invalid"@ {
        r == ApiError::TokenInvalid
    } else if c == "token_expired"@ {
        r == ApiError::TokenExpired
    } else if c == "permission_denied"@ {
        r == ApiError::PermissionDenied
    } else if c == "policy_violated"@ {
        r matches ApiError::PolicyViolated(m) && m@ == e.message@
    } else if c == "invalid_path"@ {
        r matches ApiError::InvalidPath(m) && m@ == contextual_message(e)
    } else if c == "out_of_bounds"@ {
        r == ApiError::OutOfBounds
    } else if c == "symlink_denied"@ {
        r == ApiError::SymlinkDenied
    } else if c == "not_found"@ {
        r matches ApiError::NotFound(m) && m@ == contextual_message(e)
    } else if c == "mount_not_found"@ {
        r matches ApiError::MountNotFound(m) && m@ == contextual_message(e)
    } else if c == "conflict"@ {
        r matches ApiError::Conflict(m) && m@ == contextual_message(e)
    } else if c == "too_large"@ {
        r == (ApiError::TooLarge { limit: or_zero(e.limit), actual: or_zero(e.actual) })
    } else {
        r matches ApiError::Internal(m) && m@ == e.message@
    }
}

/// The message of `e` with its context.
fn context_message(e: &ErrorEnvelope) -> (s: String)
    ensures
        s@ == contextual_message(*e),
{
    let mut s = e.message.clone();
    match (&e.mount, &e.path) {
        (Some(mount), Some(path)) => {
            s.append(" (mount: ");
            s.append(mount.as_str());
            s.append(", path: ");
            s.append(path.as_str());
            s.append(")");
        },
        (Some(mount), None) => {
            s.append(" (mount: ");
            s.append(mount.as_str());
            s.append(")");
        },
        (None, Some(path)) => {
            s.append(" (path: ");
            s.append(path.as_str());
            s.append(")");
        },
        (None, None) => {},
    }
    s
}

/// Turns an error answer back into the API error it reports.
pub fn map_api_error(error: ErrorEnvelope) -> (r: ApiError)
    ensures
        mapped_api_error(error, r),
{
    let contextual = context_message(&error);
    let code = error.code.as_str();
    if str_eq(code, "auth_required") {
        ApiError::AuthRequired
    } else if str_eq(code, "token_invalid") {
        ApiError::TokenInvalid
    } else if str_eq(code, "token_expired") {
        ApiError::TokenExpired
    } else if str_eq(code, "permission_denied") {
        ApiError::PermissionDenied
    } else if str_eq(code, "policy_violated") {
        ApiError::PolicyViolated(error.message)
    } else if str_eq(code, "invalid_path") {
        ApiError::InvalidPath(contextual)
    } else if str_eq(code, "out_of_bounds") {
        ApiError::OutOfBounds
    } else if str_eq(code, "symlink_denied") {
        ApiError::SymlinkDenied
    } else if str_eq(code, "not_found") {
        ApiError::NotFound(contextual)
    } else if str_eq(code, "mount_not_found") {
        ApiError::MountNotFound(contextual)
    } else if str_eq(code, "conflict") {
        ApiError::Conflict(contextual)
    } else if str_eq(code, "too_large") {
        let limit = match error.limit {
            Some(v) => v,
            None => 0,
        };
        let actual = match error.actual {
            Some(v) => v,
            None => 0,
        };
        ApiError::TooLarge { limit, actual }
    } else {
        ApiError::Internal(error.message)
    }
}

/// An error answer carrying an error's code is read back as an error of the same kind.
pub proof fn lemma_error_code_round_trip(sent: ApiError, envelope: ErrorEnvelope, r: ApiError)
    requires
        envelope.code@ == api_error_code(sent),
        mapped_api_error(envelope, r),
    ensures
        api_error_code(r) == api_error_code(sent),
{
    reveal_strlit("auth_required");
    reveal_strlit("token_invalid");
    reveal_strlit("token_expired");
    reveal_strlit("permission_denied");
    reveal_strlit("policy_violated");
    reveal_strlit("invalid_path");
    reveal_strlit("out_of_bounds");
    reveal_strlit("symlink_denied");
    reveal_strlit("not_found");
    reveal_strlit("mount_not_found");
    reveal_strlit("conflict");
    reveal_strlit("too_large");
    reveal_strlit("internal_error");
}

/// The text an API error carries, if it carries one.
pub open spec fn api_error_text(e: ApiError) -> Option<Seq<char>> {
    match e {
        ApiError::PolicyViolated(m) => Some(m@),
        ApiError::InvalidPath(m) => Some(m@),
        ApiError::NotFound(m) => Some(m@),
        ApiError::MountNotFound(m) => Some(m@),
        ApiError::Conflict(m) => Some(m@),
        ApiError::Internal(m) => Some(m@),
        _ => None,
    }
}

/// The limit and the actual size of a size error, if it is one.
pub open spec fn api_error_sizes(e: ApiError) -> Option<(u64, u64)> {
    match e {
        ApiError::TooLarge { limit, actual } => Some((limit, actual)),
        _ => None,
    }
}

/// Whether the client appends the mount and path of the answer to this kind of error.
pub open spec fn carries_context(e: ApiError) -> bool {
    e is InvalidPath || e is NotFound || e is MountNotFound || e is Conflict
}

/// An error sent as an answer with its code, its text as the message and its sizes comes back
/// as the same error: the same kind, the same sizes and the same text, where path, lookup and
/// conflict errors get ` (mount: m, path: p)` (or the part that the answer names) appended.
pub proof fn lemma_error_payload_round_trip(sent: ApiError, envelope: ErrorEnvelope, r: ApiError)
    requires
        envelope.code@ == api_error_code(sent),
        api_error_text(sent) matches Some(t) ==> envelope.message@ == t,
        api_error_sizes(sent) matches Some((l, a)) ==> envelope.limit == Some(l)
            && envelope.actual == Some(a),
        mapped_api_error(envelope, r),
    ensures
        api_error_code(r) == api_error_code(sent),
        api_error_sizes(r) == api_error_sizes(sent),
        api_error_text(r) == (match api_error_text(sent) {
            Some(t) => Some(
                if carries_context(sent) {
                    contextual_message(envelope)
                } else {
                    t
                },
            ),
            None => None,
        }),
        envelope.mount is None && envelope.path is None ==> api_error_text(r) == api_error_text(
            sent,
        ),
        carries_context(sent) && envelope.mount is Some && envelope.path is Some ==> api_error_text(
            r,
        ) == Some(
            api_error_text(sent)->0 + " (mount: "@ + envelope.mount->0@ + ", path: "@
                + envelope.path->0@ + ")"@,
        ),
{
    lemma_error_code_round_trip(sent, envelope, r);
    assert(contextual_message(envelope) == (match (opt_text(envelope.mount), opt_text(envelope.path)) {
        (Some(m), Some(p)) => envelope.message@ + " (mount: "@ + m + ", path: "@ + p + ")"@,
        (Some(m), None) => envelope.message@ + " (mount: "@ + m + ")"@,
        (None, Some(p)) => envelope.message@ + " (path: "@ + p + ")"@,
        (None, None) => envelope.message@,
    }));
    reveal_strlit("auth_required");
    reveal_strlit("token_invalid");
    reveal_strlit("token_expired");
    reveal_strlit("permission_denied");
    reveal_strlit("policy_violated");
    reveal_strlit("invalid_path");
    reveal_strlit("out_of_bounds");
    reveal_strlit("symlink_denied");
    reveal_strlit("not_found");
    reveal_strlit("mount_not_found");
    reveal_strlit("conflict");
    reveal_strlit("too_large");
    reveal_strlit("internal_error");
    match sent {
        ApiError::TooLarge { limit, actual } => {
            assert(envelope.code@ == "too_large"@);
            assert(envelope.code@[0] != "not_found"@[0]);
            assert(envelope.code@ != "not_found"@);
            assert(api_error_text(r) is None);
        },
        ApiError::PolicyViolated(m) => {
            assert(envelope.code@ == "policy_violated"@);
            assert(r is PolicyViolated);
        },
        ApiError::Internal(m) => {
            assert(envelope.code@ == "internal_error"@);
            assert(envelope.code@[0] != "symlink_denied"@[0]);
            assert(envelope.code@ != "symlink_denied"@);
            assert(r is Internal);
        },
        ApiError::InvalidPath(m) => {
            assert(envelope.code@ == "invalid_path"@);
            assert(r is InvalidPath);
        },
        ApiError::NotFound(m) => {
            assert(envelope.code@ == "not_found"@);
            assert(r is NotFound);
        },
        ApiError::MountNotFound(m) => {
            assert(envelope.code@ == "mount_not_found"@);
            assert(envelope.code@[0] != "policy_violated"@[0]);
            assert(r is MountNotFound);
        },
        ApiError::Conflict(m) => {
            assert(envelope.code@ == "conflict"@);
            assert(r is Conflict);
        },
        ApiError::AuthRequired => {
            assert(r is AuthRequired);
        },
        ApiError::TokenInvalid => {
            assert(envelope.code@[0] != "auth_required"@[0]);
            assert(r is TokenInvalid);
        },
        ApiError::TokenExpired => {
            assert(envelope.code@[0] != "auth_required"@[0]);
            assert(envelope.code@[6] != "token_invalid"@[6]);
            assert(r is TokenExpired);
        },
        ApiError::PermissionDenied => {
            assert(envelope.code@.len() == 17);
            assert(r is PermissionDenied);
        },
        ApiError::OutOfBounds => {
            assert(envelope.code@[0] != "auth_required"@[0]);
            assert(envelope.code@[0] != "token_invalid"@[0]);
            assert(envelope.code@[0] != "token_expired"@[0]);
            assert(r is OutOfBounds);
        },
        ApiError::SymlinkDenied => {
            assert(envelope.code@.len() == 14);
            assert(envelope.code@[0] != "policy_violated"@[0]);
            assert(envelope.code@[0] != "out_of_bounds"@[0]);
            assert(r is SymlinkDenied);
        },
    }
}

/// The standard reason phrase of an HTTP status code, as `http`'s
/// `StatusCode::canonical_reason` gives it, if the code is valid and has one.
pub uninterp spec fn canonical_reason(status: u16) -> Option<Seq<char>>;

/// `StatusCode::from_u16` and `StatusCode::canonical_reason` from `http` (through
/// `reqwest`); a code outside 100 to 999 has no reason.
#[verifier::external_body]
fn status_reason(status: u16) -> (r: Option<&'static str>)
    ensures
        match r {
            Some(s) => canonical_reason(status) == Some(s@),
            None => canonical_reason(status) is None,
        },
{
    match reqwest::StatusCode::from_u16(status) {
        Ok(code) => code.canonical_reason(),
        Err(_) => None,
    }
}

/// The message used when an error answer has no readable body: the body when it is not
/// blank, else the status's reason phrase, else `request failed`.
pub open spec fn fallback_message(status: u16, body: Seq<char>) -> Seq<char> {
    if is_blank(body) {
        match canonical_reason(status) {
            Some(reason) => reason,
            None => "request failed"@,
        }
    } else {
        body
    }
}

/// The API error for an error answer that is not an error envelope, by its status.
pub open spec fn status_api_error(status: u16, body: Seq<char>, r: ApiError) -> bool {
    let m = fallback_message(status, body);
    if status == 400 {
        r matches ApiError::InvalidPath(x) && x@ == m
    } else if status == 401 {
        r == ApiError::AuthRequired
    } else if status == 403 {
        r == ApiError::PermissionDenied
    } else if status == 404 {
        r matches ApiError::NotFound(x) && x@ == m
    } else if status == 409 {
        r matches ApiError::Conflict(x) && x@ == m
    } else if status == 413 {
        r == (ApiError::TooLarge { limit: 0, actual: 0 })
    } else {
        r matches ApiError::Internal(x) && x@ == m
    }
}

/// Whether an HTTP status reports success (2xx).
pub open spec fn status_success(status: u16) -> bool {
    200 <= status && status <= 299
}

/// Whether an HTTP status reports success (2xx).
pub fn is_success_status(status: u16) -> (r: bool)
    ensures
        r == status_success(status),
{
    200 <= status && status <= 299
}

/// The error a failed answer becomes: the daemon's own error when the body `body` is an
/// error document (`parsed`, what it decoded to), otherwise one chosen by the status.
pub fn response_error(status: u16, body: &str, parsed: Option<ErrorResponse>) -> (r: ApiError)
    ensures
        match parsed {
            Some(p) => mapped_api_error(p.error, r),
            None => status_api_error(status, body@, r),
        },
{
    match parsed {
        Some(p) => map_api_error(p.error),
        None => map_status_fallback(status, body),
    }
}

/// The API error for an error answer whose body is not an error envelope.
pub fn map_status_fallback(status: u16, message: &str) -> (r: ApiError)
    ensures
        status_api_error(status, message@, r),
{
    let text = if str_is_blank(message) {
        match status_reason(status) {
            Some(reason) => reason.to_owned(),
            None => "request failed".to_owned(),
        }
    } else {
        message.to_owned()
    };
    if status == 400 {
        ApiError::InvalidPath(text)
    } else if status == 401 {
        ApiError::AuthRequired
    } else if status == 403 {
        ApiError::PermissionDenied
    } else if status == 404 {
        ApiError::NotFound(text)
    } else if status == 409 {
        ApiError::Conflict(text)
    } else if status == 413 {
        ApiError::TooLarge { limit: 0, actual: 0 }
    } else {
        ApiError::Internal(text)
    }
}

/// The serialisation of `text` parsed as an absolute URL by the `url` crate (through
/// `reqwest::Url::parse`), if it parses.
pub uninterp spec fn url_serialization(text: Seq<char>) -> Option<Seq<char>>;

/// `reqwest::Url::parse` and `Url::as_str`.
#[verifier::external_body]
fn parse_url(text: &str) -> (r: Option<String>)
    ensures
        opt_text(r) == url_serialization(text@),
{
    match reqwest::Url::parse(text) {
        Ok(url) => Some(url.as_str().to_owned()),
        Err(_) => None,
    }
}

/// The base URL a client uses: the given one trimmed of whitespace and trailing slashes,
/// parsed as a URL, and its serialisation without trailing slashes.
pub open spec fn sanitized_base_url(base: Seq<char>) -> Option<Seq<char>> {
    match url_serialization(trim_end_by(trim_by(base, whitespace_pred()), is_char('/'))) {
        Some(u) => Some(trim_end_by(u, is_char('/'))),
        None => None,
    }
}

/// Normalises a base URL; one that does not parse is refused, naming it.
pub fn sanitize_base_url(base_url: &str) -> (r: Result<String, MemoClientError>)
    ensures
        match sanitized_base_url(base_url@) {
            Some(u) => r matches Ok(s) && s@ == u,
            None => r matches Err(MemoClientError::InvalidBaseUrl(b)) && b@ == base_url@,
        },
{
    let trimmed = trim_end_matching(trim_whitespace(base_url), '/');
    let parsed = parse_url(trimmed);
    base_url_from_parsed(base_url, parsed)
}

/// The base URL given what parsing its trimmed form gave: the serialisation without trailing
/// slashes, or, when it did not parse, the refusal naming the base URL as given.
pub fn base_url_from_parsed(base_url: &str, parsed: Option<String>) -> (r: Result<
    String,
    MemoClientError,
>)
    ensures
        match opt_text(parsed) {
            Some(u) => r matches Ok(s) && s@ == trim_end_by(u, is_char('/')),
            None => r matches Err(MemoClientError::InvalidBaseUrl(b)) && b@ == base_url@,
        },
{
    match parsed {
        Some(url) => Ok(trim_end_matching(url.as_str(), '/').to_owned()),
        None => Err(MemoClientError::InvalidBaseUrl(base_url.to_owned())),
    }
}

/// A change to a value that can also be cleared.
#[derive(Debug, Clone, PartialEq, Eq)]
pub enum PatchValue<T> {
    Value(T),
    Null,
}

/// A change to a mount as the client sends it; absent fields are left out, and a
/// description or limit can be cleared.
#[derive(Debug)]
pub struct UpdateMountRequest {
    pub mode: Option<crate::mount::MountMode>,
    pub audience: Option<crate::mount::Audience>,
    pub description: Option<PatchValue<String>>,
    pub hide_globs: Option<Vec<String>>,
    pub deny_read_globs: Option<Vec<String>>,
    pub deny_write_globs: Option<Vec<String>>,
    pub max_read_bytes: Option<PatchValue<u64>>,
    pub max_write_bytes: Option<PatchValue<u64>>,
}

impl Default for UpdateMountRequest {
    /// A request that changes nothing.
    fn default() -> (r: UpdateMountRequest)
        ensures
            r.mode is None,
            r.audience is None,
            r.description is None,
            r.hide_globs is None,
            r.deny_read_globs is None,
            r.deny_write_globs is None,
            r.max_read_bytes is None,
            r.max_write_bytes is None,
    {
        UpdateMountRequest {
            mode: None,
            audience: None,
            description: None,
            hide_globs: None,
            deny_read_globs: None,
            deny_write_globs: None,
            max_read_bytes: None,
            max_write_bytes: None,
        }
    }
}

/// The token listing.
#[derive(Debug)]
pub struct TokenListResponse {
    pub tokens: Vec<TokenView>,
}

/// A request for a new token. The expiry is in nanoseconds since the Unix epoch.
#[derive(Debug)]
pub struct CreateTokenRequest {
    pub name: String,
    pub scopes: ScopeSet,
    pub expires_at: Option<i128>,
}

/// A new token with its secret, shown once.
#[derive(Debug)]
pub struct CreatedToken {
    pub id: TokenId,
    pub name: String,
    pub token: String,
    pub scopes: ScopeSet,
    pub created_at: i128,
    pub expires_at: Expiry,
}

/// The answer to a revocation.
#[derive(Debug)]
pub struct RevokeTokenResponse {
    pub id: TokenId,
    pub revoked: bool,
}

/// The answer to an audit query.
#[derive(Debug)]
pub struct AuditResponse {
    pub entries: Vec<AuditEntry>,
}

/// The daemon's health.
#[derive(Debug)]
pub struct HealthResponse {
    pub status: String,
    pub version: String,
}

/// The URL of `endpoint` on the daemon at `base_url`.
pub fn endpoint_url(base_url: &str, endpoint: &str) -> (u: String)
    ensures
        u@ == base_url@ + endpoint@,
{
    base_url.to_owned().concat(endpoint)
}

} // verus!
