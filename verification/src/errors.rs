//! Error types shared by the daemon, the client and the command line.
use vstd::prelude::*;
use vstd::std_specs::convert::FromSpecImpl;

use crate::text::{decimal, u64_text};

verus! {

/// Why a path or policy check refused a request.
#[derive(Debug, Clone, PartialEq, Eq)]
pub enum PolicyError {
    InvalidPath,
    InvalidPolicy(String),
    OutOfBounds,
    SymlinkDenied,
    NotFound,
    PermissionDenied,
    TooLarge { limit: u64, actual: u64 },
}

/// Why a storage operation failed.
#[derive(Debug, Clone, PartialEq, Eq)]
pub enum DbError {
    NotFound,
    Conflict,
    Query(String),
    Connection(String),
}

/// Why a request was not authenticated or authorised.
#[derive(Debug, Clone, PartialEq, Eq)]
pub enum AuthError {
    AuthRequired,
    TokenInvalid,
    TokenExpired,
    PermissionDenied,
}

/// The error vocabulary of the HTTP API.
#[derive(Debug, Clone, PartialEq, Eq)]
pub enum ApiError {
    AuthRequired,
    TokenInvalid,
    TokenExpired,
    PermissionDenied,
    PolicyViolated(String),
    InvalidPath(String),
    OutOfBounds,
    SymlinkDenied,
    NotFound(String),
    MountNotFound(String),
    Conflict(String),
    TooLarge { limit: u64, actual: u64 },
    Internal(String),
}

/// The wire code of each API error.
pub open spec fn api_error_code(e: ApiError) -> Seq<char> {
    match e {
        ApiError::AuthRequired => "auth_required"@,
        ApiError::TokenInvalid => "token_invalid"@,
        ApiError::TokenExpired => "token_expired"@,
        ApiError::PermissionDenied => "permission_denied"@,
        ApiError::PolicyViolated(_) => "policy_violated"@,
        ApiError::InvalidPath(_) => "invalid_path"@,
        ApiError::OutOfBounds => "out_of_bounds"@,
        ApiError::SymlinkDenied => "symlink_denied"@,
        ApiError::NotFound(_) => "not_found"@,
        ApiError::MountNotFound(_) => "mount_not_found"@,
        ApiError::Conflict(_) => "conflict"@,
        ApiError::TooLarge { .. } => "too_large"@,
        ApiError::Internal(_) => "internal_error"@,
    }
}

impl ApiError {
    /// The stable machine-readable code of this error.
    pub fn code(&self) -> (code: &'static str)
        ensures
            code@ == api_error_code(*self),
    {
        match self {
            ApiError::AuthRequired => "auth_required",
            ApiError::TokenInvalid => "token_invalid",
            ApiError::TokenExpired => "token_expired",
            ApiError::PermissionDenied => "permission_denied",
            ApiError::PolicyViolated(_) => "policy_violated",
            ApiError::InvalidPath(_) => "invalid_path",
            ApiError::OutOfBounds => "out_of_bounds",
            ApiError::SymlinkDenied => "symlink_denied",
            ApiError::NotFound(_) => "not_found",
            ApiError::MountNotFound(_) => "mount_not_found",
            ApiError::Conflict(_) => "conflict",
            ApiError::TooLarge { .. } => "too_large",
            ApiError::Internal(_) => "internal_error",
        }
    }
}

/// How a policy error is reported through the API.
pub open spec fn api_error_from_policy(v: PolicyError, r: ApiError) -> bool {
    match v {
        PolicyError::InvalidPath => r matches ApiError::InvalidPath(m) && m@ == "invalid path"@,
        PolicyError::InvalidPolicy(reason) => r matches ApiError::Internal(m) && m@
            == "invalid policy configuration: "@ + reason@,
        PolicyError::OutOfBounds => r == ApiError::OutOfBounds,
        PolicyError::SymlinkDenied => r == ApiError::SymlinkDenied,
        PolicyError::NotFound => r matches ApiError::NotFound(m) && m@ == "path not found"@,
        PolicyError::PermissionDenied => r matches ApiError::PolicyViolated(m) && m@
            == "permission denied"@,
        PolicyError::TooLarge { limit, actual } => r == (ApiError::TooLarge { limit, actual }),
    }
}

/// How a storage error is reported through the API.
pub open spec fn api_error_from_db(v: DbError, r: ApiError) -> bool {
    match v {
        DbError::NotFound => r matches ApiError::NotFound(m) && m@ == "record not found"@,
        DbError::Conflict => r matches ApiError::Conflict(m) && m@ == "conflict"@,
        DbError::Query(e) => r matches ApiError::Internal(m) && m@ == e@,
        DbError::Connection(e) => r matches ApiError::Internal(m) && m@ == e@,
    }
}

/// How an authentication error is reported through the API.
pub open spec fn api_error_from_auth(v: AuthError) -> ApiError {
    match v {
        AuthError::AuthRequired => ApiError::AuthRequired,
        AuthError::TokenInvalid => ApiError::TokenInvalid,
        AuthError::TokenExpired => ApiError::TokenExpired,
        AuthError::PermissionDenied => ApiError::PermissionDenied,
    }
}

impl From<PolicyError> for ApiError {
    fn from(value: PolicyError) -> (r: ApiError)
        ensures
            api_error_from_policy(value, r),
    {
        match value {
            PolicyError::InvalidPath => ApiError::InvalidPath("invalid path".to_owned()),
            PolicyError::InvalidPolicy(reason) => ApiError::Internal(
                "invalid policy configuration: ".to_owned().concat(reason.as_str()),
            ),
            PolicyError::OutOfBounds => ApiError::OutOfBounds,
            PolicyError::SymlinkDenied => ApiError::SymlinkDenied,
            PolicyError::NotFound => ApiError::NotFound("path not found".to_owned()),
            PolicyError::PermissionDenied => ApiError::PolicyViolated(
                "permission denied".to_owned(),
            ),
            PolicyError::TooLarge { limit, actual } => ApiError::TooLarge { limit, actual },
        }
    }
}

impl FromSpecImpl<PolicyError> for ApiError {
    /// The messages are built at run time, so only their characters are fixed, not the
    /// `String` values themselves; the exact relation is `api_error_from_policy`.
    open spec fn obeys_from_spec() -> bool {
        false
    }

    open spec fn from_spec(v: PolicyError) -> ApiError {
        choose|r: ApiError| api_error_from_policy(v, r)
    }
}

impl From<DbError> for ApiError {
    fn from(value: DbError) -> (r: ApiError)
        ensures
            api_error_from_db(value, r),
    {
        match value {
            DbError::NotFound => ApiError::NotFound("record not found".to_owned()),
            DbError::Conflict => ApiError::Conflict("conflict".to_owned()),
            DbError::Query(error) => ApiError::Internal(error),
            DbError::Connection(error) => ApiError::Internal(error),
        }
    }
}

impl FromSpecImpl<DbError> for ApiError {
    /// Some messages are built at run time; the exact relation is `api_error_from_db`.
    open spec fn obeys_from_spec() -> bool {
        false
    }

    open spec fn from_spec(v: DbError) -> ApiError {
        choose|r: ApiError| api_error_from_db(v, r)
    }
}

impl From<AuthError> for ApiError {
    fn from(value: AuthError) -> (r: ApiError) {
        match value {
            AuthError::AuthRequired => ApiError::AuthRequired,
            AuthError::TokenInvalid => ApiError::TokenInvalid,
            AuthError::TokenExpired => ApiError::TokenExpired,
            AuthError::PermissionDenied => ApiError::PermissionDenied,
        }
    }
}

impl FromSpecImpl<AuthError> for ApiError {
    open spec fn obeys_from_spec() -> bool {
        true
    }

    open spec fn from_spec(v: AuthError) -> ApiError {
        api_error_from_auth(v)
    }
}

/// Every policy error keeps its kind when it becomes an API error.
pub proof fn lemma_policy_error_codes(v: PolicyError, r: ApiError)
    requires
        api_error_from_policy(v, r),
    ensures
        api_error_code(r) == (match v {
            PolicyError::InvalidPath => "invalid_path"@,
            PolicyError::InvalidPolicy(_) => "internal_error"@,
            PolicyError::OutOfBounds => "out_of_bounds"@,
            PolicyError::SymlinkDenied => "symlink_denied"@,
            PolicyError::NotFound => "not_found"@,
            PolicyError::PermissionDenied => "policy_violated"@,
            PolicyError::TooLarge { .. } => "too_large"@,
        }),
{
}

/// The human-readable description of an API error, as it is displayed.
pub open spec fn api_error_text(e: ApiError) -> Seq<char> {
    match e {
        ApiError::AuthRequired => "auth required"@,
        ApiError::TokenInvalid => "token invalid"@,
        ApiError::TokenExpired => "token expired"@,
        ApiError::PermissionDenied => "permission denied"@,
        ApiError::PolicyViolated(m) => "policy violated: "@ + m@,
        ApiError::InvalidPath(m) => "invalid path: "@ + m@,
        ApiError::OutOfBounds => "path escapes mount root"@,
        ApiError::SymlinkDenied => "symlink denied"@,
        ApiError::NotFound(m) => "not found: "@ + m@,
        ApiError::MountNotFound(m) => "mount not found: "@ + m@,
        ApiError::Conflict(m) => "conflict: "@ + m@,
        ApiError::TooLarge { limit, actual } => "too large: "@ + decimal(actual as nat) + " > "@
            + decimal(limit as nat),
        ApiError::Internal(m) => "internal error: "@ + m@,
    }
}

/// The human-readable description of a policy error, as it is displayed.
pub open spec fn policy_error_text(e: PolicyError) -> Seq<char> {
    match e {
        PolicyError::InvalidPath => "invalid path"@,
        PolicyError::InvalidPolicy(m) => "invalid policy configuration: "@ + m@,
        PolicyError::OutOfBounds => "path escapes mount root"@,
        PolicyError::SymlinkDenied => "symlinks are denied"@,
        PolicyError::NotFound => "path not found"@,
        PolicyError::PermissionDenied => "permission denied by policy"@,
        PolicyError::TooLarge { limit, actual } => "file too large: "@ + decimal(actual as nat)
            + " > "@ + decimal(limit as nat),
    }
}

/// `head`, the decimal text of `actual`, ` > ` and that of `limit`.
fn size_message(head: &str, actual: u64, limit: u64) -> (s: String)
    ensures
        s@ == head@ + decimal(actual as nat) + " > "@ + decimal(limit as nat),
{
    let mut s = head.to_owned();
    s.append(u64_text(actual).as_str());
    s.append(" > ");
    s.append(u64_text(limit).as_str());
    s
}

/// `head` followed by `tail`.
fn prefixed(head: &str, tail: &String) -> (s: String)
    ensures
        s@ == head@ + tail@,
{
    let mut s = head.to_owned();
    s.append(tail.as_str());
    s
}

impl ApiError {
    /// The human-readable description of the error.
    pub fn to_string(&self) -> (s: String)
        ensures
            s@ == api_error_text(*self),
    {
        match self {
            ApiError::AuthRequired => "auth required".to_owned(),
            ApiError::TokenInvalid => "token invalid".to_owned(),
            ApiError::TokenExpired => "token expired".to_owned(),
            ApiError::PermissionDenied => "permission denied".to_owned(),
            ApiError::PolicyViolated(m) => prefixed("policy violated: ", m),
            ApiError::InvalidPath(m) => prefixed("invalid path: ", m),
            ApiError::OutOfBounds => "path escapes mount root".to_owned(),
            ApiError::SymlinkDenied => "symlink denied".to_owned(),
            ApiError::NotFound(m) => prefixed("not found: ", m),
            ApiError::MountNotFound(m) => prefixed("mount not found: ", m),
            ApiError::Conflict(m) => prefixed("conflict: ", m),
            ApiError::TooLarge { limit, actual } => size_message("too large: ", *actual, *limit),
            ApiError::Internal(m) => prefixed("internal error: ", m),
        }
    }
}

impl PolicyError {
    /// The human-readable description of the error.
    pub fn to_string(&self) -> (s: String)
        ensures
            s@ == policy_error_text(*self),
    {
        match self {
            PolicyError::InvalidPath => "invalid path".to_owned(),
            PolicyError::InvalidPolicy(m) => prefixed("invalid policy configuration: ", m),
            PolicyError::OutOfBounds => "path escapes mount root".to_owned(),
            PolicyError::SymlinkDenied => "symlinks are denied".to_owned(),
            PolicyError::NotFound => "path not found".to_owned(),
            PolicyError::PermissionDenied => "permission denied by policy".to_owned(),
            PolicyError::TooLarge { limit, actual } => size_message(
                "file too large: ",
                *actual,
                *limit,
            ),
        }
    }
}

} // verus!
