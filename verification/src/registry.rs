//! Mount registration: the requests that create and change mounts, and who may make them.
use vstd::prelude::*;

use crate::errors::{ApiError, DbError};
use crate::mount::{valid_mount_name, Audience, Mount, MountMode, MountName, MountPolicy};
use crate::scope::{AdminScope, MetaScope, Scope, ScopeModel};
use crate::token::{scopes_grant, Token};

verus! {

broadcast use vstd::string::group_string_axioms;

/// A request to register a mount. The root must be an absolute path.
#[derive(Debug)]
pub struct CreateMountRequest {
    pub name: MountName,
    pub root_path: String,
    pub mode: MountMode,
    pub audience: Audience,
    pub description: Option<String>,
    pub hide_globs: Vec<String>,
    pub deny_read_globs: Vec<String>,
    pub deny_write_globs: Vec<String>,
    pub max_read_bytes: Option<u64>,
    pub max_write_bytes: Option<u64>,
}

/// A change to a mount; absent fields keep their current values.
#[derive(Debug)]
pub struct UpdateMountRequest {
    pub mode: Option<MountMode>,
    pub audience: Option<Audience>,
    pub description: Option<String>,
    pub hide_globs: Option<Vec<String>>,
    pub deny_read_globs: Option<Vec<String>>,
    pub deny_write_globs: Option<Vec<String>>,
    pub max_read_bytes: Option<u64>,
    pub max_write_bytes: Option<u64>,
}

impl Default for UpdateMountRequest {
    /// A request that changes nothing.
    fn default() -> (r: UpdateMountRequest)
        ensures
            r.mode is None,
            r.audience is None,
            r.description is None,
            r.hide_globs is None,
            r.deny_read_globs is None,
            r.deny_write_globs is None,
            r.max_read_bytes is None,
            r.max_write_bytes is None,
    {
        UpdateMountRequest {
            mode: None,
            audience: None,
            description: None,
            hide_globs: None,
            deny_read_globs: None,
            deny_write_globs: None,
            max_read_bytes: None,
            max_write_bytes: None,
        }
    }
}

/// The registered mounts.
#[derive(Debug)]
pub struct MountListResponse {
    pub mounts: Vec<Mount>,
}

/// The answer to a removal.
#[derive(Debug)]
pub struct RemoveMountResponse {
    pub name: MountName,
    pub removed: bool,
}

/// Whether scopes administer mounts: `admin:*:mounts`, or `admin:*:*`.
pub open spec fn grants_mount_admin(scopes: Seq<ScopeModel>) -> bool {
    scopes_grant(scopes, ScopeModel::Admin(AdminScope::Mounts)) || scopes_grant(
        scopes,
        ScopeModel::Admin(AdminScope::All),
    )
}

/// Whether a token may change mounts.
pub fn require_mount_admin_scope(token: &Token) -> (r: bool)
    ensures
        r == grants_mount_admin(token.scopes@),
{
    token.has_scope(&Scope::Admin(AdminScope::Mounts)) || token.has_scope(
        &Scope::Admin(AdminScope::All),
    )
}

/// Whether a token may list and show mounts: mount administrators, and `meta:*:read`.
pub fn require_mount_read_scope(token: &Token) -> (r: bool)
    ensures
        r == (grants_mount_admin(token.scopes@) || scopes_grant(
            token.scopes@,
            ScopeModel::Meta(MetaScope::Read),
        )),
{
    require_mount_admin_scope(token) || token.has_scope(&Scope::Meta(MetaScope::Read))
}

/// The mount a creation request describes, registered at `now`; a root that is not
/// absolute is refused with the message of the invalid-path error.
pub fn build_mount(request: CreateMountRequest, now: i128) -> (r: Result<Mount, DbError>)
    ensures
        (request.root_path@.len() > 0 && request.root_path@[0] == '/') ==> r == Ok::<
            Mount,
            DbError,
        >(
            Mount {
                name: request.name,
                root_path: request.root_path,
                mode: request.mode,
                audience: request.audience,
                description: request.description,
                policy: MountPolicy {
                    hide_globs: request.hide_globs,
                    deny_read_globs: request.deny_read_globs,
                    deny_write_globs: request.deny_write_globs,
                    max_read_bytes: request.max_read_bytes,
                    max_write_bytes: request.max_write_bytes,
                },
                created_at: now,
                updated_at: now,
            },
        ),
        !(request.root_path@.len() > 0 && request.root_path@[0] == '/') ==> (r matches Err(
            DbError::Query(m),
        ) && m@ == "invalid path"@),
{
    let policy = MountPolicy {
        hide_globs: request.hide_globs,
        deny_read_globs: request.deny_read_globs,
        deny_write_globs: request.deny_write_globs,
        max_read_bytes: request.max_read_bytes,
        max_write_bytes: request.max_write_bytes,
    };
    match Mount::new(
        request.name,
        request.root_path,
        request.mode,
        request.audience,
        request.description,
        policy,
        now,
    ) {
        Ok(mount) => Ok(mount),
        Err(_) => Err(DbError::Query("invalid path".to_owned())),
    }
}

/// `update` if it is present, `current` otherwise.
pub open spec fn or_keep<T>(update: Option<T>, current: T) -> T {
    match update {
        Some(v) => v,
        None => current,
    }
}

/// Applies a change to `current` at `now`: every field the request gives is replaced, every
/// other field keeps its value; the name, root and creation time never change.
pub fn apply_update(current: Mount, request: UpdateMountRequest, now: i128) -> (m: Mount)
    ensures
        m.name == current.name,
        m.root_path == current.root_path,
        m.mode == or_keep(request.mode, current.mode),
        m.audience == or_keep(request.audience, current.audience),
        m.description == (if request.description is Some {
            request.description
        } else {
            current.description
        }),
        m.policy.hide_globs == or_keep(request.hide_globs, current.policy.hide_globs),
        m.policy.deny_read_globs == or_keep(
            request.deny_read_globs,
            current.policy.deny_read_globs,
        ),
        m.policy.deny_write_globs == or_keep(
            request.deny_write_globs,
            current.policy.deny_write_globs,
        ),
        m.policy.max_read_bytes == (if request.max_read_bytes is Some {
            request.max_read_bytes
        } else {
            current.policy.max_read_bytes
        }),
        m.policy.max_write_bytes == (if request.max_write_bytes is Some {
            request.max_write_bytes
        } else {
            current.policy.max_write_bytes
        }),
        m.created_at == current.created_at,
        m.updated_at == now,
{
    let mode = match request.mode {
        Some(v) => v,
        None => current.mode,
    };
    let audience = match request.audience {
        Some(v) => v,
        None => current.audience,
    };
    let description = match request.description {
        Some(v) => Some(v),
        None => current.description,
    };
    let hide_globs = match request.hide_globs {
        Some(v) => v,
        None => current.policy.hide_globs,
    };
    let deny_read_globs = match request.deny_read_globs {
        Some(v) => v,
        None => current.policy.deny_read_globs,
    };
    let deny_write_globs = match request.deny_write_globs {
        Some(v) => v,
        None => current.policy.deny_write_globs,
    };
    let max_read_bytes = match request.max_read_bytes {
        Some(v) => Some(v),
        None => current.policy.max_read_bytes,
    };
    let max_write_bytes = match request.max_write_bytes {
        Some(v) => Some(v),
        None => current.policy.max_write_bytes,
    };
    Mount {
        name: current.name,
        root_path: current.root_path,
        mode,
        audience,
        description,
        policy: MountPolicy {
            hide_globs,
            deny_read_globs,
            deny_write_globs,
            max_read_bytes,
            max_write_bytes,
        },
        created_at: current.created_at,
        updated_at: now,
    }
}

/// Reads a mount name from a route segment; an invalid name is an invalid path.
pub fn parse_mount_name(input: &str) -> (r: Result<MountName, ApiError>)
    ensures
        valid_mount_name(input@) ==> (r matches Ok(n) && n@ == input@),
        !valid_mount_name(input@) ==> (r matches Err(ApiError::InvalidPath(m)) && m@
            == "invalid mount name"@),
{
    match MountName::new(input) {
        Ok(name) => Ok(name),
        Err(_) => Err(ApiError::InvalidPath("invalid mount name".to_owned())),
    }
}

} // verus!
