//! The desktop interface's inputs and how they become API requests.
use vstd::prelude::*;

use crate::audit::{AuditQuery, AuditResult};
use crate::client::CreateTokenRequest;
use crate::fsops::TreeNode;
use crate::mount::{mount_name_error, Audience, MountMode, MountName};
use crate::path::{MountPath, RelativePath};
use crate::registry::CreateMountRequest;
use crate::rows::{mount_name_error_text, parse_rfc3339, parse_uuid, rfc3339_parse, uuid_parse};
use crate::scope::{scope_parse, Scope, ScopeSet};
use crate::token::TokenId;

verus! {

broadcast use vstd::string::group_string_axioms;

/// A mount to create, as the interface collects it.
#[derive(Debug)]
pub struct CreateMountInput {
    pub name: String,
    pub root_path: String,
    pub mode: MountMode,
    pub audience: Audience,
    pub description: Option<String>,
}

/// A token to create, as the interface collects it; the expiry is RFC 3339 text.
#[derive(Debug)]
pub struct CreateTokenInput {
    pub name: String,
    pub scopes: Vec<String>,
    pub expires_at: Option<String>,
}

/// The audit filters the interface offers.
#[derive(Debug)]
pub struct AuditFilterInput {
    pub mount: Option<String>,
    pub operation: Option<String>,
    pub result: Option<AuditResult>,
    pub limit: Option<u64>,
}

/// A mount's tree as the interface shows it, its path in protocol form.
#[derive(Debug)]
pub struct BrowserTreeResponse {
    pub path: String,
    pub depth: u8,
    pub truncated: bool,
    pub tree: TreeNode,
}

/// The creation request for a mount entered in the interface: no policy rules; a bad
/// name is refused with its reason.
pub fn create_mount_request(input: CreateMountInput) -> (r: Result<CreateMountRequest, String>)
    ensures
        match mount_name_error(input.name@) {
            Some(e) => r matches Err(m) && m@ == mount_name_error_text(e),
            None => r matches Ok(req) && req.name@ == input.name@ && req.root_path
                == input.root_path && req.mode == input.mode && req.audience == input.audience
                && req.description == input.description && req.hide_globs@.len() == 0
                && req.deny_read_globs@.len() == 0 && req.deny_write_globs@.len() == 0
                && req.max_read_bytes is None && req.max_write_bytes is None,
        },
{
    let name = match MountName::new(input.name.as_str()) {
        Ok(n) => n,
        Err(error) => return Err(error.message().to_owned()),
    };
    Ok(CreateMountRequest {
        name,
        root_path: input.root_path,
        mode: input.mode,
        audience: input.audience,
        description: input.description,
        hide_globs: Vec::new(),
        deny_read_globs: Vec::new(),
        deny_write_globs: Vec::new(),
        max_read_bytes: None,
        max_write_bytes: None,
    })
}

/// The creation request for a token entered in the interface: every scope must parse,
/// then the expiry; the first failure gives the message.
pub fn create_token_request(input: CreateTokenInput) -> (r: Result<CreateTokenRequest, String>)
    ensures
        match crate::admin::scope_arguments_error(crate::glob::views_of(input.scopes@)) {
            Some(m) => r matches Err(x) && x@ == m,
            None => match crate::text::opt_text(input.expires_at) {
                Some(t) => match rfc3339_parse(t) {
                    Err(m) => r matches Err(x) && x@ == m,
                    Ok(v) => r matches Ok(req) && req.name == input.name && req.expires_at
                        == Some(v) && (forall|i: int|
                        0 <= i < input.scopes@.len() ==> req.scopes@.to_set().contains(
                            scope_parse(#[trigger] input.scopes@[i]@)->Ok_0,
                        )),
                },
                None => r matches Ok(req) && req.name == input.name && req.expires_at is None
                    && (forall|i: int|
                    0 <= i < input.scopes@.len() ==> req.scopes@.to_set().contains(
                        scope_parse(#[trigger] input.scopes@[i]@)->Ok_0,
                    )),
            },
        },
{
    let ghost items = crate::glob::views_of(input.scopes@);
    let mut parsed: Vec<Scope> = Vec::new();
    let mut i: usize = 0;
    proof {
        assert(items.take(0) =~= Seq::<Seq<char>>::empty());
    }
    while i < input.scopes.len()
        invariant
            items == crate::glob::views_of(input.scopes@),
            0 <= i <= input.scopes@.len(),
            parsed@.len() == i,
            crate::admin::scope_arguments_error(items.take(i as int)) is None,
            forall|j: int|
                0 <= j < i ==> scope_parse(#[trigger] input.scopes@[j]@) == Ok::<
                    crate::scope::ScopeModel,
                    crate::scope::ScopeParseError,
                >(parsed@[j]@),
        decreases input.scopes@.len() - i,
    {
        proof {
            assert(items.take(i + 1).drop_last() =~= items.take(i as int));
            assert(items.take(i + 1).last() == input.scopes@[i as int]@);
        }
        match Scope::from_str(input.scopes[i].as_str()) {
            Ok(scope) => {
                parsed.push(scope);
            },
            Err(error) => {
                proof {
                    crate::admin::lemma_scope_arguments_error_extends(items, i + 1);
                }
                return Err(error.message().to_owned());
            },
        }
        i = i + 1;
    }
    proof {
        assert(items.take(input.scopes@.len() as int) =~= items);
    }
    let expires_at = match &input.expires_at {
        Some(text) => match parse_rfc3339(text.as_str()) {
            Ok(v) => Some(v),
            Err(message) => return Err(message),
        },
        None => None,
    };
    let ghost models = crate::scope::scope_models(parsed@);
    let scopes = ScopeSet::new(parsed);
    proof {
        assert forall|k: int| 0 <= k < input.scopes@.len() implies scopes@.to_set().contains(
            scope_parse(#[trigger] input.scopes@[k]@)->Ok_0,
        ) by {
            assert(models[k] == scope_parse(input.scopes@[k]@)->Ok_0);
            assert(models.contains(models[k]));
        }
    }
    Ok(CreateTokenRequest { name: input.name, scopes, expires_at })
}

/// The audit query for the interface's filters; a bad mount name is refused with its
/// reason.
pub fn audit_filter_query(filter: AuditFilterInput) -> (r: Result<AuditQuery, String>)
    ensures
        match crate::text::opt_text(filter.mount) {
            Some(m) => match mount_name_error(m) {
                Some(e) => r matches Err(x) && x@ == mount_name_error_text(e),
                None => r matches Ok(q) && crate::audit::opt_name(q.mount) == Some(m)
                    && q.operation == filter.operation && q.result == filter.result && q.limit
                    == filter.limit && q.token_id is None && q.before is None && q.after is None
                    && q.after_id is None,
            },
            None => r matches Ok(q) && q.mount is None && q.operation == filter.operation
                && q.result == filter.result && q.limit == filter.limit && q.token_id is None
                && q.before is None && q.after is None && q.after_id is None,
        },
{
    let mount = match &filter.mount {
        Some(m) => match MountName::new(m.as_str()) {
            Ok(n) => Some(n),
            Err(error) => return Err(error.message().to_owned()),
        },
        None => None,
    };
    Ok(AuditQuery {
        mount,
        token_id: None,
        operation: filter.operation,
        result: filter.result,
        limit: filter.limit,
        before: None,
        after: None,
        after_id: None,
    })
}

/// Reads the identity of a token to revoke; one that is not a UUID is refused with the
/// reason.
pub fn revoke_token_id(id: &str) -> (r: Result<TokenId, String>)
    ensures
        match uuid_parse(id@) {
            Ok(bits) => r == Ok::<TokenId, String>(TokenId(bits)),
            Err(m) => r matches Err(x) && x@ == m,
        },
{
    match parse_uuid(id) {
        Ok(bits) => Ok(TokenId(bits)),
        Err(message) => Err(message),
    }
}

/// The root of the mount named `mount`, the start of a browsed tree.
pub fn browse_root(mount: &str) -> (r: Result<MountPath, String>)
    ensures
        match mount_name_error(mount@) {
            Some(e) => r matches Err(x) && x@ == mount_name_error_text(e),
            None => r matches Ok(p) && p@ == (mount@, Seq::<char>::empty()),
        },
{
    match MountName::new(mount) {
        Ok(name) => Ok(MountPath::new(name, RelativePath::root())),
        Err(error) => Err(error.message().to_owned()),
    }
}

} // verus!
