//! Domain events recorded in the audit log.
use vstd::prelude::*;

use crate::mount::{MountMode, MountName};
use crate::path::RelativePath;
use crate::token::TokenId;

verus! {

/// Why an access was denied.
#[derive(Debug, Clone, Copy, PartialEq, Eq, Structural)]
pub enum DenialReason {
    AuthRequired,
    TokenInvalid,
    TokenExpired,
    MissingScope,
    PolicyViolation,
    InvalidPath,
    OutOfBounds,
    SymlinkDenied,
    MountNotFound,
    NotFound,
    Other,
}

/// Something that happened and is worth auditing.
#[derive(Debug, PartialEq, Eq)]
pub enum DomainEvent {
    FileRead { token_id: TokenId, mount: MountName, path: RelativePath, bytes: u64 },
    FileWritten { token_id: TokenId, mount: MountName, path: RelativePath, bytes: u64 },
    DirListed { token_id: TokenId, mount: MountName, path: RelativePath },
    MountRegistered { name: MountName, mode: MountMode },
    MountUpdated { name: MountName },
    MountRemoved { name: MountName },
    TokenCreated { id: TokenId, name: String },
    TokenRevoked { id: TokenId },
    AccessDenied { token_id: Option<TokenId>, reason: DenialReason, mount: Option<MountName> },
}

} // verus!
