//! Access tokens: identity, scopes and expiry.
use vstd::prelude::*;

use crate::scope::{scope_grants, Scope, ScopeModel, ScopeSet};
use crate::text::chars_of;

verus! {

broadcast use vstd::string::group_string_axioms;

/// Unicode `White_Space` characters, as `char::is_whitespace` classifies them.
pub open spec fn is_whitespace(c: char) -> bool {
    let v = c as u32;
    (0x09 <= v && v <= 0x0d) || v == 0x20 || v == 0x85 || v == 0xa0 || v == 0x1680 || (0x2000
        <= v && v <= 0x200a) || v == 0x2028 || v == 0x2029 || v == 0x202f || v == 0x205f || v
        == 0x3000
}

/// Whether `s` is empty once surrounding whitespace is trimmed.
pub open spec fn is_blank(s: Seq<char>) -> bool {
    forall|i: int| 0 <= i < s.len() ==> is_whitespace(#[trigger] s[i])
}

/// Whether a character is Unicode whitespace.
pub fn char_is_whitespace(c: char) -> (r: bool)
    ensures
        r == is_whitespace(c),
{
    let v = c as u32;
    (0x09 <= v && v <= 0x0d) || v == 0x20 || v == 0x85 || v == 0xa0 || v == 0x1680 || (0x2000 <= v
        && v <= 0x200a) || v == 0x2028 || v == 0x2029 || v == 0x202f || v == 0x205f || v == 0x3000
}

/// Whether `s` trims to the empty string.
pub fn str_is_blank(s: &str) -> (r: bool)
    ensures
        r == is_blank(s@),
{
    let v = chars_of(s);
    let mut i: usize = 0;
    while i < v.len()
        invariant
            v@ == s@,
            0 <= i <= v.len(),
            forall|j: int| 0 <= j < i ==> is_whitespace(#[trigger] v@[j]),
        decreases v.len() - i,
    {
        if !char_is_whitespace(v[i]) {
            return false;
        }
        i = i + 1;
    }
    true
}

/// The identity of a token: the 128 bits of a UUID.
#[derive(Debug, Clone, Copy, PartialEq, Eq, Hash, PartialOrd, Ord, Structural)]
pub struct TokenId(pub u128);

/// Whether `bits` (a UUID read big-endian) is a random UUID: version 4 in bits 76 to 79 and
/// the RFC 4122 variant `10` in bits 62 and 63.
pub open spec fn is_random_uuid(bits: u128) -> bool {
    (bits >> 76u128) & 0xfu128 == 4u128 && (bits >> 62u128) & 0x3u128 == 2u128
}

/// A fresh random version-4 UUID from `uuid::Uuid::new_v4`, as its 128 bits
/// (`Uuid::as_u128`, big-endian). The result is random; what is stated is what `new_v4` sets
/// on every outcome: the version nibble 4 and the RFC 4122 variant bits.
#[verifier::external_body]
fn random_uuid_bits() -> (bits: u128)
    ensures
        is_random_uuid(bits),
{
    uuid::Uuid::new_v4().as_u128()
}

impl TokenId {
    /// A fresh random identity: a version-4 UUID.
    pub fn new() -> (id: TokenId)
        ensures
            is_random_uuid(id.0),
    {
        TokenId(random_uuid_bits())
    }

    /// The identity with the given UUID bits.
    pub fn from_u128(value: u128) -> (id: TokenId)
        ensures
            id.0 == value,
    {
        TokenId(value)
    }

    /// The UUID bits of this identity.
    pub fn as_u128(&self) -> (v: u128)
        ensures
            v == self.0,
    {
        self.0
    }
}

/// When a token stops being valid. Times are nanoseconds since the Unix epoch (UTC).
#[derive(Debug, Clone, Copy, PartialEq, Eq, Structural)]
pub enum Expiry {
    Never,
    At(i128),
}

/// Whether `e` has passed at `now`: a token expires at its expiry instant.
pub open spec fn expired_at(e: Expiry, now: i128) -> bool {
    match e {
        Expiry::Never => false,
        Expiry::At(t) => now >= t,
    }
}

impl Expiry {
    /// Whether the expiry has passed at `now`.
    pub fn is_expired_at(&self, now: i128) -> (r: bool)
        ensures
            r == expired_at(*self, now),
    {
        match self {
            Expiry::Never => false,
            Expiry::At(t) => now >= *t,
        }
    }
}

/// Why a token could not be built.
#[derive(Debug, Clone, Copy, PartialEq, Eq, Structural)]
pub enum TokenError {
    InvalidName,
    InvalidHash,
    EmptyScopes,
}

impl TokenError {
    /// The human-readable description of the error.
    pub fn message(&self) -> (m: &'static str)
        ensures
            m@ == (match *self {
                TokenError::InvalidName => "token name cannot be empty"@,
                TokenError::InvalidHash => "token hash cannot be empty"@,
                TokenError::EmptyScopes => "token must have at least one scope"@,
            }),
    {
        match self {
            TokenError::InvalidName => "token name cannot be empty",
            TokenError::InvalidHash => "token hash cannot be empty",
            TokenError::EmptyScopes => "token must have at least one scope",
        }
    }
}

/// Whether some scope of `scopes` grants `required`.
pub open spec fn scopes_grant(scopes: Seq<ScopeModel>, required: ScopeModel) -> bool {
    exists|i: int| 0 <= i < scopes.len() && scope_grants(#[trigger] scopes[i], required)
}

/// A stored token: its hash, scopes and lifetime.
#[derive(Debug, PartialEq, Eq)]
pub struct Token {
    pub id: TokenId,
    pub name: String,
    pub hash: String,
    pub scopes: ScopeSet,
    pub created_at: i128,
    pub expires_at: Expiry,
    pub last_used_at: Option<i128>,
}

impl Token {
    /// Builds a token; the name and hash must not be blank and the scopes not empty.
    pub fn new(
        id: TokenId,
        name: String,
        hash: String,
        scopes: ScopeSet,
        created_at: i128,
        expires_at: Expiry,
    ) -> (r: Result<Token, TokenError>)
        ensures
            is_blank(name@) ==> r == Err::<Token, TokenError>(TokenError::InvalidName),
            !is_blank(name@) && is_blank(hash@) ==> r == Err::<Token, TokenError>(
                TokenError::InvalidHash,
            ),
            !is_blank(name@) && !is_blank(hash@) && scopes@.len() == 0 ==> r == Err::<
                Token,
                TokenError,
            >(TokenError::EmptyScopes),
            !is_blank(name@) && !is_blank(hash@) && scopes@.len() > 0 ==> r == Ok::<
                Token,
                TokenError,
            >(
                Token {
                    id,
                    name,
                    hash,
                    scopes,
                    created_at,
                    expires_at,
                    last_used_at: None,
                },
            ),
    {
        if str_is_blank(name.as_str()) {
            return Err(TokenError::InvalidName);
        }
        if str_is_blank(hash.as_str()) {
            return Err(TokenError::InvalidHash);
        }
        if scopes.is_empty() {
            return Err(TokenError::EmptyScopes);
        }
        Ok(Token { id, name, hash, scopes, created_at, expires_at, last_used_at: None })
    }

    /// Whether the token's scopes grant `required`.
    pub fn has_scope(&self, required: &Scope) -> (r: bool)
        ensures
            r == scopes_grant(self.scopes@, required@),
    {
        self.scopes.contains_required(required)
    }

    /// Whether the token has expired at `now`.
    pub fn is_expired_at(&self, now: i128) -> (r: bool)
        ensures
            r == expired_at(self.expires_at, now),
    {
        self.expires_at.is_expired_at(now)
    }

    /// Records a use at `now`.
    pub fn mark_used(self, now: i128) -> (t: Token)
        ensures
            t == (Token { last_used_at: Some(now), ..self }),
    {
        let mut t = self;
        t.last_used_at = Some(now);
        t
    }
}

/// What a token listing shows: everything but the hash.
#[derive(Debug, PartialEq, Eq)]
pub struct TokenView {
    pub id: TokenId,
    pub name: String,
    pub scopes: ScopeSet,
    pub created_at: i128,
    pub expires_at: Expiry,
    pub last_used_at: Option<i128>,
}

impl TokenView {
    /// The listing of a token.
    pub fn from_token(token: &Token) -> (v: TokenView)
        ensures
            v.id == token.id,
            v.name@ == token.name@,
            v.scopes@ == token.scopes@,
            v.created_at == token.created_at,
            v.expires_at == token.expires_at,
            v.last_used_at == token.last_used_at,
    {
        TokenView {
            id: token.id,
            name: token.name.clone(),
            scopes: token.scopes.clone(),
            created_at: token.created_at,
            expires_at: token.expires_at,
            last_used_at: token.last_used_at,
        }
    }
}

} // verus!
