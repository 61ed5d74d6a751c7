//! Token secrets, their Argon2id hashes, bearer headers and the scope checks of the token
//! endpoints.
use vstd::prelude::*;

use argon2::password_hash::{PasswordHash, PasswordHasher, PasswordVerifier, SaltString};
use argon2::{Algorithm, Argon2, Params, Version};
use rand::Rng;

use crate::errors::{AuthError, DbError};
use crate::rows::{row_expiry, row_holds_token, map_row_to_token, token_row_error, TokenRow};
use crate::scope::{AdminScope, FsAction, MetaScope, Scope, ScopeModel, ScopeMount, ScopeSet};
use crate::text::{has_prefix, str_strip_prefix};
use crate::token::{expired_at, is_blank, scopes_grant, str_is_blank, Expiry, Token, TokenError, TokenId, TokenView};

verus! {

broadcast use vstd::string::group_string_axioms;

/// ASCII letters and digits: the characters of rand's `Alphanumeric` distribution.
pub open spec fn ascii_alphanumeric(c: char) -> bool {
    ('a' <= c && c <= 'z') || ('A' <= c && c <= 'Z') || ('0' <= c && c <= '9')
}

/// `n` characters drawn from `rand::rng()` with the `Alphanumeric` distribution, which
/// yields ASCII letters and digits only; which ones is left to chance.
#[verifier::external_body]
fn random_alphanumerics(n: usize) -> (r: String)
    ensures
        r@.len() == n,
        forall|i: int| 0 <= i < n ==> ascii_alphanumeric(#[trigger] r@[i]),
{
    rand::rng().sample_iter(rand::distr::Alphanumeric).take(n).map(char::from).collect()
}

/// Sixteen bytes drawn with `Rng::fill` from `rand::rng()`; their values are left to chance.
#[verifier::external_body]
fn random_salt_bytes() -> [u8; 16] {
    let mut bytes = [0u8;16];
    rand::rng().fill(&mut bytes);
    bytes
}

/// Whether a token secret has the form the daemon issues: `memo_` and 32 ASCII letters
/// or digits.
pub open spec fn issued_token_value(s: Seq<char>) -> bool {
    &&& s.len() == 37
    &&& s.take(5) == "memo_"@
    &&& forall|i: int| 5 <= i < 37 ==> ascii_alphanumeric(#[trigger] s[i])
}

/// A fresh token secret: `memo_` followed by 32 random ASCII letters and digits.
pub fn generate_token_value() -> (t: String)
    ensures
        issued_token_value(t@),
{
    let suffix = random_alphanumerics(32);
    let t = "memo_".to_owned().concat(suffix.as_str());
    proof {
        reveal_strlit("memo_");
        assert(t@.take(5) =~= "memo_"@);
        assert forall|i: int| 5 <= i < 37 implies ascii_alphanumeric(#[trigger] t@[i]) by {
            assert(t@[i] == suffix@[i - 5]);
        }
    }
    t
}

/// The daemon's Argon2id cost parameters: memory in KiB, passes and lanes.
pub const ARGON2_MEMORY_KIB: u32 = 19456u32;

/// Passes over memory.
pub const ARGON2_ITERATIONS: u32 = 2u32;

/// Degree of parallelism.
pub const ARGON2_LANES: u32 = 1u32;

/// The outcome of Argon2id hashing (version 0x13) of the password `raw` with the salt `salt`
/// and the cost parameters `memory_kib`, `iterations` and `lanes`: the PHC string, or the
/// error's message.
pub uninterp spec fn argon2id_hash_outcome(
    raw: Seq<char>,
    salt: Seq<u8>,
    memory_kib: u32,
    iterations: u32,
    lanes: u32,
) -> Result<Seq<char>, Seq<char>>;

/// Whether `raw` matches the PHC string `hash` under Argon2id (version 0x13) set up with the
/// cost parameters `memory_kib`, `iterations` and `lanes`.
pub uninterp spec fn argon2id_verifies(
    raw: Seq<char>,
    hash: Seq<char>,
    memory_kib: u32,
    iterations: u32,
    lanes: u32,
) -> bool;

/// The outcome of hashing `raw` with `salt` under the daemon's parameters.
pub open spec fn token_hash_outcome(raw: Seq<char>, salt: Seq<u8>) -> Result<Seq<char>, Seq<char>> {
    argon2id_hash_outcome(raw, salt, ARGON2_MEMORY_KIB, ARGON2_ITERATIONS, ARGON2_LANES)
}

/// Whether `raw` matches `hash` under the daemon's parameters.
pub open spec fn token_hash_verifies(raw: Seq<char>, hash: Seq<char>) -> bool {
    argon2id_verifies(raw, hash, ARGON2_MEMORY_KIB, ARGON2_ITERATIONS, ARGON2_LANES)
}

/// The characters of each side of a result of strings.
pub open spec fn text_result(r: Result<String, String>) -> Result<Seq<char>, Seq<char>> {
    match r {
        Ok(s) => Ok(s@),
        Err(e) => Err(e@),
    }
}

/// `SaltString::encode_b64`, `Params::new(memory_kib, iterations, lanes, None)`,
/// `Argon2::new` (Argon2id, version 0x13) and `PasswordHasher::hash_password` from `argon2`,
/// the hash rendered as its PHC string and each error as its message. Hashing is a function
/// of its arguments; a hash it produces is one that `verify_password` accepts for the same
/// password under the same parameters, since verification recomputes the hash from the
/// parameters and salt the string records.
#[verifier::external_body]
fn argon2_hash(raw: &str, salt: &[u8; 16], memory_kib: u32, iterations: u32, lanes: u32) -> (r:
    Result<String, String>)
    ensures
        text_result(r) == argon2id_hash_outcome(raw@, salt@, memory_kib, iterations, lanes),
        r matches Ok(h) ==> argon2id_verifies(raw@, h@, memory_kib, iterations, lanes),
{
    let salt = SaltString::encode_b64(salt).map_err(|error| error.to_string())?;
    let params = Params::new(memory_kib, iterations, lanes, None).map_err(|error| error.to_string())?;
    Argon2::new(Algorithm::Argon2id, Version::V0x13, params)
        .hash_password(raw.as_bytes(), &salt)
        .map(|hash| hash.to_string())
        .map_err(|error| error.to_string())
}

/// `PasswordHash::new` and `PasswordVerifier::verify_password` from `argon2`, with Argon2id
/// (version 0x13) set up by `Params::new(memory_kib, iterations, lanes, None)`: whether `raw`
/// matches `hash`; a string that does not parse, or parameters that are refused, match
/// nothing.
#[verifier::external_body]
fn argon2_verify(raw: &str, hash: &str, memory_kib: u32, iterations: u32, lanes: u32) -> (r: bool)
    ensures
        r == argon2id_verifies(raw@, hash@, memory_kib, iterations, lanes),
{
    let parsed = match PasswordHash::new(hash) {
        Ok(parsed) => parsed,
        Err(_) => return false,
    };
    match Params::new(memory_kib, iterations, lanes, None) {
        Ok(params) => Argon2::new(Algorithm::Argon2id, Version::V0x13, params)
            .verify_password(raw.as_bytes(), &parsed)
            .is_ok(),
        Err(_) => false,
    }
}

/// The Argon2id hash of `raw` with a fresh random salt; a hashing error is a query error.
pub fn hash_token(raw_token: &str) -> (r: Result<String, DbError>)
    ensures
        r matches Ok(h) ==> token_hash_verifies(raw_token@, h@),
        r matches Err(e) ==> e is Query,
{
    let salt = random_salt_bytes();
    match argon2_hash(raw_token, &salt, ARGON2_MEMORY_KIB, ARGON2_ITERATIONS, ARGON2_LANES) {
        Ok(hash) => Ok(hash),
        Err(message) => Err(DbError::Query(message)),
    }
}

/// The hash of `raw` with the salt `salt`; a hashing error is a query error carrying its
/// message.
pub fn hash_token_with_salt(raw_token: &str, salt: &[u8; 16]) -> (r: Result<String, DbError>)
    ensures
        match token_hash_outcome(raw_token@, salt@) {
            Ok(h) => r matches Ok(s) && s@ == h,
            Err(m) => r matches Err(DbError::Query(e)) && e@ == m,
        },
        r matches Ok(h) ==> token_hash_verifies(raw_token@, h@),
{
    match argon2_hash(raw_token, salt, ARGON2_MEMORY_KIB, ARGON2_ITERATIONS, ARGON2_LANES) {
        Ok(hash) => Ok(hash),
        Err(message) => Err(DbError::Query(message)),
    }
}

/// Whether `raw` is the secret whose hash is `hashed`.
pub fn verify_token_hash(raw_token: &str, hashed_token: &str) -> (r: bool)
    ensures
        r == token_hash_verifies(raw_token@, hashed_token@),
{
    argon2_verify(raw_token, hashed_token, ARGON2_MEMORY_KIB, ARGON2_ITERATIONS, ARGON2_LANES)
}

/// Whether some scope of `scopes` grants one of `required`.
pub open spec fn grants_any(scopes: Seq<ScopeModel>, required: Seq<Scope>) -> bool {
    exists|i: int| 0 <= i < required.len() && scopes_grant(scopes, #[trigger] required[i]@)
}

/// Whether the token holds a scope granting one of `required`.
pub fn token_has_any_scope(token: &Token, required: &[Scope]) -> (r: bool)
    ensures
        r == grants_any(token.scopes@, required@),
{
    let mut i: usize = 0;
    while i < required.len()
        invariant
            0 <= i <= required@.len(),
            forall|j: int| 0 <= j < i ==> !scopes_grant(token.scopes@, #[trigger] required@[j]@),
        decreases required@.len() - i,
    {
        if token.has_scope(&required[i]) {
            return true;
        }
        i = i + 1;
    }
    false
}

/// Whether a token may create and revoke tokens: `admin:*:tokens` or `admin:*:*`.
pub fn require_token_admin_scope(token: &Token) -> (r: bool)
    ensures
        r == (scopes_grant(token.scopes@, ScopeModel::Admin(AdminScope::Tokens)) || scopes_grant(
            token.scopes@,
            ScopeModel::Admin(AdminScope::All),
        )),
{
    let required = [Scope::Admin(AdminScope::Tokens), Scope::Admin(AdminScope::All)];
    let r = token_has_any_scope(token, &required);
    proof {
        if scopes_grant(token.scopes@, ScopeModel::Admin(AdminScope::Tokens)) {
            assert(required@[0]@ == ScopeModel::Admin(AdminScope::Tokens));
        }
        if scopes_grant(token.scopes@, ScopeModel::Admin(AdminScope::All)) {
            assert(required@[1]@ == ScopeModel::Admin(AdminScope::All));
        }
    }
    r
}

/// Whether a token may list tokens: token administrators, and `meta:*:read`.
pub fn require_token_list_scope(token: &Token) -> (r: bool)
    ensures
        r == (scopes_grant(token.scopes@, ScopeModel::Admin(AdminScope::Tokens)) || scopes_grant(
            token.scopes@,
            ScopeModel::Admin(AdminScope::All),
        ) || scopes_grant(token.scopes@, ScopeModel::Meta(MetaScope::Read))),
{
    let required = [
        Scope::Admin(AdminScope::Tokens),
        Scope::Admin(AdminScope::All),
        Scope::Meta(MetaScope::Read),
    ];
    let r = token_has_any_scope(token, &required);
    proof {
        if scopes_grant(token.scopes@, ScopeModel::Admin(AdminScope::Tokens)) {
            assert(required@[0]@ == ScopeModel::Admin(AdminScope::Tokens));
        }
        if scopes_grant(token.scopes@, ScopeModel::Admin(AdminScope::All)) {
            assert(required@[1]@ == ScopeModel::Admin(AdminScope::All));
        }
        if scopes_grant(token.scopes@, ScopeModel::Meta(MetaScope::Read)) {
            assert(required@[2]@ == ScopeModel::Meta(MetaScope::Read));
        }
    }
    r
}

/// The scopes of the first administrator token: every administration scope, metadata
/// reads, and reads and writes on every mount.
pub open spec fn bootstrap_scope_models() -> Set<ScopeModel> {
    set![
        ScopeModel::Admin(AdminScope::All),
        ScopeModel::Admin(AdminScope::Mounts),
        ScopeModel::Admin(AdminScope::Tokens),
        ScopeModel::Meta(MetaScope::Read),
        ScopeModel::Fs { mount: None, action: FsAction::Read },
        ScopeModel::Fs { mount: None, action: FsAction::Write },
    ]
}

/// The scopes given to the first administrator token.
pub fn bootstrap_scopes() -> (s: ScopeSet)
    ensures
        s@.to_set() == bootstrap_scope_models(),
{
    let mut scopes = ScopeSet::empty();
    scopes.insert(Scope::Admin(AdminScope::All));
    scopes.insert(Scope::Admin(AdminScope::Mounts));
    scopes.insert(Scope::Admin(AdminScope::Tokens));
    scopes.insert(Scope::Meta(MetaScope::Read));
    scopes.insert(Scope::Fs { mount: ScopeMount::Any, action: FsAction::Read });
    scopes.insert(Scope::Fs { mount: ScopeMount::Any, action: FsAction::Write });
    proof {
        assert(scopes@.to_set() =~= bootstrap_scope_models());
    }
    scopes
}

/// A request to issue a token. Times are nanoseconds since the Unix epoch.
#[derive(Debug)]
pub struct CreateTokenRequest {
    pub name: String,
    pub scopes: ScopeSet,
    pub expires_at: Option<i128>,
}

/// A token just issued, with its secret, which is shown this once.
#[derive(Debug)]
pub struct CreatedTokenResponse {
    pub id: TokenId,
    pub name: String,
    pub token: String,
    pub scopes: ScopeSet,
    pub created_at: i128,
    pub expires_at: Expiry,
}

/// The tokens a listing shows.
#[derive(Debug)]
pub struct TokenListResponse {
    pub tokens: Vec<TokenView>,
}

/// The answer to a revocation.
#[derive(Debug)]
pub struct RevokeTokenResponse {
    pub id: TokenId,
    pub revoked: bool,
}

/// The expiry a request asks for: at the given instant, or never.
pub open spec fn requested_expiry(expires_at: Option<i128>) -> Expiry {
    match expires_at {
        Some(t) => Expiry::At(t),
        None => Expiry::Never,
    }
}

/// Why a token with this name, hash and scopes cannot be built, if it cannot.
pub open spec fn token_build_error(name: Seq<char>, hash: Seq<char>, scopes: Seq<ScopeModel>) -> Option<
    TokenError,
> {
    if is_blank(name) {
        Some(TokenError::InvalidName)
    } else if is_blank(hash) {
        Some(TokenError::InvalidHash)
    } else if scopes.len() == 0 {
        Some(TokenError::EmptyScopes)
    } else {
        None
    }
}

/// The description of a token error.
pub open spec fn token_error_text(e: TokenError) -> Seq<char> {
    match e {
        TokenError::InvalidName => "token name cannot be empty"@,
        TokenError::InvalidHash => "token hash cannot be empty"@,
        TokenError::EmptyScopes => "token must have at least one scope"@,
    }
}

/// The token stored for `request` and the answer that shows its secret, given the
/// identity `id`, the time `now`, the secret, and the outcome of hashing it: a hashing
/// error is passed on; a token that cannot be built is refused with a query error carrying
/// the reason; otherwise the token has the request's name and scopes, the hash, is issued
/// at `now`, expires when the request asks (never when it does not say), and has not been
/// used.
pub fn issued_token(
    request: CreateTokenRequest,
    id: TokenId,
    now: i128,
    secret: String,
    hashed: Result<String, DbError>,
) -> (r: Result<(Token, CreatedTokenResponse), DbError>)
    ensures
        match hashed {
            Err(e) => r == Err::<(Token, CreatedTokenResponse), DbError>(e),
            Ok(h) => match token_build_error(request.name@, h@, request.scopes@) {
                Some(te) => r matches Err(DbError::Query(m)) && m@ == token_error_text(te),
                None => r matches Ok((token, created)) && token == (Token {
                    id,
                    name: request.name,
                    hash: h,
                    scopes: request.scopes,
                    created_at: now,
                    expires_at: requested_expiry(request.expires_at),
                    last_used_at: None,
                }) && created.id == id && created.name@ == request.name@ && created.token
                    == secret && created.scopes@ == request.scopes@ && created.created_at == now
                    && created.expires_at == requested_expiry(request.expires_at),
            },
        },
{
    let hash = match hashed {
        Ok(h) => h,
        Err(e) => return Err(e),
    };
    let expires_at = match request.expires_at {
        Some(t) => Expiry::At(t),
        None => Expiry::Never,
    };
    let name = request.name.clone();
    let scopes = request.scopes.clone();
    match Token::new(id, request.name, hash, request.scopes, now, expires_at) {
        Err(e) => Err(DbError::Query(e.message().to_owned())),
        Ok(token) => {
            let created = CreatedTokenResponse {
                id,
                name,
                token: secret,
                scopes,
                created_at: now,
                expires_at,
            };
            Ok((token, created))
        },
    }
}

/// Issues a token for `request` at `now`: a fresh identity and secret, the secret hashed
/// with Argon2id. The token is returned with the answer that shows the secret once. A
/// request with a blank name or no scopes is refused with a query error, as is a failed
/// hashing.
pub fn issue_token(request: CreateTokenRequest, now: i128) -> (r: Result<
    (Token, CreatedTokenResponse),
    DbError,
>)
    ensures
        r matches Ok((token, created)) ==> {
            &&& issued_token_value(created.token@)
            &&& token_hash_verifies(created.token@, token.hash@)
            &&& token.name == request.name
            &&& token.scopes == request.scopes
            &&& token.created_at == now
            &&& token.expires_at == requested_expiry(request.expires_at)
            &&& token.last_used_at is None
            &&& created.id == token.id
            &&& created.name@ == request.name@
            &&& created.scopes@ == request.scopes@
            &&& created.created_at == now
            &&& created.expires_at == token.expires_at
        },
        r is Err ==> r matches Err(DbError::Query(_)),
        is_blank(request.name@) || request.scopes@.len() == 0 ==> r is Err,
{
    let secret = generate_token_value();
    let hashed = hash_token(secret.as_str());
    let ghost s = secret;
    let r = issued_token(request, TokenId::new(), now, secret, hashed);
    proof {
        if hashed is Ok && r is Ok {
            let h = hashed->Ok_0;
            assert(r->Ok_0.1.token == s);
            assert(r->Ok_0.0.hash == h);
        }
    }
    r
}

/// What the first start of the daemon issues when no token exists yet (`count` tokens are
/// stored): an administrator token named `bootstrap-admin` with the bootstrap scopes and
/// no expiry; nothing once a token exists.
pub fn bootstrap_request(count: i64) -> (r: Option<CreateTokenRequest>)
    ensures
        count > 0 ==> r is None,
        count <= 0 ==> (r matches Some(req) && req.name@ == "bootstrap-admin"@
            && req.scopes@.to_set() == bootstrap_scope_models() && req.expires_at is None),
{
    if count > 0 {
        return None;
    }
    Some(CreateTokenRequest {
        name: "bootstrap-admin".to_owned(),
        scopes: bootstrap_scopes(),
        expires_at: None,
    })
}

/// The secret carried by an `Authorization` header value: what follows `Bearer ` or
/// `bearer `, when that is not blank.
pub open spec fn bearer_secret(header: Seq<char>) -> Option<Seq<char>> {
    let rest = if has_prefix(header, "Bearer "@) {
        Some(header.skip(7))
    } else if has_prefix(header, "bearer "@) {
        Some(header.skip(7))
    } else {
        None
    };
    match rest {
        Some(t) => if is_blank(t) {
            None
        } else {
            Some(t)
        },
        None => None,
    }
}

/// Reads the bearer secret from an `Authorization` header value (`None` when the header is
/// absent or not text); anything else than a non-blank bearer secret requires
/// authentication.
pub fn extract_bearer_token(header: Option<&str>) -> (r: Result<String, AuthError>)
    ensures
        match header {
            None => r == Err::<String, AuthError>(AuthError::AuthRequired),
            Some(h) => match bearer_secret(h@) {
                None => r == Err::<String, AuthError>(AuthError::AuthRequired),
                Some(t) => r matches Ok(s) && s@ == t,
            },
        },
{
    proof {
        reveal_strlit("Bearer ");
        reveal_strlit("bearer ");
    }
    let header = match header {
        Some(h) => h,
        None => return Err(AuthError::AuthRequired),
    };
    let token = match str_strip_prefix(header, "Bearer ") {
        Some(t) => t,
        None => match str_strip_prefix(header, "bearer ") {
            Some(t) => t,
            None => return Err(AuthError::AuthRequired),
        },
    };
    if str_is_blank(token) {
        return Err(AuthError::AuthRequired);
    }
    Ok(token.to_owned())
}

/// Whether presenting `raw` stops at `row`: the row does not read, or `raw` matches its
/// hash.
pub open spec fn stops_at(row: TokenRow, raw: Seq<char>) -> bool {
    token_row_error(row) is Some || token_hash_verifies(raw, row.hash@)
}

/// The first of `rows` at which presenting `raw` stops, if any.
pub open spec fn first_stop(rows: Seq<TokenRow>, raw: Seq<char>) -> Option<int>
    decreases rows.len(),
{
    if rows.len() == 0 {
        None
    } else {
        match first_stop(rows.drop_last(), raw) {
            Some(i) => Some(i),
            None => if stops_at(rows.last(), raw) {
                Some(rows.len() - 1)
            } else {
                None
            },
        }
    }
}

/// A stop found in a prefix is the first stop of the whole list.
pub proof fn lemma_first_stop_extends(rows: Seq<TokenRow>, k: int, raw: Seq<char>)
    requires
        0 <= k <= rows.len(),
        first_stop(rows.take(k), raw) is Some,
    ensures
        first_stop(rows, raw) == first_stop(rows.take(k), raw),
    decreases rows.len() - k,
{
    if k < rows.len() {
        assert(rows.take(k + 1).drop_last() =~= rows.take(k));
        lemma_first_stop_extends(rows, k + 1, raw);
    } else {
        assert(rows.take(k) =~= rows);
    }
}

/// Presents the secret `raw` to the stored token rows at `now`, in order: a row that does
/// not read makes the secret invalid; the first row whose hash `raw` matches decides, refused
/// when it has expired; a secret that matches none is invalid.
pub fn verify_token_rows(rows: Vec<TokenRow>, raw_token: &str, now: i128) -> (r: Result<
    Token,
    AuthError,
>)
    ensures
        match first_stop(rows@, raw_token@) {
            None => r == Err::<Token, AuthError>(AuthError::TokenInvalid),
            Some(i) => if token_row_error(rows@[i]) is Some {
                r == Err::<Token, AuthError>(AuthError::TokenInvalid)
            } else if expired_at(row_expiry(rows@[i]), now) {
                r == Err::<Token, AuthError>(AuthError::TokenExpired)
            } else {
                r matches Ok(t) && row_holds_token(rows@[i], t)
            },
        },
{
    let ghost all = rows@;
    let mut rest = rows;
    let n: usize = rest.len();
    let mut i: usize = 0;
    proof {
        assert(all.take(0) =~= Seq::<TokenRow>::empty());
        assert(rest@ =~= all.skip(0));
    }
    while i < n
        invariant
            all == rows@,
            all.len() == n,
            0 <= i <= n,
            rest@ == all.skip(i as int),
            first_stop(all.take(i as int), raw_token@) is None,
        decreases n - i,
    {
        let row = rest.remove(0);
        let ghost grow = row;
        proof {
            assert(grow == all[i as int]);
            assert(rest@ =~= all.skip(i + 1));
            assert(all.take(i + 1).drop_last() =~= all.take(i as int));
            assert(all.take(i + 1).last() == grow);
        }
        let token = match map_row_to_token(row) {
            Ok(t) => t,
            Err(_) => {
                proof {
                    assert(first_stop(all.take(i + 1), raw_token@) == Some(i as int));
                    lemma_first_stop_extends(all, i + 1, raw_token@);
                }
                return Err(AuthError::TokenInvalid);
            },
        };
        if verify_token_hash(raw_token, token.hash.as_str()) {
            proof {
                assert(first_stop(all.take(i + 1), raw_token@) == Some(i as int));
                lemma_first_stop_extends(all, i + 1, raw_token@);
            }
            if token.is_expired_at(now) {
                return Err(AuthError::TokenExpired);
            }
            return Ok(token);
        }
        i = i + 1;
    }
    proof {
        assert(all.take(n as int) =~= all);
    }
    Err(AuthError::TokenInvalid)
}

} // verus!
