//! The stored forms of tokens and mounts: table rows of text, JSON arrays and RFC 3339
//! timestamps, and their conversion to and from the library's values.
use vstd::prelude::*;

use crate::db::{
    audience_from_db, audience_from_text, audience_text, audience_to_db, mount_mode_from_db,
    mount_mode_from_text, mount_mode_text, mount_mode_to_db,
};
use crate::errors::DbError;
use crate::glob::views_of;
use crate::mount::{mount_name_error, Mount, MountName, MountNameError, MountPolicy};
use crate::scope::{
    lemma_scope_text_round_trip, scope_error_text, scope_parse, scope_text, scope_well_formed, Scope,
    ScopeModel, ScopeSet,
};
use crate::text::opt_text;
use crate::token::{Expiry, Token, TokenId};

verus! {

broadcast use vstd::string::group_string_axioms;

/// The outcome of parsing `text` as an RFC 3339 date-time with `time`: the instant in
/// nanoseconds since the Unix epoch, or the parse error's message.
pub uninterp spec fn rfc3339_parse(text: Seq<char>) -> Result<i128, Seq<char>>;

/// The outcome of formatting the instant `nanos` (since the Unix epoch, UTC) as RFC 3339
/// with `time`: the text, or the error's message.
pub uninterp spec fn rfc3339_format(nanos: i128) -> Result<Seq<char>, Seq<char>>;

/// The outcome of parsing `text` as a UUID with `uuid`: its 128 bits, or the error's
/// message.
pub uninterp spec fn uuid_parse(text: Seq<char>) -> Result<u128, Seq<char>>;

/// The outcome of reading `text` as a JSON array of strings with `serde_json`: the strings,
/// or the error's message.
pub uninterp spec fn json_string_array(text: Seq<char>) -> Result<Seq<Seq<char>>, Seq<char>>;

/// The outcome of writing `items` as a JSON array of strings with `serde_json`: the text,
/// or the error's message.
pub uninterp spec fn json_string_array_text(items: Seq<Seq<char>>) -> Result<
    Seq<char>,
    Seq<char>,
>;

/// Whether `text` reads as the JSON array of the strings `items`.
pub open spec fn json_reads_back(text: Seq<char>, items: Seq<Seq<char>>) -> bool {
    json_string_array(text) == Ok::<Seq<Seq<char>>, Seq<char>>(items)
}

/// Whether `text` parses as RFC 3339 to the instant `nanos`.
pub open spec fn rfc3339_reads_back(text: Seq<char>, nanos: i128) -> bool {
    rfc3339_parse(text) == Ok::<i128, Seq<char>>(nanos)
}

/// The characters of the error side of a result.
pub open spec fn err_text<T>(r: Result<T, String>) -> Result<T, Seq<char>> {
    match r {
        Ok(v) => Ok(v),
        Err(e) => Err(e@),
    }
}

/// The characters of each side of a result of strings.
pub open spec fn both_text(r: Result<String, String>) -> Result<Seq<char>, Seq<char>> {
    match r {
        Ok(s) => Ok(s@),
        Err(e) => Err(e@),
    }
}

/// The characters of each string of a successful result.
pub open spec fn strings_text(r: Result<Vec<String>, String>) -> Result<Seq<Seq<char>>, Seq<char>> {
    match r {
        Ok(v) => Ok(views_of(v@)),
        Err(e) => Err(e@),
    }
}

/// `OffsetDateTime::parse` with the `Rfc3339` description from `time`, the instant taken
/// as `unix_timestamp_nanos` and an error as its message.
#[verifier::external_body]
pub(crate) fn parse_rfc3339(text: &str) -> (r: Result<i128, String>)
    ensures
        err_text(r) == rfc3339_parse(text@),
{
    match time::OffsetDateTime::parse(text, &time::format_description::well_known::Rfc3339) {
        Ok(value) => Ok(value.unix_timestamp_nanos()),
        Err(error) => Err(error.to_string()),
    }
}

/// `OffsetDateTime::from_unix_timestamp_nanos` and `format` with the `Rfc3339` description
/// from `time`; an error is given as its message. The text written (UTC, with every
/// non-zero digit of the nanoseconds) parses back with the same description as the same
/// instant.
#[verifier::external_body]
fn format_rfc3339(nanos: i128) -> (r: Result<String, String>)
    ensures
        both_text(r) == rfc3339_format(nanos),
        r matches Ok(t) ==> rfc3339_reads_back(t@, nanos),
{
    let value = time::OffsetDateTime::from_unix_timestamp_nanos(nanos).map_err(
        |error| error.to_string(),
    )?;
    value.format(&time::format_description::well_known::Rfc3339).map_err(|error| error.to_string())
}

/// `Uuid::parse_str` from `uuid`, the UUID taken as its 128 bits and an error as its
/// message. The hyphenated lower-case form of a UUID is one of the forms it reads.
#[verifier::external_body]
pub(crate) fn parse_uuid(text: &str) -> (r: Result<u128, String>)
    ensures
        err_text(r) == uuid_parse(text@),
        reads_hyphenated(text@, r),
{
    match uuid::Uuid::parse_str(text) {
        Ok(value) => Ok(value.as_u128()),
        Err(error) => Err(error.to_string()),
    }
}

/// Whether `r` reads the hyphenated form of a UUID as that UUID.
pub open spec fn reads_hyphenated(text: Seq<char>, r: Result<u128, String>) -> bool {
    forall|bits: u128| text == #[trigger] uuid_hyphenated(bits) ==> r == Ok::<u128, String>(bits)
}

/// The lower-case hexadecimal digit of `n`, for `n` below 16.
pub open spec fn hex_digit(n: u128) -> char {
    if n < 10 {
        (n + 48) as char
    } else {
        (n + 87) as char
    }
}

/// The 32 lower-case hexadecimal digits of a 128-bit value, most significant first.
pub open spec fn hex32(bits: u128) -> Seq<char> {
    Seq::new(32, |i: int| hex_digit((bits >> ((124 - 4 * i) as u128)) & 15))
}

/// The hyphenated form of a UUID: its digits in groups of 8, 4, 4, 4 and 12.
pub open spec fn uuid_hyphenated(bits: u128) -> Seq<char> {
    let h = hex32(bits);
    h.subrange(0, 8) + seq!['-'] + h.subrange(8, 12) + seq!['-'] + h.subrange(12, 16) + seq!['-']
        + h.subrange(16, 20) + seq!['-'] + h.subrange(20, 32)
}

/// Whether `text` reads with `uuid` as the UUID with the bits `bits`.
pub open spec fn uuid_reads_back(text: Seq<char>, bits: u128) -> bool {
    uuid_parse(text) == Ok::<u128, Seq<char>>(bits)
}

/// The `Display` form of `Uuid::from_u128(bits)` from `uuid`, which is the hyphenated
/// lower-case form; `Uuid::parse_str` reads it back as the same UUID.
#[verifier::external_body]
fn uuid_text(bits: u128) -> (r: String)
    ensures
        r@ == uuid_hyphenated(bits),
        uuid_reads_back(r@, bits),
{
    uuid::Uuid::from_u128(bits).to_string()
}

/// `serde_json::from_str` into a list of strings; an error is given as its message.
#[verifier::external_body]
fn read_json_strings(text: &str) -> (r: Result<Vec<String>, String>)
    ensures
        strings_text(r) == json_string_array(text@),
{
    serde_json::from_str::<Vec<String>>(text).map_err(|error| error.to_string())
}

/// `serde_json::to_string` of a list of strings; an error is given as its message. The
/// text written reads back with `serde_json::from_str` as the same strings.
#[verifier::external_body]
fn write_json_strings(items: &Vec<String>) -> (r: Result<String, String>)
    ensures
        both_text(r) == json_string_array_text(views_of(items@)),
        r matches Ok(t) ==> json_reads_back(t@, views_of(items@)),
{
    serde_json::to_string(items).map_err(|error| error.to_string())
}

/// The hyphenated text of a token identity.
pub fn token_id_text(id: TokenId) -> (s: String)
    ensures
        s@ == uuid_hyphenated(id.0),
        uuid_reads_back(s@, id.0),
{
    uuid_text(id.0)
}

/// Reads a token identity from its text.
pub fn parse_token_id(text: &str) -> (r: Result<TokenId, DbError>)
    ensures
        match uuid_parse(text@) {
            Ok(bits) => r == Ok::<TokenId, DbError>(TokenId(bits)),
            Err(m) => r matches Err(DbError::Query(e)) && e@ == m,
        },
        forall|bits: u128| text@ == #[trigger] uuid_hyphenated(bits) ==> r == Ok::<TokenId, DbError>(TokenId(bits)),
{
    match parse_uuid(text) {
        Ok(bits) => Ok(TokenId(bits)),
        Err(message) => Err(DbError::Query(message)),
    }
}

/// `v` with every space replaced by `T`, and `Z` appended.
pub open spec fn with_utc_suffix(v: Seq<char>) -> Seq<char> {
    v.map_values(|c: char| if c == ' ' { 'T' } else { c }) + seq!['Z']
}

/// Reading a stored timestamp: RFC 3339, else SQLite's `YYYY-MM-DD HH:MM:SS` form read as
/// UTC; when neither reads, the message names the value and the second error.
pub open spec fn datetime_outcome(v: Seq<char>) -> Result<i128, Seq<char>> {
    match rfc3339_parse(v) {
        Ok(t) => Ok(t),
        Err(_) => match rfc3339_parse(with_utc_suffix(v)) {
            Ok(t) => Ok(t),
            Err(e) => Err("invalid datetime "@ + v + ": "@ + e),
        },
    }
}

/// `value` with spaces turned into `T` and `Z` appended.
fn utc_form(value: &str) -> (r: String)
    ensures
        r@ == with_utc_suffix(value@),
{
    let mut out = String::new();
    let ghost target = value@.map_values(|c: char| if c == ' ' { 'T' } else { c });
    let mut i: usize = 0;
    let mut chars = crate::text::chars_of(value);
    proof {
        reveal_strlit("T");
        reveal_strlit("Z");
    }
    while i < chars.len()
        invariant
            chars@ == value@,
            target == value@.map_values(|c: char| if c == ' ' { 'T' } else { c }),
            0 <= i <= chars.len(),
            out@ == target.take(i as int),
        decreases chars.len() - i,
    {
        if chars[i] == ' ' {
            out.append("T");
        } else {
            out.append(value.substring_char(i, i + 1));
        }
        proof {
            reveal_strlit("T");
            assert("T"@ =~= seq!['T']);
            assert(target[i as int] == (if value@[i as int] == ' ' { 'T' } else { value@[i as int] }));
            assert(target.take(i + 1) =~= target.take(i as int).push(target[i as int]));
            assert(value@.subrange(i as int, i + 1) =~= seq![value@[i as int]]);
        }
        i = i + 1;
    }
    out.append("Z");
    proof {
        assert(target.take(chars.len() as int) =~= target);
        assert("Z"@ =~= seq!['Z']);
    }
    out
}

/// Reads a stored timestamp as nanoseconds since the Unix epoch.
pub fn parse_datetime(value: &str) -> (r: Result<i128, DbError>)
    ensures
        match datetime_outcome(value@) {
            Ok(t) => r == Ok::<i128, DbError>(t),
            Err(m) => r matches Err(DbError::Query(e)) && e@ == m,
        },
{
    if let Ok(parsed) = parse_rfc3339(value) {
        return Ok(parsed);
    }
    let with_utc = utc_form(value);
    match parse_rfc3339(with_utc.as_str()) {
        Ok(parsed) => Ok(parsed),
        Err(error) => {
            let mut message = "invalid datetime ".to_owned();
            message.append(value);
            message.append(": ");
            message.append(error.as_str());
            proof {
                reveal_strlit(": ");
            }
            Err(DbError::Query(message))
        },
    }
}

/// Writes an instant as RFC 3339 text.
pub fn serialize_datetime(nanos: i128) -> (r: Result<String, DbError>)
    ensures
        match rfc3339_format(nanos) {
            Ok(t) => r matches Ok(s) && s@ == t,
            Err(m) => r matches Err(DbError::Query(e)) && e@ == m,
        },
        r matches Ok(t) ==> datetime_outcome(t@) == Ok::<i128, Seq<char>>(nanos),
{
    match format_rfc3339(nanos) {
        Ok(text) => Ok(text),
        Err(message) => Err(DbError::Query(message)),
    }
}

/// Reads a JSON array of strings.
pub fn parse_json_array(value: &str) -> (r: Result<Vec<String>, DbError>)
    ensures
        match json_string_array(value@) {
            Ok(items) => r matches Ok(v) && views_of(v@) == items,
            Err(m) => r matches Err(DbError::Query(e)) && e@ == m,
        },
{
    match read_json_strings(value) {
        Ok(items) => Ok(items),
        Err(message) => Err(DbError::Query(message)),
    }
}

/// Writes strings as a JSON array.
pub fn serialize_json_array(values: &Vec<String>) -> (r: Result<String, DbError>)
    ensures
        match json_string_array_text(views_of(values@)) {
            Ok(t) => r matches Ok(s) && s@ == t,
            Err(m) => r matches Err(DbError::Query(e)) && e@ == m,
        },
        r matches Ok(t) ==> json_string_array(t@) == Ok::<Seq<Seq<char>>, Seq<char>>(
            views_of(values@),
        ),
{
    match write_json_strings(values) {
        Ok(text) => Ok(text),
        Err(message) => Err(DbError::Query(message)),
    }
}

/// Reading scope strings in order: the first that does not parse gives its error message,
/// otherwise the set of the scopes.
pub open spec fn scopes_outcome(items: Seq<Seq<char>>) -> Result<Set<ScopeModel>, Seq<char>>
    decreases items.len(),
{
    if items.len() == 0 {
        Ok(Set::empty())
    } else {
        match scopes_outcome(items.drop_last()) {
            Err(m) => Err(m),
            Ok(set) => match scope_parse(items.last()) {
                Err(e) => Err(scope_error_text(e)),
                Ok(s) => Ok(set.insert(s)),
            },
        }
    }
}

/// Reads the stored scopes of a token: a JSON array of scope strings.
pub fn parse_scopes(value: &str) -> (r: Result<ScopeSet, DbError>)
    ensures
        match json_string_array(value@) {
            Err(m) => r matches Err(DbError::Query(e)) && e@ == m,
            Ok(items) => match scopes_outcome(items) {
                Ok(set) => r matches Ok(scopes) && scopes@.to_set() == set,
                Err(m) => r matches Err(DbError::Query(e)) && e@ == m,
            },
        },
{
    let raw = parse_json_array(value)?;
    let ghost items = views_of(raw@);
    let mut scopes = ScopeSet::empty();
    let mut i: usize = 0;
    proof {
        assert(items.take(0) =~= Seq::<Seq<char>>::empty());
        assert(scopes@.to_set() =~= Set::<ScopeModel>::empty());
    }
    while i < raw.len()
        invariant
            items == views_of(raw@),
            json_string_array(value@) == Ok::<Seq<Seq<char>>, Seq<char>>(items),
            0 <= i <= raw.len(),
            scopes_outcome(items.take(i as int)) == Ok::<Set<ScopeModel>, Seq<char>>(
                scopes@.to_set(),
            ),
        decreases raw.len() - i,
    {
        proof {
            assert(items.take(i + 1).drop_last() =~= items.take(i as int));
            assert(items.take(i + 1).last() == raw@[i as int]@);
        }
        match Scope::from_str(raw[i].as_str()) {
            Ok(scope) => {
                scopes.insert(scope);
            },
            Err(error) => {
                proof {
                    assert(scopes_outcome(items.take(i + 1)) == Err::<Set<ScopeModel>, Seq<char>>(
                        scope_error_text(error),
                    ));
                    lemma_scopes_outcome_error_extends(items, i + 1);
                }
                return Err(DbError::Query(error.message().to_owned()));
            },
        }
        i = i + 1;
    }
    proof {
        assert(items.take(raw.len() as int) =~= items);
    }
    Ok(scopes)
}

/// An error met in a prefix is the error of the whole list.
pub proof fn lemma_scopes_outcome_error_extends(items: Seq<Seq<char>>, k: int)
    requires
        0 <= k <= items.len(),
        scopes_outcome(items.take(k)) is Err,
    ensures
        scopes_outcome(items) == scopes_outcome(items.take(k)),
    decreases items.len() - k,
{
    if k < items.len() {
        assert(items.take(k + 1).drop_last() =~= items.take(k));
        lemma_scopes_outcome_error_extends(items, k + 1);
    } else {
        assert(items.take(k) =~= items);
    }
}

/// Reading back the texts of well-formed scopes gives the set of those scopes.
pub proof fn lemma_scope_texts_read_back(scopes: Seq<ScopeModel>)
    requires
        forall|i: int| 0 <= i < scopes.len() ==> scope_well_formed(#[trigger] scopes[i]),
    ensures
        scopes_outcome(scope_texts(scopes)) == Ok::<Set<ScopeModel>, Seq<char>>(scopes.to_set()),
    decreases scopes.len(),
{
    if scopes.len() == 0 {
        assert(scope_texts(scopes) =~= Seq::<Seq<char>>::empty());
        assert(scopes.to_set() =~= Set::<ScopeModel>::empty());
    } else {
        let init = scopes.drop_last();
        assert forall|i: int| 0 <= i < init.len() implies scope_well_formed(#[trigger] init[i]) by {
            assert(init[i] == scopes[i]);
        }
        lemma_scope_texts_read_back(init);
        assert(scope_texts(scopes).drop_last() =~= scope_texts(init));
        assert(scope_texts(scopes).last() == scope_text(scopes.last()));
        assert(scope_well_formed(scopes[scopes.len() - 1]));
        lemma_scope_text_round_trip(scopes.last());
        assert(scopes.to_set() =~= init.to_set().insert(scopes.last())) by {
            assert(scopes =~= init.push(scopes.last()));
            init.lemma_push_to_set_commute(scopes.last());
        }
    }
}

/// The texts of scopes, in order.
pub open spec fn scope_texts(scopes: Seq<ScopeModel>) -> Seq<Seq<char>> {
    scopes.map_values(|s: ScopeModel| scope_text(s))
}

/// Writes the scopes of a token as a JSON array of scope strings, in the set's order.
pub fn serialize_scopes(scopes: &ScopeSet) -> (r: Result<String, DbError>)
    ensures
        match json_string_array_text(scope_texts(scopes@)) {
            Ok(t) => r matches Ok(s) && s@ == t,
            Err(m) => r matches Err(DbError::Query(e)) && e@ == m,
        },
        r matches Ok(t) ==> json_reads_back(t@, scope_texts(scopes@)),
        forall|i: int| 0 <= i < scopes@.len() ==> scope_well_formed(#[trigger] scopes@[i]),
{
    let items = scopes.as_slice();
    let mut texts: Vec<String> = Vec::new();
    let mut i: usize = 0;
    while i < items.len()
        invariant
            crate::scope::scope_models(items@) == scopes@,
            0 <= i <= items@.len(),
            views_of(texts@) == scope_texts(scopes@).take(i as int),
            forall|j: int| 0 <= j < i ==> scope_well_formed(#[trigger] scopes@[j]),
        decreases items@.len() - i,
    {
        let text = items[i].to_string();
        let ghost before = texts@;
        texts.push(text);
        proof {
            assert(scopes@[i as int] == items@[i as int]@);
            assert(views_of(texts@) =~= views_of(before).push(scope_text(items@[i as int]@)));
            assert(scope_texts(scopes@).take(i + 1) =~= scope_texts(scopes@).take(i as int).push(
                scope_text(scopes@[i as int]),
            ));
        }
        i = i + 1;
    }
    proof {
        assert(scope_texts(scopes@).take(items@.len() as int) =~= scope_texts(scopes@));
    }
    serialize_json_array(&texts)
}

/// A row of the token table.
#[derive(Debug)]
pub struct TokenRow {
    pub id: String,
    pub name: String,
    pub hash: String,
    pub scopes: String,
    pub created_at: String,
    pub expires_at: Option<String>,
    pub last_used_at: Option<String>,
}

/// A row of the mount table.
#[derive(Debug)]
pub struct MountRow {
    pub name: String,
    pub root_path: String,
    pub mode: String,
    pub audience: String,
    pub description: Option<String>,
    pub hide_globs: String,
    pub deny_read_globs: String,
    pub deny_write_globs: String,
    pub max_read_bytes: Option<i64>,
    pub max_write_bytes: Option<i64>,
    pub created_at: String,
    pub updated_at: String,
}

/// Reads an optional stored timestamp.
fn parse_optional_datetime(value: &Option<String>) -> (r: Result<Option<i128>, DbError>)
    ensures
        match opt_text(*value) {
            None => r == Ok::<Option<i128>, DbError>(None),
            Some(v) => match datetime_outcome(v) {
                Ok(t) => r == Ok::<Option<i128>, DbError>(Some(t)),
                Err(m) => r matches Err(DbError::Query(e)) && e@ == m,
            },
        },
{
    match value {
        Some(v) => match parse_datetime(v.as_str()) {
            Ok(t) => Ok(Some(t)),
            Err(e) => Err(e),
        },
        None => Ok(None),
    }
}

/// Whether `r` is the error whose message is `m`.
pub open spec fn query_error<T>(r: Result<T, DbError>, m: Seq<char>) -> bool {
    r matches Err(DbError::Query(e)) && e@ == m
}

/// Why an optional stored timestamp does not read, if it does not.
pub open spec fn optional_datetime_error(v: Option<String>) -> Option<Seq<char>> {
    match opt_text(v) {
        Some(t) => match datetime_outcome(t) {
            Err(m) => Some(m),
            Ok(_) => None,
        },
        None => None,
    }
}

/// Why a token row does not read, if it does not: its fields are read in order (identity,
/// creation time, expiry, last use, scopes) and the first that does not read gives the
/// message.
pub open spec fn token_row_error(row: TokenRow) -> Option<Seq<char>> {
    if uuid_parse(row.id@) is Err {
        Some(uuid_parse(row.id@)->Err_0)
    } else if datetime_outcome(row.created_at@) is Err {
        Some(datetime_outcome(row.created_at@)->Err_0)
    } else if optional_datetime_error(row.expires_at) is Some {
        optional_datetime_error(row.expires_at)
    } else if optional_datetime_error(row.last_used_at) is Some {
        optional_datetime_error(row.last_used_at)
    } else if json_string_array(row.scopes@) is Err {
        Some(json_string_array(row.scopes@)->Err_0)
    } else if scopes_outcome(json_string_array(row.scopes@)->Ok_0) is Err {
        Some(scopes_outcome(json_string_array(row.scopes@)->Ok_0)->Err_0)
    } else {
        None
    }
}

/// The expiry a readable token row records.
pub open spec fn row_expiry(row: TokenRow) -> Expiry {
    match opt_text(row.expires_at) {
        None => Expiry::Never,
        Some(v) => Expiry::At(datetime_outcome(v)->Ok_0),
    }
}

/// Whether `t` is the token that a readable row records.
pub open spec fn row_holds_token(row: TokenRow, t: Token) -> bool {
    &&& uuid_parse(row.id@) == Ok::<u128, Seq<char>>(t.id.0)
    &&& t.name@ == row.name@
    &&& t.hash@ == row.hash@
    &&& datetime_outcome(row.created_at@) == Ok::<i128, Seq<char>>(t.created_at)
    &&& t.expires_at == row_expiry(row)
    &&& match opt_text(row.last_used_at) {
        None => t.last_used_at is None,
        Some(v) => t.last_used_at == Some(datetime_outcome(v)->Ok_0),
    }
    &&& t.scopes@.to_set() == scopes_outcome(json_string_array(row.scopes@)->Ok_0)->Ok_0
}

/// The token stored in `row`.
pub fn map_row_to_token(row: TokenRow) -> (r: Result<Token, DbError>)
    ensures
        match token_row_error(row) {
            Some(m) => query_error(r, m),
            None => r matches Ok(t) && row_holds_token(row, t),
        },
{
    let id = parse_token_id(row.id.as_str())?;
    let created_at = parse_datetime(row.created_at.as_str())?;
    let expires_at = match parse_optional_datetime(&row.expires_at)? {
        Some(t) => Expiry::At(t),
        None => Expiry::Never,
    };
    let last_used_at = parse_optional_datetime(&row.last_used_at)?;
    let scopes = parse_scopes(row.scopes.as_str())?;
    Ok(Token { id, name: row.name, hash: row.hash, scopes, created_at, expires_at, last_used_at })
}

/// Why a token cannot be written as a row, if it cannot: its scopes, then its creation,
/// expiry and last-use times are written in order and the first failure gives the message.
pub open spec fn token_write_error(token: Token) -> Option<Seq<char>> {
    if json_string_array_text(scope_texts(token.scopes@)) is Err {
        Some(json_string_array_text(scope_texts(token.scopes@))->Err_0)
    } else if rfc3339_format(token.created_at) is Err {
        Some(rfc3339_format(token.created_at)->Err_0)
    } else if token.expires_at matches Expiry::At(t) && rfc3339_format(t) is Err {
        Some(rfc3339_format(token.expires_at->At_0)->Err_0)
    } else if token.last_used_at matches Some(t) && rfc3339_format(t) is Err {
        Some(rfc3339_format(token.last_used_at->Some_0)->Err_0)
    } else {
        None
    }
}

/// Whether `row` is the row that stores `token`.
pub open spec fn row_stores_token(row: TokenRow, token: Token) -> bool {
    &&& row.id@ == uuid_hyphenated(token.id.0)
    &&& row.name@ == token.name@
    &&& row.hash@ == token.hash@
    &&& Ok::<Seq<char>, Seq<char>>(row.scopes@) == json_string_array_text(scope_texts(token.scopes@))
    &&& Ok::<Seq<char>, Seq<char>>(row.created_at@) == rfc3339_format(token.created_at)
    &&& match token.expires_at {
        Expiry::Never => row.expires_at is None,
        Expiry::At(t) => opt_text(row.expires_at) matches Some(v) && Ok::<Seq<char>, Seq<char>>(v)
            == rfc3339_format(t),
    }
    &&& match token.last_used_at {
        None => row.last_used_at is None,
        Some(t) => opt_text(row.last_used_at) matches Some(v) && Ok::<Seq<char>, Seq<char>>(v)
            == rfc3339_format(t),
    }
}

/// The row that stores `token`; it reads back as the token.
pub fn token_to_row(token: &Token) -> (r: Result<TokenRow, DbError>)
    ensures
        match token_write_error(*token) {
            Some(m) => query_error(r, m),
            None => r matches Ok(row) && row_stores_token(row, *token),
        },
        r matches Ok(row) ==> token_row_error(row) is None && row_holds_token(row, *token),
{
    let scopes = serialize_scopes(&token.scopes)?;
    let created_at = serialize_datetime(token.created_at)?;
    let expires_at = match token.expires_at {
        Expiry::Never => None,
        Expiry::At(t) => Some(serialize_datetime(t)?),
    };
    let last_used_at = match token.last_used_at {
        Some(t) => Some(serialize_datetime(t)?),
        None => None,
    };
    let row = TokenRow {
        id: token_id_text(token.id),
        name: token.name.clone(),
        hash: token.hash.clone(),
        scopes,
        created_at,
        expires_at,
        last_used_at,
    };
    proof {
        lemma_scope_texts_read_back(token.scopes@);
        assert(json_string_array(row.scopes@) == Ok::<Seq<Seq<char>>, Seq<char>>(
            scope_texts(token.scopes@),
        ));
        assert(optional_datetime_error(row.expires_at) is None);
        assert(optional_datetime_error(row.last_used_at) is None);
        assert(token.expires_at == row_expiry(row));
    }
    Ok(row)
}

/// A stored byte limit, read back: negative values mean no limit.
pub open spec fn limit_from_db(v: Option<i64>) -> Option<u64> {
    match v {
        Some(x) => if x >= 0 {
            Some(x as u64)
        } else {
            None
        },
        None => None,
    }
}

/// A byte limit as stored: limits beyond the signed range are not stored.
pub open spec fn limit_to_db(v: Option<u64>) -> Option<i64> {
    match v {
        Some(x) => if x <= i64::MAX {
            Some(x as i64)
        } else {
            None
        },
        None => None,
    }
}

fn read_limit(v: Option<i64>) -> (r: Option<u64>)
    ensures
        r == limit_from_db(v),
{
    match v {
        Some(x) => if x >= 0 {
            Some(x as u64)
        } else {
            None
        },
        None => None,
    }
}

fn write_limit(v: Option<u64>) -> (r: Option<i64>)
    ensures
        r == limit_to_db(v),
{
    match v {
        Some(x) => if x <= 9223372036854775807u64 {
            Some(x as i64)
        } else {
            None
        },
        None => None,
    }
}

/// A stored limit reads back as the limit that was stored, when it fits the table.
pub proof fn lemma_limit_round_trip(v: Option<u64>)
    requires
        v matches Some(x) ==> x <= i64::MAX,
    ensures
        limit_from_db(limit_to_db(v)) == v,
{
}

/// The message of a mount name that does not read.
pub open spec fn mount_name_error_text(e: MountNameError) -> Seq<char> {
    match e {
        MountNameError::InvalidLength => "mount name must be 1..=64 characters"@,
        MountNameError::InvalidCharacters =>
            "mount name may only contain ASCII alphanumeric, '-' and '_'"@,
    }
}

/// Why a mount row does not read, if it does not: the glob lists, then the name, mode,
/// audience and timestamps are read in order and the first that does not read gives the
/// message.
pub open spec fn mount_row_error(row: MountRow) -> Option<Seq<char>> {
    if json_string_array(row.hide_globs@) is Err {
        Some(json_string_array(row.hide_globs@)->Err_0)
    } else if json_string_array(row.deny_read_globs@) is Err {
        Some(json_string_array(row.deny_read_globs@)->Err_0)
    } else if json_string_array(row.deny_write_globs@) is Err {
        Some(json_string_array(row.deny_write_globs@)->Err_0)
    } else if mount_name_error(row.name@) is Some {
        Some(mount_name_error_text(mount_name_error(row.name@)->Some_0))
    } else if mount_mode_from_text(row.mode@) is None {
        Some("invalid mount mode: "@ + row.mode@)
    } else if audience_from_text(row.audience@) is None {
        Some("invalid audience: "@ + row.audience@)
    } else if datetime_outcome(row.created_at@) is Err {
        Some(datetime_outcome(row.created_at@)->Err_0)
    } else if datetime_outcome(row.updated_at@) is Err {
        Some(datetime_outcome(row.updated_at@)->Err_0)
    } else {
        None
    }
}

/// Whether `m` is the mount that a readable row records.
pub open spec fn row_holds_mount(row: MountRow, m: Mount) -> bool {
    &&& Ok::<Seq<Seq<char>>, Seq<char>>(views_of(m.policy.hide_globs@)) == json_string_array(
        row.hide_globs@,
    )
    &&& Ok::<Seq<Seq<char>>, Seq<char>>(views_of(m.policy.deny_read_globs@)) == json_string_array(
        row.deny_read_globs@,
    )
    &&& Ok::<Seq<Seq<char>>, Seq<char>>(views_of(m.policy.deny_write_globs@))
        == json_string_array(row.deny_write_globs@)
    &&& m.name@ == row.name@
    &&& m.root_path@ == row.root_path@
    &&& mount_mode_from_text(row.mode@) == Some(m.mode)
    &&& audience_from_text(row.audience@) == Some(m.audience)
    &&& opt_text(m.description) == opt_text(row.description)
    &&& m.policy.max_read_bytes == limit_from_db(row.max_read_bytes)
    &&& m.policy.max_write_bytes == limit_from_db(row.max_write_bytes)
    &&& datetime_outcome(row.created_at@) == Ok::<i128, Seq<char>>(m.created_at)
    &&& datetime_outcome(row.updated_at@) == Ok::<i128, Seq<char>>(m.updated_at)
}

/// The mount stored in `row`.
pub fn row_to_mount(row: MountRow) -> (r: Result<Mount, DbError>)
    ensures
        match mount_row_error(row) {
            Some(m) => query_error(r, m),
            None => r matches Ok(m) && row_holds_mount(row, m),
        },
{
    let hide_globs = parse_json_array(row.hide_globs.as_str())?;
    let deny_read_globs = parse_json_array(row.deny_read_globs.as_str())?;
    let deny_write_globs = parse_json_array(row.deny_write_globs.as_str())?;
    let name = match MountName::new(row.name.as_str()) {
        Ok(n) => n,
        Err(error) => return Err(DbError::Query(error.message().to_owned())),
    };
    let mode = mount_mode_from_db(row.mode.as_str())?;
    let audience = audience_from_db(row.audience.as_str())?;
    let created_at = parse_datetime(row.created_at.as_str())?;
    let updated_at = parse_datetime(row.updated_at.as_str())?;
    Ok(Mount {
        name,
        root_path: row.root_path,
        mode,
        audience,
        description: row.description,
        policy: MountPolicy {
            hide_globs,
            deny_read_globs,
            deny_write_globs,
            max_read_bytes: read_limit(row.max_read_bytes),
            max_write_bytes: read_limit(row.max_write_bytes),
        },
        created_at,
        updated_at,
    })
}

/// Why a mount cannot be written as a row, if it cannot: the glob lists, then the
/// creation and update times are written in order and the first failure gives the message.
pub open spec fn mount_write_error(mount: Mount) -> Option<Seq<char>> {
    if json_string_array_text(views_of(mount.policy.hide_globs@)) is Err {
        Some(json_string_array_text(views_of(mount.policy.hide_globs@))->Err_0)
    } else if json_string_array_text(views_of(mount.policy.deny_read_globs@)) is Err {
        Some(json_string_array_text(views_of(mount.policy.deny_read_globs@))->Err_0)
    } else if json_string_array_text(views_of(mount.policy.deny_write_globs@)) is Err {
        Some(json_string_array_text(views_of(mount.policy.deny_write_globs@))->Err_0)
    } else if rfc3339_format(mount.created_at) is Err {
        Some(rfc3339_format(mount.created_at)->Err_0)
    } else if rfc3339_format(mount.updated_at) is Err {
        Some(rfc3339_format(mount.updated_at)->Err_0)
    } else {
        None
    }
}

/// Whether `row` is the row that stores `mount`.
pub open spec fn row_stores_mount(row: MountRow, mount: Mount) -> bool {
    &&& row.name@ == mount.name@
    &&& row.root_path@ == mount.root_path@
    &&& row.mode@ == mount_mode_text(mount.mode)
    &&& row.audience@ == audience_text(mount.audience)
    &&& opt_text(row.description) == opt_text(mount.description)
    &&& Ok::<Seq<char>, Seq<char>>(row.hide_globs@) == json_string_array_text(
        views_of(mount.policy.hide_globs@),
    )
    &&& Ok::<Seq<char>, Seq<char>>(row.deny_read_globs@) == json_string_array_text(
        views_of(mount.policy.deny_read_globs@),
    )
    &&& Ok::<Seq<char>, Seq<char>>(row.deny_write_globs@) == json_string_array_text(
        views_of(mount.policy.deny_write_globs@),
    )
    &&& row.max_read_bytes == limit_to_db(mount.policy.max_read_bytes)
    &&& row.max_write_bytes == limit_to_db(mount.policy.max_write_bytes)
    &&& Ok::<Seq<char>, Seq<char>>(row.created_at@) == rfc3339_format(mount.created_at)
    &&& Ok::<Seq<char>, Seq<char>>(row.updated_at@) == rfc3339_format(mount.updated_at)
}

/// Whether a mount's byte limits fit the table's signed integers.
pub open spec fn limits_fit(p: MountPolicy) -> bool {
    &&& p.max_read_bytes matches Some(x) ==> x <= i64::MAX
    &&& p.max_write_bytes matches Some(x) ==> x <= i64::MAX
}

/// The row that stores `mount`. When the mount's byte limits fit the table, the row reads
/// back as the mount.
pub fn mount_to_row(mount: &Mount) -> (r: Result<MountRow, DbError>)
    ensures
        match mount_write_error(*mount) {
            Some(m) => query_error(r, m),
            None => r matches Ok(row) && row_stores_mount(row, *mount),
        },
        limits_fit(mount.policy) ==> (r matches Ok(row) ==> mount_row_error(row) is None
            && row_holds_mount(row, *mount)),
{
    let name_valid = mount.name.is_valid();
    proof {
        assert(name_valid);
        crate::db::lemma_mount_mode_db_round_trip(mount.mode, mount_mode_text(mount.mode));
        crate::db::lemma_audience_db_round_trip(mount.audience, audience_text(mount.audience));
        if limits_fit(mount.policy) {
            lemma_limit_round_trip(mount.policy.max_read_bytes);
            lemma_limit_round_trip(mount.policy.max_write_bytes);
        }
    }
    let hide_globs = serialize_json_array(&mount.policy.hide_globs)?;
    let deny_read_globs = serialize_json_array(&mount.policy.deny_read_globs)?;
    let deny_write_globs = serialize_json_array(&mount.policy.deny_write_globs)?;
    let created_at = serialize_datetime(mount.created_at)?;
    let updated_at = serialize_datetime(mount.updated_at)?;
    let description = match &mount.description {
        Some(d) => Some(d.clone()),
        None => None,
    };
    Ok(MountRow {
        name: mount.name.to_string(),
        root_path: mount.root_path.clone(),
        mode: mount_mode_to_db(&mount.mode).to_owned(),
        audience: audience_to_db(&mount.audience).to_owned(),
        description,
        hide_globs,
        deny_read_globs,
        deny_write_globs,
        max_read_bytes: write_limit(mount.policy.max_read_bytes),
        max_write_bytes: write_limit(mount.policy.max_write_bytes),
        created_at,
        updated_at,
    })
}

/// A mount written as a row and read back from it is the mount that was written: the same
/// name, root, mode, audience, description, policy and times. (`mount_to_row` gives a row
/// holding the mount it wrote whenever the mount's byte limits fit the table, and
/// `row_to_mount` gives a mount the row holds.)
pub proof fn lemma_mount_row_round_trip(written: Mount, row: MountRow, read: Mount)
    requires
        row_holds_mount(row, written),
        row_holds_mount(row, read),
    ensures
        read.name@ == written.name@,
        read.root_path@ == written.root_path@,
        read.mode == written.mode,
        read.audience == written.audience,
        opt_text(read.description) == opt_text(written.description),
        read.policy@ == written.policy@,
        read.created_at == written.created_at,
        read.updated_at == written.updated_at,
{
}

/// A token written as a row and read back from it is the token that was written: the same
/// identity, name, hash, scopes, times and expiry. (`token_to_row` gives a row holding the
/// token it wrote, and `map_row_to_token` gives a token the row holds.)
pub proof fn lemma_token_row_round_trip(written: Token, row: TokenRow, read: Token)
    requires
        row_holds_token(row, written),
        row_holds_token(row, read),
    ensures
        read.id == written.id,
        read.name@ == written.name@,
        read.hash@ == written.hash@,
        read.scopes@.to_set() == written.scopes@.to_set(),
        read.created_at == written.created_at,
        read.expires_at == written.expires_at,
        read.last_used_at == written.last_used_at,
{
}

} // verus!
