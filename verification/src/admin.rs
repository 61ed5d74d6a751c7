//! Reading command-line arguments into requests, and the plain-text forms the command line
//! prints.
use vstd::prelude::*;

use crate::audit::{AuditQuery, AuditResult};
use crate::cli::{AuditArgs, CliError};
use crate::client::PatchValue;
use crate::fsops::{is_char, trim_start_by};
use crate::mount::{mount_name_error, Audience, MountMode, MountName};
use crate::path::{colon_slash_at, mount_path_result, relative_path_result, MountPath, RelativePath};
use crate::rows::{mount_name_error_text, parse_rfc3339, parse_uuid, rfc3339_parse, uuid_parse};
use crate::scope::{scope_error_text, scope_models, scope_parse, Scope, ScopeModel, ScopeSet};
use crate::text::{chars_of, find_pair, join_with, str_eq};
use crate::token::TokenId;

verus! {

broadcast use vstd::string::group_string_axioms;

/// Reads a mount name argument; an invalid one is reported with its reason.
pub fn parse_mount_name(input: &str) -> (r: Result<MountName, CliError>)
    ensures
        match mount_name_error(input@) {
            None => r matches Ok(n) && n@ == input@,
            Some(e) => r matches Err(CliError::Command(m)) && m@ == mount_name_error_text(e),
        },
{
    match MountName::new(input) {
        Ok(name) => Ok(name),
        Err(error) => Err(CliError::Command(error.message().to_owned())),
    }
}

/// The mount mode an argument names: `read_only`, `readonly`, `ro`, `read_write`,
/// `readwrite` or `rw`.
pub open spec fn mode_argument(s: Seq<char>) -> Option<MountMode> {
    if s == "read_only"@ || s == "readonly"@ || s == "ro"@ {
        Some(MountMode::ReadOnly)
    } else if s == "read_write"@ || s == "readwrite"@ || s == "rw"@ {
        Some(MountMode::ReadWrite)
    } else {
        None
    }
}

/// Reads a `--mode` argument.
pub fn parse_mount_mode(input: &str) -> (r: Result<MountMode, CliError>)
    ensures
        match mode_argument(input@) {
            Some(m) => r == Ok::<MountMode, CliError>(m),
            None => r matches Err(CliError::Command(msg)) && msg@ == "invalid --mode '"@
                + input@ + "' (expected read_only or read_write)"@,
        },
{
    if str_eq(input, "read_only") || str_eq(input, "readonly") || str_eq(input, "ro") {
        Ok(MountMode::ReadOnly)
    } else if str_eq(input, "read_write") || str_eq(input, "readwrite") || str_eq(input, "rw") {
        Ok(MountMode::ReadWrite)
    } else {
        let mut msg = "invalid --mode '".to_owned();
        msg.append(input);
        msg.append("' (expected read_only or read_write)");
        Err(CliError::Command(msg))
    }
}

/// The audience an argument names: `shared`, `agent_only`/`agent-only` or
/// `human_only`/`human-only`.
pub open spec fn audience_argument(s: Seq<char>) -> Option<Audience> {
    if s == "shared"@ {
        Some(Audience::Shared)
    } else if s == "agent_only"@ || s == "agent-only"@ {
        Some(Audience::AgentOnly)
    } else if s == "human_only"@ || s == "human-only"@ {
        Some(Audience::HumanOnly)
    } else {
        None
    }
}

/// Reads an `--audience` argument.
pub fn parse_audience(input: &str) -> (r: Result<Audience, CliError>)
    ensures
        match audience_argument(input@) {
            Some(a) => r == Ok::<Audience, CliError>(a),
            None => r matches Err(CliError::Command(msg)) && msg@ == "invalid --audience '"@
                + input@ + "' (expected shared, agent_only, or human_only)"@,
        },
{
    if str_eq(input, "shared") {
        Ok(Audience::Shared)
    } else if str_eq(input, "agent_only") || str_eq(input, "agent-only") {
        Ok(Audience::AgentOnly)
    } else if str_eq(input, "human_only") || str_eq(input, "human-only") {
        Ok(Audience::HumanOnly)
    } else {
        let mut msg = "invalid --audience '".to_owned();
        msg.append(input);
        msg.append("' (expected shared, agent_only, or human_only)");
        Err(CliError::Command(msg))
    }
}

/// Reads a `--result` argument: `ok` or `error`.
pub fn parse_audit_result(input: &str) -> (r: Result<AuditResult, CliError>)
    ensures
        input@ == "ok"@ ==> r == Ok::<AuditResult, CliError>(AuditResult::Success),
        input@ == "error"@ ==> r == Ok::<AuditResult, CliError>(AuditResult::Error),
        input@ != "ok"@ && input@ != "error"@ ==> (r matches Err(CliError::Command(msg)) && msg@
            == "invalid --result '"@ + input@ + "' (expected ok or error)"@),
{
    proof {
        reveal_strlit("ok");
        reveal_strlit("error");
        assert("ok"@.len() != "error"@.len());
    }
    if str_eq(input, "ok") {
        Ok(AuditResult::Success)
    } else if str_eq(input, "error") {
        Ok(AuditResult::Error)
    } else {
        let mut msg = "invalid --result '".to_owned();
        msg.append(input);
        msg.append("' (expected ok or error)");
        Err(CliError::Command(msg))
    }
}

/// Reading scope arguments in order: the first that does not parse gives its message.
pub open spec fn scope_arguments_error(items: Seq<Seq<char>>) -> Option<Seq<char>>
    decreases items.len(),
{
    if items.len() == 0 {
        None
    } else {
        match scope_arguments_error(items.drop_last()) {
            Some(m) => Some(m),
            None => match scope_parse(items.last()) {
                Err(e) => Some(scope_error_text(e)),
                Ok(_) => None,
            },
        }
    }
}

/// Reads `--scopes` arguments: each must parse, and there must be at least one.
pub fn parse_scopes(inputs: &[String]) -> (r: Result<ScopeSet, CliError>)
    ensures
        match scope_arguments_error(crate::glob::views_of(inputs@)) {
            Some(m) => r matches Err(CliError::Command(x)) && x@ == m,
            None => if inputs@.len() == 0 {
                r matches Err(CliError::Command(x)) && x@ == "--scopes must not be empty"@
            } else {
                r matches Ok(set) && (forall|i: int|
                    0 <= i < inputs@.len() ==> scope_parse(#[trigger] inputs@[i]@) is Ok
                        && set@.to_set().contains(scope_parse(inputs@[i]@)->Ok_0)) && (forall|
                    x: ScopeModel,
                | #[trigger] set@.to_set().contains(x) ==> exists|i: int|
                    0 <= i < inputs@.len() && scope_parse(#[trigger] inputs@[i]@) == Ok::<
                        ScopeModel,
                        crate::scope::ScopeParseError,
                    >(x))
            },
        },
{
    let ghost items = crate::glob::views_of(inputs@);
    let mut parsed: Vec<Scope> = Vec::new();
    let mut i: usize = 0;
    proof {
        assert(items.take(0) =~= Seq::<Seq<char>>::empty());
    }
    while i < inputs.len()
        invariant
            items == crate::glob::views_of(inputs@),
            0 <= i <= inputs@.len(),
            parsed@.len() == i,
            scope_arguments_error(items.take(i as int)) is None,
            forall|j: int|
                0 <= j < i ==> scope_parse(#[trigger] inputs@[j]@) == Ok::<
                    ScopeModel,
                    crate::scope::ScopeParseError,
                >(parsed@[j]@),
        decreases inputs@.len() - i,
    {
        proof {
            assert(items.take(i + 1).drop_last() =~= items.take(i as int));
            assert(items.take(i + 1).last() == inputs@[i as int]@);
        }
        match Scope::from_str(inputs[i].as_str()) {
            Ok(scope) => {
                parsed.push(scope);
            },
            Err(error) => {
                proof {
                    lemma_scope_arguments_error_extends(items, i + 1);
                }
                return Err(CliError::Command(error.message().to_owned()));
            },
        }
        i = i + 1;
    }
    proof {
        assert(items.take(inputs@.len() as int) =~= items);
    }
    if parsed.len() == 0 {
        return Err(CliError::Command("--scopes must not be empty".to_owned()));
    }
    let ghost models = scope_models(parsed@);
    let set = ScopeSet::new(parsed);
    proof {
        assert forall|k: int| 0 <= k < inputs@.len() implies scope_parse(#[trigger] inputs@[k]@) is Ok
            && set@.to_set().contains(scope_parse(inputs@[k]@)->Ok_0) by {
            assert(models[k] == scope_parse(inputs@[k]@)->Ok_0);
            assert(models.contains(models[k]));
        }
        assert forall|x: ScopeModel| #[trigger] set@.to_set().contains(x) implies exists|k: int|
            0 <= k < inputs@.len() && scope_parse(#[trigger] inputs@[k]@) == Ok::<
                ScopeModel,
                crate::scope::ScopeParseError,
            >(x) by {
            assert(models.to_set().contains(x));
            let k = choose|k: int| 0 <= k < models.len() && models[k] == x;
            assert(scope_parse(inputs@[k]@) == Ok::<ScopeModel, crate::scope::ScopeParseError>(x));
        }
    }
    Ok(set)
}

/// An error met in a prefix of the scope arguments is the first error of all of them.
pub proof fn lemma_scope_arguments_error_extends(items: Seq<Seq<char>>, k: int)
    requires
        0 <= k <= items.len(),
        scope_arguments_error(items.take(k)) is Some,
    ensures
        scope_arguments_error(items) == scope_arguments_error(items.take(k)),
    decreases items.len() - k,
{
    if k < items.len() {
        assert(items.take(k + 1).drop_last() =~= items.take(k));
        lemma_scope_arguments_error_extends(items, k + 1);
    } else {
        assert(items.take(k) =~= items);
    }
}

/// Reads a token identity argument; one that is not a UUID is reported with the reason.
pub fn parse_token_id(input: &str) -> (r: Result<TokenId, CliError>)
    ensures
        match uuid_parse(input@) {
            Ok(bits) => r == Ok::<TokenId, CliError>(TokenId(bits)),
            Err(e) => r matches Err(CliError::Command(m)) && m@ == "invalid token id '"@ + input@
                + "': "@ + e,
        },
{
    match parse_uuid(input) {
        Ok(bits) => Ok(TokenId(bits)),
        Err(error) => {
            let mut m = "invalid token id '".to_owned();
            m.append(input);
            m.append("': ");
            m.append(error.as_str());
            Err(CliError::Command(m))
        },
    }
}

/// Reads an RFC 3339 timestamp argument as nanoseconds since the Unix epoch.
pub fn parse_timestamp(input: &str) -> (r: Result<i128, CliError>)
    ensures
        match rfc3339_parse(input@) {
            Ok(t) => r == Ok::<i128, CliError>(t),
            Err(e) => r matches Err(CliError::Command(m)) && m@ == "invalid timestamp '"@ + input@
                + "' (expected RFC3339): "@ + e,
        },
{
    match parse_rfc3339(input) {
        Ok(t) => Ok(t),
        Err(error) => {
            let mut m = "invalid timestamp '".to_owned();
            m.append(input);
            m.append("' (expected RFC3339): ");
            m.append(error.as_str());
            Err(CliError::Command(m))
        },
    }
}

/// The glob change an update sends: cleared to none, or the given globs.
pub fn patch_globs(value: Option<Vec<String>>, clear: bool) -> (r: Option<Vec<String>>)
    ensures
        clear ==> (r matches Some(v) && v@.len() == 0),
        !clear ==> r == value,
{
    if clear {
        Some(Vec::new())
    } else {
        value
    }
}

/// The text change an update sends: cleared, or the given value.
pub fn patch_string(value: Option<String>, clear: bool) -> (r: Option<PatchValue<String>>)
    ensures
        clear ==> r == Some(PatchValue::<String>::Null),
        !clear ==> r == (match value {
            Some(v) => Some(PatchValue::Value(v)),
            None => None,
        }),
{
    if clear {
        Some(PatchValue::Null)
    } else {
        match value {
            Some(v) => Some(PatchValue::Value(v)),
            None => None,
        }
    }
}

/// The limit change an update sends: cleared, or the given value.
pub fn patch_u64(value: Option<u64>, clear: bool) -> (r: Option<PatchValue<u64>>)
    ensures
        clear ==> r == Some(PatchValue::<u64>::Null),
        !clear ==> r == (match value {
            Some(v) => Some(PatchValue::Value(v)),
            None => None,
        }),
{
    if clear {
        Some(PatchValue::Null)
    } else {
        match value {
            Some(v) => Some(PatchValue::Value(v)),
            None => None,
        }
    }
}

/// How the command line prints a mount mode.
pub fn format_mode(mode: &MountMode) -> (s: &'static str)
    ensures
        s@ == (match *mode {
            MountMode::ReadOnly => "read_only"@,
            MountMode::ReadWrite => "read_write"@,
        }),
{
    match mode {
        MountMode::ReadOnly => "read_only",
        MountMode::ReadWrite => "read_write",
    }
}

/// How the command line prints an audience.
pub fn format_audience(audience: &Audience) -> (s: &'static str)
    ensures
        s@ == (match *audience {
            Audience::Shared => "shared"@,
            Audience::AgentOnly => "agent_only"@,
            Audience::HumanOnly => "human_only"@,
        }),
{
    match audience {
        Audience::Shared => "shared",
        Audience::AgentOnly => "agent_only",
        Audience::HumanOnly => "human_only",
    }
}

/// How the command line prints scopes: their texts, in the set's order, joined by commas.
pub fn format_scopes(scopes: &ScopeSet) -> (s: String)
    ensures
        s@ == join_with(crate::rows::scope_texts(scopes@), ','),
{
    let items = scopes.as_slice();
    let ghost texts = crate::rows::scope_texts(scopes@);
    let mut out = String::new();
    let mut i: usize = 0;
    proof {
        assert(texts.take(0) =~= Seq::<Seq<char>>::empty());
    }
    while i < items.len()
        invariant
            scope_models(items@) == scopes@,
            texts == crate::rows::scope_texts(scopes@),
            0 <= i <= items@.len(),
            out@ == join_with(texts.take(i as int), ','),
        decreases items@.len() - i,
    {
        let text = items[i].to_string();
        proof {
            reveal_strlit(",");
            assert(scopes@[i as int] == items@[i as int]@);
            crate::text::lemma_join_with_push(texts.take(i as int), text@, ',');
            assert(texts.take(i + 1) =~= texts.take(i as int).push(text@));
        }
        if i > 0 {
            out.append(",");
        }
        out.append(text.as_str());
        i = i + 1;
    }
    proof {
        assert(texts.take(items@.len() as int) =~= texts);
    }
    out
}

/// Reads the arguments of an audit query, in order: mount, token, result, then the time
/// bounds; the first that does not read gives the error.
pub fn build_audit_query(args: &AuditArgs) -> (r: Result<AuditQuery, CliError>)
    ensures
        r matches Ok(q) ==> {
            &&& crate::audit::opt_name(q.mount) == crate::text::opt_text(args.mount)
            &&& (q.token_id matches Some(t) ==> args.token_id matches Some(s) && uuid_parse(s@)
                == Ok::<u128, Seq<char>>(t.0))
            &&& (q.token_id is None <==> args.token_id is None)
            &&& crate::text::opt_text(q.operation) == crate::text::opt_text(args.operation)
            &&& (q.result is None <==> args.result is None)
            &&& q.limit == args.limit
            &&& (q.before matches Some(t) ==> args.before matches Some(s) && rfc3339_parse(s@)
                == Ok::<i128, Seq<char>>(t))
            &&& (q.before is None <==> args.before is None)
            &&& (q.after matches Some(t) ==> args.after matches Some(s) && rfc3339_parse(s@)
                == Ok::<i128, Seq<char>>(t))
            &&& (q.after is None <==> args.after is None)
            &&& q.after_id is None
        },
        r is Err ==> {
            ||| args.mount matches Some(m) && mount_name_error(m@) is Some
            ||| args.token_id matches Some(s) && uuid_parse(s@) is Err
            ||| args.result matches Some(s) && s@ != "ok"@ && s@ != "error"@
            ||| args.before matches Some(s) && rfc3339_parse(s@) is Err
            ||| args.after matches Some(s) && rfc3339_parse(s@) is Err
        },
{
    let mount = match &args.mount {
        Some(m) => Some(parse_mount_name(m.as_str())?),
        None => None,
    };
    let token_id = match &args.token_id {
        Some(t) => Some(parse_token_id(t.as_str())?),
        None => None,
    };
    let operation = match &args.operation {
        Some(o) => Some(o.clone()),
        None => None,
    };
    let result = match &args.result {
        Some(s) => Some(parse_audit_result(s.as_str())?),
        None => None,
    };
    let before = match &args.before {
        Some(s) => Some(parse_timestamp(s.as_str())?),
        None => None,
    };
    let after = match &args.after {
        Some(s) => Some(parse_timestamp(s.as_str())?),
        None => None,
    };
    Ok(AuditQuery {
        mount,
        token_id,
        operation,
        result,
        limit: args.limit,
        before,
        after,
        after_id: None,
    })
}

/// Whether `s` holds `:/` somewhere.
pub open spec fn has_colon_slash(s: Seq<char>) -> bool {
    exists|i: int| colon_slash_at(s, i)
}

/// The message for a relative path given without a default mount.
pub open spec fn missing_mount_message() -> Seq<char> {
    "mount path must use '<mount>:/path' or set global --mount for relative paths"@
}

/// What a path argument names: `<mount>:/path`, or a path under the default mount
/// (leading slashes dropped); otherwise the reason it names none.
pub open spec fn mount_path_argument(input: Seq<char>, default_mount: Option<Seq<char>>) -> Result<
    (Seq<char>, Seq<char>),
    Seq<char>,
> {
    if has_colon_slash(input) {
        match mount_path_result(input) {
            Some(p) => Ok(p),
            None => Err("invalid path"@),
        }
    } else {
        match default_mount {
            None => Err(missing_mount_message()),
            Some(d) => match mount_name_error(d) {
                Some(e) => Err(mount_name_error_text(e)),
                None => match relative_path_result(trim_start_by(input, is_char('/'))) {
                    None => Err("invalid path"@),
                    Some(p) => Ok((d, p)),
                },
            },
        }
    }
}

/// The text of an optional string argument.
pub open spec fn opt_str(s: Option<&str>) -> Option<Seq<char>> {
    match s {
        Some(t) => Some(t@),
        None => None,
    }
}

/// Reads a path argument: `<mount>:/path`, or a path under the default mount (leading
/// slashes dropped).
pub fn parse_mount_path(input: &str, default_mount: Option<&str>) -> (r: Result<MountPath, CliError>)
    ensures
        match mount_path_argument(input@, opt_str(default_mount)) {
            Ok(p) => r matches Ok(mp) && mp@ == p,
            Err(m) => r matches Err(CliError::Command(e)) && e@ == m,
        },
{
    let v = chars_of(input);
    if let Some(k) = find_pair(&v, ':', '/') {
        proof {
            assert(colon_slash_at(input@, k as int));
        }
        return match MountPath::parse(input) {
            Ok(p) => Ok(p),
            Err(error) => Err(CliError::Command(error.to_string())),
        };
    }
    proof {
        assert forall|i: int| !colon_slash_at(input@, i) by {
            if colon_slash_at(input@, i) {
                assert(crate::text::pair_at(v@, i, ':', '/'));
            }
        }
    }
    let default_mount = match default_mount {
        Some(d) => d,
        None => return Err(CliError::Command(
            "mount path must use '<mount>:/path' or set global --mount for relative paths".to_owned(),
        )),
    };
    let mount = match MountName::new(default_mount) {
        Ok(m) => m,
        Err(error) => return Err(CliError::Command(error.message().to_owned())),
    };
    let mut i: usize = 0;
    while i < v.len() && v[i] == '/'
        invariant
            v@ == input@,
            0 <= i <= v.len(),
            forall|k: int| 0 <= k < i ==> #[trigger] v@[k] == '/',
        decreases v.len() - i,
    {
        i = i + 1;
    }
    proof {
        let p = is_char('/');
        assert forall|k: int| 0 <= k < i implies p(#[trigger] input@[k]) by {
            assert(v@[k] == '/');
        }
        crate::fsops::lemma_trim_start(input@, p, i as int);
        assert(input@.subrange(i as int, v.len() as int) =~= input@.skip(i as int));
    }
    let relative_input = input.substring_char(i, v.len());
    match RelativePath::new(relative_input) {
        Ok(relative) => Ok(MountPath::new(mount, relative)),
        Err(error) => Err(CliError::Command(error.to_string())),
    }
}

/// Where a copy reads from: a path in a mount, or a local file.
#[derive(Debug)]
pub enum CopySource {
    Mount(MountPath),
    LocalFile,
}

/// The message for a copy source that is neither a mount path nor an existing file.
pub open spec fn missing_source_message(src: Seq<char>) -> Seq<char> {
    "source '"@ + src + "' is neither a valid mount path nor an existing local file"@
}

/// The message for a local copy source that is a directory.
pub open spec fn directory_source_message(src: Seq<char>) -> Seq<char> {
    "local source '"@ + src + "' is a directory; only file -> mount copy is supported"@
}

/// What a copy reads from: `src` as a mount path when it names one; otherwise a local
/// file, which must exist (`local_exists`) and not be a directory (`local_is_dir`).
pub fn copy_source(src: &str, default_mount: Option<&str>, local_exists: bool, local_is_dir: bool) -> (r:
    Result<CopySource, CliError>)
    ensures
        match mount_path_argument(src@, opt_str(default_mount)) {
            Ok(p) => r matches Ok(CopySource::Mount(mp)) && mp@ == p,
            Err(_) => if !local_exists {
                r matches Err(CliError::Command(m)) && m@ == missing_source_message(src@)
            } else if local_is_dir {
                r matches Err(CliError::Command(m)) && m@ == directory_source_message(src@)
            } else {
                r matches Ok(CopySource::LocalFile)
            },
        },
{
    if let Ok(path) = parse_mount_path(src, default_mount) {
        return Ok(CopySource::Mount(path));
    }
    if !local_exists {
        let m = "source '".to_owned().concat(src).concat(
            "' is neither a valid mount path nor an existing local file",
        );
        return Err(CliError::Command(m));
    }
    if local_is_dir {
        let m = "local source '".to_owned().concat(src).concat(
            "' is a directory; only file -> mount copy is supported",
        );
        return Err(CliError::Command(m));
    }
    Ok(CopySource::LocalFile)
}

} // verus!
