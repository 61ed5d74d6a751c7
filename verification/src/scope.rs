//! Token scopes (`fs:<mount>:<action>`, `meta:*:read`, `admin:*:<what>`) and scope sets.
use vstd::prelude::*;

use crate::mount::{lemma_mount_name_valid_is_ascii, mount_name_char, valid_mount_name, MountName};
use vstd::std_specs::iter::IteratorSpec;

use crate::text::{chars_of, join_with, lemma_split_join, split_on, split_spans, str_eq};

verus! {

broadcast use vstd::string::group_string_axioms;

/// A file-system action.
#[derive(Debug, Clone, Copy, PartialEq, Eq, PartialOrd, Ord, Hash, Structural)]
pub enum FsAction {
    Read,
    Write,
}

/// An administrative area.
#[derive(Debug, Clone, Copy, PartialEq, Eq, PartialOrd, Ord, Hash, Structural)]
pub enum AdminScope {
    Mounts,
    Tokens,
    All,
}

/// A metadata permission.
#[derive(Debug, Clone, Copy, PartialEq, Eq, PartialOrd, Ord, Hash, Structural)]
pub enum MetaScope {
    Read,
}

/// Why a scope string was refused.
#[derive(Debug, Clone, Copy, PartialEq, Eq, Structural)]
pub enum ScopeParseError {
    InvalidFormat,
    UnknownNamespace,
    UnknownAction,
    InvalidMountName,
}

/// The human-readable description of a scope error.
pub open spec fn scope_error_text(e: ScopeParseError) -> Seq<char> {
    match e {
        ScopeParseError::InvalidFormat => "invalid scope format"@,
        ScopeParseError::UnknownNamespace => "unknown scope namespace"@,
        ScopeParseError::UnknownAction => "unknown scope action"@,
        ScopeParseError::InvalidMountName => "invalid mount name"@,
    }
}

impl ScopeParseError {
    /// The human-readable description of the error.
    pub fn message(&self) -> (m: &'static str)
        ensures
            m@ == scope_error_text(*self),
    {
        match self {
            ScopeParseError::InvalidFormat => "invalid scope format",
            ScopeParseError::UnknownNamespace => "unknown scope namespace",
            ScopeParseError::UnknownAction => "unknown scope action",
            ScopeParseError::InvalidMountName => "invalid mount name",
        }
    }
}

/// The mount part of a file-system scope.
#[derive(Debug, PartialEq, Eq, PartialOrd, Ord, Hash)]
pub enum ScopeMount {
    Any,
    Named(MountName),
}

/// A permission carried by a token.
#[derive(Debug, PartialEq, Eq, PartialOrd, Ord, Hash)]
pub enum Scope {
    Fs { mount: ScopeMount, action: FsAction },
    Meta(MetaScope),
    Admin(AdminScope),
}

/// The mathematical value of a scope; `None` stands for any mount.
pub enum ScopeModel {
    Fs { mount: Option<Seq<char>>, action: FsAction },
    Meta(MetaScope),
    Admin(AdminScope),
}

impl View for ScopeMount {
    type V = Option<Seq<char>>;

    open spec fn view(&self) -> Option<Seq<char>> {
        match self {
            ScopeMount::Any => None,
            ScopeMount::Named(n) => Some(n@),
        }
    }
}

impl View for Scope {
    type V = ScopeModel;

    open spec fn view(&self) -> ScopeModel {
        match self {
            Scope::Fs { mount, action } => ScopeModel::Fs { mount: mount@, action: *action },
            Scope::Meta(m) => ScopeModel::Meta(*m),
            Scope::Admin(a) => ScopeModel::Admin(*a),
        }
    }
}

/// Whether a granted scope satisfies a required one: equal scopes, a wildcard mount with the
/// same action, or `admin:*:*` for any administrative scope.
pub open spec fn scope_grants(granted: ScopeModel, required: ScopeModel) -> bool {
    ||| granted == required
    ||| (granted matches ScopeModel::Fs { mount: None, action: a } && required matches ScopeModel::Fs {
        action: b,
        ..
    } && a == b)
    ||| (granted == ScopeModel::Admin(AdminScope::All) && required is Admin)
}

/// What a granted scope can grant: a scope grants itself; a file-system grant never grants
/// another action, and one on a named mount never grants another mount; only an
/// administration grant grants administration, and only `admin:*:*` grants an area other
/// than its own; a metadata grant grants only metadata reads.
pub proof fn lemma_scope_grant_limits(granted: ScopeModel, required: ScopeModel)
    ensures
        scope_grants(required, required),
        required is Fs && scope_grants(granted, required) ==> (granted is Fs && granted->action
            == required->action),
        granted is Fs && granted->mount is Some && scope_grants(granted, required) ==> granted
            == required,
        required is Admin && scope_grants(granted, required) ==> granted is Admin,
        required is Admin && granted is Admin && granted != required && scope_grants(
            granted,
            required,
        ) ==> granted == ScopeModel::Admin(AdminScope::All),
        granted is Meta && scope_grants(granted, required) ==> granted == required,
        required is Meta && scope_grants(granted, required) ==> granted == required,
{
}

/// The text of an action.
pub open spec fn fs_action_text(a: FsAction) -> Seq<char> {
    match a {
        FsAction::Read => "read"@,
        FsAction::Write => "write"@,
    }
}

/// The text of an administrative area.
pub open spec fn admin_scope_text(a: AdminScope) -> Seq<char> {
    match a {
        AdminScope::Mounts => "mounts"@,
        AdminScope::Tokens => "tokens"@,
        AdminScope::All => "*"@,
    }
}

/// The text of a metadata permission.
pub open spec fn meta_scope_text(m: MetaScope) -> Seq<char> {
    match m {
        MetaScope::Read => "read"@,
    }
}

/// The text of a scope's mount part.
pub open spec fn scope_mount_text(m: Option<Seq<char>>) -> Seq<char> {
    match m {
        None => "*"@,
        Some(n) => n,
    }
}

/// The three colon-separated parts of a scope's text.
pub open spec fn scope_parts(s: ScopeModel) -> Seq<Seq<char>> {
    match s {
        ScopeModel::Fs { mount, action } => seq![
            "fs"@,
            scope_mount_text(mount),
            fs_action_text(action),
        ],
        ScopeModel::Meta(m) => seq!["meta"@, "*"@, meta_scope_text(m)],
        ScopeModel::Admin(a) => seq!["admin"@, "*"@, admin_scope_text(a)],
    }
}

/// The text of a scope, such as `fs:VaultKB:read`.
pub open spec fn scope_text(s: ScopeModel) -> Seq<char> {
    join_with(scope_parts(s), ':')
}

/// Parses an action.
pub open spec fn parse_fs_action(t: Seq<char>) -> Result<FsAction, ScopeParseError> {
    if t == "read"@ {
        Ok(FsAction::Read)
    } else if t == "write"@ {
        Ok(FsAction::Write)
    } else {
        Err(ScopeParseError::UnknownAction)
    }
}

/// Parses an administrative area.
pub open spec fn parse_admin_scope(t: Seq<char>) -> Result<AdminScope, ScopeParseError> {
    if t == "mounts"@ {
        Ok(AdminScope::Mounts)
    } else if t == "tokens"@ {
        Ok(AdminScope::Tokens)
    } else if t == "*"@ {
        Ok(AdminScope::All)
    } else {
        Err(ScopeParseError::UnknownAction)
    }
}

/// Parses a metadata permission.
pub open spec fn parse_meta_scope(t: Seq<char>) -> Result<MetaScope, ScopeParseError> {
    if t == "read"@ {
        Ok(MetaScope::Read)
    } else {
        Err(ScopeParseError::UnknownAction)
    }
}

/// Parses a scope's mount part: `*` or a valid mount name.
pub open spec fn parse_scope_mount(t: Seq<char>) -> Result<Option<Seq<char>>, ScopeParseError> {
    if t == "*"@ {
        Ok(None)
    } else if valid_mount_name(t) {
        Ok(Some(t))
    } else {
        Err(ScopeParseError::InvalidMountName)
    }
}

/// Parses a scope: exactly three colon-separated parts, a known namespace, and for `meta`
/// and `admin` a `*` middle part (checked after the action).
pub open spec fn scope_parse(s: Seq<char>) -> Result<ScopeModel, ScopeParseError> {
    let p = split_on(s, ':');
    if p.len() != 3 {
        Err(ScopeParseError::InvalidFormat)
    } else if p[0] == "fs"@ {
        match parse_scope_mount(p[1]) {
            Err(e) => Err(e),
            Ok(m) => match parse_fs_action(p[2]) {
                Err(e) => Err(e),
                Ok(a) => Ok(ScopeModel::Fs { mount: m, action: a }),
            },
        }
    } else if p[0] == "meta"@ {
        match parse_meta_scope(p[2]) {
            Err(e) => Err(e),
            Ok(m) => if p[1] != "*"@ {
                Err(ScopeParseError::InvalidFormat)
            } else {
                Ok(ScopeModel::Meta(m))
            },
        }
    } else if p[0] == "admin"@ {
        match parse_admin_scope(p[2]) {
            Err(e) => Err(e),
            Ok(a) => if p[1] != "*"@ {
                Err(ScopeParseError::InvalidFormat)
            } else {
                Ok(ScopeModel::Admin(a))
            },
        }
    } else {
        Err(ScopeParseError::UnknownNamespace)
    }
}

/// Whether the scope's mount name, if any, is valid.
pub open spec fn scope_well_formed(s: ScopeModel) -> bool {
    s matches ScopeModel::Fs { mount: Some(n), .. } ==> valid_mount_name(n)
}

impl FsAction {
    /// Parses `read` or `write`.
    pub fn from_str(input: &str) -> (r: Result<FsAction, ScopeParseError>)
        ensures
            r == parse_fs_action(input@),
    {
        if str_eq(input, "read") {
            Ok(FsAction::Read)
        } else if str_eq(input, "write") {
            Ok(FsAction::Write)
        } else {
            Err(ScopeParseError::UnknownAction)
        }
    }

    /// The text of the action.
    pub fn as_str(&self) -> (s: &'static str)
        ensures
            s@ == fs_action_text(*self),
    {
        match self {
            FsAction::Read => "read",
            FsAction::Write => "write",
        }
    }
}

impl AdminScope {
    /// Parses `mounts`, `tokens` or `*`.
    pub fn from_str(input: &str) -> (r: Result<AdminScope, ScopeParseError>)
        ensures
            r == parse_admin_scope(input@),
    {
        if str_eq(input, "mounts") {
            Ok(AdminScope::Mounts)
        } else if str_eq(input, "tokens") {
            Ok(AdminScope::Tokens)
        } else if str_eq(input, "*") {
            Ok(AdminScope::All)
        } else {
            Err(ScopeParseError::UnknownAction)
        }
    }

    /// The text of the area.
    pub fn as_str(&self) -> (s: &'static str)
        ensures
            s@ == admin_scope_text(*self),
    {
        match self {
            AdminScope::Mounts => "mounts",
            AdminScope::Tokens => "tokens",
            AdminScope::All => "*",
        }
    }
}

impl MetaScope {
    /// Parses `read`.
    pub fn from_str(input: &str) -> (r: Result<MetaScope, ScopeParseError>)
        ensures
            r == parse_meta_scope(input@),
    {
        if str_eq(input, "read") {
            Ok(MetaScope::Read)
        } else {
            Err(ScopeParseError::UnknownAction)
        }
    }

    /// The text of the permission.
    pub fn as_str(&self) -> (s: &'static str)
        ensures
            s@ == meta_scope_text(*self),
    {
        match self {
            MetaScope::Read => "read",
        }
    }
}

impl ScopeMount {
    /// Parses `*` or a mount name.
    pub fn from_str(input: &str) -> (r: Result<ScopeMount, ScopeParseError>)
        ensures
            match r {
                Ok(m) => parse_scope_mount(input@) == Ok::<Option<Seq<char>>, ScopeParseError>(
                    m@,
                ),
                Err(e) => parse_scope_mount(input@) == Err::<Option<Seq<char>>, ScopeParseError>(
                    e,
                ),
            },
    {
        if str_eq(input, "*") {
            return Ok(ScopeMount::Any);
        }
        match MountName::new(input) {
            Ok(name) => Ok(ScopeMount::Named(name)),
            Err(_) => Err(ScopeParseError::InvalidMountName),
        }
    }

    /// The text of the mount part.
    pub fn to_string(&self) -> (s: String)
        ensures
            s@ == scope_mount_text(self@),
            self@ matches Some(n) ==> valid_mount_name(n),
    {
        match self {
            ScopeMount::Any => "*".to_owned(),
            ScopeMount::Named(name) => {
                let valid = name.is_valid();
                proof {
                    assert(valid);
                }
                name.to_string()
            },
        }
    }

    /// Whether two mount parts are the same.
    pub fn same_as(&self, other: &ScopeMount) -> (r: bool)
        ensures
            r == (self@ == other@),
    {
        match (self, other) {
            (ScopeMount::Any, ScopeMount::Any) => true,
            (ScopeMount::Named(a), ScopeMount::Named(b)) => a.same_as(b),
            _ => false,
        }
    }
}

impl Clone for ScopeMount {
    fn clone(&self) -> (r: ScopeMount)
        ensures
            r@ == self@,
    {
        match self {
            ScopeMount::Any => ScopeMount::Any,
            ScopeMount::Named(n) => ScopeMount::Named(n.clone()),
        }
    }
}

impl Clone for Scope {
    fn clone(&self) -> (r: Scope)
        ensures
            r@ == self@,
    {
        match self {
            Scope::Fs { mount, action } => Scope::Fs { mount: mount.clone(), action: *action },
            Scope::Meta(m) => Scope::Meta(*m),
            Scope::Admin(a) => Scope::Admin(*a),
        }
    }
}

impl Scope {
    /// Parses a scope such as `fs:VaultKB:read`, `meta:*:read` or `admin:*:tokens`.
    pub fn from_str(input: &str) -> (r: Result<Scope, ScopeParseError>)
        ensures
            match r {
                Ok(sc) => scope_parse(input@) == Ok::<ScopeModel, ScopeParseError>(sc@),
                Err(e) => scope_parse(input@) == Err::<ScopeModel, ScopeParseError>(e),
            },
    {
        let v = chars_of(input);
        let spans = split_spans(&v, ':');
        let ghost p = split_on(input@, ':');
        if spans.len() != 3 {
            return Err(ScopeParseError::InvalidFormat);
        }
        let (a0, b0) = spans[0];
        let (a1, b1) = spans[1];
        let (a2, b2) = spans[2];
        let p0 = input.substring_char(a0, b0);
        let p1 = input.substring_char(a1, b1);
        let p2 = input.substring_char(a2, b2);
        assert(p0@ == p[0] && p1@ == p[1] && p2@ == p[2]) by {
            assert(spans@[0] == (a0, b0));
            assert(spans@[1] == (a1, b1));
            assert(spans@[2] == (a2, b2));
        }
        if str_eq(p0, "fs") {
            let mount = ScopeMount::from_str(p1)?;
            let action = FsAction::from_str(p2)?;
            Ok(Scope::Fs { mount, action })
        } else if str_eq(p0, "meta") {
            let scope = MetaScope::from_str(p2)?;
            if !str_eq(p1, "*") {
                return Err(ScopeParseError::InvalidFormat);
            }
            Ok(Scope::Meta(scope))
        } else if str_eq(p0, "admin") {
            let scope = AdminScope::from_str(p2)?;
            if !str_eq(p1, "*") {
                return Err(ScopeParseError::InvalidFormat);
            }
            Ok(Scope::Admin(scope))
        } else {
            Err(ScopeParseError::UnknownNamespace)
        }
    }

    /// The text of the scope.
    pub fn to_string(&self) -> (s: String)
        ensures
            s@ == scope_text(self@),
            scope_well_formed(self@),
    {
        let (head, mid, tail): (&str, String, &str) = match self {
            Scope::Fs { mount, action } => ("fs", mount.to_string(), action.as_str()),
            Scope::Meta(m) => ("meta", "*".to_owned(), m.as_str()),
            Scope::Admin(a) => ("admin", "*".to_owned(), a.as_str()),
        };
        let mut s = head.to_owned();
        s.append(":");
        s.append(mid.as_str());
        s.append(":");
        s.append(tail);
        proof {
            reveal_strlit(":");
            let parts = scope_parts(self@);
            assert(parts.drop_last().drop_last() =~= seq![parts[0]]);
            assert(parts.drop_last() =~= seq![parts[0], parts[1]]);
            assert(join_with(seq![parts[0]], ':') == parts[0]);
            assert(join_with(parts.drop_last(), ':') == parts[0] + seq![':'] + parts[1]);
        }
        s
    }

    /// Whether two scopes are the same.
    pub fn same_as(&self, other: &Scope) -> (r: bool)
        ensures
            r == (self@ == other@),
    {
        match (self, other) {
            (Scope::Fs { mount: m1, action: a1 }, Scope::Fs { mount: m2, action: a2 }) => {
                m1.same_as(m2) && *a1 == *a2
            },
            (Scope::Meta(a), Scope::Meta(b)) => *a == *b,
            (Scope::Admin(a), Scope::Admin(b)) => *a == *b,
            _ => false,
        }
    }

    /// Whether this granted scope satisfies `required`.
    pub fn matches(&self, required: &Scope) -> (r: bool)
        ensures
            r == scope_grants(self@, required@),
    {
        if self.same_as(required) {
            return true;
        }
        match (self, required) {
            (Scope::Fs { mount: ScopeMount::Any, action: granted }, Scope::Fs { action, .. }) => {
                *granted == *action
            },
            (Scope::Admin(AdminScope::All), Scope::Admin(_)) => true,
            _ => false,
        }
    }

    /// The mount name of a scope, if any, is valid.
    pub fn is_well_formed(&self) -> (r: bool)
        ensures
            r,
            scope_well_formed(self@),
    {
        match self {
            Scope::Fs { mount: ScopeMount::Named(n), .. } => n.is_valid(),
            _ => true,
        }
    }
}

impl core::str::FromStr for Scope {
    type Err = ScopeParseError;

    fn from_str(input: &str) -> (r: Result<Scope, ScopeParseError>)
        ensures
            match r {
                Ok(sc) => scope_parse(input@) == Ok::<ScopeModel, ScopeParseError>(sc@),
                Err(e) => scope_parse(input@) == Err::<ScopeModel, ScopeParseError>(e),
            },
    {
        Scope::from_str(input)
    }
}

/// Parsing the text of a well-formed scope gives the scope back.
pub proof fn lemma_scope_text_round_trip(s: ScopeModel)
    requires
        scope_well_formed(s),
    ensures
        scope_parse(scope_text(s)) == Ok::<ScopeModel, ScopeParseError>(s),
{
    reveal_strlit("fs");
    reveal_strlit("meta");
    reveal_strlit("admin");
    reveal_strlit("*");
    reveal_strlit("read");
    reveal_strlit("write");
    reveal_strlit("mounts");
    reveal_strlit("tokens");
    let parts = scope_parts(s);
    assert forall|i: int| 0 <= i < parts.len() implies !(#[trigger] parts[i]).contains(':') by {
        if let ScopeModel::Fs { mount: Some(n), .. } = s {
            if i == 1 {
                lemma_mount_name_valid_is_ascii(n);
            }
        }
        if parts[i].contains(':') {
            let k = choose|k: int| 0 <= k < parts[i].len() && parts[i][k] == ':';
        }
    }
    lemma_split_join(parts, ':');
    let p = split_on(scope_text(s), ':');
    assert(p == parts);
    assert("fs"@.len() == 2 && "meta"@.len() == 4 && "admin"@.len() == 5 && "*"@.len() == 1);
    assert("read"@.len() == 4 && "write"@.len() == 5 && "mounts"@.len() == 6);
    assert("tokens"@.len() == 6 && "mounts"@[0] == 'm' && "tokens"@[0] == 't');
    assert("fs"@ != "meta"@ && "fs"@ != "admin"@ && "meta"@ != "admin"@);
    assert("read"@ != "write"@ && "mounts"@ != "tokens"@ && "mounts"@ != "*"@ && "tokens"@
        != "*"@);
    match s {
        ScopeModel::Fs { mount, action } => {
            assert(p[0] == "fs"@);
            if let Some(n) = mount {
                assert(n != "*"@) by {
                    if n == "*"@ {
                        assert(mount_name_char(n[0]));
                    }
                }
                assert(parse_scope_mount(p[1]) == Ok::<Option<Seq<char>>, ScopeParseError>(mount));
            } else {
                assert(parse_scope_mount(p[1]) == Ok::<Option<Seq<char>>, ScopeParseError>(mount));
            }
            assert(parse_fs_action(p[2]) == Ok::<FsAction, ScopeParseError>(action));
        },
        ScopeModel::Meta(m) => {
            assert(p[0] == "meta"@);
            assert(parse_meta_scope(p[2]) == Ok::<MetaScope, ScopeParseError>(m));
        },
        ScopeModel::Admin(a) => {
            assert(p[0] == "admin"@);
            assert(parse_admin_scope(p[2]) == Ok::<AdminScope, ScopeParseError>(a));
        },
    }
}

/// Strict lexicographic order on character sequences, as `str`'s `Ord` compares them.
pub open spec fn seq_lt(a: Seq<char>, b: Seq<char>) -> bool
    decreases a.len(),
{
    if a.len() == 0 {
        b.len() > 0
    } else if b.len() == 0 {
        false
    } else if a[0] != b[0] {
        a[0] < b[0]
    } else {
        seq_lt(a.drop_first(), b.drop_first())
    }
}

/// The position of an enum variant in the derived order.
pub open spec fn fs_action_rank(a: FsAction) -> int {
    match a {
        FsAction::Read => 0,
        FsAction::Write => 1,
    }
}

/// The position of an administrative area in the derived order.
pub open spec fn admin_scope_rank(a: AdminScope) -> int {
    match a {
        AdminScope::Mounts => 0,
        AdminScope::Tokens => 1,
        AdminScope::All => 2,
    }
}

/// The position of a scope's namespace in the derived order.
pub open spec fn scope_rank(s: ScopeModel) -> int {
    match s {
        ScopeModel::Fs { .. } => 0,
        ScopeModel::Meta(_) => 1,
        ScopeModel::Admin(_) => 2,
    }
}

/// The strict order of mount parts: any mount first, then names in text order.
pub open spec fn scope_mount_lt(a: Option<Seq<char>>, b: Option<Seq<char>>) -> bool {
    match (a, b) {
        (None, Some(_)) => true,
        (Some(x), Some(y)) => seq_lt(x, y),
        _ => false,
    }
}

/// The strict order of scopes, as `Scope`'s derived `Ord` orders them.
pub open spec fn scope_lt(a: ScopeModel, b: ScopeModel) -> bool {
    if scope_rank(a) != scope_rank(b) {
        scope_rank(a) < scope_rank(b)
    } else {
        match (a, b) {
            (ScopeModel::Fs { mount: m1, action: a1 }, ScopeModel::Fs { mount: m2, action: a2 }) => {
                scope_mount_lt(m1, m2) || (m1 == m2 && fs_action_rank(a1) < fs_action_rank(a2))
            },
            (ScopeModel::Admin(x), ScopeModel::Admin(y)) => admin_scope_rank(x) < admin_scope_rank(
                y,
            ),
            _ => false,
        }
    }
}

/// `seq_lt` is a strict total order.
pub proof fn lemma_seq_lt_order(a: Seq<char>, b: Seq<char>, c: Seq<char>)
    ensures
        !seq_lt(a, a),
        seq_lt(a, b) ==> !seq_lt(b, a),
        a != b ==> seq_lt(a, b) || seq_lt(b, a),
        seq_lt(a, b) && seq_lt(b, c) ==> seq_lt(a, c),
    decreases a.len(),
{
    if a.len() > 0 {
        let b1 = if b.len() > 0 {
            b.drop_first()
        } else {
            b
        };
        let c1 = if c.len() > 0 {
            c.drop_first()
        } else {
            c
        };
        lemma_seq_lt_order(a.drop_first(), b1, c1);
        if b.len() > 0 && a != b && a[0] == b[0] {
            assert(a.drop_first() != b.drop_first()) by {
                if a.drop_first() == b.drop_first() {
                    assert(a =~= b) by {
                        assert forall|i: int| 0 <= i < a.len() implies a[i] == b[i] by {
                            if i > 0 {
                                assert(a[i] == a.drop_first()[i - 1]);
                                assert(b[i] == b.drop_first()[i - 1]);
                            }
                        }
                    }
                }
            }
        }
    } else if b.len() == 0 {
        assert(a =~= b);
    }
}

/// `scope_lt` is a strict total order.
pub proof fn lemma_scope_lt_order(a: ScopeModel, b: ScopeModel, c: ScopeModel)
    ensures
        !scope_lt(a, a),
        scope_lt(a, b) ==> !scope_lt(b, a),
        a != b ==> scope_lt(a, b) || scope_lt(b, a),
        scope_lt(a, b) && scope_lt(b, c) ==> scope_lt(a, c),
{
    match (a, b, c) {
        (
            ScopeModel::Fs { mount: m1, .. },
            ScopeModel::Fs { mount: m2, .. },
            ScopeModel::Fs { mount: m3, .. },
        ) => {
            let x = match m1 {
                Some(v) => v,
                None => Seq::<char>::empty(),
            };
            let y = match m2 {
                Some(v) => v,
                None => Seq::<char>::empty(),
            };
            let z = match m3 {
                Some(v) => v,
                None => Seq::<char>::empty(),
            };
            lemma_seq_lt_order(x, y, z);
            lemma_seq_lt_order(x, x, x);
            lemma_seq_lt_order(y, y, y);
        },
        (ScopeModel::Fs { mount: m1, .. }, ScopeModel::Fs { mount: m2, .. }, _) => {
            let x = match m1 {
                Some(v) => v,
                None => Seq::<char>::empty(),
            };
            let y = match m2 {
                Some(v) => v,
                None => Seq::<char>::empty(),
            };
            lemma_seq_lt_order(x, y, y);
            lemma_seq_lt_order(x, x, x);
        },
        (ScopeModel::Fs { mount: m1, .. }, _, _) => {
            let x = match m1 {
                Some(v) => v,
                None => Seq::<char>::empty(),
            };
            lemma_seq_lt_order(x, x, x);
        },
        _ => {},
    }
}

/// Compares two character sequences: -1, 0 or 1.
pub fn compare_text(a: &str, b: &str) -> (r: i8)
    ensures
        r == -1 <==> seq_lt(a@, b@),
        r == 0 <==> a@ == b@,
        r == 1 <==> seq_lt(b@, a@),
        r == -1 || r == 0 || r == 1,
{
    let va = chars_of(a);
    let vb = chars_of(b);
    let mut i: usize = 0;
    proof {
        assert(a@.skip(0) =~= a@);
        assert(b@.skip(0) =~= b@);
    }
    while i < va.len() && i < vb.len()
        invariant
            va@ == a@,
            vb@ == b@,
            0 <= i <= va.len(),
            i <= vb.len(),
            forall|j: int| 0 <= j < i ==> va@[j] == vb@[j],
            seq_lt(a@, b@) == seq_lt(a@.skip(i as int), b@.skip(i as int)),
            seq_lt(b@, a@) == seq_lt(b@.skip(i as int), a@.skip(i as int)),
        decreases va.len() - i,
    {
        let ghost x = a@.skip(i as int);
        let ghost y = b@.skip(i as int);
        proof {
            assert(x[0] == va@[i as int]);
            assert(y[0] == vb@[i as int]);
            assert(x.drop_first() =~= a@.skip(i + 1));
            assert(y.drop_first() =~= b@.skip(i + 1));
        }
        if va[i] < vb[i] {
            proof {
                lemma_seq_lt_order(a@, b@, b@);
            }
            return -1;
        }
        if va[i] > vb[i] {
            proof {
                lemma_seq_lt_order(a@, b@, b@);
            }
            return 1;
        }
        i = i + 1;
    }
    proof {
        lemma_seq_lt_order(a@, b@, b@);
    }
    if va.len() == vb.len() {
        proof {
            assert(a@ =~= b@);
        }
        0
    } else if va.len() < vb.len() {
        proof {
            assert(a@.skip(i as int).len() == 0);
        }
        -1
    } else {
        proof {
            assert(b@.skip(i as int).len() == 0);
        }
        1
    }
}

/// Compares two scopes in the derived order: -1, 0 or 1.
fn compare_scopes(a: &Scope, b: &Scope) -> (r: i8)
    ensures
        r == -1 <==> scope_lt(a@, b@),
        r == 0 <==> a@ == b@,
        r == 1 <==> scope_lt(b@, a@),
        r == -1 || r == 0 || r == 1,
{
    proof {
        lemma_scope_lt_order(a@, b@, b@);
    }
    match (a, b) {
        (Scope::Fs { mount: m1, action: a1 }, Scope::Fs { mount: m2, action: a2 }) => {
            let c = match (m1, m2) {
                (ScopeMount::Any, ScopeMount::Any) => 0i8,
                (ScopeMount::Any, ScopeMount::Named(_)) => -1i8,
                (ScopeMount::Named(_), ScopeMount::Any) => 1i8,
                (ScopeMount::Named(x), ScopeMount::Named(y)) => compare_text(x.as_str(), y.as_str()),
            };
            if c != 0 {
                return c;
            }
            let r1: i8 = match a1 {
                FsAction::Read => 0,
                FsAction::Write => 1,
            };
            let r2: i8 = match a2 {
                FsAction::Read => 0,
                FsAction::Write => 1,
            };
            if r1 < r2 {
                -1
            } else if r1 > r2 {
                1
            } else {
                0
            }
        },
        (Scope::Fs { .. }, _) => -1,
        (_, Scope::Fs { .. }) => 1,
        (Scope::Meta(_), Scope::Meta(_)) => 0,
        (Scope::Meta(_), _) => -1,
        (_, Scope::Meta(_)) => 1,
        (Scope::Admin(x), Scope::Admin(y)) => {
            let r1: i8 = match x {
                AdminScope::Mounts => 0,
                AdminScope::Tokens => 1,
                AdminScope::All => 2,
            };
            let r2: i8 = match y {
                AdminScope::Mounts => 0,
                AdminScope::Tokens => 1,
                AdminScope::All => 2,
            };
            if r1 < r2 {
                -1
            } else if r1 > r2 {
                1
            } else {
                0
            }
        },
    }
}

/// Whether `s` is strictly increasing in the scope order.
pub open spec fn strictly_sorted(s: Seq<ScopeModel>) -> bool {
    forall|i: int, j: int| 0 <= i < j < s.len() ==> scope_lt(#[trigger] s[i], #[trigger] s[j])
}

/// The scopes of `v` as values.
pub open spec fn scope_models(v: Seq<Scope>) -> Seq<ScopeModel> {
    v.map_values(|s: Scope| s@)
}

/// A set built from `xs` (same elements, strictly ascending) has one entry per distinct scope
/// of `xs`, is empty exactly when `xs` is, and grants `required` exactly when some scope of
/// `xs` grants it.
pub proof fn lemma_scope_set_of(xs: Seq<ScopeModel>, set: Seq<ScopeModel>, required: ScopeModel)
    requires
        set.to_set() == xs.to_set(),
        strictly_sorted(set),
    ensures
        set.no_duplicates(),
        set.len() == xs.to_set().len(),
        set.len() == 0 <==> xs.len() == 0,
        (exists|i: int| 0 <= i < set.len() && scope_grants(#[trigger] set[i], required)) <==> (
        exists|j: int| 0 <= j < xs.len() && scope_grants(#[trigger] xs[j], required)),
{
    assert forall|i: int, j: int|
        0 <= i < set.len() && 0 <= j < set.len() && i != j implies set[i] != set[j] by {
        if i < j {
            assert(scope_lt(set[i], set[j]));
            lemma_scope_lt_order(set[i], set[j], set[j]);
        } else {
            assert(scope_lt(set[j], set[i]));
            lemma_scope_lt_order(set[j], set[i], set[i]);
        }
    }
    assert(set.no_duplicates());
    set.unique_seq_to_set();
    if xs.len() == 0 {
        assert(xs.to_set() =~= Set::<ScopeModel>::empty());
    } else {
        assert(xs.to_set().contains(xs[0]));
        assert(set.to_set().contains(xs[0]));
    }
    if exists|i: int| 0 <= i < set.len() && scope_grants(#[trigger] set[i], required) {
        let i = choose|i: int| 0 <= i < set.len() && scope_grants(#[trigger] set[i], required);
        assert(set.to_set().contains(set[i]));
        assert(xs.to_set().contains(set[i]));
        let j = choose|j: int| 0 <= j < xs.len() && xs[j] == set[i];
        assert(scope_grants(xs[j], required));
    }
    if exists|j: int| 0 <= j < xs.len() && scope_grants(#[trigger] xs[j], required) {
        let j = choose|j: int| 0 <= j < xs.len() && scope_grants(#[trigger] xs[j], required);
        assert(xs.to_set().contains(xs[j]));
        assert(set.to_set().contains(xs[j]));
        let i = choose|i: int| 0 <= i < set.len() && set[i] == xs[j];
        assert(scope_grants(set[i], required));
    }
}

/// A set of scopes, kept in the order of the derived `Ord` without repeats.
#[derive(Debug, PartialEq, Eq)]
pub struct ScopeSet(Vec<Scope>);

impl View for ScopeSet {
    type V = Seq<ScopeModel>;

    closed spec fn view(&self) -> Seq<ScopeModel> {
        scope_models(self.0@)
    }
}

impl ScopeSet {
    #[verifier::type_invariant]
    closed spec fn inv(self) -> bool {
        strictly_sorted(scope_models(self.0@))
    }

    /// The empty set.
    pub fn empty() -> (r: ScopeSet)
        ensures
            r@ == Seq::<ScopeModel>::empty(),
    {
        ScopeSet(Vec::new())
    }

    /// The set of the given scopes.
    pub fn new(scopes: Vec<Scope>) -> (r: ScopeSet)
        ensures
            r@.to_set() == scope_models(scopes@).to_set(),
            strictly_sorted(r@),
            r@.len() == scope_models(scopes@).to_set().len(),
            r@.len() == 0 <==> scopes@.len() == 0,
    {
        let mut set = ScopeSet::empty();
        let mut i: usize = 0;
        while i < scopes.len()
            invariant
                0 <= i <= scopes.len(),
                set@.to_set() == scope_models(scopes@.take(i as int)).to_set(),
            decreases scopes.len() - i,
        {
            let ghost before = set@.to_set();
            set.insert(scopes[i].clone());
            proof {
                assert(scopes@.take(i + 1) =~= scopes@.take(i as int).push(scopes@[i as int]));
                assert(scope_models(scopes@.take(i + 1)) =~= scope_models(
                    scopes@.take(i as int),
                ).push(scopes@[i as int]@));
                scope_models(scopes@.take(i as int)).lemma_push_to_set_commute(
                    scopes@[i as int]@,
                );
            }
            i = i + 1;
        }
        proof {
            assert(scopes@.take(scopes.len() as int) =~= scopes@);
        }
        set.is_sorted();
        proof {
            lemma_scope_set_of(scope_models(scopes@), set@, scope_models(scopes@)[0]);
        }
        set
    }

    /// The scopes of a set are strictly sorted.
    pub fn is_sorted(&self) -> (r: bool)
        ensures
            r,
            strictly_sorted(self@),
    {
        proof {
            use_type_invariant(self);
        }
        true
    }

    /// Whether some scope of the set satisfies `required`.
    pub fn contains_required(&self, required: &Scope) -> (r: bool)
        ensures
            r == exists|i: int| 0 <= i < self@.len() && scope_grants(#[trigger] self@[i], required@),
    {
        let mut i: usize = 0;
        while i < self.0.len()
            invariant
                0 <= i <= self.0@.len(),
                forall|j: int| 0 <= j < i ==> !scope_grants(#[trigger] self@[j], required@),
            decreases self.0@.len() - i,
        {
            if self.0[i].matches(required) {
                assert(scope_grants(self@[i as int], required@));
                return true;
            }
            i = i + 1;
        }
        false
    }

    /// The number of scopes.
    pub fn len(&self) -> (r: usize)
        ensures
            r == self@.len(),
    {
        self.0.len()
    }

    /// Whether the set is empty.
    pub fn is_empty(&self) -> (r: bool)
        ensures
            r == (self@.len() == 0),
    {
        self.0.len() == 0
    }

    /// Adds a scope unless an equal scope is already present.
    pub fn insert(&mut self, scope: Scope)
        ensures
            final(self)@.to_set() == old(self)@.to_set().insert(scope@),
            old(self)@.contains(scope@) ==> final(self)@ == old(self)@,
            !old(self)@.contains(scope@) ==> final(self)@.len() == old(self)@.len() + 1,
    {
        proof {
            use_type_invariant(&*self);
        }
        let ghost old_v = self@;
        let ghost x = scope@;
        let mut k: usize = 0;
        let mut stop = false;
        while k < self.0.len() && !stop
            invariant
                0 <= k <= self.0@.len(),
                self@ == old_v,
                old_v == old(self)@,
                x == scope@,
                strictly_sorted(old_v),
                forall|j: int| 0 <= j < k ==> scope_lt(#[trigger] old_v[j], x),
                stop ==> k < old_v.len() && scope_lt(x, old_v[k as int]),
            decreases self.0@.len() - k + (if stop { 0int } else { 1int }),
        {
            let c = compare_scopes(&self.0[k], &scope);
            if c == 0 {
                proof {
                    assert(old_v[k as int] == x);
                    assert(old_v.contains(x));
                    assert(old_v.to_set().insert(x) =~= old_v.to_set());
                }
                return;
            }
            if c == 1 {
                stop = true;
            } else {
                k = k + 1;
            }
        }
        assert(!old_v.contains(x)) by {
            if old_v.contains(x) {
                let j = choose|j: int| 0 <= j < old_v.len() && old_v[j] == x;
                lemma_scope_lt_order(x, x, x);
                if j > k {
                    assert(scope_lt(old_v[k as int], old_v[j]));
                    lemma_scope_lt_order(x, old_v[k as int], old_v[j]);
                }
            }
        }
        let mut v = Vec::new();
        std::mem::swap(&mut v, &mut self.0);
        v.insert(k, scope);
        proof {
            let nv = old_v.insert(k as int, x);
            assert(scope_models(v@) =~= nv);
            assert forall|i: int, j: int| 0 <= i < j < nv.len() implies scope_lt(
                #[trigger] nv[i],
                #[trigger] nv[j],
            ) by {
                if j < k {
                    assert(scope_lt(old_v[i], old_v[j]));
                } else if j == k {
                    assert(scope_lt(old_v[i], x));
                } else if i > k {
                    assert(scope_lt(old_v[i - 1], old_v[j - 1]));
                } else {
                    // i <= k < j: x is below every later element
                    assert(scope_lt(x, old_v[j - 1])) by {
                        if j - 1 > k {
                            assert(scope_lt(old_v[k as int], old_v[j - 1]));
                            lemma_scope_lt_order(x, old_v[k as int], old_v[j - 1]);
                        }
                    }
                    if i < k {
                        assert(scope_lt(old_v[i], x));
                        lemma_scope_lt_order(old_v[i], x, old_v[j - 1]);
                    }
                }
            }
            assert forall|y: ScopeModel| nv.contains(y) == old_v.to_set().insert(x).contains(
                y,
            ) by {
                if nv.contains(y) {
                    let j = choose|j: int| 0 <= j < nv.len() && nv[j] == y;
                    if j < k {
                        assert(old_v[j] == y);
                    } else if j > k {
                        assert(old_v[j - 1] == y);
                    }
                }
                if old_v.contains(y) {
                    let j = choose|j: int| 0 <= j < old_v.len() && old_v[j] == y;
                    if j < k {
                        assert(nv[j] == y);
                    } else {
                        assert(nv[j + 1] == y);
                    }
                }
                if y == x {
                    assert(nv[k as int] == y);
                }
            }
            assert(nv.to_set() =~= old_v.to_set().insert(x));
        }
        self.0 = v;
    }

    /// The scopes in order.
    pub fn iter(&self) -> (it: std::slice::Iter<'_, Scope>)
        ensures
            scope_models(it.remaining().unref()) == self@,
    {
        let it = self.0.as_slice().iter();
        proof {
            assert(self.0@.as_ref().unref() =~= self.0@);
        }
        it
    }

    /// The scopes in order, as a slice.
    pub fn as_slice(&self) -> (s: &[Scope])
        ensures
            scope_models(s@) == self@,
    {
        self.0.as_slice()
    }
}

impl Default for ScopeSet {
    fn default() -> (r: ScopeSet)
        ensures
            r@ == Seq::<ScopeModel>::empty(),
    {
        ScopeSet::empty()
    }
}

impl Clone for ScopeSet {
    fn clone(&self) -> (r: ScopeSet)
        ensures
            r@ == self@,
    {
        proof {
            use_type_invariant(self);
        }
        let mut v: Vec<Scope> = Vec::new();
        let mut i: usize = 0;
        while i < self.0.len()
            invariant
                0 <= i <= self.0@.len(),
                scope_models(v@) == self@.take(i as int),
            decreases self.0@.len() - i,
        {
            let c = self.0[i].clone();
            let ghost before = v@;
            v.push(c);
            proof {
                assert(c@ == self.0@[i as int]@);
                assert(v@ == before.push(c));
                assert(scope_models(before).len() == i);
                assert(before.len() == i);
                assert(scope_models(v@)[i as int] == c@);
                assert(self@[i as int] == self.0@[i as int]@);
                assert forall|j: int| 0 <= j < i + 1 implies #[trigger] scope_models(v@)[j]
                    == self@.take(i + 1)[j] by {
                    if j < i {
                        assert(scope_models(before)[j] == self@.take(i as int)[j]);
                    }
                }
                assert(scope_models(v@) =~= self@.take(i + 1));
            }
            i = i + 1;
        }
        proof {
            assert(self@.take(self.0@.len() as int) =~= self@);
        }
        ScopeSet(v)
    }
}

} // verus!
