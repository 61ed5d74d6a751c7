//! Mounts: named roots on disk with a mode, an audience and an access policy.
use vstd::prelude::*;

use crate::errors::PolicyError;
use crate::glob::{any_glob_matches, glob_parses, glob_set_build_error, views_of, GlobList, GlobPattern};
use crate::path::RelativePath;
use crate::text::chars_of;

verus! {

broadcast use vstd::string::group_string_axioms;

/// Characters allowed in a mount name: ASCII letters and digits, `-` and `_`.
pub open spec fn mount_name_char(c: char) -> bool {
    ('a' <= c && c <= 'z') || ('A' <= c && c <= 'Z') || ('0' <= c && c <= '9') || c == '-'
        || c == '_'
}

/// Why `s` is not a mount name, if it is not one: it must have 1 to 64 characters, each an
/// ASCII letter or digit, `-` or `_`.
pub open spec fn mount_name_error(s: Seq<char>) -> Option<MountNameError> {
    if s.len() == 0 || s.len() > 64 {
        Some(MountNameError::InvalidLength)
    } else if !(forall|i: int| 0 <= i < s.len() ==> mount_name_char(#[trigger] s[i])) {
        Some(MountNameError::InvalidCharacters)
    } else {
        None
    }
}

/// Whether `s` is a valid mount name.
pub open spec fn valid_mount_name(s: Seq<char>) -> bool {
    mount_name_error(s) is None
}

/// Why a mount name was refused.
#[derive(Debug, Clone, Copy, PartialEq, Eq, Structural)]
pub enum MountNameError {
    InvalidLength,
    InvalidCharacters,
}

impl MountNameError {
    /// The human-readable description of the error.
    pub fn message(&self) -> (m: &'static str)
        ensures
            m@ == (match *self {
                MountNameError::InvalidLength => "mount name must be 1..=64 characters"@,
                MountNameError::InvalidCharacters =>
                    "mount name may only contain ASCII alphanumeric, '-' and '_'"@,
            }),
    {
        match self {
            MountNameError::InvalidLength => "mount name must be 1..=64 characters",
            MountNameError::InvalidCharacters =>
                "mount name may only contain ASCII alphanumeric, '-' and '_'",
        }
    }
}

/// A validated mount name.
#[derive(Debug, PartialEq, Eq, Hash, PartialOrd, Ord)]
pub struct MountName(String);

impl View for MountName {
    type V = Seq<char>;

    closed spec fn view(&self) -> Seq<char> {
        self.0@
    }
}

impl MountName {
    #[verifier::type_invariant]
    closed spec fn inv(self) -> bool {
        valid_mount_name(self.0@)
    }

    /// Validates and creates a mount name.
    pub fn new(input: &str) -> (r: Result<MountName, MountNameError>)
        ensures
            match mount_name_error(input@) {
                Some(e) => r == Err::<MountName, MountNameError>(e),
                None => r matches Ok(n) && n@ == input@,
            },
    {
        let v = chars_of(input);
        if v.len() == 0 || v.len() > 64 {
            return Err(MountNameError::InvalidLength);
        }
        let mut i: usize = 0;
        while i < v.len()
            invariant
                v@ == input@,
                v@.len() > 0,
                v@.len() <= 64,
                0 <= i <= v.len(),
                forall|j: int| 0 <= j < i ==> mount_name_char(#[trigger] v@[j]),
            decreases v.len() - i,
        {
            let c = v[i];
            let ok = ('a' <= c && c <= 'z') || ('A' <= c && c <= 'Z') || ('0' <= c && c <= '9')
                || c == '-' || c == '_';
            if !ok {
                proof {
                    assert(!mount_name_char(input@[i as int]));
                    assert(!(input@.len() == 0 || input@.len() > 64));
                    assert(!(forall|j: int|
                        0 <= j < input@.len() ==> mount_name_char(#[trigger] input@[j])));
                }
                return Err(MountNameError::InvalidCharacters);
            }
            i = i + 1;
        }
        Ok(MountName(input.to_owned()))
    }

    /// The name as text.
    pub fn as_str(&self) -> (s: &str)
        ensures
            s@ == self@,
    {
        self.0.as_str()
    }

    /// The name as an owned string.
    pub fn to_string(&self) -> (s: String)
        ensures
            s@ == self@,
    {
        self.0.clone()
    }

    /// Whether two names are the same.
    pub fn same_as(&self, other: &MountName) -> (r: bool)
        ensures
            r == (self@ == other@),
    {
        self.0 == other.0
    }

    /// A valid name's characters are all ASCII mount-name characters and at most 64.
    pub fn is_valid(&self) -> (r: bool)
        ensures
            r,
            valid_mount_name(self@),
    {
        proof {
            use_type_invariant(self);
        }
        true
    }
}

impl Clone for MountName {
    fn clone(&self) -> (r: MountName)
        ensures
            r@ == self@,
    {
        proof {
            use_type_invariant(self);
        }
        MountName(self.0.clone())
    }
}

/// A valid mount name has at most 64 characters and holds no `:`, `/` or NUL.
pub proof fn lemma_mount_name_valid_is_ascii(s: Seq<char>)
    requires
        valid_mount_name(s),
    ensures
        s.len() <= 64,
        !s.contains(':'),
        !s.contains('/'),
        !s.contains('\0'),
{
    if s.contains(':') {
        let k = choose|k: int| 0 <= k < s.len() && s[k] == ':';
        assert(mount_name_char(s[k]));
    }
    if s.contains('/') {
        let k = choose|k: int| 0 <= k < s.len() && s[k] == '/';
        assert(mount_name_char(s[k]));
    }
    if s.contains('\0') {
        let k = choose|k: int| 0 <= k < s.len() && s[k] == '\0';
        assert(mount_name_char(s[k]));
    }
}

/// Whether a mount accepts writes.
#[derive(Debug, Clone, Copy, PartialEq, Eq, Structural)]
pub enum MountMode {
    ReadOnly,
    ReadWrite,
}

impl MountMode {
    /// Only read-write mounts accept writes.
    pub fn allows_write(&self) -> (r: bool)
        ensures
            r == (*self == MountMode::ReadWrite),
    {
        match self {
            MountMode::ReadOnly => false,
            MountMode::ReadWrite => true,
        }
    }
}

/// Who a mount is meant for.
#[derive(Debug, Clone, Copy, PartialEq, Eq, Structural)]
pub enum Audience {
    Shared,
    AgentOnly,
    HumanOnly,
}

/// The result of matching a path against a list of glob patterns.
pub enum GlobOutcome {
    /// The patterns are valid; whether one of them matches.
    Matched(bool),
    /// The patterns are invalid; the reason reported.
    Invalid(Seq<char>),
}

/// The first pattern in `globs` that does not parse, if any.
pub open spec fn first_invalid_glob(globs: Seq<Seq<char>>) -> Option<int>
    decreases globs.len(),
{
    if globs.len() == 0 {
        None
    } else {
        match first_invalid_glob(globs.drop_last()) {
            Some(k) => Some(k),
            None => if !glob_parses(globs.last()) {
                Some(globs.len() - 1)
            } else {
                None
            },
        }
    }
}

/// Matching `path` against `globs`: no patterns never match; the first invalid pattern, or a
/// refused set, is reported; otherwise the path matches when one pattern matches it.
pub open spec fn glob_outcome(globs: Seq<Seq<char>>, path: Seq<char>) -> GlobOutcome {
    if globs.len() == 0 {
        GlobOutcome::Matched(false)
    } else {
        match first_invalid_glob(globs) {
            Some(k) => GlobOutcome::Invalid(globs[k]),
            None => match glob_set_build_error(globs) {
                Some(m) => GlobOutcome::Invalid(m),
                None => GlobOutcome::Matched(any_glob_matches(globs, path)),
            },
        }
    }
}

/// Whether `r` reports `o`.
pub open spec fn reports_outcome(r: Result<bool, PolicyError>, o: GlobOutcome) -> bool {
    match o {
        GlobOutcome::Matched(b) => r == Ok::<bool, PolicyError>(b),
        GlobOutcome::Invalid(m) => r matches Err(PolicyError::InvalidPolicy(e)) && e@ == m,
    }
}

/// The outcome of a policy check whose glob step gave `o`, with `on_match` when a pattern
/// matched and `rest` when none did.
pub open spec fn check_after_globs(
    o: GlobOutcome,
    on_match: PolicyError,
    rest: Result<(), PolicyError>,
    r: Result<(), PolicyError>,
) -> bool {
    match o {
        GlobOutcome::Invalid(m) => r matches Err(PolicyError::InvalidPolicy(e)) && e@ == m,
        GlobOutcome::Matched(true) => r == Err::<(), PolicyError>(on_match),
        GlobOutcome::Matched(false) => r == rest,
    }
}

/// The size check of a read: too large when both a limit and a size are known and the size
/// exceeds the limit.
pub open spec fn read_size_check(limit: Option<u64>, size: Option<u64>) -> Result<(), PolicyError> {
    match (limit, size) {
        (Some(l), Some(s)) => if s > l {
            Err(PolicyError::TooLarge { limit: l, actual: s })
        } else {
            Ok(())
        },
        _ => Ok(()),
    }
}

/// The size check of a write.
pub open spec fn write_size_check(limit: Option<u64>, size: u64) -> Result<(), PolicyError> {
    match limit {
        Some(l) => if size > l {
            Err(PolicyError::TooLarge { limit: l, actual: size })
        } else {
            Ok(())
        },
        None => Ok(()),
    }
}

/// Hide, deny and size rules of a mount.
#[derive(Debug, PartialEq, Eq)]
pub struct MountPolicy {
    pub hide_globs: Vec<String>,
    pub deny_read_globs: Vec<String>,
    pub deny_write_globs: Vec<String>,
    pub max_read_bytes: Option<u64>,
    pub max_write_bytes: Option<u64>,
}

/// The rules of a policy as plain values.
pub struct PolicyModel {
    pub hide_globs: Seq<Seq<char>>,
    pub deny_read_globs: Seq<Seq<char>>,
    pub deny_write_globs: Seq<Seq<char>>,
    pub max_read_bytes: Option<u64>,
    pub max_write_bytes: Option<u64>,
}

impl View for MountPolicy {
    type V = PolicyModel;

    open spec fn view(&self) -> PolicyModel {
        PolicyModel {
            hide_globs: views_of(self.hide_globs@),
            deny_read_globs: views_of(self.deny_read_globs@),
            deny_write_globs: views_of(self.deny_write_globs@),
            max_read_bytes: self.max_read_bytes,
            max_write_bytes: self.max_write_bytes,
        }
    }
}

/// A copy of each string.
pub fn clone_strings(v: &Vec<String>) -> (r: Vec<String>)
    ensures
        views_of(r@) == views_of(v@),
{
    let mut out: Vec<String> = Vec::new();
    let mut i: usize = 0;
    while i < v.len()
        invariant
            0 <= i <= v.len(),
            views_of(out@) == views_of(v@.take(i as int)),
        decreases v.len() - i,
    {
        let c = v[i].clone();
        let ghost before = out@;
        out.push(c);
        proof {
            assert(v@.take(i + 1) =~= v@.take(i as int).push(v@[i as int]));
            assert(views_of(out@) =~= views_of(before).push(v@[i as int]@));
            assert(views_of(v@.take(i + 1)) =~= views_of(v@.take(i as int)).push(v@[i as int]@));
        }
        i = i + 1;
    }
    proof {
        assert(v@.take(v.len() as int) =~= v@);
    }
    out
}

impl Clone for MountPolicy {
    fn clone(&self) -> (p: MountPolicy)
        ensures
            p@ == self@,
    {
        MountPolicy {
            hide_globs: clone_strings(&self.hide_globs),
            deny_read_globs: clone_strings(&self.deny_read_globs),
            deny_write_globs: clone_strings(&self.deny_write_globs),
            max_read_bytes: self.max_read_bytes,
            max_write_bytes: self.max_write_bytes,
        }
    }
}

impl Default for MountPolicy {
    fn default() -> (p: MountPolicy)
        ensures
            p.hide_globs@.len() == 0,
            p.deny_read_globs@.len() == 0,
            p.deny_write_globs@.len() == 0,
            p.max_read_bytes is None,
            p.max_write_bytes is None,
    {
        MountPolicy {
            hide_globs: Vec::new(),
            deny_read_globs: Vec::new(),
            deny_write_globs: Vec::new(),
            max_read_bytes: None,
            max_write_bytes: None,
        }
    }
}

impl MountPolicy {
    /// Checks the read rules for `path` and an optional file size.
    pub fn check_read(&self, path: &RelativePath, file_size: Option<u64>) -> (r: Result<
        (),
        PolicyError,
    >)
        ensures
            check_after_globs(
                glob_outcome(views_of(self.deny_read_globs@), path@),
                PolicyError::PermissionDenied,
                read_size_check(self.max_read_bytes, file_size),
                r,
            ),
    {
        match Self::matches_any(&self.deny_read_globs, path) {
            Err(e) => return Err(e),
            Ok(true) => return Err(PolicyError::PermissionDenied),
            Ok(false) => {},
        }
        if let (Some(limit), Some(size)) = (self.max_read_bytes, file_size) {
            if size > limit {
                return Err(PolicyError::TooLarge { limit, actual: size });
            }
        }
        Ok(())
    }

    /// Checks the write rules for `path` and a payload size.
    pub fn check_write(&self, path: &RelativePath, write_size: u64) -> (r: Result<
        (),
        PolicyError,
    >)
        ensures
            check_after_globs(
                glob_outcome(views_of(self.deny_write_globs@), path@),
                PolicyError::PermissionDenied,
                write_size_check(self.max_write_bytes, write_size),
                r,
            ),
    {
        match Self::matches_any(&self.deny_write_globs, path) {
            Err(e) => return Err(e),
            Ok(true) => return Err(PolicyError::PermissionDenied),
            Ok(false) => {},
        }
        if let Some(limit) = self.max_write_bytes {
            if write_size > limit {
                return Err(PolicyError::TooLarge { limit, actual: write_size });
            }
        }
        Ok(())
    }

    /// Whether `path` is hidden by the hide rules.
    pub fn is_hidden(&self, path: &RelativePath) -> (r: Result<bool, PolicyError>)
        ensures
            reports_outcome(r, glob_outcome(views_of(self.hide_globs@), path@)),
    {
        Self::matches_any(&self.hide_globs, path)
    }

    /// Whether any of `globs` matches `path`.
    pub fn matches_any(globs: &Vec<String>, path: &RelativePath) -> (r: Result<bool, PolicyError>)
        ensures
            reports_outcome(r, glob_outcome(views_of(globs@), path@)),
    {
        if globs.len() == 0 {
            return Ok(false);
        }
        let ghost gs = views_of(globs@);
        let mut list = GlobList::new();
        let mut i: usize = 0;
        while i < globs.len()
            invariant
                gs == views_of(globs@),
                0 <= i <= globs.len(),
                first_invalid_glob(gs.take(i as int)) is None,
                list.patterns() == gs.take(i as int),
            decreases globs.len() - i,
        {
            assert(gs.take(i + 1).drop_last() =~= gs.take(i as int));
            assert(gs.take(i + 1).last() == globs@[i as int]@);
            match GlobPattern::new(globs[i].as_str()) {
                Err(_) => {
                    proof {
                        lemma_first_invalid_extends(gs, i as int + 1);
                    }
                    return Err(PolicyError::InvalidPolicy(globs[i].clone()));
                },
                Ok(pattern) => list.add(pattern),
            }
            i = i + 1;
        }
        assert(gs.take(globs.len() as int) =~= gs);
        match list.build() {
            Ok(set) => Ok(set.is_match(path.as_str())),
            Err(message) => Err(PolicyError::InvalidPolicy(message)),
        }
    }
}

/// The first invalid pattern of a prefix is the first invalid pattern of the whole list.
pub proof fn lemma_first_invalid_extends(globs: Seq<Seq<char>>, n: int)
    requires
        0 <= n <= globs.len(),
        first_invalid_glob(globs.take(n)) is Some,
    ensures
        first_invalid_glob(globs) == first_invalid_glob(globs.take(n)),
    decreases globs.len() - n,
{
    if n < globs.len() {
        assert(globs.take(n + 1).drop_last() =~= globs.take(n));
        lemma_first_invalid_extends(globs, n + 1);
    } else {
        assert(globs.take(n) =~= globs);
    }
}

/// Joins a relative path onto a mount root as `Path::join` does for a non-absolute path.
pub open spec fn join_root(root: Seq<char>, relative: Seq<char>) -> Seq<char> {
    if relative.len() == 0 {
        root
    } else if root.len() > 0 && root.last() == '/' {
        root + relative
    } else {
        root + seq!['/'] + relative
    }
}

/// A registered mount. Times are nanoseconds since the Unix epoch (UTC).
#[derive(Debug, Clone, PartialEq, Eq)]
pub struct Mount {
    pub name: MountName,
    pub root_path: String,
    pub mode: MountMode,
    pub audience: Audience,
    pub description: Option<String>,
    pub policy: MountPolicy,
    pub created_at: i128,
    pub updated_at: i128,
}

impl Mount {
    /// Creates a mount; the root must be an absolute path.
    pub fn new(
        name: MountName,
        root_path: String,
        mode: MountMode,
        audience: Audience,
        description: Option<String>,
        policy: MountPolicy,
        now: i128,
    ) -> (r: Result<Mount, PolicyError>)
        ensures
            !(root_path@.len() > 0 && root_path@[0] == '/') ==> r == Err::<Mount, PolicyError>(
                PolicyError::InvalidPath,
            ),
            (root_path@.len() > 0 && root_path@[0] == '/') ==> r == Ok::<Mount, PolicyError>(
                Mount {
                    name,
                    root_path,
                    mode,
                    audience,
                    description,
                    policy,
                    created_at: now,
                    updated_at: now,
                },
            ),
    {
        let v = chars_of(root_path.as_str());
        if !(v.len() > 0 && v[0] == '/') {
            return Err(PolicyError::InvalidPath);
        }
        Ok(Mount {
            name,
            root_path,
            mode,
            audience,
            description,
            policy,
            created_at: now,
            updated_at: now,
        })
    }

    /// The absolute location of `relative` under this mount's root.
    pub fn resolve(&self, relative: &RelativePath) -> (p: String)
        ensures
            p@ == join_root(self.root_path@, relative@),
    {
        if relative.is_root() {
            return self.root_path.clone();
        }
        let v = chars_of(self.root_path.as_str());
        let mut out = self.root_path.clone();
        if !(v.len() > 0 && v[v.len() - 1] == '/') {
            out.append("/");
            proof {
                reveal_strlit("/");
            }
        }
        out.append(relative.as_str());
        out
    }

    /// Read checks: hidden paths are reported as not found, then the read rules apply.
    pub fn check_read(&self, path: &RelativePath, file_size: Option<u64>) -> (r: Result<
        (),
        PolicyError,
    >)
        ensures
            check_after_globs(
                glob_outcome(views_of(self.policy.hide_globs@), path@),
                PolicyError::NotFound,
                r,
                r,
            ),
            glob_outcome(views_of(self.policy.hide_globs@), path@) == GlobOutcome::Matched(false)
                ==> check_after_globs(
                glob_outcome(views_of(self.policy.deny_read_globs@), path@),
                PolicyError::PermissionDenied,
                read_size_check(self.policy.max_read_bytes, file_size),
                r,
            ),
    {
        match self.policy.is_hidden(path) {
            Err(e) => return Err(e),
            Ok(true) => return Err(PolicyError::NotFound),
            Ok(false) => {},
        }
        self.policy.check_read(path, file_size)
    }

    /// Write checks: read-only mounts and hidden paths refuse writes, then the write rules
    /// apply.
    pub fn check_write(&self, path: &RelativePath, write_size: u64) -> (r: Result<
        (),
        PolicyError,
    >)
        ensures
            self.mode == MountMode::ReadOnly ==> r == Err::<(), PolicyError>(
                PolicyError::PermissionDenied,
            ),
            self.mode == MountMode::ReadWrite ==> check_after_globs(
                glob_outcome(views_of(self.policy.hide_globs@), path@),
                PolicyError::PermissionDenied,
                r,
                r,
            ),
            self.mode == MountMode::ReadWrite && glob_outcome(
                views_of(self.policy.hide_globs@),
                path@,
            ) == GlobOutcome::Matched(false) ==> check_after_globs(
                glob_outcome(views_of(self.policy.deny_write_globs@), path@),
                PolicyError::PermissionDenied,
                write_size_check(self.policy.max_write_bytes, write_size),
                r,
            ),
    {
        if !self.mode.allows_write() {
            return Err(PolicyError::PermissionDenied);
        }
        match self.policy.is_hidden(path) {
            Err(e) => return Err(e),
            Ok(true) => return Err(PolicyError::PermissionDenied),
            Ok(false) => {},
        }
        self.policy.check_write(path, write_size)
    }

    /// Replaces the policy and records the update time.
    pub fn with_policy(self, policy: MountPolicy, now: i128) -> (m: Mount)
        ensures
            m == (Mount { policy, updated_at: now, ..self }),
    {
        let mut m = self;
        m.policy = policy;
        m.updated_at = now;
        m
    }
}

} // verus!
