//! File-system operations inside mounts: the answers they give, who may make them, and the
//! text handling they do (front matter summaries, media types, relative paths).
use vstd::prelude::*;

use crate::errors::{api_error_from_db, ApiError, DbError};
use crate::mount::MountName;
use crate::path::{relative_path_result, MountPath, RelativePath};
use crate::policy::{
    components_of, current_component, path_components, path_starts_with, root_component,
};
use crate::path::parent_segment;
use crate::scope::{FsAction, Scope, ScopeModel, ScopeMount};
use crate::text::{chars_of, has_prefix, join_with, split_on, split_spans};
use crate::token::{is_whitespace, scopes_grant, Token};
use crate::glob::{
    glob_matches, glob_parse_error, glob_set_build_error, views_of, GlobNameMatcher, GlobPattern,
};

verus! {

broadcast use vstd::string::group_string_axioms;

/// Whether an entry is a file or a directory.
#[derive(Debug, Clone, Copy, PartialEq, Eq, Structural)]
pub enum FsEntryKind {
    File,
    Dir,
}

/// One entry of a directory listing. Times are nanoseconds since the Unix epoch.
#[derive(Debug)]
pub struct FsEntry {
    pub name: String,
    pub kind: FsEntryKind,
    pub size: Option<u64>,
    pub modified_at: i128,
}

/// A directory listing.
#[derive(Debug)]
pub struct LsResponse {
    pub path: MountPath,
    pub entries: Vec<FsEntry>,
}

/// A node of a directory tree.
#[derive(Debug)]
pub struct TreeNode {
    pub name: String,
    pub kind: FsEntryKind,
    pub size: Option<u64>,
    pub modified_at: Option<i128>,
    pub children: Vec<TreeNode>,
}

/// A directory tree, cut at a depth and at an entry budget.
#[derive(Debug)]
pub struct TreeResponse {
    pub path: MountPath,
    pub depth: u8,
    pub truncated: bool,
    pub tree: TreeNode,
}

/// What is known of a file or directory.
#[derive(Debug)]
pub struct StatResponse {
    pub path: MountPath,
    pub kind: FsEntryKind,
    pub size: Option<u64>,
    pub modified_at: i128,
    pub created_at: Option<i128>,
    pub memo_summary: Option<String>,
}

/// The answer to a write.
#[derive(Debug)]
pub struct WriteResponse {
    pub path: MountPath,
    pub written_bytes: u64,
}

/// The answer to a directory creation.
#[derive(Debug)]
pub struct MkdirResponse {
    pub path: MountPath,
    pub created: bool,
}

/// The answer to a move.
#[derive(Debug)]
pub struct MoveResponse {
    pub src: MountPath,
    pub dst: MountPath,
}

/// The answer to a removal.
#[derive(Debug)]
pub struct RemoveResponse {
    pub path: MountPath,
    pub deleted: bool,
}

/// The answer to a copy.
#[derive(Debug)]
pub struct CopyResponse {
    pub src: MountPath,
    pub dst: MountPath,
}

/// A line that matched a search.
#[derive(Debug)]
pub struct GrepMatch {
    pub path: MountPath,
    pub line: u64,
    pub content: String,
}

/// The answer to a search.
#[derive(Debug)]
pub struct GrepResponse {
    pub pattern: String,
    pub matches: Vec<GrepMatch>,
}

/// A path found by name.
#[derive(Debug)]
pub struct FindResult {
    pub path: MountPath,
    pub size: Option<u64>,
    pub modified_at: i128,
}

/// The answer to a search by name.
#[derive(Debug)]
pub struct FindResponse {
    pub glob: String,
    pub results: Vec<FindResult>,
}

/// A path under the search root whose file name matched.
#[derive(Debug, Clone)]
pub struct FindHit {
    pub relative_path: String,
}

/// A matching line of a file under the search root; lines count from 1.
#[derive(Debug, Clone)]
pub struct GrepHit {
    pub relative_path: String,
    pub line: u64,
    pub content: String,
}

/// The deepest a tree may be asked for.
pub const TREE_MAX_DEPTH: u8 = 10;

/// The most entries a tree visits.
pub const TREE_ENTRY_CAP: usize = 10000;

/// The depth of a tree request: 3 by default, never above the maximum.
pub fn effective_tree_depth(depth: Option<u8>) -> (d: u8)
    ensures
        d == (match depth {
            Some(v) => if v < TREE_MAX_DEPTH {
                v
            } else {
                TREE_MAX_DEPTH
            },
            None => 3,
        }),
{
    let requested = match depth {
        Some(v) => v,
        None => 3,
    };
    if requested < TREE_MAX_DEPTH {
        requested
    } else {
        TREE_MAX_DEPTH
    }
}

/// Whether a token may read in `mount`: `fs:<mount>:read` or `fs:*:read`.
pub fn require_fs_read_scope(token: &Token, mount: &MountName) -> (r: bool)
    ensures
        r == (scopes_grant(
            token.scopes@,
            ScopeModel::Fs { mount: Some(mount@), action: FsAction::Read },
        ) || scopes_grant(token.scopes@, ScopeModel::Fs { mount: None, action: FsAction::Read })),
{
    token.has_scope(&Scope::Fs { mount: ScopeMount::Named(mount.clone()), action: FsAction::Read })
        || token.has_scope(&Scope::Fs { mount: ScopeMount::Any, action: FsAction::Read })
}

/// Whether a token may write in `mount`: `fs:<mount>:write` or `fs:*:write`.
pub fn require_fs_write_scope(token: &Token, mount: &MountName) -> (r: bool)
    ensures
        r == (scopes_grant(
            token.scopes@,
            ScopeModel::Fs { mount: Some(mount@), action: FsAction::Write },
        ) || scopes_grant(token.scopes@, ScopeModel::Fs { mount: None, action: FsAction::Write })),
{
    token.has_scope(&Scope::Fs { mount: ScopeMount::Named(mount.clone()), action: FsAction::Write })
        || token.has_scope(&Scope::Fs { mount: ScopeMount::Any, action: FsAction::Write })
}

/// How a failed mount lookup is reported: a missing mount names it; other storage errors
/// are reported as storage errors are.
pub fn mount_load_error(error: DbError, name: &MountName) -> (e: ApiError)
    ensures
        error == DbError::NotFound ==> (e matches ApiError::MountNotFound(m) && m@ == name@),
        error != DbError::NotFound ==> api_error_from_db(error, e),
{
    match error {
        DbError::NotFound => ApiError::MountNotFound(name.to_string()),
        other => ApiError::from(other),
    }
}

/// A move must stay inside one mount.
pub fn check_same_mount(src: &MountPath, dst: &MountPath) -> (r: Result<(), ApiError>)
    ensures
        src@.0 == dst@.0 ==> r is Ok,
        src@.0 != dst@.0 ==> (r matches Err(ApiError::InvalidPath(m)) && m@
            == "mv requires source and destination in the same mount"@),
{
    if src.mount().same_as(dst.mount()) {
        Ok(())
    } else {
        Err(ApiError::InvalidPath("mv requires source and destination in the same mount".to_owned()))
    }
}

/// `s` without the leading characters that satisfy `p`.
pub open spec fn trim_start_by(s: Seq<char>, p: spec_fn(char) -> bool) -> Seq<char>
    decreases s.len(),
{
    if s.len() > 0 && p(s[0]) {
        trim_start_by(s.drop_first(), p)
    } else {
        s
    }
}

/// `s` without the trailing characters that satisfy `p`.
pub open spec fn trim_end_by(s: Seq<char>, p: spec_fn(char) -> bool) -> Seq<char>
    decreases s.len(),
{
    if s.len() > 0 && p(s.last()) {
        trim_end_by(s.drop_last(), p)
    } else {
        s
    }
}

/// `s` without leading and trailing characters that satisfy `p`, as `str::trim_matches`.
pub open spec fn trim_by(s: Seq<char>, p: spec_fn(char) -> bool) -> Seq<char> {
    trim_end_by(trim_start_by(s, p), p)
}

/// Whitespace, as `char::is_whitespace` classifies it.
pub open spec fn whitespace_pred() -> spec_fn(char) -> bool {
    |c: char| is_whitespace(c)
}

/// The double quote.
pub open spec fn quote_pred() -> spec_fn(char) -> bool {
    |c: char| c == '"'
}

/// Trimming from the front stops at the first character that is not trimmed.
pub proof fn lemma_trim_start(s: Seq<char>, p: spec_fn(char) -> bool, i: int)
    requires
        0 <= i <= s.len(),
        forall|k: int| 0 <= k < i ==> p(#[trigger] s[k]),
        i == s.len() || !p(s[i]),
    ensures
        trim_start_by(s, p) == s.skip(i),
    decreases i,
{
    if i == 0 {
        assert(s.skip(0) =~= s);
    } else {
        let t = s.drop_first();
        assert forall|k: int| 0 <= k < i - 1 implies p(#[trigger] t[k]) by {
            assert(t[k] == s[k + 1]);
        }
        if i - 1 < t.len() {
            assert(t[i - 1] == s[i]);
        }
        lemma_trim_start(t, p, i - 1);
        assert(t.skip(i - 1) =~= s.skip(i));
    }
}

/// Trimming from the back stops at the last character that is not trimmed.
pub proof fn lemma_trim_end(s: Seq<char>, p: spec_fn(char) -> bool, j: int)
    requires
        0 <= j <= s.len(),
        forall|k: int| j <= k < s.len() ==> p(#[trigger] s[k]),
        j == 0 || !p(s[j - 1]),
    ensures
        trim_end_by(s, p) == s.take(j),
    decreases s.len() - j,
{
    if j == s.len() {
        assert(s.take(j) =~= s);
    } else {
        let t = s.drop_last();
        assert forall|k: int| j <= k < t.len() implies p(#[trigger] t[k]) by {
            assert(t[k] == s[k]);
        }
        if j > 0 {
            assert(t[j - 1] == s[j - 1]);
        }
        lemma_trim_end(t, p, j);
        assert(t.take(j) =~= s.take(j));
    }
}

/// `s` without leading and trailing whitespace, as `str::trim` gives it.
pub fn trim_whitespace(s: &str) -> (r: &str)
    ensures
        r@ == trim_by(s@, whitespace_pred()),
{
    let v = chars_of(s);
    let mut i: usize = 0;
    while i < v.len() && crate::token::char_is_whitespace(v[i])
        invariant
            v@ == s@,
            0 <= i <= v.len(),
            forall|k: int| 0 <= k < i ==> is_whitespace(#[trigger] v@[k]),
        decreases v.len() - i,
    {
        i = i + 1;
    }
    let mut j: usize = v.len();
    while j > i && crate::token::char_is_whitespace(v[j - 1])
        invariant
            v@ == s@,
            0 <= i <= j <= v.len(),
            forall|k: int| j <= k < v.len() ==> is_whitespace(#[trigger] v@[k]),
        decreases j - i,
    {
        j = j - 1;
    }
    proof {
        let p = whitespace_pred();
        lemma_trim_start(s@, p, i as int);
        let t = s@.skip(i as int);
        assert forall|k: int| j - i <= k < t.len() implies p(#[trigger] t[k]) by {
            assert(t[k] == s@[k + i]);
        }
        if j > i {
            assert(t[j - i - 1] == s@[j - 1]);
        }
        lemma_trim_end(t, p, j - i);
        assert(t.take(j - i) =~= s@.subrange(i as int, j as int));
    }
    s.substring_char(i, j)
}

/// `s` without leading and trailing double quotes, as `str::trim_matches('"')` gives it.
pub fn trim_quotes(s: &str) -> (r: &str)
    ensures
        r@ == trim_by(s@, quote_pred()),
{
    let v = chars_of(s);
    let mut i: usize = 0;
    while i < v.len() && v[i] == '"'
        invariant
            v@ == s@,
            0 <= i <= v.len(),
            forall|k: int| 0 <= k < i ==> #[trigger] v@[k] == '"',
        decreases v.len() - i,
    {
        i = i + 1;
    }
    let mut j: usize = v.len();
    while j > i && v[j - 1] == '"'
        invariant
            v@ == s@,
            0 <= i <= j <= v.len(),
            forall|k: int| j <= k < v.len() ==> #[trigger] v@[k] == '"',
        decreases j - i,
    {
        j = j - 1;
    }
    proof {
        let p = quote_pred();
        assert forall|k: int| 0 <= k < i implies p(#[trigger] s@[k]) by {
            assert(v@[k] == '"');
        }
        lemma_trim_start(s@, p, i as int);
        let t = s@.skip(i as int);
        assert forall|k: int| j - i <= k < t.len() implies p(#[trigger] t[k]) by {
            assert(t[k] == s@[k + i]);
            assert(v@[k + i] == '"');
        }
        if j > i {
            assert(t[j - i - 1] == s@[j - 1]);
        }
        lemma_trim_end(t, p, j - i);
        assert(t.take(j - i) =~= s@.subrange(i as int, j as int));
    }
    s.substring_char(i, j)
}

/// The character `c`, as a predicate.
pub open spec fn is_char(c: char) -> spec_fn(char) -> bool {
    |x: char| x == c
}

/// `s` without trailing `c`, as `str::trim_end_matches(c)` gives it.
pub fn trim_end_matching(s: &str, c: char) -> (r: &str)
    ensures
        r@ == trim_end_by(s@, is_char(c)),
{
    let v = chars_of(s);
    let mut j: usize = v.len();
    while j > 0 && v[j - 1] == c
        invariant
            v@ == s@,
            0 <= j <= v.len(),
            forall|k: int| j <= k < v.len() ==> #[trigger] v@[k] == c,
        decreases j,
    {
        j = j - 1;
    }
    proof {
        let p = is_char(c);
        assert forall|k: int| j <= k < s@.len() implies p(#[trigger] s@[k]) by {
            assert(v@[k] == c);
        }
        lemma_trim_end(s@, p, j as int);
        assert(s@.take(j as int) =~= s@.subrange(0, j as int));
    }
    s.substring_char(0, j)
}

/// The lines of `s` as `str::lines` yields them: split at `\n`, with a `\r` right before a
/// `\n` dropped, and no final empty line.
pub open spec fn text_lines(s: Seq<char>) -> Seq<Seq<char>> {
    let pieces = split_on(s, '\n');
    let kept = if pieces.last().len() == 0 {
        pieces.drop_last()
    } else {
        pieces
    };
    Seq::new(
        kept.len(),
        |i: int|
            if i < pieces.len() - 1 && kept[i].len() > 0 && kept[i].last() == '\r' {
                kept[i].drop_last()
            } else {
                kept[i]
            },
    )
}

/// The lines of `s`.
pub fn lines_of(s: &str) -> (r: Vec<String>)
    ensures
        views_of(r@) == text_lines(s@),
{
    let v = chars_of(s);
    let spans = split_spans(&v, '\n');
    let ghost pieces = split_on(s@, '\n');
    let ghost target = text_lines(s@);
    let n = spans.len();
    proof {
        crate::text::lemma_split_on_len(s@, '\n');
    }
    let last_empty = spans[n - 1].0 == spans[n - 1].1;
    let count = if last_empty {
        n - 1
    } else {
        n
    };
    proof {
        assert(spans@[n - 1].0 <= spans@[n - 1].1);
        assert(pieces[n - 1] == v@.subrange(spans@[n - 1].0 as int, spans@[n - 1].1 as int));
        assert(target.len() == count);
    }
    let mut out: Vec<String> = Vec::new();
    let mut k: usize = 0;
    while k < count
        invariant
            v@ == s@,
            pieces == split_on(s@, '\n'),
            target == text_lines(s@),
            spans@.len() == n,
            n == pieces.len(),
            count <= n,
            target.len() == count,
            count == (if pieces.last().len() == 0 { n - 1 } else { n as int }),
            forall|j: int|
                0 <= j < spans@.len() ==> {
                    &&& (#[trigger] spans@[j]).0 <= spans@[j].1 <= v@.len()
                    &&& v@.subrange(spans@[j].0 as int, spans@[j].1 as int) == pieces[j]
                },
            0 <= k <= count,
            views_of(out@) == target.take(k as int),
        decreases count - k,
    {
        let (a, b) = spans[k];
        proof {
            assert(spans@[k as int].0 <= spans@[k as int].1);
        }
        let end = if k + 1 < n && b > a && v[b - 1] == '\r' {
            b - 1
        } else {
            b
        };
        let line = s.substring_char(a, end);
        let ghost before = out@;
        out.push(line.to_owned());
        proof {
            let kept = if pieces.last().len() == 0 {
                pieces.drop_last()
            } else {
                pieces
            };
            assert(kept[k as int] == pieces[k as int]);
            if k + 1 < n && b > a && v@[b - 1] == '\r' {
                assert(pieces[k as int].last() == v@[b - 1]);
                assert(v@.subrange(a as int, b - 1) =~= pieces[k as int].drop_last());
            }
            assert(target[k as int] == line@);
            assert(views_of(out@) =~= views_of(before).push(line@));
            assert(target.take(k + 1) =~= target.take(k as int).push(target[k as int]));
        }
        k = k + 1;
    }
    proof {
        assert(target.take(count as int) =~= target);
    }
    out
}

/// The delimiter line of front matter.
pub open spec fn fence() -> Seq<char> {
    seq!['-', '-', '-']
}

/// The summary in front-matter lines: the first `summary:` line before the closing fence,
/// its value trimmed of whitespace and then of double quotes.
pub open spec fn front_matter_scan(lines: Seq<Seq<char>>) -> Option<Seq<char>>
    decreases lines.len(),
{
    if lines.len() == 0 {
        None
    } else if lines[0] == fence() {
        None
    } else if has_prefix(lines[0], "summary:"@) {
        Some(trim_by(trim_by(lines[0].skip(8), whitespace_pred()), quote_pred()))
    } else {
        front_matter_scan(lines.drop_first())
    }
}

/// The summary of a document whose first line opens front matter.
pub open spec fn front_matter_summary(text: Seq<char>) -> Option<Seq<char>> {
    let lines = text_lines(text);
    if lines.len() == 0 || lines[0] != fence() {
        None
    } else {
        front_matter_scan(lines.drop_first())
    }
}

/// The `summary:` value of a document's front matter, if it has one.
pub fn parse_frontmatter_summary(text: &str) -> (r: Option<String>)
    ensures
        match front_matter_summary(text@) {
            Some(v) => r matches Some(s) && s@ == v,
            None => r is None,
        },
{
    let lines = lines_of(text);
    let ghost ls = views_of(lines@);
    proof {
        reveal_strlit("---");
        reveal_strlit("summary:");
        assert("---"@ =~= fence());
    }
    if lines.len() == 0 || !crate::text::str_eq(lines[0].as_str(), "---") {
        return None;
    }
    let mut i: usize = 1;
    proof {
        assert(ls.drop_first().skip(0) =~= ls.drop_first());
    }
    while i < lines.len()
        invariant
            ls == views_of(lines@),
            ls.len() > 0,
            front_matter_summary(text@) == front_matter_scan(ls.drop_first()),
            1 <= i <= lines.len(),
            front_matter_scan(ls.drop_first().skip(i - 1)) == front_matter_scan(ls.drop_first()),
            "---"@ == fence(),
            "summary:"@.len() == 8,
        decreases lines.len() - i,
    {
        let line = lines[i].as_str();
        let ghost rest = ls.drop_first().skip(i - 1);
        proof {
            assert(rest.len() > 0);
            assert(rest[0] == line@);
            assert(rest.drop_first() =~= ls.drop_first().skip(i as int));
        }
        if crate::text::str_eq(line, "---") {
            return None;
        }
        if let Some(value) = crate::text::str_strip_prefix(line, "summary:") {
            let trimmed = trim_whitespace(value);
            let unquoted = trim_quotes(trimmed);
            return Some(unquoted.to_owned());
        }
        i = i + 1;
    }
    proof {
        assert(ls.drop_first().skip(i - 1).len() == 0);
    }
    None
}

/// The file name of a path, as `Path::file_name` gives it: its last component, unless that
/// is the root, `.` or `..`.
pub open spec fn path_file_name(p: Seq<char>) -> Option<Seq<char>> {
    let cs = path_components(p);
    if cs.len() > 0 && cs.last() != root_component() && cs.last() != current_component()
        && cs.last() != parent_segment() {
        Some(cs.last())
    } else {
        None
    }
}

/// The position of the last `c` in `s`, if any.
pub open spec fn last_index_of(s: Seq<char>, c: char) -> Option<int>
    decreases s.len(),
{
    if s.len() == 0 {
        None
    } else if s.last() == c {
        Some(s.len() - 1)
    } else {
        last_index_of(s.drop_last(), c)
    }
}

/// The extension of a file name, as `Path::extension` gives it: what follows the last dot,
/// unless there is none or the only dot starts the name.
pub open spec fn name_extension(name: Seq<char>) -> Option<Seq<char>> {
    match last_index_of(name, '.') {
        Some(k) => if k == 0 {
            None
        } else {
            Some(name.skip(k + 1))
        },
        None => None,
    }
}

/// The media type served for a file extension.
pub open spec fn media_type(ext: Option<Seq<char>>) -> Seq<char> {
    match ext {
        Some(e) => if e == "md"@ {
            "text/markdown; charset=utf-8"@
        } else if e == "txt"@ {
            "text/plain; charset=utf-8"@
        } else if e == "json"@ {
            "application/json"@
        } else if e == "html"@ {
            "text/html; charset=utf-8"@
        } else if e == "csv"@ {
            "text/csv; charset=utf-8"@
        } else {
            "application/octet-stream"@
        },
        None => "application/octet-stream"@,
    }
}

/// The position of the last `c` in `v`.
fn find_last(v: &Vec<char>, c: char) -> (r: Option<usize>)
    ensures
        match r {
            Some(k) => last_index_of(v@, c) == Some(k as int) && k < v@.len(),
            None => last_index_of(v@, c) is None,
        },
{
    let mut j: usize = v.len();
    proof {
        assert(v@.take(v.len() as int) =~= v@);
    }
    while j > 0
        invariant
            0 <= j <= v.len(),
            last_index_of(v@, c) == last_index_of(v@.take(j as int), c),
        decreases j,
    {
        proof {
            assert(v@.take(j as int).drop_last() =~= v@.take(j - 1));
            assert(v@.take(j as int).last() == v@[j - 1]);
        }
        if v[j - 1] == c {
            return Some(j - 1);
        }
        j = j - 1;
    }
    proof {
        assert(v@.take(0) =~= Seq::<char>::empty());
    }
    None
}

/// The file name of `path`, if it has one.
pub fn file_name_of(path: &str) -> (r: Option<String>)
    ensures
        match path_file_name(path@) {
            Some(n) => r matches Some(s) && s@ == n,
            None => r is None,
        },
{
    let cs = components_of(path);
    if cs.len() == 0 {
        return None;
    }
    let last = cs[cs.len() - 1].as_str();
    proof {
        reveal_strlit("/");
        reveal_strlit(".");
        reveal_strlit("..");
        assert("/"@ =~= root_component());
        assert("."@ =~= current_component());
        assert(".."@ =~= parent_segment());
        assert(views_of(cs@).last() == last@);
    }
    if crate::text::str_eq(last, "/") || crate::text::str_eq(last, ".") || crate::text::str_eq(
        last,
        "..",
    ) {
        return None;
    }
    Some(last.to_owned())
}

/// The media type served for the file at `path`, by its extension.
pub fn mime_from_path(path: &str) -> (m: String)
    ensures
        m@ == media_type(match path_file_name(path@) {
            Some(n) => name_extension(n),
            None => None,
        }),
{
    let ghost expected = match path_file_name(path@) {
        Some(n) => name_extension(n),
        None => None,
    };
    let ext: Option<String> = match file_name_of(path) {
        None => None,
        Some(name) => {
            let v = chars_of(name.as_str());
            let found = find_last(&v, '.');
            proof {
                assert(v@ == name@);
            }
            match found {
                Some(k) => if k == 0 {
                    None
                } else {
                    assert(k < v.len());
                    let e = name.as_str().substring_char(k + 1, v.len()).to_owned();
                    proof {
                        assert(name@.subrange(k + 1, v.len() as int) =~= name@.skip(k + 1));
                        assert(e@ == name@.skip(k + 1));
                    }
                    Some(e)
                },
                None => None,
            }
        },
    };
    assert(crate::text::opt_text(ext) == expected);
    match ext {
        Some(e) => {
            let e = e.as_str();
            if crate::text::str_eq(e, "md") {
                "text/markdown; charset=utf-8".to_owned()
            } else if crate::text::str_eq(e, "txt") {
                "text/plain; charset=utf-8".to_owned()
            } else if crate::text::str_eq(e, "json") {
                "application/json".to_owned()
            } else if crate::text::str_eq(e, "html") {
                "text/html; charset=utf-8".to_owned()
            } else if crate::text::str_eq(e, "csv") {
                "text/csv; charset=utf-8".to_owned()
            } else {
                "application/octet-stream".to_owned()
            }
        },
        None => "application/octet-stream".to_owned(),
    }
}

/// The path of `absolute` relative to `root`, component by component, normalised as a
/// relative path; `None` when it does not lie under `root` or is not a valid relative path.
pub open spec fn relative_to(root: Seq<char>, absolute: Seq<char>) -> Option<Seq<char>> {
    if path_starts_with(absolute, root) {
        relative_path_result(
            join_with(path_components(absolute).skip(path_components(root).len() as int), '/'),
        )
    } else {
        None
    }
}

/// The path of `absolute` inside the mount whose canonical root is `root`.
pub fn to_relative_path(root: &str, absolute: &str) -> (r: Option<RelativePath>)
    ensures
        match relative_to(root@, absolute@) {
            Some(p) => r matches Some(rp) && rp@ == p,
            None => r is None,
        },
{
    let rc = components_of(root);
    let ac = components_of(absolute);
    if !crate::policy::path_has_prefix(absolute, root) {
        return None;
    }
    let ghost rest = views_of(ac@).skip(rc.len() as int);
    let mut joined = String::new();
    let mut k: usize = rc.len();
    proof {
        assert(views_of(rc@).len() == rc.len());
        assert(rest.take(0) =~= Seq::<Seq<char>>::empty());
    }
    while k < ac.len()
        invariant
            rc.len() <= k <= ac.len(),
            rest == views_of(ac@).skip(rc.len() as int),
            joined@ == join_with(rest.take(k - rc.len()), '/'),
        decreases ac.len() - k,
    {
        proof {
            reveal_strlit("/");
            crate::text::lemma_join_with_push(rest.take(k - rc.len()), ac@[k as int]@, '/');
            assert(rest.take(k - rc.len() + 1) =~= rest.take(k - rc.len()).push(ac@[k as int]@));
        }
        if k > rc.len() {
            joined.append("/");
        }
        joined.append(ac[k].as_str());
        k = k + 1;
    }
    proof {
        assert(rest.take(ac.len() - rc.len()) =~= rest);
    }
    match RelativePath::new(joined.as_str()) {
        Ok(p) => Some(p),
        Err(_) => None,
    }
}

/// `regex::Regex`, a compiled regular expression.
#[verifier::external_type_specification]
#[verifier::external_body]
pub struct ExRegex(regex::Regex);

/// The message of the error with which `regex` refuses `pattern` (built with
/// `RegexBuilder` and the given case sensitivity), if it refuses it.
pub uninterp spec fn regex_build_error(pattern: Seq<char>, case_insensitive: bool) -> Option<
    Seq<char>,
>;

/// Whether the expression `pattern`, built with the given case sensitivity, matches
/// somewhere in `line` (`Regex::is_match`).
pub uninterp spec fn regex_matches(pattern: Seq<char>, case_insensitive: bool, line: Seq<char>) -> bool;

/// `RegexBuilder::new(pattern).case_insensitive(..).build()` from `regex`; an error is
/// given as its message.
#[verifier::external_body]
fn build_regex(pattern: &str, case_insensitive: bool) -> (r: Result<regex::Regex, String>)
    ensures
        match regex_build_error(pattern@, case_insensitive) {
            Some(m) => r matches Err(e) && e@ == m,
            None => r is Ok,
        },
{
    regex::RegexBuilder::new(pattern)
        .case_insensitive(case_insensitive)
        .build()
        .map_err(|error| error.to_string())
}

/// A search expression, compiled once.
#[derive(Debug)]
pub struct LinePattern {
    pattern: String,
    case_insensitive: bool,
    regex: regex::Regex,
}

impl LinePattern {
    /// The expression.
    pub closed spec fn pattern(&self) -> Seq<char> {
        self.pattern@
    }

    /// Whether letter case is ignored.
    pub closed spec fn ignores_case(&self) -> bool {
        self.case_insensitive
    }

    /// Compiles `pattern`; an invalid expression is refused with the reason.
    pub fn new(pattern: &str, case_sensitive: bool) -> (r: Result<LinePattern, String>)
        ensures
            match regex_build_error(pattern@, !case_sensitive) {
                Some(m) => r matches Err(e) && e@ == m,
                None => r matches Ok(p) && p.pattern() == pattern@ && p.ignores_case()
                    == !case_sensitive,
            },
    {
        match build_regex(pattern, !case_sensitive) {
            Ok(regex) => Ok(LinePattern {
                pattern: pattern.to_owned(),
                case_insensitive: !case_sensitive,
                regex,
            }),
            Err(message) => Err(message),
        }
    }
}

/// `Regex::is_match` on the compiled expression of `p`, which was built from `p`'s
/// pattern and case sensitivity (the only way a `LinePattern` is made).
#[verifier::external_body]
fn line_matches(p: &LinePattern, line: &str) -> (r: bool)
    ensures
        r == regex_matches(p.pattern(), p.ignores_case(), line@),
{
    p.regex.is_match(line)
}

/// The lines of `lines` that match, with their numbers counted from 1.
pub open spec fn matching_lines(
    lines: Seq<Seq<char>>,
    pattern: Seq<char>,
    case_insensitive: bool,
) -> Seq<(int, Seq<char>)>
    decreases lines.len(),
{
    if lines.len() == 0 {
        Seq::empty()
    } else {
        let prev = matching_lines(lines.drop_last(), pattern, case_insensitive);
        if regex_matches(pattern, case_insensitive, lines.last()) {
            prev.push((lines.len() as int, lines.last()))
        } else {
            prev
        }
    }
}

/// What a hit records: its path, line number and line.
pub open spec fn hit_view(h: GrepHit) -> (Seq<char>, int, Seq<char>) {
    (h.relative_path@, h.line as int, h.content@)
}

/// Hits for `relative` made from numbered lines.
pub open spec fn hits_for(relative: Seq<char>, found: Seq<(int, Seq<char>)>) -> Seq<
    (Seq<char>, int, Seq<char>),
> {
    found.map_values(|f: (int, Seq<char>)| (relative, f.0, f.1))
}

/// `cap` minus `used`, or nothing when `used` has reached it.
pub open spec fn room(cap: nat, used: nat) -> nat {
    if used < cap {
        (cap - used) as nat
    } else {
        0
    }
}

/// Adds to `hits` the lines of `text` (the file at `relative`) that match `pattern`, in
/// order and numbered from 1, until `hits` holds `max_results` of them.
pub fn grep_text(
    pattern: &LinePattern,
    relative: &str,
    text: &str,
    hits: &mut Vec<GrepHit>,
    max_results: usize,
)
    ensures
        final(hits)@.map_values(|h: GrepHit| hit_view(h)) == old(hits)@.map_values(
            |h: GrepHit| hit_view(h),
        ) + hits_for(
            relative@,
            matching_lines(text_lines(text@), pattern.pattern(), pattern.ignores_case()),
        ).take(
            vstd::math::min(
                room(max_results as nat, old(hits)@.len()) as int,
                matching_lines(text_lines(text@), pattern.pattern(), pattern.ignores_case()).len() as int,
            ),
        ),
{
    let lines = lines_of(text);
    let ghost ls = views_of(lines@);
    let ghost start = old(hits)@.map_values(|h: GrepHit| hit_view(h));
    let ghost p = pattern.pattern();
    let ghost ci = pattern.ignores_case();
    let ghost cap = room(max_results as nat, old(hits)@.len());
    let mut i: usize = 0;
    proof {
        assert(ls.take(0) =~= Seq::<Seq<char>>::empty());
        assert(hits_for(relative@, matching_lines(ls.take(0), p, ci)) =~= Seq::empty());
        assert(hits@.map_values(|h: GrepHit| hit_view(h)) =~= start + Seq::empty());
    }
    if hits.len() >= max_results {
        proof {
            assert(cap == 0);
            assert(hits_for(relative@, matching_lines(ls, p, ci)).take(0) =~= Seq::empty());
        }
        return;
    }
    while i < lines.len()
        invariant
            ls == views_of(lines@),
            ls == text_lines(text@),
            p == pattern.pattern(),
            ci == pattern.ignores_case(),
            start == old(hits)@.map_values(|h: GrepHit| hit_view(h)),
            cap == room(max_results as nat, old(hits)@.len()),
            old(hits)@.len() < max_results,
            0 <= i <= lines.len(),
            hits@.len() <= max_results,
            hits@.len() == old(hits)@.len() + hits_for(relative@, matching_lines(ls.take(i as int), p, ci)).len(),
            hits@.map_values(|h: GrepHit| hit_view(h)) == start + hits_for(
                relative@,
                matching_lines(ls.take(i as int), p, ci),
            ),
            hits@.len() < max_results || hits_for(relative@, matching_lines(ls.take(i as int), p, ci)).len() == cap,
            hits@.len() < max_results ==> hits_for(relative@, matching_lines(ls.take(i as int), p, ci)).len() < cap,
        ensures
            i == lines.len() || hits@.len() >= max_results,
        decreases lines.len() - i,
    {
        if hits.len() >= max_results {
            break;
        }
        let line = lines[i].as_str();
        proof {
            assert(ls.take(i + 1).drop_last() =~= ls.take(i as int));
            assert(ls.take(i + 1).last() == line@);
        }
        if line_matches(pattern, line) {
            let ghost before = hits@;
            hits.push(GrepHit { relative_path: relative.to_owned(), line: (i as u64) + 1, content: line.to_owned() });
            proof {
                let m = matching_lines(ls.take(i as int), p, ci);
                assert(matching_lines(ls.take(i + 1), p, ci) == m.push(((i + 1) as int, line@)));
                assert(hits_for(relative@, m.push(((i + 1) as int, line@))) =~= hits_for(relative@, m).push((relative@, (i + 1) as int, line@)));
                assert(hits@.map_values(|h: GrepHit| hit_view(h)) =~= before.map_values(|h: GrepHit| hit_view(h)).push((relative@, (i + 1) as int, line@)));
            }
        }
        i = i + 1;
    }
    proof {
        let all = matching_lines(ls, p, ci);
        let got = hits_for(relative@, matching_lines(ls.take(i as int), p, ci));
        lemma_matching_lines_prefix(ls, i as int, p, ci);
        assert(hits_for(relative@, all).take(got.len() as int) =~= got);
        if hits@.len() < max_results {
            assert(ls.take(i as int) =~= ls);
        }
    }
}

/// The matches in a prefix of the lines are a prefix of the matches in all of them.
pub proof fn lemma_matching_lines_prefix(lines: Seq<Seq<char>>, k: int, pattern: Seq<char>, ci: bool)
    requires
        0 <= k <= lines.len(),
    ensures
        matching_lines(lines.take(k), pattern, ci).len() <= matching_lines(lines, pattern, ci).len(),
        matching_lines(lines, pattern, ci).take(matching_lines(lines.take(k), pattern, ci).len() as int)
            == matching_lines(lines.take(k), pattern, ci),
    decreases lines.len() - k,
{
    if k == lines.len() {
        assert(lines.take(k) =~= lines);
        assert(matching_lines(lines, pattern, ci).take(matching_lines(lines, pattern, ci).len() as int)
            =~= matching_lines(lines, pattern, ci));
    } else {
        lemma_matching_lines_prefix(lines, k + 1, pattern, ci);
        assert(lines.take(k + 1).drop_last() =~= lines.take(k));
        let a = matching_lines(lines.take(k), pattern, ci);
        let b = matching_lines(lines.take(k + 1), pattern, ci);
        let c = matching_lines(lines, pattern, ci);
        assert(c.take(b.len() as int) == b);
        assert(b.take(a.len() as int) =~= a);
        assert(c.take(a.len() as int) =~= b.take(a.len() as int));
    }
}

/// Whether a file named `file_name` is found by `glob`: the pattern must parse and compile,
/// then it must match the name.
pub open spec fn name_search_outcome(glob: Seq<char>, file_name: Seq<char>) -> Result<bool, Seq<char>> {
    match glob_parse_error(glob) {
        Some(m) => Err(m),
        None => match glob_set_build_error(seq![glob]) {
            Some(m) => Err(m),
            None => Ok(glob_matches(glob, file_name)),
        },
    }
}

/// Whether `glob` matches the file name `file_name`; an invalid pattern is refused with
/// the reason.
pub fn find_name_matches(glob: &str, file_name: &str) -> (r: Result<bool, String>)
    ensures
        match name_search_outcome(glob@, file_name@) {
            Ok(b) => r == Ok::<bool, String>(b),
            Err(m) => r matches Err(e) && e@ == m,
        },
{
    match GlobPattern::new(glob) {
        Err(message) => Err(message),
        Ok(pattern) => match pattern.matcher() {
            Ok(matcher) => Ok(matcher.is_match(file_name)),
            Err(message) => Err(message),
        },
    }
}

/// One step of a search by name: the path `relative` (named `file_name`) is added to
/// `hits` when the pattern matches the name and fewer than `max_results` hits were found.
/// Returns whether the search may find more.
pub fn find_step(
    matcher: &GlobNameMatcher,
    relative: &str,
    file_name: &str,
    hits: &mut Vec<FindHit>,
    max_results: usize,
) -> (more: bool)
    ensures
        old(hits)@.len() < max_results && glob_matches(matcher.pattern(), file_name@) ==> (
        final(hits)@.len() == old(hits)@.len() + 1 && final(hits)@.drop_last() == old(hits)@
            && final(hits)@.last().relative_path@ == relative@),
        !(old(hits)@.len() < max_results && glob_matches(matcher.pattern(), file_name@))
            ==> final(hits)@ == old(hits)@,
        more == (final(hits)@.len() < max_results),
{
    if hits.len() >= max_results {
        return false;
    }
    if matcher.is_match(file_name) {
        let ghost before = hits@;
        hits.push(FindHit { relative_path: relative.to_owned() });
        proof {
            assert(hits@.drop_last() =~= before);
        }
    }
    hits.len() < max_results
}

} // verus!
