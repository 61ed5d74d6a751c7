//! The plain-text lines the command line prints for directory listings, trees, searches,
//! mounts, tokens and audit entries.
use vstd::prelude::*;

use crate::admin::{format_audience, format_mode, format_scopes};
use crate::audit::{AuditEntry, AuditResult};
use crate::fsops::{
    trim_by, trim_whitespace, whitespace_pred, CopyResponse, FindResult, FsEntry, FsEntryKind, GrepMatch,
    MkdirResponse, MoveResponse, RemoveResponse, StatResponse, TreeNode, TreeResponse, WriteResponse,
};
use crate::glob::views_of;
use crate::mount::{Audience, Mount, MountMode};
use crate::path::MountPath;
use crate::path::mount_path_text;
use crate::rows::{scope_texts, token_id_text, uuid_hyphenated};
use crate::text::{decimal, join_with, u64_text};
use crate::token::{TokenId, TokenView};

verus! {

broadcast use vstd::string::group_string_axioms;

/// The branch drawn before a node of a tree: the last child of its parent closes the branch.
pub open spec fn branch(is_last: bool) -> Seq<char> {
    if is_last {
        "└──"@
    } else {
        "├──"@
    }
}

/// The prefix of the lines under a node: the node's own prefix, continued by a rule unless
/// the node closed its branch.
pub open spec fn deeper_prefix(prefix: Seq<char>, is_last: bool) -> Seq<char> {
    prefix + if is_last {
        "    "@
    } else {
        "│   "@
    }
}

/// The lines drawing the node `n` and everything under it.
pub open spec fn node_lines(n: TreeNode, prefix: Seq<char>, is_last: bool) -> Seq<Seq<char>>
    decreases n,
{
    let cs = n.children@;
    let p = deeper_prefix(prefix, is_last);
    seq![prefix + branch(is_last) + " "@ + n.name@] + if cs.len() == 0 {
        Seq::empty()
    } else {
        leading_lines(cs.drop_last(), p) + node_lines(cs.last(), p, true)
    }
}

/// The lines drawing nodes that are not the last child of their parent.
pub open spec fn leading_lines(cs: Seq<TreeNode>, prefix: Seq<char>) -> Seq<Seq<char>>
    decreases cs,
{
    if cs.len() == 0 {
        Seq::empty()
    } else {
        leading_lines(cs.drop_last(), prefix) + node_lines(cs.last(), prefix, false)
    }
}

/// The lines drawing the top level of a tree: each top-level node is drawn closing its
/// branch.
pub open spec fn top_level_lines(cs: Seq<TreeNode>) -> Seq<Seq<char>>
    decreases cs.len(),
{
    if cs.len() == 0 {
        Seq::empty()
    } else {
        top_level_lines(cs.drop_last()) + node_lines(cs.last(), Seq::empty(), true)
    }
}

/// Siblings that are not last are drawn one after another, each with the continuing branch.
pub proof fn lemma_leading_lines_each_open(cs: Seq<TreeNode>, prefix: Seq<char>)
    ensures
        leading_lines(cs, prefix) == Seq::new(cs.len(), |k: int| node_lines(cs[k], prefix, false)).flatten_alt(),
    decreases cs.len(),
{
    let f = Seq::new(cs.len(), |k: int| node_lines(cs[k], prefix, false));
    if cs.len() > 0 {
        let init = cs.drop_last();
        lemma_leading_lines_each_open(init, prefix);
        assert(f.drop_last() =~= Seq::new(init.len(), |k: int| node_lines(init[k], prefix, false)));
        assert(f.last() == node_lines(cs.last(), prefix, false));
    } else {
        assert(f.len() == 0);
    }
}

/// A node is drawn as its own line, then its children in order, each under the deeper
/// prefix; the `k`-th child is drawn with the closing branch `└──` exactly when it is the
/// last child, every earlier one with `├──`.
pub proof fn lemma_node_lines_close_only_last(n: TreeNode, prefix: Seq<char>, is_last: bool)
    ensures
        node_lines(n, prefix, is_last) == seq![prefix + branch(is_last) + " "@ + n.name@] + Seq::new(
            n.children@.len(),
            |k: int|
                node_lines(
                    n.children@[k],
                    deeper_prefix(prefix, is_last),
                    k == n.children@.len() - 1,
                ),
        ).flatten_alt(),
{
    let cs = n.children@;
    let p = deeper_prefix(prefix, is_last);
    let f = Seq::new(cs.len(), |k: int| node_lines(cs[k], p, k == cs.len() - 1));
    if cs.len() > 0 {
        lemma_leading_lines_each_open(cs.drop_last(), p);
        assert(f.drop_last() =~= Seq::new(
            cs.drop_last().len(),
            |k: int| node_lines(cs.drop_last()[k], p, false),
        ));
        assert(f.last() == node_lines(cs.last(), p, true));
    } else {
        assert(f.len() == 0);
        assert(f.flatten_alt() =~= Seq::<Seq<char>>::empty());
    }
}

/// The top level of a tree is drawn node after node, each closing its branch.
pub proof fn lemma_top_level_lines_each_closed(cs: Seq<TreeNode>)
    ensures
        top_level_lines(cs) == Seq::new(cs.len(), |k: int| node_lines(cs[k], Seq::empty(), true)).flatten_alt(),
    decreases cs.len(),
{
    let f = Seq::new(cs.len(), |k: int| node_lines(cs[k], Seq::empty(), true));
    if cs.len() > 0 {
        let init = cs.drop_last();
        lemma_top_level_lines_each_closed(init);
        assert(f.drop_last() =~= Seq::new(init.len(), |k: int| node_lines(init[k], Seq::empty(), true)));
    } else {
        assert(f.len() == 0);
    }
}

/// The lines printed for a tree: its path, the drawing of what lies under its root, and a
/// last line when the walk was cut.
pub open spec fn tree_text(r: TreeResponse) -> Seq<Seq<char>> {
    seq![mount_path_text(r.path@.0, r.path@.1)] + top_level_lines(r.tree.children@) + if r.truncated {
        seq!["(truncated)"@]
    } else {
        Seq::empty()
    }
}

/// `prefix`, the branch, a space and `name`.
fn node_line(prefix: &str, is_last: bool, name: &str) -> (s: String)
    ensures
        s@ == prefix@ + branch(is_last) + " "@ + name@,
{
    let mut s = prefix.to_owned();
    if is_last {
        s.append("└──");
    } else {
        s.append("├──");
    }
    s.append(" ");
    s.append(name);
    s
}

/// The prefix of the lines under a node.
fn next_prefix(prefix: &str, is_last: bool) -> (s: String)
    ensures
        s@ == deeper_prefix(prefix@, is_last),
{
    let mut s = prefix.to_owned();
    if is_last {
        s.append("    ");
    } else {
        s.append("│   ");
    }
    s
}

/// Appends the lines drawing `n` and everything under it.
fn push_node_lines(n: &TreeNode, prefix: &str, is_last: bool, out: &mut Vec<String>)
    ensures
        views_of(final(out)@) == views_of(old(out)@) + node_lines(*n, prefix@, is_last),
    decreases n,
{
    let line = node_line(prefix, is_last, n.name.as_str());
    let ghost start = views_of(out@);
    out.push(line);
    proof {
        assert(views_of(out@) =~= start + seq![line@]);
    }
    let next = next_prefix(prefix, is_last);
    let ghost cs = n.children@;
    let len = n.children.len();
    if len == 0 {
        proof {
            assert(views_of(out@) =~= start + node_lines(*n, prefix@, is_last));
        }
        return;
    }
    let ghost head = start + seq![line@];
    let mut i: usize = 0;
    proof {
        assert(cs.drop_last().take(0) =~= Seq::<TreeNode>::empty());
        assert(views_of(out@) =~= head + leading_lines(cs.drop_last().take(0), next@));
    }
    while i + 1 < len
        invariant
            cs == n.children@,
            len == cs.len(),
            len > 0,
            0 <= i < len,
            views_of(out@) == head + leading_lines(cs.drop_last().take(i as int), next@),
        decreases len - i,
    {
        let ghost before = views_of(out@);
        proof {
            assert(decreases_to!(n => n.children));
            assert(decreases_to!(n.children => n.children@));
            assert(decreases_to!(n.children@ => n.children@[i as int]));
        }
        push_node_lines(&n.children[i], next.as_str(), false, out);
        proof {
            let taken = cs.drop_last().take(i + 1);
            assert(taken.drop_last() =~= cs.drop_last().take(i as int));
            assert(taken.last() == cs[i as int]);
            assert(views_of(out@) =~= head + leading_lines(taken, next@));
        }
        i = i + 1;
    }
    proof {
        assert(cs.drop_last().take(i as int) =~= cs.drop_last());
        assert(decreases_to!(n => n.children));
        assert(decreases_to!(n.children => n.children@));
        assert(decreases_to!(n.children@ => n.children@[len - 1]));
    }
    push_node_lines(&n.children[len - 1], next.as_str(), true, out);
    proof {
        assert(cs.last() == cs[len - 1]);
        assert(views_of(out@) =~= start + node_lines(*n, prefix@, is_last));
    }
}

/// The lines printed for a tree: its path, the drawing of what lies under its root (each
/// top-level node drawn closing its branch), and `(truncated)` when the walk was cut.
pub fn tree_lines(response: &TreeResponse) -> (lines: Vec<String>)
    ensures
        views_of(lines@) == tree_text(*response),
{
    let mut out: Vec<String> = Vec::new();
    out.push(response.path.to_string());
    let ghost head = views_of(out@);
    let ghost cs = response.tree.children@;
    let mut i: usize = 0;
    proof {
        assert(cs.take(0) =~= Seq::<TreeNode>::empty());
        assert(views_of(out@) =~= head + top_level_lines(cs.take(0)));
    }
    while i < response.tree.children.len()
        invariant
            cs == response.tree.children@,
            0 <= i <= cs.len(),
            head == seq![mount_path_text(response.path@.0, response.path@.1)],
            views_of(out@) == head + top_level_lines(cs.take(i as int)),
        decreases cs.len() - i,
    {
        push_node_lines(&response.tree.children[i], "", true, &mut out);
        proof {
            reveal_strlit("");
            assert(""@ =~= Seq::<char>::empty());
            assert(cs.take(i + 1).drop_last() =~= cs.take(i as int));
            assert(cs.take(i + 1).last() == cs[i as int]);
            assert(views_of(out@) =~= head + top_level_lines(cs.take(i + 1)));
        }
        i = i + 1;
    }
    proof {
        assert(cs.take(i as int) =~= cs);
    }
    if response.truncated {
        let ghost before = views_of(out@);
        out.push("(truncated)".to_owned());
        proof {
            assert(views_of(out@) =~= before + seq!["(truncated)"@]);
        }
    }
    proof {
        assert(views_of(out@) =~= tree_text(*response));
    }
    out
}

/// `time`'s display of the instant `nanos` nanoseconds after the Unix epoch, in UTC, when
/// the instant is within its range.
pub uninterp spec fn datetime_display(nanos: i128) -> Option<Seq<char>>;

/// `OffsetDateTime::from_unix_timestamp_nanos` from `time`, then its `Display`; `None` for
/// an instant out of range.
#[verifier::external_body]
fn display_datetime(nanos: i128) -> (r: Option<String>)
    ensures
        match datetime_display(nanos) {
            Some(t) => r matches Some(s) && s@ == t,
            None => r is None,
        },
{
    time::OffsetDateTime::from_unix_timestamp_nanos(nanos).ok().map(|value| value.to_string())
}

/// How the command line shows a time: `time`'s display of it, or `-` for an instant out of
/// its range.
pub open spec fn shown_time(nanos: i128) -> Seq<char> {
    match datetime_display(nanos) {
        Some(t) => t,
        None => "-"@,
    }
}

/// How the command line shows a time (nanoseconds since the Unix epoch).
pub fn format_timestamp(nanos: i128) -> (s: String)
    ensures
        s@ == shown_time(nanos),
{
    match display_datetime(nanos) {
        Some(text) => text,
        None => "-".to_owned(),
    }
}

/// How the command line shows an optional size: its decimal text, or `-`.
pub open spec fn size_shown(size: Option<u64>) -> Seq<char> {
    match size {
        Some(v) => decimal(v as nat),
        None => "-"@,
    }
}

/// The text of an optional size.
fn size_text(size: Option<u64>) -> (s: String)
    ensures
        s@ == size_shown(size),
{
    match size {
        Some(v) => u64_text(v),
        None => "-".to_owned(),
    }
}

/// The letter of an entry kind in a listing.
pub open spec fn kind_letter(k: FsEntryKind) -> Seq<char> {
    match k {
        FsEntryKind::Dir => "d"@,
        FsEntryKind::File => "f"@,
    }
}

/// The word for an entry kind in a stat line.
pub open spec fn kind_word(k: FsEntryKind) -> Seq<char> {
    match k {
        FsEntryKind::Dir => "dir"@,
        FsEntryKind::File => "file"@,
    }
}

/// The protocol text of a mount path.
pub open spec fn path_shown(p: MountPath) -> Seq<char> {
    mount_path_text(p@.0, p@.1)
}

/// The line of a listing entry: kind letter, name, size and modification time, separated
/// by tabs; `modified` is how the time is shown.
pub fn ls_line(entry: &FsEntry, modified: &str) -> (s: String)
    ensures
        s@ == kind_letter(entry.kind) + "\t"@ + entry.name@ + "\t"@ + size_shown(entry.size)
            + "\t"@ + modified@,
{
    let mut s = match entry.kind {
        FsEntryKind::Dir => "d".to_owned(),
        FsEntryKind::File => "f".to_owned(),
    };
    s.append("\t");
    s.append(entry.name.as_str());
    s.append("\t");
    let size = size_text(entry.size);
    s.append(size.as_str());
    s.append("\t");
    s.append(modified);
    s
}

/// The line of a search match: path, line number and line, separated by colons.
pub fn grep_line(m: &GrepMatch) -> (s: String)
    ensures
        s@ == path_shown(m.path) + ":"@ + decimal(m.line as nat) + ":"@ + m.content@,
{
    let mut s = m.path.to_string();
    s.append(":");
    let line = u64_text(m.line);
    s.append(line.as_str());
    s.append(":");
    s.append(m.content.as_str());
    s
}

/// The line of a path found by name: path, `size=` and the size, and the modification
/// time, separated by tabs; `modified` is how the time is shown.
pub fn find_line(r: &FindResult, modified: &str) -> (s: String)
    ensures
        s@ == path_shown(r.path) + "\tsize="@ + size_shown(r.size) + "\t"@ + modified@,
{
    let mut s = r.path.to_string();
    s.append("\tsize=");
    let size = size_text(r.size);
    s.append(size.as_str());
    s.append("\t");
    s.append(modified);
    s
}

/// The lines describing a path: its path, kind, size and modification time, and its
/// summary when it has one; `modified` is how the time is shown.
pub fn info_lines(stat: &StatResponse, modified: &str) -> (lines: Vec<String>)
    ensures
        views_of(lines@) == seq![
            path_shown(stat.path) + "\tkind="@ + kind_word(stat.kind) + "\tsize="@ + size_shown(
                stat.size,
            ) + "\tmodified="@ + modified@,
        ] + match stat.memo_summary {
            Some(summary) => seq!["summary: "@ + summary@],
            None => Seq::<Seq<char>>::empty(),
        },
{
    let mut first = stat.path.to_string();
    first.append("\tkind=");
    match stat.kind {
        FsEntryKind::Dir => first.append("dir"),
        FsEntryKind::File => first.append("file"),
    }
    first.append("\tsize=");
    let size = size_text(stat.size);
    first.append(size.as_str());
    first.append("\tmodified=");
    first.append(modified);
    let mut lines: Vec<String> = Vec::new();
    lines.push(first);
    if let Some(summary) = &stat.memo_summary {
        let mut second = "summary: ".to_owned();
        second.append(summary.as_str());
        lines.push(second);
    }
    proof {
        assert(views_of(lines@) =~= seq![
            path_shown(stat.path) + "\tkind="@ + kind_word(stat.kind) + "\tsize="@ + size_shown(
                stat.size,
            ) + "\tmodified="@ + modified@,
        ] + match stat.memo_summary {
            Some(summary) => seq!["summary: "@ + summary@],
            None => Seq::<Seq<char>>::empty(),
        });
    }
    lines
}

/// The line of a mount: name, root, mode and audience, separated by spaces.
pub fn mount_line(mount: &Mount) -> (s: String)
    ensures
        s@ == mount.name@ + " "@ + mount.root_path@ + " "@ + (match mount.mode {
            MountMode::ReadOnly => "read_only"@,
            MountMode::ReadWrite => "read_write"@,
        }) + " "@ + (match mount.audience {
            Audience::Shared => "shared"@,
            Audience::AgentOnly => "agent_only"@,
            Audience::HumanOnly => "human_only"@,
        }),
{
    let mut s = mount.name.to_string();
    s.append(" ");
    s.append(mount.root_path.as_str());
    s.append(" ");
    s.append(format_mode(&mount.mode));
    s.append(" ");
    s.append(format_audience(&mount.audience));
    s
}

/// The line of a token: identity, name, and `scopes=` with its scopes joined by commas.
pub fn token_line(token: &TokenView) -> (s: String)
    ensures
        s@ == uuid_hyphenated(token.id.0) + " "@ + token.name@ + " scopes="@ + join_with(
            scope_texts(token.scopes@),
            ',',
        ),
{
    let mut s = token_id_text(token.id);
    s.append(" ");
    s.append(token.name.as_str());
    s.append(" scopes=");
    let scopes = format_scopes(&token.scopes);
    s.append(scopes.as_str());
    s
}

/// The line of an audit entry: number, time, operation, `mount=`, `token=` and `result=`
/// (`Ok` or `Error`), separated by spaces, with `-` for what the entry lacks; `timestamp`
/// is how the time is shown.
pub fn audit_line(entry: &AuditEntry, timestamp: &str) -> (s: String)
    ensures
        s@ == decimal(entry.id as nat) + " "@ + timestamp@ + " "@ + entry.operation@ + " mount="@
            + (match entry.mount {
            Some(m) => m@,
            None => "-"@,
        }) + " token="@ + (match entry.token_id {
            Some(id) => uuid_hyphenated(id.0),
            None => "-"@,
        }) + " result="@ + (match entry.result {
            AuditResult::Success => "Ok"@,
            AuditResult::Error => "Error"@,
        }),
{
    let mut s = u64_text(entry.id);
    s.append(" ");
    s.append(timestamp);
    s.append(" ");
    s.append(entry.operation.as_str());
    s.append(" mount=");
    match &entry.mount {
        Some(m) => s.append(m.as_str()),
        None => s.append("-"),
    }
    s.append(" token=");
    match entry.token_id {
        Some(id) => {
            let text = token_id_text(id);
            s.append(text.as_str());
        },
        None => s.append("-"),
    }
    s.append(" result=");
    match entry.result {
        AuditResult::Success => s.append("Ok"),
        AuditResult::Error => s.append("Error"),
    }
    s
}

/// The message after a write.
pub fn write_message(r: &WriteResponse) -> (s: String)
    ensures
        s@ == "wrote "@ + decimal(r.written_bytes as nat) + " bytes to "@ + path_shown(r.path),
{
    let mut s = "wrote ".to_owned();
    let n = u64_text(r.written_bytes);
    s.append(n.as_str());
    s.append(" bytes to ");
    let p = r.path.to_string();
    s.append(p.as_str());
    s
}

/// The message after a directory creation.
pub fn mkdir_message(r: &MkdirResponse) -> (s: String)
    ensures
        s@ == "created "@ + path_shown(r.path),
{
    let mut s = "created ".to_owned();
    let p = r.path.to_string();
    s.append(p.as_str());
    s
}

/// The message after a move.
pub fn move_message(r: &MoveResponse) -> (s: String)
    ensures
        s@ == "moved "@ + path_shown(r.src) + " -> "@ + path_shown(r.dst),
{
    let mut s = "moved ".to_owned();
    let a = r.src.to_string();
    s.append(a.as_str());
    s.append(" -> ");
    let b = r.dst.to_string();
    s.append(b.as_str());
    s
}

/// The message after a removal.
pub fn remove_message(r: &RemoveResponse) -> (s: String)
    ensures
        s@ == "removed "@ + path_shown(r.path),
{
    let mut s = "removed ".to_owned();
    let p = r.path.to_string();
    s.append(p.as_str());
    s
}

/// The message after a copy inside the daemon.
pub fn copy_message(r: &CopyResponse) -> (s: String)
    ensures
        s@ == "copied "@ + path_shown(r.src) + " -> "@ + path_shown(r.dst),
{
    let mut s = "copied ".to_owned();
    let a = r.src.to_string();
    s.append(a.as_str());
    s.append(" -> ");
    let b = r.dst.to_string();
    s.append(b.as_str());
    s
}

/// The message after copying the local file `src` into a mount.
pub fn local_copy_message(src: &str, r: &WriteResponse) -> (s: String)
    ensures
        s@ == "copied local file "@ + src@ + " -> "@ + path_shown(r.path) + " ("@ + decimal(
            r.written_bytes as nat,
        ) + " bytes)"@,
{
    let mut s = "copied local file ".to_owned();
    s.append(src);
    s.append(" -> ");
    let p = r.path.to_string();
    s.append(p.as_str());
    s.append(" (");
    let n = u64_text(r.written_bytes);
    s.append(n.as_str());
    s.append(" bytes)");
    s
}

/// The message after the daemon was started from the launch agent at `plist_path`.
pub fn daemon_started_message(plist_path: &str) -> (s: String)
    ensures
        s@ == "daemon started ("@ + plist_path@ + ")"@,
{
    let mut s = "daemon started (".to_owned();
    s.append(plist_path);
    s.append(")");
    s
}

/// The message of a running daemon, with its pid file and version.
pub fn daemon_running_message(pid_file: &str, version: &str) -> (s: String)
    ensures
        s@ == "daemon running (pid file: "@ + pid_file@ + ", version: "@ + version@ + ")"@,
{
    let mut s = "daemon running (pid file: ".to_owned();
    s.append(pid_file);
    s.append(", version: ");
    s.append(version);
    s.append(")");
    s
}

/// The reason a daemon is taken as not running: its pid file is missing.
pub fn daemon_not_running_message(pid_file: &str) -> (s: String)
    ensures
        s@ == "daemon not running (missing pid file: "@ + pid_file@ + ")"@,
{
    let mut s = "daemon not running (missing pid file: ".to_owned();
    s.append(pid_file);
    s.append(")");
    s
}

/// The reason the daemon log cannot be shown: the file does not exist.
pub fn log_not_found_message(log_path: &str) -> (s: String)
    ensures
        s@ == "log file not found: "@ + log_path@,
{
    let mut s = "log file not found: ".to_owned();
    s.append(log_path);
    s
}

/// The reason a `launchctl` call failed: the action, the launch agent, and what the tool
/// wrote to its error stream, without surrounding whitespace.
pub fn launchctl_failure_message(action: &str, plist_path: &str, stderr: &str) -> (s: String)
    ensures
        s@ == "launchctl "@ + action@ + " failed for "@ + plist_path@ + ": "@ + trim_by(
            stderr@,
            whitespace_pred(),
        ),
{
    let mut s = "launchctl ".to_owned();
    s.append(action);
    s.append(" failed for ");
    s.append(plist_path);
    s.append(": ");
    s.append(trim_whitespace(stderr));
    s
}

/// The message after a mount was removed.
pub fn removed_mount_message(name: &str) -> (s: String)
    ensures
        s@ == "removed mount "@ + name@,
{
    let mut s = "removed mount ".to_owned();
    s.append(name);
    s
}

/// The lines shown after a token was created: its name and identity, then its secret,
/// which is shown this once.
pub fn created_token_lines(name: &str, id: TokenId, secret: &str) -> (lines: Vec<String>)
    ensures
        views_of(lines@) == seq![
            "created token "@ + name@ + " ("@ + uuid_hyphenated(id.0) + ")"@,
            "token:"@,
            secret@,
            "store this token now; it may not be shown again"@,
        ],
{
    let mut first = "created token ".to_owned();
    first.append(name);
    first.append(" (");
    let text = token_id_text(id);
    first.append(text.as_str());
    first.append(")");
    let mut lines: Vec<String> = Vec::new();
    lines.push(first);
    lines.push("token:".to_owned());
    lines.push(secret.to_owned());
    lines.push("store this token now; it may not be shown again".to_owned());
    proof {
        assert(views_of(lines@) =~= seq![
            "created token "@ + name@ + " ("@ + uuid_hyphenated(id.0) + ")"@,
            "token:"@,
            secret@,
            "store this token now; it may not be shown again"@,
        ]);
    }
    lines
}

/// The message after a token was revoked.
pub fn revoked_token_message(id: TokenId) -> (s: String)
    ensures
        s@ == "revoked token "@ + uuid_hyphenated(id.0),
{
    let mut s = "revoked token ".to_owned();
    let text = token_id_text(id);
    s.append(text.as_str());
    s
}

} // verus!
