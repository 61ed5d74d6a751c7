use memo::admin::{copy_source, CopySource};
use memo::audit::{AuditEntry, AuditResult};
use memo::cli::CliError;
use memo::client::{is_success_status, response_error, ErrorEnvelope, ErrorResponse};
use memo::errors::ApiError;
use memo::fsops::{
    CopyResponse, FindResult, FsEntry, FsEntryKind, GrepMatch, MkdirResponse, MoveResponse,
    RemoveResponse, StatResponse, TreeNode, TreeResponse, WriteResponse,
};
use memo::mount::{Audience, Mount, MountMode, MountName, MountPolicy};
use memo::path::{MountPath, RelativePath};
use memo::present::{
    audit_line, copy_message, daemon_not_running_message, daemon_running_message,
    daemon_started_message, find_line, format_timestamp, grep_line, info_lines,
    launchctl_failure_message, local_copy_message, log_not_found_message, ls_line, mkdir_message,
    mount_line, move_message, remove_message, token_line, tree_lines, write_message,
};
use memo::scope::{Scope, ScopeSet};
use memo::token::{Expiry, TokenId, TokenView};

use std::str::FromStr;

fn mp(text: &str) -> MountPath {
    MountPath::parse(text).expect("valid mount path")
}

fn leaf(name: &str) -> TreeNode {
    TreeNode { name: name.to_owned(), kind: FsEntryKind::File, size: Some(1), modified_at: None, children: Vec::new() }
}

fn dir(name: &str, children: Vec<TreeNode>) -> TreeNode {
    TreeNode { name: name.to_owned(), kind: FsEntryKind::Dir, size: None, modified_at: None, children }
}

#[test]
fn tree_lines_draw_branches() {
    let response = TreeResponse {
        path: mp("VaultKB:/notes"),
        depth: 3,
        truncated: true,
        tree: dir("notes", vec![dir("daily", vec![leaf("a.md"), leaf("b.md")]), leaf("index.md")]),
    };
    assert_eq!(
        tree_lines(&response),
        vec![
            "VaultKB:/notes".to_owned(),
            "└── daily".to_owned(),
            "    ├── a.md".to_owned(),
            "    └── b.md".to_owned(),
            "└── index.md".to_owned(),
            "(truncated)".to_owned(),
        ]
    );
}

#[test]
fn tree_lines_continue_rules_under_open_branches() {
    let response = TreeResponse {
        path: mp("VaultKB:/"),
        depth: 3,
        truncated: false,
        tree: dir("", vec![dir("a", vec![dir("b", vec![leaf("c")]), leaf("d")])]),
    };
    assert_eq!(
        tree_lines(&response),
        vec![
            "VaultKB:/".to_owned(),
            "└── a".to_owned(),
            "    ├── b".to_owned(),
            "    │   └── c".to_owned(),
            "    └── d".to_owned(),
        ]
    );
}

#[test]
fn listing_and_search_lines() {
    let entry = FsEntry { name: "a.md".to_owned(), kind: FsEntryKind::File, size: Some(3), modified_at: 0 };
    assert_eq!(ls_line(&entry, "T"), "f\ta.md\t3\tT");
    let sub = FsEntry { name: "sub".to_owned(), kind: FsEntryKind::Dir, size: None, modified_at: 0 };
    assert_eq!(ls_line(&sub, "T"), "d\tsub\t-\tT");
    let hit = GrepMatch { path: mp("VaultKB:/notes/a.md"), line: 12, content: "TASK".to_owned() };
    assert_eq!(grep_line(&hit), "VaultKB:/notes/a.md:12:TASK");
    let found = FindResult { path: mp("VaultKB:/a.md"), size: None, modified_at: 0 };
    assert_eq!(find_line(&found, "T"), "VaultKB:/a.md\tsize=-\tT");
}

#[test]
fn info_lines_show_the_summary() {
    let stat = StatResponse {
        path: mp("VaultKB:/notes"),
        kind: FsEntryKind::Dir,
        size: None,
        modified_at: 0,
        created_at: None,
        memo_summary: Some("Daily notes".to_owned()),
    };
    assert_eq!(
        info_lines(&stat, "T"),
        vec!["VaultKB:/notes\tkind=dir\tsize=-\tmodified=T".to_owned(), "summary: Daily notes".to_owned()]
    );
}

#[test]
fn times_show_as_time_displays_them() {
    assert!(format_timestamp(1_700_000_000_000_000_000).starts_with("2023-11-14 22:13:20"));
    assert_eq!(format_timestamp(i128::MAX), "-");
}

#[test]
fn mount_token_and_audit_lines() {
    let mount = Mount::new(
        MountName::new("VaultKB").expect("valid"),
        "/data/vault".to_owned(),
        MountMode::ReadOnly,
        Audience::AgentOnly,
        None,
        MountPolicy::default(),
        0,
    )
    .expect("mount builds");
    assert_eq!(mount_line(&mount), "VaultKB /data/vault read_only agent_only");
    let mut scopes = ScopeSet::default();
    scopes.insert(Scope::from_str("meta:*:read").expect("scope"));
    scopes.insert(Scope::from_str("fs:VaultKB:read").expect("scope"));
    let token = TokenView {
        id: TokenId::from_u128(0x67e55044_10b1_426f_9247_bb680e5fe0c8),
        name: "agent".to_owned(),
        scopes,
        created_at: 0,
        expires_at: Expiry::Never,
        last_used_at: None,
    };
    assert_eq!(
        token_line(&token),
        "67e55044-10b1-426f-9247-bb680e5fe0c8 agent scopes=fs:VaultKB:read,meta:*:read"
    );
    let entry = AuditEntry {
        id: 7,
        timestamp: 0,
        token_id: None,
        operation: "file_read".to_owned(),
        mount: Some(MountName::new("VaultKB").expect("valid")),
        path: None,
        result: AuditResult::Success,
        error_code: None,
    };
    assert_eq!(audit_line(&entry, "T"), "7 T file_read mount=VaultKB token=- result=Ok");
}

#[test]
fn command_messages() {
    assert_eq!(write_message(&WriteResponse { path: mp("VaultKB:/a.md"), written_bytes: 5 }), "wrote 5 bytes to VaultKB:/a.md");
    assert_eq!(mkdir_message(&MkdirResponse { path: mp("VaultKB:/d"), created: true }), "created VaultKB:/d");
    assert_eq!(move_message(&MoveResponse { src: mp("VaultKB:/a"), dst: mp("VaultKB:/b") }), "moved VaultKB:/a -> VaultKB:/b");
    assert_eq!(remove_message(&RemoveResponse { path: mp("VaultKB:/a"), deleted: true }), "removed VaultKB:/a");
    assert_eq!(copy_message(&CopyResponse { src: mp("VaultKB:/a"), dst: mp("Other:/a") }), "copied VaultKB:/a -> Other:/a");
    assert_eq!(
        local_copy_message("./a.md", &WriteResponse { path: mp("VaultKB:/a.md"), written_bytes: 2 }),
        "copied local file ./a.md -> VaultKB:/a.md (2 bytes)"
    );
    assert_eq!(daemon_started_message("/p.plist"), "daemon started (/p.plist)");
    assert_eq!(daemon_running_message("/run/memod.pid", "0.1.0"), "daemon running (pid file: /run/memod.pid, version: 0.1.0)");
    assert_eq!(daemon_not_running_message("/run/memod.pid"), "daemon not running (missing pid file: /run/memod.pid)");
    assert_eq!(log_not_found_message("/tmp/memod.log"), "log file not found: /tmp/memod.log");
    assert_eq!(launchctl_failure_message("load", "/p.plist", "  boom\n"), "launchctl load failed for /p.plist: boom");
}

#[test]
fn run_cp_rejects_invalid_local_sources_before_network_call() {
    let missing = copy_source("./missing.txt", None, false, false);
    assert!(matches!(missing, Err(CliError::Command(ref m)) if m == "source './missing.txt' is neither a valid mount path nor an existing local file"));
    let directory = copy_source("./dir", None, true, true);
    assert!(matches!(directory, Err(CliError::Command(ref m)) if m == "local source './dir' is a directory; only file -> mount copy is supported"));
    assert!(matches!(copy_source("./a.md", None, true, false), Ok(CopySource::LocalFile)));
    match copy_source("VaultKB:/a.md", None, false, false) {
        Ok(CopySource::Mount(path)) => assert_eq!(path.to_string(), "VaultKB:/a.md"),
        other => panic!("unexpected {other:?}"),
    }
    match copy_source("notes/a.md", Some("VaultKB"), false, false) {
        Ok(CopySource::Mount(path)) => assert_eq!(path.relative(), &RelativePath::new("notes/a.md").expect("valid")),
        other => panic!("unexpected {other:?}"),
    }
}

#[test]
fn failed_answers_become_api_errors() {
    assert!(is_success_status(200));
    assert!(is_success_status(204));
    assert!(!is_success_status(404));
    let parsed = ErrorResponse {
        error: ErrorEnvelope {
            code: "conflict".to_owned(),
            message: "exists".to_owned(),
            mount: Some("VaultKB".to_owned()),
            path: None,
            limit: None,
            actual: None,
        },
    };
    assert_eq!(
        response_error(409, "{...}", Some(parsed)),
        ApiError::Conflict("exists (mount: VaultKB)".to_owned())
    );
    assert_eq!(response_error(404, "", None), ApiError::NotFound("Not Found".to_owned()));
    assert_eq!(response_error(500, "boom", None), ApiError::Internal("boom".to_owned()));
}
