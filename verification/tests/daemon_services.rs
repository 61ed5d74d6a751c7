use memo::auth::{bootstrap_request, issue_token, issued_token, verify_token_hash, CreateTokenRequest};
use memo::errors::{ApiError, DbError};
use memo::fsops::{find_name_matches, find_step, FindHit, GrepHit};
use memo::glob::{GlobList, GlobPattern};
use memo::listing::{child_depth, cut_node, tree_node, tree_root_name, TreeBudget};
use memo::fsops::{FsEntryKind, TREE_ENTRY_CAP};
use memo::mount::{Audience, Mount, MountMode, MountName, MountPolicy};
use memo::path::RelativePath;
use memo::policy::{PolicyCache, PolicyEngine};
use memo::scope::{Scope, ScopeSet};
use memo::search::{find_results, grep_matches, EntryMeta, FindCandidate, GrepCandidate};
use memo::store::{
    finish_mount_change, finish_mount_create, finish_mount_save, finish_token_delete,
    finish_token_write, StatementOutcome,
};
use memo::targets::{
    removal_failure, removal_for, require_directory, require_file, DirectoryOperation,
    FileOperation, Removal,
};
use memo::token::{Expiry, TokenId};

use std::str::FromStr;

fn vault() -> MountName {
    MountName::new("VaultKB").expect("valid mount name")
}

fn rel(path: &str) -> RelativePath {
    RelativePath::new(path).expect("valid path")
}

fn mount_with(policy: MountPolicy) -> Mount {
    Mount::new(
        vault(),
        "/data/vault".to_owned(),
        MountMode::ReadWrite,
        Audience::Shared,
        None,
        policy,
        0,
    )
    .expect("mount should build")
}

fn grep_candidate(path: &str, line: u64, canonical: Option<&str>) -> GrepCandidate {
    GrepCandidate {
        hit: GrepHit { relative_path: path.to_owned(), line, content: format!("line {line}") },
        canonical: canonical.map(str::to_owned),
    }
}

#[test]
fn grep_matches_keep_visible_hits_in_order() {
    let mut engine = PolicyEngine::new(PolicyCache::new());
    let mount = mount_with(MountPolicy {
        hide_globs: vec!["private/**".to_owned()],
        ..MountPolicy::default()
    });
    let matches = grep_matches(
        &mut engine,
        &mount,
        "/data/vault",
        vec![
            grep_candidate("notes/b.md", 3, Some("/data/vault/notes/b.md")),
            grep_candidate("private/key.md", 1, Some("/data/vault/private/key.md")),
            grep_candidate("./notes/a.md", 9, Some("/data/vault/notes/a.md")),
            grep_candidate("gone.md", 2, None),
        ],
    )
    .expect("all paths are valid");
    assert_eq!(matches.len(), 2);
    assert_eq!(matches[0].path.to_string(), "VaultKB:/notes/b.md");
    assert_eq!(matches[0].line, 3);
    assert_eq!(matches[0].content, "line 3");
    assert_eq!(matches[1].path.to_string(), "VaultKB:/notes/a.md");
    assert_eq!(matches[1].line, 9);
}

#[test]
fn grep_matches_stop_on_an_invalid_path() {
    let mut engine = PolicyEngine::new(PolicyCache::new());
    let mount = mount_with(MountPolicy::default());
    let result = grep_matches(
        &mut engine,
        &mount,
        "/data/vault",
        vec![
            grep_candidate("notes/a.md", 1, Some("/data/vault/notes/a.md")),
            grep_candidate("../escape.md", 1, Some("/data/escape.md")),
        ],
    );
    assert!(matches!(result, Err(ApiError::InvalidPath(ref m)) if m == "invalid path"));
}

fn found(path: &str, canonical: Option<&str>, meta: Result<EntryMeta, String>) -> FindCandidate {
    FindCandidate { relative_path: path.to_owned(), canonical: canonical.map(str::to_owned), meta }
}

#[test]
fn find_results_describe_visible_paths() {
    let mut engine = PolicyEngine::new(PolicyCache::new());
    let mount = mount_with(MountPolicy {
        deny_read_globs: vec!["*.secret".to_owned()],
        ..MountPolicy::default()
    });
    let results = find_results(
        &mut engine,
        &mount,
        "/data/vault",
        vec![
            found("a.md", Some("/data/vault/a.md"), Ok(EntryMeta { is_file: true, len: 12, modified_at: 5 })),
            found("x.secret", Some("/data/vault/x.secret"), Err("unreadable".to_owned())),
            found("docs", Some("/data/vault/docs"), Ok(EntryMeta { is_file: false, len: 4096, modified_at: 6 })),
        ],
    )
    .expect("visible metadata was read");
    assert_eq!(results.len(), 2);
    assert_eq!(results[0].path.to_string(), "VaultKB:/a.md");
    assert_eq!(results[0].size, Some(12));
    assert_eq!(results[0].modified_at, 5);
    assert_eq!(results[1].path.to_string(), "VaultKB:/docs");
    assert_eq!(results[1].size, None);
}

#[test]
fn find_results_report_the_first_failure() {
    let mut engine = PolicyEngine::new(PolicyCache::new());
    let mount = mount_with(MountPolicy::default());
    let unreadable = find_results(
        &mut engine,
        &mount,
        "/data/vault",
        vec![
            found("a.md", Some("/data/vault/a.md"), Err("permission denied".to_owned())),
            found("/abs.md", Some("/abs.md"), Ok(EntryMeta { is_file: true, len: 1, modified_at: 0 })),
        ],
    );
    assert!(matches!(unreadable, Err(ApiError::Internal(ref m)) if m == "permission denied"));
    let invalid = find_results(
        &mut engine,
        &mount,
        "/data/vault",
        vec![
            found("/abs.md", Some("/abs.md"), Ok(EntryMeta { is_file: true, len: 1, modified_at: 0 })),
            found("a.md", Some("/data/vault/a.md"), Err("permission denied".to_owned())),
        ],
    );
    assert!(matches!(invalid, Err(ApiError::InvalidPath(ref m)) if m == "invalid path"));
}

#[test]
fn tree_budget_cuts_the_walk_past_the_cap() {
    let mut budget = TreeBudget::new();
    assert!(!budget.truncated());
    assert!(budget.descends(true, 2));
    assert!(!budget.descends(false, 2));
    assert!(!budget.descends(true, 0));
    let mut visited = 0usize;
    while budget.visit() {
        visited += 1;
    }
    assert_eq!(visited, TREE_ENTRY_CAP);
    assert!(budget.truncated());
    assert!(!budget.descends(true, 5));
    assert_eq!(child_depth(3), 2);
    assert_eq!(child_depth(0), 0);
}

#[test]
fn tree_nodes_and_root_names() {
    let cut = cut_node("deep".to_owned());
    assert_eq!(cut.kind, FsEntryKind::Dir);
    assert_eq!(cut.modified_at, None);
    let file = tree_node("a.md".to_owned(), false, true, 7, 11);
    assert_eq!(file.kind, FsEntryKind::File);
    assert_eq!(file.size, Some(7));
    assert_eq!(file.modified_at, Some(11));
    assert_eq!(tree_root_name(&RelativePath::root()), "");
    assert_eq!(tree_root_name(&rel("notes/daily")), "daily");
}

#[test]
fn create_returns_conflict_for_duplicate_name() {
    let mut cache = PolicyCache::new();
    let mount = mount_with(MountPolicy::default());
    assert_eq!(
        finish_mount_create(&mut cache, &mount.name, StatementOutcome::UniqueViolation("UNIQUE constraint failed".to_owned())),
        Err(DbError::Conflict)
    );
    assert_eq!(
        finish_mount_create(&mut cache, &mount.name, StatementOutcome::Failed("disk I/O error".to_owned())),
        Err(DbError::Query("disk I/O error".to_owned()))
    );
    assert_eq!(finish_mount_create(&mut cache, &mount.name, StatementOutcome::Done { rows_affected: 1 }), Ok(()));
}

#[test]
fn update_returns_not_found_for_missing_mount() {
    let mut cache = PolicyCache::new();
    let mount = mount_with(MountPolicy::default());
    assert_eq!(
        finish_mount_change(&mut cache, &mount.name, StatementOutcome::Done { rows_affected: 0 }),
        Err(DbError::NotFound)
    );
    assert_eq!(
        finish_mount_change(&mut cache, &mount.name, StatementOutcome::UniqueViolation("dup".to_owned())),
        Err(DbError::Query("dup".to_owned()))
    );
}

#[test]
fn successful_writes_forget_the_compiled_policy() {
    let mut cache = PolicyCache::new();
    let before = mount_with(MountPolicy { hide_globs: vec!["a/*".to_owned()], ..MountPolicy::default() });
    let after = mount_with(MountPolicy { hide_globs: vec!["b/*".to_owned()], ..MountPolicy::default() });
    cache.get_or_compile(&before);
    assert_eq!(
        finish_mount_change(&mut cache, &after.name, StatementOutcome::Done { rows_affected: 0 }),
        Err(DbError::NotFound)
    );
    assert_eq!(cache.get_or_compile(&after).policy, before.policy);
    assert_eq!(finish_mount_change(&mut cache, &after.name, StatementOutcome::Done { rows_affected: 1 }), Ok(()));
    assert_eq!(cache.get_or_compile(&after).policy, after.policy);
    cache.get_or_compile(&before);
    assert_eq!(finish_mount_save(&mut cache, &after.name, StatementOutcome::Done { rows_affected: 1 }), Ok(()));
    assert_eq!(cache.get_or_compile(&after).policy, after.policy);
}

#[test]
fn token_statements_map_failures() {
    assert_eq!(finish_token_write(StatementOutcome::Done { rows_affected: 1 }), Ok(()));
    assert_eq!(
        finish_token_write(StatementOutcome::Failed("locked".to_owned())),
        Err(DbError::Query("locked".to_owned()))
    );
    assert_eq!(finish_token_delete(StatementOutcome::Done { rows_affected: 0 }), Err(DbError::NotFound));
    assert_eq!(finish_token_delete(StatementOutcome::Done { rows_affected: 1 }), Ok(()));
}

#[test]
fn operations_check_their_targets() {
    assert_eq!(require_directory(DirectoryOperation::Ls, true), Ok(()));
    assert_eq!(
        require_directory(DirectoryOperation::Ls, false),
        Err(ApiError::InvalidPath("ls requires a directory".to_owned()))
    );
    assert_eq!(
        require_directory(DirectoryOperation::Tree, false),
        Err(ApiError::InvalidPath("tree requires a directory".to_owned()))
    );
    assert_eq!(
        require_file(FileOperation::Read, false),
        Err(ApiError::InvalidPath("read requires a file".to_owned()))
    );
    assert_eq!(
        require_file(FileOperation::Copy, false),
        Err(ApiError::InvalidPath("cp requires a file source".to_owned()))
    );
    assert_eq!(require_file(FileOperation::Copy, true), Ok(()));
}

#[test]
fn rm_non_empty_dir_without_recursive_conflicts() {
    assert_eq!(removal_for(false, true), Removal::File);
    assert_eq!(removal_for(true, true), Removal::DirectoryTree);
    let plan = removal_for(true, false);
    assert_eq!(plan, Removal::EmptyDirectory);
    assert_eq!(
        removal_failure(plan, true, "Directory not empty (os error 39)".to_owned()),
        ApiError::Conflict("directory not empty; use recursive=true".to_owned())
    );
    assert_eq!(
        removal_failure(Removal::DirectoryTree, true, "busy".to_owned()),
        ApiError::Internal("busy".to_owned())
    );
}

fn scopes(items: &[&str]) -> ScopeSet {
    let mut set = ScopeSet::default();
    for item in items {
        set.insert(Scope::from_str(item).expect("valid scope"));
    }
    set
}

#[test]
fn issued_tokens_carry_the_request() {
    let request = CreateTokenRequest { name: "agent".to_owned(), scopes: scopes(&["fs:VaultKB:read"]), expires_at: Some(99) };
    let (token, created) = issue_token(request, 10).expect("token issues");
    assert!(created.token.starts_with("memo_"));
    assert_eq!(created.token.len(), 37);
    assert!(verify_token_hash(&created.token, &token.hash));
    assert_eq!(token.name, "agent");
    assert_eq!(token.created_at, 10);
    assert_eq!(token.expires_at, Expiry::At(99));
    assert_eq!(token.last_used_at, None);
    assert_eq!(created.id, token.id);
    assert_eq!(created.scopes, token.scopes);
}

#[test]
fn issued_token_refusals() {
    let blank = CreateTokenRequest { name: "  ".to_owned(), scopes: scopes(&["meta:*:read"]), expires_at: None };
    assert_eq!(
        issued_token(blank, TokenId::from_u128(1), 0, "memo_x".to_owned(), Ok("hash".to_owned())).map(|_| ()),
        Err(DbError::Query("token name cannot be empty".to_owned()))
    );
    let empty = CreateTokenRequest { name: "a".to_owned(), scopes: ScopeSet::default(), expires_at: None };
    assert_eq!(
        issued_token(empty, TokenId::from_u128(1), 0, "memo_x".to_owned(), Ok("hash".to_owned())).map(|_| ()),
        Err(DbError::Query("token must have at least one scope".to_owned()))
    );
    let failed = CreateTokenRequest { name: "a".to_owned(), scopes: scopes(&["meta:*:read"]), expires_at: None };
    assert_eq!(
        issued_token(failed, TokenId::from_u128(1), 0, "memo_x".to_owned(), Err(DbError::Query("salt".to_owned()))).map(|_| ()),
        Err(DbError::Query("salt".to_owned()))
    );
    let no_scopes = CreateTokenRequest { name: "a".to_owned(), scopes: ScopeSet::default(), expires_at: None };
    assert!(issue_token(no_scopes, 0).is_err());
}

#[test]
fn bootstrap_only_issues_the_first_token() {
    assert!(bootstrap_request(1).is_none());
    let request = bootstrap_request(0).expect("first start issues a token");
    assert_eq!(request.name, "bootstrap-admin");
    assert_eq!(request.expires_at, None);
    assert_eq!(request.scopes, scopes(&["admin:*:*", "admin:*:mounts", "admin:*:tokens", "meta:*:read", "fs:*:read", "fs:*:write"]));
}

#[test]
fn find_steps_stop_at_the_cap() {
    let matcher = GlobPattern::new("*.md").expect("valid glob").matcher().expect("glob compiles");
    let mut hits: Vec<FindHit> = Vec::new();
    assert!(find_step(&matcher, "notes/a.md", "a.md", &mut hits, 2));
    assert!(find_step(&matcher, "notes/b.txt", "b.txt", &mut hits, 2));
    assert!(!find_step(&matcher, "c.md", "c.md", &mut hits, 2));
    assert!(!find_step(&matcher, "d.md", "d.md", &mut hits, 2));
    let paths: Vec<&str> = hits.iter().map(|h| h.relative_path.as_str()).collect();
    assert_eq!(paths, vec!["notes/a.md", "c.md"]);
}

#[test]
fn glob_sets_match_when_one_pattern_does() {
    let mut list = GlobList::new();
    list.add(GlobPattern::new("**/*.secret").expect("valid glob"));
    list.add(GlobPattern::new("private/*").expect("valid glob"));
    let set = list.build().expect("set builds");
    assert!(set.is_match("a/b/key.secret"));
    assert!(set.is_match("private/x"));
    assert!(!set.is_match("public/x"));
    assert!(GlobPattern::new("[").is_err());
}

#[test]
fn a_walk_goes_no_deeper_than_its_depth() {
    let mut depth: u8 = 3;
    let mut levels = 0;
    let budget = TreeBudget::new();
    while budget.descends(true, depth) {
        depth = child_depth(depth);
        levels += 1;
    }
    assert_eq!(levels, 3);
    assert_eq!(child_depth(depth), 0);
}

#[test]
fn an_oversized_glob_is_refused_not_a_panic() {
    let huge = "[a-z]".repeat(500_000);
    assert!(GlobPattern::new(&huge).is_ok());
    let outcome = find_name_matches(&huge, "a.md");
    assert!(matches!(outcome, Err(ref m) if !m.is_empty()));
}
