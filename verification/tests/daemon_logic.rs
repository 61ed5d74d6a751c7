use memo::audit::{
    denial_reason_code, filter_entries, needs_rotation, record_for_event, rotate_path,
    scan_next_id, AuditEntry, AuditQuery, AuditRecord, AuditResult, AuditService,
};
use memo::auth::{
    bootstrap_scopes, extract_bearer_token, generate_token_value, hash_token,
    hash_token_with_salt, require_token_admin_scope, require_token_list_scope,
    token_has_any_scope, verify_token_hash, verify_token_rows,
};
use memo::db::{
    audience_from_db, audience_to_db, mount_mode_from_db, mount_mode_to_db, validate_db_config,
    DbConfig,
};
use memo::errors::{ApiError, AuthError, DbError, PolicyError};
use memo::events::{DenialReason, DomainEvent};
use memo::fsops::{
    find_name_matches, grep_text, FsEntryKind, GrepHit, LinePattern, TreeNode,
    check_same_mount, effective_tree_depth, file_name_of, lines_of, mime_from_path,
    mount_load_error, parse_frontmatter_summary, require_fs_read_scope, require_fs_write_scope,
    to_relative_path, trim_quotes, trim_whitespace,
};
use memo::listing::{
    list_entries, sort_nodes_by_name, summary_source, tree_child_admitted, EntrySnapshot,
};
use memo::mount::{Audience, Mount, MountMode, MountName, MountPolicy};
use memo::path::{MountPath, RelativePath};
use memo::policy::{
    components_of, normalize, path_has_prefix, segments_of, CompiledMount, PolicyCache,
    PolicyEngine,
};
use memo::registry::{
    apply_update, build_mount, parse_mount_name, require_mount_admin_scope,
    require_mount_read_scope, CreateMountRequest, UpdateMountRequest,
};
use memo::rows::{
    map_row_to_token, mount_to_row, parse_datetime, parse_json_array, parse_scopes,
    parse_token_id, row_to_mount, serialize_datetime, serialize_json_array, serialize_scopes,
    token_id_text, token_to_row, TokenRow,
};
use memo::scope::{AdminScope, MetaScope, Scope, ScopeSet};
use memo::token::{Expiry, Token, TokenId};

fn vault() -> MountName {
    MountName::new("VaultKB").expect("valid mount name")
}

fn rel(path: &str) -> RelativePath {
    RelativePath::new(path).expect("valid path")
}

fn mount_with(policy: MountPolicy) -> Mount {
    Mount::new(
        vault(),
        "/data/vault".to_owned(),
        MountMode::ReadWrite,
        Audience::Shared,
        None,
        policy,
        0,
    )
    .expect("mount should build")
}

fn token_with(scopes: &[&str]) -> Token {
    let parsed = scopes.iter().map(|s| Scope::from_str(s).expect("scope should parse")).collect();
    Token::new(
        TokenId::from_u128(1),
        "agent".to_owned(),
        "$argon2id$v=19$m=19456,t=2,p=1$abc$xyz".to_owned(),
        ScopeSet::new(parsed),
        0,
        Expiry::Never,
    )
    .expect("token should build")
}

#[test]
fn mount_mode_db_mapping_round_trip() {
    assert_eq!(mount_mode_to_db(&MountMode::ReadOnly), "ro");
    assert_eq!(mount_mode_to_db(&MountMode::ReadWrite), "rw");
    assert_eq!(mount_mode_from_db("ro").expect("mode should read"), MountMode::ReadOnly);
    assert_eq!(mount_mode_from_db("rw").expect("mode should read"), MountMode::ReadWrite);
    assert!(mount_mode_from_db("read_only").is_err());
}

#[test]
fn audience_db_mapping_round_trip() {
    assert_eq!(audience_to_db(&Audience::Shared), "shared");
    assert_eq!(audience_to_db(&Audience::AgentOnly), "agent-only");
    assert_eq!(audience_to_db(&Audience::HumanOnly), "human-only");
    assert_eq!(audience_from_db("shared").expect("audience should read"), Audience::Shared);
    assert_eq!(audience_from_db("agent-only").expect("audience should read"), Audience::AgentOnly);
    assert_eq!(audience_from_db("human-only").expect("audience should read"), Audience::HumanOnly);
    assert!(audience_from_db("agent_only").is_err());
}

#[test]
fn stored_values_error_names_the_value() {
    assert_eq!(mount_mode_from_db("x"), Err(DbError::Query("invalid mount mode: x".to_owned())));
    assert_eq!(audience_from_db("y"), Err(DbError::Query("invalid audience: y".to_owned())));
}

#[test]
fn rejects_invalid_database_url() {
    let config = DbConfig::new("not-a-sqlite-url".to_owned());
    assert_eq!(
        validate_db_config(&config),
        Err(DbError::Connection("database_url must start with sqlite:".to_owned()))
    );
}

#[test]
fn rejects_invalid_pool_bounds() {
    let mut config = DbConfig::new("sqlite:///tmp/memo.db".to_owned());
    config.min_connections = 2;
    config.max_connections = 1;
    assert_eq!(
        validate_db_config(&config),
        Err(DbError::Connection("min_connections must be <= max_connections".to_owned()))
    );
    assert_eq!(validate_db_config(&DbConfig::default()), Ok(()));
    assert_eq!(DbConfig::default().database_url, "sqlite://memo.db");
}

#[test]
fn denial_reason_codes_cover_all_variants() {
    assert_eq!(denial_reason_code(&DenialReason::AuthRequired), "auth_required");
    assert_eq!(denial_reason_code(&DenialReason::TokenInvalid), "token_invalid");
    assert_eq!(denial_reason_code(&DenialReason::TokenExpired), "token_expired");
    assert_eq!(denial_reason_code(&DenialReason::MissingScope), "missing_scope");
    assert_eq!(denial_reason_code(&DenialReason::PolicyViolation), "policy_violated");
    assert_eq!(denial_reason_code(&DenialReason::InvalidPath), "invalid_path");
    assert_eq!(denial_reason_code(&DenialReason::OutOfBounds), "out_of_bounds");
    assert_eq!(denial_reason_code(&DenialReason::SymlinkDenied), "symlink_denied");
    assert_eq!(denial_reason_code(&DenialReason::MountNotFound), "mount_not_found");
    assert_eq!(denial_reason_code(&DenialReason::NotFound), "not_found");
    assert_eq!(denial_reason_code(&DenialReason::Other), "internal");
}

fn entries_from(service: &mut AuditService, records: Vec<AuditRecord>) -> Vec<AuditEntry> {
    let mut out = Vec::new();
    for (i, record) in records.into_iter().enumerate() {
        out.push(service.next_entry(record, 1_000 * (i as i128 + 1)));
    }
    out
}

#[test]
fn append_and_query_filters() {
    let mut service = AuditService::new("/tmp/audit.log".to_owned(), 1);
    let entries = entries_from(
        &mut service,
        vec![
            AuditRecord::ok("file_read".to_owned(), None, Some(vault()), Some("notes/a.md".to_owned())),
            AuditRecord::error(
                "file_read".to_owned(),
                None,
                Some(vault()),
                Some("notes/b.md".to_owned()),
                "not_found".to_owned(),
            ),
        ],
    );
    let filtered = filter_entries(
        entries,
        &AuditQuery {
            mount: Some(vault()),
            operation: Some("file_read".to_owned()),
            result: Some(AuditResult::Error),
            ..AuditQuery::default()
        },
    );
    assert_eq!(filtered.len(), 1);
    assert_eq!(filtered[0].result, AuditResult::Error);
    assert_eq!(filtered[0].error_code.as_deref(), Some("not_found"));
}

#[test]
fn query_supports_time_and_id_filters() {
    let mut service = AuditService::new("/tmp/audit.log".to_owned(), 1);
    let records = ["first", "second", "third"]
        .iter()
        .map(|op| AuditRecord::ok((*op).to_owned(), None, Some(vault()), None))
        .collect();
    let entries = entries_from(&mut service, records);
    let (first_id, second_id, third_id) = (entries[0].id, entries[1].id, entries[2].id);
    let (first_ts, third_ts) = (entries[0].timestamp, entries[2].timestamp);

    let reversed: Vec<AuditEntry> = entries.into_iter().rev().collect();
    let after_id =
        filter_entries(clone_entries(&reversed), &AuditQuery { after_id: Some(first_id), ..AuditQuery::default() });
    assert_eq!(after_id.len(), 2);
    assert_eq!(after_id[0].id, second_id);

    let before =
        filter_entries(clone_entries(&reversed), &AuditQuery { before: Some(third_ts), ..AuditQuery::default() });
    assert_eq!(before.iter().map(|e| e.id).collect::<Vec<_>>(), vec![first_id, second_id]);

    let after =
        filter_entries(clone_entries(&reversed), &AuditQuery { after: Some(first_ts), ..AuditQuery::default() });
    assert_eq!(after.iter().map(|e| e.id).collect::<Vec<_>>(), vec![second_id, third_id]);

    let limited = filter_entries(reversed, &AuditQuery { limit: Some(2), ..AuditQuery::default() });
    assert_eq!(limited.iter().map(|e| e.id).collect::<Vec<_>>(), vec![second_id, third_id]);
}

fn clone_entries(entries: &[AuditEntry]) -> Vec<AuditEntry> {
    entries
        .iter()
        .map(|e| AuditEntry {
            id: e.id,
            timestamp: e.timestamp,
            token_id: e.token_id,
            operation: e.operation.clone(),
            mount: e.mount.as_ref().map(|m| m.clone()),
            path: e.path.clone(),
            result: e.result,
            error_code: e.error_code.clone(),
        })
        .collect()
}

#[test]
fn domain_events_map_to_audit_operations() {
    let token_id = TokenId::from_u128(42);
    let path = rel("notes/a.md");
    let events = vec![
        DomainEvent::FileRead { token_id, mount: vault(), path: path.clone(), bytes: 3 },
        DomainEvent::FileWritten { token_id, mount: vault(), path: path.clone(), bytes: 4 },
        DomainEvent::DirListed { token_id, mount: vault(), path: RelativePath::root() },
        DomainEvent::MountRegistered { name: vault(), mode: MountMode::ReadWrite },
        DomainEvent::MountUpdated { name: vault() },
        DomainEvent::MountRemoved { name: vault() },
        DomainEvent::TokenCreated { id: token_id, name: "agent".to_owned() },
        DomainEvent::TokenRevoked { id: token_id },
        DomainEvent::AccessDenied {
            token_id: Some(token_id),
            reason: DenialReason::MissingScope,
            mount: Some(vault()),
        },
    ];
    let operations: Vec<String> = events.into_iter().map(|e| record_for_event(e).operation).collect();
    for expected in [
        "file_read",
        "file_written",
        "dir_listed",
        "mount_registered",
        "mount_updated",
        "mount_removed",
        "token_created",
        "token_revoked",
        "access_denied",
    ] {
        assert!(operations.iter().any(|op| op == expected), "missing {expected}");
    }
    let denied = record_for_event(DomainEvent::AccessDenied {
        token_id: None,
        reason: DenialReason::OutOfBounds,
        mount: None,
    });
    assert_eq!(denied.result, AuditResult::Error);
    assert_eq!(denied.error_code.as_deref(), Some("out_of_bounds"));
}

#[test]
fn audit_identities_and_rotation() {
    assert_eq!(scan_next_id(&vec![]), 1);
    assert_eq!(scan_next_id(&vec![3, 9, 4]), 10);
    assert_eq!(scan_next_id(&vec![u64::MAX]), u64::MAX);
    let mut service = AuditService::new("/var/log/memo/audit.log".to_owned(), u64::MAX);
    let entry = service.next_entry(AuditRecord::ok("x".to_owned(), None, None, None), 5);
    assert_eq!(entry.id, u64::MAX);
    assert_eq!(entry.timestamp, 5);
    let next = service.next_entry(AuditRecord::ok("y".to_owned(), None, None, None), 6);
    assert_eq!(next.id, 0);
    service.restart_ids();
    assert_eq!(service.next_entry(AuditRecord::ok("z".to_owned(), None, None, None), 7).id, 1);
    assert!(needs_rotation(3, 2));
    assert!(!needs_rotation(2, 2));
    assert_eq!(rotate_path("/var/log/memo/audit.log"), "/var/log/memo/audit.log.1");
    assert_eq!(service.log_path(), "/var/log/memo/audit.log");
}

#[test]
fn parses_frontmatter_summary() {
    let text = "---\nsummary: test value\n---\nbody";
    assert_eq!(parse_frontmatter_summary(text).as_deref(), Some("test value"));
}

#[test]
fn frontmatter_summary_edge_cases() {
    assert_eq!(
        parse_frontmatter_summary("---\r\ntitle: x\r\nsummary:  \"quoted\" \r\n---\r\n").as_deref(),
        Some("quoted")
    );
    assert_eq!(parse_frontmatter_summary("---\n---\nsummary: late").as_deref(), None);
    assert_eq!(parse_frontmatter_summary("summary: no fence").as_deref(), None);
    assert_eq!(parse_frontmatter_summary("").as_deref(), None);
    assert_eq!(lines_of("a\r\nb\n\nc\r"), vec!["a", "b", "", "c\r"]);
    assert_eq!(lines_of("a\n"), vec!["a"]);
    assert_eq!(trim_whitespace("\t x y \n"), "x y");
    assert_eq!(trim_quotes("\"\"q\"\""), "q");
}

#[test]
fn media_types_follow_extension() {
    assert_eq!(mime_from_path("/data/vault/notes/a.md"), "text/markdown; charset=utf-8");
    assert_eq!(mime_from_path("x.txt"), "text/plain; charset=utf-8");
    assert_eq!(mime_from_path("x.json"), "application/json");
    assert_eq!(mime_from_path("x.html"), "text/html; charset=utf-8");
    assert_eq!(mime_from_path("x.csv"), "text/csv; charset=utf-8");
    assert_eq!(mime_from_path("/data/.md"), "application/octet-stream");
    assert_eq!(mime_from_path("archive.tar.gz"), "application/octet-stream");
    assert_eq!(mime_from_path("README"), "application/octet-stream");
    assert_eq!(file_name_of("/a/b/"), Some("b".to_owned()));
    assert_eq!(file_name_of("/a/.."), None);
    assert_eq!(file_name_of("/"), None);
}

#[test]
fn relative_paths_under_the_root() {
    let inside = to_relative_path("/data/vault", "/data/vault/notes//a.md").expect("inside root");
    assert_eq!(inside.as_str(), "notes/a.md");
    assert!(to_relative_path("/data/vault", "/data/vault").expect("root itself").is_root());
    assert!(to_relative_path("/data/vault", "/data/other/a.md").is_none());
    assert!(to_relative_path("/data/vault", "/data/vaultx/a.md").is_none());
}

#[test]
fn fs_scope_helpers_match_expected_scopes() {
    let read_token = token_with(&["fs:*:read"]);
    let write_token = token_with(&["fs:VaultKB:write"]);
    assert!(require_fs_read_scope(&read_token, &vault()));
    assert!(!require_fs_write_scope(&read_token, &vault()));
    assert!(require_fs_write_scope(&write_token, &vault()));
}

#[test]
fn fs_request_helpers() {
    assert_eq!(effective_tree_depth(None), 3);
    assert_eq!(effective_tree_depth(Some(25)), 10);
    assert_eq!(effective_tree_depth(Some(2)), 2);
    assert_eq!(mount_load_error(DbError::NotFound, &vault()), ApiError::MountNotFound("VaultKB".to_owned()));
    assert_eq!(mount_load_error(DbError::Query("boom".to_owned()), &vault()), ApiError::Internal("boom".to_owned()));
    let a = MountPath::parse("VaultKB:/a.md").expect("valid");
    let b = MountPath::parse("Other:/b.md").expect("valid");
    assert!(check_same_mount(&a, &a).is_ok());
    assert!(matches!(check_same_mount(&a, &b), Err(ApiError::InvalidPath(_))));
}

#[test]
fn path_components_follow_unix_rules() {
    assert_eq!(components_of("/a//b/./c/"), vec!["/", "a", "b", "c"]);
    assert_eq!(components_of("./a/../b"), vec![".", "a", "..", "b"]);
    assert_eq!(segments_of("a/./b//"), vec!["a", "b"]);
    let cs = components_of("/a/b/../../../c");
    assert_eq!(normalize(&cs), vec!["/", "c"]);
    assert!(path_has_prefix("/data/vault/a", "/data/vault/"));
    assert!(!path_has_prefix("/data/vaultx", "/data/vault"));
}

#[test]
fn read_path_checks_bounds_links_and_rules() {
    let mut engine = PolicyEngine::new(PolicyCache::new());
    let mount = mount_with(MountPolicy {
        hide_globs: vec!["notes/private.md".to_owned()],
        max_read_bytes: Some(4),
        ..MountPolicy::default()
    });
    let ok = engine.resolve_read_path(
        &mount,
        &rel("notes/a.md"),
        "/data/vault",
        Some("/data/vault/notes/a.md".to_owned()),
        Some(4),
    );
    assert_eq!(ok, Ok("/data/vault/notes/a.md".to_owned()));
    let too_large = engine.resolve_read_path(
        &mount,
        &rel("notes/a.md"),
        "/data/vault",
        Some("/data/vault/notes/a.md".to_owned()),
        Some(5),
    );
    assert_eq!(too_large, Err(PolicyError::TooLarge { limit: 4, actual: 5 }));
    let escape = engine.resolve_read_path(
        &mount,
        &rel("linked/secret.txt"),
        "/data/vault",
        Some("/data/outside/secret.txt".to_owned()),
        None,
    );
    assert_eq!(escape, Err(PolicyError::OutOfBounds));
    let inner_link = engine.resolve_read_path(
        &mount,
        &rel("alias/a.md"),
        "/data/vault",
        Some("/data/vault/notes/a.md".to_owned()),
        None,
    );
    assert_eq!(inner_link, Err(PolicyError::SymlinkDenied));
    let hidden = engine.resolve_read_path(
        &mount,
        &rel("notes/private.md"),
        "/data/vault",
        Some("/data/vault/notes/private.md".to_owned()),
        Some(1),
    );
    assert_eq!(hidden, Err(PolicyError::NotFound));
    let missing = engine.resolve_read_path(&mount, &rel("nope.md"), "/data/vault", None, None);
    assert_eq!(missing, Err(PolicyError::NotFound));
}

#[test]
fn write_path_checks_target() {
    let mut engine = PolicyEngine::new(PolicyCache::new());
    let mount = mount_with(MountPolicy {
        deny_write_globs: vec!["locked/*".to_owned()],
        max_write_bytes: Some(10),
        ..MountPolicy::default()
    });
    assert_eq!(
        engine.resolve_write_path(&mount, &RelativePath::root(), "/data/vault", Some("/data".to_owned()), 1),
        Err(PolicyError::InvalidPath)
    );
    assert_eq!(
        engine.resolve_write_path(&mount, &rel("notes/new.md"), "/data/vault", Some("/data/vault/notes".to_owned()), 3),
        Ok("/data/vault/notes/new.md".to_owned())
    );
    assert_eq!(
        engine.resolve_write_path(&mount, &rel("top.md"), "/data/vault", Some("/data/vault".to_owned()), 3),
        Ok("/data/vault/top.md".to_owned())
    );
    assert_eq!(
        engine.resolve_write_path(&mount, &rel("linked/new.md"), "/data/vault", Some("/data/outside".to_owned()), 1),
        Err(PolicyError::OutOfBounds)
    );
    assert_eq!(
        engine.resolve_write_path(&mount, &rel("alias/new.md"), "/data/vault", Some("/data/vault/notes".to_owned()), 1),
        Err(PolicyError::SymlinkDenied)
    );
    assert_eq!(
        engine.resolve_write_path(&mount, &rel("locked/a.md"), "/data/vault", Some("/data/vault/locked".to_owned()), 1),
        Err(PolicyError::PermissionDenied)
    );
    assert_eq!(
        engine.resolve_write_path(&mount, &rel("notes/big.md"), "/data/vault", Some("/data/vault/notes".to_owned()), 11),
        Err(PolicyError::TooLarge { limit: 10, actual: 11 })
    );
    assert_eq!(
        engine.resolve_write_path(&mount, &rel("notes/x.md"), "/data/vault", None, 1),
        Err(PolicyError::InvalidPath)
    );
}

#[test]
fn cache_is_invalidated_after_update() {
    let mut cache = PolicyCache::new();
    let before = mount_with(MountPolicy { hide_globs: vec!["a/*".to_owned()], ..MountPolicy::default() });
    let compiled_before = cache.get_or_compile(&before);
    assert!(compiled_before.policy.is_hidden(&rel("a/1.md")).expect("glob compiles"));
    assert!(!compiled_before.policy.is_hidden(&rel("b/1.md")).expect("glob compiles"));

    let after = mount_with(MountPolicy { hide_globs: vec!["b/*".to_owned()], ..MountPolicy::default() });
    let stale = cache.get_or_compile(&after);
    assert!(stale.policy.is_hidden(&rel("a/1.md")).expect("glob compiles"));

    cache.invalidate_mount(&after.name);
    let compiled_after = cache.get_or_compile(&after);
    assert!(!compiled_after.policy.is_hidden(&rel("a/1.md")).expect("glob compiles"));
    assert!(compiled_after.policy.is_hidden(&rel("b/1.md")).expect("glob compiles"));
    let fresh = CompiledMount::from_policy(&after.policy);
    assert_eq!(fresh.policy, after.policy);
}

#[test]
fn parse_mount_name_rejects_invalid_chars() {
    let parsed = parse_mount_name("bad name");
    assert!(matches!(parsed, Err(ApiError::InvalidPath(_))));
    assert_eq!(parse_mount_name("VaultKB").expect("valid").as_str(), "VaultKB");
}

#[test]
fn mount_scope_helpers_match_expected_scopes() {
    let admin_token = token_with(&["admin:*:mounts"]);
    let meta_reader = token_with(&["meta:*:read"]);
    let token_admin_all = token_with(&["admin:*:*"]);
    assert!(require_mount_admin_scope(&admin_token));
    assert!(require_mount_read_scope(&admin_token));
    assert!(!require_mount_admin_scope(&meta_reader));
    assert!(require_mount_read_scope(&meta_reader));
    assert!(require_mount_admin_scope(&token_admin_all));
    assert!(require_mount_read_scope(&token_admin_all));
}

#[test]
fn update_mount_preserves_unspecified_fields() {
    let current = build_mount(
        CreateMountRequest {
            name: vault(),
            root_path: "/tmp/vault".to_owned(),
            mode: MountMode::ReadWrite,
            audience: Audience::Shared,
            description: Some("original".to_owned()),
            hide_globs: vec!["hidden/*".to_owned()],
            deny_read_globs: vec!["private/*".to_owned()],
            deny_write_globs: vec!["blocked/*".to_owned()],
            max_read_bytes: Some(100),
            max_write_bytes: Some(50),
        },
        10,
    )
    .expect("mount should build");
    let updated = apply_update(
        current,
        UpdateMountRequest {
            mode: Some(MountMode::ReadOnly),
            description: Some("updated".to_owned()),
            ..UpdateMountRequest::default()
        },
        20,
    );
    assert_eq!(updated.mode, MountMode::ReadOnly);
    assert_eq!(updated.description.as_deref(), Some("updated"));
    assert_eq!(updated.audience, Audience::Shared);
    assert_eq!(updated.policy.hide_globs, vec!["hidden/*".to_owned()]);
    assert_eq!(updated.policy.deny_read_globs, vec!["private/*".to_owned()]);
    assert_eq!(updated.policy.deny_write_globs, vec!["blocked/*".to_owned()]);
    assert_eq!(updated.policy.max_read_bytes, Some(100));
    assert_eq!(updated.policy.max_write_bytes, Some(50));
    assert_eq!(updated.created_at, 10);
    assert_eq!(updated.updated_at, 20);
}

#[test]
fn create_mount_requires_absolute_root() {
    let result = build_mount(
        CreateMountRequest {
            name: vault(),
            root_path: "vault".to_owned(),
            mode: MountMode::ReadWrite,
            audience: Audience::Shared,
            description: None,
            hide_globs: vec![],
            deny_read_globs: vec![],
            deny_write_globs: vec![],
            max_read_bytes: None,
            max_write_bytes: None,
        },
        0,
    );
    assert!(matches!(result, Err(DbError::Query(m)) if m == "invalid path"));
}

#[test]
fn hash_verify_round_trip() {
    let raw = "memo_test_token";
    let hash = hash_token(raw).expect("hash should succeed");
    assert!(hash.starts_with("$argon2id$v=19$m=19456,t=2,p=1$"));
    assert!(verify_token_hash(raw, &hash));
    assert!(!verify_token_hash("memo_wrong_token", &hash));
    assert!(!verify_token_hash(raw, "not a hash"));
}

#[test]
fn salted_hash_records_the_salt() {
    let salted = hash_token_with_salt("memo_x", &[0u8; 16]).expect("hash should succeed");
    assert!(salted.starts_with("$argon2id$v=19$m=19456,t=2,p=1$AAAAAAAAAAAAAAAAAAAAAA$"));
}

#[test]
fn generated_tokens_have_the_issued_form() {
    let a = generate_token_value();
    let b = generate_token_value();
    assert_eq!(a.len(), 37);
    assert!(a.starts_with("memo_"));
    assert!(a[5..].chars().all(|c| c.is_ascii_alphanumeric()));
    assert_ne!(a, b);
}

#[test]
fn extracts_bearer_token() {
    assert_eq!(extract_bearer_token(Some("Bearer memo_abc")), Ok("memo_abc".to_owned()));
    assert_eq!(extract_bearer_token(Some("bearer memo_abc")), Ok("memo_abc".to_owned()));
    assert_eq!(extract_bearer_token(Some("Bearer   ")), Err(AuthError::AuthRequired));
    assert_eq!(extract_bearer_token(Some("Basic abc")), Err(AuthError::AuthRequired));
    assert_eq!(extract_bearer_token(None), Err(AuthError::AuthRequired));
}

#[test]
fn token_scope_helpers() {
    let admin = token_with(&["admin:*:tokens"]);
    let reader = token_with(&["meta:*:read"]);
    let files = token_with(&["fs:*:read"]);
    assert!(require_token_admin_scope(&admin));
    assert!(require_token_list_scope(&admin));
    assert!(!require_token_admin_scope(&reader));
    assert!(require_token_list_scope(&reader));
    assert!(!require_token_list_scope(&files));
    assert!(token_has_any_scope(&files, &[Scope::Meta(MetaScope::Read), Scope::from_str("fs:VaultKB:read").expect("scope")]));
    assert!(!token_has_any_scope(&files, &[]));
    let scopes = bootstrap_scopes();
    assert_eq!(scopes.len(), 6);
    assert!(scopes.contains_required(&Scope::Admin(AdminScope::Tokens)));
}

fn stored_row(hash: &str, expires_at: Option<&str>) -> TokenRow {
    TokenRow {
        id: "67e55044-10b1-426f-9247-bb680e5fe0c8".to_owned(),
        name: "agent".to_owned(),
        hash: hash.to_owned(),
        scopes: "[\"fs:*:read\",\"meta:*:read\"]".to_owned(),
        created_at: "2026-02-19 12:00:00".to_owned(),
        expires_at: expires_at.map(|s| s.to_owned()),
        last_used_at: None,
    }
}

#[test]
fn rejects_expired_token() {
    let hash = hash_token("memo_secret").expect("hash should succeed");
    let rows = vec![stored_row(&hash, Some("2026-02-19T12:05:00Z"))];
    let later = 1_771_502_700_000_000_000i128;
    assert_eq!(verify_token_rows(rows, "memo_secret", later).err(), Some(AuthError::TokenExpired));
}

#[test]
fn verifies_matching_token_row() {
    let secret = hash_token("memo_secret").expect("hash should succeed");
    let other = hash_token("memo_other").expect("hash should succeed");
    let rows = vec![stored_row(&other, None), stored_row(&secret, None)];
    let token = verify_token_rows(rows, "memo_secret", 0).expect("token should verify");
    assert_eq!(token.name, "agent");
    assert_eq!(token.expires_at, Expiry::Never);
    assert_eq!(token_id_text(token.id), "67e55044-10b1-426f-9247-bb680e5fe0c8");
    assert!(require_token_list_scope(&token));
    let none = verify_token_rows(vec![stored_row(&other, None)], "memo_secret", 0);
    assert_eq!(none.err(), Some(AuthError::TokenInvalid));
    let mut broken = stored_row(&secret, None);
    broken.id = "not-a-uuid".to_owned();
    assert_eq!(verify_token_rows(vec![broken], "memo_secret", 0).err(), Some(AuthError::TokenInvalid));
}

#[test]
fn stored_timestamps_and_identities() {
    assert_eq!(parse_datetime("1970-01-01T00:00:01Z"), Ok(1_000_000_000));
    assert_eq!(parse_datetime("1970-01-01 00:00:02"), Ok(2_000_000_000));
    assert!(matches!(parse_datetime("yesterday"), Err(DbError::Query(m)) if m.starts_with("invalid datetime yesterday: ")));
    assert_eq!(serialize_datetime(1_000_000_000).expect("formats"), "1970-01-01T00:00:01Z");
    let id = TokenId::from_u128(0x67e5504410b1426f9247bb680e5fe0c8);
    let text = token_id_text(id);
    assert_eq!(text, "67e55044-10b1-426f-9247-bb680e5fe0c8");
    assert_eq!(parse_token_id(&text), Ok(id));
    assert!(parse_token_id("xyz").is_err());
}

#[test]
fn stored_lists_and_scopes() {
    let items = parse_json_array("[\"a/*\",\"b\"]").expect("array reads");
    assert_eq!(items, vec!["a/*".to_owned(), "b".to_owned()]);
    assert_eq!(serialize_json_array(&items).expect("array writes"), "[\"a/*\",\"b\"]");
    assert!(parse_json_array("{").is_err());
    let scopes = parse_scopes("[\"meta:*:read\",\"admin:*:*\"]").expect("scopes read");
    assert_eq!(scopes.len(), 2);
    assert_eq!(
        parse_scopes("[\"broken\"]"),
        Err(DbError::Query("invalid scope format".to_owned()))
    );
    let text = serialize_scopes(&scopes).expect("scopes write");
    assert!(text.contains("meta:*:read") && text.contains("admin:*:*"));
}

#[test]
fn token_rows_round_trip() {
    let token = Token::new(
        TokenId::from_u128(5),
        "agent".to_owned(),
        "hash".to_owned(),
        ScopeSet::new(vec![Scope::from_str("fs:VaultKB:write").expect("scope")]),
        1_000_000_000,
        Expiry::At(2_000_000_000),
    )
    .expect("token builds")
    .mark_used(3_000_000_000);
    let row = token_to_row(&token).expect("row writes");
    assert_eq!(row.expires_at.as_deref(), Some("1970-01-01T00:00:02Z"));
    let back = map_row_to_token(row).expect("row reads");
    assert_eq!(back, token);
}

#[test]
fn mount_rows_round_trip() {
    let mount = mount_with(MountPolicy {
        hide_globs: vec!["**/.obsidian/**".to_owned()],
        max_read_bytes: Some(7),
        ..MountPolicy::default()
    });
    let row = mount_to_row(&mount).expect("row writes");
    assert_eq!(row.mode, "rw");
    assert_eq!(row.audience, "shared");
    assert_eq!(row.max_read_bytes, Some(7));
    let back = row_to_mount(row).expect("row reads");
    assert_eq!(back, mount);
}

fn snapshot(name: &str, is_dir: bool, len: u64) -> EntrySnapshot {
    let path = format!("/data/vault/{}", name);
    EntrySnapshot {
        name: name.to_owned(),
        path: path.clone(),
        canonical: Some(path),
        is_dir,
        is_file: !is_dir,
        len,
        modified_at: 7,
    }
}

#[test]
fn listing_hides_denied_entries_and_sorts_by_name() {
    let mut engine = PolicyEngine::new(PolicyCache::new());
    let mount = mount_with(MountPolicy {
        hide_globs: vec!["secret.md".to_owned()],
        ..MountPolicy::default()
    });
    let entries = list_entries(
        &mut engine,
        &mount,
        "/data/vault",
        vec![
            snapshot("zeta.md", false, 3),
            snapshot("secret.md", false, 1),
            snapshot("Alpha", true, 4096),
            snapshot("beta.md", false, 12),
        ],
    );
    let names: Vec<&str> = entries.iter().map(|e| e.name.as_str()).collect();
    assert_eq!(names, vec!["Alpha", "beta.md", "zeta.md"]);
    assert_eq!(entries[0].kind, FsEntryKind::Dir);
    assert_eq!(entries[0].size, None);
    assert_eq!(entries[1].kind, FsEntryKind::File);
    assert_eq!(entries[1].size, Some(12));
    assert_eq!(entries[2].modified_at, 7);
}

#[test]
fn listing_drops_entries_that_escape_the_root() {
    let mut engine = PolicyEngine::new(PolicyCache::new());
    let mount = mount_with(MountPolicy::default());
    let mut outside = snapshot("link.md", false, 2);
    outside.canonical = Some("/etc/passwd".to_owned());
    let entries = list_entries(&mut engine, &mount, "/data/vault", vec![outside, snapshot("a.md", false, 1)]);
    assert_eq!(entries.len(), 1);
    assert_eq!(entries[0].name, "a.md");
}

fn node(name: &str) -> TreeNode {
    TreeNode { name: name.to_owned(), kind: FsEntryKind::File, size: Some(1), modified_at: None, children: Vec::new() }
}

#[test]
fn tree_children_sort_by_name() {
    let sorted = sort_nodes_by_name(vec![node("b"), node("a"), node("c"), node("B")]);
    let names: Vec<&str> = sorted.iter().map(|n| n.name.as_str()).collect();
    assert_eq!(names, vec!["B", "a", "b", "c"]);
}

#[test]
fn summary_comes_from_index_files() {
    assert_eq!(summary_source("/data/vault/notes", true), Some("/data/vault/notes/index.md".to_owned()));
    assert_eq!(summary_source("/data/vault/notes/index.md", false), Some("/data/vault/notes/index.md".to_owned()));
    assert_eq!(summary_source("/data/vault/notes/a.md", false), None);
}

#[test]
fn grep_numbers_matching_lines_and_stops_at_the_cap() {
    let pattern = LinePattern::new("task", false).expect("valid expression");
    let mut hits: Vec<GrepHit> = Vec::new();
    grep_text(&pattern, "notes/a.md", "first\nTASK one\nnothing\ntask two\n", &mut hits, 10);
    assert_eq!(hits.len(), 2);
    assert_eq!(hits[0].line, 2);
    assert_eq!(hits[0].content, "TASK one");
    assert_eq!(hits[0].relative_path, "notes/a.md");
    assert_eq!(hits[1].line, 4);
    grep_text(&pattern, "notes/b.md", "task\ntask\ntask\n", &mut hits, 3);
    assert_eq!(hits.len(), 3);
    assert_eq!(hits[2].relative_path, "notes/b.md");
    assert_eq!(hits[2].line, 1);
}

#[test]
fn grep_honours_case_sensitivity_and_rejects_bad_patterns() {
    let pattern = LinePattern::new("Task", true).expect("valid expression");
    let mut hits: Vec<GrepHit> = Vec::new();
    grep_text(&pattern, "a.md", "task\nTask\n", &mut hits, 5);
    assert_eq!(hits.len(), 1);
    assert_eq!(hits[0].line, 2);
    assert!(LinePattern::new("(unclosed", true).is_err());
}

#[test]
fn find_matches_file_names_by_glob() {
    assert_eq!(find_name_matches("*.md", "a.md"), Ok(true));
    assert_eq!(find_name_matches("*.md", "a.txt"), Ok(false));
    assert!(find_name_matches("[", "a.md").is_err());
}

fn entry_with(id: u64, operation: &str) -> AuditEntry {
    AuditEntry {
        id,
        timestamp: 1,
        token_id: None,
        operation: operation.to_owned(),
        mount: None,
        path: None,
        result: AuditResult::Success,
        error_code: None,
    }
}

#[test]
fn query_keeps_file_order_among_equal_ids() {
    let entries = vec![entry_with(2, "a"), entry_with(1, "b"), entry_with(2, "c"), entry_with(1, "d")];
    let sorted = filter_entries(entries, &AuditQuery::default());
    let seen: Vec<(u64, &str)> = sorted.iter().map(|e| (e.id, e.operation.as_str())).collect();
    assert_eq!(seen, vec![(1, "b"), (1, "d"), (2, "a"), (2, "c")]);
}

#[test]
fn tree_walk_admits_only_visible_children() {
    let mut engine = PolicyEngine::new(PolicyCache::new());
    let mount = mount_with(MountPolicy {
        hide_globs: vec!["secret.md".to_owned()],
        ..MountPolicy::default()
    });
    assert!(tree_child_admitted(&mut engine, &mount, "/data/vault", &snapshot("a.md", false, 1)));
    assert!(tree_child_admitted(&mut engine, &mount, "/data/vault", &snapshot("notes", true, 4096)));
    assert!(!tree_child_admitted(&mut engine, &mount, "/data/vault", &snapshot("secret.md", false, 1)));
    let mut outside = snapshot("link.md", false, 2);
    outside.canonical = Some("/etc/passwd".to_owned());
    assert!(!tree_child_admitted(&mut engine, &mount, "/data/vault", &outside));
}
