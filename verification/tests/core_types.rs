use std::str::FromStr;

use memo::errors::{ApiError, AuthError, DbError, PolicyError};
use memo::hello_world;
use memo::mount::{Audience, Mount, MountMode, MountName, MountNameError, MountPolicy};
use memo::path::{MountPath, RelativePath};
use memo::scope::{AdminScope, FsAction, Scope, ScopeMount, ScopeParseError, ScopeSet};
use memo::token::{Expiry, Token, TokenError, TokenId};

#[test]
fn hello_world_returns_service_name() {
    assert_eq!(hello_world(), "memo");
}

#[test]
fn maps_policy_error_to_api_error() {
    let error: ApiError = PolicyError::OutOfBounds.into();
    assert_eq!(error.code(), "out_of_bounds");
}

#[test]
fn maps_db_error_to_api_error() {
    let error: ApiError = DbError::Conflict.into();
    assert_eq!(error.code(), "conflict");
}

#[test]
fn api_error_code_covers_variants() {
    let cases = [
        (ApiError::AuthRequired, "auth_required"),
        (ApiError::TokenInvalid, "token_invalid"),
        (ApiError::TokenExpired, "token_expired"),
        (ApiError::PermissionDenied, "permission_denied"),
        (ApiError::PolicyViolated("x".to_owned()), "policy_violated"),
        (ApiError::InvalidPath("x".to_owned()), "invalid_path"),
        (ApiError::OutOfBounds, "out_of_bounds"),
        (ApiError::SymlinkDenied, "symlink_denied"),
        (ApiError::NotFound("x".to_owned()), "not_found"),
        (ApiError::MountNotFound("x".to_owned()), "mount_not_found"),
        (ApiError::Conflict("x".to_owned()), "conflict"),
        (ApiError::TooLarge { limit: 1, actual: 2 }, "too_large"),
        (ApiError::Internal("x".to_owned()), "internal_error"),
    ];

    for (error, expected_code) in cases {
        assert_eq!(error.code(), expected_code);
    }
}

#[test]
fn maps_auth_error_to_api_error() {
    assert_eq!(ApiError::from(AuthError::AuthRequired), ApiError::AuthRequired);
    assert_eq!(ApiError::from(AuthError::TokenInvalid), ApiError::TokenInvalid);
    assert_eq!(ApiError::from(AuthError::TokenExpired), ApiError::TokenExpired);
    assert_eq!(ApiError::from(AuthError::PermissionDenied), ApiError::PermissionDenied);
}

#[test]
fn maps_policy_error_variants() {
    assert_eq!(
        ApiError::from(PolicyError::InvalidPath),
        ApiError::InvalidPath("invalid path".to_owned())
    );
    assert_eq!(
        ApiError::from(PolicyError::InvalidPolicy("bad glob".to_owned())),
        ApiError::Internal("invalid policy configuration: bad glob".to_owned())
    );
    assert_eq!(ApiError::from(PolicyError::SymlinkDenied), ApiError::SymlinkDenied);
    assert_eq!(
        ApiError::from(PolicyError::NotFound),
        ApiError::NotFound("path not found".to_owned())
    );
    assert_eq!(
        ApiError::from(PolicyError::PermissionDenied),
        ApiError::PolicyViolated("permission denied".to_owned())
    );
    assert_eq!(
        ApiError::from(PolicyError::TooLarge { limit: 8, actual: 9 }),
        ApiError::TooLarge { limit: 8, actual: 9 }
    );
}

#[test]
fn maps_db_error_variants() {
    assert_eq!(
        ApiError::from(DbError::NotFound),
        ApiError::NotFound("record not found".to_owned())
    );
    assert_eq!(ApiError::from(DbError::Query("q".to_owned())), ApiError::Internal("q".to_owned()));
    assert_eq!(
        ApiError::from(DbError::Connection("c".to_owned())),
        ApiError::Internal("c".to_owned())
    );
}

#[test]
fn error_messages_match_their_display_text() {
    assert_eq!(ApiError::TooLarge { limit: 8, actual: 1024 }.to_string(), "too large: 1024 > 8");
    assert_eq!(ApiError::NotFound("x".to_owned()).to_string(), "not found: x");
    assert_eq!(ApiError::AuthRequired.to_string(), "auth required");
    assert_eq!(
        PolicyError::TooLarge { limit: 0, actual: 10 }.to_string(),
        "file too large: 10 > 0"
    );
    assert_eq!(
        PolicyError::InvalidPolicy("[".to_owned()).to_string(),
        "invalid policy configuration: ["
    );
    assert_eq!(PolicyError::PermissionDenied.to_string(), "permission denied by policy");
}

#[test]
fn validates_mount_name() {
    assert!(MountName::new("VaultKB").is_ok());
    assert!(MountName::new("").is_err());
    assert!(MountName::new("with space").is_err());
}

#[test]
fn mount_name_errors_name_the_rule() {
    assert_eq!(MountName::new(""), Err(MountNameError::InvalidLength));
    assert_eq!(MountName::new(&"a".repeat(65)), Err(MountNameError::InvalidLength));
    assert!(MountName::new(&"a".repeat(64)).is_ok());
    assert_eq!(MountName::new("with space"), Err(MountNameError::InvalidCharacters));
    assert_eq!(MountNameError::InvalidLength.message(), "mount name must be 1..=64 characters");
}

#[test]
fn mount_name_formats_for_endpoint_segments() {
    let name = MountName::new("VaultKB").expect("mount should parse");
    assert_eq!(name.to_string(), "VaultKB");
}

#[test]
fn mount_policy_matches_globs() {
    let policy = MountPolicy { hide_globs: vec!["**/*.secret".to_owned()], ..MountPolicy::default() };

    let hidden = policy
        .is_hidden(&RelativePath::new("notes/a.secret").expect("valid path"))
        .expect("glob should compile");
    assert!(hidden);
}

#[test]
fn policy_reports_invalid_glob() {
    let policy = MountPolicy { deny_read_globs: vec!["[".to_owned()], ..MountPolicy::default() };
    let result = policy.check_read(&RelativePath::new("a.md").expect("valid path"), Some(1));
    assert_eq!(result, Err(PolicyError::InvalidPolicy("[".to_owned())));
}

#[test]
fn policy_size_limits_apply() {
    let policy = MountPolicy {
        max_read_bytes: Some(4),
        max_write_bytes: Some(2),
        ..MountPolicy::default()
    };
    let path = RelativePath::new("a.md").expect("valid path");
    assert_eq!(policy.check_read(&path, Some(5)), Err(PolicyError::TooLarge { limit: 4, actual: 5 }));
    assert_eq!(policy.check_read(&path, Some(4)), Ok(()));
    assert_eq!(policy.check_read(&path, None), Ok(()));
    assert_eq!(policy.check_write(&path, 3), Err(PolicyError::TooLarge { limit: 2, actual: 3 }));
}

fn sample_mount(mode: MountMode, policy: MountPolicy) -> Mount {
    Mount::new(
        MountName::new("VaultKB").expect("valid mount name"),
        "/tmp/vault".to_owned(),
        mode,
        Audience::Shared,
        None,
        policy,
        0,
    )
    .expect("mount should build")
}

#[test]
fn read_only_mount_rejects_write() {
    let mount = sample_mount(MountMode::ReadOnly, MountPolicy::default());
    let path = RelativePath::new("notes/a.md").expect("valid path");
    assert_eq!(mount.check_write(&path, 1), Err(PolicyError::PermissionDenied));
    assert_eq!(mount.check_read(&path, Some(1)), Ok(()));
}

#[test]
fn mount_requires_absolute_root() {
    let result = Mount::new(
        MountName::new("VaultKB").expect("valid mount name"),
        "relative/root".to_owned(),
        MountMode::ReadWrite,
        Audience::Shared,
        None,
        MountPolicy::default(),
        0,
    );
    assert_eq!(result, Err(PolicyError::InvalidPath));
}

#[test]
fn hidden_paths_read_as_missing_and_refuse_writes() {
    let mount = sample_mount(
        MountMode::ReadWrite,
        MountPolicy { hide_globs: vec!["private/*".to_owned()], ..MountPolicy::default() },
    );
    let path = RelativePath::new("private/a.md").expect("valid path");
    assert_eq!(mount.check_read(&path, None), Err(PolicyError::NotFound));
    assert_eq!(mount.check_write(&path, 1), Err(PolicyError::PermissionDenied));
}

#[test]
fn resolve_handles_root_and_nested() {
    let mount = sample_mount(MountMode::ReadWrite, MountPolicy::default());
    assert_eq!(mount.resolve(&RelativePath::root()), "/tmp/vault");
    assert_eq!(
        mount.resolve(&RelativePath::new("notes/a.md").expect("valid path")),
        "/tmp/vault/notes/a.md"
    );
}

#[test]
fn with_policy_updates_timestamp() {
    let mount = sample_mount(MountMode::ReadWrite, MountPolicy::default());
    let updated = mount.with_policy(
        MountPolicy { max_read_bytes: Some(10), ..MountPolicy::default() },
        60,
    );
    assert_eq!(updated.updated_at, 60);
    assert_eq!(updated.created_at, 0);
    assert_eq!(updated.policy.max_read_bytes, Some(10));
}

#[test]
fn accepts_valid_relative_paths() {
    assert!(RelativePath::new("notes/git.md").is_ok());
    assert!(RelativePath::new("./notes/./git.md").is_ok());
}

#[test]
fn relative_paths_are_normalised() {
    let path = RelativePath::new("./notes//./git.md/").expect("path should parse");
    assert_eq!(path.as_str(), "notes/git.md");
    let again = RelativePath::new(path.as_str()).expect("normal form should parse");
    assert_eq!(again, path);
}

#[test]
fn rejects_absolute_relative_path() {
    assert!(RelativePath::new("/etc/passwd").is_err());
}

#[test]
fn rejects_parent_segments() {
    assert!(RelativePath::new("../secret").is_err());
}

#[test]
fn rejects_null_bytes() {
    assert_eq!(RelativePath::new("notes/\0secret"), Err(PolicyError::InvalidPath));
}

#[test]
fn root_and_display_are_stable() {
    let root = RelativePath::root();
    assert!(root.is_root());
    assert_eq!(root.to_string(), "/");
    assert_eq!(RelativePath::new(".").expect("dot path should parse"), root);
    assert_eq!(
        RelativePath::from_str("notes/a.md").expect("from_str should parse").to_string(),
        "notes/a.md"
    );
}

#[test]
fn parses_mount_path() {
    let path = MountPath::parse("VaultKB:/notes/git.md").expect("mount path should parse");
    assert_eq!(path.mount().as_str(), "VaultKB");
    assert_eq!(path.relative().as_str(), "notes/git.md");
}

#[test]
fn parses_root_mount_path() {
    let path = MountPath::parse("VaultKB:/").expect("root mount path should parse");
    assert!(path.relative().is_root());
    assert_eq!(path.to_string(), "VaultKB:/");
}

#[test]
fn rejects_invalid_mount_path() {
    assert!(MountPath::parse("VaultKB:notes/git.md").is_err());
    assert!(MountPath::parse("VaultKB://etc/passwd").is_err());
}

#[test]
fn mount_path_from_str_matches_parse() {
    let parsed = MountPath::parse("VaultKB:/notes/git.md").expect("path should parse");
    let from_str = MountPath::from_str("VaultKB:/notes/git.md").expect("from_str should parse");
    assert_eq!(parsed, from_str);
}

#[test]
fn mount_path_display_parses_back() {
    let path = MountPath::new(
        MountName::new("Docs_2").expect("valid name"),
        RelativePath::new("a/b:c.md").expect("valid path"),
    );
    let text = path.to_string();
    assert_eq!(text, "Docs_2:/a/b:c.md");
    assert_eq!(MountPath::parse(&text).expect("display should parse"), path);
}

#[test]
fn traversal_corpus_structural_rejections() {
    let corpus = ["../secret", "..", "/etc/passwd", "notes/\0secret"];

    for candidate in corpus {
        assert!(RelativePath::new(candidate).is_err(), "expected path to fail: {candidate:?}");
    }
}

#[test]
fn parses_fs_scope() {
    let scope = Scope::from_str("fs:VaultKB:read").expect("scope should parse");
    assert_eq!(
        scope,
        Scope::Fs {
            mount: ScopeMount::Named(MountName::new("VaultKB").expect("mount name should parse")),
            action: FsAction::Read,
        }
    );
}

#[test]
fn scope_errors_are_reported() {
    assert_eq!(Scope::from_str("fs:VaultKB"), Err(ScopeParseError::InvalidFormat));
    assert_eq!(Scope::from_str("net:*:read"), Err(ScopeParseError::UnknownNamespace));
    assert_eq!(Scope::from_str("fs:*:delete"), Err(ScopeParseError::UnknownAction));
    assert_eq!(Scope::from_str("fs:bad name:read"), Err(ScopeParseError::InvalidMountName));
    assert_eq!(Scope::from_str("meta:x:read"), Err(ScopeParseError::InvalidFormat));
}

#[test]
fn scope_text_parses_back() {
    for text in ["fs:VaultKB:write", "fs:*:read", "meta:*:read", "admin:*:*", "admin:*:mounts"] {
        let scope = Scope::from_str(text).expect("scope should parse");
        assert_eq!(scope.to_string(), text);
        assert_eq!(Scope::from_str(&scope.to_string()).expect("text should parse"), scope);
    }
}

#[test]
fn wildcard_matches_required_fs_scope() {
    let granted = Scope::from_str("fs:*:read").expect("scope should parse");
    let required = Scope::from_str("fs:VaultKB:read").expect("scope should parse");
    assert!(granted.matches(&required));
}

#[test]
fn fs_read_does_not_match_write() {
    let granted = Scope::from_str("fs:*:read").expect("scope should parse");
    let required = Scope::from_str("fs:VaultKB:write").expect("scope should parse");
    assert!(!granted.matches(&required));
}

#[test]
fn admin_star_matches_admin_scope() {
    let granted = Scope::from_str("admin:*:*").expect("scope should parse");
    let required = Scope::from_str("admin:*:tokens").expect("scope should parse");
    assert!(granted.matches(&required));
}

#[test]
fn scope_set_checks_required_scope() {
    let scopes = ScopeSet::new(vec![
        Scope::from_str("fs:*:read").expect("scope should parse"),
        Scope::from_str("meta:*:read").expect("scope should parse"),
    ]);

    let required = Scope::from_str("fs:VaultKB:read").expect("scope should parse");
    assert!(scopes.contains_required(&required));
}

#[test]
fn scope_set_keeps_each_scope_once() {
    let mut scopes = ScopeSet::new(vec![
        Scope::from_str("meta:*:read").expect("scope should parse"),
        Scope::from_str("meta:*:read").expect("scope should parse"),
    ]);
    assert_eq!(scopes.len(), 1);
    scopes.insert(Scope::Admin(AdminScope::Tokens));
    scopes.insert(Scope::Admin(AdminScope::Tokens));
    assert_eq!(scopes.len(), 2);
    assert!(!scopes.is_empty());
    assert!(ScopeSet::empty().is_empty());
}

#[test]
fn token_validation_and_expiry() {
    let scopes = ScopeSet::new(vec![Scope::from_str("meta:*:read").expect("scope should parse")]);
    let token = Token::new(
        TokenId::from_u128(7),
        "agent".to_owned(),
        "$argon2id$v=19$m=19456,t=2,p=1$abc$xyz".to_owned(),
        scopes,
        0,
        Expiry::At(100),
    )
    .expect("token should build");
    assert!(!token.is_expired_at(99));
    assert!(token.is_expired_at(100));
    assert!(token.has_scope(&Scope::from_str("meta:*:read").expect("scope should parse")));
    assert!(!token.has_scope(&Scope::Admin(AdminScope::All)));

    let blank = Token::new(
        TokenId::from_u128(8),
        "  ".to_owned(),
        "h".to_owned(),
        ScopeSet::new(vec![Scope::Admin(AdminScope::All)]),
        0,
        Expiry::Never,
    );
    assert_eq!(blank, Err(TokenError::InvalidName));
    let empty = Token::new(
        TokenId::from_u128(9),
        "n".to_owned(),
        "h".to_owned(),
        ScopeSet::empty(),
        0,
        Expiry::Never,
    );
    assert_eq!(empty, Err(TokenError::EmptyScopes));
}

#[test]
fn fresh_token_id_is_a_version_four_uuid() {
    for _ in 0..64 {
        let bits = TokenId::new().as_u128();
        assert_eq!((bits >> 76) & 0xf, 4);
        assert_eq!((bits >> 62) & 0x3, 2);
    }
    assert_ne!(TokenId::new(), TokenId::new());
}

#[test]
fn parse_through_from_str_matches_the_constructors() {
    let rp: RelativePath = "notes/./a.md".parse().expect("relative path should parse");
    assert_eq!(rp.as_str(), RelativePath::new("notes/./a.md").unwrap().as_str());
    assert_eq!("/abs".parse::<RelativePath>().unwrap_err(), PolicyError::InvalidPath);

    let mp: MountPath = "VaultKB:/notes/a.md".parse().expect("mount path should parse");
    assert_eq!(mp.to_string(), "VaultKB:/notes/a.md");
    assert_eq!("VaultKB/notes".parse::<MountPath>().unwrap_err(), PolicyError::InvalidPath);

    let sc: Scope = "fs:VaultKB:read".parse().expect("scope should parse");
    assert_eq!(sc.to_string(), "fs:VaultKB:read");
    assert_eq!("fs:VaultKB".parse::<Scope>().unwrap_err(), ScopeParseError::InvalidFormat);
}

#[test]
fn scope_set_iter_walks_the_scopes_in_order() {
    let set = ScopeSet::new(vec![
        Scope::from_str("meta:*:read").unwrap(),
        Scope::from_str("fs:VaultKB:write").unwrap(),
        Scope::from_str("fs:VaultKB:write").unwrap(),
    ]);
    let walked: Vec<Scope> = set.iter().cloned().collect();
    assert_eq!(walked.as_slice(), set.as_slice());
    assert_eq!(walked.len(), 2);
}

#[test]
fn mount_name_length_counts_characters() {
    let accented: String = std::iter::repeat('é').take(33).collect();
    assert_eq!(MountName::new(&accented).unwrap_err(), MountNameError::InvalidCharacters);
    let long: String = std::iter::repeat('a').take(65).collect();
    assert_eq!(MountName::new(&long).unwrap_err(), MountNameError::InvalidLength);
    let longest: String = std::iter::repeat('a').take(64).collect();
    assert_eq!(MountName::new(&longest).unwrap().as_str(), longest.as_str());
    assert_eq!(MountName::new("").unwrap_err(), MountNameError::InvalidLength);
}

#[test]
fn scope_set_counts_distinct_input_scopes_and_grants_as_any_of_them() {
    let set = ScopeSet::new(vec![
        Scope::from_str("fs:*:read").unwrap(),
        Scope::from_str("admin:*:tokens").unwrap(),
        Scope::from_str("fs:*:read").unwrap(),
    ]);
    assert_eq!(set.len(), 2);
    assert!(!set.is_empty());
    assert!(set.contains_required(&Scope::from_str("fs:VaultKB:read").unwrap()));
    assert!(!set.contains_required(&Scope::from_str("fs:VaultKB:write").unwrap()));
    assert!(!set.contains_required(&Scope::from_str("admin:*:mounts").unwrap()));
    let empty = ScopeSet::new(Vec::new());
    assert_eq!(empty.len(), 0);
    assert!(empty.is_empty());
}
