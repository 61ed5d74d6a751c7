use memo::admin::{
    build_audit_query, format_audience, format_mode, format_scopes, parse_audience,
    parse_audit_result, parse_mount_mode, parse_mount_path, parse_scopes, parse_timestamp,
    parse_token_id, patch_globs, patch_string, patch_u64,
};
use memo::audit::AuditResult;
use memo::cli::{AuditArgs, CliError};
use memo::client::{
    base_url_from_parsed, map_api_error, map_status_fallback, sanitize_base_url, ErrorEnvelope,
    MemoClientConfig,
    MemoClientError, PatchValue,
};
use memo::config::{
    config_file_path, expand_user_path, launch_agent_plist_path, parse_bind_addr, parse_u16,
    pid_file_path, plist_contents, resolve_daemon_addr, resolve_log_path, resolve_token,
    tail_lines, token_file_path, RuntimeConfig, LAUNCHD_LABEL,
};
use memo::errors::ApiError;
use memo::mount::{Audience, MountMode};
use memo::path::MountPath;
use memo::scope::{Scope, ScopeSet};
use memo::ui::{
    audit_filter_query, browse_root, create_mount_request, create_token_request, revoke_token_id,
    AuditFilterInput, CreateMountInput, CreateTokenInput,
};

#[test]
fn parse_mount_mode_accepts_aliases() {
    assert_eq!(parse_mount_mode("read_only").expect("mode should parse"), MountMode::ReadOnly);
    assert_eq!(parse_mount_mode("readonly").expect("mode should parse"), MountMode::ReadOnly);
    assert_eq!(parse_mount_mode("ro").expect("mode should parse"), MountMode::ReadOnly);
    assert_eq!(parse_mount_mode("read_write").expect("mode should parse"), MountMode::ReadWrite);
    assert_eq!(parse_mount_mode("readwrite").expect("mode should parse"), MountMode::ReadWrite);
    assert_eq!(parse_mount_mode("rw").expect("mode should parse"), MountMode::ReadWrite);
    assert!(parse_mount_mode("invalid").is_err());
}

#[test]
fn parse_audience_accepts_aliases() {
    assert_eq!(parse_audience("shared").expect("audience should parse"), Audience::Shared);
    assert_eq!(parse_audience("agent_only").expect("audience should parse"), Audience::AgentOnly);
    assert_eq!(parse_audience("agent-only").expect("audience should parse"), Audience::AgentOnly);
    assert_eq!(parse_audience("human_only").expect("audience should parse"), Audience::HumanOnly);
    assert_eq!(parse_audience("human-only").expect("audience should parse"), Audience::HumanOnly);
    assert!(parse_audience("robots").is_err());
}

#[test]
fn argument_errors_quote_the_input() {
    match parse_mount_mode("rx") {
        Err(CliError::Command(m)) => {
            assert_eq!(m, "invalid --mode 'rx' (expected read_only or read_write)")
        },
        other => panic!("unexpected {other:?}"),
    }
    match parse_audit_result("warn") {
        Err(CliError::Command(m)) => assert_eq!(m, "invalid --result 'warn' (expected ok or error)"),
        other => panic!("unexpected {other:?}"),
    }
}

#[test]
fn parse_scope_and_token_inputs() {
    let scopes = parse_scopes(&["meta:*:read".to_owned(), "fs:VaultKB:read".to_owned()])
        .expect("scopes should parse");
    assert_eq!(scopes.len(), 2);
    assert!(parse_scopes(&["broken".to_owned()]).is_err());
    assert!(parse_scopes(&[]).is_err());

    let id = "67e55044-10b1-426f-9247-bb680e5fe0c8";
    let parsed = parse_token_id(id).expect("token id should parse");
    assert_eq!(memo::rows::token_id_text(parsed), id);
    assert!(parse_token_id("not-a-uuid").is_err());
}

#[test]
fn parse_time_and_audit_result_inputs() {
    assert_eq!(parse_timestamp("2026-02-19T12:34:56Z").expect("timestamp parses"), 1_771_504_496_000_000_000);
    assert!(parse_timestamp("not-time").is_err());
    assert_eq!(parse_audit_result("ok").expect("audit result should parse"), AuditResult::Success);
    assert_eq!(parse_audit_result("error").expect("audit result should parse"), AuditResult::Error);
    assert!(parse_audit_result("warn").is_err());
}

#[test]
fn patch_helpers_apply_clear_semantics() {
    assert_eq!(patch_globs(Some(vec!["a".to_owned()]), false), Some(vec!["a".to_owned()]));
    assert_eq!(patch_globs(None, true), Some(Vec::new()));

    assert_eq!(patch_string(Some("x".to_owned()), false), Some(PatchValue::Value("x".to_owned())));
    assert_eq!(patch_string(None, true), Some(PatchValue::Null));

    assert_eq!(patch_u64(Some(42), false), Some(PatchValue::Value(42)));
    assert_eq!(patch_u64(None, true), Some(PatchValue::Null));
}

#[test]
fn build_audit_query_parses_all_fields() {
    let token_id = "67e55044-10b1-426f-9247-bb680e5fe0c8".to_owned();
    let args = AuditArgs {
        mount: Some("VaultKB".to_owned()),
        token_id: Some(token_id.clone()),
        operation: Some("read".to_owned()),
        result: Some("ok".to_owned()),
        limit: Some(50),
        before: Some("2026-02-19T00:00:00Z".to_owned()),
        after: Some("2026-02-18T00:00:00Z".to_owned()),
    };
    let query = build_audit_query(&args).expect("audit query should parse");
    assert_eq!(query.mount.expect("mount should be present").to_string(), "VaultKB");
    assert_eq!(memo::rows::token_id_text(query.token_id.expect("token should be present")), token_id);
    assert_eq!(query.operation.as_deref(), Some("read"));
    assert_eq!(query.result, Some(AuditResult::Success));
    assert_eq!(query.limit, Some(50));
    assert!(query.before.is_some());
    assert!(query.after.is_some());
    assert_eq!(query.after_id, None);
}

#[test]
fn formatting_helpers_are_stable() {
    let scopes = ScopeSet::new(vec![
        Scope::from_str("meta:*:read").expect("scope should parse"),
        Scope::from_str("admin:*:tokens").expect("scope should parse"),
    ]);
    assert_eq!(format_mode(&MountMode::ReadOnly), "read_only");
    assert_eq!(format_mode(&MountMode::ReadWrite), "read_write");
    assert_eq!(format_audience(&Audience::Shared), "shared");
    assert_eq!(format_audience(&Audience::AgentOnly), "agent_only");
    assert_eq!(format_audience(&Audience::HumanOnly), "human_only");

    let rendered = format_scopes(&scopes);
    assert!(rendered.contains("meta:*:read"));
    assert!(rendered.contains("admin:*:tokens"));
    assert_eq!(rendered.matches(',').count(), 1);
}

#[test]
fn daemon_addr_uses_priority_chain() {
    let from_config = match resolve_daemon_addr(None, None, None, None, Some("10.0.0.1:9000")) {
        Ok(value) => value,
        Err(error) => panic!("config should parse: {error:?}"),
    };
    assert_eq!(from_config.0, "10.0.0.1");
    assert_eq!(from_config.1, 9000);

    let from_env =
        resolve_daemon_addr(None, None, Some("10.0.0.2"), Some("9001"), Some("10.0.0.1:9000"))
            .unwrap_or_else(|error| panic!("env should parse: {error:?}"));
    assert_eq!(from_env.0, "10.0.0.2");
    assert_eq!(from_env.1, 9001);

    let from_flag = resolve_daemon_addr(
        Some("10.0.0.3"),
        Some(9002),
        Some("10.0.0.2"),
        Some("9001"),
        Some("10.0.0.1:9000"),
    )
    .unwrap_or_else(|error| panic!("flags should parse: {error:?}"));
    assert_eq!(from_flag.0, "10.0.0.3");
    assert_eq!(from_flag.1, 9002);
}

#[test]
fn daemon_addr_defaults_and_errors() {
    assert_eq!(resolve_daemon_addr(None, None, None, None, None).expect("defaults"), ("127.0.0.1".to_owned(), 18301));
    match resolve_daemon_addr(None, None, None, Some("99999"), None) {
        Err(CliError::Config(m)) => assert_eq!(m, "invalid MEMO_PORT: 99999"),
        other => panic!("unexpected {other:?}"),
    }
    match parse_bind_addr(Some(" localhost ")) {
        Err(CliError::Config(m)) => assert_eq!(m, "invalid daemon.bind_addr: localhost"),
        other => panic!("unexpected {other:?}"),
    }
    match parse_bind_addr(Some("host:port")) {
        Err(CliError::Config(m)) => assert_eq!(m, "invalid daemon.bind_addr port: host:port"),
        other => panic!("unexpected {other:?}"),
    }
    assert_eq!(parse_bind_addr(Some("  ")).expect("blank"), (None, None));
    assert_eq!(parse_bind_addr(Some("[::1]:80")).expect("v6"), (Some("[::1]".to_owned()), Some(80)));
}

#[test]
fn port_numbers_parse_like_std() {
    assert_eq!(parse_u16("9000"), Some(9000));
    assert_eq!(parse_u16("+80"), Some(80));
    assert_eq!(parse_u16("65535"), Some(65535));
    assert_eq!(parse_u16("65536"), None);
    assert_eq!(parse_u16(""), None);
    assert_eq!(parse_u16("+"), None);
    assert_eq!(parse_u16("-1"), None);
    assert_eq!(parse_u16("12a"), None);
    assert_eq!(parse_u16("0000080"), Some(80));
}

#[test]
fn token_resolution_prefers_flag_then_env() {
    assert_eq!(resolve_token(Some("flag-token"), Some("env-token"), None).as_deref(), Some("flag-token"));
    assert_eq!(resolve_token(None, Some("env-token"), None).as_deref(), Some("env-token"));
    assert!(resolve_token(None, None, None).is_none());
    assert_eq!(resolve_token(None, None, Some("  file-token\n")).as_deref(), Some("file-token"));
    assert!(resolve_token(None, None, Some(" \n")).is_none());
}

#[test]
fn user_paths_expand_under_home() {
    assert_eq!(expand_user_path("~/logs/memod.log", "/home/me"), "/home/me/logs/memod.log");
    assert_eq!(expand_user_path("/var/log/memod.log", "/home/me"), "/var/log/memod.log");
    assert_eq!(resolve_log_path(None, "/home/me"), "/home/me/.local/state/memo/memod.log");
    assert_eq!(resolve_log_path(Some("  "), "/home/me/"), "/home/me/.local/state/memo/memod.log");
    assert_eq!(resolve_log_path(Some(" ~/x.log "), "/home/me"), "/home/me/x.log");
    assert_eq!(config_file_path("/home/me"), "/home/me/.config/memo/config.toml");
    assert_eq!(token_file_path("/home/me", "default"), "/home/me/.config/memo/tokens/default.token");
    assert_eq!(
        launch_agent_plist_path("/Users/me"),
        "/Users/me/Library/LaunchAgents/io.github.ch37n1.memo.memod.plist"
    );
    assert_eq!(pid_file_path("/run/user/1000"), "/run/user/1000/memo/memod.pid");
}

#[test]
fn plist_contains_required_fields() {
    let content = plist_contents("/tmp/memod", "/tmp/memod.log");
    assert!(content.contains(LAUNCHD_LABEL));
    assert!(content.contains("/tmp/memod"));
    assert!(content.contains("/tmp/memod.log"));
    assert!(content.contains("<false/>"));
}

#[test]
fn tail_file_returns_last_n_lines() {
    let lines = vec!["one".to_owned(), "two".to_owned(), "three".to_owned()];
    assert_eq!(tail_lines(lines, 2), vec!["two".to_owned(), "three".to_owned()]);
    assert_eq!(tail_lines(vec!["a".to_owned(), "b".to_owned()], 0), vec!["b".to_owned()]);
    assert_eq!(tail_lines(vec!["a".to_owned()], 5), vec!["a".to_owned()]);
}

#[test]
fn runtime_base_url() {
    let runtime = RuntimeConfig {
        json: false,
        host: "127.0.0.1".to_owned(),
        port: 18301,
        token: None,
        default_mount: None,
        log_path: "/tmp/memod.log".to_owned(),
    };
    assert_eq!(runtime.base_url(), "http://127.0.0.1:18301");
}

#[test]
fn parse_mount_path_accepts_explicit_mount() {
    let path = parse_mount_path("VaultKB:/notes", None).expect("path should parse");
    assert_eq!(path.to_string(), "VaultKB:/notes");
}

#[test]
fn parse_mount_path_uses_default_mount_for_relative() {
    let path = parse_mount_path("notes/git.md", Some("VaultKB")).expect("path should parse");
    assert_eq!(path.to_string(), "VaultKB:/notes/git.md");
}

#[test]
fn parse_mount_path_accepts_leading_slash_with_default_mount() {
    let path = parse_mount_path("/notes/git.md", Some("VaultKB")).expect("path should parse");
    assert_eq!(path, MountPath::parse("VaultKB:/notes/git.md").expect("valid path"));
}

#[test]
fn parse_mount_path_rejects_relative_without_default_mount() {
    let error = parse_mount_path("notes/git.md", None).expect_err("path should fail");
    assert!(error.to_string().contains("mount path"));
}

#[test]
fn parse_mount_path_rejects_invalid_default_mount_name() {
    let error = parse_mount_path("notes/git.md", Some("bad mount")).expect_err("path should fail");
    assert!(!error.to_string().is_empty());
}

#[test]
fn cli_errors_map_client_failures() {
    let auth = CliError::from_client_error(MemoClientError::Api(ApiError::TokenExpired));
    assert_eq!(auth.exit_code(), 2);
    assert_eq!(auth.to_string(), "token expired");
    let down = CliError::from_client_error(MemoClientError::Request("connection refused".to_owned()));
    assert_eq!(down.exit_code(), 5);
    let other = CliError::from_client_error(MemoClientError::Api(ApiError::Conflict("busy".to_owned())));
    assert_eq!(other.exit_code(), 1);
    assert_eq!(other.to_string(), "conflict: busy");
}

fn envelope(code: &str, mount: Option<&str>, path: Option<&str>) -> ErrorEnvelope {
    ErrorEnvelope {
        code: code.to_owned(),
        message: "boom".to_owned(),
        mount: mount.map(|m| m.to_owned()),
        path: path.map(|p| p.to_owned()),
        limit: Some(8),
        actual: None,
    }
}

#[test]
fn api_errors_are_read_back() {
    assert_eq!(
        map_api_error(envelope("not_found", Some("VaultKB"), Some("a.md"))),
        ApiError::NotFound("boom (mount: VaultKB, path: a.md)".to_owned())
    );
    assert_eq!(
        map_api_error(envelope("conflict", Some("VaultKB"), None)),
        ApiError::Conflict("boom (mount: VaultKB)".to_owned())
    );
    assert_eq!(
        map_api_error(envelope("invalid_path", None, Some("a.md"))),
        ApiError::InvalidPath("boom (path: a.md)".to_owned())
    );
    assert_eq!(
        map_api_error(envelope("policy_violated", Some("VaultKB"), None)),
        ApiError::PolicyViolated("boom".to_owned())
    );
    assert_eq!(map_api_error(envelope("too_large", None, None)), ApiError::TooLarge { limit: 8, actual: 0 });
    assert_eq!(map_api_error(envelope("teapot", None, None)), ApiError::Internal("boom".to_owned()));
    for code in ["auth_required", "token_invalid", "out_of_bounds", "mount_not_found", "internal_error"] {
        assert_eq!(map_api_error(envelope(code, None, None)).code(), code);
    }
}

#[test]
fn fallback_maps_404_to_not_found() {
    let error = map_status_fallback(404, "missing");
    assert_eq!(error.code(), "not_found");
    assert_eq!(map_status_fallback(404, "  "), ApiError::NotFound("Not Found".to_owned()));
    assert_eq!(map_status_fallback(599, ""), ApiError::Internal("request failed".to_owned()));
    assert_eq!(map_status_fallback(401, "x"), ApiError::AuthRequired);
    assert_eq!(map_status_fallback(413, "x"), ApiError::TooLarge { limit: 0, actual: 0 });
}

#[test]
fn base_url_is_normalized() {
    assert_eq!(
        sanitize_base_url("http://127.0.0.1:18301/").expect("url should parse"),
        "http://127.0.0.1:18301"
    );
    assert_eq!(sanitize_base_url(" http://Example.com ").expect("url should parse"), "http://example.com");
    let default = MemoClientConfig::default();
    assert_eq!(sanitize_base_url(&default.base_url).expect("default parses"), "http://127.0.0.1:18301");
    assert_eq!(default.timeout_secs, 30);
}

#[test]
fn invalid_base_url_is_rejected() {
    let result = sanitize_base_url("not a url");
    assert!(matches!(result, Err(MemoClientError::InvalidBaseUrl(_))));
}

#[test]
fn interface_inputs_become_requests() {
    let request = create_mount_request(CreateMountInput {
        name: "VaultKB".to_owned(),
        root_path: "/data/vault".to_owned(),
        mode: MountMode::ReadOnly,
        audience: Audience::HumanOnly,
        description: None,
    })
    .expect("mount request builds");
    assert_eq!(request.name.as_str(), "VaultKB");
    assert!(request.hide_globs.is_empty());
    assert!(create_mount_request(CreateMountInput {
        name: "bad name".to_owned(),
        root_path: "/x".to_owned(),
        mode: MountMode::ReadOnly,
        audience: Audience::Shared,
        description: None,
    })
    .is_err());

    let token = create_token_request(CreateTokenInput {
        name: "agent".to_owned(),
        scopes: vec!["fs:*:read".to_owned()],
        expires_at: Some("1970-01-01T00:00:01Z".to_owned()),
    })
    .expect("token request builds");
    assert_eq!(token.expires_at, Some(1_000_000_000));
    assert_eq!(token.scopes.len(), 1);
    assert_eq!(
        create_token_request(CreateTokenInput {
            name: "agent".to_owned(),
            scopes: vec!["nope".to_owned()],
            expires_at: None,
        })
        .err(),
        Some("invalid scope format".to_owned())
    );

    let query = audit_filter_query(AuditFilterInput {
        mount: Some("VaultKB".to_owned()),
        operation: None,
        result: Some(AuditResult::Error),
        limit: Some(3),
    })
    .expect("query builds");
    assert_eq!(query.limit, Some(3));
    assert!(revoke_token_id("67e55044-10b1-426f-9247-bb680e5fe0c8").is_ok());
    assert!(revoke_token_id("x").is_err());
    assert_eq!(browse_root("VaultKB").expect("root").to_string(), "VaultKB:/");
}

fn payload_envelope(sent: &ApiError, mount: Option<&str>, path: Option<&str>) -> ErrorEnvelope {
    let message = match sent {
        ApiError::PolicyViolated(m)
        | ApiError::InvalidPath(m)
        | ApiError::NotFound(m)
        | ApiError::MountNotFound(m)
        | ApiError::Conflict(m)
        | ApiError::Internal(m) => m.clone(),
        _ => "unused".to_owned(),
    };
    let (limit, actual) = match sent {
        ApiError::TooLarge { limit, actual } => (Some(*limit), Some(*actual)),
        _ => (None, None),
    };
    ErrorEnvelope {
        code: sent.code().to_owned(),
        message,
        mount: mount.map(|m| m.to_owned()),
        path: path.map(|p| p.to_owned()),
        limit,
        actual,
    }
}

#[test]
fn api_error_payloads_round_trip() {
    let sent = vec![
        ApiError::AuthRequired,
        ApiError::TokenInvalid,
        ApiError::TokenExpired,
        ApiError::PermissionDenied,
        ApiError::PolicyViolated("denied by policy".to_owned()),
        ApiError::InvalidPath("bad path".to_owned()),
        ApiError::OutOfBounds,
        ApiError::SymlinkDenied,
        ApiError::NotFound("missing".to_owned()),
        ApiError::MountNotFound("no such mount".to_owned()),
        ApiError::Conflict("exists".to_owned()),
        ApiError::TooLarge { limit: 10, actual: 99 },
        ApiError::Internal("broken".to_owned()),
    ];
    for e in &sent {
        assert_eq!(&map_api_error(payload_envelope(e, None, None)), e);
    }
    assert_eq!(
        map_api_error(payload_envelope(&ApiError::MountNotFound("no such mount".to_owned()), Some("M"), Some("p.md"))),
        ApiError::MountNotFound("no such mount (mount: M, path: p.md)".to_owned())
    );
    assert_eq!(
        map_api_error(payload_envelope(&ApiError::Internal("broken".to_owned()), Some("M"), Some("p.md"))),
        ApiError::Internal("broken".to_owned())
    );
}

#[test]
fn base_url_is_finished_from_the_parsed_serialisation() {
    let ok = base_url_from_parsed(" http://host/ ", Some("http://host/api//".to_owned()));
    assert_eq!(ok.expect("parsed url"), "http://host/api");
    let refused = base_url_from_parsed(" nope ", None);
    assert!(matches!(refused, Err(MemoClientError::InvalidBaseUrl(b)) if b == " nope "));
}
