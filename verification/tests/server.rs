use opencowork::server::config::{cors_origins_from, ApprovalMode, ServerConfig};
use opencowork::server::errors::ServerError;
use opencowork::server::glob::{glob_match, simple_glob_match};
use opencowork::server::handlers::{
    approval_description, command_outcome, config_response, decision_event, filter_paths, health_response,
    ListFilesQuery, ServerEvent,
};
use opencowork::server::middleware::{check_authorization, forwarded_client};
use opencowork::server::approvals::ApprovalType;
use opencowork::server::audit::{AuditAction, AuditEntry, AuditOutcome};

#[test]
fn approval_mode_names_and_parsing() {
    assert!(matches!(ApprovalMode::parse("auto"), Ok(ApprovalMode::Auto)));
    assert!(matches!(ApprovalMode::parse("MANUAL"), Ok(ApprovalMode::Manual)));
    assert!(matches!(ApprovalMode::parse("Timeout"), Ok(ApprovalMode::Timeout)));
    match ApprovalMode::parse("sometimes") {
        Err(ServerError::Config(m)) => {
            assert_eq!(m, "invalid approval mode 'sometimes': must be auto, manual, or timeout")
        }
        other => panic!("unexpected {:?}", other),
    }
    for m in [ApprovalMode::Auto, ApprovalMode::Manual, ApprovalMode::Timeout] {
        assert_eq!(ApprovalMode::parse(m.as_str()).unwrap(), m);
    }
    assert_eq!(ApprovalMode::default(), ApprovalMode::Timeout);
    let parsed: ApprovalMode = "auto".parse().unwrap();
    assert_eq!(parsed, ApprovalMode::Auto);
}

#[test]
fn server_config_defaults_and_validation() {
    let c = ServerConfig::new("/ws".to_string());
    assert_eq!(c.host, "0.0.0.0");
    assert_eq!(c.port, 9876);
    assert!(c.auth_token.is_none());
    assert!(c.cors_origins.is_empty());
    assert_eq!(c.approval_mode, ApprovalMode::Timeout);
    assert_eq!(c.approval_timeout_secs, 30);
    assert_eq!(c.max_body_bytes, 10 * 1024 * 1024);
    assert_eq!(c.rate_limit_rps, 100);
    assert_eq!(c.authorized_roots, vec![".".to_string()]);
    assert_eq!(c.bind_address(), "0.0.0.0:9876");
    assert!(c.validate(true, true).is_ok());
    match c.validate(false, false) {
        Err(ServerError::Config(m)) => assert_eq!(m, "workspace root does not exist: /ws"),
        other => panic!("unexpected {:?}", other),
    }
    match c.validate(true, false) {
        Err(ServerError::Config(m)) => assert_eq!(m, "workspace root is not a directory: /ws"),
        other => panic!("unexpected {:?}", other),
    }
}

#[test]
fn error_messages_and_responses() {
    let e = ServerError::FileNotFound("a.txt".into());
    assert_eq!(e.message(), "file not found: a.txt");
    assert_eq!(e.status_and_body(), (404, "file not found: a.txt".to_string()));
    assert_eq!(
        ServerError::WorkspaceNotFound("w1".into()).status_and_body(),
        (404, "workspace not found: w1".to_string())
    );
    assert_eq!(ServerError::PathTraversalDenied("x".into()).status_and_body().0, 403);
    assert_eq!(ServerError::ApprovalRequired("x".into()).status_and_body().0, 202);
    assert_eq!(ServerError::ApprovalTimeout("x".into()).status_and_body().0, 408);
    assert_eq!(ServerError::Unauthorized("x".into()).status_and_body().0, 401);
    assert_eq!(ServerError::RateLimited.status_and_body(), (429, "rate limit exceeded".to_string()));
    assert_eq!(ServerError::BadRequest("x".into()).status_and_body().0, 400);
    assert_eq!(ServerError::CommandFailed("x".into()).status_and_body().0, 422);
    // details of internal failures stay out of the body
    assert_eq!(ServerError::Io("disk on fire".into()).status_and_body(), (500, "internal error".to_string()));
    assert_eq!(ServerError::Json("eof".into()).status_and_body(), (400, "invalid json".to_string()));
    assert_eq!(ServerError::Config("x".into()).status_and_body(), (500, "internal error".to_string()));
    assert_eq!(ServerError::Internal("x".into()).status_and_body(), (500, "internal error".to_string()));
    assert_eq!(ServerError::Internal("x".into()).message(), "internal error: x");
}

#[test]
fn request_paths_join_the_root() {
    let c = ServerConfig::new("/ws".to_string());
    assert_eq!(c.request_path("a/b.txt"), "/ws/a/b.txt");
    assert_eq!(c.request_path("//a"), "/ws/a");
    assert_eq!(c.authorized_root_paths(), vec!["/ws/.".to_string()]);
    let d = ServerConfig::new("/ws/".to_string());
    assert_eq!(d.request_path("x"), "/ws/x");
}

#[test]
fn resolve_path_decisions() {
    let c = ServerConfig::new("/ws".to_string());
    let ok = c.resolve_path(
        "a.txt",
        Some("/ws/a.txt".into()),
        Ok("/ws".into()),
        vec![Some("/ws".into())],
    );
    assert_eq!(ok.unwrap(), "/ws/a.txt");
    match c.resolve_path("nope", None, Ok("/ws".into()), vec![Some("/ws".into())]) {
        Err(ServerError::FileNotFound(m)) => assert_eq!(m, "path not found: nope"),
        other => panic!("unexpected {:?}", other),
    }
    match c.resolve_path("a", Some("/ws/a".into()), Err("gone".into()), vec![]) {
        Err(ServerError::Internal(m)) => assert_eq!(m, "cannot canonicalize workspace root: gone"),
        other => panic!("unexpected {:?}", other),
    }
    match c.resolve_path("../etc/passwd", Some("/etc/passwd".into()), Ok("/ws".into()), vec![Some("/ws".into())]) {
        Err(ServerError::PathTraversalDenied(m)) => assert_eq!(m, "path '../etc/passwd' escapes workspace root"),
        other => panic!("unexpected {:?}", other),
    }
    // a sibling with a common text prefix is not inside the root
    assert!(c
        .resolve_path("x", Some("/wsx/a".into()), Ok("/ws".into()), vec![Some("/ws".into())])
        .is_err());
    match c.resolve_path("b/c", Some("/ws/b/c".into()), Ok("/ws".into()), vec![Some("/ws/a".into()), None]) {
        Err(ServerError::PathTraversalDenied(m)) => assert_eq!(m, "path 'b/c' is outside authorized roots"),
        other => panic!("unexpected {:?}", other),
    }
}

#[test]
fn simple_globs() {
    assert!(simple_glob_match("*", "anything"));
    assert!(simple_glob_match("*", "a/b"));
    assert!(simple_glob_match("a.txt", "a.txt"));
    assert!(!simple_glob_match("a.txt", "b.txt"));
    assert!(simple_glob_match("*.rs", "main.rs"));
    assert!(simple_glob_match("src/*.rs", "src/lib.rs"));
    assert!(!simple_glob_match("src/*.rs", "tests/lib.rs"));
    // anchored at the end, and `*` stays within one segment
    assert!(!simple_glob_match("*.rs", "main.rs.bak"));
    assert!(!simple_glob_match("*.rs", "src/main.rs"));
    assert!(!simple_glob_match("src*", "lib/src.rs"));
    assert!(simple_glob_match("a*b*c", "axxbyyc"));
    assert!(!simple_glob_match("a*b*c", "axxcyyb"));
    assert!(simple_glob_match("a**c", "abc"));
}

#[test]
fn double_star_globs() {
    assert!(glob_match("**", "deep/down/file"));
    assert!(glob_match("*", "x/y"));
    assert!(glob_match("**/*.rs", "src/main.rs"));
    assert!(glob_match("**/*.rs", "main.rs"));
    assert!(glob_match("**/*.rs", "a/b/c.rs"));
    assert!(!glob_match("**/*.rs", "src/main.rs.bak"));
    assert!(glob_match("src/**", "src/a/b.rs"));
    assert!(!glob_match("src/**", "lib/a/b.rs"));
    assert!(!glob_match("**/main.rs", "src/domain.rs"));
    assert!(glob_match("src/**/mod.rs", "src/a/b/mod.rs"));
    assert!(glob_match("src/**/mod.rs", "src/mod.rs"));
    assert!(!glob_match("src/*.rs", "src/a/lib.rs"));
    assert!(glob_match("notes.md", "notes.md"));
    assert!(!glob_match("notes.md", "todo.md"));
    assert!(glob_match("*x**y", "日xy"));
}

#[test]
fn listing_limits_and_filters() {
    let q = |limit| ListFilesQuery { pattern: None, limit };
    assert_eq!(q(None).effective_limit(), 1000);
    assert_eq!(q(Some(5)).effective_limit(), 5);
    assert_eq!(q(Some(20_000)).effective_limit(), 10_000);
    let paths: Vec<String> = vec!["src/lib.rs".into(), "README.md".into(), "src/main.rs".into()];
    assert_eq!(filter_paths(paths.clone(), None), paths.clone());
    assert_eq!(
        filter_paths(paths.clone(), Some("**/*.rs")),
        vec!["src/lib.rs".to_string(), "src/main.rs".to_string()]
    );
    assert_eq!(filter_paths(paths.clone(), Some("*.rs")), Vec::<String>::new());
    assert_eq!(filter_paths(paths, Some("README.md")), vec!["README.md".to_string()]);
}

#[test]
fn health_and_config_reports() {
    let mut c = ServerConfig::new("/ws".to_string());
    c.approval_mode = ApprovalMode::Manual;
    c.authorized_roots = vec!["a".into(), "b".into()];
    let h = health_response("1.2.3".to_string(), 7, &c);
    assert_eq!(
        (h.status.as_str(), h.version.as_str(), h.uptime_secs, h.workspace_root.as_str(), h.approval_mode.as_str()),
        ("ok", "1.2.3", 7, "/ws", "manual")
    );
    let r = config_response(&c);
    assert_eq!(r.workspace_root, "/ws");
    assert_eq!(r.approval_mode, "manual");
    assert_eq!(r.authorized_roots, vec!["a".to_string(), "b".to_string()]);
}

#[test]
fn handler_texts_and_outcomes() {
    assert_eq!(approval_description(ApprovalType::FileWrite, "a.txt"), "Write to file: a.txt");
    assert_eq!(approval_description(ApprovalType::Command, "ls -la"), "Execute command: ls -la");
    assert_eq!(command_outcome(0), AuditOutcome::Success);
    assert_eq!(command_outcome(1), AuditOutcome::Failure);
    assert_eq!(command_outcome(-1), AuditOutcome::Failure);
    match decision_event("r1".to_string(), true) {
        ServerEvent::ApprovalDecided { request_id, status } => assert_eq!((request_id.as_str(), status.as_str()), ("r1", "approved")),
        other => panic!("unexpected {:?}", other),
    }
    match decision_event("r2".to_string(), false) {
        ServerEvent::ApprovalDecided { status, .. } => assert_eq!(status, "denied"),
        other => panic!("unexpected {:?}", other),
    }
}

#[test]
fn authorization_checks() {
    assert!(check_authorization(&None, None).is_ok());
    assert!(check_authorization(&None, Some("whatever")).is_ok());
    let want = Some("s3cret".to_string());
    assert!(check_authorization(&want, Some("Bearer s3cret")).is_ok());
    assert!(check_authorization(&want, Some("s3cret")).is_ok());
    match check_authorization(&want, None) {
        Err(ServerError::Unauthorized(m)) => assert_eq!(m, "missing authorization header"),
        other => panic!("unexpected {:?}", other),
    }
    match check_authorization(&want, Some("Bearer wrong")) {
        Err(ServerError::Unauthorized(m)) => assert_eq!(m, "invalid token"),
        other => panic!("unexpected {:?}", other),
    }
    // the scheme is matched exactly, once
    assert!(check_authorization(&want, Some("bearer s3cret")).is_err());
    assert!(check_authorization(&want, Some("Bearer Bearer s3cret")).is_err());
}

#[test]
fn forwarded_client_is_first_entry_trimmed() {
    assert_eq!(forwarded_client(" 10.0.0.1 , 10.0.0.2"), "10.0.0.1");
    assert_eq!(forwarded_client("192.168.1.9"), "192.168.1.9");
    assert_eq!(forwarded_client(""), "");
    assert_eq!(forwarded_client(",x"), "");
}

#[test]
fn audit_entries_are_fresh_and_faithful() {
    let e = AuditEntry::create(AuditAction::FileRead, AuditOutcome::Success, Some("ws".into()), Some("a.txt".into()), None, None);
    assert_eq!(e.id.len(), 36);
    assert_eq!(e.action, AuditAction::FileRead);
    assert_eq!(e.outcome, AuditOutcome::Success);
    assert_eq!(e.workspace_id.as_deref(), Some("ws"));
    assert_eq!(e.resource.as_deref(), Some("a.txt"));
    assert!(e.remote_addr.is_none() && e.details.is_none());
    assert!(e.timestamp.secs > 1_600_000_000 && e.timestamp.nanos < 1_000_000_000);
    let f = AuditEntry::create(AuditAction::ServerStop, AuditOutcome::Pending, None, None, None, None);
    assert_ne!(e.id, f.id);
}

#[test]
fn cors_origins_are_trimmed_and_nonempty() {
    assert_eq!(
        cors_origins_from(" http://a.test , ,http://b.test,"),
        vec!["http://a.test".to_string(), "http://b.test".to_string()]
    );
    assert!(cors_origins_from("").is_empty());
    assert!(cors_origins_from(" , ").is_empty());
}

#[test]
fn patterns_without_double_star_are_simple_globs() {
    for (p, path) in [("*.rs", "main.rs"), ("*.rs", "src/main.rs"), ("a*c", "abc"), ("x", "x"), ("src/*", "src/a/b")] {
        assert_eq!(glob_match(p, path), simple_glob_match(p, path), "{} {}", p, path);
    }
}
