use macp::error::MacpError;
use macp::rate_limit::{EventLog, RateLimitConfig, MINUTE_NS};
use macp::security::{
    AuthIdentity, Credentials, RateBucket, RawLimits, RawPageSizeEnv, SecurityLayer,
    DEFAULT_LIST_SESSIONS_PAGE_SIZE, MAX_LIST_SESSIONS_PAGE_SIZE,
};
use macp::text_map::{TextMap, TextSet};
use tonic::metadata::MetadataMap;

fn layer(session_start_rate: RateLimitConfig, message_rate: RateLimitConfig) -> SecurityLayer {
    SecurityLayer {
        identities: TextMap::new(),
        has_resolvers: false,
        max_payload_bytes: 1_048_576,
        list_sessions_default_page_size: DEFAULT_LIST_SESSIONS_PAGE_SIZE,
        list_sessions_max_page_size: MAX_LIST_SESSIONS_PAGE_SIZE,
        session_start_rate,
        message_rate,
    }
}

fn unlimited() -> RateLimitConfig {
    RateLimitConfig {
        limit: usize::MAX,
        window_ns: MINUTE_NS,
    }
}

fn insecure_layer() -> SecurityLayer {
    layer(unlimited(), unlimited())
}

fn layer_with_tokens(json: &str) -> SecurityLayer {
    SecurityLayer {
        identities: SecurityLayer::parse_identities(json).expect("valid JSON"),
        ..insecure_layer()
    }
}

fn header(meta: &MetadataMap, name: &str) -> Option<String> {
    let value = meta.get(name)?;
    value.to_str().ok().map(str::to_string)
}

fn credentials(meta: &MetadataMap) -> Credentials {
    Credentials {
        authorization: header(meta, "authorization"),
        macp_token: header(meta, "x-macp-token"),
    }
}

#[test]
fn dev_mode_requires_dev_header() {
    let layer = SecurityLayer::dev_mode();
    let meta = MetadataMap::new();
    let err = layer.authenticate_metadata(&credentials(&meta)).unwrap_err();
    assert!(matches!(err, MacpError::Unauthenticated));
}

#[test]
fn dev_mode_rejects_dev_sender_header() {
    let layer = SecurityLayer::dev_mode();
    let mut meta = MetadataMap::new();
    meta.insert("x-macp-agent-id", "agent://dev-bot".parse().unwrap());
    let err = layer.authenticate_metadata(&credentials(&meta)).unwrap_err();
    assert!(matches!(err, MacpError::Unauthenticated));
}

#[test]
fn dev_mode_has_unlimited_rate_limits() {
    let layer = SecurityLayer::dev_mode();
    assert_eq!(layer.session_start_rate.limit, usize::MAX);
    assert_eq!(layer.message_rate.limit, usize::MAX);
}

#[test]
fn from_env_defaults_without_env_vars() {
    let layer = insecure_layer();
    assert_eq!(layer.max_payload_bytes, 1_048_576);
}

fn raw_page_sizes(default_raw: Option<&str>, max_raw: Option<&str>) -> RawPageSizeEnv {
    RawPageSizeEnv {
        default_raw: default_raw.map(str::to_owned),
        max_raw: max_raw.map(str::to_owned),
    }
}

#[test]
fn from_env_page_size_defaults_without_env_vars() {
    assert_eq!(
        SecurityLayer::resolve_list_sessions_page_sizes(RawPageSizeEnv {
            default_raw: None,
            max_raw: None,
        }),
        (DEFAULT_LIST_SESSIONS_PAGE_SIZE, MAX_LIST_SESSIONS_PAGE_SIZE)
    );
    assert_eq!(DEFAULT_LIST_SESSIONS_PAGE_SIZE, 100);
    assert_eq!(MAX_LIST_SESSIONS_PAGE_SIZE, 1000);

    let layer = SecurityLayer::from_settings(
        RawLimits {
            max_payload_bytes: None,
            page_sizes: raw_page_sizes(None, None),
            session_starts_per_minute: None,
            messages_per_minute: None,
        },
        TextMap::new(),
        false,
    );
    assert_eq!(layer.list_sessions_default_page_size, 100);
    assert_eq!(layer.list_sessions_max_page_size, 1000);
}

#[test]
fn dev_mode_uses_production_page_size_defaults() {
    let layer = SecurityLayer::dev_mode();
    assert_eq!(layer.list_sessions_default_page_size, 100);
    assert_eq!(layer.list_sessions_max_page_size, 1000);
    assert_ne!(layer.list_sessions_default_page_size, usize::MAX);
    assert_ne!(layer.list_sessions_max_page_size, usize::MAX);
}

#[test]
fn from_env_clamps_default_page_size_to_max() {
    assert_eq!(
        SecurityLayer::resolve_list_sessions_page_sizes(raw_page_sizes(Some("5000"), None)),
        (1000, 1000)
    );
    assert_eq!(
        SecurityLayer::resolve_list_sessions_page_sizes(raw_page_sizes(
            Some("2000"),
            Some("50")
        )),
        (50, 50)
    );
    assert_eq!(
        SecurityLayer::resolve_list_sessions_page_sizes(raw_page_sizes(
            Some("50"),
            Some("200")
        )),
        (50, 200)
    );
    assert_eq!(
        SecurityLayer::resolve_list_sessions_page_sizes(raw_page_sizes(
            Some("200"),
            Some("200")
        )),
        (200, 200)
    );
}

#[test]
fn clamps_builtin_default_against_a_smaller_explicit_max() {
    assert_eq!(
        SecurityLayer::resolve_list_sessions_page_sizes(raw_page_sizes(None, Some("50"))),
        (50, 50),
        "the built-in default must clamp to a smaller explicit max, not stay above it"
    );

    let builtin = SecurityLayer::clamp_warning_message(false);
    let explicit = SecurityLayer::clamp_warning_message(true);
    assert!(
        !builtin.contains("MACP_LIST_SESSIONS_DEFAULT_PAGE_SIZE"),
        "the built-in-default warning must not name an unset variable: {builtin}"
    );
    assert!(
        builtin.contains("built-in") && builtin.contains("MACP_LIST_SESSIONS_MAX_PAGE_SIZE"),
        "the built-in-default warning must say where the default came from and name the max: {builtin}"
    );
    assert!(
        explicit.contains("MACP_LIST_SESSIONS_DEFAULT_PAGE_SIZE"),
        "an explicitly configured default must still be named: {explicit}"
    );
    assert_eq!(SecurityLayer::page_size_default_source(false), "built-in");
    assert_eq!(
        SecurityLayer::page_size_default_source(true),
        "MACP_LIST_SESSIONS_DEFAULT_PAGE_SIZE"
    );
}

#[test]
fn page_size_resolver_treats_zero_like_garbage() {
    assert_eq!(
        SecurityLayer::resolve_list_sessions_page_sizes(raw_page_sizes(Some("abc"), Some(""))),
        (100, 1000)
    );
    assert_eq!(
        SecurityLayer::resolve_list_sessions_page_sizes(raw_page_sizes(
            Some("-1"),
            Some("1e3")
        )),
        (100, 1000)
    );

    assert_eq!(
        SecurityLayer::resolve_list_sessions_page_sizes(raw_page_sizes(Some("0"), None)),
        (100, 1000),
        "a default of 0 falls back to the compiled-in default, not to 1"
    );
    assert_eq!(
        SecurityLayer::resolve_list_sessions_page_sizes(raw_page_sizes(None, Some("0"))),
        (100, 1000),
        "a max of 0 falls back to the compiled-in max and leaves the default alone"
    );
    assert_eq!(
        SecurityLayer::resolve_list_sessions_page_sizes(raw_page_sizes(Some("0"), Some("0"))),
        (100, 1000)
    );
    assert_eq!(
        SecurityLayer::resolve_list_sessions_page_sizes(raw_page_sizes(Some("0"), Some("25"))),
        (25, 25),
        "the good max is honored, and the fallback default clamps to it"
    );
    assert_eq!(
        SecurityLayer::resolve_list_sessions_page_sizes(raw_page_sizes(Some("7"), Some("0"))),
        (7, 1000),
        "the good default is honored against the compiled-in max"
    );

    for (default_raw, max_raw) in [
        (Some("0"), None),
        (None, Some("0")),
        (Some("0"), Some("0")),
        (Some("abc"), Some("0")),
    ] {
        let (default, max) = SecurityLayer::resolve_list_sessions_page_sizes(raw_page_sizes(
            default_raw,
            max_raw,
        ));
        assert!(
            default > 0 && max > 0,
            "{default_raw:?}/{max_raw:?} -> ({default}, {max})"
        );
    }

    assert_eq!(
        SecurityLayer::resolve_list_sessions_page_sizes(raw_page_sizes(None, Some("100000"))),
        (100, 100_000)
    );
}

#[test]
fn bearer_token_authentication_via_authorization_header() {
    let json = r#"[{"token":"tok-abc","sender":"agent://alice","allowed_modes":[],"can_start_sessions":true}]"#;
    let layer = layer_with_tokens(json);

    let mut meta = MetadataMap::new();
    meta.insert("authorization", "Bearer tok-abc".parse().unwrap());

    let id = layer
        .authenticate_metadata(&credentials(&meta))
        .expect("should authenticate");
    assert_eq!(id.sender, "agent://alice");
    assert!(id.allowed_modes.is_none());
    assert!(id.can_start_sessions);
}

#[test]
fn bearer_token_authentication_via_x_macp_token_header() {
    let json = r#"[{"token":"tok-xyz","sender":"agent://bob"}]"#;
    let layer = layer_with_tokens(json);

    let mut meta = MetadataMap::new();
    meta.insert("x-macp-token", "tok-xyz".parse().unwrap());

    let id = layer
        .authenticate_metadata(&credentials(&meta))
        .expect("should authenticate");
    assert_eq!(id.sender, "agent://bob");
}

#[test]
fn invalid_bearer_token_returns_unauthenticated() {
    let json = r#"[{"token":"tok-real","sender":"agent://alice"}]"#;
    let layer = layer_with_tokens(json);

    let mut meta = MetadataMap::new();
    meta.insert("authorization", "Bearer tok-fake".parse().unwrap());

    let err = layer.authenticate_metadata(&credentials(&meta)).unwrap_err();
    assert!(matches!(err, MacpError::Unauthenticated));
}

#[test]
fn no_token_when_auth_required_returns_unauthenticated() {
    let json = r#"[{"token":"tok-only","sender":"agent://sole"}]"#;
    let layer = layer_with_tokens(json);

    let meta = MetadataMap::new();
    let err = layer.authenticate_metadata(&credentials(&meta)).unwrap_err();
    assert!(matches!(err, MacpError::Unauthenticated));
}

#[test]
fn parse_identities_wrapped_format() {
    let json = r#"{"tokens":[{"token":"t1","sender":"agent://wrapped"}]}"#;
    let layer = layer_with_tokens(json);

    let mut meta = MetadataMap::new();
    meta.insert("authorization", "Bearer t1".parse().unwrap());
    let id = layer
        .authenticate_metadata(&credentials(&meta))
        .expect("should authenticate");
    assert_eq!(id.sender, "agent://wrapped");
}

#[test]
fn parse_identities_with_allowed_modes() {
    let json = r#"[{"token":"t-modes","sender":"agent://limited","allowed_modes":["macp.mode.decision.v1","macp.mode.task.v1"],"can_start_sessions":false,"max_open_sessions":5}]"#;
    let layer = layer_with_tokens(json);

    let mut meta = MetadataMap::new();
    meta.insert("authorization", "Bearer t-modes".parse().unwrap());
    let id = layer
        .authenticate_metadata(&credentials(&meta))
        .expect("should authenticate");

    assert_eq!(id.sender, "agent://limited");
    assert!(!id.can_start_sessions);
    assert_eq!(id.max_open_sessions, Some(5));
    let modes = id
        .allowed_modes
        .as_ref()
        .expect("should have allowed_modes");
    assert!(modes.contains("macp.mode.decision.v1"));
    assert!(modes.contains("macp.mode.task.v1"));
    assert!(!modes.contains("macp.mode.proposal.v1"));
}

#[test]
fn authorization_header_takes_priority_over_x_macp_token() {
    let json = r#"[
        {"token":"bearer-tok","sender":"agent://bearer-user"},
        {"token":"header-tok","sender":"agent://header-user"}
    ]"#;
    let layer = layer_with_tokens(json);

    let mut meta = MetadataMap::new();
    meta.insert("authorization", "Bearer bearer-tok".parse().unwrap());
    meta.insert("x-macp-token", "header-tok".parse().unwrap());

    let id = layer
        .authenticate_metadata(&credentials(&meta))
        .expect("should authenticate");
    assert_eq!(id.sender, "agent://bearer-user");
}

#[test]
fn dev_sender_header_rejected_without_chain() {
    let layer = layer(
        unlimited(),
        unlimited(),
    );

    let mut meta = MetadataMap::new();
    meta.insert("x-macp-agent-id", "agent://dev-agent".parse().unwrap());

    let err = layer.authenticate_metadata(&credentials(&meta)).unwrap_err();
    assert!(matches!(err, MacpError::Unauthenticated));
}

#[test]
fn dev_sender_header_ignored_when_not_allowed() {
    let layer = layer(
        unlimited(),
        unlimited(),
    );

    let mut meta = MetadataMap::new();
    meta.insert("x-macp-agent-id", "agent://sneaky".parse().unwrap());

    let err = layer.authenticate_metadata(&credentials(&meta)).unwrap_err();
    assert!(matches!(err, MacpError::Unauthenticated));
}

#[test]
fn bearer_token_takes_priority_over_dev_header() {
    let json = r#"[{"token":"real-tok","sender":"agent://real"}]"#;
    let identities = SecurityLayer::parse_identities(json).unwrap();

    let layer = SecurityLayer {
        identities,
        ..insecure_layer()
    };

    let mut meta = MetadataMap::new();
    meta.insert("authorization", "Bearer real-tok".parse().unwrap());
    meta.insert("x-macp-agent-id", "agent://dev-override".parse().unwrap());

    let id = layer
        .authenticate_metadata(&credentials(&meta))
        .expect("should authenticate via bearer");
    assert_eq!(id.sender, "agent://real");
}

#[test]
fn authorize_mode_allows_any_mode_when_no_restriction() {
    let layer = SecurityLayer::dev_mode();
    let id = AuthIdentity {
        sender: "agent://any".into(),
        allowed_modes: None,
        can_start_sessions: true,
        max_open_sessions: None,
        can_manage_mode_registry: false,
        is_observer: false,
    };
    assert!(layer
        .authorize_mode(&id, "macp.mode.decision.v1", false)
        .is_ok());
    assert!(layer.authorize_mode(&id, "macp.mode.task.v1", true).is_ok());
    assert!(layer.authorize_mode(&id, "arbitrary.mode", false).is_ok());
}

#[test]
fn authorize_mode_rejects_unlisted_mode() {
    let layer = SecurityLayer::dev_mode();
    let mut allowed = TextSet::new();
    allowed.insert("macp.mode.decision.v1".to_string());

    let id = AuthIdentity {
        sender: "agent://restricted".into(),
        allowed_modes: Some(allowed),
        can_start_sessions: true,
        max_open_sessions: None,
        can_manage_mode_registry: false,
        is_observer: false,
    };
    assert!(layer
        .authorize_mode(&id, "macp.mode.decision.v1", false)
        .is_ok());
    let err = layer
        .authorize_mode(&id, "macp.mode.task.v1", false)
        .unwrap_err();
    assert!(matches!(err, MacpError::Forbidden));
}

#[test]
fn authorize_mode_rejects_session_start_when_not_allowed() {
    let layer = SecurityLayer::dev_mode();
    let id = AuthIdentity {
        sender: "agent://no-start".into(),
        allowed_modes: None,
        can_start_sessions: false,
        max_open_sessions: None,
        can_manage_mode_registry: false,
        is_observer: false,
    };
    let err = layer
        .authorize_mode(&id, "macp.mode.decision.v1", true)
        .unwrap_err();
    assert!(matches!(err, MacpError::Forbidden));
}

#[test]
fn authorize_mode_allows_non_session_start_even_when_start_forbidden() {
    let layer = SecurityLayer::dev_mode();
    let id = AuthIdentity {
        sender: "agent://no-start".into(),
        allowed_modes: None,
        can_start_sessions: false,
        max_open_sessions: None,
        can_manage_mode_registry: false,
        is_observer: false,
    };
    assert!(layer
        .authorize_mode(&id, "macp.mode.decision.v1", false)
        .is_ok());
}

#[test]
fn authorize_mode_checks_both_can_start_and_allowed_modes() {
    let layer = SecurityLayer::dev_mode();
    let mut allowed = TextSet::new();
    allowed.insert("macp.mode.decision.v1".to_string());

    let id = AuthIdentity {
        sender: "agent://double-check".into(),
        allowed_modes: Some(allowed),
        can_start_sessions: false,
        max_open_sessions: None,
        can_manage_mode_registry: false,
        is_observer: false,
    };

    let err = layer
        .authorize_mode(&id, "macp.mode.decision.v1", true)
        .unwrap_err();
    assert!(matches!(err, MacpError::Forbidden));

    let err = layer
        .authorize_mode(&id, "macp.mode.task.v1", false)
        .unwrap_err();
    assert!(matches!(err, MacpError::Forbidden));

    assert!(layer
        .authorize_mode(&id, "macp.mode.decision.v1", false)
        .is_ok());
}

#[test]
fn authorize_mode_registry_requires_explicit_privilege() {
    let layer = SecurityLayer::dev_mode();
    let id = AuthIdentity {
        sender: "agent://no-admin".into(),
        allowed_modes: None,
        can_start_sessions: true,
        max_open_sessions: None,
        is_observer: false,
        can_manage_mode_registry: false,
    };
    let err = layer.authorize_mode_registry(&id).unwrap_err();
    assert!(matches!(err, MacpError::Forbidden));
}

#[test]
fn bearer_token_can_manage_mode_registry() {
    let json =
        r#"[{"token":"admin-tok","sender":"agent://admin","can_manage_mode_registry":true}]"#;
    let layer = layer_with_tokens(json);
    let mut meta = MetadataMap::new();
    meta.insert("authorization", "Bearer admin-tok".parse().unwrap());
    let id = layer.authenticate_metadata(&credentials(&meta)).unwrap();
    assert!(layer.authorize_mode_registry(&id).is_ok());
}

#[test]
fn rate_limit_session_start_enforced() {
    let mut bucket = RateBucket::new();
    let now: u64 = 1_000;
    let layer = layer(
        RateLimitConfig {
            limit: 3,
            window_ns: MINUTE_NS,
        },
        unlimited(),
    );

    let sender = "agent://rate-test";
    for _ in 0..3 {
        assert!(layer.enforce_rate_limit(&mut bucket, sender, true, now).is_ok());
    }
    let err = layer.enforce_rate_limit(&mut bucket, sender, true, now).unwrap_err();
    assert!(matches!(err, MacpError::RateLimited));

    assert!(layer.enforce_rate_limit(&mut bucket, sender, false, now).is_ok());
}

#[test]
fn rate_limit_message_enforced() {
    let mut bucket = RateBucket::new();
    let now: u64 = 1_000;
    let layer = layer(
        unlimited(),
        RateLimitConfig {
            limit: 2,
            window_ns: MINUTE_NS,
        },
    );

    let sender = "agent://msg-test";
    assert!(layer.enforce_rate_limit(&mut bucket, sender, false, now).is_ok());
    assert!(layer.enforce_rate_limit(&mut bucket, sender, false, now).is_ok());
    let err = layer.enforce_rate_limit(&mut bucket, sender, false, now).unwrap_err();
    assert!(matches!(err, MacpError::RateLimited));

    assert!(layer.enforce_rate_limit(&mut bucket, sender, true, now).is_ok());
}

#[test]
fn rate_limit_per_sender_isolation() {
    let mut bucket = RateBucket::new();
    let now: u64 = 1_000;
    let layer = layer(
        RateLimitConfig {
            limit: 1,
            window_ns: MINUTE_NS,
        },
        unlimited(),
    );

    assert!(layer.enforce_rate_limit(&mut bucket, "agent://a", true, now).is_ok());
    assert!(layer.enforce_rate_limit(&mut bucket, "agent://a", true, now).is_err());

    assert!(layer.enforce_rate_limit(&mut bucket, "agent://b", true, now).is_ok());
}

#[test]
fn rate_limit_window_expiry() {
    let mut bucket = RateBucket::new();
    let mut now: u64 = 1_000;
    let layer = layer(
        RateLimitConfig {
            limit: 1,
            window_ns: 1_000_000,
        },
        unlimited(),
    );

    let sender = "agent://expiry-test";
    assert!(layer.enforce_rate_limit(&mut bucket, sender, true, now).is_ok());

    now += 5_000_000;

    assert!(layer.enforce_rate_limit(&mut bucket, sender, true, now).is_ok());
}

#[test]
fn no_anonymous_fallback_even_when_auth_not_required() {
    let layer = insecure_layer();
    let meta = MetadataMap::new();
    let err = layer.authenticate_metadata(&credentials(&meta)).unwrap_err();
    assert!(matches!(err, MacpError::Unauthenticated));
}

#[test]
fn no_anonymous_fallback_when_auth_required() {
    let json = r#"[{"token":"t","sender":"agent://real"}]"#;
    let layer = layer_with_tokens(json);

    let meta = MetadataMap::new();
    let err = layer.authenticate_metadata(&credentials(&meta)).unwrap_err();
    assert!(matches!(err, MacpError::Unauthenticated));
}

#[test]
fn dev_mode_no_fallback_with_empty_metadata() {
    let layer = SecurityLayer::dev_mode();
    let meta = MetadataMap::new();
    let err = layer.authenticate_metadata(&credentials(&meta)).unwrap_err();
    assert!(matches!(err, MacpError::Unauthenticated));
}

#[test]
fn token_file_loading_via_parse_identities() {
    let json = r#"[
        {"token":"file-tok-1","sender":"agent://file-alice","allowed_modes":["macp.mode.decision.v1"]},
        {"token":"file-tok-2","sender":"agent://file-bob","can_start_sessions":false}
    ]"#;
    let identities = SecurityLayer::parse_identities(json).expect("parse identities");

    assert_eq!(identities.len(), 2);

    let alice = identities.get("file-tok-1").expect("alice entry");
    assert_eq!(alice.sender, "agent://file-alice");
    let alice_modes = alice.allowed_modes.as_ref().expect("should have modes");
    assert!(alice_modes.contains("macp.mode.decision.v1"));
    assert!(alice.can_start_sessions);

    let bob = identities.get("file-tok-2").expect("bob entry");
    assert_eq!(bob.sender, "agent://file-bob");
    assert!(!bob.can_start_sessions);
    assert!(bob.allowed_modes.is_none());
}

#[test]
fn token_file_end_to_end_via_layer() {
    let json = r#"[{"token":"e2e-tok","sender":"agent://e2e-agent"}]"#;
    let layer = layer_with_tokens(json);

    let mut meta = MetadataMap::new();
    meta.insert("authorization", "Bearer e2e-tok".parse().unwrap());
    let id = layer
        .authenticate_metadata(&credentials(&meta))
        .expect("should authenticate");
    assert_eq!(id.sender, "agent://e2e-agent");
}

#[test]
fn parse_identities_invalid_json_returns_error() {
    let result = SecurityLayer::parse_identities("not valid json");
    assert!(result.is_err());
}

#[test]
fn parse_identities_empty_list() {
    let identities = SecurityLayer::parse_identities("[]").expect("valid empty list");
    assert!(identities.is_empty());
}

#[test]
fn parse_identities_wrapped_empty() {
    let identities =
        SecurityLayer::parse_identities(r#"{"tokens":[]}"#).expect("valid wrapped empty");
    assert!(identities.is_empty());
}

#[test]
fn rate_bucket_sweep_removes_stale_senders() {
    let mut log = EventLog::new();
    let config = RateLimitConfig {
        limit: 10,
        window_ns: 1_000_000,
    };

    for i in 0..50 {
        log.check(&format!("agent://stale-{i}"), 1_000, &config).unwrap();
    }
    assert!(log.senders() >= 49);

    for _ in 0..80 {
        log.check("agent://fresh", 5_001_000, &config).ok();
    }
    assert!(
        log.senders() <= 2,
        "stale senders must be swept; map still has {} entries",
        log.senders()
    );
    assert!(log.knows("agent://fresh"));
}
