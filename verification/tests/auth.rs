use macp::auth::chain::{advance, begin, ChainAction};
use macp::auth::settings::{
    algorithm_named, auth_asked_for, plan_jwt, read_algorithms, split_commas, token_source,
    unknown_algorithms, JwksSource, JwtAlgorithm, RawJwtEnv, TokenSource,
};
use macp::auth::{AuthError, ResolvedIdentity};
use macp::error::MacpError;
use macp::security::AuthIdentity;
use macp::text_map::TextSet;

#[test]
fn auth_error_display_covers_all_variants() {
    assert_eq!(
        AuthError::InvalidCredential("bad token".to_string()).to_string(),
        "invalid credential: bad token"
    );
    assert_eq!(AuthError::Expired.to_string(), "credential expired");
    assert_eq!(
        AuthError::MissingClaim("sub".to_string()).to_string(),
        "missing required claim: sub"
    );
    assert_eq!(
        AuthError::FetchFailed("connection refused".to_string()).to_string(),
        "key fetch failed: connection refused"
    );
}

#[test]
fn resolved_identity_converts_to_auth_identity_preserving_fields() {
    let mut modes = TextSet::new();
    modes.insert("macp.mode.decision.v1".to_string());
    let resolved = ResolvedIdentity {
        sender: "agent://alice".to_string(),
        allowed_modes: Some(modes.clone()),
        can_start_sessions: false,
        max_open_sessions: Some(3),
        can_manage_mode_registry: true,
        is_observer: true,
        resolver: "jwt_bearer".to_string(),
    };

    let identity: AuthIdentity = resolved.into();
    assert_eq!(identity.sender, "agent://alice");
    assert_eq!(identity.allowed_modes, Some(modes));
    assert!(!identity.can_start_sessions);
    assert_eq!(identity.max_open_sessions, Some(3));
    assert!(identity.can_manage_mode_registry);
    assert!(identity.is_observer);
}

enum Outcome {
    Claim(&'static str),
    Decline,
    Fail,
}

fn outcome(outcome: &Outcome) -> Result<Option<ResolvedIdentity>, AuthError> {
    match outcome {
        Outcome::Claim(sender) => Ok(Some(ResolvedIdentity {
            sender: sender.to_string(),
            allowed_modes: None,
            can_start_sessions: true,
            max_open_sessions: None,
            can_manage_mode_registry: false,
            is_observer: false,
            resolver: "stub".to_string(),
        })),
        Outcome::Decline => Ok(None),
        Outcome::Fail => Err(AuthError::InvalidCredential("stub rejection".to_string())),
    }
}

fn run(outcomes: &[Outcome]) -> (Result<AuthIdentity, MacpError>, usize) {
    let mut calls = 0;
    let mut action = begin(outcomes.len());
    loop {
        match action {
            ChainAction::Done(result) => return (result, calls),
            ChainAction::Ask(i) => {
                assert_eq!(i, calls);
                calls += 1;
                action = advance(outcomes.len(), i, outcome(&outcomes[i]));
            }
        }
    }
}

#[test]
fn first_resolver_that_claims_the_credential_wins() {
    let (result, calls) = run(&[
        Outcome::Claim("agent://first"),
        Outcome::Claim("agent://second"),
    ]);
    assert_eq!(result.expect("ok").sender, "agent://first");
    assert_eq!(calls, 1, "chain must stop at the first positive verification");
}

#[test]
fn declining_resolver_passes_to_the_next() {
    let (result, calls) = run(&[Outcome::Decline, Outcome::Claim("agent://second")]);
    assert_eq!(result.expect("ok").sender, "agent://second");
    assert_eq!(calls, 2);
}

#[test]
fn all_resolvers_declining_yields_unauthenticated() {
    let (result, calls) = run(&[Outcome::Decline, Outcome::Decline]);
    assert!(matches!(result.unwrap_err(), MacpError::Unauthenticated));
    assert_eq!(calls, 2);
}

#[test]
fn resolver_error_stops_the_chain_as_unauthenticated() {
    let (result, calls) = run(&[Outcome::Fail, Outcome::Claim("agent://second")]);
    assert!(matches!(result.unwrap_err(), MacpError::Unauthenticated));
    assert_eq!(
        calls, 1,
        "a hard resolver error must not fall through to later resolvers"
    );
}

#[test]
fn empty_chain_is_unauthenticated() {
    let (result, calls) = run(&[]);
    assert!(matches!(result.unwrap_err(), MacpError::Unauthenticated));
    assert_eq!(calls, 0);
}

#[test]
fn tokens_set_outright_go_before_a_file() {
    let some = |s: &str| Some(s.to_string());
    assert!(matches!(
        token_source(some("[]"), some("tokens.json")),
        TokenSource::Inline(text) if text == "[]"
    ));
    assert!(matches!(
        token_source(None, some("tokens.json")),
        TokenSource::File(path) if path == "tokens.json"
    ));
    assert!(matches!(token_source(None, None), TokenSource::Nowhere));
}

#[test]
fn algorithms_are_read_from_a_list() {
    assert_eq!(algorithm_named("ES256"), Some(JwtAlgorithm::ES256));
    assert_eq!(algorithm_named("es256"), None);
    assert_eq!(split_commas("a,,b c,"), vec!["a", "", "b c", ""]);
    assert_eq!(split_commas(""), vec![""]);
    assert_eq!(
        read_algorithms(&Some(" hs256 , RS256,none".to_string())),
        vec![JwtAlgorithm::HS256, JwtAlgorithm::RS256]
    );
}

#[test]
fn asymmetric_algorithms_are_the_default() {
    let default = vec![JwtAlgorithm::RS256, JwtAlgorithm::ES256];
    assert_eq!(read_algorithms(&None), default);
    assert_eq!(read_algorithms(&Some("none, ".to_string())), default);
}

fn jwt_env() -> RawJwtEnv {
    RawJwtEnv {
        issuer: Some("https://issuer.example".to_string()),
        audience: None,
        jwks_ttl_secs: None,
        algorithms: None,
        jwks_json: None,
        jwks_url: Some("https://issuer.example/keys".to_string()),
    }
}

#[test]
fn signed_tokens_need_an_issuer_and_keys() {
    let plan = plan_jwt(jwt_env()).unwrap();
    assert_eq!(plan.issuer, "https://issuer.example");
    assert_eq!(plan.audience, "macp-runtime");
    assert!(matches!(plan.source, JwksSource::Url(url, 300) if url.ends_with("/keys")));

    let plan = plan_jwt(RawJwtEnv {
        jwks_ttl_secs: Some("17".to_string()),
        audience: Some("mine".to_string()),
        ..jwt_env()
    })
    .unwrap();
    assert_eq!(plan.audience, "mine");
    assert!(matches!(plan.source, JwksSource::Url(_, 17)));

    let plan = plan_jwt(RawJwtEnv {
        jwks_json: Some("{}".to_string()),
        ..jwt_env()
    })
    .unwrap();
    assert!(matches!(plan.source, JwksSource::Inline(text) if text == "{}"));

    assert!(plan_jwt(RawJwtEnv {
        issuer: None,
        ..jwt_env()
    })
    .is_none());
    assert!(plan_jwt(RawJwtEnv {
        jwks_url: None,
        ..jwt_env()
    })
    .is_none());
}

#[test]
fn unknown_algorithms_are_reported() {
    assert_eq!(
        unknown_algorithms(&Some(" hs256 , RS256,none".to_string())),
        vec!["NONE".to_string()]
    );
    assert_eq!(
        unknown_algorithms(&Some("es256,".to_string())),
        vec![String::new()]
    );
    assert!(unknown_algorithms(&Some("ES256".to_string())).is_empty());
    assert!(unknown_algorithms(&None).is_empty());
}

#[test]
fn an_issuer_or_tokens_ask_for_authentication() {
    let no_issuer = RawJwtEnv {
        issuer: None,
        ..jwt_env()
    };
    assert!(!auth_asked_for(&no_issuer, &TokenSource::Nowhere));
    assert!(auth_asked_for(&jwt_env(), &TokenSource::Nowhere));
    assert!(auth_asked_for(
        &no_issuer,
        &TokenSource::Inline("[]".to_string())
    ));
    assert!(auth_asked_for(
        &no_issuer,
        &TokenSource::File("tokens.json".to_string())
    ));
    let no_keys = RawJwtEnv {
        jwks_url: None,
        ..jwt_env()
    };
    assert!(plan_jwt(no_keys.clone()).is_none());
    assert!(auth_asked_for(&no_keys, &TokenSource::Nowhere));
}
