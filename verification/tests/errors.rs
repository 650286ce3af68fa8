use macp::error::MacpError;
use macp::mode::util::{gate_commitment, participants_all_accept};
use macp::policy::PolicyDecision;
use macp::text_map::TextMap;

#[test]
fn every_error_has_a_name_and_a_code() {
    let denied = MacpError::PolicyDenied {
        reasons: vec!["no".into()],
    };
    for (error, name, code) in [
        (MacpError::InvalidEnvelope, "InvalidEnvelope", "INVALID_ENVELOPE"),
        (MacpError::SessionNotOpen, "SessionNotOpen", "SESSION_NOT_OPEN"),
        (MacpError::TtlExpired, "TtlExpired", "SESSION_NOT_OPEN"),
        (MacpError::InvalidTtl, "InvalidTtl", "INVALID_ENVELOPE"),
        (MacpError::InvalidSessionId, "InvalidSessionId", "INVALID_SESSION_ID"),
        (MacpError::InvalidModeState, "InvalidModeState", "INVALID_ENVELOPE"),
        (MacpError::InvalidPayload, "InvalidPayload", "INVALID_ENVELOPE"),
        (MacpError::Forbidden, "Forbidden", "FORBIDDEN"),
        (MacpError::Unauthenticated, "Unauthenticated", "UNAUTHENTICATED"),
        (MacpError::RateLimited, "RateLimited", "RATE_LIMITED"),
        (denied, "PolicyDenied", "POLICY_DENIED"),
    ] {
        assert_eq!(error.to_string(), name);
        assert_eq!(error.error_code(), code);
    }
}

#[test]
fn only_allow_lets_a_commitment_through() {
    assert!(gate_commitment(PolicyDecision::Allow { reasons: vec![] }).is_ok());
    let reasons = vec!["quorum not met".to_string()];
    assert_eq!(
        gate_commitment(PolicyDecision::Deny {
            reasons: reasons.clone()
        }),
        Err(MacpError::PolicyDenied { reasons })
    );
}

#[test]
fn acceptance_needs_everyone_and_the_same_proposal() {
    let names = vec!["alice".to_string(), "bob".to_string()];
    let mut accepts = TextMap::new();
    assert!(!participants_all_accept(&[], &accepts, "p1"));
    accepts.insert("alice".into(), "p1".to_string());
    assert!(!participants_all_accept(&names, &accepts, "p1"));
    accepts.insert("bob".into(), "p2".to_string());
    assert!(!participants_all_accept(&names, &accepts, "p1"));
    accepts.insert("bob".into(), "p1".to_string());
    assert!(participants_all_accept(&names, &accepts, "p1"));
}
