use macp::error::MacpError;
use macp::mode::handoff::{HandoffMode, IMPLICIT_ACCEPT_MESSAGE_ID_PREFIX};
use macp::mode::handoff_state::{HandoffDisposition, HandoffOfferRecord};
use macp::mode::{MessageContext, Mode, ModeResponse};
use macp::pb::commitment::CommitmentPayload;
use macp::pb::envelope::Envelope;
use macp::pb::handoff::{
    HandoffAcceptPayload, HandoffContextPayload, HandoffDeclinePayload, HandoffOfferPayload,
};
use macp::policy::{
    CommitmentContext, CommitmentMode, PolicyDecision, PolicyDefinition, PolicyEvaluator,
};
use macp::session::{Session, CURRENT_SEMANTICS_REV};
use macp::step::validate_message;
use std::sync::Arc;

fn json(text: &str) -> serde_json::Value {
    serde_json::from_str(text).expect("valid JSON")
}

struct Evaluator;

impl PolicyEvaluator for Evaluator {
    fn evaluate_commitment(&self, ctx: &CommitmentContext<'_>) -> PolicyDecision {
        match ctx.mode {
            CommitmentMode::Handoff => PolicyDecision::Allow { reasons: vec![] },
            _ => PolicyDecision::Deny { reasons: vec![] },
        }
    }
}

type Handoff = HandoffMode<Evaluator>;

fn now_ms() -> i64 {
    let now = std::time::SystemTime::now();
    let elapsed = now.duration_since(std::time::UNIX_EPOCH).unwrap();
    elapsed.as_millis() as i64
}

fn base_session() -> Session {
    Session::builder("s1", "macp.mode.handoff.v1", "owner")
        .ttl_ms(60_000)
        .participants(vec!["owner".into(), "target".into()])
        .mode_version("1.0.0")
        .configuration_version("config")
        .policy_version("policy")
        .build()
}

fn env(sender: &str, message_type: &str, payload: Vec<u8>) -> Envelope {
    Envelope {
        macp_version: "1.0".into(),
        mode: "macp.mode.handoff.v1".into(),
        message_type: message_type.into(),
        message_id: format!("{}-{}", sender, message_type),
        session_id: "s1".into(),
        sender: sender.into(),
        timestamp_unix_ms: now_ms(),
        payload,
    }
}

fn commitment_payload() -> Vec<u8> {
    CommitmentPayload {
        commitment_id: "c1".into(),
        action: "handoff.accepted".into(),
        authority_scope: "support".into(),
        reason: "accepted".into(),
        mode_version: "1.0.0".into(),
        policy_version: "policy".into(),
        configuration_version: "config".into(),
        outcome_positive: true,
        supersedes: None,
    }
    .encode_to_vec()
}

fn apply(session: &mut Session, result: ModeResponse) {
    match result {
        ModeResponse::PersistState(data) => session.mode_state = data,
        ModeResponse::PersistAndResolve { state, .. } => session.mode_state = state,
        _ => {}
    }
}

fn make_offer(handoff_id: &str, target: &str) -> Vec<u8> {
    HandoffOfferPayload {
        handoff_id: handoff_id.into(),
        target_participant: target.into(),
        scope: "support".into(),
        reason: "escalate".into(),
    }
    .encode_to_vec()
}

fn make_context(handoff_id: &str) -> Vec<u8> {
    HandoffContextPayload {
        handoff_id: handoff_id.into(),
        content_type: "text/plain".into(),
        context: b"background info".to_vec(),
    }
    .encode_to_vec()
}

fn make_accept(handoff_id: &str, accepted_by: &str) -> Vec<u8> {
    HandoffAcceptPayload {
        handoff_id: handoff_id.into(),
        accepted_by: accepted_by.into(),
        reason: "ready".into(),
        implicit: false,
    }
    .encode_to_vec()
}

fn make_decline(handoff_id: &str, declined_by: &str) -> Vec<u8> {
    HandoffDeclinePayload {
        handoff_id: handoff_id.into(),
        declined_by: declined_by.into(),
        reason: "busy".into(),
    }
    .encode_to_vec()
}

#[test]
fn handoff_session_start_initializes_state() {
    let mode = HandoffMode::new(Arc::new(Evaluator));
    let session = base_session();
    let result = mode
        .on_session_start(&session, &env("owner", "SessionStart", vec![]))
        .unwrap();
    match result {
        ModeResponse::PersistState(data) => {
            let state = Handoff::decode_state(&data).unwrap();
            assert!(state.offers.is_empty());
        }
        _ => panic!("Expected PersistState"),
    }
}

#[test]
fn session_start_requires_two_participants() {
    let mode = HandoffMode::new(Arc::new(Evaluator));
    let mut session = base_session();
    session.participants = vec!["owner".into()];
    let err = mode
        .on_session_start(&session, &env("owner", "SessionStart", vec![]))
        .unwrap_err();
    assert_eq!(err.to_string(), "InvalidPayload");
}

#[test]
fn session_start_rejects_when_initiator_not_participant() {
    let mode = HandoffMode::new(Arc::new(Evaluator));
    let mut session = base_session();
    session.participants = vec!["target".into(), "other".into()];
    let err = mode
        .on_session_start(&session, &env("owner", "SessionStart", vec![]))
        .unwrap_err();
    assert_eq!(err.to_string(), "InvalidPayload");
}

#[test]
fn offer_creates_entry() {
    let mode = HandoffMode::new(Arc::new(Evaluator));
    let mut session = base_session();
    let result = mode
        .on_session_start(&session, &env("owner", "SessionStart", vec![]))
        .unwrap();
    apply(&mut session, result);
    let result = mode
        .on_message(
            &session,
            &env("owner", "HandoffOffer", make_offer("h1", "target")),
        )
        .unwrap();
    match result {
        ModeResponse::PersistState(data) => {
            let state = Handoff::decode_state(&data).unwrap();
            assert!(state.offers.contains_key("h1"));
            assert_eq!(state.offers.get("h1").unwrap().disposition, HandoffDisposition::Offered);
        }
        _ => panic!("Expected PersistState"),
    }
}

#[test]
fn duplicate_offer_id_rejected() {
    let mode = HandoffMode::new(Arc::new(Evaluator));
    let mut session = base_session();
    let result = mode
        .on_session_start(&session, &env("owner", "SessionStart", vec![]))
        .unwrap();
    apply(&mut session, result);
    let result = mode
        .on_message(
            &session,
            &env("owner", "HandoffOffer", make_offer("h1", "target")),
        )
        .unwrap();
    apply(&mut session, result);
    let err = mode
        .on_message(
            &session,
            &env("owner", "HandoffOffer", make_offer("h1", "target")),
        )
        .unwrap_err();
    assert_eq!(err.to_string(), "InvalidPayload");
}

#[test]
fn offer_to_self_rejected() {
    let mode = HandoffMode::new(Arc::new(Evaluator));
    let mut session = base_session();
    let result = mode
        .on_session_start(&session, &env("owner", "SessionStart", vec![]))
        .unwrap();
    apply(&mut session, result);
    let err = mode
        .on_message(
            &session,
            &env("owner", "HandoffOffer", make_offer("h1", "owner")),
        )
        .unwrap_err();
    assert_eq!(err.to_string(), "InvalidPayload");
}

#[test]
fn offer_to_non_participant_rejected() {
    let mode = HandoffMode::new(Arc::new(Evaluator));
    let mut session = base_session();
    let result = mode
        .on_session_start(&session, &env("owner", "SessionStart", vec![]))
        .unwrap();
    apply(&mut session, result);
    let err = mode
        .on_message(
            &session,
            &env("owner", "HandoffOffer", make_offer("h1", "outsider")),
        )
        .unwrap_err();
    assert_eq!(err.to_string(), "InvalidPayload");
}

#[test]
fn context_for_existing_offer() {
    let mode = HandoffMode::new(Arc::new(Evaluator));
    let mut session = base_session();
    let result = mode
        .on_session_start(&session, &env("owner", "SessionStart", vec![]))
        .unwrap();
    apply(&mut session, result);
    let result = mode
        .on_message(
            &session,
            &env("owner", "HandoffOffer", make_offer("h1", "target")),
        )
        .unwrap();
    apply(&mut session, result);
    let result = mode
        .on_message(
            &session,
            &env("owner", "HandoffContext", make_context("h1")),
        )
        .unwrap();
    match result {
        ModeResponse::PersistState(data) => {
            let state = Handoff::decode_state(&data).unwrap();
            assert_eq!(state.contexts.get("h1").unwrap().len(), 1);
            assert_eq!(state.contexts.get("h1").unwrap()[0].content_type, "text/plain");
            assert_eq!(state.contexts.get("h1").unwrap()[0].sender, "owner");
        }
        _ => panic!("Expected PersistState"),
    }
}

#[test]
fn context_from_non_offerer_rejected() {
    let mode = HandoffMode::new(Arc::new(Evaluator));
    let mut session = base_session();
    let result = mode
        .on_session_start(&session, &env("owner", "SessionStart", vec![]))
        .unwrap();
    apply(&mut session, result);
    let result = mode
        .on_message(
            &session,
            &env("owner", "HandoffOffer", make_offer("h1", "target")),
        )
        .unwrap();
    apply(&mut session, result);
    let err = mode
        .on_message(
            &session,
            &env("target", "HandoffContext", make_context("h1")),
        )
        .unwrap_err();
    assert_eq!(err.to_string(), "Forbidden");
}

#[test]
fn target_can_accept() {
    let mode = HandoffMode::new(Arc::new(Evaluator));
    let mut session = base_session();
    let result = mode
        .on_session_start(&session, &env("owner", "SessionStart", vec![]))
        .unwrap();
    apply(&mut session, result);
    let result = mode
        .on_message(
            &session,
            &env("owner", "HandoffOffer", make_offer("h1", "target")),
        )
        .unwrap();
    apply(&mut session, result);
    let result = mode
        .on_message(
            &session,
            &env("target", "HandoffAccept", make_accept("h1", "target")),
        )
        .unwrap();
    match result {
        ModeResponse::PersistState(data) => {
            let state = Handoff::decode_state(&data).unwrap();
            assert_eq!(state.offers.get("h1").unwrap().disposition, HandoffDisposition::Accepted);
        }
        _ => panic!("Expected PersistState"),
    }
}

#[test]
fn client_submitted_implicit_accept_is_rejected() {
    let mode = HandoffMode::new(Arc::new(Evaluator));
    let mut session = base_session();
    let result = mode
        .on_session_start(&session, &env("owner", "SessionStart", vec![]))
        .unwrap();
    apply(&mut session, result);
    let result = mode
        .on_message(
            &session,
            &env("owner", "HandoffOffer", make_offer("h1", "target")),
        )
        .unwrap();
    apply(&mut session, result);
    let forged_accept = HandoffAcceptPayload {
        handoff_id: "h1".into(),
        accepted_by: "target".into(),
        reason: "ready".into(),
        implicit: true,
    }
    .encode_to_vec();
    let err = mode
        .on_message(&session, &env("target", "HandoffAccept", forged_accept))
        .unwrap_err();
    assert_eq!(err.to_string(), "InvalidPayload");
}

#[test]
fn wrong_target_cannot_accept() {
    let mode = HandoffMode::new(Arc::new(Evaluator));
    let mut session = base_session();
    let result = mode
        .on_session_start(&session, &env("owner", "SessionStart", vec![]))
        .unwrap();
    apply(&mut session, result);
    let result = mode
        .on_message(
            &session,
            &env("owner", "HandoffOffer", make_offer("h1", "target")),
        )
        .unwrap();
    apply(&mut session, result);
    let err = mode
        .on_message(
            &session,
            &env("owner", "HandoffAccept", make_accept("h1", "owner")),
        )
        .unwrap_err();
    assert_eq!(err.to_string(), "Forbidden");
}

#[test]
fn target_can_decline() {
    let mode = HandoffMode::new(Arc::new(Evaluator));
    let mut session = base_session();
    let result = mode
        .on_session_start(&session, &env("owner", "SessionStart", vec![]))
        .unwrap();
    apply(&mut session, result);
    let result = mode
        .on_message(
            &session,
            &env("owner", "HandoffOffer", make_offer("h1", "target")),
        )
        .unwrap();
    apply(&mut session, result);
    let result = mode
        .on_message(
            &session,
            &env("target", "HandoffDecline", make_decline("h1", "target")),
        )
        .unwrap();
    match result {
        ModeResponse::PersistState(data) => {
            let state = Handoff::decode_state(&data).unwrap();
            assert_eq!(state.offers.get("h1").unwrap().disposition, HandoffDisposition::Declined);
        }
        _ => panic!("Expected PersistState"),
    }
}

#[test]
fn cannot_accept_already_accepted() {
    let mode = HandoffMode::new(Arc::new(Evaluator));
    let mut session = base_session();
    let result = mode
        .on_session_start(&session, &env("owner", "SessionStart", vec![]))
        .unwrap();
    apply(&mut session, result);
    let result = mode
        .on_message(
            &session,
            &env("owner", "HandoffOffer", make_offer("h1", "target")),
        )
        .unwrap();
    apply(&mut session, result);
    let result = mode
        .on_message(
            &session,
            &env("target", "HandoffAccept", make_accept("h1", "target")),
        )
        .unwrap();
    apply(&mut session, result);
    let err = mode
        .on_message(
            &session,
            &env("target", "HandoffAccept", make_accept("h1", "target")),
        )
        .unwrap_err();
    assert_eq!(err.to_string(), "InvalidPayload");
}

#[test]
fn commitment_after_accept() {
    let mode = HandoffMode::new(Arc::new(Evaluator));
    let mut session = base_session();
    let result = mode
        .on_session_start(&session, &env("owner", "SessionStart", vec![]))
        .unwrap();
    apply(&mut session, result);
    let result = mode
        .on_message(
            &session,
            &env("owner", "HandoffOffer", make_offer("h1", "target")),
        )
        .unwrap();
    apply(&mut session, result);
    let result = mode
        .on_message(
            &session,
            &env("target", "HandoffAccept", make_accept("h1", "target")),
        )
        .unwrap();
    apply(&mut session, result);
    let result = mode
        .on_message(&session, &env("owner", "Commitment", commitment_payload()))
        .unwrap();
    assert!(matches!(result, ModeResponse::PersistAndResolve { .. }));
}

#[test]
fn commitment_after_decline() {
    let mode = HandoffMode::new(Arc::new(Evaluator));
    let mut session = base_session();
    let result = mode
        .on_session_start(&session, &env("owner", "SessionStart", vec![]))
        .unwrap();
    apply(&mut session, result);
    let result = mode
        .on_message(
            &session,
            &env("owner", "HandoffOffer", make_offer("h1", "target")),
        )
        .unwrap();
    apply(&mut session, result);
    let result = mode
        .on_message(
            &session,
            &env("target", "HandoffDecline", make_decline("h1", "target")),
        )
        .unwrap();
    apply(&mut session, result);
    let result = mode
        .on_message(&session, &env("owner", "Commitment", commitment_payload()))
        .unwrap();
    assert!(matches!(result, ModeResponse::PersistAndResolve { .. }));
}

#[test]
fn commitment_without_response_rejected() {
    let mode = HandoffMode::new(Arc::new(Evaluator));
    let mut session = base_session();
    let result = mode
        .on_session_start(&session, &env("owner", "SessionStart", vec![]))
        .unwrap();
    apply(&mut session, result);
    let result = mode
        .on_message(
            &session,
            &env("owner", "HandoffOffer", make_offer("h1", "target")),
        )
        .unwrap();
    apply(&mut session, result);
    let err = mode
        .on_message(&session, &env("owner", "Commitment", commitment_payload()))
        .unwrap_err();
    assert_eq!(err.to_string(), "InvalidPayload");
}

#[test]
fn commitment_with_no_offers_rejected() {
    let mode = HandoffMode::new(Arc::new(Evaluator));
    let mut session = base_session();
    let result = mode
        .on_session_start(&session, &env("owner", "SessionStart", vec![]))
        .unwrap();
    apply(&mut session, result);
    let err = mode
        .on_message(&session, &env("owner", "Commitment", commitment_payload()))
        .unwrap_err();
    assert_eq!(err.to_string(), "InvalidPayload");
}

#[test]
fn full_handoff_lifecycle() {
    let mode = HandoffMode::new(Arc::new(Evaluator));
    let mut session = base_session();
    let result = mode
        .on_session_start(&session, &env("owner", "SessionStart", vec![]))
        .unwrap();
    apply(&mut session, result);
    let result = mode
        .on_message(
            &session,
            &env("owner", "HandoffOffer", make_offer("h1", "target")),
        )
        .unwrap();
    apply(&mut session, result);
    let result = mode
        .on_message(
            &session,
            &env("owner", "HandoffContext", make_context("h1")),
        )
        .unwrap();
    apply(&mut session, result);
    let result = mode
        .on_message(
            &session,
            &env("target", "HandoffAccept", make_accept("h1", "target")),
        )
        .unwrap();
    apply(&mut session, result);
    let result = mode
        .on_message(&session, &env("owner", "Commitment", commitment_payload()))
        .unwrap();
    assert!(matches!(result, ModeResponse::PersistAndResolve { .. }));
}

#[test]
fn second_offer_while_first_pending_rejected() {
    let mode = HandoffMode::new(Arc::new(Evaluator));
    let mut session = base_session();
    session.participants = vec!["owner".into(), "target".into(), "other".into()];
    let result = mode
        .on_session_start(&session, &env("owner", "SessionStart", vec![]))
        .unwrap();
    apply(&mut session, result);
    let result = mode
        .on_message(
            &session,
            &env("owner", "HandoffOffer", make_offer("h1", "target")),
        )
        .unwrap();
    apply(&mut session, result);
    let err = mode
        .on_message(
            &session,
            &env("owner", "HandoffOffer", make_offer("h2", "other")),
        )
        .unwrap_err();
    assert_eq!(err.to_string(), "InvalidPayload");
}

#[test]
fn second_offer_after_first_accepted_is_rejected() {
    let mode = HandoffMode::new(Arc::new(Evaluator));
    let mut session = base_session();
    session.participants = vec!["owner".into(), "target".into(), "other".into()];
    let result = mode
        .on_session_start(&session, &env("owner", "SessionStart", vec![]))
        .unwrap();
    apply(&mut session, result);
    let result = mode
        .on_message(
            &session,
            &env("owner", "HandoffOffer", make_offer("h1", "target")),
        )
        .unwrap();
    apply(&mut session, result);
    let result = mode
        .on_message(
            &session,
            &env("target", "HandoffAccept", make_accept("h1", "target")),
        )
        .unwrap();
    apply(&mut session, result);
    let err = mode
        .on_message(
            &session,
            &env("owner", "HandoffOffer", make_offer("h2", "other")),
        )
        .unwrap_err();
    assert_eq!(err.to_string(), "InvalidPayload");
}

#[test]
fn second_offer_after_first_declined_succeeds() {
    let mode = HandoffMode::new(Arc::new(Evaluator));
    let mut session = base_session();
    session.participants = vec!["owner".into(), "target".into(), "other".into()];
    let result = mode
        .on_session_start(&session, &env("owner", "SessionStart", vec![]))
        .unwrap();
    apply(&mut session, result);
    let result = mode
        .on_message(
            &session,
            &env("owner", "HandoffOffer", make_offer("h1", "target")),
        )
        .unwrap();
    apply(&mut session, result);
    let result = mode
        .on_message(
            &session,
            &env("target", "HandoffDecline", make_decline("h1", "target")),
        )
        .unwrap();
    apply(&mut session, result);
    mode.on_message(
        &session,
        &env("owner", "HandoffOffer", make_offer("h2", "other")),
    )
    .unwrap();
}

#[test]
fn handoff_commitment_version_mismatch_rejected() {
    let mode = HandoffMode::new(Arc::new(Evaluator));
    let mut session = base_session();
    let result = mode
        .on_session_start(&session, &env("owner", "SessionStart", vec![]))
        .unwrap();
    apply(&mut session, result);
    let result = mode
        .on_message(
            &session,
            &env("owner", "HandoffOffer", make_offer("h1", "target")),
        )
        .unwrap();
    apply(&mut session, result);
    let result = mode
        .on_message(
            &session,
            &env("target", "HandoffAccept", make_accept("h1", "target")),
        )
        .unwrap();
    apply(&mut session, result);
    let bad_commitment = CommitmentPayload {
        commitment_id: "c1".into(),
        action: "handoff.accepted".into(),
        authority_scope: "support".into(),
        reason: "accepted".into(),
        mode_version: "wrong".into(),
        policy_version: "policy".into(),
        configuration_version: "config".into(),
        outcome_positive: true,
        supersedes: None,
    }
    .encode_to_vec();
    let err = mode
        .on_message(&session, &env("owner", "Commitment", bad_commitment))
        .unwrap_err();
    assert_eq!(err.to_string(), "InvalidPayload");
}

#[test]
fn handoff_unknown_message_type_rejected() {
    let mode = HandoffMode::new(Arc::new(Evaluator));
    let mut session = base_session();
    let result = mode
        .on_session_start(&session, &env("owner", "SessionStart", vec![]))
        .unwrap();
    apply(&mut session, result);
    let err = mode
        .on_message(&session, &env("owner", "CustomType", vec![]))
        .unwrap_err();
    assert_eq!(err.to_string(), "InvalidPayload");
}

#[test]
fn context_after_accept_is_permitted() {
    let mode = HandoffMode::new(Arc::new(Evaluator));
    let mut session = base_session();
    let resp = mode
        .on_session_start(&session, &env("owner", "SessionStart", vec![]))
        .unwrap();
    apply(&mut session, resp);
    let resp = mode
        .on_message(
            &session,
            &env("owner", "HandoffOffer", make_offer("h1", "target")),
        )
        .unwrap();
    apply(&mut session, resp);
    let resp = mode
        .on_message(
            &session,
            &env("target", "HandoffAccept", make_accept("h1", "target")),
        )
        .unwrap();
    apply(&mut session, resp);
    let result = mode.on_message(
        &session,
        &env("owner", "HandoffContext", make_context("h1")),
    );
    assert!(
        result.is_ok(),
        "late HandoffContext should be permitted"
    );
}

#[test]
fn handoff_policy_evaluator_always_allows() {
    let mode = HandoffMode::new(Arc::new(Evaluator));
    let mut session = base_session();
    session.policy_definition = Some(PolicyDefinition {
        policy_id: "test-handoff".into(),
        mode: "macp.mode.handoff.v1".into(),
        description: "handoff policy".into(),
        rules: json(r#"{
            "acceptance": { "implicit_accept_timeout_ms": 0 },
            "commitment": { "authority": "initiator_only" }
        }"#),
        schema_version: 1,
    });
    let result = mode
        .on_session_start(&session, &env("owner", "SessionStart", vec![]))
        .unwrap();
    apply(&mut session, result);
    let result = mode
        .on_message(
            &session,
            &env("owner", "HandoffOffer", make_offer("h1", "target")),
        )
        .unwrap();
    apply(&mut session, result);
    let result = mode
        .on_message(
            &session,
            &env("target", "HandoffAccept", make_accept("h1", "target")),
        )
        .unwrap();
    apply(&mut session, result);
    let result = mode
        .on_message(&session, &env("owner", "Commitment", commitment_payload()))
        .unwrap();
    assert!(matches!(result, ModeResponse::PersistAndResolve { .. }));
}

#[test]
fn second_offer_to_different_target_while_first_pending_rejected() {
    let mode = HandoffMode::new(Arc::new(Evaluator));
    let mut session = base_session();
    session.participants = vec!["owner".into(), "targetA".into(), "targetB".into()];
    let result = mode
        .on_session_start(&session, &env("owner", "SessionStart", vec![]))
        .unwrap();
    apply(&mut session, result);
    let result = mode
        .on_message(
            &session,
            &env("owner", "HandoffOffer", make_offer("h1", "targetA")),
        )
        .unwrap();
    apply(&mut session, result);
    let err = mode
        .on_message(
            &session,
            &env("owner", "HandoffOffer", make_offer("h2", "targetB")),
        )
        .unwrap_err();
    assert_eq!(err.to_string(), "InvalidPayload");
}

#[test]
fn offer_after_accept_blocked_per_rfc() {
    let mode = HandoffMode::new(Arc::new(Evaluator));
    let mut session = base_session();
    session.participants = vec!["owner".into(), "target".into(), "other".into()];
    let result = mode
        .on_session_start(&session, &env("owner", "SessionStart", vec![]))
        .unwrap();
    apply(&mut session, result);
    let result = mode
        .on_message(
            &session,
            &env("owner", "HandoffOffer", make_offer("h1", "target")),
        )
        .unwrap();
    apply(&mut session, result);
    let result = mode
        .on_message(
            &session,
            &env("target", "HandoffAccept", make_accept("h1", "target")),
        )
        .unwrap();
    apply(&mut session, result);
    let err = mode
        .on_message(
            &session,
            &env("owner", "HandoffOffer", make_offer("h2", "other")),
        )
        .unwrap_err();
    assert_eq!(err.to_string(), "InvalidPayload");
    let state = Handoff::decode_state(&session.mode_state).unwrap();
    assert_eq!(state.offers.len(), 1);
    assert_eq!(state.offers.get("h1").unwrap().disposition, HandoffDisposition::Accepted);
}

#[test]
fn offered_at_ms_is_populated() {
    let mode = HandoffMode::new(Arc::new(Evaluator));
    let mut session = base_session();
    session.participants = vec!["owner".into(), "target".into()];
    let result = mode
        .on_session_start(&session, &env("owner", "SessionStart", vec![]))
        .unwrap();
    apply(&mut session, result);
    let result = mode
        .on_message(
            &session,
            &env("owner", "HandoffOffer", make_offer("h1", "target")),
        )
        .unwrap();
    apply(&mut session, result);
    let state = Handoff::decode_state(&session.mode_state).unwrap();
    assert!(
        state.offers.get("h1").unwrap().offered_at_ms > 0,
        "offered_at_ms should be set"
    );
}

#[test]
fn implicit_accept_timeout_fires() {
    let mode = HandoffMode::new(Arc::new(Evaluator));
    let mut session = base_session();
    session.participants = vec!["owner".into(), "target".into()];
    session.policy_definition = Some(PolicyDefinition {
        policy_id: "auto-accept".into(),
        mode: "macp.mode.handoff.v1".into(),
        description: "short timeout".into(),
        rules: json(r#"{
            "acceptance": { "implicit_accept_timeout_ms": 100 },
            "commitment": { "authority": "initiator_only" }
        }"#),
        schema_version: 1,
    });
    let result = mode
        .on_session_start(&session, &env("owner", "SessionStart", vec![]))
        .unwrap();
    apply(&mut session, result);
    let offer_time = 1000i64;
    let mut offer_env = env("owner", "HandoffOffer", make_offer("h1", "target"));
    offer_env.timestamp_unix_ms = offer_time;
    let result = mode.on_message(&session, &offer_env).unwrap();
    apply(&mut session, result);
    let mut commit_env = env("owner", "Commitment", commitment_payload());
    commit_env.timestamp_unix_ms = offer_time + 200;
    let commit = mode.on_message(&session, &commit_env).unwrap();
    assert!(matches!(commit, ModeResponse::PersistAndResolve { .. }));
}

fn auto_accept_policy() -> PolicyDefinition {
    PolicyDefinition {
        policy_id: "auto-accept".into(),
        mode: "macp.mode.handoff.v1".into(),
        description: "short timeout".into(),
        rules: json(r#"{
            "acceptance": { "implicit_accept_timeout_ms": 100 },
            "commitment": { "authority": "initiator_only" }
        }"#),
        schema_version: 1,
    }
}

#[test]
fn implicit_accept_ignores_forged_envelope_timestamp_on_rev1() {
    let mode = HandoffMode::new(Arc::new(Evaluator));
    let mut session = base_session();
    assert!(session.semantics_rev >= 1, "builder default is current rev");
    session.participants = vec!["owner".into(), "target".into()];
    session.policy_definition = Some(auto_accept_policy());
    let result = mode
        .on_session_start(&session, &env("owner", "SessionStart", vec![]))
        .unwrap();
    apply(&mut session, result);

    let offer_time = 1000i64;
    let mut offer_env = env("owner", "HandoffOffer", make_offer("h1", "target"));
    offer_env.timestamp_unix_ms = offer_time;
    let result = mode.on_message(&session, &offer_env).unwrap();
    apply(&mut session, result);

    let mut commit_env = env("owner", "Commitment", commitment_payload());
    commit_env.timestamp_unix_ms = offer_time + 1_000_000;
    let ctx = MessageContext::new(offer_time + 50);
    let err = mode.on_message_at(&session, &commit_env, &ctx).unwrap_err();
    assert_eq!(err.to_string(), "InvalidPayload");

    let ctx = MessageContext::new(offer_time + 200);
    let commit = mode.on_message_at(&session, &commit_env, &ctx).unwrap();
    assert!(matches!(commit, ModeResponse::PersistAndResolve { .. }));
}

#[test]
fn implicit_accept_legacy_rev0_keeps_envelope_clock() {
    let mode = HandoffMode::new(Arc::new(Evaluator));
    let mut session = base_session();
    session.semantics_rev = 0;
    session.participants = vec!["owner".into(), "target".into()];
    session.policy_definition = Some(auto_accept_policy());
    let result = mode
        .on_session_start(&session, &env("owner", "SessionStart", vec![]))
        .unwrap();
    apply(&mut session, result);

    let offer_time = 1000i64;
    let mut offer_env = env("owner", "HandoffOffer", make_offer("h1", "target"));
    offer_env.timestamp_unix_ms = offer_time;
    let result = mode.on_message(&session, &offer_env).unwrap();
    apply(&mut session, result);

    let mut commit_env = env("owner", "Commitment", commitment_payload());
    commit_env.timestamp_unix_ms = offer_time + 200;
    let ctx = MessageContext::new(offer_time + 10);
    let commit = mode.on_message_at(&session, &commit_env, &ctx).unwrap();
    assert!(matches!(commit, ModeResponse::PersistAndResolve { .. }));
}

#[test]
fn implicit_accept_ignores_backdated_offer_timestamp_on_rev1() {
    let mode = HandoffMode::new(Arc::new(Evaluator));
    let mut session = base_session();
    assert!(session.semantics_rev >= 1);
    session.participants = vec!["owner".into(), "target".into()];
    session.policy_definition = Some(auto_accept_policy());
    let result = mode
        .on_session_start(&session, &env("owner", "SessionStart", vec![]))
        .unwrap();
    apply(&mut session, result);

    let now = 1_000_000i64;
    let mut offer_env = env("owner", "HandoffOffer", make_offer("h1", "target"));
    offer_env.timestamp_unix_ms = now - 1_000_000;
    let ctx = MessageContext::new(now);
    let result = mode.on_message_at(&session, &offer_env, &ctx).unwrap();
    apply(&mut session, result);

    let mut commit_env = env("owner", "Commitment", commitment_payload());
    commit_env.timestamp_unix_ms = now + 50;
    let ctx = MessageContext::new(now + 50);
    let err = mode.on_message_at(&session, &commit_env, &ctx).unwrap_err();
    assert_eq!(err.to_string(), "InvalidPayload");

    let ctx = MessageContext::new(now + 200);
    let commit = mode.on_message_at(&session, &commit_env, &ctx).unwrap();
    assert!(matches!(commit, ModeResponse::PersistAndResolve { .. }));
}

#[test]
fn offer_records_suspension_snapshot() {
    let mode = HandoffMode::new(Arc::new(Evaluator));
    let mut session = base_session();
    session.accumulated_suspended_ms = 5_000;
    let result = mode
        .on_session_start(&session, &env("owner", "SessionStart", vec![]))
        .unwrap();
    apply(&mut session, result);

    let ctx = MessageContext::new(1_000);
    let result = mode
        .on_message_at(
            &session,
            &env("owner", "HandoffOffer", make_offer("h1", "target")),
            &ctx,
        )
        .unwrap();
    apply(&mut session, result);

    let state = Handoff::decode_state(&session.mode_state).unwrap();
    assert_eq!(state.offers.get("h1").unwrap().suspended_ms_at_offer, 5_000);
}

#[test]
fn legacy_offer_mode_state_without_suspension_snapshot_replays_unchanged() {
    let legacy_state = json(r#"{
        "offers": {
            "h1": {
                "handoff_id": "h1",
                "target_participant": "target",
                "scope": "support",
                "reason": "escalate",
                "offered_by": "owner",
                "disposition": "Offered",
                "accepted_by": null,
                "declined_by": null,
                "outcome_reason": null,
                "offered_at_ms": 1000
            }
        },
        "contexts": {}
    }"#);
    let decoded = Handoff::decode_state(&serde_json::to_vec(&legacy_state).unwrap()).unwrap();
    assert_eq!(decoded.offers.get("h1").unwrap().suspended_ms_at_offer, 0);
    assert_eq!(decoded.offers.get("h1").unwrap().offered_at_ms, 1000);

    let mode = HandoffMode::new(Arc::new(Evaluator));
    let mut session = base_session();
    session.policy_definition = Some(auto_accept_policy());
    session.mode_state = serde_json::to_vec(&legacy_state).unwrap();
    let commit_env = env("owner", "Commitment", commitment_payload());
    let ctx = MessageContext::new(1_200);
    let commit = mode.on_message_at(&session, &commit_env, &ctx).unwrap();
    apply(&mut session, commit);
    let state = Handoff::decode_state(&session.mode_state).unwrap();
    assert_eq!(
        state.offers.get("h1").unwrap().outcome_reason.as_deref(),
        Some("implicit accept (timeout)")
    );
}

const OFFER_TIME_MS: i64 = 1_000;

fn implicit_accept_outcome(
    rev: u32,
    suspended_after_offer_ms: i64,
    commit_at: i64,
) -> Result<bool, String> {
    let mode = HandoffMode::new(Arc::new(Evaluator));
    let mut session = base_session();
    session.semantics_rev = rev;
    session.policy_definition = Some(auto_accept_policy());
    let result = mode
        .on_session_start(&session, &env("owner", "SessionStart", vec![]))
        .unwrap();
    apply(&mut session, result);

    let mut offer_env = env("owner", "HandoffOffer", make_offer("h1", "target"));
    offer_env.timestamp_unix_ms = OFFER_TIME_MS;
    let offer_ctx = MessageContext::new(OFFER_TIME_MS);
    let result = mode
        .on_message_at(&session, &offer_env, &offer_ctx)
        .unwrap();
    apply(&mut session, result);

    if suspended_after_offer_ms > 0 {
        session.suspend(OFFER_TIME_MS).unwrap();
        session
            .resume(OFFER_TIME_MS + suspended_after_offer_ms)
            .unwrap();
        assert_eq!(session.accumulated_suspended_ms, suspended_after_offer_ms);
        assert_eq!(session.suspended_at_ms, None);
    }

    let mut commit_env = env("owner", "Commitment", commitment_payload());
    commit_env.timestamp_unix_ms = commit_at;
    let ctx = MessageContext::new(commit_at);
    mode.on_message_at(&session, &commit_env, &ctx)
        .map(|r| matches!(r, ModeResponse::PersistAndResolve { .. }))
        .map_err(|e| e.to_string())
}

#[test]
fn rev2_stops_counting_suspended_time_toward_implicit_accept() {
    let commit_at = OFFER_TIME_MS + 300;
    assert_eq!(
        implicit_accept_outcome(2, 250, commit_at),
        Err("InvalidPayload".into()),
        "rev 2: 50ms of unsuspended time must not implicitly accept"
    );
    assert_eq!(
        implicit_accept_outcome(1, 250, commit_at),
        Ok(true),
        "rev 1 must keep the legacy arithmetic exactly (suspended time counts)"
    );
    assert_eq!(
        implicit_accept_outcome(0, 250, commit_at),
        Ok(true),
        "rev 0 must keep the legacy arithmetic exactly (suspended time counts)"
    );
}

#[test]
fn rev2_matches_legacy_arithmetic_when_nothing_was_suspended() {
    for (suspended, commit_at, expected) in [
        (0i64, OFFER_TIME_MS + 200, Ok(true)),
        (0, OFFER_TIME_MS + 50, Err("InvalidPayload".to_string())),
        (200, OFFER_TIME_MS + 300, Ok(true)),
        (201, OFFER_TIME_MS + 300, Err("InvalidPayload".to_string())),
    ] {
        assert_eq!(
            implicit_accept_outcome(2, suspended, commit_at),
            expected,
            "rev 2 (suspended={suspended}, commit_at={commit_at})"
        );
        if suspended == 0 {
            assert_eq!(
                implicit_accept_outcome(1, suspended, commit_at),
                expected,
                "rev 1 must agree when nothing was suspended"
            );
        }
    }
}

#[test]
fn rev2_subtracts_only_suspension_accrued_after_the_offer() {
    let mode = HandoffMode::new(Arc::new(Evaluator));
    let mut session = base_session();
    session.policy_definition = Some(auto_accept_policy());
    session.accumulated_suspended_ms = 5_000;
    let result = mode
        .on_session_start(&session, &env("owner", "SessionStart", vec![]))
        .unwrap();
    apply(&mut session, result);

    let offer_ctx = MessageContext::new(OFFER_TIME_MS);
    let result = mode
        .on_message_at(
            &session,
            &env("owner", "HandoffOffer", make_offer("h1", "target")),
            &offer_ctx,
        )
        .unwrap();
    apply(&mut session, result);

    let commit_env = env("owner", "Commitment", commitment_payload());
    let ctx = MessageContext::new(OFFER_TIME_MS + 200);
    let commit = mode.on_message_at(&session, &commit_env, &ctx).unwrap();
    assert!(matches!(commit, ModeResponse::PersistAndResolve { .. }));
}

#[test]
fn rev2_elapsed_ms_is_saturating_and_floors_the_suspension_term() {
    let mut session = base_session();
    let mut offer = HandoffOfferRecord {
        handoff_id: "h1".into(),
        target_participant: "target".into(),
        scope: "support".into(),
        reason: "escalate".into(),
        offered_by: "owner".into(),
        disposition: HandoffDisposition::Offered,
        accepted_by: None,
        declined_by: None,
        outcome_reason: None,
        offered_at_ms: 1_000,
        suspended_ms_at_offer: 0,
    };

    assert_eq!(Handoff::rev2_elapsed_ms(&session, &offer, 1_300), 300);

    offer.suspended_ms_at_offer = 5_000;
    session.accumulated_suspended_ms = 1_000;
    assert_eq!(Handoff::rev2_elapsed_ms(&session, &offer, 1_300), 300);

    offer.suspended_ms_at_offer = 0;
    session.accumulated_suspended_ms = 0;
    offer.offered_at_ms = i64::MIN;
    assert_eq!(
        Handoff::rev2_elapsed_ms(&session, &offer, i64::MAX),
        i64::MAX
    );
    offer.offered_at_ms = 0;
    session.accumulated_suspended_ms = i64::MAX;
    assert_eq!(
        Handoff::rev2_elapsed_ms(&session, &offer, i64::MIN),
        i64::MIN
    );
}

#[test]
fn builder_default_session_is_on_current_semantics_rev() {
    assert_eq!(
        base_session().semantics_rev,
        CURRENT_SEMANTICS_REV
    );
    assert!(CURRENT_SEMANTICS_REV >= 2);
}

fn make_implicit_accept(handoff_id: &str, accepted_by: &str) -> Vec<u8> {
    HandoffAcceptPayload {
        handoff_id: handoff_id.into(),
        accepted_by: accepted_by.into(),
        reason: "implicit accept (timeout)".into(),
        implicit: true,
    }
    .encode_to_vec()
}

fn reserved_id(handoff_id: &str) -> String {
    format!("{IMPLICIT_ACCEPT_MESSAGE_ID_PREFIX}{handoff_id}")
}

#[test]
fn client_implicit_accept_rejected_at_the_boundary() {
    let mode = HandoffMode::new(Arc::new(Evaluator));
    let session = base_session();

    let mut a = env(
        "target",
        "HandoffAccept",
        make_implicit_accept("h1", "target"),
    );
    assert!(
        !a.message_id.starts_with(IMPLICIT_ACCEPT_MESSAGE_ID_PREFIX),
        "case (a) must not also trip the reserved-namespace rule"
    );
    assert!(matches!(
        mode.validate_client_envelope(&session, &a).unwrap_err(),
        MacpError::InvalidPayload
    ));

    a.payload = make_accept("h1", "target");
    assert!(mode.validate_client_envelope(&session, &a).is_ok());

    let mut b = env(
        "target",
        "HandoffAccept",
        make_implicit_accept("h1", "target"),
    );
    b.message_id = reserved_id("h1");
    assert!(matches!(
        mode.validate_client_envelope(&session, &b).unwrap_err(),
        MacpError::InvalidEnvelope
    ));
}

#[test]
fn reserved_prefix_is_rejected_for_every_message_type() {
    let mode = HandoffMode::new(Arc::new(Evaluator));
    let session = base_session();

    for message_type in [
        "SessionStart",
        "Commitment",
        "HandoffOffer",
        "HandoffContext",
        "HandoffAccept",
        "HandoffDecline",
        "SomeUnknownType",
    ] {
        for suffix in ["h1", "", "a-handoff-id-that-does-not-exist-yet"] {
            let mut e = env("owner", message_type, vec![]);
            e.message_id = format!("{IMPLICIT_ACCEPT_MESSAGE_ID_PREFIX}{suffix}");
            assert!(
                matches!(
                    mode.validate_client_envelope(&session, &e).unwrap_err(),
                    MacpError::InvalidEnvelope
                ),
                "{message_type} with id {} must be rejected",
                e.message_id
            );
        }

        let mut ok = env("owner", message_type, vec![]);
        ok.message_id = "implicit-accept".into();
        assert!(
            mode.validate_client_envelope(&session, &ok).is_ok(),
            "{message_type} with a near-miss id must pass"
        );
    }
}

#[test]
fn reserved_namespace_is_rev_gated() {
    let mode = HandoffMode::new(Arc::new(Evaluator));

    let mut reserved = env("owner", "HandoffContext", make_context("h1"));
    reserved.message_id = reserved_id("h1");
    let implicit = env(
        "target",
        "HandoffAccept",
        make_implicit_accept("h1", "target"),
    );

    for rev in [0, 1] {
        let mut legacy = base_session();
        legacy.semantics_rev = rev;
        assert!(
            mode.validate_client_envelope(&legacy, &reserved).is_ok(),
            "rev {rev} must accept a reserved-prefix id"
        );
        assert!(
            mode.validate_client_envelope(&legacy, &implicit).is_ok(),
            "rev {rev} must leave the implicit flag to dispatch"
        );
    }

    let current = base_session();
    assert_eq!(
        current.semantics_rev,
        CURRENT_SEMANTICS_REV
    );
    assert!(mode.validate_client_envelope(&current, &reserved).is_err());
    assert!(mode.validate_client_envelope(&current, &implicit).is_err());
}

#[test]
fn undecodable_handoff_accept_is_left_to_dispatch() {
    let mode = HandoffMode::new(Arc::new(Evaluator));
    let mut session = base_session();

    let garbage = vec![0xffu8, 0xff, 0xff, 0xff];
    assert!(HandoffAcceptPayload::decode(&garbage).is_none());

    let e = env("target", "HandoffAccept", garbage);
    assert!(
        mode.validate_client_envelope(&session, &e).is_ok(),
        "the boundary must not decide an undecodable payload"
    );

    let result = mode
        .on_session_start(&session, &env("owner", "SessionStart", vec![]))
        .unwrap();
    apply(&mut session, result);
    assert!(matches!(
        mode.on_message(&session, &e).unwrap_err(),
        MacpError::InvalidPayload
    ));
}

#[test]
fn client_boundary_runs_after_sender_authorization() {
    let mode = HandoffMode::new(Arc::new(Evaluator));
    let mut session = base_session();
    let result = mode
        .on_session_start(&session, &env("owner", "SessionStart", vec![]))
        .unwrap();
    apply(&mut session, result);

    let mut e = env(
        "stranger",
        "HandoffAccept",
        make_implicit_accept("h1", "stranger"),
    );
    e.message_id = reserved_id("h1");
    assert!(matches!(
        validate_message(&session, &e, &mode).unwrap_err(),
        MacpError::Forbidden
    ));

    let mut authorized = e.clone();
    authorized.sender = "target".into();
    assert!(matches!(
        validate_message(&session, &authorized, &mode).unwrap_err(),
        MacpError::InvalidEnvelope
    ));
}
