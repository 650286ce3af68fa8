use macp::mode::quorum::{ApprovalThreshold, QuorumMode};
use macp::mode::quorum_state::{ApprovalRequestRecord, BallotChoice, QuorumState};
use macp::mode::{Mode, ModeResponse};
use macp::pb::commitment::CommitmentPayload;
use macp::pb::envelope::Envelope;
use macp::pb::quorum::{AbstainPayload, ApprovalRequestPayload, ApprovePayload, RejectPayload};
use macp::policy::{
    CommitmentContext, CommitmentMode, PolicyDecision, PolicyDefinition, PolicyEvaluator,
};
use macp::session::Session;
use macp::text_map::TextMap;
use std::sync::Arc;

fn json(text: &str) -> serde_json::Value {
    serde_json::from_str(text).expect("valid JSON")
}

/// Allows a positive outcome once the threshold of the policy is met, and every
/// negative one.
struct Evaluator;

fn needed(rules: &serde_json::Value, participants: usize) -> Option<usize> {
    let threshold = &rules["threshold"];
    let value = threshold["value"].as_f64().unwrap_or(0.0);
    let share = match threshold["type"].as_str().unwrap_or("n_of_m") {
        "n_of_m" | "count" => value,
        "percentage" if participants > 0 => participants as f64 * value / 100.0,
        _ => return None,
    };
    if value > 0.0 {
        Some((share.ceil() as usize).max(1))
    } else {
        Some(0)
    }
}

impl PolicyEvaluator for Evaluator {
    fn evaluate_commitment(&self, ctx: &CommitmentContext<'_>) -> PolicyDecision {
        let CommitmentMode::Quorum { approve_count, .. } = ctx.mode else {
            return PolicyDecision::Deny { reasons: vec![] };
        };
        let needed = needed(&ctx.policy.rules, ctx.participants.len());
        if !ctx.outcome_positive || needed.is_some_and(|n| approve_count >= n) {
            PolicyDecision::Allow { reasons: vec![] }
        } else {
            PolicyDecision::Deny {
                reasons: vec!["threshold not met".into()],
            }
        }
    }
}

type Quorum = QuorumMode<Evaluator>;

fn base_session() -> Session {
    Session::builder("s1", "macp.mode.quorum.v1", "coordinator")
        .ttl_ms(60_000)
        .participants(vec!["alice".into(), "bob".into(), "carol".into()])
        .mode_version("1.0.0")
        .configuration_version("config")
        .policy_version("policy")
        .build()
}

fn env(sender: &str, message_type: &str, payload: Vec<u8>) -> Envelope {
    Envelope {
        macp_version: "1.0".into(),
        mode: "macp.mode.quorum.v1".into(),
        message_type: message_type.into(),
        message_id: format!("{}-{}", sender, message_type),
        session_id: "s1".into(),
        sender: sender.into(),
        timestamp_unix_ms: 0,
        payload,
    }
}

fn commitment_payload() -> Vec<u8> {
    commitment("quorum.approved", true)
}

fn commitment(action: &str, outcome_positive: bool) -> Vec<u8> {
    CommitmentPayload {
        commitment_id: "c1".into(),
        action: action.into(),
        authority_scope: "deploy".into(),
        reason: "threshold met".into(),
        mode_version: "1.0.0".into(),
        policy_version: "policy".into(),
        configuration_version: "config".into(),
        outcome_positive,
        supersedes: None,
    }
    .encode_to_vec()
}

fn apply(session: &mut Session, result: ModeResponse) {
    match result {
        ModeResponse::PersistState(data) => session.mode_state = data,
        ModeResponse::PersistAndResolve { state, .. } => session.mode_state = state,
        _ => {}
    }
}

fn make_approval_request(request_id: &str, required: u32) -> Vec<u8> {
    ApprovalRequestPayload {
        request_id: request_id.into(),
        action: "deploy.production".into(),
        summary: "Deploy v2".into(),
        details: vec![],
        required_approvals: required,
    }
    .encode_to_vec()
}

fn make_approve(request_id: &str, reason: &str) -> Vec<u8> {
    ApprovePayload {
        request_id: request_id.into(),
        reason: reason.into(),
    }
    .encode_to_vec()
}

fn make_reject(request_id: &str, reason: &str) -> Vec<u8> {
    RejectPayload {
        request_id: request_id.into(),
        reason: reason.into(),
    }
    .encode_to_vec()
}

fn make_abstain(request_id: &str, reason: &str) -> Vec<u8> {
    AbstainPayload {
        request_id: request_id.into(),
        reason: reason.into(),
    }
    .encode_to_vec()
}

#[test]
fn quorum_session_start_initializes_state() {
    let mode = QuorumMode::new(Arc::new(Evaluator));
    let session = base_session();
    let result = mode
        .on_session_start(&session, &env("coordinator", "SessionStart", vec![]))
        .unwrap();
    match result {
        ModeResponse::PersistState(data) => {
            let state = Quorum::decode_state(&data).unwrap();
            assert!(state.request.is_none());
            assert!(state.ballots.is_empty());
        }
        _ => panic!("Expected PersistState"),
    }
}

#[test]
fn session_start_requires_participants() {
    let mode = QuorumMode::new(Arc::new(Evaluator));
    let mut session = base_session();
    session.participants.clear();
    let err = mode
        .on_session_start(&session, &env("coordinator", "SessionStart", vec![]))
        .unwrap_err();
    assert_eq!(err.to_string(), "InvalidPayload");
}

#[test]
fn approval_request_from_coordinator() {
    let mode = QuorumMode::new(Arc::new(Evaluator));
    let mut session = base_session();
    let result = mode
        .on_session_start(&session, &env("coordinator", "SessionStart", vec![]))
        .unwrap();
    apply(&mut session, result);
    let result = mode
        .on_message(
            &session,
            &env(
                "coordinator",
                "ApprovalRequest",
                make_approval_request("r1", 2),
            ),
        )
        .unwrap();
    match result {
        ModeResponse::PersistState(data) => {
            let state = Quorum::decode_state(&data).unwrap();
            assert!(state.request.is_some());
            assert_eq!(state.request.unwrap().required_approvals, 2);
        }
        _ => panic!("Expected PersistState"),
    }
}

#[test]
fn duplicate_approval_request_rejected() {
    let mode = QuorumMode::new(Arc::new(Evaluator));
    let mut session = base_session();
    let result = mode
        .on_session_start(&session, &env("coordinator", "SessionStart", vec![]))
        .unwrap();
    apply(&mut session, result);
    let result = mode
        .on_message(
            &session,
            &env(
                "coordinator",
                "ApprovalRequest",
                make_approval_request("r1", 2),
            ),
        )
        .unwrap();
    apply(&mut session, result);
    let err = mode
        .on_message(
            &session,
            &env(
                "coordinator",
                "ApprovalRequest",
                make_approval_request("r2", 1),
            ),
        )
        .unwrap_err();
    assert_eq!(err.to_string(), "InvalidPayload");
}

#[test]
fn required_approvals_exceeds_participants_rejected() {
    let mode = QuorumMode::new(Arc::new(Evaluator));
    let mut session = base_session();
    let result = mode
        .on_session_start(&session, &env("coordinator", "SessionStart", vec![]))
        .unwrap();
    apply(&mut session, result);
    let err = mode
        .on_message(
            &session,
            &env(
                "coordinator",
                "ApprovalRequest",
                make_approval_request("r1", 4),
            ),
        )
        .unwrap_err();
    assert_eq!(err.to_string(), "InvalidPayload");
}

#[test]
fn required_approvals_zero_rejected() {
    let mode = QuorumMode::new(Arc::new(Evaluator));
    let mut session = base_session();
    let result = mode
        .on_session_start(&session, &env("coordinator", "SessionStart", vec![]))
        .unwrap();
    apply(&mut session, result);
    let err = mode
        .on_message(
            &session,
            &env(
                "coordinator",
                "ApprovalRequest",
                make_approval_request("r1", 0),
            ),
        )
        .unwrap_err();
    assert_eq!(err.to_string(), "InvalidPayload");
}

#[test]
fn non_coordinator_approval_request_rejected() {
    let mode = QuorumMode::new(Arc::new(Evaluator));
    let mut session = base_session();
    let result = mode
        .on_session_start(&session, &env("coordinator", "SessionStart", vec![]))
        .unwrap();
    apply(&mut session, result);
    let err = mode
        .on_message(
            &session,
            &env("alice", "ApprovalRequest", make_approval_request("r1", 2)),
        )
        .unwrap_err();
    assert_eq!(err.to_string(), "Forbidden");
}

#[test]
fn participant_can_approve() {
    let mode = QuorumMode::new(Arc::new(Evaluator));
    let mut session = base_session();
    let result = mode
        .on_session_start(&session, &env("coordinator", "SessionStart", vec![]))
        .unwrap();
    apply(&mut session, result);
    let result = mode
        .on_message(
            &session,
            &env(
                "coordinator",
                "ApprovalRequest",
                make_approval_request("r1", 2),
            ),
        )
        .unwrap();
    apply(&mut session, result);
    let result = mode
        .on_message(
            &session,
            &env("alice", "Approve", make_approve("r1", "looks good")),
        )
        .unwrap();
    match result {
        ModeResponse::PersistState(data) => {
            let state = Quorum::decode_state(&data).unwrap();
            assert!(state.ballots.contains_key("alice"));
            assert_eq!(state.ballots.get("alice").unwrap().choice, BallotChoice::Approve);
        }
        _ => panic!("Expected PersistState"),
    }
}

#[test]
fn participant_can_reject() {
    let mode = QuorumMode::new(Arc::new(Evaluator));
    let mut session = base_session();
    let result = mode
        .on_session_start(&session, &env("coordinator", "SessionStart", vec![]))
        .unwrap();
    apply(&mut session, result);
    let result = mode
        .on_message(
            &session,
            &env(
                "coordinator",
                "ApprovalRequest",
                make_approval_request("r1", 2),
            ),
        )
        .unwrap();
    apply(&mut session, result);
    let result = mode
        .on_message(
            &session,
            &env("alice", "Reject", make_reject("r1", "not ready")),
        )
        .unwrap();
    match result {
        ModeResponse::PersistState(data) => {
            let state = Quorum::decode_state(&data).unwrap();
            assert_eq!(state.ballots.get("alice").unwrap().choice, BallotChoice::Reject);
        }
        _ => panic!("Expected PersistState"),
    }
}

#[test]
fn participant_can_abstain() {
    let mode = QuorumMode::new(Arc::new(Evaluator));
    let mut session = base_session();
    let result = mode
        .on_session_start(&session, &env("coordinator", "SessionStart", vec![]))
        .unwrap();
    apply(&mut session, result);
    let result = mode
        .on_message(
            &session,
            &env(
                "coordinator",
                "ApprovalRequest",
                make_approval_request("r1", 2),
            ),
        )
        .unwrap();
    apply(&mut session, result);
    let result = mode
        .on_message(
            &session,
            &env("alice", "Abstain", make_abstain("r1", "no opinion")),
        )
        .unwrap();
    match result {
        ModeResponse::PersistState(data) => {
            let state = Quorum::decode_state(&data).unwrap();
            assert_eq!(state.ballots.get("alice").unwrap().choice, BallotChoice::Abstain);
        }
        _ => panic!("Expected PersistState"),
    }
}

#[test]
fn duplicate_ballot_rejected() {
    let mode = QuorumMode::new(Arc::new(Evaluator));
    let mut session = base_session();
    let result = mode
        .on_session_start(&session, &env("coordinator", "SessionStart", vec![]))
        .unwrap();
    apply(&mut session, result);
    let result = mode
        .on_message(
            &session,
            &env(
                "coordinator",
                "ApprovalRequest",
                make_approval_request("r1", 2),
            ),
        )
        .unwrap();
    apply(&mut session, result);
    let result = mode
        .on_message(
            &session,
            &env("alice", "Approve", make_approve("r1", "yes")),
        )
        .unwrap();
    apply(&mut session, result);
    let err = mode
        .on_message(
            &session,
            &env("alice", "Approve", make_approve("r1", "again")),
        )
        .unwrap_err();
    assert_eq!(err.to_string(), "InvalidPayload");
}

#[test]
fn ballot_before_request_rejected() {
    let mode = QuorumMode::new(Arc::new(Evaluator));
    let mut session = base_session();
    let result = mode
        .on_session_start(&session, &env("coordinator", "SessionStart", vec![]))
        .unwrap();
    apply(&mut session, result);
    let err = mode
        .on_message(
            &session,
            &env("alice", "Approve", make_approve("r1", "premature")),
        )
        .unwrap_err();
    assert_eq!(err.to_string(), "InvalidPayload");
}

#[test]
fn wrong_request_id_rejected() {
    let mode = QuorumMode::new(Arc::new(Evaluator));
    let mut session = base_session();
    let result = mode
        .on_session_start(&session, &env("coordinator", "SessionStart", vec![]))
        .unwrap();
    apply(&mut session, result);
    let result = mode
        .on_message(
            &session,
            &env(
                "coordinator",
                "ApprovalRequest",
                make_approval_request("r1", 2),
            ),
        )
        .unwrap();
    apply(&mut session, result);
    let err = mode
        .on_message(
            &session,
            &env("alice", "Approve", make_approve("r2", "wrong id")),
        )
        .unwrap_err();
    assert_eq!(err.to_string(), "InvalidPayload");
}

#[test]
fn commitment_when_threshold_reached() {
    let mode = QuorumMode::new(Arc::new(Evaluator));
    let mut session = base_session();
    let result = mode
        .on_session_start(&session, &env("coordinator", "SessionStart", vec![]))
        .unwrap();
    apply(&mut session, result);
    let result = mode
        .on_message(
            &session,
            &env(
                "coordinator",
                "ApprovalRequest",
                make_approval_request("r1", 2),
            ),
        )
        .unwrap();
    apply(&mut session, result);
    let result = mode
        .on_message(
            &session,
            &env("alice", "Approve", make_approve("r1", "yes")),
        )
        .unwrap();
    apply(&mut session, result);
    let result = mode
        .on_message(&session, &env("bob", "Approve", make_approve("r1", "yes")))
        .unwrap();
    apply(&mut session, result);
    let result = mode
        .on_message(
            &session,
            &env("coordinator", "Commitment", commitment_payload()),
        )
        .unwrap();
    assert!(matches!(result, ModeResponse::PersistAndResolve { .. }));
}

#[test]
fn commitment_when_threshold_unreachable() {
    let mode = QuorumMode::new(Arc::new(Evaluator));
    let mut session = base_session();
    let result = mode
        .on_session_start(&session, &env("coordinator", "SessionStart", vec![]))
        .unwrap();
    apply(&mut session, result);
    let result = mode
        .on_message(
            &session,
            &env(
                "coordinator",
                "ApprovalRequest",
                make_approval_request("r1", 3),
            ),
        )
        .unwrap();
    apply(&mut session, result);
    let result = mode
        .on_message(&session, &env("alice", "Reject", make_reject("r1", "no")))
        .unwrap();
    apply(&mut session, result);
    let result = mode
        .on_message(
            &session,
            &env("coordinator", "Commitment", commitment_payload()),
        )
        .unwrap();
    assert!(matches!(result, ModeResponse::PersistAndResolve { .. }));
}

#[test]
fn commitment_before_threshold_rejected() {
    let mode = QuorumMode::new(Arc::new(Evaluator));
    let mut session = base_session();
    let result = mode
        .on_session_start(&session, &env("coordinator", "SessionStart", vec![]))
        .unwrap();
    apply(&mut session, result);
    let result = mode
        .on_message(
            &session,
            &env(
                "coordinator",
                "ApprovalRequest",
                make_approval_request("r1", 2),
            ),
        )
        .unwrap();
    apply(&mut session, result);
    let result = mode
        .on_message(
            &session,
            &env("alice", "Approve", make_approve("r1", "yes")),
        )
        .unwrap();
    apply(&mut session, result);
    let err = mode
        .on_message(
            &session,
            &env("coordinator", "Commitment", commitment_payload()),
        )
        .unwrap_err();
    assert_eq!(err.to_string(), "InvalidPayload");
}

#[test]
fn non_coordinator_commitment_rejected() {
    let mode = QuorumMode::new(Arc::new(Evaluator));
    let mut session = base_session();
    let result = mode
        .on_session_start(&session, &env("coordinator", "SessionStart", vec![]))
        .unwrap();
    apply(&mut session, result);
    let result = mode
        .on_message(
            &session,
            &env(
                "coordinator",
                "ApprovalRequest",
                make_approval_request("r1", 2),
            ),
        )
        .unwrap();
    apply(&mut session, result);
    let result = mode
        .on_message(
            &session,
            &env("alice", "Approve", make_approve("r1", "yes")),
        )
        .unwrap();
    apply(&mut session, result);
    let result = mode
        .on_message(&session, &env("bob", "Approve", make_approve("r1", "yes")))
        .unwrap();
    apply(&mut session, result);
    let commit_env = env("alice", "Commitment", commitment_payload());
    let err = mode.authorize_sender(&session, &commit_env).unwrap_err();
    assert_eq!(err.to_string(), "Forbidden");
}

#[test]
fn full_quorum_approve_lifecycle() {
    let mode = QuorumMode::new(Arc::new(Evaluator));
    let mut session = base_session();
    let result = mode
        .on_session_start(&session, &env("coordinator", "SessionStart", vec![]))
        .unwrap();
    apply(&mut session, result);
    let result = mode
        .on_message(
            &session,
            &env(
                "coordinator",
                "ApprovalRequest",
                make_approval_request("r1", 2),
            ),
        )
        .unwrap();
    apply(&mut session, result);
    let result = mode
        .on_message(
            &session,
            &env("alice", "Approve", make_approve("r1", "green")),
        )
        .unwrap();
    apply(&mut session, result);
    let result = mode
        .on_message(
            &session,
            &env("bob", "Approve", make_approve("r1", "ready")),
        )
        .unwrap();
    apply(&mut session, result);
    let result = mode
        .on_message(
            &session,
            &env("coordinator", "Commitment", commitment_payload()),
        )
        .unwrap();
    assert!(matches!(result, ModeResponse::PersistAndResolve { .. }));
}

#[test]
fn full_quorum_reject_lifecycle() {
    let mode = QuorumMode::new(Arc::new(Evaluator));
    let mut session = base_session();
    let result = mode
        .on_session_start(&session, &env("coordinator", "SessionStart", vec![]))
        .unwrap();
    apply(&mut session, result);
    let result = mode
        .on_message(
            &session,
            &env(
                "coordinator",
                "ApprovalRequest",
                make_approval_request("r1", 3),
            ),
        )
        .unwrap();
    apply(&mut session, result);
    let result = mode
        .on_message(
            &session,
            &env("alice", "Reject", make_reject("r1", "not ready")),
        )
        .unwrap();
    apply(&mut session, result);
    let result = mode
        .on_message(
            &session,
            &env("coordinator", "Commitment", commitment_payload()),
        )
        .unwrap();
    assert!(matches!(result, ModeResponse::PersistAndResolve { .. }));
}

#[test]
fn quorum_commitment_version_mismatch_rejected() {
    let mode = QuorumMode::new(Arc::new(Evaluator));
    let mut session = base_session();
    let result = mode
        .on_session_start(&session, &env("coordinator", "SessionStart", vec![]))
        .unwrap();
    apply(&mut session, result);
    let result = mode
        .on_message(
            &session,
            &env(
                "coordinator",
                "ApprovalRequest",
                make_approval_request("r1", 2),
            ),
        )
        .unwrap();
    apply(&mut session, result);
    let result = mode
        .on_message(
            &session,
            &env("alice", "Approve", make_approve("r1", "yes")),
        )
        .unwrap();
    apply(&mut session, result);
    let result = mode
        .on_message(&session, &env("bob", "Approve", make_approve("r1", "yes")))
        .unwrap();
    apply(&mut session, result);
    let bad_commitment = CommitmentPayload {
        commitment_id: "c1".into(),
        action: "quorum.approved".into(),
        authority_scope: "deploy".into(),
        reason: "threshold met".into(),
        mode_version: "wrong".into(),
        policy_version: "policy".into(),
        configuration_version: "config".into(),
        outcome_positive: true,
        supersedes: None,
    }
    .encode_to_vec();
    let err = mode
        .on_message(&session, &env("coordinator", "Commitment", bad_commitment))
        .unwrap_err();
    assert_eq!(err.to_string(), "InvalidPayload");
}

#[test]
fn quorum_unknown_message_type_rejected() {
    let mode = QuorumMode::new(Arc::new(Evaluator));
    let mut session = base_session();
    let result = mode
        .on_session_start(&session, &env("coordinator", "SessionStart", vec![]))
        .unwrap();
    apply(&mut session, result);
    let err = mode
        .on_message(&session, &env("alice", "CustomType", vec![]))
        .unwrap_err();
    assert_eq!(err.to_string(), "InvalidPayload");
}

#[test]
fn policy_denies_commitment_when_quorum_not_met_due_to_abstentions() {
    let mode = QuorumMode::new(Arc::new(Evaluator));
    let mut session = base_session();
    session.policy_definition = Some(PolicyDefinition {
        policy_id: "test-strict-quorum".into(),
        mode: "macp.mode.quorum.v1".into(),
        description: "strict quorum".into(),
        rules: json(r#"{
            "threshold": { "type": "n_of_m", "value": 3 },
            "abstention": { "counts_toward_quorum": false, "interpretation": "neutral" }
        }"#),
        schema_version: 1,
    });
    let result = mode
        .on_session_start(&session, &env("coordinator", "SessionStart", vec![]))
        .unwrap();
    apply(&mut session, result);
    let result = mode
        .on_message(
            &session,
            &env(
                "coordinator",
                "ApprovalRequest",
                make_approval_request("r1", 2),
            ),
        )
        .unwrap();
    apply(&mut session, result);
    let result = mode
        .on_message(
            &session,
            &env("alice", "Approve", make_approve("r1", "yes")),
        )
        .unwrap();
    apply(&mut session, result);
    let result = mode
        .on_message(&session, &env("bob", "Approve", make_approve("r1", "yes")))
        .unwrap();
    apply(&mut session, result);
    let result = mode
        .on_message(
            &session,
            &env("carol", "Abstain", make_abstain("r1", "no opinion")),
        )
        .unwrap();
    apply(&mut session, result);
    let err = mode
        .on_message(
            &session,
            &env("coordinator", "Commitment", commitment_payload()),
        )
        .unwrap_err();
    assert_eq!(err.to_string(), "PolicyDenied");
}

#[test]
fn negative_outcome_quorum_rejected() {
    let mode = QuorumMode::new(Arc::new(Evaluator));
    let mut session = base_session();
    let result = mode
        .on_session_start(&session, &env("coordinator", "SessionStart", vec![]))
        .unwrap();
    apply(&mut session, result);
    let result = mode
        .on_message(
            &session,
            &env(
                "coordinator",
                "ApprovalRequest",
                make_approval_request("r1", 2),
            ),
        )
        .unwrap();
    apply(&mut session, result);
    let result = mode
        .on_message(
            &session,
            &env("alice", "Reject", make_reject("r1", "not ready")),
        )
        .unwrap();
    apply(&mut session, result);
    let result = mode
        .on_message(
            &session,
            &env("bob", "Reject", make_reject("r1", "disagree")),
        )
        .unwrap();
    apply(&mut session, result);
    let negative_commitment = commitment("quorum.rejected", false);
    let result = mode
        .on_message(
            &session,
            &env("coordinator", "Commitment", negative_commitment),
        )
        .unwrap();
    assert!(matches!(result, ModeResponse::PersistAndResolve { .. }));
}

#[test]
fn all_participants_abstain_allows_negative_commitment() {
    let mode = QuorumMode::new(Arc::new(Evaluator));
    let mut session = base_session();
    let result = mode
        .on_session_start(&session, &env("coordinator", "SessionStart", vec![]))
        .unwrap();
    apply(&mut session, result);
    let result = mode
        .on_message(
            &session,
            &env(
                "coordinator",
                "ApprovalRequest",
                make_approval_request("r1", 2),
            ),
        )
        .unwrap();
    apply(&mut session, result);
    let result = mode
        .on_message(
            &session,
            &env("alice", "Abstain", make_abstain("r1", "neutral")),
        )
        .unwrap();
    apply(&mut session, result);
    let result = mode
        .on_message(
            &session,
            &env("bob", "Abstain", make_abstain("r1", "neutral")),
        )
        .unwrap();
    apply(&mut session, result);
    let result = mode
        .on_message(
            &session,
            &env("carol", "Abstain", make_abstain("r1", "neutral")),
        )
        .unwrap();
    apply(&mut session, result);
    let negative_commitment = CommitmentPayload {
        commitment_id: "c1".into(),
        action: "quorum.rejected".into(),
        authority_scope: "deploy".into(),
        reason: "all abstained".into(),
        mode_version: "1.0.0".into(),
        policy_version: "policy".into(),
        configuration_version: "config".into(),
        outcome_positive: false,
        supersedes: None,
    }
    .encode_to_vec();
    let result = mode
        .on_message(
            &session,
            &env("coordinator", "Commitment", negative_commitment),
        )
        .unwrap();
    assert!(matches!(result, ModeResponse::PersistAndResolve { .. }));
}

#[test]
fn initiator_not_in_participants_cannot_cast_ballot() {
    let mode = QuorumMode::new(Arc::new(Evaluator));
    let mut session = base_session();
    let result = mode
        .on_session_start(&session, &env("coordinator", "SessionStart", vec![]))
        .unwrap();
    apply(&mut session, result);
    let result = mode
        .on_message(
            &session,
            &env(
                "coordinator",
                "ApprovalRequest",
                make_approval_request("r1", 2),
            ),
        )
        .unwrap();
    apply(&mut session, result);
    let approve_env = env("coordinator", "Approve", make_approve("r1", "yes"));
    let err = mode.authorize_sender(&session, &approve_env).unwrap_err();
    assert_eq!(err.to_string(), "Forbidden");
}

#[test]
fn policy_threshold_overrides_required_approvals() {
    let mode = QuorumMode::new(Arc::new(Evaluator));
    let mut session = base_session();
    session.policy_definition = Some(PolicyDefinition {
        policy_id: "threshold-override".into(),
        mode: "macp.mode.quorum.v1".into(),
        description: "low threshold".into(),
        rules: json(r#"{
            "threshold": { "type": "n_of_m", "value": 1.0 }
        }"#),
        schema_version: 1,
    });
    let result = mode
        .on_session_start(&session, &env("coordinator", "SessionStart", vec![]))
        .unwrap();
    apply(&mut session, result);
    let result = mode
        .on_message(
            &session,
            &env(
                "coordinator",
                "ApprovalRequest",
                make_approval_request("r1", 3),
            ),
        )
        .unwrap();
    apply(&mut session, result);
    let result = mode
        .on_message(
            &session,
            &env("alice", "Approve", make_approve("r1", "yes")),
        )
        .unwrap();
    apply(&mut session, result);
    let commit = mode
        .on_message(
            &session,
            &env("coordinator", "Commitment", commitment_payload()),
        )
        .unwrap();
    assert!(matches!(commit, ModeResponse::PersistAndResolve { .. }));
}

#[test]
fn policy_percentage_threshold() {
    let mode = QuorumMode::new(Arc::new(Evaluator));
    let mut session = base_session();
    session.policy_definition = Some(PolicyDefinition {
        policy_id: "pct-override".into(),
        mode: "macp.mode.quorum.v1".into(),
        description: "percentage threshold".into(),
        rules: json(r#"{
            "threshold": { "type": "percentage", "value": 50.0 }
        }"#),
        schema_version: 1,
    });
    let result = mode
        .on_session_start(&session, &env("coordinator", "SessionStart", vec![]))
        .unwrap();
    apply(&mut session, result);
    let result = mode
        .on_message(
            &session,
            &env(
                "coordinator",
                "ApprovalRequest",
                make_approval_request("r1", 3),
            ),
        )
        .unwrap();
    apply(&mut session, result);
    let result = mode
        .on_message(
            &session,
            &env("alice", "Approve", make_approve("r1", "yes")),
        )
        .unwrap();
    apply(&mut session, result);
    let err = mode
        .on_message(
            &session,
            &env("coordinator", "Commitment", commitment_payload()),
        )
        .unwrap_err();
    assert_eq!(err.to_string(), "InvalidPayload");
    let result = mode
        .on_message(
            &session,
            &env("bob", "Approve", make_approve("r1", "agreed")),
        )
        .unwrap();
    apply(&mut session, result);
    let commit = mode
        .on_message(
            &session,
            &env("coordinator", "Commitment", commitment_payload()),
        )
        .unwrap();
    assert!(matches!(commit, ModeResponse::PersistAndResolve { .. }));
}

#[test]
fn all_abstain_eligible_for_negative_commitment() {
    let mode = QuorumMode::new(Arc::new(Evaluator));
    let mut session = base_session();
    let result = mode
        .on_session_start(&session, &env("coordinator", "SessionStart", vec![]))
        .unwrap();
    apply(&mut session, result);
    let result = mode
        .on_message(
            &session,
            &env(
                "coordinator",
                "ApprovalRequest",
                make_approval_request("r1", 2),
            ),
        )
        .unwrap();
    apply(&mut session, result);
    for sender in &["alice", "bob", "carol"] {
        let result = mode
            .on_message(
                &session,
                &env(sender, "Abstain", make_abstain("r1", "neutral")),
            )
            .unwrap();
        apply(&mut session, result);
    }
    let commit = mode
        .on_message(
            &session,
            &env(
                "coordinator",
                "Commitment",
                commitment("quorum.rejected", false),
            ),
        )
        .unwrap();
    assert!(matches!(commit, ModeResponse::PersistAndResolve { .. }));
}

fn quorum_policy(rules: serde_json::Value) -> PolicyDefinition {
    PolicyDefinition {
        policy_id: "threshold-parity".into(),
        mode: "macp.mode.quorum.v1".into(),
        description: "threshold parity fixture".into(),
        rules,
        schema_version: 1,
    }
}

fn session_with(participants: usize, rules: serde_json::Value) -> Session {
    let names = ["alice", "bob", "carol", "dave", "erin"];
    let mut session = Session::builder("s1", "macp.mode.quorum.v1", "coordinator")
        .ttl_ms(60_000)
        .participants(
            names[..participants]
                .iter()
                .map(|s| s.to_string())
                .collect(),
        )
        .mode_version("1.0.0")
        .configuration_version("config")
        .policy_version("policy")
        .build();
    session.policy_definition = Some(quorum_policy(rules));
    session
}

fn matrix_request() -> ApprovalRequestRecord {
    ApprovalRequestRecord {
        request_id: "r1".into(),
        action: "deploy.production".into(),
        summary: "Deploy v2".into(),
        details: vec![],
        required_approvals: 99,
        requested_by: "coordinator".into(),
    }
}

fn as_option(threshold: ApprovalThreshold) -> Option<u32> {
    match threshold {
        ApprovalThreshold::Approvals(required) => Some(required),
        ApprovalThreshold::Unsatisfiable => None,
    }
}

fn mode_required(participants: usize, rules: serde_json::Value) -> Option<u32> {
    let session = session_with(participants, rules);
    as_option(Quorum::effective_threshold(&session, &matrix_request()))
}

fn session_required(participants: usize, rules: serde_json::Value) -> Option<u32> {
    let mut session = session_with(participants, rules);
    session.mode_state = Quorum::encode_state(&QuorumState {
        request: Some(matrix_request()),
        ballots: TextMap::new(),
    });
    as_option(
        Quorum::effective_threshold_for_session(&session)
            .expect("state seated by encode_state decodes")
            .expect("a request was seated"),
    )
}

fn evaluator_required(participants: usize, rules: serde_json::Value) -> Option<u32> {
    let policy = quorum_policy(rules);
    let names = vec![String::new(); participants];
    (0u32..=64).find(|approve| {
        let ctx = CommitmentContext {
            policy: &policy,
            participants: &names,
            outcome_positive: true,
            mode: CommitmentMode::Quorum {
                approve_count: *approve as usize,
                reject_count: 0,
                abstain_count: 0,
            },
        };
        matches!(
            Evaluator.evaluate_commitment(&ctx),
            PolicyDecision::Allow { .. }
        )
    })
}

#[test]
fn fractional_threshold_ceils_to_one_in_both_layers() {
    let rules = json(r#"{ "threshold": { "type": "n_of_m", "value": 0.5 } }"#);
    assert_eq!(mode_required(3, rules.clone()), Some(1));
    assert_eq!(evaluator_required(3, rules), Some(1));
}

#[test]
fn threshold_is_floored_at_one_so_a_zero_bar_is_unreachable() {
    for value in [0.000_001, 0.1, 0.49, 0.5, 0.99] {
        let rules = json(&format!(
            r#"{{ "threshold": {{ "type": "n_of_m", "value": {value:?} }} }}"#
        ));
        assert_eq!(mode_required(3, rules.clone()), Some(1), "value {value}");
        assert_eq!(evaluator_required(3, rules), Some(1), "value {value}");
    }
}

#[test]
fn zero_ballot_decline_is_refused_under_a_fractional_threshold() {
    let mode = QuorumMode::new(Arc::new(Evaluator));
    let mut session = session_with(
        3,
        json(r#"{ "threshold": { "type": "n_of_m", "value": 0.5 } }"#),
    );
    let result = mode
        .on_session_start(&session, &env("coordinator", "SessionStart", vec![]))
        .unwrap();
    apply(&mut session, result);
    let result = mode
        .on_message(
            &session,
            &env(
                "coordinator",
                "ApprovalRequest",
                make_approval_request("r1", 3),
            ),
        )
        .unwrap();
    apply(&mut session, result);
    let err = mode
        .on_message(
            &session,
            &env(
                "coordinator",
                "Commitment",
                commitment("quorum.rejected", false),
            ),
        )
        .unwrap_err();
    assert_eq!(err.to_string(), "InvalidPayload");
    let err = mode
        .on_message(
            &session,
            &env("coordinator", "Commitment", commitment_payload()),
        )
        .unwrap_err();
    assert_eq!(err.to_string(), "InvalidPayload");
    let result = mode
        .on_message(
            &session,
            &env("alice", "Approve", make_approve("r1", "yes")),
        )
        .unwrap();
    apply(&mut session, result);
    let commit = mode
        .on_message(
            &session,
            &env("coordinator", "Commitment", commitment_payload()),
        )
        .unwrap();
    assert!(matches!(commit, ModeResponse::PersistAndResolve { .. }));
}

#[test]
fn weighted_threshold_is_unsatisfiable_not_a_raw_approval_count() {
    let rules = json(r#"{ "threshold": { "type": "weighted", "value": 2 } }"#);
    assert_eq!(mode_required(3, rules.clone()), None);
    assert_eq!(evaluator_required(3, rules.clone()), None);

    let unknown = json(r#"{ "threshold": { "type": "two_thirds", "value": 2 } }"#);
    assert_eq!(mode_required(3, unknown.clone()), None);
    assert_eq!(evaluator_required(3, unknown), None);

    let mode = QuorumMode::new(Arc::new(Evaluator));
    let mut session = session_with(3, rules);
    let result = mode
        .on_session_start(&session, &env("coordinator", "SessionStart", vec![]))
        .unwrap();
    apply(&mut session, result);
    let err = mode
        .on_message(
            &session,
            &env(
                "coordinator",
                "ApprovalRequest",
                make_approval_request("r1", 2),
            ),
        )
        .unwrap_err();
    assert_eq!(err.to_string(), "InvalidPayload");
}

#[test]
fn mode_and_evaluator_agree_across_the_threshold_matrix() {
    let cases: [(&str, [f64; 5]); 3] = [
        ("n_of_m", [0.5, 1.0, 2.0, 3.0, 5.0]),
        ("count", [0.5, 1.0, 2.0, 3.0, 5.0]),
        ("percentage", [0.5, 33.0, 50.0, 100.0, 150.0]),
    ];
    for (threshold_type, values) in cases {
        for value in values {
            for participants in 1..=3usize {
                let rules = json(&format!(
                    r#"{{ "threshold": {{ "type": "{threshold_type}", "value": {value:?} }} }}"#
                ));
                let mode = mode_required(participants, rules.clone());
                let session = session_required(participants, rules.clone());
                let evaluator = evaluator_required(participants, rules);
                assert_eq!(
                    mode, evaluator,
                    "type={threshold_type} value={value} participants={participants}"
                );
                assert_eq!(
                    session, evaluator,
                    "session-level accessor: type={threshold_type} value={value} \
                     participants={participants}"
                );
                assert_ne!(
                    mode,
                    Some(0),
                    "type={threshold_type} value={value} participants={participants}: \
                     a bar of 0 is met before any ballot is cast"
                );
            }
        }
    }
}

#[test]
fn session_threshold_separates_no_request_from_unsatisfiable() {
    let rules = json(r#"{ "threshold": { "type": "n_of_m", "value": 2 } }"#);

    let mut session = session_with(3, rules.clone());
    assert_eq!(
        Quorum::effective_threshold_for_session(&session).unwrap(),
        None
    );
    session.mode_state = Quorum::encode_state(&QuorumState::default());
    assert_eq!(
        Quorum::effective_threshold_for_session(&session).unwrap(),
        None
    );

    session.mode_state = Quorum::encode_state(&QuorumState {
        request: Some(matrix_request()),
        ballots: TextMap::new(),
    });
    assert_eq!(
        Quorum::effective_threshold_for_session(&session).unwrap(),
        Some(ApprovalThreshold::Approvals(2))
    );

    session.policy_definition = Some(quorum_policy(
        json(r#"{ "threshold": { "type": "weighted", "value": 2 } }"#),
    ));
    assert_eq!(
        Quorum::effective_threshold_for_session(&session).unwrap(),
        Some(ApprovalThreshold::Unsatisfiable)
    );

    session.mode_state = b"{not-quorum-state".to_vec();
    assert_eq!(
        Quorum::effective_threshold_for_session(&session)
            .unwrap_err()
            .to_string(),
        "InvalidModeState"
    );
}

#[test]
fn session_threshold_falls_back_to_the_requests_own_required_approvals() {
    let mode = QuorumMode::new(Arc::new(Evaluator));
    let mut session = base_session();
    session.policy_definition = None;
    let result = mode
        .on_session_start(&session, &env("coordinator", "SessionStart", vec![]))
        .unwrap();
    apply(&mut session, result);
    assert_eq!(
        Quorum::effective_threshold_for_session(&session).unwrap(),
        None
    );
    let result = mode
        .on_message(
            &session,
            &env(
                "coordinator",
                "ApprovalRequest",
                make_approval_request("r1", 2),
            ),
        )
        .unwrap();
    apply(&mut session, result);
    assert_eq!(
        Quorum::effective_threshold_for_session(&session).unwrap(),
        Some(ApprovalThreshold::Approvals(2))
    );
    session.policy_definition = Some(quorum_policy(
        json(r#"{ "threshold": { "type": "n_of_m", "value": 0 } }"#),
    ));
    assert_eq!(
        Quorum::effective_threshold_for_session(&session).unwrap(),
        Some(ApprovalThreshold::Approvals(2))
    );
}

#[test]
fn over_participant_policy_threshold_refuses_the_approval_request() {
    let mode = QuorumMode::new(Arc::new(Evaluator));
    let mut session = session_with(
        3,
        json(r#"{ "threshold": { "type": "n_of_m", "value": 5 } }"#),
    );
    let result = mode
        .on_session_start(&session, &env("coordinator", "SessionStart", vec![]))
        .unwrap();
    apply(&mut session, result);
    let err = mode
        .on_message(
            &session,
            &env(
                "coordinator",
                "ApprovalRequest",
                make_approval_request("r1", 3),
            ),
        )
        .unwrap_err();
    assert_eq!(err.to_string(), "InvalidPayload");
    session.policy_definition = Some(quorum_policy(
        json(r#"{ "threshold": { "type": "n_of_m", "value": 3 } }"#),
    ));
    assert!(mode
        .on_message(
            &session,
            &env(
                "coordinator",
                "ApprovalRequest",
                make_approval_request("r1", 3),
            ),
        )
        .is_ok());
}

#[test]
fn zero_ballot_decline_is_refused_when_policy_rebinds_over_the_participant_pool() {
    let mode = QuorumMode::new(Arc::new(Evaluator));
    let mut session = session_with(
        3,
        json(r#"{ "threshold": { "type": "n_of_m", "value": 3 } }"#),
    );
    let result = mode
        .on_session_start(&session, &env("coordinator", "SessionStart", vec![]))
        .unwrap();
    apply(&mut session, result);
    let result = mode
        .on_message(
            &session,
            &env(
                "coordinator",
                "ApprovalRequest",
                make_approval_request("r1", 3),
            ),
        )
        .unwrap();
    apply(&mut session, result);
    session.policy_definition = Some(quorum_policy(
        json(r#"{ "threshold": { "type": "n_of_m", "value": 5 } }"#),
    ));
    let err = mode
        .on_message(
            &session,
            &env(
                "coordinator",
                "Commitment",
                commitment("quorum.rejected", false),
            ),
        )
        .unwrap_err();
    assert_eq!(err.to_string(), "InvalidPayload");
}

#[test]
fn genuine_unreachable_threshold_still_permits_a_negative_commitment() {
    let mode = QuorumMode::new(Arc::new(Evaluator));
    let mut session = session_with(
        3,
        json(r#"{ "threshold": { "type": "n_of_m", "value": 2 } }"#),
    );
    let result = mode
        .on_session_start(&session, &env("coordinator", "SessionStart", vec![]))
        .unwrap();
    apply(&mut session, result);
    let result = mode
        .on_message(
            &session,
            &env(
                "coordinator",
                "ApprovalRequest",
                make_approval_request("r1", 3),
            ),
        )
        .unwrap();
    apply(&mut session, result);
    for participant in ["alice", "bob", "carol"] {
        let result = mode
            .on_message(
                &session,
                &env(participant, "Abstain", make_abstain("r1", "no opinion")),
            )
            .unwrap();
        apply(&mut session, result);
    }
    let commit = mode
        .on_message(
            &session,
            &env(
                "coordinator",
                "Commitment",
                commitment("quorum.rejected", false),
            ),
        )
        .unwrap();
    assert!(matches!(commit, ModeResponse::PersistAndResolve { .. }));
}

#[test]
fn a_single_ballot_still_unlocks_the_unreachable_branch() {
    let mode = QuorumMode::new(Arc::new(Evaluator));
    let mut session = session_with(
        3,
        json(r#"{ "threshold": { "type": "n_of_m", "value": 3 } }"#),
    );
    let result = mode
        .on_session_start(&session, &env("coordinator", "SessionStart", vec![]))
        .unwrap();
    apply(&mut session, result);
    let result = mode
        .on_message(
            &session,
            &env(
                "coordinator",
                "ApprovalRequest",
                make_approval_request("r1", 3),
            ),
        )
        .unwrap();
    apply(&mut session, result);
    let result = mode
        .on_message(&session, &env("alice", "Reject", make_reject("r1", "no")))
        .unwrap();
    apply(&mut session, result);
    let commit = mode
        .on_message(
            &session,
            &env(
                "coordinator",
                "Commitment",
                commitment("quorum.rejected", false),
            ),
        )
        .unwrap();
    assert!(matches!(commit, ModeResponse::PersistAndResolve { .. }));
}
