use macp::mode::util::{validate_commitment_payload_for_session, validate_outcome_positive};
use macp::pb::commitment::{CommitmentPayload, CommitmentRef};
use macp::session::Session;

fn make_commitment(action: &str, outcome_positive: bool) -> CommitmentPayload {
    CommitmentPayload {
        commitment_id: "c1".into(),
        action: action.into(),
        authority_scope: "scope".into(),
        reason: "reason".into(),
        mode_version: "1.0.0".into(),
        policy_version: String::new(),
        configuration_version: "cfg-1".into(),
        outcome_positive,
        supersedes: None,
    }
}

fn session_for_commitment() -> Session {
    Session::builder("s1", "macp.mode.decision.v1", "agent://a")
        .ttl_ms(60_000)
        .mode_version("1.0.0")
        .configuration_version("cfg-1")
        .build()
}

#[test]
fn well_formed_supersedes_is_accepted() {
    let session = session_for_commitment();
    let mut c = make_commitment("decision.selected", true);
    c.supersedes = Some(CommitmentRef {
        session_id: "prior-session".into(),
        commitment_hash: "abc123".into(),
    });
    assert!(validate_commitment_payload_for_session(&session, &c.encode_to_vec()).is_ok());
}

#[test]
fn malformed_supersedes_is_rejected() {
    let session = session_for_commitment();
    for bad in [("", "abc123"), ("prior-session", ""), ("  ", "abc123")] {
        let mut c = make_commitment("decision.selected", true);
        c.supersedes = Some(CommitmentRef {
            session_id: bad.0.into(),
            commitment_hash: bad.1.into(),
        });
        assert!(
            validate_commitment_payload_for_session(&session, &c.encode_to_vec()).is_err(),
            "expected rejection for supersedes {bad:?}"
        );
    }
}

#[test]
fn empty_commitment_policy_version_matches_bound_policy() {
    let mut session = session_for_commitment();
    session.policy_version = "policy.default".into();
    let c = make_commitment("decision.selected", true);
    assert!(validate_commitment_payload_for_session(&session, &c.encode_to_vec()).is_ok());
}

#[test]
fn wrong_commitment_policy_version_rejected() {
    let mut session = session_for_commitment();
    session.policy_version = "policy.default".into();
    let mut c = make_commitment("decision.selected", true);
    c.policy_version = "policy.other.v1".into();
    assert!(validate_commitment_payload_for_session(&session, &c.encode_to_vec()).is_err());
}

#[test]
fn exact_commitment_policy_version_accepted() {
    let mut session = session_for_commitment();
    session.policy_version = "policy.default".into();
    let mut c = make_commitment("decision.selected", true);
    c.policy_version = "policy.default".into();
    assert!(validate_commitment_payload_for_session(&session, &c.encode_to_vec()).is_ok());
}

#[test]
fn decision_selected_positive_ok() {
    assert!(validate_outcome_positive(&make_commitment("decision.selected", true)).is_ok());
}

#[test]
fn decision_selected_negative_rejected() {
    assert!(validate_outcome_positive(&make_commitment("decision.selected", false)).is_err());
}

#[test]
fn decision_rejected_negative_ok() {
    assert!(validate_outcome_positive(&make_commitment("decision.rejected", false)).is_ok());
}

#[test]
fn decision_rejected_positive_rejected() {
    assert!(validate_outcome_positive(&make_commitment("decision.rejected", true)).is_err());
}

#[test]
fn proposal_accepted_positive_ok() {
    assert!(validate_outcome_positive(&make_commitment("proposal.accepted", true)).is_ok());
}

#[test]
fn proposal_accepted_negative_rejected() {
    assert!(validate_outcome_positive(&make_commitment("proposal.accepted", false)).is_err());
}

#[test]
fn proposal_rejected_negative_ok() {
    assert!(validate_outcome_positive(&make_commitment("proposal.rejected", false)).is_ok());
}

#[test]
fn proposal_rejected_positive_rejected() {
    assert!(validate_outcome_positive(&make_commitment("proposal.rejected", true)).is_err());
}

#[test]
fn task_completed_positive_ok() {
    assert!(validate_outcome_positive(&make_commitment("task.completed", true)).is_ok());
}

#[test]
fn task_completed_negative_rejected() {
    assert!(validate_outcome_positive(&make_commitment("task.completed", false)).is_err());
}

#[test]
fn task_failed_negative_ok() {
    assert!(validate_outcome_positive(&make_commitment("task.failed", false)).is_ok());
}

#[test]
fn task_failed_positive_rejected() {
    assert!(validate_outcome_positive(&make_commitment("task.failed", true)).is_err());
}

#[test]
fn handoff_accepted_positive_ok() {
    assert!(validate_outcome_positive(&make_commitment("handoff.accepted", true)).is_ok());
}

#[test]
fn handoff_declined_negative_ok() {
    assert!(validate_outcome_positive(&make_commitment("handoff.declined", false)).is_ok());
}

#[test]
fn handoff_declined_positive_rejected() {
    assert!(validate_outcome_positive(&make_commitment("handoff.declined", true)).is_err());
}

#[test]
fn quorum_approved_positive_ok() {
    assert!(validate_outcome_positive(&make_commitment("quorum.approved", true)).is_ok());
}

#[test]
fn quorum_rejected_negative_ok() {
    assert!(validate_outcome_positive(&make_commitment("quorum.rejected", false)).is_ok());
}

#[test]
fn quorum_rejected_positive_rejected() {
    assert!(validate_outcome_positive(&make_commitment("quorum.rejected", true)).is_err());
}

#[test]
fn custom_action_no_known_suffix_any_outcome_ok() {
    assert!(validate_outcome_positive(&make_commitment("custom.action", true)).is_ok());
    assert!(validate_outcome_positive(&make_commitment("custom.action", false)).is_ok());
}
