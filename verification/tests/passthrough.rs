use macp::mode::passthrough::PassthroughMode;
use macp::mode::{Mode, ModeResponse};
use macp::pb::commitment::CommitmentPayload;
use macp::pb::envelope::Envelope;
use macp::session::Session;

fn make_session() -> Session {
    Session::builder("s1", "ext.test.v1", "alice")
        .ttl_ms(60_000)
        .started_at_unix_ms(1000)
        .participants(vec!["alice".into(), "bob".into()])
        .mode_version("1.0.0")
        .configuration_version("cfg-1")
        .build()
}

fn make_env(sender: &str, message_type: &str, payload: Vec<u8>) -> Envelope {
    Envelope {
        macp_version: "1.0".into(),
        mode: "ext.test.v1".into(),
        message_type: message_type.into(),
        message_id: "m1".into(),
        session_id: "s1".into(),
        sender: sender.into(),
        timestamp_unix_ms: 1000,
        payload,
    }
}

#[test]
fn accepts_any_message_when_no_filter() {
    let mode = PassthroughMode {
        allowed_message_types: vec![],
    };
    let session = make_session();
    let env = make_env("alice", "CustomMessage", b"data".to_vec());
    let result = mode.on_message(&session, &env).unwrap();
    assert!(matches!(result, ModeResponse::PersistState(_)));
}

#[test]
fn rejects_unlisted_message_type() {
    let mode = PassthroughMode {
        allowed_message_types: vec!["Allowed".into()],
    };
    let session = make_session();
    let env = make_env("alice", "NotAllowed", vec![]);
    assert!(mode.on_message(&session, &env).is_err());
}

#[test]
fn commitment_resolves_session() {
    let mode = PassthroughMode {
        allowed_message_types: vec!["Commitment".into()],
    };
    let session = make_session();
    let payload = CommitmentPayload {
        commitment_id: "c1".into(),
        action: "test.done".into(),
        authority_scope: "test".into(),
        reason: "done".into(),
        mode_version: "1.0.0".into(),
        policy_version: String::new(),
        configuration_version: "cfg-1".into(),
        outcome_positive: true,
        supersedes: None,
    }
    .encode_to_vec();
    let env = make_env("alice", "Commitment", payload);
    let result = mode.on_message(&session, &env).unwrap();
    assert!(matches!(result, ModeResponse::Resolve(_)));
}

#[test]
fn non_initiator_commitment_forbidden() {
    let mode = PassthroughMode {
        allowed_message_types: vec!["Commitment".into()],
    };
    let session = make_session();
    let env = make_env("bob", "Commitment", vec![]);
    assert!(mode.authorize_sender(&session, &env).is_err());
}
