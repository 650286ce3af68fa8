use macp::auth::chain::{begin, ChainAction};
use macp::auth::settings::{resolver_order, ResolverKind};
use macp::codec::{decode, encode};
use macp::commitment_hash::{canonicalize, commitment_hash, write_digest};
use macp::error::MacpError;
use macp::mode::handoff::HandoffMode;
use macp::mode::handoff_state::HandoffDisposition;
use macp::mode::multi_round::{choose_value, parse_contribute_value, MultiRoundMode};
use macp::mode::multi_round_state::MultiRoundState;
use macp::mode::passthrough::PassthroughMode;
use macp::mode::quorum::{ApprovalThreshold, QuorumMode};
use macp::mode::quorum_state::{
    ApprovalRequestRecord, BallotChoice, BallotRecord, QuorumState,
};
use macp::mode::util::{check_commitment_authority, validate_commitment_payload_for_session};
use macp::mode::{
    all_mode_descriptors, extension_mode_descriptors, extension_mode_names,
    standard_mode_descriptors, standard_mode_names, MessageContext, Mode, ModeResponse,
};
use macp::pb::commitment::{CommitmentPayload, CommitmentRef};
use macp::pb::envelope::Envelope;
use macp::pb::handoff::{
    HandoffAcceptPayload, HandoffContextPayload, HandoffDeclinePayload, HandoffOfferPayload,
};
use macp::pb::multi_round::ContributePayload;
use macp::pb::quorum::{ApprovalRequestPayload, ApprovePayload};
use macp::policy::{
    CommitmentContext, PolicyDecision, PolicyDefinition, PolicyEvaluator,
};
use macp::rate_limit::{EventLog, RateLimitConfig};
use macp::security::{
    ConfigError, Credentials, RawLimits, RawPageSizeEnv, SecurityLayer,
};
use macp::session::{Session, SessionState, MAX_SUSPEND_MS};
use macp::step::{step, StepOutcome};
use macp::text::{ends_with, parse_u64, parse_usize, strip_prefix};
use macp::text_map::TextMap;
use std::sync::Arc;

struct AllowAll;

impl PolicyEvaluator for AllowAll {
    fn evaluate_commitment(&self, _ctx: &CommitmentContext<'_>) -> PolicyDecision {
        PolicyDecision::Allow { reasons: vec![] }
    }
}

struct DenyAll;

impl PolicyEvaluator for DenyAll {
    fn evaluate_commitment(&self, ctx: &CommitmentContext<'_>) -> PolicyDecision {
        PolicyDecision::Deny {
            reasons: vec![ctx.policy.policy_id.clone()],
        }
    }
}

fn policy(rules: &str) -> PolicyDefinition {
    PolicyDefinition {
        policy_id: "p".into(),
        mode: "*".into(),
        description: String::new(),
        rules: serde_json::from_str(rules).unwrap(),
        schema_version: 1,
    }
}

fn session(mode: &str, initiator: &str, participants: &[&str]) -> Session {
    Session::builder("s1", mode, initiator)
        .ttl_expiry(1_000_000)
        .participants(participants.iter().map(|p| p.to_string()).collect())
        .mode_version("1.0.0")
        .configuration_version("cfg")
        .build()
}

fn env(session: &Session, sender: &str, message_type: &str, id: &str, payload: Vec<u8>) -> Envelope {
    Envelope {
        macp_version: "1.0".into(),
        mode: session.mode.clone(),
        message_type: message_type.into(),
        message_id: id.into(),
        session_id: session.session_id.clone(),
        sender: sender.into(),
        timestamp_unix_ms: 0,
        payload,
    }
}

fn commitment(action: &str, outcome_positive: bool) -> CommitmentPayload {
    CommitmentPayload {
        commitment_id: "c1".into(),
        action: action.into(),
        authority_scope: "scope".into(),
        reason: "because".into(),
        mode_version: "1.0.0".into(),
        policy_version: String::new(),
        configuration_version: "cfg".into(),
        outcome_positive,
        supersedes: None,
    }
}

fn start(mode: &dyn Mode, session: &mut Session) {
    let opening = env(session, &session.initiator_sender, "SessionStart", "m0", vec![]);
    let response = mode.on_session_start(session, &opening).unwrap();
    session.apply_mode_response(response);
}

// ---------------------------------------------------------------------------
// Sessions
// ---------------------------------------------------------------------------

#[test]
fn a_pause_leaves_the_time_to_live_as_it_was() {
    let mut s = session("m", "a", &["a"]);
    s.ttl_expiry = 500;
    s.suspend(100).unwrap();
    s.resume(350).unwrap();
    assert_eq!(s.ttl_expiry - 350, 500 - 100);
}

#[test]
fn terminal_states_are_final() {
    for state in [
        SessionState::Resolved,
        SessionState::Expired,
        SessionState::Cancelled,
    ] {
        let mut s = session("m", "a", &["a"]);
        s.state = state.clone();
        assert!(s.state.is_terminal());
        assert_eq!(s.suspend(1), Err(MacpError::SessionNotOpen));
        assert_eq!(s.resume(1), Err(MacpError::SessionNotOpen));
        assert_eq!(s.cancel(), Err(MacpError::SessionNotOpen));
        assert_eq!(s.state, state);
    }
}

#[test]
fn a_deadline_is_put_off_by_pauses_within_it_only() {
    let mut s = session("m", "a", &["a"]);
    s.suspension_intervals = vec![(10, 30), (35, 36)];
    assert_eq!(s.unsuspended_deadline(0, 12), 32);
    s.suspension_intervals.push((32, 90));
    assert_eq!(s.unsuspended_deadline(0, 12), 32);
    s.suspension_intervals.remove(0);
    assert!(s.unsuspended_deadline(0, 12) <= 32);
    // A longer wait ends no earlier, whatever the pauses.
    s.suspension_intervals = vec![(20, 5), (3, 9), (1, 40), (-2, 7)];
    for duration in 0..60 {
        assert!(s.unsuspended_deadline(0, duration) <= s.unsuspended_deadline(0, duration + 1));
    }
    assert_eq!(s.unsuspended_deadline(i64::MAX - 1, 12), i64::MAX);
}

#[test]
fn a_cap_counts_the_pause_that_goes_on() {
    let mut s = session("m", "a", &["a"]);
    s.suspend(0).unwrap();
    assert!(!s.suspend_cap_exceeded(MAX_SUSPEND_MS));
    assert!(s.suspend_cap_exceeded(MAX_SUSPEND_MS + 1));
}

// ---------------------------------------------------------------------------
// Steps
// ---------------------------------------------------------------------------

#[test]
fn a_handoff_session_runs_from_offer_to_resolution() {
    let mode = HandoffMode::new(Arc::new(AllowAll));
    let mut s = session("macp.mode.handoff.v1", "owner", &["owner", "target"]);
    start(&mode, &mut s);
    let offer = HandoffOfferPayload {
        handoff_id: "h1".into(),
        target_participant: "target".into(),
        scope: "support".into(),
        reason: "shift ends".into(),
    };
    let first = env(&s, "owner", "HandoffOffer", "m1", offer.encode_to_vec());
    let out = step(&mut s, &first, &mode, 10).unwrap();
    assert_eq!(
        out,
        StepOutcome::Accepted {
            state: SessionState::Open
        }
    );
    // The same message again changes nothing.
    let recorded = s.mode_state.clone();
    assert_eq!(step(&mut s, &first, &mode, 11), Ok(StepOutcome::Duplicate));
    assert_eq!(s.mode_state, recorded);
    // Only the target answers.
    let accept = HandoffAcceptPayload {
        handoff_id: "h1".into(),
        accepted_by: "target".into(),
        reason: "on it".into(),
        implicit: false,
    };
    let forged = env(&s, "owner", "HandoffAccept", "m2", accept.encode_to_vec());
    assert!(step(&mut s, &forged, &mode, 12).is_err());
    assert!(!s.seen_message_ids.contains("m2"));
    let answer = env(&s, "target", "HandoffAccept", "m2", accept.encode_to_vec());
    assert!(step(&mut s, &answer, &mode, 13).is_ok());
    // An answer is final.
    let decline = HandoffDeclinePayload {
        handoff_id: "h1".into(),
        declined_by: "target".into(),
        reason: "no".into(),
    };
    let late = env(&s, "target", "HandoffDecline", "m3", decline.encode_to_vec());
    assert_eq!(step(&mut s, &late, &mode, 14), Err(MacpError::InvalidPayload));
    let end = commitment("handoff.accepted", true).encode_to_vec();
    let closing = env(&s, "owner", "Commitment", "m4", end.clone());
    let out = step(&mut s, &closing, &mode, 15).unwrap();
    assert_eq!(
        out,
        StepOutcome::Accepted {
            state: SessionState::Resolved
        }
    );
    assert_eq!(s.resolution, Some(end));
    assert_eq!(s.participant_message_counts.get("owner"), Some(&2));
    assert_eq!(s.participant_last_seen.get("target"), Some(&13));
    // Nothing changes a session that is over.
    let more = env(&s, "owner", "HandoffOffer", "m5", offer.encode_to_vec());
    assert_eq!(step(&mut s, &more, &mode, 16), Err(MacpError::SessionNotOpen));
}

fn offer(id: &str, target: &str) -> Vec<u8> {
    HandoffOfferPayload {
        handoff_id: id.into(),
        target_participant: target.into(),
        scope: String::new(),
        reason: String::new(),
    }
    .encode_to_vec()
}

#[test]
fn what_a_mode_records_is_what_the_next_message_finds() {
    let mode = HandoffMode::new(Arc::new(AllowAll));
    // A session without a record starts without offers.
    let mut s = session("macp.mode.handoff.v1", "owner", &["owner", "target", "other"]);
    assert!(s.mode_state.is_empty());
    let first = env(&s, "owner", "HandoffOffer", "m1", offer("h1", "target"));
    assert!(step(&mut s, &first, &mode, 1000).is_ok());
    let state = HandoffMode::<AllowAll>::decode_state(&s.mode_state).unwrap();
    let recorded = state.offers.get("h1").unwrap();
    assert_eq!(recorded.disposition, HandoffDisposition::Offered);
    assert!(recorded.accepted_by.is_none() && recorded.declined_by.is_none());
    let second = env(&s, "owner", "HandoffOffer", "m2", offer("h2", "other"));
    assert_eq!(step(&mut s, &second, &mode, 1001), Err(MacpError::InvalidPayload));
    let accept = HandoffAcceptPayload {
        handoff_id: "h1".into(),
        accepted_by: "target".into(),
        reason: String::new(),
        implicit: false,
    };
    let answer = env(&s, "target", "HandoffAccept", "m3", accept.encode_to_vec());
    assert!(step(&mut s, &answer, &mode, 1002).is_ok());
    assert_eq!(step(&mut s, &second, &mode, 1003), Err(MacpError::InvalidPayload));
    let context = HandoffContextPayload {
        handoff_id: "h1".into(),
        content_type: "text/plain".into(),
        context: b"notes".to_vec(),
    };
    let more = env(&s, "owner", "HandoffContext", "m4", context.encode_to_vec());
    assert!(step(&mut s, &more, &mode, 1004).is_ok());
    let state = HandoffMode::<AllowAll>::decode_state(&s.mode_state).unwrap();
    let recorded = state.offers.get("h1").unwrap();
    assert_eq!(recorded.disposition, HandoffDisposition::Accepted);
    assert_eq!(recorded.accepted_by.as_deref(), Some("target"));
    assert!(recorded.declined_by.is_none());
    assert_eq!(state.offers.len(), 1);
    assert_eq!(state.contexts.len(), 1);
    assert!(state.contexts.contains_key("h1"));
}

#[test]
fn an_offer_times_out_as_soon_as_its_unsuspended_time_is_over() {
    let outcome = |suspended: i64| {
        let mode = HandoffMode::new(Arc::new(AllowAll));
        let mut s = session("macp.mode.handoff.v1", "owner", &["owner", "target"]);
        s.semantics_rev = 2;
        s.policy_definition = Some(policy(
            r#"{"acceptance":{"implicit_accept_timeout_ms":100}}"#,
        ));
        start(&mode, &mut s);
        let first = env(&s, "owner", "HandoffOffer", "m1", offer("h1", "target"));
        let response = mode
            .on_message_at(&s, &first, &MessageContext::new(1000))
            .unwrap();
        s.apply_mode_response(response);
        s.suspend(1000).unwrap();
        s.resume(1000 + suspended).unwrap();
        let end = commitment("handoff.accepted", true).encode_to_vec();
        let closing = env(&s, "owner", "Commitment", "m2", end);
        mode.on_message_at(&s, &closing, &MessageContext::new(1300))
    };
    assert!(matches!(
        outcome(200),
        Ok(ModeResponse::PersistAndResolve { .. })
    ));
    assert_eq!(outcome(201).unwrap_err(), MacpError::InvalidPayload);
}

#[test]
fn an_identifier_is_taken_for_good() {
    let mode = PassthroughMode {
        allowed_message_types: vec![],
    };
    let mut s = session("ext.test.v1", "a", &["a"]);
    let end = commitment("done", true).encode_to_vec();
    let closing = env(&s, "a", "Commitment", "m1", end);
    assert!(step(&mut s, &closing, &mode, 10).is_ok());
    assert_eq!(s.state, SessionState::Resolved);
    // Another message, from another sender, for another mode, past the deadline.
    let mut other = env(&s, "b", "Other", "m1", vec![1]);
    other.mode = "ext.other.v1".into();
    let recorded = s.mode_state.clone();
    assert_eq!(
        step(&mut s, &other, &mode, 2_000_000),
        Ok(StepOutcome::Duplicate)
    );
    assert_eq!(s.mode_state, recorded);
    assert_eq!(s.state, SessionState::Resolved);
    assert_eq!(s.participant_message_counts.get("b"), None);
}

#[test]
fn states_of_sessions_read_back_from_their_records() {
    for (state, text) in [
        (SessionState::Open, "\"Open\""),
        (SessionState::Suspended, "\"Suspended\""),
        (SessionState::Resolved, "\"Resolved\""),
        (SessionState::Expired, "\"Expired\""),
        (SessionState::Cancelled, "\"Cancelled\""),
    ] {
        assert_eq!(encode(&state), text.as_bytes());
        assert_eq!(decode::<SessionState>(text.as_bytes()), Some(state));
    }
    assert_eq!(decode::<SessionState>(b"\"open\""), None);
    assert_eq!(decode::<SessionState>(b""), None);
}

#[test]
fn a_policy_that_denies_keeps_the_session_open() {
    let mode = HandoffMode::new(Arc::new(DenyAll));
    let mut s = session("macp.mode.handoff.v1", "owner", &["owner", "target"]);
    s.policy_definition = Some(policy(
        r#"{"acceptance":{"implicit_accept_timeout_ms":5}}"#,
    ));
    start(&mode, &mut s);
    let offer = HandoffOfferPayload {
        handoff_id: "h1".into(),
        target_participant: "target".into(),
        scope: String::new(),
        reason: String::new(),
    };
    let first = env(&s, "owner", "HandoffOffer", "m1", offer.encode_to_vec());
    let response = mode
        .on_message_at(&s, &first, &MessageContext::new(100))
        .unwrap();
    s.apply_mode_response(response);
    let end = commitment("handoff.accepted", true).encode_to_vec();
    let closing = env(&s, "owner", "Commitment", "m2", end);
    // Too early: no one has answered.
    assert_eq!(
        mode.on_message_at(&s, &closing, &MessageContext::new(104))
            .unwrap_err(),
        MacpError::InvalidPayload
    );
    // The offer has timed out, and the evaluator decides.
    assert_eq!(
        mode.on_message_at(&s, &closing, &MessageContext::new(105))
            .unwrap_err(),
        MacpError::PolicyDenied {
            reasons: vec!["p".into()]
        }
    );
}

#[test]
fn an_expired_session_takes_nothing_over() {
    let mode = PassthroughMode {
        allowed_message_types: vec![],
    };
    let mut s = session("ext.test.v1", "a", &["a"]);
    let message = env(&s, "a", "Note", "m1", vec![1]);
    let past = s.ttl_expiry + 1;
    assert_eq!(step(&mut s, &message, &mode, past), Err(MacpError::TtlExpired));
    assert_eq!(s.state, SessionState::Expired);
    assert!(s.mode_state.is_empty());
    assert!(s.seen_message_ids.is_empty());
}

// ---------------------------------------------------------------------------
// Commitments
// ---------------------------------------------------------------------------

#[test]
fn commitments_are_held_to_the_session() {
    let s = session("m", "a", &["a"]);
    let fits = |c: &CommitmentPayload| {
        validate_commitment_payload_for_session(&s, &c.encode_to_vec()).is_ok()
    };
    let good = commitment("quorum.approved", true);
    assert!(fits(&good));
    for broken in [
        CommitmentPayload {
            commitment_id: "\u{3000} \t".into(),
            ..good.clone()
        },
        CommitmentPayload {
            reason: String::new(),
            ..good.clone()
        },
        CommitmentPayload {
            mode_version: "1.0.1".into(),
            ..good.clone()
        },
        CommitmentPayload {
            configuration_version: "cfg ".into(),
            ..good.clone()
        },
        CommitmentPayload {
            outcome_positive: false,
            ..good.clone()
        },
        CommitmentPayload {
            supersedes: Some(CommitmentRef::default()),
            ..good.clone()
        },
    ] {
        assert!(!fits(&broken), "{broken:?}");
    }
}

#[test]
fn policies_say_who_commits() {
    let mut s = session("m", "boss", &["alice", "bob"]);
    let may = |s: &Session, who: &str| check_commitment_authority(s, who).is_ok();
    assert!(may(&s, "boss") && !may(&s, "alice"));
    s.policy_definition = Some(policy(
        r#"{"commitment":{"authority":"any_participant"}}"#,
    ));
    assert!(may(&s, "alice"));
    assert!(!may(&s, "stranger"));
    s.policy_definition = Some(policy(
        r#"{"commitment":{"authority":"designated_role","designated_roles":["bob"]}}"#,
    ));
    assert!(may(&s, "bob") && !may(&s, "alice"));
}

#[test]
fn canonical_forms_tell_commitments_apart() {
    let a = commitment("x\"y", true);
    let b = CommitmentPayload {
        action: "x".into(),
        authority_scope: "y\",\"authority_scope\":\"scope".into(),
        ..a.clone()
    };
    assert_ne!(canonicalize(&a), canonicalize(&b));
    assert_ne!(commitment_hash(&a), commitment_hash(&b));
    let empty = CommitmentPayload {
        supersedes: Some(CommitmentRef::default()),
        ..a.clone()
    };
    assert_ne!(canonicalize(&a), canonicalize(&empty));
    let hash = commitment_hash(&a);
    assert_eq!(hash.len(), 71);
    assert!(hash[7..].chars().all(|c| matches!(c, '0'..='9' | 'a'..='f')));
    assert_eq!(write_digest(&[0x0f, 0xa0]), "sha256:0fa0");
}

// ---------------------------------------------------------------------------
// Quorum
// ---------------------------------------------------------------------------

type Quorum = QuorumMode<AllowAll>;

fn quorum_state(required: u32, ballots: &[(&str, BallotChoice)]) -> QuorumState {
    let mut state = QuorumState {
        request: Some(ApprovalRequestRecord {
            request_id: "r1".into(),
            action: String::new(),
            summary: String::new(),
            details: vec![],
            required_approvals: required,
            requested_by: "boss".into(),
        }),
        ballots: TextMap::new(),
    };
    for (voter, choice) in ballots {
        state.ballots.insert(
            voter.to_string(),
            BallotRecord {
                request_id: "r1".into(),
                choice: *choice,
                sender: voter.to_string(),
                reason: String::new(),
            },
        );
    }
    state
}

#[test]
fn a_vote_is_decided_once_the_bar_is_met_or_out_of_reach() {
    let s = session("macp.mode.quorum.v1", "boss", &["a", "b", "c"]);
    let ready = |required, ballots: &[(&str, BallotChoice)]| {
        Quorum::commitment_ready(&s, &quorum_state(required, ballots))
    };
    use_choices(ready);
}

fn use_choices(ready: impl Fn(u32, &[(&str, BallotChoice)]) -> bool) {
    let yes = BallotChoice::Approve;
    let no = BallotChoice::Reject;
    assert!(!ready(2, &[]));
    assert!(!ready(2, &[("a", yes)]));
    assert!(ready(2, &[("a", yes), ("b", yes)]));
    assert!(!ready(2, &[("a", no)]));
    assert!(ready(2, &[("a", no), ("b", no)]));
    assert!(ready(3, &[("a", BallotChoice::Abstain)]));
    // No one has voted, so an unreachable bar decides nothing yet.
    assert!(!ready(4, &[]));
}

#[test]
fn requests_and_ballots_are_final() {
    let mode = QuorumMode::new(Arc::new(AllowAll));
    let mut s = session("macp.mode.quorum.v1", "boss", &["a", "b"]);
    start(&mode, &mut s);
    let request = |required| {
        ApprovalRequestPayload {
            request_id: "r1".into(),
            action: String::new(),
            summary: String::new(),
            details: vec![],
            required_approvals: required,
        }
        .encode_to_vec()
    };
    let ask = env(&s, "boss", "ApprovalRequest", "m1", request(2));
    assert!(step(&mut s, &ask, &mode, 1).is_ok());
    let again = env(&s, "boss", "ApprovalRequest", "m2", request(1));
    assert_eq!(step(&mut s, &again, &mode, 2), Err(MacpError::InvalidPayload));
    assert_eq!(
        Quorum::effective_threshold_for_session(&s),
        Ok(Some(ApprovalThreshold::Approvals(2)))
    );
    let vote = ApprovePayload {
        request_id: "r1".into(),
        reason: String::new(),
    };
    let ballot = env(&s, "a", "Approve", "m3", vote.encode_to_vec());
    assert!(step(&mut s, &ballot, &mode, 3).is_ok());
    let change = env(&s, "a", "Reject", "m4", vote.encode_to_vec());
    assert_eq!(step(&mut s, &change, &mode, 4), Err(MacpError::InvalidPayload));
    let state = Quorum::decode_state(&s.mode_state).unwrap();
    assert_eq!(state.ballots.get("a").unwrap().choice, BallotChoice::Approve);
}

#[test]
fn a_bar_beyond_the_participants_is_refused() {
    let mode = QuorumMode::new(Arc::new(AllowAll));
    let mut s = session("macp.mode.quorum.v1", "boss", &["a", "b"]);
    s.policy_definition = Some(policy(
        r#"{"threshold":{"type":"percentage","value":150}}"#,
    ));
    start(&mode, &mut s);
    let request = ApprovalRequestPayload {
        request_id: "r1".into(),
        action: String::new(),
        summary: String::new(),
        details: vec![],
        required_approvals: 1,
    };
    let ask = env(&s, "boss", "ApprovalRequest", "m1", request.encode_to_vec());
    assert_eq!(step(&mut s, &ask, &mode, 1), Err(MacpError::InvalidPayload));
    assert_eq!(
        QuorumMode::<AllowAll>::refused_threshold(&s, &ask),
        Some(ApprovalThreshold::Approvals(3))
    );
    // It is not for the bar that these are refused.
    let stranger = env(&s, "a", "ApprovalRequest", "m1", request.encode_to_vec());
    assert_eq!(QuorumMode::<AllowAll>::refused_threshold(&s, &stranger), None);
    let empty = env(&s, "boss", "ApprovalRequest", "m1", vec![]);
    assert_eq!(QuorumMode::<AllowAll>::refused_threshold(&s, &empty), None);
    s.policy_definition = None;
    assert_eq!(QuorumMode::<AllowAll>::refused_threshold(&s, &ask), None);
}

// ---------------------------------------------------------------------------
// Rounds
// ---------------------------------------------------------------------------

fn contribution(value: &str) -> Vec<u8> {
    ContributePayload {
        value: value.into(),
    }
    .encode_to_vec()
}

#[test]
fn rounds_count_changes_until_all_agree() {
    let mode = MultiRoundMode;
    let mut s = session("ext.multi_round.v1", "a", &["a", "b"]);
    start(&mode, &mut s);
    let mut say = |who: &str, what: &str| {
        let id = format!("{who}-{what}-{}", s.seen_message_ids.len());
        let message = env(&s, who, "Contribute", &id, contribution(what));
        step(&mut s, &message, &mode, 1).map(|_| MultiRoundMode::decode_state(&s.mode_state))
    };
    let state = say("a", "x").unwrap().unwrap();
    assert_eq!((state.round, state.converged), (1, false));
    let state = say("a", "x").unwrap().unwrap();
    assert_eq!((state.round, state.converged), (1, false));
    let state = say("b", "y").unwrap().unwrap();
    assert_eq!((state.round, state.converged), (2, false));
    let state = say("b", "x").unwrap().unwrap();
    assert_eq!((state.round, state.converged), (3, true));
    assert!(MultiRoundMode::check_convergence(&state));
    assert_eq!(say("a", "z").unwrap_err(), MacpError::InvalidPayload);

    let end = commitment("multi_round.completed", true).encode_to_vec();
    let closing = env(&s, "a", "Commitment", "end", end);
    step(&mut s, &closing, &mode, 2).unwrap();
    assert_eq!(
        s.resolution.unwrap(),
        br#"{"converged_value":"x","round":3,"final":{"a":"x","b":"x"}}"#
    );
}

#[test]
fn the_forms_of_a_contribution_are_told_apart() {
    let json = br#"{"value":"x"}"#;
    assert_eq!(parse_contribute_value(json, 3).unwrap(), "x");
    assert_eq!(parse_contribute_value(br#"["x"]"#, 3).unwrap(), "x");
    let canonical = contribution(r#"{"value":"x"}"#);
    assert_eq!(parse_contribute_value(&canonical, 3).unwrap(), r#"{"value":"x"}"#);
    assert_eq!(parse_contribute_value(&canonical, 2).unwrap(), "x");
    assert_eq!(
        choose_value(&canonical, 3, Some("x".into())).unwrap(),
        r#"{"value":"x"}"#
    );
    assert_eq!(choose_value(&canonical, 2, Some("x".into())).unwrap(), "x");
    assert_eq!(choose_value(json, 3, Some("x".into())).unwrap(), "x");
    assert!(choose_value(b"", 3, Some("x".into())).is_err());
    assert!(choose_value(b"\xff", 3, None).is_err());
}

#[test]
fn states_read_back_from_their_records() {
    let mut contributions = TextMap::new();
    contributions.insert("b\"\n".into(), "ü".to_string());
    contributions.insert("a".into(), String::new());
    let state = MultiRoundState {
        round: u64::MAX,
        participants: vec!["a".into()],
        contributions,
        convergence_type: "all_equal".into(),
        converged: true,
    };
    let bytes = MultiRoundMode::encode_state(&state);
    let read = MultiRoundMode::decode_state(&bytes).unwrap();
    assert_eq!(read.round, u64::MAX);
    assert_eq!(read.contributions, state.contributions);
    assert!(read.converged);
    // What was added later may be missing.
    let early = br#"{"round":1,"participants":[],"contributions":{}}"#;
    let read = MultiRoundMode::decode_state(early).unwrap();
    assert_eq!(read.convergence_type, "");
    assert!(!read.converged);
    assert!(MultiRoundMode::decode_state(br#"{"round":-1,"participants":[],"contributions":{}}"#)
        .is_err());
}

#[test]
fn passthrough_resolves_with_what_was_committed() {
    let mode = PassthroughMode {
        allowed_message_types: vec![],
    };
    let s = session("ext.test.v1", "a", &["a"]);
    let end = commitment("test \"done\"", true).encode_to_vec();
    let response = mode
        .on_message(&s, &env(&s, "a", "Commitment", "m1", end))
        .unwrap();
    assert!(matches!(
        response,
        ModeResponse::Resolve(bytes)
            if bytes == br#"{"action":"test \"done\"","commitment_id":"c1"}"#
    ));
}

// ---------------------------------------------------------------------------
// Descriptions
// ---------------------------------------------------------------------------

#[test]
fn names_and_descriptions_go_together() {
    let all = all_mode_descriptors();
    let names: Vec<&str> = standard_mode_names()
        .iter()
        .chain(extension_mode_names())
        .copied()
        .collect();
    assert_eq!(all.iter().map(|d| d.mode.as_str()).collect::<Vec<_>>(), names);
    assert_eq!(standard_mode_descriptors().len(), 5);
    assert_eq!(extension_mode_descriptors().len(), 1);
    for d in all {
        assert_eq!(d.mode_version, "1.0.0");
        assert_eq!(d.terminal_message_types, vec!["Commitment"]);
        assert!(d.message_types.contains(&"Commitment".to_string()));
        assert_eq!(
            d.schema_uris.get("protobuf").unwrap(),
            "buf.build/multiagentcoordinationprotocol/macp"
        );
    }
}

// ---------------------------------------------------------------------------
// Limits and identities
// ---------------------------------------------------------------------------

#[test]
fn rates_are_limited_by_window_and_sender() {
    let config = RateLimitConfig {
        limit: 2,
        window_ns: 10,
    };
    let mut log = EventLog::new();
    assert!(log.check("a", 0, &config).is_ok());
    assert!(log.check("a", 5, &config).is_ok());
    assert_eq!(log.check("a", 10, &config), Err(MacpError::RateLimited));
    assert!(log.check("b", 10, &config).is_ok());
    // The first has left the window.
    assert!(log.check("a", 11, &config).is_ok());
    assert_eq!(log.check("a", 15, &config), Err(MacpError::RateLimited));
    assert!(log.check("a", 16, &config).is_ok());
}

#[test]
fn a_limit_of_zero_lets_nothing_through() {
    let config = RateLimitConfig {
        limit: 0,
        window_ns: 10,
    };
    let mut log = EventLog::new();
    assert_eq!(log.check("a", 0, &config), Err(MacpError::RateLimited));
}

#[test]
fn token_lists_fail_in_two_ways() {
    let parse = |json: &str| SecurityLayer::parse_identities(json).map(|m| m.len());
    assert_eq!(parse("{"), Err(ConfigError::Syntax));
    assert_eq!(parse("7"), Err(ConfigError::Shape));
    assert_eq!(parse(r#"{"token":[]}"#), Err(ConfigError::Shape));
    assert_eq!(parse(r#"[{"token":"t"}]"#), Err(ConfigError::Shape));
    assert_eq!(
        parse(r#"[{"token":"t","sender":"s","max_open_sessions":-1}]"#),
        Err(ConfigError::Shape)
    );
    assert_eq!(parse(r#"[{"token":"t","sender":"s","unknown":1}]"#), Ok(1));
    assert_eq!(
        parse(r#"[{"token":"t","sender":"s"},{"token":"t","sender":"r"}]"#),
        Ok(1)
    );
}

#[test]
fn any_token_will_do_without_identities_only() {
    let credentials = |value: &str| Credentials {
        authorization: Some(value.into()),
        macp_token: Some("fallback".into()),
    };
    let layer = SecurityLayer::dev_mode();
    let id = layer.authenticate_metadata(&credentials("Bearer me")).unwrap();
    assert_eq!(id.sender, "me");
    assert!(id.can_manage_mode_registry && id.can_start_sessions);
    let id = layer.authenticate_metadata(&credentials("Basic me")).unwrap();
    assert_eq!(id.sender, "fallback");

    let layer = SecurityLayer {
        identities: SecurityLayer::parse_identities(r#"[{"token":"t","sender":"s"}]"#).unwrap(),
        ..SecurityLayer::dev_mode()
    };
    assert_eq!(
        layer
            .authenticate_metadata(&credentials("Bearer me"))
            .unwrap_err(),
        MacpError::Unauthenticated
    );
}

#[test]
fn settings_fall_back_where_they_are_not_usable() {
    let limits = |payload: &str, rate: &str| RawLimits {
        max_payload_bytes: Some(payload.into()),
        page_sizes: RawPageSizeEnv {
            default_raw: Some("+7".into()),
            max_raw: None,
        },
        session_starts_per_minute: Some(rate.into()),
        messages_per_minute: None,
    };
    let layer = SecurityLayer::from_settings(limits("10", "0"), TextMap::new(), false);
    assert_eq!(layer.max_payload_bytes, 10);
    assert_eq!(layer.session_start_rate.limit, 0);
    assert_eq!(layer.message_rate.limit, 600);
    assert_eq!(layer.list_sessions_default_page_size, 7);
    assert!(!layer.has_configured_auth());
    let layer = SecurityLayer::from_settings(limits(" 10", "1e9"), TextMap::new(), true);
    assert_eq!(layer.max_payload_bytes, 1_048_576);
    assert_eq!(layer.session_start_rate.limit, 60);
    // What is asked for counts, though there is no token to look up.
    assert!(layer.identities.is_empty());
    assert!(layer.has_configured_auth());
    assert!(matches!(
        begin(0),
        ChainAction::Done(Err(MacpError::Unauthenticated))
    ));
}

#[test]
fn a_default_page_beyond_the_greatest_is_reported() {
    let raw = |default_raw: Option<&str>, max_raw: Option<&str>| RawPageSizeEnv {
        default_raw: default_raw.map(str::to_owned),
        max_raw: max_raw.map(str::to_owned),
    };
    assert_eq!(SecurityLayer::clamped_page_size(&raw(None, None)), None);
    assert_eq!(
        SecurityLayer::clamped_page_size(&raw(None, Some("50"))),
        Some((100, false))
    );
    assert_eq!(
        SecurityLayer::clamped_page_size(&raw(Some("60"), Some("50"))),
        Some((60, true))
    );
}

#[test]
fn signed_tokens_are_verified_before_others_are_looked_up() {
    assert_eq!(
        resolver_order(true, true),
        vec![ResolverKind::Jwt, ResolverKind::StaticBearer]
    );
    assert_eq!(resolver_order(false, true), vec![ResolverKind::StaticBearer]);
    assert!(resolver_order(false, false).is_empty());
}

#[test]
fn messages_are_answered_the_same_again() {
    let quorum = QuorumMode::new(Arc::new(AllowAll));
    let mut s = session("macp.mode.quorum.v1", "boss", &["a", "b"]);
    start(&quorum, &mut s);
    let request = ApprovalRequestPayload {
        request_id: "r1".into(),
        action: "act".into(),
        summary: "sum".into(),
        details: vec![7],
        required_approvals: 2,
    };
    let ask = env(&s, "boss", "ApprovalRequest", "m1", request.encode_to_vec());
    let other = QuorumMode::new(Arc::new(DenyAll));
    let answer = |mode: &dyn Mode| match mode.on_message(&s, &ask).unwrap() {
        ModeResponse::PersistState(bytes) => bytes,
        _ => panic!("Expected PersistState"),
    };
    assert_eq!(answer(&quorum), answer(&other));
    assert_eq!(
        answer(&quorum),
        br#"{"request":{"request_id":"r1","action":"act","summary":"sum","details":[7],"required_approvals":2,"requested_by":"boss"},"ballots":{}}"#
    );
}

#[test]
fn maps_keep_their_keys_in_order() {
    let mut map = TextMap::new();
    for key in ["b", "", "aa", "ü", "a", "Z", "b"] {
        map.insert(key.to_string(), key.len() as u64);
    }
    let keys: Vec<&str> = (0..map.len()).map(|i| map.key_at(i)).collect();
    assert_eq!(keys, vec!["", "Z", "a", "aa", "b", "ü"]);
    assert_eq!(map.get("aa"), Some(&2));
    assert_eq!(map.remove("aa"), Some(2));
    assert_eq!(map.remove("aa"), None);
    assert_eq!(map.remove_at(0), 0);
    assert_eq!(map.len(), 4);
    assert!(!map.contains_key(""));
}

// ---------------------------------------------------------------------------
// Text
// ---------------------------------------------------------------------------

#[test]
fn affixes_and_numbers_are_read_from_text() {
    assert!(ends_with("handoff.accepted", "accepted"));
    assert!(ends_with("ü", ""));
    assert!(!ends_with("ed", "accepted"));
    assert!(!ends_with("accepted.", "accepted"));
    assert_eq!(strip_prefix("Bearer tökén", "Bearer "), Some("tökén".to_string()));
    assert_eq!(strip_prefix("Bearer ", "Bearer "), Some(String::new()));
    assert_eq!(strip_prefix("bearer x", "Bearer "), None);
    assert_eq!(strip_prefix("Bea", "Bearer "), None);
    for text in [
        "0", "+7", "007", "18446744073709551615", "18446744073709551616", "", "+", "++1", "-1",
        " 1", "1 ", "1e3", "\u{0661}", "99999999999999999999999x",
    ] {
        assert_eq!(parse_u64(text), text.parse::<u64>().ok(), "{text}");
        assert_eq!(parse_usize(text), text.parse::<usize>().ok(), "{text}");
    }
}

#[test]
fn a_message_is_handled_at_its_time() {
    let mode = HandoffMode::new(Arc::new(AllowAll));
    let mut s = session("macp.mode.handoff.v1", "owner", &["owner", "target", "other"]);
    let first = env(&s, "owner", "HandoffOffer", "m1", offer("h1", "target"));
    let response = mode.handle_message(&s, &first, 1000).unwrap();
    s.apply_mode_response(response);
    let accept = HandoffAcceptPayload {
        handoff_id: "h1".into(),
        accepted_by: "target".into(),
        reason: String::new(),
        implicit: false,
    };
    let answer = env(&s, "target", "HandoffAccept", "m2", accept.encode_to_vec());
    let response = mode.handle_message(&s, &answer, 1001).unwrap();
    s.apply_mode_response(response);
    let second = env(&s, "owner", "HandoffOffer", "m3", offer("h2", "other"));
    assert_eq!(
        mode.handle_message(&s, &second, 1002).unwrap_err(),
        MacpError::InvalidPayload
    );
}
