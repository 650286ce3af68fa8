use macp::pb::commitment::{CommitmentPayload, CommitmentRef};
use macp::pb::handoff::{
    HandoffAcceptPayload, HandoffContextPayload, HandoffDeclinePayload, HandoffOfferPayload,
};
use macp::pb::multi_round::ContributePayload;
use macp::pb::quorum::{AbstainPayload, ApprovalRequestPayload, ApprovePayload, RejectPayload};
use macp::pb::session_start::{Root, SessionStartPayload};
use macp::text_map::TextMap;
use prost::encoding::{bool, bytes, encode_key, int64, string, uint32, WireType};

fn text(tag: u32, value: &str, out: &mut Vec<u8>) {
    string::encode(tag, &value.to_string(), out);
}

fn chunk(tag: u32, value: &[u8], out: &mut Vec<u8>) {
    bytes::encode(tag, &value.to_vec(), out);
}

#[test]
fn offers_are_written_by_tag() {
    let payload = HandoffOfferPayload {
        handoff_id: "h1".into(),
        target_participant: "target".into(),
        scope: "grüße".into(),
        reason: String::new(),
    };
    let mut expected = Vec::new();
    text(1, "h1", &mut expected);
    text(2, "target", &mut expected);
    text(3, "grüße", &mut expected);
    assert_eq!(payload.encode_to_vec(), expected);
    assert_eq!(HandoffOfferPayload::decode(&expected), Some(payload));
}

#[test]
fn contexts_accepts_and_declines_read_back() {
    let context = HandoffContextPayload {
        handoff_id: "h1".into(),
        content_type: "text/plain".into(),
        context: vec![0, 255, 10],
    };
    let mut expected = Vec::new();
    text(1, "h1", &mut expected);
    text(2, "text/plain", &mut expected);
    chunk(3, &[0, 255, 10], &mut expected);
    assert_eq!(context.encode_to_vec(), expected);
    assert_eq!(HandoffContextPayload::decode(&expected), Some(context));

    let accept = HandoffAcceptPayload {
        handoff_id: "h1".into(),
        accepted_by: "target".into(),
        reason: "ok".into(),
        implicit: true,
    };
    let mut expected = Vec::new();
    text(1, "h1", &mut expected);
    text(2, "target", &mut expected);
    text(3, "ok", &mut expected);
    bool::encode(4, &true, &mut expected);
    assert_eq!(accept.encode_to_vec(), expected);
    assert_eq!(HandoffAcceptPayload::decode(&expected), Some(accept));

    let decline = HandoffDeclinePayload {
        handoff_id: "h1".into(),
        declined_by: "target".into(),
        reason: "busy".into(),
    };
    assert_eq!(
        HandoffDeclinePayload::decode(&decline.encode_to_vec()),
        Some(decline)
    );
}

#[test]
fn quorum_payloads_read_back() {
    let request = ApprovalRequestPayload {
        request_id: "r1".into(),
        action: "deploy".into(),
        summary: "v2".into(),
        details: vec![1, 2, 3],
        required_approvals: 300,
    };
    let mut expected = Vec::new();
    text(1, "r1", &mut expected);
    text(2, "deploy", &mut expected);
    text(3, "v2", &mut expected);
    chunk(4, &[1, 2, 3], &mut expected);
    uint32::encode(5, &300, &mut expected);
    assert_eq!(request.encode_to_vec(), expected);
    assert_eq!(ApprovalRequestPayload::decode(&expected), Some(request));

    let approve = ApprovePayload {
        request_id: "r1".into(),
        reason: "yes".into(),
    };
    assert_eq!(ApprovePayload::decode(&approve.encode_to_vec()), Some(approve));
    let reject = RejectPayload {
        request_id: "r1".into(),
        reason: "no".into(),
    };
    assert_eq!(RejectPayload::decode(&reject.encode_to_vec()), Some(reject));
    let abstain = AbstainPayload {
        request_id: "r1".into(),
        reason: String::new(),
    };
    assert_eq!(AbstainPayload::decode(&abstain.encode_to_vec()), Some(abstain));
}

#[test]
fn commitments_nest_what_they_supersede() {
    let payload = CommitmentPayload {
        commitment_id: "c1".into(),
        action: "quorum.approved".into(),
        authority_scope: "deploy".into(),
        reason: "done".into(),
        mode_version: "1.0.0".into(),
        policy_version: "p".into(),
        configuration_version: "cfg".into(),
        outcome_positive: true,
        supersedes: Some(CommitmentRef {
            session_id: "s0".into(),
            commitment_hash: "sha256:00".into(),
        }),
    };
    let read = CommitmentPayload::decode(&payload.encode_to_vec()).unwrap();
    assert_eq!(read, payload);
    let bare = CommitmentPayload {
        supersedes: None,
        ..payload.clone()
    };
    assert_eq!(CommitmentPayload::decode(&bare.encode_to_vec()), Some(bare.clone()));
    assert_ne!(bare.encode_to_vec(), payload.encode_to_vec());
}

#[test]
fn session_starts_read_back() {
    let mut extensions = TextMap::new();
    extensions.insert("b".into(), vec![2]);
    extensions.insert("a".into(), vec![1, 1]);
    let payload = SessionStartPayload {
        intent: "ship".into(),
        participants: vec!["alice".into(), "bob".into()],
        mode_version: "1.0.0".into(),
        configuration_version: "cfg".into(),
        policy_version: "p".into(),
        ttl_ms: 60_000,
        roots: vec![Root {
            uri: "file:///a".into(),
            name: "a".into(),
        }],
        context_id: "ctx".into(),
        extensions,
        max_suspend_ms: -5,
    };
    let read = SessionStartPayload::decode(&payload.encode_to_vec()).unwrap();
    assert_eq!(read.participants, payload.participants);
    assert_eq!(read.ttl_ms, 60_000);
    assert_eq!(read.max_suspend_ms, -5);
    assert_eq!(read.roots, payload.roots);
    assert_eq!(read.extensions, payload.extensions);
}

#[test]
fn unknown_fields_are_skipped() {
    let mut bytes = Vec::new();
    int64::encode(9, &77, &mut bytes);
    text(1, "v", &mut bytes);
    encode_key(20, WireType::StartGroup, &mut bytes);
    text(1, "inner", &mut bytes);
    encode_key(20, WireType::EndGroup, &mut bytes);
    encode_key(21, WireType::SixtyFourBit, &mut bytes);
    bytes.extend_from_slice(&[0; 8]);
    encode_key(22, WireType::ThirtyTwoBit, &mut bytes);
    bytes.extend_from_slice(&[0; 4]);
    let read = ContributePayload::decode(&bytes).unwrap();
    assert_eq!(read.value, "v");
    assert_eq!(read.encode_to_vec(), {
        let mut expected = Vec::new();
        text(1, "v", &mut expected);
        expected
    });
}

#[test]
fn the_last_of_repeated_fields_counts() {
    let mut bytes = Vec::new();
    text(1, "first", &mut bytes);
    text(1, "second", &mut bytes);
    assert_eq!(ContributePayload::decode(&bytes).unwrap().value, "second");
}

#[test]
fn malformed_bytes_are_refused() {
    // A length beyond the end, a text that is no UTF-8, a key that ends a group,
    // a key of tag zero, a wire type of another field, and a cut-off varint.
    for bytes in [
        &[0x0a, 5, b'x'][..],
        &[0x0a, 1, 0xff][..],
        &[0x0c][..],
        &[0x02, 0][..],
        &[0x08, 1][..],
        &[0x0a, 0x80][..],
        &[0x80; 11][..],
    ] {
        assert!(ContributePayload::decode(bytes).is_none(), "{bytes:?}");
    }
}

/// Groups within one another under a tag that no message knows.
fn nested_groups(depth: usize) -> Vec<u8> {
    let mut out = Vec::new();
    for _ in 0..depth {
        encode_key(30, WireType::StartGroup, &mut out);
    }
    for _ in 0..depth {
        encode_key(30, WireType::EndGroup, &mut out);
    }
    out
}

#[test]
fn unknown_groups_nest_one_level_less_within_a_message() {
    assert!(Root::decode(&nested_groups(100)).is_some());
    assert!(Root::decode(&nested_groups(101)).is_none());
    let opening = |tag: u32, depth: usize| {
        let mut content = Vec::new();
        text(1, "u", &mut content);
        content.extend(nested_groups(depth));
        let mut out = Vec::new();
        chunk(tag, &content, &mut out);
        SessionStartPayload::decode(&out)
    };
    assert_eq!(opening(7, 99).unwrap().roots[0].uri, "u");
    assert!(opening(7, 100).is_none());
    assert!(opening(9, 99).unwrap().extensions.contains_key("u"));
    assert!(opening(9, 100).is_none());
    let commitment = |depth: usize| {
        let mut out = Vec::new();
        chunk(9, &nested_groups(depth), &mut out);
        CommitmentPayload::decode(&out)
    };
    assert_eq!(commitment(99).unwrap().supersedes, Some(CommitmentRef::default()));
    assert!(commitment(100).is_none());
}
