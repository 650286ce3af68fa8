use macp::policy::{extract_commitment_rules, CommitmentRules, PolicyDefinition, PolicyError};

fn json(text: &str) -> serde_json::Value {
    serde_json::from_str(text).expect("valid JSON")
}

#[test]
fn policy_error_display() {
    let e = PolicyError::UnknownPolicy("p1".into());
    assert_eq!(e.to_string(), "unknown policy: p1");

    let e = PolicyError::InvalidDefinition("bad".into());
    assert_eq!(e.to_string(), "invalid policy definition: bad");

    let e = PolicyError::PolicyDenied("nope".into());
    assert_eq!(e.to_string(), "policy denied: nope");
}

#[test]
fn policy_definition_serialization_round_trip() {
    let def = PolicyDefinition {
        policy_id: "test".into(),
        mode: "*".into(),
        description: "test policy".into(),
        rules: json(r#"{"voting": {"algorithm": "none"}}"#),
        schema_version: 1,
    };
    let bytes = def.encode();
    let document: serde_json::Value = serde_json::from_slice(&bytes).unwrap();
    let parsed = PolicyDefinition::from_json(&document).unwrap();
    assert_eq!(parsed.policy_id, "test");
    assert_eq!(parsed.schema_version, 1);
}

#[test]
fn commitment_rules_default_is_initiator_only() {
    let rules = CommitmentRules::default();
    assert_eq!(rules.authority, "initiator_only");
    assert!(rules.designated_roles.is_empty());
    assert!(!rules.require_vote_quorum);
}

#[test]
fn extract_commitment_rules_reads_nested_object() {
    let rules = json(r#"{
        "commitment": { "authority": "designated_role", "designated_roles": ["agent://lead"] }
    }"#);
    let parsed = extract_commitment_rules(&rules);
    assert_eq!(parsed.authority, "designated_role");
    assert_eq!(parsed.designated_roles, vec!["agent://lead".to_string()]);
}
