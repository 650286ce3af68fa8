use macp::double::Double;
use macp::policy::rules::{
    CriticalObjectionAction, DecisionPolicyRules, EffectiveThreshold, HandoffPolicyRules,
    ProposalPolicyRules, QuorumPolicyRules, QuorumThreshold, TaskPolicyRules,
};

fn json(text: &str) -> serde_json::Value {
    serde_json::from_str(text).expect("valid JSON")
}

fn number(value: Double) -> f64 {
    f64::from_bits(value.to_bits())
}

#[test]
fn decision_policy_rules_defaults() {
    let rules = DecisionPolicyRules::default();
    assert_eq!(rules.voting.algorithm, "none");
    assert!((number(rules.voting.threshold) - 0.5).abs() < f64::EPSILON);
    assert_eq!(rules.voting.quorum.quorum_type, "count");
    assert!(!rules.objection_handling.critical_severity_vetoes);
    assert_eq!(rules.objection_handling.veto_threshold, 1);
    assert_eq!(
        rules.objection_handling.critical_objection_action,
        CriticalObjectionAction::Deny
    );
    assert!(!rules.commitment.allow_decline_over_approval);
    assert!(!rules.evaluation.required_before_voting);
    assert!((number(rules.evaluation.minimum_confidence)).abs() < f64::EPSILON);
    assert_eq!(rules.commitment.authority, "initiator_only");
    assert!(rules.commitment.designated_roles.is_empty());
    assert!(!rules.commitment.require_vote_quorum);
}

#[test]
fn decision_policy_rules_deserialization() {
    let document = json(r#"{
        "voting": {
            "algorithm": "majority",
            "threshold": 0.6,
            "quorum": { "type": "percentage", "value": 75.0 },
            "weights": { "agent://fraud": 2.0, "agent://growth": 1.0 }
        },
        "objection_handling": {
            "critical_severity_vetoes": true,
            "veto_threshold": 2
        },
        "evaluation": {
            "required_before_voting": true,
            "minimum_confidence": 0.8
        },
        "commitment": {
            "authority": "designated_role",
            "designated_roles": ["agent://lead"],
            "require_vote_quorum": true
        }
    }"#);

    let rules = DecisionPolicyRules::from_json(&document).unwrap();
    assert_eq!(rules.voting.algorithm, "majority");
    assert!((number(rules.voting.threshold) - 0.6).abs() < f64::EPSILON);
    assert_eq!(rules.voting.quorum.quorum_type, "percentage");
    assert!((number(rules.voting.quorum.value) - 75.0).abs() < f64::EPSILON);
    assert_eq!(number(*rules.voting.weights.get("agent://fraud").unwrap()),
        2.0);
    assert!(rules.objection_handling.critical_severity_vetoes);
    assert_eq!(rules.objection_handling.veto_threshold, 2);
    assert!(rules.evaluation.required_before_voting);
    assert!((number(rules.evaluation.minimum_confidence) - 0.8).abs() < f64::EPSILON);
    assert_eq!(rules.commitment.authority, "designated_role");
    assert_eq!(rules.commitment.designated_roles, vec!["agent://lead"]);
    assert!(rules.commitment.require_vote_quorum);
}

#[test]
fn partial_deserialization_fills_defaults() {
    let document = json(r#"{
        "voting": { "algorithm": "unanimous" }
    }"#);
    let rules = DecisionPolicyRules::from_json(&document).unwrap();
    assert_eq!(rules.voting.algorithm, "unanimous");
    assert!((number(rules.voting.threshold) - 0.5).abs() < f64::EPSILON);
    assert!(!rules.objection_handling.critical_severity_vetoes);
    assert_eq!(rules.objection_handling.veto_threshold, 1);
}

#[test]
fn proposal_policy_rules_defaults() {
    let rules = ProposalPolicyRules::default();
    assert_eq!(rules.acceptance.criterion, "all_parties");
    assert_eq!(rules.counter_proposal.max_rounds, 0);
    assert!(!rules.rejection.terminal_on_any_reject);
    assert_eq!(rules.commitment.authority, "initiator_only");
}

#[test]
fn proposal_policy_rules_deserialization() {
    let document = json(r#"{
        "acceptance": { "criterion": "counterparty" },
        "counter_proposal": { "max_rounds": 3 },
        "rejection": { "terminal_on_any_reject": true },
        "commitment": { "authority": "any_participant" }
    }"#);
    let rules = ProposalPolicyRules::from_json(&document).unwrap();
    assert_eq!(rules.acceptance.criterion, "counterparty");
    assert_eq!(rules.counter_proposal.max_rounds, 3);
    assert!(rules.rejection.terminal_on_any_reject);
    assert_eq!(rules.commitment.authority, "any_participant");
}

#[test]
fn task_policy_rules_defaults() {
    let rules = TaskPolicyRules::default();
    assert!(!rules.assignment.allow_reassignment_on_reject);
    assert!(!rules.completion.require_output);
    assert_eq!(rules.commitment.authority, "initiator_only");
}

#[test]
fn task_policy_rules_deserialization() {
    let document = json(r#"{
        "assignment": { "allow_reassignment_on_reject": true },
        "completion": { "require_output": true },
        "commitment": { "authority": "initiator_only" }
    }"#);
    let rules = TaskPolicyRules::from_json(&document).unwrap();
    assert!(rules.assignment.allow_reassignment_on_reject);
    assert!(rules.completion.require_output);
}

#[test]
fn handoff_policy_rules_defaults() {
    let rules = HandoffPolicyRules::default();
    assert_eq!(rules.acceptance.implicit_accept_timeout_ms, 0);
    assert_eq!(rules.commitment.authority, "initiator_only");
}

#[test]
fn handoff_policy_rules_deserialization() {
    let document = json(r#"{
        "acceptance": { "implicit_accept_timeout_ms": 5000 },
        "commitment": { "authority": "any_participant" }
    }"#);
    let rules = HandoffPolicyRules::from_json(&document).unwrap();
    assert_eq!(rules.acceptance.implicit_accept_timeout_ms, 5000);
    assert_eq!(rules.commitment.authority, "any_participant");
}

#[test]
fn quorum_policy_rules_defaults() {
    let rules = QuorumPolicyRules::default();
    assert_eq!(rules.threshold.threshold_type, "n_of_m");
    assert!((number(rules.threshold.value)).abs() < f64::EPSILON);
    assert!(!rules.abstention.counts_toward_quorum);
    assert_eq!(rules.abstention.interpretation, "neutral");
    assert_eq!(rules.commitment.authority, "initiator_only");
}

#[test]
fn effective_threshold_ceils_and_floors_at_one() {
    let t = |kind: &str, value: f64| QuorumThreshold {
        threshold_type: kind.into(),
        value: Double::from_bits(value.to_bits()),
    };
    assert_eq!(
        t("n_of_m", 0.5).effective(3),
        EffectiveThreshold::Approvals(1)
    );
    assert_eq!(
        t("count", 2.4).effective(3),
        EffectiveThreshold::Approvals(3)
    );
    assert_eq!(
        t("percentage", 50.0).effective(3),
        EffectiveThreshold::Approvals(2)
    );
    assert_eq!(
        t("percentage", 0.5).effective(3),
        EffectiveThreshold::Approvals(1)
    );
    assert_eq!(t("n_of_m", 0.0).effective(3), EffectiveThreshold::Inert);
    assert_eq!(t("n_of_m", -1.0).effective(3), EffectiveThreshold::Inert);
    assert_eq!(
        t("n_of_m", f64::NAN).effective(3),
        EffectiveThreshold::Inert
    );
    assert_eq!(
        t("weighted", 2.0).effective(3),
        EffectiveThreshold::Unsatisfiable
    );
    assert_eq!(
        t("two_thirds", 2.0).effective(3),
        EffectiveThreshold::Unsatisfiable
    );
    assert_eq!(
        t("percentage", 50.0).effective(0),
        EffectiveThreshold::Unsatisfiable
    );
    assert_eq!(
        t("n_of_m", 1e30).effective(3),
        EffectiveThreshold::Approvals(u32::MAX)
    );
}

#[test]
fn quorum_policy_rules_deserialization() {
    let document = json(r#"{
        "threshold": { "type": "percentage", "value": 75.0 },
        "abstention": { "counts_toward_quorum": true, "interpretation": "implicit_reject" },
        "commitment": { "authority": "initiator_only" }
    }"#);
    let rules = QuorumPolicyRules::from_json(&document).unwrap();
    assert_eq!(rules.threshold.threshold_type, "percentage");
    assert!((number(rules.threshold.value) - 75.0).abs() < f64::EPSILON);
    assert!(rules.abstention.counts_toward_quorum);
    assert_eq!(rules.abstention.interpretation, "implicit_reject");
}
