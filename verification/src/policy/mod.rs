//! Governance policies: what they state, and how they gate a commitment.

pub mod rules;
pub mod shorthands;
pub mod stated;

use crate::decision::DecisionState;
use crate::json::{
    bool_or_false, distinct_keys, field, find_member, integer_json, integer_within, is_record,
    json_of, json_parse, json_text, member, member_at, open, print, read_text, read_u32, readable,
    text_of, text_or, texts_or_none, write_text, write_u64, Json, JsonView, Members, NumberView,
    Record, MAX_DEPTH,
};
use vstd::prelude::*;

verus! {

/// A policy: the rules that bind the sessions of a mode.
#[derive(Clone, Debug)]
pub struct PolicyDefinition {
    pub policy_id: String,
    pub mode: String,
    pub description: String,
    pub rules: serde_json::Value,
    pub schema_version: u32,
}

/// Who may end a session with a commitment. They stand in the rules of every mode.
#[derive(Clone, Debug)]
pub struct CommitmentRules {
    pub authority: String,
    pub designated_roles: Vec<String>,
    pub require_vote_quorum: bool,
    /// Whether the initiator may decline what the vote has approved.
    pub allow_decline_over_approval: bool,
}

/// What [`CommitmentRules`] hold.
pub struct CommitmentRulesView {
    pub authority: Seq<char>,
    pub designated_roles: Seq<Seq<char>>,
    pub require_vote_quorum: bool,
    pub allow_decline_over_approval: bool,
}

impl DeepView for CommitmentRules {
    type V = CommitmentRulesView;

    open spec fn deep_view(&self) -> CommitmentRulesView {
        CommitmentRulesView {
            authority: self.authority@,
            designated_roles: self.designated_roles.deep_view(),
            require_vote_quorum: self.require_vote_quorum,
            allow_decline_over_approval: self.allow_decline_over_approval,
        }
    }
}

impl CommitmentRules {
    /// What stands where the rules are not given.
    pub open spec fn default_view() -> CommitmentRulesView {
        CommitmentRulesView {
            authority: "initiator_only"@,
            designated_roles: seq![],
            require_vote_quorum: false,
            allow_decline_over_approval: false,
        }
    }

    /// The rules that the document states, and `None` where it states none.
    pub open spec fn from_view(v: JsonView) -> Option<CommitmentRulesView> {
        let authority = text_or(v, 0, "authority"@, "initiator_only"@);
        let designated_roles = texts_or_none(v, 1, "designated_roles"@);
        let require_vote_quorum = bool_or_false(v, 2, "require_vote_quorum"@);
        let allow_decline_over_approval = bool_or_false(v, 3, "allow_decline_over_approval"@);
        if is_record(v, 4) && authority is Some && designated_roles is Some
            && require_vote_quorum is Some && allow_decline_over_approval is Some {
            Some(
                CommitmentRulesView {
                    authority: authority->0,
                    designated_roles: designated_roles->0,
                    require_vote_quorum: require_vote_quorum->0,
                    allow_decline_over_approval: allow_decline_over_approval->0,
                },
            )
        } else {
            None
        }
    }

    /// Reads the rules from a document.
    pub fn from_json(value: &serde_json::Value) -> (r: Option<CommitmentRules>)
        ensures
            r is Some <==> Self::from_view(json_of(*value)) is Some,
            r is Some ==> r->0.deep_view() == Self::from_view(json_of(*value))->0,
    {
        let record: Record = match Record::read(value, 4) {
            Some(record) => record,
            None => return None,
        };
        let authority: String = match record.text_or(0, "authority", "initiator_only") {
            Some(x) => x,
            None => return None,
        };
        let designated_roles: Vec<String> = match record.texts_or_none(1, "designated_roles") {
            Some(x) => x,
            None => return None,
        };
        let require_vote_quorum: bool = match record.bool_or_false(2, "require_vote_quorum") {
            Some(x) => x,
            None => return None,
        };
        let allow_decline_over_approval: bool = match record.bool_or_false(3, "allow_decline_over_approval") {
            Some(x) => x,
            None => return None,
        };
        Some(CommitmentRules { authority, designated_roles, require_vote_quorum, allow_decline_over_approval })
    }
}

impl Default for CommitmentRules {
    fn default() -> (r: Self)
        ensures
            r.deep_view() == CommitmentRules::default_view(),
    {
        let r = CommitmentRules {
            authority: "initiator_only".to_owned(),
            designated_roles: Vec::new(),
            require_vote_quorum: false,
            allow_decline_over_approval: false,
        };
        assert(r.designated_roles.deep_view() =~= seq![]);
        r
    }
}

/// What a [`PolicyDefinition`] holds.
pub struct PolicyDefinitionView {
    pub policy_id: Seq<char>,
    pub mode: Seq<char>,
    pub description: Seq<char>,
    pub rules: JsonView,
    pub schema_version: u32,
}

impl DeepView for PolicyDefinition {
    type V = PolicyDefinitionView;

    open spec fn deep_view(&self) -> PolicyDefinitionView {
        PolicyDefinitionView {
            policy_id: self.policy_id@,
            mode: self.mode@,
            description: self.description@,
            rules: json_of(self.rules),
            schema_version: self.schema_version,
        }
    }
}

impl PolicyDefinition {
    /// The members of the document that states the policy.
    pub open spec fn members(v: PolicyDefinitionView) -> Seq<(Seq<char>, JsonView)> {
        seq![
            ("policy_id"@, JsonView::Text(v.policy_id)),
            ("mode"@, JsonView::Text(v.mode)),
            ("description"@, JsonView::Text(v.description)),
            ("rules"@, v.rules),
            ("schema_version"@, integer_json(v.schema_version as int)),
        ]
    }

    /// The policy that the document states, and `None` where it states none.
    pub open spec fn from_view(v: JsonView) -> Option<PolicyDefinitionView> {
        let policy_id = field(v, 0, "policy_id"@);
        let mode = field(v, 1, "mode"@);
        let description = field(v, 2, "description"@);
        let rules = field(v, 3, "rules"@);
        let schema_version = field(v, 4, "schema_version"@);
        if is_record(v, 5) && policy_id is Some && text_of(policy_id->0) is Some && mode is Some
            && text_of(mode->0) is Some && description is Some && text_of(description->0) is Some
            && rules is Some && schema_version is Some && integer_within(
            schema_version->0,
            0,
            u32::MAX as int,
        ) is Some {
            Some(
                PolicyDefinitionView {
                    policy_id: text_of(policy_id->0)->0,
                    mode: text_of(mode->0)->0,
                    description: text_of(description->0)->0,
                    rules: rules->0,
                    schema_version: integer_within(schema_version->0, 0, u32::MAX as int)->0 as u32,
                },
            )
        } else {
            None
        }
    }

    proof fn members_distinct(v: PolicyDefinitionView)
        ensures
            distinct_keys(Self::members(v)),
    {
        reveal_strlit("policy_id");
        reveal_strlit("mode");
        reveal_strlit("description");
        reveal_strlit("rules");
        reveal_strlit("schema_version");
        assert("policy_id"@.len() == 9);
        assert("mode"@.len() == 4);
        assert("description"@.len() == 11);
        assert("rules"@.len() == 5);
        assert("schema_version"@.len() == 14);
    }

    /// A policy reads back from its document.
    pub proof fn reads_back(v: PolicyDefinitionView)
        ensures
            Self::from_view(JsonView::Object(Self::members(v))) == Some(v),
    {
        Self::members_distinct(v);
        let m = Self::members(v);
        member_at(m, 0);
        member_at(m, 1);
        member_at(m, 2);
        member_at(m, 3);
        member_at(m, 4);
    }

    /// Writes the policy as a JSON text. It reads back, unless its rules hold
    /// doubles or nest too deep.
    pub fn encode(&self) -> (r: Vec<u8>)
        ensures
            r@ == json_text(JsonView::Object(Self::members(self.deep_view()))),
            readable(json_of(self.rules), (MAX_DEPTH - 1) as nat) ==> json_parse(r@) == Some(
                JsonView::Object(Self::members(self.deep_view())),
            ),
    {
        let members: Members = Members::new()
            .with("policy_id", write_text(self.policy_id.as_str()))
            .with("mode", write_text(self.mode.as_str()))
            .with("description", write_text(self.description.as_str()))
            .with("rules", self.rules.clone())
            .with("schema_version", write_u64(self.schema_version as u64));
        assert(members@ =~= Self::members(self.deep_view()));
        proof {
            Self::members_distinct(self.deep_view());
            reveal_with_fuel(readable, 2);
        }
        print(&members.finish())
    }

    /// Reads the policy that a document states.
    pub fn from_json(value: &serde_json::Value) -> (r: Option<PolicyDefinition>)
        ensures
            r is Some <==> Self::from_view(json_of(*value)) is Some,
            r is Some ==> r->0.deep_view() == Self::from_view(json_of(*value))->0,
    {
        let record: Record = match Record::read(value, 5) {
            Some(record) => record,
            None => return None,
        };
        match (
            record.field(0, "policy_id"),
            record.field(1, "mode"),
            record.field(2, "description"),
            record.field(3, "rules"),
            record.field(4, "schema_version"),
        ) {
            (Some(policy_id), Some(mode), Some(description), Some(rules), Some(schema_version)) => {
                match (
                    read_text(policy_id),
                    read_text(mode),
                    read_text(description),
                    read_u32(schema_version),
                ) {
                    (Some(policy_id), Some(mode), Some(description), Some(schema_version)) => Some(
                        PolicyDefinition {
                            policy_id,
                            mode,
                            description,
                            rules: rules.clone(),
                            schema_version,
                        },
                    ),
                    _ => None,
                }
            },
            _ => None,
        }
    }
}

/// The commitment rules within the rules of a mode: those of the member
/// `commitment`, and the default where there are none or they cannot be read.
pub open spec fn commitment_rules_in(rules: JsonView) -> CommitmentRulesView {
    match rules {
        JsonView::Object(members) => match member(members, "commitment"@) {
            Some(part) => match CommitmentRules::from_view(part) {
                Some(found) => found,
                None => CommitmentRules::default_view(),
            },
            None => CommitmentRules::default_view(),
        },
        _ => CommitmentRules::default_view(),
    }
}

/// Reads the commitment rules within the rules of a mode.
pub fn extract_commitment_rules(rules: &serde_json::Value) -> (r: CommitmentRules)
    ensures
        r.deep_view() == commitment_rules_in(json_of(*rules)),
{
    match open(rules.clone()) {
        Json::Object(members) => {
            match find_member(&members, "commitment") {
                Some(part) => {
                    match CommitmentRules::from_json(part) {
                        Some(found) => found,
                        None => CommitmentRules::default(),
                    }
                },
                None => CommitmentRules::default(),
            }
        },
        _ => CommitmentRules::default(),
    }
}

/// What a policy says of a commitment. Only `Allow` lets it through.
#[non_exhaustive]
#[derive(Clone, Debug, PartialEq)]
pub enum PolicyDecision {
    Allow { reasons: Vec<String> },
    Deny { reasons: Vec<String> },
}

/// Why a policy cannot be used.
#[non_exhaustive]
#[derive(Clone, Debug, PartialEq)]
pub enum PolicyError {
    UnknownPolicy(String),
    InvalidDefinition(String),
    PolicyDenied(String),
}

impl PolicyError {
    /// The error in words.
    pub open spec fn message(self) -> Seq<char> {
        match self {
            PolicyError::UnknownPolicy(id) => "unknown policy: "@ + id@,
            PolicyError::InvalidDefinition(msg) => "invalid policy definition: "@ + msg@,
            PolicyError::PolicyDenied(reason) => "policy denied: "@ + reason@,
        }
    }

    /// The error in words.
    pub fn to_string(&self) -> (r: String)
        ensures
            r@ == self.message(),
    {
        let (head, tail): (&str, &String) = match self {
            PolicyError::UnknownPolicy(id) => ("unknown policy: ", id),
            PolicyError::InvalidDefinition(msg) => ("invalid policy definition: ", msg),
            PolicyError::PolicyDenied(reason) => ("policy denied: ", reason),
        };
        let mut r: String = head.to_owned();
        r.append(tail.as_str());
        r
    }
}

// ---------------------------------------------------------------------------
// Evaluation
// ---------------------------------------------------------------------------

/// What an evaluator may look at when it gates a commitment.
pub struct CommitmentContext<'a> {
    pub policy: &'a PolicyDefinition,
    pub participants: &'a [String],
    pub outcome_positive: bool,
    pub mode: CommitmentMode<'a>,
}

/// What has come together in the session, by mode.
#[non_exhaustive]
pub enum CommitmentMode<'a> {
    Decision { state: &'a DecisionState },
    Proposal { counter_proposal_count: usize },
    Task { has_output: bool },
    Handoff,
    Quorum { approve_count: usize, reject_count: usize, abstain_count: usize },
}

/// Gates commitments by policy. Users of the library supply it; the other
/// methods put the question to `evaluate_commitment`.
pub trait PolicyEvaluator: Send + Sync {
    /// Whether the policy lets the commitment through. Anything but `Allow` is a
    /// denial.
    fn evaluate_commitment(&self, ctx: &CommitmentContext<'_>) -> PolicyDecision;

    /// Evaluates a positive commitment in the decision mode.
    fn evaluate_decision_commitment(
        &self,
        policy: &PolicyDefinition,
        state: &DecisionState,
        participants: &[String],
    ) -> (r: PolicyDecision)
        default_ensures
            exists|ctx: CommitmentContext<'_>| #[trigger]
                call_ensures(Self::evaluate_commitment, (self, &ctx), r) && *ctx.policy == *policy
                    && ctx.participants@ == participants@ && ctx.outcome_positive && ctx.mode
                    == (CommitmentMode::Decision { state }),
    {
        let ctx = CommitmentContext {
            policy,
            participants,
            outcome_positive: true,
            mode: CommitmentMode::Decision { state },
        };
        self.evaluate_commitment(&ctx)
    }

    /// Evaluates a commitment in the decision mode.
    fn evaluate_decision_commitment_outcome(
        &self,
        policy: &PolicyDefinition,
        state: &DecisionState,
        participants: &[String],
        outcome_positive: bool,
    ) -> (r: PolicyDecision)
        default_ensures
            exists|ctx: CommitmentContext<'_>| #[trigger]
                call_ensures(Self::evaluate_commitment, (self, &ctx), r) && *ctx.policy == *policy
                    && ctx.participants@ == participants@ && ctx.outcome_positive
                    == outcome_positive && ctx.mode == (CommitmentMode::Decision { state }),
    {
        let ctx = CommitmentContext {
            policy,
            participants,
            outcome_positive,
            mode: CommitmentMode::Decision { state },
        };
        self.evaluate_commitment(&ctx)
    }

    /// Evaluates a positive commitment in the proposal mode.
    fn evaluate_proposal_commitment(
        &self,
        policy: &PolicyDefinition,
        counter_proposal_count: usize,
    ) -> (r: PolicyDecision)
        default_ensures
            exists|ctx: CommitmentContext<'_>| #[trigger]
                call_ensures(Self::evaluate_commitment, (self, &ctx), r) && *ctx.policy == *policy
                    && ctx.participants@.len() == 0 && ctx.outcome_positive && ctx.mode == (
                CommitmentMode::Proposal { counter_proposal_count }),
    {
        let ctx = CommitmentContext {
            policy,
            participants: &[],
            outcome_positive: true,
            mode: CommitmentMode::Proposal { counter_proposal_count },
        };
        self.evaluate_commitment(&ctx)
    }

    /// Evaluates a positive commitment in the task mode.
    fn evaluate_task_commitment(&self, policy: &PolicyDefinition, has_output: bool) -> (r:
        PolicyDecision)
        default_ensures
            exists|ctx: CommitmentContext<'_>| #[trigger]
                call_ensures(Self::evaluate_commitment, (self, &ctx), r) && *ctx.policy == *policy
                    && ctx.participants@.len() == 0 && ctx.outcome_positive && ctx.mode == (
                CommitmentMode::Task { has_output }),
    {
        let ctx = CommitmentContext {
            policy,
            participants: &[],
            outcome_positive: true,
            mode: CommitmentMode::Task { has_output },
        };
        self.evaluate_commitment(&ctx)
    }

    /// Evaluates a positive commitment in the handoff mode.
    fn evaluate_handoff_commitment(&self, policy: &PolicyDefinition) -> (r: PolicyDecision)
        default_ensures
            exists|ctx: CommitmentContext<'_>| #[trigger]
                call_ensures(Self::evaluate_commitment, (self, &ctx), r) && *ctx.policy == *policy
                    && ctx.participants@.len() == 0 && ctx.outcome_positive && ctx.mode == (
                CommitmentMode::Handoff),
    {
        let ctx = CommitmentContext {
            policy,
            participants: &[],
            outcome_positive: true,
            mode: CommitmentMode::Handoff,
        };
        self.evaluate_commitment(&ctx)
    }

    /// Evaluates a positive commitment in the quorum mode. The number of
    /// participants is not handed on.
    fn evaluate_quorum_commitment(
        &self,
        policy: &PolicyDefinition,
        approve_count: usize,
        reject_count: usize,
        abstain_count: usize,
        total_participants: usize,
    ) -> (r: PolicyDecision)
        default_ensures
            exists|ctx: CommitmentContext<'_>| #[trigger]
                call_ensures(Self::evaluate_commitment, (self, &ctx), r) && *ctx.policy == *policy
                    && ctx.participants@.len() == 0 && ctx.outcome_positive && ctx.mode == (
                CommitmentMode::Quorum { approve_count, reject_count, abstain_count }),
    {
        let _ = total_participants;
        let ctx = CommitmentContext {
            policy,
            participants: &[],
            outcome_positive: true,
            mode: CommitmentMode::Quorum { approve_count, reject_count, abstain_count },
        };
        self.evaluate_commitment(&ctx)
    }
}

/// A policy can be read exactly where each of its five fields is there in the right
/// shape, and then holds what they state; its rules may be anything.
pub proof fn policies_as_stated(v: JsonView)
    ensures
        PolicyDefinition::from_view(v) is Some <==> {
            &&& v is Object || (v is Array && v->Array_0.len() <= 5)
            &&& field(v, 0, "policy_id"@) matches Some(j) && j is Text
            &&& field(v, 1, "mode"@) matches Some(j) && j is Text
            &&& field(v, 2, "description"@) matches Some(j) && j is Text
            &&& field(v, 3, "rules"@) is Some
            &&& field(v, 4, "schema_version"@) matches Some(JsonView::Number(
                NumberView::Integer(i),
            )) && 0 <= i <= u32::MAX
        },
        PolicyDefinition::from_view(v) matches Some(p) ==> {
            &&& field(v, 0, "policy_id"@) == Some(JsonView::Text(p.policy_id))
            &&& field(v, 1, "mode"@) == Some(JsonView::Text(p.mode))
            &&& field(v, 2, "description"@) == Some(JsonView::Text(p.description))
            &&& field(v, 3, "rules"@) == Some(p.rules)
            &&& field(v, 4, "schema_version"@) == Some(
                JsonView::Number(NumberView::Integer(p.schema_version as int)),
            )
        },
{
}

/// The rules for commitments are those under `commitment` where these can be read,
/// and otherwise the initiator alone may commit and nothing else is asked for.
pub proof fn commitment_rules_are_stated_or_default(rules: JsonView)
    ensures
        ({
            let stated = match rules {
                JsonView::Object(members) => match member(members, "commitment"@) {
                    Some(part) => CommitmentRules::from_view(part),
                    None => None,
                },
                _ => None,
            };
            &&& stated is Some ==> stated == Some(commitment_rules_in(rules))
            &&& stated is None ==> {
                &&& commitment_rules_in(rules).authority == "initiator_only"@
                &&& commitment_rules_in(rules).designated_roles.len() == 0
                &&& !commitment_rules_in(rules).require_vote_quorum
                &&& !commitment_rules_in(rules).allow_decline_over_approval
            }
        }),
{
}

} // verus!
