//! The rules that a policy states for each mode.

use crate::arithmetic::larger;
use crate::double::{
    a_hundred_percent_is_all, ceiling, ceiling_is_least, integer_bits, parts, share,
    shares_are_near_what_is_said, whole_numbers_are_kept, Double,
};
use crate::json::{
    bool_or_false, double_of, double_or, field, integer_or, is_record, json_of, members_view, open,
    read_double, read_variant, text_or, variant_of, Json, JsonView, Record,
};
use crate::policy::{CommitmentRules, CommitmentRulesView};
use crate::text::same;
use crate::text_map::TextMap;
use vstd::arithmetic::power2::{lemma_pow2_pos, pow2};
use vstd::prelude::*;

verus! {

/// How a veto by critical objections resolves a commitment.
#[derive(Clone, Copy, Debug, PartialEq, Eq, Structural)]
pub enum CriticalObjectionAction {
    /// The veto blocks every commitment.
    Deny,
    /// The veto blocks a positive commitment and lets a negative one through.
    FinalizeDecline,
    /// The veto blocks the commitment and leaves the session open for others to
    /// look into.
    Hold,
}

impl Default for CriticalObjectionAction {
    fn default() -> (r: Self)
        ensures
            r == CriticalObjectionAction::Deny,
    {
        CriticalObjectionAction::Deny
    }
}

/// The action with the name.
pub open spec fn action_of(view: JsonView) -> Option<CriticalObjectionAction> {
    match variant_of(view) {
        Some(name) => if name == "deny"@ {
            Some(CriticalObjectionAction::Deny)
        } else if name == "finalize_decline"@ {
            Some(CriticalObjectionAction::FinalizeDecline)
        } else if name == "hold"@ {
            Some(CriticalObjectionAction::Hold)
        } else {
            None
        },
        None => None,
    }
}

/// The action of a field, or `Deny` where the record lacks it.
pub open spec fn action_or_deny(view: JsonView, i: int, name: Seq<char>) -> Option<
    CriticalObjectionAction,
> {
    match field(view, i, name) {
        Some(v) => action_of(v),
        None => Some(CriticalObjectionAction::Deny),
    }
}

fn read_action(part: Option<&serde_json::Value>) -> (r: Option<CriticalObjectionAction>)
    ensures
        r == match part {
            Some(v) => action_of(json_of(*v)),
            None => Some(CriticalObjectionAction::Deny),
        },
{
    match part {
        None => Some(CriticalObjectionAction::Deny),
        Some(v) => {
            match read_variant(v) {
                None => None,
                Some(name) => {
                    if same(name.as_str(), "deny") {
                        Some(CriticalObjectionAction::Deny)
                    } else if same(name.as_str(), "finalize_decline") {
                        Some(CriticalObjectionAction::FinalizeDecline)
                    } else if same(name.as_str(), "hold") {
                        Some(CriticalObjectionAction::Hold)
                    } else {
                        None
                    }
                },
            }
        },
    }
}

/// The weights that the members of an object state: the last one of each key.
pub open spec fn weights_of(members: Seq<(Seq<char>, JsonView)>) -> Option<Map<Seq<char>, u64>>
    decreases members.len(),
{
    if members.len() == 0 {
        Some(Map::empty())
    } else {
        match (weights_of(members.drop_last()), double_of(members.last().1)) {
            (Some(m), Some(bits)) => Some(m.insert(members.last().0, bits)),
            _ => None,
        }
    }
}

/// The weights of a field, or none where the record lacks it.
pub open spec fn weights_or_none(view: JsonView, i: int, name: Seq<char>) -> Option<
    Map<Seq<char>, u64>,
> {
    match field(view, i, name) {
        Some(JsonView::Object(members)) => weights_of(members),
        Some(_) => None,
        None => Some(Map::empty()),
    }
}

proof fn weights_prefix(members: Seq<(Seq<char>, JsonView)>, n: int)
    requires
        0 <= n <= members.len(),
        weights_of(members.take(n)) is None,
    ensures
        weights_of(members) is None,
    decreases members.len(),
{
    if n == members.len() {
        assert(members.take(n) =~= members);
    } else {
        assert(members.drop_last().take(n) =~= members.take(n));
        weights_prefix(members.drop_last(), n);
    }
}

fn read_weights(part: Option<&serde_json::Value>) -> (r: Option<TextMap<Double>>)
    ensures
        r is Some <==> match part {
            Some(v) => json_of(*v) is Object && weights_of(json_of(*v)->Object_0) is Some,
            None => true,
        },
        r is Some ==> r->0@ == match part {
            Some(v) => weights_of(json_of(*v)->Object_0)->0,
            None => Map::empty(),
        },
{
    let value: &serde_json::Value = match part {
        None => return Some(TextMap::new()),
        Some(v) => v,
    };
    match open(value.clone()) {
        Json::Object(members) => {
            let ghost all = members_view(members@);
            let mut weights: TextMap<Double> = TextMap::new();
            let mut i: usize = 0;
            assert(all.take(0) =~= seq![]);
            while i < members.len()
                invariant
                    i <= members@.len(),
                    json_of(*value) == JsonView::Object(all),
                    part == Some(value),
                    all == members_view(members@),
                    weights_of(all.take(i as int)) is Some,
                    weights@ == weights_of(all.take(i as int))->0,
                decreases members@.len() - i,
            {
                assert(all.take(i + 1).drop_last() =~= all.take(i as int));
                assert(all.take(i + 1).last() == all[i as int]);
                match read_double(&members[i].1) {
                    Some(d) => {
                        weights.insert(members[i].0.clone(), d);
                    },
                    None => {
                        proof {
                            weights_prefix(all, i + 1);
                        }
                        return None;
                    },
                }
                i = i + 1;
            }
            assert(all.take(i as int) =~= all);
            Some(weights)
        },
        _ => None,
    }
}

/// How many have to vote in the decision mode.
#[derive(Clone, Debug)]
pub struct QuorumRules {
    pub quorum_type: String,
    pub value: Double,
}

/// What [`QuorumRules`] hold.
pub struct QuorumRulesView {
    pub quorum_type: Seq<char>,
    pub value: u64,
}

impl DeepView for QuorumRules {
    type V = QuorumRulesView;

    open spec fn deep_view(&self) -> QuorumRulesView {
        QuorumRulesView {
            quorum_type: self.quorum_type@,
            value: self.value.bits,
        }
    }
}

impl QuorumRules {
    /// What stands where the rules are not given.
    pub open spec fn default_view() -> QuorumRulesView {
        QuorumRulesView {
            quorum_type: "count"@,
            value: 0,
        }
    }

    /// The rules that the document states, and `None` where it states none.
    pub open spec fn from_view(v: JsonView) -> Option<QuorumRulesView> {
        let quorum_type = text_or(v, 0, "type"@, "count"@);
        let value = double_or(v, 1, "value"@, 0);
        if is_record(v, 2) && quorum_type is Some && value is Some {
            Some(
                QuorumRulesView {
                    quorum_type: quorum_type->0,
                    value: value->0,
                },
            )
        } else {
            None
        }
    }

    /// Reads the rules from a document.
    pub fn from_json(value: &serde_json::Value) -> (r: Option<QuorumRules>)
        ensures
            r is Some <==> Self::from_view(json_of(*value)) is Some,
            r is Some ==> r->0.deep_view() == Self::from_view(json_of(*value))->0,
    {
        let record: Record = match Record::read(value, 2) {
            Some(record) => record,
            None => return None,
        };
        let quorum_type: String = match record.text_or(0, "type", "count") {
            Some(x) => x,
            None => return None,
        };
        let value: Double = match record.double_or(1, "value", Double { bits: 0 }) {
            Some(x) => x,
            None => return None,
        };
        Some(QuorumRules { quorum_type, value })
    }
}

impl Default for QuorumRules {
    fn default() -> (r: Self)
        ensures
            r.deep_view() == QuorumRules::default_view(),
    {
        let r = QuorumRules {
            quorum_type: "count".to_owned(),
            value: Double { bits: 0 },
        };
        r
    }
}

/// How votes are counted in the decision mode.
#[derive(Clone, Debug)]
pub struct VotingRules {
    pub algorithm: String,
    pub threshold: Double,
    pub quorum: QuorumRules,
    pub weights: TextMap<Double>,
}

/// What [`VotingRules`] hold.
pub struct VotingRulesView {
    pub algorithm: Seq<char>,
    pub threshold: u64,
    pub quorum: QuorumRulesView,
    pub weights: Map<Seq<char>, u64>,
}

impl DeepView for VotingRules {
    type V = VotingRulesView;

    open spec fn deep_view(&self) -> VotingRulesView {
        VotingRulesView {
            algorithm: self.algorithm@,
            threshold: self.threshold.bits,
            quorum: self.quorum.deep_view(),
            weights: self.weights@,
        }
    }
}

impl VotingRules {
    /// What stands where the rules are not given.
    pub open spec fn default_view() -> VotingRulesView {
        VotingRulesView {
            algorithm: "none"@,
            threshold: 0x3fe0_0000_0000_0000,
            quorum: QuorumRules::default_view(),
            weights: Map::empty(),
        }
    }

    /// The rules that the document states, and `None` where it states none.
    pub open spec fn from_view(v: JsonView) -> Option<VotingRulesView> {
        let algorithm = text_or(v, 0, "algorithm"@, "none"@);
        let threshold = double_or(v, 1, "threshold"@, 0x3fe0_0000_0000_0000);
        let quorum = match field(v, 2, "quorum"@) {
            Some(part) => QuorumRules::from_view(part),
            None => Some(QuorumRules::default_view()),
        };
        let weights = weights_or_none(v, 3, "weights"@);
        if is_record(v, 4) && algorithm is Some && threshold is Some && quorum is Some
            && weights is Some {
            Some(
                VotingRulesView {
                    algorithm: algorithm->0,
                    threshold: threshold->0,
                    quorum: quorum->0,
                    weights: weights->0,
                },
            )
        } else {
            None
        }
    }

    /// Reads the rules from a document.
    pub fn from_json(value: &serde_json::Value) -> (r: Option<VotingRules>)
        ensures
            r is Some <==> Self::from_view(json_of(*value)) is Some,
            r is Some ==> r->0.deep_view() == Self::from_view(json_of(*value))->0,
    {
        let record: Record = match Record::read(value, 4) {
            Some(record) => record,
            None => return None,
        };
        let algorithm: String = match record.text_or(0, "algorithm", "none") {
            Some(x) => x,
            None => return None,
        };
        let threshold: Double = match record.double_or(1, "threshold", Double { bits: 0x3fe0_0000_0000_0000 }) {
            Some(x) => x,
            None => return None,
        };
        let quorum: Option<QuorumRules> = match record.field(2, "quorum") {
            Some(part) => QuorumRules::from_json(part),
            None => Some(QuorumRules::default()),
        };
        let quorum: QuorumRules = match quorum {
            Some(x) => x,
            None => return None,
        };
        let weights: TextMap<Double> = match read_weights(record.field(3, "weights")) {
            Some(x) => x,
            None => return None,
        };
        Some(VotingRules { algorithm, threshold, quorum, weights })
    }
}

impl Default for VotingRules {
    fn default() -> (r: Self)
        ensures
            r.deep_view() == VotingRules::default_view(),
    {
        let r = VotingRules {
            algorithm: "none".to_owned(),
            threshold: Double { bits: 0x3fe0_0000_0000_0000 },
            quorum: QuorumRules::default(),
            weights: TextMap::new(),
        };
        r
    }
}

/// What objections do in the decision mode.
#[derive(Clone, Debug)]
pub struct ObjectionHandlingRules {
    /// Whether objections of critical severity veto.
    pub critical_severity_vetoes: bool,
    pub veto_threshold: u32,
    /// What a veto does to a commitment.
    pub critical_objection_action: CriticalObjectionAction,
}

/// What [`ObjectionHandlingRules`] hold.
pub struct ObjectionHandlingRulesView {
    pub critical_severity_vetoes: bool,
    pub veto_threshold: u32,
    pub critical_objection_action: CriticalObjectionAction,
}

impl DeepView for ObjectionHandlingRules {
    type V = ObjectionHandlingRulesView;

    open spec fn deep_view(&self) -> ObjectionHandlingRulesView {
        ObjectionHandlingRulesView {
            critical_severity_vetoes: self.critical_severity_vetoes,
            veto_threshold: self.veto_threshold,
            critical_objection_action: self.critical_objection_action,
        }
    }
}

impl ObjectionHandlingRules {
    /// What stands where the rules are not given.
    pub open spec fn default_view() -> ObjectionHandlingRulesView {
        ObjectionHandlingRulesView {
            critical_severity_vetoes: false,
            veto_threshold: 1,
            critical_objection_action: CriticalObjectionAction::Deny,
        }
    }

    /// The rules that the document states, and `None` where it states none.
    pub open spec fn from_view(v: JsonView) -> Option<ObjectionHandlingRulesView> {
        let critical_severity_vetoes = bool_or_false(v, 0, "critical_severity_vetoes"@);
        let veto_threshold = integer_or(v, 1, "veto_threshold"@, 0, u32::MAX as int, 1);
        let critical_objection_action = action_or_deny(v, 2, "critical_objection_action"@);
        if is_record(v, 3) && critical_severity_vetoes is Some && veto_threshold is Some
            && critical_objection_action is Some {
            Some(
                ObjectionHandlingRulesView {
                    critical_severity_vetoes: critical_severity_vetoes->0,
                    veto_threshold: veto_threshold->0 as u32,
                    critical_objection_action: critical_objection_action->0,
                },
            )
        } else {
            None
        }
    }

    /// Reads the rules from a document.
    pub fn from_json(value: &serde_json::Value) -> (r: Option<ObjectionHandlingRules>)
        ensures
            r is Some <==> Self::from_view(json_of(*value)) is Some,
            r is Some ==> r->0.deep_view() == Self::from_view(json_of(*value))->0,
    {
        let record: Record = match Record::read(value, 3) {
            Some(record) => record,
            None => return None,
        };
        let critical_severity_vetoes: bool = match record.bool_or_false(0, "critical_severity_vetoes") {
            Some(x) => x,
            None => return None,
        };
        let veto_threshold: u32 = match record.u32_or(1, "veto_threshold", 1) {
            Some(x) => x,
            None => return None,
        };
        let critical_objection_action: CriticalObjectionAction = match read_action(record.field(2, "critical_objection_action")) {
            Some(x) => x,
            None => return None,
        };
        Some(ObjectionHandlingRules { critical_severity_vetoes, veto_threshold, critical_objection_action })
    }
}

impl Default for ObjectionHandlingRules {
    fn default() -> (r: Self)
        ensures
            r.deep_view() == ObjectionHandlingRules::default_view(),
    {
        let r = ObjectionHandlingRules {
            critical_severity_vetoes: false,
            veto_threshold: 1,
            critical_objection_action: CriticalObjectionAction::Deny,
        };
        r
    }
}

/// What evaluations have to state in the decision mode.
#[derive(Clone, Debug)]
pub struct EvaluationRules {
    pub required_before_voting: bool,
    pub minimum_confidence: Double,
}

/// What [`EvaluationRules`] hold.
pub struct EvaluationRulesView {
    pub required_before_voting: bool,
    pub minimum_confidence: u64,
}

impl DeepView for EvaluationRules {
    type V = EvaluationRulesView;

    open spec fn deep_view(&self) -> EvaluationRulesView {
        EvaluationRulesView {
            required_before_voting: self.required_before_voting,
            minimum_confidence: self.minimum_confidence.bits,
        }
    }
}

impl EvaluationRules {
    /// What stands where the rules are not given.
    pub open spec fn default_view() -> EvaluationRulesView {
        EvaluationRulesView {
            required_before_voting: false,
            minimum_confidence: 0,
        }
    }

    /// The rules that the document states, and `None` where it states none.
    pub open spec fn from_view(v: JsonView) -> Option<EvaluationRulesView> {
        let required_before_voting = bool_or_false(v, 0, "required_before_voting"@);
        let minimum_confidence = double_or(v, 1, "minimum_confidence"@, 0);
        if is_record(v, 2) && required_before_voting is Some && minimum_confidence is Some {
            Some(
                EvaluationRulesView {
                    required_before_voting: required_before_voting->0,
                    minimum_confidence: minimum_confidence->0,
                },
            )
        } else {
            None
        }
    }

    /// Reads the rules from a document.
    pub fn from_json(value: &serde_json::Value) -> (r: Option<EvaluationRules>)
        ensures
            r is Some <==> Self::from_view(json_of(*value)) is Some,
            r is Some ==> r->0.deep_view() == Self::from_view(json_of(*value))->0,
    {
        let record: Record = match Record::read(value, 2) {
            Some(record) => record,
            None => return None,
        };
        let required_before_voting: bool = match record.bool_or_false(0, "required_before_voting") {
            Some(x) => x,
            None => return None,
        };
        let minimum_confidence: Double = match record.double_or(1, "minimum_confidence", Double { bits: 0 }) {
            Some(x) => x,
            None => return None,
        };
        Some(EvaluationRules { required_before_voting, minimum_confidence })
    }
}

impl Default for EvaluationRules {
    fn default() -> (r: Self)
        ensures
            r.deep_view() == EvaluationRules::default_view(),
    {
        let r = EvaluationRules {
            required_before_voting: false,
            minimum_confidence: Double { bits: 0 },
        };
        r
    }
}

/// The rules of the decision mode.
#[derive(Clone, Debug)]
pub struct DecisionPolicyRules {
    pub voting: VotingRules,
    pub objection_handling: ObjectionHandlingRules,
    pub evaluation: EvaluationRules,
    pub commitment: CommitmentRules,
}

/// What [`DecisionPolicyRules`] hold.
pub struct DecisionPolicyRulesView {
    pub voting: VotingRulesView,
    pub objection_handling: ObjectionHandlingRulesView,
    pub evaluation: EvaluationRulesView,
    pub commitment: CommitmentRulesView,
}

impl DeepView for DecisionPolicyRules {
    type V = DecisionPolicyRulesView;

    open spec fn deep_view(&self) -> DecisionPolicyRulesView {
        DecisionPolicyRulesView {
            voting: self.voting.deep_view(),
            objection_handling: self.objection_handling.deep_view(),
            evaluation: self.evaluation.deep_view(),
            commitment: self.commitment.deep_view(),
        }
    }
}

impl DecisionPolicyRules {
    /// What stands where the rules are not given.
    pub open spec fn default_view() -> DecisionPolicyRulesView {
        DecisionPolicyRulesView {
            voting: VotingRules::default_view(),
            objection_handling: ObjectionHandlingRules::default_view(),
            evaluation: EvaluationRules::default_view(),
            commitment: CommitmentRules::default_view(),
        }
    }

    /// The rules that the document states, and `None` where it states none.
    pub open spec fn from_view(v: JsonView) -> Option<DecisionPolicyRulesView> {
        let voting = match field(v, 0, "voting"@) {
            Some(part) => VotingRules::from_view(part),
            None => Some(VotingRules::default_view()),
        };
        let objection_handling = match field(v, 1, "objection_handling"@) {
            Some(part) => ObjectionHandlingRules::from_view(part),
            None => Some(ObjectionHandlingRules::default_view()),
        };
        let evaluation = match field(v, 2, "evaluation"@) {
            Some(part) => EvaluationRules::from_view(part),
            None => Some(EvaluationRules::default_view()),
        };
        let commitment = match field(v, 3, "commitment"@) {
            Some(part) => CommitmentRules::from_view(part),
            None => Some(CommitmentRules::default_view()),
        };
        if is_record(v, 4) && voting is Some && objection_handling is Some && evaluation is Some
            && commitment is Some {
            Some(
                DecisionPolicyRulesView {
                    voting: voting->0,
                    objection_handling: objection_handling->0,
                    evaluation: evaluation->0,
                    commitment: commitment->0,
                },
            )
        } else {
            None
        }
    }

    /// Reads the rules from a document.
    pub fn from_json(value: &serde_json::Value) -> (r: Option<DecisionPolicyRules>)
        ensures
            r is Some <==> Self::from_view(json_of(*value)) is Some,
            r is Some ==> r->0.deep_view() == Self::from_view(json_of(*value))->0,
    {
        let record: Record = match Record::read(value, 4) {
            Some(record) => record,
            None => return None,
        };
        let voting: Option<VotingRules> = match record.field(0, "voting") {
            Some(part) => VotingRules::from_json(part),
            None => Some(VotingRules::default()),
        };
        let voting: VotingRules = match voting {
            Some(x) => x,
            None => return None,
        };
        let objection_handling: Option<ObjectionHandlingRules> = match record.field(1, "objection_handling") {
            Some(part) => ObjectionHandlingRules::from_json(part),
            None => Some(ObjectionHandlingRules::default()),
        };
        let objection_handling: ObjectionHandlingRules = match objection_handling {
            Some(x) => x,
            None => return None,
        };
        let evaluation: Option<EvaluationRules> = match record.field(2, "evaluation") {
            Some(part) => EvaluationRules::from_json(part),
            None => Some(EvaluationRules::default()),
        };
        let evaluation: EvaluationRules = match evaluation {
            Some(x) => x,
            None => return None,
        };
        let commitment: Option<CommitmentRules> = match record.field(3, "commitment") {
            Some(part) => CommitmentRules::from_json(part),
            None => Some(CommitmentRules::default()),
        };
        let commitment: CommitmentRules = match commitment {
            Some(x) => x,
            None => return None,
        };
        Some(DecisionPolicyRules { voting, objection_handling, evaluation, commitment })
    }
}

impl Default for DecisionPolicyRules {
    fn default() -> (r: Self)
        ensures
            r.deep_view() == DecisionPolicyRules::default_view(),
    {
        let r = DecisionPolicyRules {
            voting: VotingRules::default(),
            objection_handling: ObjectionHandlingRules::default(),
            evaluation: EvaluationRules::default(),
            commitment: CommitmentRules::default(),
        };
        r
    }
}

/// When a proposal counts as accepted.
#[derive(Clone, Debug)]
pub struct ProposalAcceptanceRules {
    pub criterion: String,
}

/// What [`ProposalAcceptanceRules`] hold.
pub struct ProposalAcceptanceRulesView {
    pub criterion: Seq<char>,
}

impl DeepView for ProposalAcceptanceRules {
    type V = ProposalAcceptanceRulesView;

    open spec fn deep_view(&self) -> ProposalAcceptanceRulesView {
        ProposalAcceptanceRulesView {
            criterion: self.criterion@,
        }
    }
}

impl ProposalAcceptanceRules {
    /// What stands where the rules are not given.
    pub open spec fn default_view() -> ProposalAcceptanceRulesView {
        ProposalAcceptanceRulesView {
            criterion: "all_parties"@,
        }
    }

    /// The rules that the document states, and `None` where it states none.
    pub open spec fn from_view(v: JsonView) -> Option<ProposalAcceptanceRulesView> {
        let criterion = text_or(v, 0, "criterion"@, "all_parties"@);
        if is_record(v, 1) && criterion is Some {
            Some(
                ProposalAcceptanceRulesView {
                    criterion: criterion->0,
                },
            )
        } else {
            None
        }
    }

    /// Reads the rules from a document.
    pub fn from_json(value: &serde_json::Value) -> (r: Option<ProposalAcceptanceRules>)
        ensures
            r is Some <==> Self::from_view(json_of(*value)) is Some,
            r is Some ==> r->0.deep_view() == Self::from_view(json_of(*value))->0,
    {
        let record: Record = match Record::read(value, 1) {
            Some(record) => record,
            None => return None,
        };
        let criterion: String = match record.text_or(0, "criterion", "all_parties") {
            Some(x) => x,
            None => return None,
        };
        Some(ProposalAcceptanceRules { criterion })
    }
}

impl Default for ProposalAcceptanceRules {
    fn default() -> (r: Self)
        ensures
            r.deep_view() == ProposalAcceptanceRules::default_view(),
    {
        let r = ProposalAcceptanceRules {
            criterion: "all_parties".to_owned(),
        };
        r
    }
}

/// How often a proposal may be countered.
#[derive(Clone, Debug)]
pub struct CounterProposalRules {
    pub max_rounds: usize,
}

/// What [`CounterProposalRules`] hold.
pub struct CounterProposalRulesView {
    pub max_rounds: usize,
}

impl DeepView for CounterProposalRules {
    type V = CounterProposalRulesView;

    open spec fn deep_view(&self) -> CounterProposalRulesView {
        CounterProposalRulesView {
            max_rounds: self.max_rounds,
        }
    }
}

impl CounterProposalRules {
    /// What stands where the rules are not given.
    pub open spec fn default_view() -> CounterProposalRulesView {
        CounterProposalRulesView {
            max_rounds: 0,
        }
    }

    /// The rules that the document states, and `None` where it states none.
    pub open spec fn from_view(v: JsonView) -> Option<CounterProposalRulesView> {
        let max_rounds = integer_or(v, 0, "max_rounds"@, 0, usize::MAX as int, 0);
        if is_record(v, 1) && max_rounds is Some {
            Some(
                CounterProposalRulesView {
                    max_rounds: max_rounds->0 as usize,
                },
            )
        } else {
            None
        }
    }

    /// Reads the rules from a document.
    pub fn from_json(value: &serde_json::Value) -> (r: Option<CounterProposalRules>)
        ensures
            r is Some <==> Self::from_view(json_of(*value)) is Some,
            r is Some ==> r->0.deep_view() == Self::from_view(json_of(*value))->0,
    {
        let record: Record = match Record::read(value, 1) {
            Some(record) => record,
            None => return None,
        };
        let max_rounds: usize = match record.usize_or(0, "max_rounds", 0) {
            Some(x) => x,
            None => return None,
        };
        Some(CounterProposalRules { max_rounds })
    }
}

impl Default for CounterProposalRules {
    fn default() -> (r: Self)
        ensures
            r.deep_view() == CounterProposalRules::default_view(),
    {
        let r = CounterProposalRules {
            max_rounds: 0,
        };
        r
    }
}

/// What a rejection does.
#[derive(Clone, Debug)]
pub struct RejectionRules {
    pub terminal_on_any_reject: bool,
}

/// What [`RejectionRules`] hold.
pub struct RejectionRulesView {
    pub terminal_on_any_reject: bool,
}

impl DeepView for RejectionRules {
    type V = RejectionRulesView;

    open spec fn deep_view(&self) -> RejectionRulesView {
        RejectionRulesView {
            terminal_on_any_reject: self.terminal_on_any_reject,
        }
    }
}

impl RejectionRules {
    /// What stands where the rules are not given.
    pub open spec fn default_view() -> RejectionRulesView {
        RejectionRulesView {
            terminal_on_any_reject: false,
        }
    }

    /// The rules that the document states, and `None` where it states none.
    pub open spec fn from_view(v: JsonView) -> Option<RejectionRulesView> {
        let terminal_on_any_reject = bool_or_false(v, 0, "terminal_on_any_reject"@);
        if is_record(v, 1) && terminal_on_any_reject is Some {
            Some(
                RejectionRulesView {
                    terminal_on_any_reject: terminal_on_any_reject->0,
                },
            )
        } else {
            None
        }
    }

    /// Reads the rules from a document.
    pub fn from_json(value: &serde_json::Value) -> (r: Option<RejectionRules>)
        ensures
            r is Some <==> Self::from_view(json_of(*value)) is Some,
            r is Some ==> r->0.deep_view() == Self::from_view(json_of(*value))->0,
    {
        let record: Record = match Record::read(value, 1) {
            Some(record) => record,
            None => return None,
        };
        let terminal_on_any_reject: bool = match record.bool_or_false(0, "terminal_on_any_reject") {
            Some(x) => x,
            None => return None,
        };
        Some(RejectionRules { terminal_on_any_reject })
    }
}

impl Default for RejectionRules {
    fn default() -> (r: Self)
        ensures
            r.deep_view() == RejectionRules::default_view(),
    {
        let r = RejectionRules {
            terminal_on_any_reject: false,
        };
        r
    }
}

/// The rules of the proposal mode.
#[derive(Clone, Debug)]
pub struct ProposalPolicyRules {
    pub acceptance: ProposalAcceptanceRules,
    pub counter_proposal: CounterProposalRules,
    pub rejection: RejectionRules,
    pub commitment: CommitmentRules,
}

/// What [`ProposalPolicyRules`] hold.
pub struct ProposalPolicyRulesView {
    pub acceptance: ProposalAcceptanceRulesView,
    pub counter_proposal: CounterProposalRulesView,
    pub rejection: RejectionRulesView,
    pub commitment: CommitmentRulesView,
}

impl DeepView for ProposalPolicyRules {
    type V = ProposalPolicyRulesView;

    open spec fn deep_view(&self) -> ProposalPolicyRulesView {
        ProposalPolicyRulesView {
            acceptance: self.acceptance.deep_view(),
            counter_proposal: self.counter_proposal.deep_view(),
            rejection: self.rejection.deep_view(),
            commitment: self.commitment.deep_view(),
        }
    }
}

impl ProposalPolicyRules {
    /// What stands where the rules are not given.
    pub open spec fn default_view() -> ProposalPolicyRulesView {
        ProposalPolicyRulesView {
            acceptance: ProposalAcceptanceRules::default_view(),
            counter_proposal: CounterProposalRules::default_view(),
            rejection: RejectionRules::default_view(),
            commitment: CommitmentRules::default_view(),
        }
    }

    /// The rules that the document states, and `None` where it states none.
    pub open spec fn from_view(v: JsonView) -> Option<ProposalPolicyRulesView> {
        let acceptance = match field(v, 0, "acceptance"@) {
            Some(part) => ProposalAcceptanceRules::from_view(part),
            None => Some(ProposalAcceptanceRules::default_view()),
        };
        let counter_proposal = match field(v, 1, "counter_proposal"@) {
            Some(part) => CounterProposalRules::from_view(part),
            None => Some(CounterProposalRules::default_view()),
        };
        let rejection = match field(v, 2, "rejection"@) {
            Some(part) => RejectionRules::from_view(part),
            None => Some(RejectionRules::default_view()),
        };
        let commitment = match field(v, 3, "commitment"@) {
            Some(part) => CommitmentRules::from_view(part),
            None => Some(CommitmentRules::default_view()),
        };
        if is_record(v, 4) && acceptance is Some && counter_proposal is Some && rejection is Some
            && commitment is Some {
            Some(
                ProposalPolicyRulesView {
                    acceptance: acceptance->0,
                    counter_proposal: counter_proposal->0,
                    rejection: rejection->0,
                    commitment: commitment->0,
                },
            )
        } else {
            None
        }
    }

    /// Reads the rules from a document.
    pub fn from_json(value: &serde_json::Value) -> (r: Option<ProposalPolicyRules>)
        ensures
            r is Some <==> Self::from_view(json_of(*value)) is Some,
            r is Some ==> r->0.deep_view() == Self::from_view(json_of(*value))->0,
    {
        let record: Record = match Record::read(value, 4) {
            Some(record) => record,
            None => return None,
        };
        let acceptance: Option<ProposalAcceptanceRules> = match record.field(0, "acceptance") {
            Some(part) => ProposalAcceptanceRules::from_json(part),
            None => Some(ProposalAcceptanceRules::default()),
        };
        let acceptance: ProposalAcceptanceRules = match acceptance {
            Some(x) => x,
            None => return None,
        };
        let counter_proposal: Option<CounterProposalRules> = match record.field(1, "counter_proposal") {
            Some(part) => CounterProposalRules::from_json(part),
            None => Some(CounterProposalRules::default()),
        };
        let counter_proposal: CounterProposalRules = match counter_proposal {
            Some(x) => x,
            None => return None,
        };
        let rejection: Option<RejectionRules> = match record.field(2, "rejection") {
            Some(part) => RejectionRules::from_json(part),
            None => Some(RejectionRules::default()),
        };
        let rejection: RejectionRules = match rejection {
            Some(x) => x,
            None => return None,
        };
        let commitment: Option<CommitmentRules> = match record.field(3, "commitment") {
            Some(part) => CommitmentRules::from_json(part),
            None => Some(CommitmentRules::default()),
        };
        let commitment: CommitmentRules = match commitment {
            Some(x) => x,
            None => return None,
        };
        Some(ProposalPolicyRules { acceptance, counter_proposal, rejection, commitment })
    }
}

impl Default for ProposalPolicyRules {
    fn default() -> (r: Self)
        ensures
            r.deep_view() == ProposalPolicyRules::default_view(),
    {
        let r = ProposalPolicyRules {
            acceptance: ProposalAcceptanceRules::default(),
            counter_proposal: CounterProposalRules::default(),
            rejection: RejectionRules::default(),
            commitment: CommitmentRules::default(),
        };
        r
    }
}

/// Who may be given a task.
#[derive(Clone, Debug)]
pub struct TaskAssignmentRules {
    pub allow_reassignment_on_reject: bool,
}

/// What [`TaskAssignmentRules`] hold.
pub struct TaskAssignmentRulesView {
    pub allow_reassignment_on_reject: bool,
}

impl DeepView for TaskAssignmentRules {
    type V = TaskAssignmentRulesView;

    open spec fn deep_view(&self) -> TaskAssignmentRulesView {
        TaskAssignmentRulesView {
            allow_reassignment_on_reject: self.allow_reassignment_on_reject,
        }
    }
}

impl TaskAssignmentRules {
    /// What stands where the rules are not given.
    pub open spec fn default_view() -> TaskAssignmentRulesView {
        TaskAssignmentRulesView {
            allow_reassignment_on_reject: false,
        }
    }

    /// The rules that the document states, and `None` where it states none.
    pub open spec fn from_view(v: JsonView) -> Option<TaskAssignmentRulesView> {
        let allow_reassignment_on_reject = bool_or_false(v, 0, "allow_reassignment_on_reject"@);
        if is_record(v, 1) && allow_reassignment_on_reject is Some {
            Some(
                TaskAssignmentRulesView {
                    allow_reassignment_on_reject: allow_reassignment_on_reject->0,
                },
            )
        } else {
            None
        }
    }

    /// Reads the rules from a document.
    pub fn from_json(value: &serde_json::Value) -> (r: Option<TaskAssignmentRules>)
        ensures
            r is Some <==> Self::from_view(json_of(*value)) is Some,
            r is Some ==> r->0.deep_view() == Self::from_view(json_of(*value))->0,
    {
        let record: Record = match Record::read(value, 1) {
            Some(record) => record,
            None => return None,
        };
        let allow_reassignment_on_reject: bool = match record.bool_or_false(0, "allow_reassignment_on_reject") {
            Some(x) => x,
            None => return None,
        };
        Some(TaskAssignmentRules { allow_reassignment_on_reject })
    }
}

impl Default for TaskAssignmentRules {
    fn default() -> (r: Self)
        ensures
            r.deep_view() == TaskAssignmentRules::default_view(),
    {
        let r = TaskAssignmentRules {
            allow_reassignment_on_reject: false,
        };
        r
    }
}

/// What a completed task has to show.
#[derive(Clone, Debug)]
pub struct TaskCompletionRules {
    pub require_output: bool,
}

/// What [`TaskCompletionRules`] hold.
pub struct TaskCompletionRulesView {
    pub require_output: bool,
}

impl DeepView for TaskCompletionRules {
    type V = TaskCompletionRulesView;

    open spec fn deep_view(&self) -> TaskCompletionRulesView {
        TaskCompletionRulesView {
            require_output: self.require_output,
        }
    }
}

impl TaskCompletionRules {
    /// What stands where the rules are not given.
    pub open spec fn default_view() -> TaskCompletionRulesView {
        TaskCompletionRulesView {
            require_output: false,
        }
    }

    /// The rules that the document states, and `None` where it states none.
    pub open spec fn from_view(v: JsonView) -> Option<TaskCompletionRulesView> {
        let require_output = bool_or_false(v, 0, "require_output"@);
        if is_record(v, 1) && require_output is Some {
            Some(
                TaskCompletionRulesView {
                    require_output: require_output->0,
                },
            )
        } else {
            None
        }
    }

    /// Reads the rules from a document.
    pub fn from_json(value: &serde_json::Value) -> (r: Option<TaskCompletionRules>)
        ensures
            r is Some <==> Self::from_view(json_of(*value)) is Some,
            r is Some ==> r->0.deep_view() == Self::from_view(json_of(*value))->0,
    {
        let record: Record = match Record::read(value, 1) {
            Some(record) => record,
            None => return None,
        };
        let require_output: bool = match record.bool_or_false(0, "require_output") {
            Some(x) => x,
            None => return None,
        };
        Some(TaskCompletionRules { require_output })
    }
}

impl Default for TaskCompletionRules {
    fn default() -> (r: Self)
        ensures
            r.deep_view() == TaskCompletionRules::default_view(),
    {
        let r = TaskCompletionRules {
            require_output: false,
        };
        r
    }
}

/// The rules of the task mode.
#[derive(Clone, Debug)]
pub struct TaskPolicyRules {
    pub assignment: TaskAssignmentRules,
    pub completion: TaskCompletionRules,
    pub commitment: CommitmentRules,
}

/// What [`TaskPolicyRules`] hold.
pub struct TaskPolicyRulesView {
    pub assignment: TaskAssignmentRulesView,
    pub completion: TaskCompletionRulesView,
    pub commitment: CommitmentRulesView,
}

impl DeepView for TaskPolicyRules {
    type V = TaskPolicyRulesView;

    open spec fn deep_view(&self) -> TaskPolicyRulesView {
        TaskPolicyRulesView {
            assignment: self.assignment.deep_view(),
            completion: self.completion.deep_view(),
            commitment: self.commitment.deep_view(),
        }
    }
}

impl TaskPolicyRules {
    /// What stands where the rules are not given.
    pub open spec fn default_view() -> TaskPolicyRulesView {
        TaskPolicyRulesView {
            assignment: TaskAssignmentRules::default_view(),
            completion: TaskCompletionRules::default_view(),
            commitment: CommitmentRules::default_view(),
        }
    }

    /// The rules that the document states, and `None` where it states none.
    pub open spec fn from_view(v: JsonView) -> Option<TaskPolicyRulesView> {
        let assignment = match field(v, 0, "assignment"@) {
            Some(part) => TaskAssignmentRules::from_view(part),
            None => Some(TaskAssignmentRules::default_view()),
        };
        let completion = match field(v, 1, "completion"@) {
            Some(part) => TaskCompletionRules::from_view(part),
            None => Some(TaskCompletionRules::default_view()),
        };
        let commitment = match field(v, 2, "commitment"@) {
            Some(part) => CommitmentRules::from_view(part),
            None => Some(CommitmentRules::default_view()),
        };
        if is_record(v, 3) && assignment is Some && completion is Some && commitment is Some {
            Some(
                TaskPolicyRulesView {
                    assignment: assignment->0,
                    completion: completion->0,
                    commitment: commitment->0,
                },
            )
        } else {
            None
        }
    }

    /// Reads the rules from a document.
    pub fn from_json(value: &serde_json::Value) -> (r: Option<TaskPolicyRules>)
        ensures
            r is Some <==> Self::from_view(json_of(*value)) is Some,
            r is Some ==> r->0.deep_view() == Self::from_view(json_of(*value))->0,
    {
        let record: Record = match Record::read(value, 3) {
            Some(record) => record,
            None => return None,
        };
        let assignment: Option<TaskAssignmentRules> = match record.field(0, "assignment") {
            Some(part) => TaskAssignmentRules::from_json(part),
            None => Some(TaskAssignmentRules::default()),
        };
        let assignment: TaskAssignmentRules = match assignment {
            Some(x) => x,
            None => return None,
        };
        let completion: Option<TaskCompletionRules> = match record.field(1, "completion") {
            Some(part) => TaskCompletionRules::from_json(part),
            None => Some(TaskCompletionRules::default()),
        };
        let completion: TaskCompletionRules = match completion {
            Some(x) => x,
            None => return None,
        };
        let commitment: Option<CommitmentRules> = match record.field(2, "commitment") {
            Some(part) => CommitmentRules::from_json(part),
            None => Some(CommitmentRules::default()),
        };
        let commitment: CommitmentRules = match commitment {
            Some(x) => x,
            None => return None,
        };
        Some(TaskPolicyRules { assignment, completion, commitment })
    }
}

impl Default for TaskPolicyRules {
    fn default() -> (r: Self)
        ensures
            r.deep_view() == TaskPolicyRules::default_view(),
    {
        let r = TaskPolicyRules {
            assignment: TaskAssignmentRules::default(),
            completion: TaskCompletionRules::default(),
            commitment: CommitmentRules::default(),
        };
        r
    }
}

/// When an offer counts as accepted.
#[derive(Clone, Debug)]
pub struct HandoffAcceptanceRules {
    pub implicit_accept_timeout_ms: u64,
}

/// What [`HandoffAcceptanceRules`] hold.
pub struct HandoffAcceptanceRulesView {
    pub implicit_accept_timeout_ms: u64,
}

impl DeepView for HandoffAcceptanceRules {
    type V = HandoffAcceptanceRulesView;

    open spec fn deep_view(&self) -> HandoffAcceptanceRulesView {
        HandoffAcceptanceRulesView {
            implicit_accept_timeout_ms: self.implicit_accept_timeout_ms,
        }
    }
}

impl HandoffAcceptanceRules {
    /// What stands where the rules are not given.
    pub open spec fn default_view() -> HandoffAcceptanceRulesView {
        HandoffAcceptanceRulesView {
            implicit_accept_timeout_ms: 0,
        }
    }

    /// The rules that the document states, and `None` where it states none.
    pub open spec fn from_view(v: JsonView) -> Option<HandoffAcceptanceRulesView> {
        let implicit_accept_timeout_ms = integer_or(v, 0, "implicit_accept_timeout_ms"@, 0, u64::MAX as int, 0);
        if is_record(v, 1) && implicit_accept_timeout_ms is Some {
            Some(
                HandoffAcceptanceRulesView {
                    implicit_accept_timeout_ms: implicit_accept_timeout_ms->0 as u64,
                },
            )
        } else {
            None
        }
    }

    /// Reads the rules from a document.
    pub fn from_json(value: &serde_json::Value) -> (r: Option<HandoffAcceptanceRules>)
        ensures
            r is Some <==> Self::from_view(json_of(*value)) is Some,
            r is Some ==> r->0.deep_view() == Self::from_view(json_of(*value))->0,
    {
        let record: Record = match Record::read(value, 1) {
            Some(record) => record,
            None => return None,
        };
        let implicit_accept_timeout_ms: u64 = match record.u64_or(0, "implicit_accept_timeout_ms", 0) {
            Some(x) => x,
            None => return None,
        };
        Some(HandoffAcceptanceRules { implicit_accept_timeout_ms })
    }
}

impl Default for HandoffAcceptanceRules {
    fn default() -> (r: Self)
        ensures
            r.deep_view() == HandoffAcceptanceRules::default_view(),
    {
        let r = HandoffAcceptanceRules {
            implicit_accept_timeout_ms: 0,
        };
        r
    }
}

/// The rules of the handoff mode.
#[derive(Clone, Debug)]
pub struct HandoffPolicyRules {
    pub acceptance: HandoffAcceptanceRules,
    pub commitment: CommitmentRules,
}

/// What [`HandoffPolicyRules`] hold.
pub struct HandoffPolicyRulesView {
    pub acceptance: HandoffAcceptanceRulesView,
    pub commitment: CommitmentRulesView,
}

impl DeepView for HandoffPolicyRules {
    type V = HandoffPolicyRulesView;

    open spec fn deep_view(&self) -> HandoffPolicyRulesView {
        HandoffPolicyRulesView {
            acceptance: self.acceptance.deep_view(),
            commitment: self.commitment.deep_view(),
        }
    }
}

impl HandoffPolicyRules {
    /// What stands where the rules are not given.
    pub open spec fn default_view() -> HandoffPolicyRulesView {
        HandoffPolicyRulesView {
            acceptance: HandoffAcceptanceRules::default_view(),
            commitment: CommitmentRules::default_view(),
        }
    }

    /// The rules that the document states, and `None` where it states none.
    pub open spec fn from_view(v: JsonView) -> Option<HandoffPolicyRulesView> {
        let acceptance = match field(v, 0, "acceptance"@) {
            Some(part) => HandoffAcceptanceRules::from_view(part),
            None => Some(HandoffAcceptanceRules::default_view()),
        };
        let commitment = match field(v, 1, "commitment"@) {
            Some(part) => CommitmentRules::from_view(part),
            None => Some(CommitmentRules::default_view()),
        };
        if is_record(v, 2) && acceptance is Some && commitment is Some {
            Some(
                HandoffPolicyRulesView {
                    acceptance: acceptance->0,
                    commitment: commitment->0,
                },
            )
        } else {
            None
        }
    }

    /// Reads the rules from a document.
    pub fn from_json(value: &serde_json::Value) -> (r: Option<HandoffPolicyRules>)
        ensures
            r is Some <==> Self::from_view(json_of(*value)) is Some,
            r is Some ==> r->0.deep_view() == Self::from_view(json_of(*value))->0,
    {
        let record: Record = match Record::read(value, 2) {
            Some(record) => record,
            None => return None,
        };
        let acceptance: Option<HandoffAcceptanceRules> = match record.field(0, "acceptance") {
            Some(part) => HandoffAcceptanceRules::from_json(part),
            None => Some(HandoffAcceptanceRules::default()),
        };
        let acceptance: HandoffAcceptanceRules = match acceptance {
            Some(x) => x,
            None => return None,
        };
        let commitment: Option<CommitmentRules> = match record.field(1, "commitment") {
            Some(part) => CommitmentRules::from_json(part),
            None => Some(CommitmentRules::default()),
        };
        let commitment: CommitmentRules = match commitment {
            Some(x) => x,
            None => return None,
        };
        Some(HandoffPolicyRules { acceptance, commitment })
    }
}

impl Default for HandoffPolicyRules {
    fn default() -> (r: Self)
        ensures
            r.deep_view() == HandoffPolicyRules::default_view(),
    {
        let r = HandoffPolicyRules {
            acceptance: HandoffAcceptanceRules::default(),
            commitment: CommitmentRules::default(),
        };
        r
    }
}

/// The approval bar of the quorum mode.
#[derive(Clone, Debug)]
pub struct QuorumThreshold {
    pub threshold_type: String,
    pub value: Double,
}

/// What [`QuorumThreshold`] hold.
pub struct QuorumThresholdView {
    pub threshold_type: Seq<char>,
    pub value: u64,
}

impl DeepView for QuorumThreshold {
    type V = QuorumThresholdView;

    open spec fn deep_view(&self) -> QuorumThresholdView {
        QuorumThresholdView {
            threshold_type: self.threshold_type@,
            value: self.value.bits,
        }
    }
}

impl QuorumThreshold {
    /// What stands where the rules are not given.
    pub open spec fn default_view() -> QuorumThresholdView {
        QuorumThresholdView {
            threshold_type: "n_of_m"@,
            value: 0,
        }
    }

    /// The rules that the document states, and `None` where it states none.
    pub open spec fn from_view(v: JsonView) -> Option<QuorumThresholdView> {
        let threshold_type = text_or(v, 0, "type"@, "n_of_m"@);
        let value = double_or(v, 1, "value"@, 0);
        if is_record(v, 2) && threshold_type is Some && value is Some {
            Some(
                QuorumThresholdView {
                    threshold_type: threshold_type->0,
                    value: value->0,
                },
            )
        } else {
            None
        }
    }

    /// Reads the rules from a document.
    pub fn from_json(value: &serde_json::Value) -> (r: Option<QuorumThreshold>)
        ensures
            r is Some <==> Self::from_view(json_of(*value)) is Some,
            r is Some ==> r->0.deep_view() == Self::from_view(json_of(*value))->0,
    {
        let record: Record = match Record::read(value, 2) {
            Some(record) => record,
            None => return None,
        };
        let threshold_type: String = match record.text_or(0, "type", "n_of_m") {
            Some(x) => x,
            None => return None,
        };
        let value: Double = match record.double_or(1, "value", Double { bits: 0 }) {
            Some(x) => x,
            None => return None,
        };
        Some(QuorumThreshold { threshold_type, value })
    }
}

impl Default for QuorumThreshold {
    fn default() -> (r: Self)
        ensures
            r.deep_view() == QuorumThreshold::default_view(),
    {
        let r = QuorumThreshold {
            threshold_type: "n_of_m".to_owned(),
            value: Double { bits: 0 },
        };
        r
    }
}

/// How abstentions count in the quorum mode.
#[derive(Clone, Debug)]
pub struct AbstentionRules {
    pub counts_toward_quorum: bool,
    pub interpretation: String,
}

/// What [`AbstentionRules`] hold.
pub struct AbstentionRulesView {
    pub counts_toward_quorum: bool,
    pub interpretation: Seq<char>,
}

impl DeepView for AbstentionRules {
    type V = AbstentionRulesView;

    open spec fn deep_view(&self) -> AbstentionRulesView {
        AbstentionRulesView {
            counts_toward_quorum: self.counts_toward_quorum,
            interpretation: self.interpretation@,
        }
    }
}

impl AbstentionRules {
    /// What stands where the rules are not given.
    pub open spec fn default_view() -> AbstentionRulesView {
        AbstentionRulesView {
            counts_toward_quorum: false,
            interpretation: "neutral"@,
        }
    }

    /// The rules that the document states, and `None` where it states none.
    pub open spec fn from_view(v: JsonView) -> Option<AbstentionRulesView> {
        let counts_toward_quorum = bool_or_false(v, 0, "counts_toward_quorum"@);
        let interpretation = text_or(v, 1, "interpretation"@, "neutral"@);
        if is_record(v, 2) && counts_toward_quorum is Some && interpretation is Some {
            Some(
                AbstentionRulesView {
                    counts_toward_quorum: counts_toward_quorum->0,
                    interpretation: interpretation->0,
                },
            )
        } else {
            None
        }
    }

    /// Reads the rules from a document.
    pub fn from_json(value: &serde_json::Value) -> (r: Option<AbstentionRules>)
        ensures
            r is Some <==> Self::from_view(json_of(*value)) is Some,
            r is Some ==> r->0.deep_view() == Self::from_view(json_of(*value))->0,
    {
        let record: Record = match Record::read(value, 2) {
            Some(record) => record,
            None => return None,
        };
        let counts_toward_quorum: bool = match record.bool_or_false(0, "counts_toward_quorum") {
            Some(x) => x,
            None => return None,
        };
        let interpretation: String = match record.text_or(1, "interpretation", "neutral") {
            Some(x) => x,
            None => return None,
        };
        Some(AbstentionRules { counts_toward_quorum, interpretation })
    }
}

impl Default for AbstentionRules {
    fn default() -> (r: Self)
        ensures
            r.deep_view() == AbstentionRules::default_view(),
    {
        let r = AbstentionRules {
            counts_toward_quorum: false,
            interpretation: "neutral".to_owned(),
        };
        r
    }
}

/// The rules of the quorum mode.
#[derive(Clone, Debug)]
pub struct QuorumPolicyRules {
    pub threshold: QuorumThreshold,
    pub abstention: AbstentionRules,
    pub commitment: CommitmentRules,
}

/// What [`QuorumPolicyRules`] hold.
pub struct QuorumPolicyRulesView {
    pub threshold: QuorumThresholdView,
    pub abstention: AbstentionRulesView,
    pub commitment: CommitmentRulesView,
}

impl DeepView for QuorumPolicyRules {
    type V = QuorumPolicyRulesView;

    open spec fn deep_view(&self) -> QuorumPolicyRulesView {
        QuorumPolicyRulesView {
            threshold: self.threshold.deep_view(),
            abstention: self.abstention.deep_view(),
            commitment: self.commitment.deep_view(),
        }
    }
}

impl QuorumPolicyRules {
    /// What stands where the rules are not given.
    pub open spec fn default_view() -> QuorumPolicyRulesView {
        QuorumPolicyRulesView {
            threshold: QuorumThreshold::default_view(),
            abstention: AbstentionRules::default_view(),
            commitment: CommitmentRules::default_view(),
        }
    }

    /// The rules that the document states, and `None` where it states none.
    pub open spec fn from_view(v: JsonView) -> Option<QuorumPolicyRulesView> {
        let threshold = match field(v, 0, "threshold"@) {
            Some(part) => QuorumThreshold::from_view(part),
            None => Some(QuorumThreshold::default_view()),
        };
        let abstention = match field(v, 1, "abstention"@) {
            Some(part) => AbstentionRules::from_view(part),
            None => Some(AbstentionRules::default_view()),
        };
        let commitment = match field(v, 2, "commitment"@) {
            Some(part) => CommitmentRules::from_view(part),
            None => Some(CommitmentRules::default_view()),
        };
        if is_record(v, 3) && threshold is Some && abstention is Some && commitment is Some {
            Some(
                QuorumPolicyRulesView {
                    threshold: threshold->0,
                    abstention: abstention->0,
                    commitment: commitment->0,
                },
            )
        } else {
            None
        }
    }

    /// Reads the rules from a document.
    pub fn from_json(value: &serde_json::Value) -> (r: Option<QuorumPolicyRules>)
        ensures
            r is Some <==> Self::from_view(json_of(*value)) is Some,
            r is Some ==> r->0.deep_view() == Self::from_view(json_of(*value))->0,
    {
        let record: Record = match Record::read(value, 3) {
            Some(record) => record,
            None => return None,
        };
        let threshold: Option<QuorumThreshold> = match record.field(0, "threshold") {
            Some(part) => QuorumThreshold::from_json(part),
            None => Some(QuorumThreshold::default()),
        };
        let threshold: QuorumThreshold = match threshold {
            Some(x) => x,
            None => return None,
        };
        let abstention: Option<AbstentionRules> = match record.field(1, "abstention") {
            Some(part) => AbstentionRules::from_json(part),
            None => Some(AbstentionRules::default()),
        };
        let abstention: AbstentionRules = match abstention {
            Some(x) => x,
            None => return None,
        };
        let commitment: Option<CommitmentRules> = match record.field(2, "commitment") {
            Some(part) => CommitmentRules::from_json(part),
            None => Some(CommitmentRules::default()),
        };
        let commitment: CommitmentRules = match commitment {
            Some(x) => x,
            None => return None,
        };
        Some(QuorumPolicyRules { threshold, abstention, commitment })
    }
}

impl Default for QuorumPolicyRules {
    fn default() -> (r: Self)
        ensures
            r.deep_view() == QuorumPolicyRules::default_view(),
    {
        let r = QuorumPolicyRules {
            threshold: QuorumThreshold::default(),
            abstention: AbstentionRules::default(),
            commitment: CommitmentRules::default(),
        };
        r
    }
}

/// The approval bar that a threshold sets for one session.
#[derive(Clone, Copy, Debug, PartialEq, Eq, Structural)]
pub enum EffectiveThreshold {
    /// The rule sets no bar, and the caller keeps its own.
    Inert,
    /// This many approvals are needed for a positive commitment. Never zero.
    Approvals(u32),
    /// No number of approvals satisfies the rule.
    Unsatisfiable,
}

/// The number, or one in place of zero.
pub open spec fn at_least_one(n: u32) -> u32 {
    if n == 0 {
        1
    } else {
        n
    }
}

/// The bar that a threshold sets for a session with that many participants: a
/// count or a share of the participants, rounded up and never below one.
pub open spec fn effective_of(t: QuorumThresholdView, total: nat) -> EffectiveThreshold {
    let value = Double { bits: t.value };
    if !value.positive() {
        EffectiveThreshold::Inert
    } else if t.threshold_type == "percentage"@ {
        if total == 0 {
            EffectiveThreshold::Unsatisfiable
        } else {
            EffectiveThreshold::Approvals(at_least_one(value.share_u32(total)))
        }
    } else if t.threshold_type == "n_of_m"@ || t.threshold_type == "count"@ {
        EffectiveThreshold::Approvals(at_least_one(value.ceiling_u32()))
    } else {
        EffectiveThreshold::Unsatisfiable
    }
}

impl QuorumThreshold {
    /// The bar that the threshold sets for a session with that many
    /// participants.
    pub fn effective(&self, total_participants: usize) -> (r: EffectiveThreshold)
        ensures
            r == effective_of(self.deep_view(), total_participants as nat),
    {
        if !self.value.is_positive() {
            return EffectiveThreshold::Inert;
        }
        let kind: &str = self.threshold_type.as_str();
        let required: u32 = if same(kind, "percentage") {
            if total_participants == 0 {
                return EffectiveThreshold::Unsatisfiable;
            }
            self.value.round_up_share(total_participants as u64)
        } else if same(kind, "n_of_m") || same(kind, "count") {
            self.value.round_up()
        } else {
            return EffectiveThreshold::Unsatisfiable;
        };
        if required == 0 {
            EffectiveThreshold::Approvals(1)
        } else {
            EffectiveThreshold::Approvals(required)
        }
    }
}

/// A bar in approvals is never zero.
pub proof fn effective_never_zero(t: QuorumThresholdView, total: nat)
    ensures
        effective_of(t, total) is Approvals ==> effective_of(t, total)->Approvals_0 >= 1,
{
}

/// A threshold that is not greater than zero sets no bar, of whatever kind it is and
/// however many take part; one of an unknown kind can be met by no one.
pub proof fn thresholds_have_to_be_positive(t: QuorumThresholdView, total: nat)
    ensures
        effective_of(t, total) == EffectiveThreshold::Inert <==> t.value == 0 || t.value
            > 0x7ff0_0000_0000_0000,
        t.threshold_type != "percentage"@ && t.threshold_type != "n_of_m"@ && t.threshold_type
            != "count"@ && 0 < t.value <= 0x7ff0_0000_0000_0000 ==> effective_of(t, total)
            == EffectiveThreshold::Unsatisfiable,
{
}

/// A count asks for as many approvals as it says, under either of its names and
/// however many take part: a whole number for itself, and any other for the next
/// one.
pub proof fn counts_ask_for_what_they_say(t: QuorumThresholdView, total: nat, other: nat)
    requires
        t.threshold_type == "n_of_m"@ || t.threshold_type == "count"@,
        0 < t.value < 0x7ff0_0000_0000_0000,
    ensures
        effective_of(t, total) == effective_of(t, other),
        effective_of(t, total) matches EffectiveThreshold::Approvals(n) && n >= 1 && ({
            let (m, k) = parts(t.value);
            &&& k >= 0 && m * pow2(k as nat) <= u32::MAX ==> n == larger(
                (m * pow2(k as nat)) as int,
                1,
            )
            &&& k < 0 && n < u32::MAX ==> m <= n * pow2((-k) as nat)
            &&& k < 0 && n > 1 ==> (n - 1) * pow2((-k) as nat) < m
        }),
        forall|n: nat|
            0 < n <= u32::MAX && t.value == #[trigger] integer_bits(n as int) ==> effective_of(
                t,
                total,
            ) == EffectiveThreshold::Approvals(n as u32),
{
    reveal_strlit("percentage");
    reveal_strlit("n_of_m");
    reveal_strlit("count");
    assert("percentage"@.len() == 10);
    assert("n_of_m"@.len() == 6);
    assert("count"@.len() == 5);
    let (m, k) = parts(t.value);
    ceiling_is_least(m, k);
    lemma_pow2_pos((-k) as nat);
    let c = ceiling(m, k);
    if k < 0 && c > u32::MAX {
        assert((u32::MAX - 1) * pow2((-k) as nat) < m) by (nonlinear_arith)
            requires
                (c - 1) * pow2((-k) as nat) < m,
                c > u32::MAX,
                pow2((-k) as nat) > 0,
        ;
    }
    if k < 0 && c == 0 {
        assert(m <= 0 * pow2((-k) as nat));
        assert(0 * pow2((-k) as nat) == 0);
    }
    assert forall|n: nat| 0 < n <= u32::MAX && t.value == #[trigger] integer_bits(
        n as int,
    ) implies effective_of(t, total) == EffectiveThreshold::Approvals(n as u32) by {
        whole_numbers_are_kept(n);
    }
}

/// A percentage of no one can be met by no one, a hundred percent is everyone, and no
/// percentage is less than one.
pub proof fn percentages_are_of_those_who_take_part(t: QuorumThresholdView, total: nat)
    requires
        t.threshold_type == "percentage"@,
        0 < t.value <= 0x7ff0_0000_0000_0000,
    ensures
        total == 0 ==> effective_of(t, total) == EffectiveThreshold::Unsatisfiable,
        total > 0 ==> (effective_of(t, total) matches EffectiveThreshold::Approvals(n) && n >= 1),
        0 < total <= u32::MAX && t.value == integer_bits(100) ==> effective_of(t, total)
            == EffectiveThreshold::Approvals(total as u32),
{
    if 0 < total <= u32::MAX {
        a_hundred_percent_is_all(total);
    }
}

/// A percentage asks for the part of those who take part that it says, rounded up, as
/// near as doubles can tell: with the value `m` times two to the `k`, a hundred times
/// the bar is no less than value times participants, and a hundred times one less
/// than the bar is less than that, each within the last of 53 binary places.
pub proof fn percentages_ask_for_what_they_say(t: QuorumThresholdView, total: nat)
    requires
        t.threshold_type == "percentage"@,
        0 < t.value < 0x7ff0_0000_0000_0000,
        0 < total <= u32::MAX,
        parts(t.value).1 < 0,
    ensures
        effective_of(t, total) matches EffectiveThreshold::Approvals(n) && ({
            let (m, k) = parts(t.value);
            let d = pow2((-k) as nat) as int;
            &&& n < u32::MAX ==> 100 * d * n * 0x20_0000_0000_0001 >= m * total
                * 0x1f_ffff_ffff_ffff
            &&& n > 1 ==> 100 * d * (n - 1) * 0x1f_ffff_ffff_ffff < m * total
                * 0x20_0000_0000_0001
        }),
{
    let (m, k) = parts(t.value);
    let d = pow2((-k) as nat) as int;
    lemma_pow2_pos((-k) as nat);
    shares_are_near_what_is_said(t.value, total);
    let r = share(t.value, total) as int;
    let n = effective_of(t, total)->Approvals_0 as int;
    if r == 0 {
        assert(100 * d * 1 * 0x20_0000_0000_0001 >= 100 * d * 0 * 0x20_0000_0000_0001)
            by (nonlinear_arith)
            requires
                d > 0,
        ;
    }
    if r > u32::MAX {
        assert(100 * d * (n - 1) * 0x1f_ffff_ffff_ffff <= 100 * d * (r - 1) * 0x1f_ffff_ffff_ffff)
            by (nonlinear_arith)
            requires
                n <= r,
                d > 0,
        ;
    }
}

} // verus!
