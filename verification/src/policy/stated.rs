//! What the rules of a policy hold, stated of the documents that state them: what
//! is stated counts, what is not stated has its default, and what is stated in the
//! wrong shape makes the rules unreadable.

use crate::double::integer_bits;
use crate::json::{distinct_keys, field, JsonView, NumberView};
use crate::policy::rules::{
    action_of, weights_of, AbstentionRules, CounterProposalRules, CriticalObjectionAction,
    DecisionPolicyRules, EvaluationRules, HandoffAcceptanceRules, HandoffPolicyRules,
    ObjectionHandlingRules, ProposalAcceptanceRules, ProposalPolicyRules, QuorumPolicyRules,
    QuorumRules, QuorumThreshold, RejectionRules, TaskAssignmentRules, TaskCompletionRules,
    TaskPolicyRules, VotingRules,
};
use crate::policy::CommitmentRules;
use vstd::prelude::*;

verus! {

/// Whether the document is a record of at most so many fields.
pub open spec fn has_fields(v: JsonView, n: nat) -> bool {
    v is Object || (v is Array && v->Array_0.len() <= n)
}

/// Whether the document is an integer within the bounds.
pub open spec fn is_integer(j: JsonView, low: int, high: int) -> bool {
    j matches JsonView::Number(NumberView::Integer(i)) && low <= i <= high
}

/// Whether the document is the double with the bits, or the integer nearest to
/// which it is.
pub open spec fn is_double(j: JsonView, bits: u64) -> bool {
    match j {
        JsonView::Number(NumberView::Real(b)) => bits == b,
        JsonView::Number(NumberView::Integer(i)) => bits == integer_bits(i),
        _ => false,
    }
}

/// Whether the document is the list of the texts.
pub open spec fn is_texts(j: JsonView, texts: Seq<Seq<char>>) -> bool {
    j matches JsonView::Array(list) && list.len() == texts.len() && forall|k: int|
        0 <= k < list.len() ==> #[trigger] list[k] == JsonView::Text(texts[k])
}

/// A document without members.
pub open spec fn nothing_stated() -> JsonView {
    JsonView::Object(Seq::empty())
}

/// Where they are not given at all, it is as if nothing were stated of them.
pub proof fn empty_commitment_rules()
    ensures
        CommitmentRules::from_view(nothing_stated()) == Some(
            CommitmentRules::default_view(),
        ),
{
    let v = nothing_stated();
    assert(field(v, 0, "authority"@) is None);
    assert(field(v, 1, "designated_roles"@) is None);
    assert(Seq::<Seq<char>>::empty() =~= seq![]);
    assert(field(v, 2, "require_vote_quorum"@) is None);
    assert(field(v, 3, "allow_decline_over_approval"@) is None);
}

/// The rules for commitments hold what the document states, or the default for what it does
/// not, and can be read exactly where all that it states has the right shape.
pub proof fn commitment_rules_as_stated(v: JsonView)
    ensures
        CommitmentRules::from_view(v) is Some <==> {
            &&& has_fields(v, 4)
            &&& field(v, 0, "authority"@) matches Some(j) ==> j is Text
            &&& field(v, 1, "designated_roles"@) matches Some(j)
                ==> (j matches JsonView::Array(list) && forall|k: int|
                0 <= k < list.len() ==> #[trigger] list[k] is Text)
            &&& field(v, 2, "require_vote_quorum"@) matches Some(j) ==> j is Bool
            &&& field(v, 3, "allow_decline_over_approval"@) matches Some(j) ==> j is Bool
        },
        CommitmentRules::from_view(v) matches Some(r) ==> {
            &&& field(v, 0, "authority"@) matches Some(j) ==> j == JsonView::Text(r.authority)
            &&& field(v, 0, "authority"@) is None ==> r.authority == "initiator_only"@
            &&& field(v, 1, "designated_roles"@) matches Some(j) ==> is_texts(j, r.designated_roles)
            &&& field(v, 1, "designated_roles"@) is None ==> r.designated_roles.len() == 0
            &&& field(v, 2, "require_vote_quorum"@) matches Some(j)
                ==> j == JsonView::Bool(r.require_vote_quorum)
            &&& field(v, 2, "require_vote_quorum"@) is None ==> !r.require_vote_quorum
            &&& field(v, 3, "allow_decline_over_approval"@) matches Some(j)
                ==> j == JsonView::Bool(r.allow_decline_over_approval)
            &&& field(v, 3, "allow_decline_over_approval"@) is None
                ==> !r.allow_decline_over_approval
        },
{
}

/// Where they are not given at all, it is as if nothing were stated of them.
pub proof fn empty_quorum_rules()
    ensures
        QuorumRules::from_view(nothing_stated()) == Some(
            QuorumRules::default_view(),
        ),
{
    let v = nothing_stated();
    assert(field(v, 0, "type"@) is None);
    assert(field(v, 1, "value"@) is None);
}

/// The quorum of a vote holds what the document states, or the default for what it does
/// not, and can be read exactly where all that it states has the right shape.
pub proof fn quorum_rules_as_stated(v: JsonView)
    ensures
        QuorumRules::from_view(v) is Some <==> {
            &&& has_fields(v, 2)
            &&& field(v, 0, "type"@) matches Some(j) ==> j is Text
            &&& field(v, 1, "value"@) matches Some(j) ==> j is Number
        },
        QuorumRules::from_view(v) matches Some(r) ==> {
            &&& field(v, 0, "type"@) matches Some(j) ==> j == JsonView::Text(r.quorum_type)
            &&& field(v, 0, "type"@) is None ==> r.quorum_type == "count"@
            &&& field(v, 1, "value"@) matches Some(j) ==> is_double(j, r.value)
            &&& field(v, 1, "value"@) is None ==> r.value == 0u64
        },
{
}

/// Where they are not given at all, it is as if nothing were stated of them.
pub proof fn empty_voting_rules()
    ensures
        VotingRules::from_view(nothing_stated()) == Some(
            VotingRules::default_view(),
        ),
{
    let v = nothing_stated();
    assert(field(v, 0, "algorithm"@) is None);
    assert(field(v, 1, "threshold"@) is None);
    assert(field(v, 2, "quorum"@) is None);
    assert(field(v, 3, "weights"@) is None);
}

/// The rules for votes hold what the document states, or the default for what it does
/// not, and can be read only where all that it states has the right shape.
pub proof fn voting_rules_as_stated(v: JsonView)
    ensures
        VotingRules::from_view(v) is Some ==> {
            &&& has_fields(v, 4)
            &&& field(v, 0, "algorithm"@) matches Some(j) ==> j is Text
            &&& field(v, 1, "threshold"@) matches Some(j) ==> j is Number
            &&& field(v, 2, "quorum"@) matches Some(j) ==> QuorumRules::from_view(j) is Some
        },
        VotingRules::from_view(v) matches Some(r) ==> {
            &&& field(v, 0, "algorithm"@) matches Some(j) ==> j == JsonView::Text(r.algorithm)
            &&& field(v, 0, "algorithm"@) is None ==> r.algorithm == "none"@
            &&& field(v, 1, "threshold"@) matches Some(j) ==> is_double(j, r.threshold)
            &&& field(v, 1, "threshold"@) is None ==> r.threshold == 0x3fe0_0000_0000_0000u64
            &&& field(v, 2, "quorum"@) matches Some(j)
                ==> QuorumRules::from_view(j) == Some(r.quorum)
            &&& field(v, 2, "quorum"@) is None
                ==> QuorumRules::from_view(nothing_stated()) == Some(r.quorum)
            &&& field(v, 3, "weights"@) is None ==> r.weights == Map::<Seq<char>, u64>::empty()
        },
{
    empty_quorum_rules();
}

/// Where they are not given at all, it is as if nothing were stated of them.
pub proof fn empty_objection_rules()
    ensures
        ObjectionHandlingRules::from_view(nothing_stated()) == Some(
            ObjectionHandlingRules::default_view(),
        ),
{
    let v = nothing_stated();
    assert(field(v, 0, "critical_severity_vetoes"@) is None);
    assert(field(v, 1, "veto_threshold"@) is None);
    assert(field(v, 2, "critical_objection_action"@) is None);
}

/// The rules for objections hold what the document states, or the default for what it does
/// not, and can be read exactly where all that it states has the right shape.
pub proof fn objection_rules_as_stated(v: JsonView)
    ensures
        ObjectionHandlingRules::from_view(v) is Some <==> {
            &&& has_fields(v, 3)
            &&& field(v, 0, "critical_severity_vetoes"@) matches Some(j) ==> j is Bool
            &&& field(v, 1, "veto_threshold"@) matches Some(j) ==> is_integer(j, 0, u32::MAX as int)
            &&& field(v, 2, "critical_objection_action"@) matches Some(j) ==> action_of(j) is Some
        },
        ObjectionHandlingRules::from_view(v) matches Some(r) ==> {
            &&& field(v, 0, "critical_severity_vetoes"@) matches Some(j)
                ==> j == JsonView::Bool(r.critical_severity_vetoes)
            &&& field(v, 0, "critical_severity_vetoes"@) is None ==> !r.critical_severity_vetoes
            &&& field(v, 1, "veto_threshold"@) matches Some(j) ==> j == JsonView::Number(
                NumberView::Integer(r.veto_threshold as int),
            )
            &&& field(v, 1, "veto_threshold"@) is None ==> r.veto_threshold == 1
            &&& field(v, 2, "critical_objection_action"@) matches Some(j)
                ==> action_of(j) == Some(r.critical_objection_action)
            &&& field(v, 2, "critical_objection_action"@) is None
                ==> r.critical_objection_action == CriticalObjectionAction::Deny
        },
{
}

/// Where they are not given at all, it is as if nothing were stated of them.
pub proof fn empty_evaluation_rules()
    ensures
        EvaluationRules::from_view(nothing_stated()) == Some(
            EvaluationRules::default_view(),
        ),
{
    let v = nothing_stated();
    assert(field(v, 0, "required_before_voting"@) is None);
    assert(field(v, 1, "minimum_confidence"@) is None);
}

/// The rules for evaluations hold what the document states, or the default for what it does
/// not, and can be read exactly where all that it states has the right shape.
pub proof fn evaluation_rules_as_stated(v: JsonView)
    ensures
        EvaluationRules::from_view(v) is Some <==> {
            &&& has_fields(v, 2)
            &&& field(v, 0, "required_before_voting"@) matches Some(j) ==> j is Bool
            &&& field(v, 1, "minimum_confidence"@) matches Some(j) ==> j is Number
        },
        EvaluationRules::from_view(v) matches Some(r) ==> {
            &&& field(v, 0, "required_before_voting"@) matches Some(j)
                ==> j == JsonView::Bool(r.required_before_voting)
            &&& field(v, 0, "required_before_voting"@) is None ==> !r.required_before_voting
            &&& field(v, 1, "minimum_confidence"@) matches Some(j)
                ==> is_double(j, r.minimum_confidence)
            &&& field(v, 1, "minimum_confidence"@) is None ==> r.minimum_confidence == 0u64
        },
{
}

/// Where they are not given at all, it is as if nothing were stated of them.
pub proof fn empty_decision_rules()
    ensures
        DecisionPolicyRules::from_view(nothing_stated()) == Some(
            DecisionPolicyRules::default_view(),
        ),
{
    let v = nothing_stated();
    assert(field(v, 0, "voting"@) is None);
    assert(field(v, 1, "objection_handling"@) is None);
    assert(field(v, 2, "evaluation"@) is None);
    assert(field(v, 3, "commitment"@) is None);
}

/// The rules of the decision mode hold what the document states, or the default for what it does
/// not, and can be read exactly where all that it states has the right shape.
pub proof fn decision_rules_as_stated(v: JsonView)
    ensures
        DecisionPolicyRules::from_view(v) is Some <==> {
            &&& has_fields(v, 4)
            &&& field(v, 0, "voting"@) matches Some(j) ==> VotingRules::from_view(j) is Some
            &&& field(v, 1, "objection_handling"@) matches Some(j)
                ==> ObjectionHandlingRules::from_view(j) is Some
            &&& field(v, 2, "evaluation"@) matches Some(j) ==> EvaluationRules::from_view(j) is Some
            &&& field(v, 3, "commitment"@) matches Some(j) ==> CommitmentRules::from_view(j) is Some
        },
        DecisionPolicyRules::from_view(v) matches Some(r) ==> {
            &&& field(v, 0, "voting"@) matches Some(j)
                ==> VotingRules::from_view(j) == Some(r.voting)
            &&& field(v, 0, "voting"@) is None
                ==> VotingRules::from_view(nothing_stated()) == Some(r.voting)
            &&& field(v, 1, "objection_handling"@) matches Some(j)
                ==> ObjectionHandlingRules::from_view(j) == Some(r.objection_handling)
            &&& field(v, 1, "objection_handling"@) is None
                ==> ObjectionHandlingRules::from_view(nothing_stated())
                == Some(r.objection_handling)
            &&& field(v, 2, "evaluation"@) matches Some(j)
                ==> EvaluationRules::from_view(j) == Some(r.evaluation)
            &&& field(v, 2, "evaluation"@) is None
                ==> EvaluationRules::from_view(nothing_stated()) == Some(r.evaluation)
            &&& field(v, 3, "commitment"@) matches Some(j)
                ==> CommitmentRules::from_view(j) == Some(r.commitment)
            &&& field(v, 3, "commitment"@) is None
                ==> CommitmentRules::from_view(nothing_stated()) == Some(r.commitment)
        },
{
    empty_voting_rules();
    empty_objection_rules();
    empty_evaluation_rules();
    empty_commitment_rules();
}

/// Where they are not given at all, it is as if nothing were stated of them.
pub proof fn empty_proposal_acceptance_rules()
    ensures
        ProposalAcceptanceRules::from_view(nothing_stated()) == Some(
            ProposalAcceptanceRules::default_view(),
        ),
{
    let v = nothing_stated();
    assert(field(v, 0, "criterion"@) is None);
}

/// The rules for accepting proposals hold what the document states, or the default for what it does
/// not, and can be read exactly where all that it states has the right shape.
pub proof fn proposal_acceptance_rules_as_stated(v: JsonView)
    ensures
        ProposalAcceptanceRules::from_view(v) is Some <==> {
            &&& has_fields(v, 1)
            &&& field(v, 0, "criterion"@) matches Some(j) ==> j is Text
        },
        ProposalAcceptanceRules::from_view(v) matches Some(r) ==> {
            &&& field(v, 0, "criterion"@) matches Some(j) ==> j == JsonView::Text(r.criterion)
            &&& field(v, 0, "criterion"@) is None ==> r.criterion == "all_parties"@
        },
{
}

/// Where they are not given at all, it is as if nothing were stated of them.
pub proof fn empty_counter_proposal_rules()
    ensures
        CounterProposalRules::from_view(nothing_stated()) == Some(
            CounterProposalRules::default_view(),
        ),
{
    let v = nothing_stated();
    assert(field(v, 0, "max_rounds"@) is None);
}

/// The rules for counterproposals hold what the document states, or the default for what it does
/// not, and can be read exactly where all that it states has the right shape.
pub proof fn counter_proposal_rules_as_stated(v: JsonView)
    ensures
        CounterProposalRules::from_view(v) is Some <==> {
            &&& has_fields(v, 1)
            &&& field(v, 0, "max_rounds"@) matches Some(j) ==> is_integer(j, 0, usize::MAX as int)
        },
        CounterProposalRules::from_view(v) matches Some(r) ==> {
            &&& field(v, 0, "max_rounds"@) matches Some(j) ==> j == JsonView::Number(
                NumberView::Integer(r.max_rounds as int),
            )
            &&& field(v, 0, "max_rounds"@) is None ==> r.max_rounds == 0
        },
{
}

/// Where they are not given at all, it is as if nothing were stated of them.
pub proof fn empty_rejection_rules()
    ensures
        RejectionRules::from_view(nothing_stated()) == Some(
            RejectionRules::default_view(),
        ),
{
    let v = nothing_stated();
    assert(field(v, 0, "terminal_on_any_reject"@) is None);
}

/// The rules for rejections hold what the document states, or the default for what it does
/// not, and can be read exactly where all that it states has the right shape.
pub proof fn rejection_rules_as_stated(v: JsonView)
    ensures
        RejectionRules::from_view(v) is Some <==> {
            &&& has_fields(v, 1)
            &&& field(v, 0, "terminal_on_any_reject"@) matches Some(j) ==> j is Bool
        },
        RejectionRules::from_view(v) matches Some(r) ==> {
            &&& field(v, 0, "terminal_on_any_reject"@) matches Some(j)
                ==> j == JsonView::Bool(r.terminal_on_any_reject)
            &&& field(v, 0, "terminal_on_any_reject"@) is None ==> !r.terminal_on_any_reject
        },
{
}

/// Where they are not given at all, it is as if nothing were stated of them.
pub proof fn empty_proposal_rules()
    ensures
        ProposalPolicyRules::from_view(nothing_stated()) == Some(
            ProposalPolicyRules::default_view(),
        ),
{
    let v = nothing_stated();
    assert(field(v, 0, "acceptance"@) is None);
    assert(field(v, 1, "counter_proposal"@) is None);
    assert(field(v, 2, "rejection"@) is None);
    assert(field(v, 3, "commitment"@) is None);
}

/// The rules of the proposal mode hold what the document states, or the default for what it does
/// not, and can be read exactly where all that it states has the right shape.
pub proof fn proposal_rules_as_stated(v: JsonView)
    ensures
        ProposalPolicyRules::from_view(v) is Some <==> {
            &&& has_fields(v, 4)
            &&& field(v, 0, "acceptance"@) matches Some(j)
                ==> ProposalAcceptanceRules::from_view(j) is Some
            &&& field(v, 1, "counter_proposal"@) matches Some(j)
                ==> CounterProposalRules::from_view(j) is Some
            &&& field(v, 2, "rejection"@) matches Some(j) ==> RejectionRules::from_view(j) is Some
            &&& field(v, 3, "commitment"@) matches Some(j) ==> CommitmentRules::from_view(j) is Some
        },
        ProposalPolicyRules::from_view(v) matches Some(r) ==> {
            &&& field(v, 0, "acceptance"@) matches Some(j)
                ==> ProposalAcceptanceRules::from_view(j) == Some(r.acceptance)
            &&& field(v, 0, "acceptance"@) is None
                ==> ProposalAcceptanceRules::from_view(nothing_stated()) == Some(r.acceptance)
            &&& field(v, 1, "counter_proposal"@) matches Some(j)
                ==> CounterProposalRules::from_view(j) == Some(r.counter_proposal)
            &&& field(v, 1, "counter_proposal"@) is None
                ==> CounterProposalRules::from_view(nothing_stated()) == Some(r.counter_proposal)
            &&& field(v, 2, "rejection"@) matches Some(j)
                ==> RejectionRules::from_view(j) == Some(r.rejection)
            &&& field(v, 2, "rejection"@) is None
                ==> RejectionRules::from_view(nothing_stated()) == Some(r.rejection)
            &&& field(v, 3, "commitment"@) matches Some(j)
                ==> CommitmentRules::from_view(j) == Some(r.commitment)
            &&& field(v, 3, "commitment"@) is None
                ==> CommitmentRules::from_view(nothing_stated()) == Some(r.commitment)
        },
{
    empty_proposal_acceptance_rules();
    empty_counter_proposal_rules();
    empty_rejection_rules();
    empty_commitment_rules();
}

/// Where they are not given at all, it is as if nothing were stated of them.
pub proof fn empty_assignment_rules()
    ensures
        TaskAssignmentRules::from_view(nothing_stated()) == Some(
            TaskAssignmentRules::default_view(),
        ),
{
    let v = nothing_stated();
    assert(field(v, 0, "allow_reassignment_on_reject"@) is None);
}

/// The rules for assignments hold what the document states, or the default for what it does
/// not, and can be read exactly where all that it states has the right shape.
pub proof fn assignment_rules_as_stated(v: JsonView)
    ensures
        TaskAssignmentRules::from_view(v) is Some <==> {
            &&& has_fields(v, 1)
            &&& field(v, 0, "allow_reassignment_on_reject"@) matches Some(j) ==> j is Bool
        },
        TaskAssignmentRules::from_view(v) matches Some(r) ==> {
            &&& field(v, 0, "allow_reassignment_on_reject"@) matches Some(j)
                ==> j == JsonView::Bool(r.allow_reassignment_on_reject)
            &&& field(v, 0, "allow_reassignment_on_reject"@) is None
                ==> !r.allow_reassignment_on_reject
        },
{
}

/// Where they are not given at all, it is as if nothing were stated of them.
pub proof fn empty_completion_rules()
    ensures
        TaskCompletionRules::from_view(nothing_stated()) == Some(
            TaskCompletionRules::default_view(),
        ),
{
    let v = nothing_stated();
    assert(field(v, 0, "require_output"@) is None);
}

/// The rules for completion hold what the document states, or the default for what it does
/// not, and can be read exactly where all that it states has the right shape.
pub proof fn completion_rules_as_stated(v: JsonView)
    ensures
        TaskCompletionRules::from_view(v) is Some <==> {
            &&& has_fields(v, 1)
            &&& field(v, 0, "require_output"@) matches Some(j) ==> j is Bool
        },
        TaskCompletionRules::from_view(v) matches Some(r) ==> {
            &&& field(v, 0, "require_output"@) matches Some(j)
                ==> j == JsonView::Bool(r.require_output)
            &&& field(v, 0, "require_output"@) is None ==> !r.require_output
        },
{
}

/// Where they are not given at all, it is as if nothing were stated of them.
pub proof fn empty_task_rules()
    ensures
        TaskPolicyRules::from_view(nothing_stated()) == Some(
            TaskPolicyRules::default_view(),
        ),
{
    let v = nothing_stated();
    assert(field(v, 0, "assignment"@) is None);
    assert(field(v, 1, "completion"@) is None);
    assert(field(v, 2, "commitment"@) is None);
}

/// The rules of the task mode hold what the document states, or the default for what it does
/// not, and can be read exactly where all that it states has the right shape.
pub proof fn task_rules_as_stated(v: JsonView)
    ensures
        TaskPolicyRules::from_view(v) is Some <==> {
            &&& has_fields(v, 3)
            &&& field(v, 0, "assignment"@) matches Some(j)
                ==> TaskAssignmentRules::from_view(j) is Some
            &&& field(v, 1, "completion"@) matches Some(j)
                ==> TaskCompletionRules::from_view(j) is Some
            &&& field(v, 2, "commitment"@) matches Some(j) ==> CommitmentRules::from_view(j) is Some
        },
        TaskPolicyRules::from_view(v) matches Some(r) ==> {
            &&& field(v, 0, "assignment"@) matches Some(j)
                ==> TaskAssignmentRules::from_view(j) == Some(r.assignment)
            &&& field(v, 0, "assignment"@) is None
                ==> TaskAssignmentRules::from_view(nothing_stated()) == Some(r.assignment)
            &&& field(v, 1, "completion"@) matches Some(j)
                ==> TaskCompletionRules::from_view(j) == Some(r.completion)
            &&& field(v, 1, "completion"@) is None
                ==> TaskCompletionRules::from_view(nothing_stated()) == Some(r.completion)
            &&& field(v, 2, "commitment"@) matches Some(j)
                ==> CommitmentRules::from_view(j) == Some(r.commitment)
            &&& field(v, 2, "commitment"@) is None
                ==> CommitmentRules::from_view(nothing_stated()) == Some(r.commitment)
        },
{
    empty_assignment_rules();
    empty_completion_rules();
    empty_commitment_rules();
}

/// Where they are not given at all, it is as if nothing were stated of them.
pub proof fn empty_handoff_acceptance_rules()
    ensures
        HandoffAcceptanceRules::from_view(nothing_stated()) == Some(
            HandoffAcceptanceRules::default_view(),
        ),
{
    let v = nothing_stated();
    assert(field(v, 0, "implicit_accept_timeout_ms"@) is None);
}

/// The rules for accepting handoffs hold what the document states, or the default for what it does
/// not, and can be read exactly where all that it states has the right shape.
pub proof fn handoff_acceptance_rules_as_stated(v: JsonView)
    ensures
        HandoffAcceptanceRules::from_view(v) is Some <==> {
            &&& has_fields(v, 1)
            &&& field(v, 0, "implicit_accept_timeout_ms"@) matches Some(j)
                ==> is_integer(j, 0, u64::MAX as int)
        },
        HandoffAcceptanceRules::from_view(v) matches Some(r) ==> {
            &&& field(v, 0, "implicit_accept_timeout_ms"@) matches Some(j)
                ==> j == JsonView::Number(
                NumberView::Integer(r.implicit_accept_timeout_ms as int),
            )
            &&& field(v, 0, "implicit_accept_timeout_ms"@) is None
                ==> r.implicit_accept_timeout_ms == 0
        },
{
}

/// Where they are not given at all, it is as if nothing were stated of them.
pub proof fn empty_handoff_rules()
    ensures
        HandoffPolicyRules::from_view(nothing_stated()) == Some(
            HandoffPolicyRules::default_view(),
        ),
{
    let v = nothing_stated();
    assert(field(v, 0, "acceptance"@) is None);
    assert(field(v, 1, "commitment"@) is None);
}

/// The rules of the handoff mode hold what the document states, or the default for what it does
/// not, and can be read exactly where all that it states has the right shape.
pub proof fn handoff_rules_as_stated(v: JsonView)
    ensures
        HandoffPolicyRules::from_view(v) is Some <==> {
            &&& has_fields(v, 2)
            &&& field(v, 0, "acceptance"@) matches Some(j)
                ==> HandoffAcceptanceRules::from_view(j) is Some
            &&& field(v, 1, "commitment"@) matches Some(j) ==> CommitmentRules::from_view(j) is Some
        },
        HandoffPolicyRules::from_view(v) matches Some(r) ==> {
            &&& field(v, 0, "acceptance"@) matches Some(j)
                ==> HandoffAcceptanceRules::from_view(j) == Some(r.acceptance)
            &&& field(v, 0, "acceptance"@) is None
                ==> HandoffAcceptanceRules::from_view(nothing_stated()) == Some(r.acceptance)
            &&& field(v, 1, "commitment"@) matches Some(j)
                ==> CommitmentRules::from_view(j) == Some(r.commitment)
            &&& field(v, 1, "commitment"@) is None
                ==> CommitmentRules::from_view(nothing_stated()) == Some(r.commitment)
        },
{
    empty_handoff_acceptance_rules();
    empty_commitment_rules();
}

/// Where they are not given at all, it is as if nothing were stated of them.
pub proof fn empty_quorum_threshold()
    ensures
        QuorumThreshold::from_view(nothing_stated()) == Some(
            QuorumThreshold::default_view(),
        ),
{
    let v = nothing_stated();
    assert(field(v, 0, "type"@) is None);
    assert(field(v, 1, "value"@) is None);
}

/// The threshold of the quorum mode holds what the document states, or the default for what it does
/// not, and can be read exactly where all that it states has the right shape.
pub proof fn quorum_threshold_as_stated(v: JsonView)
    ensures
        QuorumThreshold::from_view(v) is Some <==> {
            &&& has_fields(v, 2)
            &&& field(v, 0, "type"@) matches Some(j) ==> j is Text
            &&& field(v, 1, "value"@) matches Some(j) ==> j is Number
        },
        QuorumThreshold::from_view(v) matches Some(r) ==> {
            &&& field(v, 0, "type"@) matches Some(j) ==> j == JsonView::Text(r.threshold_type)
            &&& field(v, 0, "type"@) is None ==> r.threshold_type == "n_of_m"@
            &&& field(v, 1, "value"@) matches Some(j) ==> is_double(j, r.value)
            &&& field(v, 1, "value"@) is None ==> r.value == 0u64
        },
{
}

/// Where they are not given at all, it is as if nothing were stated of them.
pub proof fn empty_abstention_rules()
    ensures
        AbstentionRules::from_view(nothing_stated()) == Some(
            AbstentionRules::default_view(),
        ),
{
    let v = nothing_stated();
    assert(field(v, 0, "counts_toward_quorum"@) is None);
    assert(field(v, 1, "interpretation"@) is None);
}

/// The rules for abstentions hold what the document states, or the default for what it does
/// not, and can be read exactly where all that it states has the right shape.
pub proof fn abstention_rules_as_stated(v: JsonView)
    ensures
        AbstentionRules::from_view(v) is Some <==> {
            &&& has_fields(v, 2)
            &&& field(v, 0, "counts_toward_quorum"@) matches Some(j) ==> j is Bool
            &&& field(v, 1, "interpretation"@) matches Some(j) ==> j is Text
        },
        AbstentionRules::from_view(v) matches Some(r) ==> {
            &&& field(v, 0, "counts_toward_quorum"@) matches Some(j)
                ==> j == JsonView::Bool(r.counts_toward_quorum)
            &&& field(v, 0, "counts_toward_quorum"@) is None ==> !r.counts_toward_quorum
            &&& field(v, 1, "interpretation"@) matches Some(j)
                ==> j == JsonView::Text(r.interpretation)
            &&& field(v, 1, "interpretation"@) is None ==> r.interpretation == "neutral"@
        },
{
}

/// Where they are not given at all, it is as if nothing were stated of them.
pub proof fn empty_quorum_policy_rules()
    ensures
        QuorumPolicyRules::from_view(nothing_stated()) == Some(
            QuorumPolicyRules::default_view(),
        ),
{
    let v = nothing_stated();
    assert(field(v, 0, "threshold"@) is None);
    assert(field(v, 1, "abstention"@) is None);
    assert(field(v, 2, "commitment"@) is None);
}

/// The rules of the quorum mode hold what the document states, or the default for what it does
/// not, and can be read exactly where all that it states has the right shape.
pub proof fn quorum_policy_rules_as_stated(v: JsonView)
    ensures
        QuorumPolicyRules::from_view(v) is Some <==> {
            &&& has_fields(v, 3)
            &&& field(v, 0, "threshold"@) matches Some(j) ==> QuorumThreshold::from_view(j) is Some
            &&& field(v, 1, "abstention"@) matches Some(j) ==> AbstentionRules::from_view(j) is Some
            &&& field(v, 2, "commitment"@) matches Some(j) ==> CommitmentRules::from_view(j) is Some
        },
        QuorumPolicyRules::from_view(v) matches Some(r) ==> {
            &&& field(v, 0, "threshold"@) matches Some(j)
                ==> QuorumThreshold::from_view(j) == Some(r.threshold)
            &&& field(v, 0, "threshold"@) is None
                ==> QuorumThreshold::from_view(nothing_stated()) == Some(r.threshold)
            &&& field(v, 1, "abstention"@) matches Some(j)
                ==> AbstentionRules::from_view(j) == Some(r.abstention)
            &&& field(v, 1, "abstention"@) is None
                ==> AbstentionRules::from_view(nothing_stated()) == Some(r.abstention)
            &&& field(v, 2, "commitment"@) matches Some(j)
                ==> CommitmentRules::from_view(j) == Some(r.commitment)
            &&& field(v, 2, "commitment"@) is None
                ==> CommitmentRules::from_view(nothing_stated()) == Some(r.commitment)
        },
{
    empty_quorum_threshold();
    empty_abstention_rules();
    empty_commitment_rules();
}

/// The weights are those of the members, each under its name, and no others.
pub proof fn weights_as_stated(members: Seq<(Seq<char>, JsonView)>, i: int)
    requires
        distinct_keys(members),
        0 <= i < members.len(),
    ensures
        weights_of(members) is Some ==> members[i].1 is Number && weights_of(
            members,
        )->0.dom().contains(members[i].0) && is_double(
            members[i].1,
            weights_of(members)->0[members[i].0],
        ),
        weights_of(members) is None ==> exists|k: int|
            0 <= k < members.len() && !((#[trigger] members[k]).1 is Number),
    decreases members.len(),
{
    let init = members.drop_last();
    assert forall|a: int, b: int| 0 <= a < b < init.len() implies #[trigger] init[a].0
        != #[trigger] init[b].0 by {
        assert(members[a].0 != members[b].0);
    }
    if i < init.len() {
        assert(init[i] == members[i]);
        assert(members[i].0 != members[members.len() - 1].0);
        weights_as_stated(init, i);
    } else if init.len() > 0 {
        weights_as_stated(init, 0);
    }
    if weights_of(members) is None {
        if weights_of(init) is None && init.len() > 0 {
            let k = choose|k: int| 0 <= k < init.len() && !((#[trigger] init[k]).1 is Number);
            assert(members[k] == init[k]);
        } else {
            assert(!(members[members.len() - 1].1 is Number));
        }
    }
}

/// A veto does what its name says, and no other name does anything.
pub proof fn actions_as_named(j: JsonView)
    ensures
        j == JsonView::Text("deny"@) ==> action_of(j) == Some(CriticalObjectionAction::Deny),
        j == JsonView::Text("finalize_decline"@) ==> action_of(j) == Some(
            CriticalObjectionAction::FinalizeDecline,
        ),
        j == JsonView::Text("hold"@) ==> action_of(j) == Some(CriticalObjectionAction::Hold),
        j is Text && j->Text_0 != "deny"@ && j->Text_0 != "finalize_decline"@ && j->Text_0
            != "hold"@ ==> action_of(j) is None,
{
    reveal_strlit("deny");
    reveal_strlit("finalize_decline");
    reveal_strlit("hold");
    assert("deny"@[0] == 'd');
    assert("finalize_decline"@[0] == 'f');
    assert("hold"@[0] == 'h');
}

} // verus!
