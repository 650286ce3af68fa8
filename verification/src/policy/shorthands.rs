//! What the shorthands of an evaluator ask, told by one that lets through a single
//! question.

use crate::decision::DecisionState;
use crate::policy::{
    CommitmentContext, CommitmentMode, PolicyDecision, PolicyDefinition, PolicyEvaluator,
};
use vstd::prelude::*;

verus! {

/// A question that an evaluator may be asked, without the policy.
pub enum Question {
    Decision(usize),
    Proposal(usize),
    Task(bool),
    Handoff,
    Quorum(usize, usize, usize),
}

/// An evaluator that lets through what one question asks, with the outcome, under
/// policies of one schema version.
pub struct OneQuestion {
    pub question: Question,
    pub outcome_positive: bool,
    pub schema_version: u32,
}

/// Whether the evaluator lets through what it is asked.
pub open spec fn answers(e: OneQuestion, ctx: CommitmentContext<'_>) -> bool {
    &&& ctx.outcome_positive == e.outcome_positive
    &&& ctx.policy.schema_version == e.schema_version
    &&& match (e.question, ctx.mode) {
        (Question::Decision(n), CommitmentMode::Decision { state }) => ctx.participants@.len() == n,
        (Question::Proposal(n), CommitmentMode::Proposal { counter_proposal_count }) => n
            == counter_proposal_count && ctx.participants@.len() == 0,
        (Question::Task(b), CommitmentMode::Task { has_output }) => b == has_output
            && ctx.participants@.len() == 0,
        (Question::Handoff, CommitmentMode::Handoff) => ctx.participants@.len() == 0,
        (
            Question::Quorum(a, b, c),
            CommitmentMode::Quorum { approve_count, reject_count, abstain_count },
        ) => a == approve_count && b == reject_count && c == abstain_count
            && ctx.participants@.len() == 0,
        _ => false,
    }
}

impl PolicyEvaluator for OneQuestion {
    fn evaluate_commitment(&self, ctx: &CommitmentContext<'_>) -> (r: PolicyDecision)
        ensures
            r is Allow <==> answers(*self, *ctx),
    {
        let asked: bool = match (&self.question, &ctx.mode) {
            (Question::Decision(n), CommitmentMode::Decision { .. }) => ctx.participants.len()
                == *n,
            (Question::Proposal(n), CommitmentMode::Proposal { counter_proposal_count }) => *n
                == *counter_proposal_count && ctx.participants.len() == 0,
            (Question::Task(b), CommitmentMode::Task { has_output }) => *b == *has_output
                && ctx.participants.len() == 0,
            (Question::Handoff, CommitmentMode::Handoff) => ctx.participants.len() == 0,
            (
                Question::Quorum(a, b, c),
                CommitmentMode::Quorum { approve_count, reject_count, abstain_count },
            ) => *a == *approve_count && *b == *reject_count && *c == *abstain_count
                && ctx.participants.len() == 0,
            _ => false,
        };
        if asked && ctx.outcome_positive == self.outcome_positive && ctx.policy.schema_version
            == self.schema_version {
            PolicyDecision::Allow { reasons: Vec::new() }
        } else {
            PolicyDecision::Deny { reasons: Vec::new() }
        }
    }
}

/// What each shorthand asks: for a positive outcome unless it is told, about what it is
/// given in the mode that it names, and with no participants but in the decision mode.
/// An evaluator that lets through just one question answers accordingly.
pub proof fn shorthands_ask_one_question(
    e: &OneQuestion,
    policy: &PolicyDefinition,
    state: &DecisionState,
    participants: &[String],
    outcome_positive: bool,
    a: usize,
    b: usize,
    c: usize,
    total: usize,
    flag: bool,
    decision: PolicyDecision,
    outcome: PolicyDecision,
    proposal: PolicyDecision,
    task: PolicyDecision,
    handoff: PolicyDecision,
    quorum: PolicyDecision,
)
    requires
        call_ensures(
            OneQuestion::evaluate_decision_commitment,
            (e, policy, state, participants),
            decision,
        ),
        call_ensures(
            OneQuestion::evaluate_decision_commitment_outcome,
            (e, policy, state, participants, outcome_positive),
            outcome,
        ),
        call_ensures(OneQuestion::evaluate_proposal_commitment, (e, policy, a), proposal),
        call_ensures(OneQuestion::evaluate_task_commitment, (e, policy, flag), task),
        call_ensures(OneQuestion::evaluate_handoff_commitment, (e, policy), handoff),
        call_ensures(OneQuestion::evaluate_quorum_commitment, (e, policy, a, b, c, total), quorum),
        policy.schema_version == e.schema_version,
    ensures
        decision is Allow <==> e.outcome_positive && (e.question matches Question::Decision(n) && n
            == participants@.len()),
        outcome is Allow <==> e.outcome_positive == outcome_positive && (
        e.question matches Question::Decision(n) && n == participants@.len()),
        proposal is Allow <==> e.outcome_positive && (e.question matches Question::Proposal(n) && n
            == a),
        task is Allow <==> e.outcome_positive && (e.question matches Question::Task(f) && f
            == flag),
        handoff is Allow <==> e.outcome_positive && e.question is Handoff,
        quorum is Allow <==> e.outcome_positive && (e.question matches Question::Quorum(x, y, z)
            && x == a && y == b && z == c),
{
}

} // verus!
