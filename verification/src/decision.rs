//! The state of a session in the decision mode, as policies see it.

use crate::double::Double;
use crate::text_map::TextMap;
use vstd::prelude::*;

verus! {

/// How far a decision has come.
#[derive(Clone, Debug, PartialEq, Eq)]
pub enum DecisionPhase {
    Proposal,
    Evaluation,
    Voting,
    Committed,
}

impl Default for DecisionPhase {
    fn default() -> (r: Self)
        ensures
            r == DecisionPhase::Proposal,
    {
        DecisionPhase::Proposal
    }
}

/// What has been put forward and said in a decision.
#[derive(Clone, Debug)]
pub struct DecisionState {
    pub proposals: TextMap<Proposal>,
    pub evaluations: Vec<Evaluation>,
    pub objections: Vec<Objection>,
    /// The votes on each proposal, by voter.
    pub votes: TextMap<TextMap<Vote>>,
    pub phase: DecisionPhase,
}

/// An option that was put forward.
#[derive(Clone, Debug)]
pub struct Proposal {
    pub proposal_id: String,
    pub option: String,
    pub rationale: String,
    pub sender: String,
}

/// What a [`Proposal`] holds.
pub struct ProposalView {
    pub proposal_id: Seq<char>,
    pub option: Seq<char>,
    pub rationale: Seq<char>,
    pub sender: Seq<char>,
}

impl DeepView for Proposal {
    type V = ProposalView;

    open spec fn deep_view(&self) -> ProposalView {
        ProposalView {
            proposal_id: self.proposal_id@,
            option: self.option@,
            rationale: self.rationale@,
            sender: self.sender@,
        }
    }
}

/// An assessment of a proposal.
#[derive(Clone, Debug)]
pub struct Evaluation {
    pub proposal_id: String,
    pub recommendation: String,
    pub confidence: Double,
    pub reason: String,
    pub sender: String,
}

/// An objection to a proposal.
#[derive(Clone, Debug)]
pub struct Objection {
    pub proposal_id: String,
    pub reason: String,
    pub severity: String,
    pub sender: String,
}

/// A vote on a proposal.
#[derive(Clone, Debug)]
pub struct Vote {
    pub proposal_id: String,
    pub vote: String,
    pub reason: String,
    pub sender: String,
}

/// What a [`Vote`] holds.
pub struct VoteView {
    pub proposal_id: Seq<char>,
    pub vote: Seq<char>,
    pub reason: Seq<char>,
    pub sender: Seq<char>,
}

impl DeepView for Vote {
    type V = VoteView;

    open spec fn deep_view(&self) -> VoteView {
        VoteView {
            proposal_id: self.proposal_id@,
            vote: self.vote@,
            reason: self.reason@,
            sender: self.sender@,
        }
    }
}

} // verus!
