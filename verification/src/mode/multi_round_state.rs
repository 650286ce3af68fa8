//! The state of the multi-round mode and its record.

use crate::codec::{defaulted, read_defaulted, read_required, readable_deeper, required, Codec};
use crate::json::{distinct_keys, is_record, member_at, JsonView, Members};
use crate::json_text::Fields;
use crate::text_map::TextMap;
use vstd::prelude::*;

verus! {

/// The state of a multi-round session: how often a contribution has changed, and what everyone contributes now.
#[derive(Clone, Debug)]
pub struct MultiRoundState {
    pub round: u64,
    pub participants: Vec<String>,
    pub contributions: TextMap<String>,
    pub convergence_type: String,
    pub converged: bool,
}

/// What a [`MultiRoundState`] holds.
#[verifier::ext_equal]
pub struct MultiRoundStateView {
    pub round: u64,
    pub participants: Seq<Seq<char>>,
    pub contributions: Map<Seq<char>, Seq<char>>,
    pub convergence_type: Seq<char>,
    pub converged: bool,
}

impl DeepView for MultiRoundState {
    type V = MultiRoundStateView;

    open spec fn deep_view(&self) -> MultiRoundStateView {
        MultiRoundStateView {
            round: self.round,
            participants: self.participants.deep_view(),
            contributions: self.contributions.deep_view(),
            convergence_type: self.convergence_type@,
            converged: self.converged,
        }
    }
}

impl MultiRoundState {
    /// The members of the object that records the value.
    pub open spec fn members(v: MultiRoundStateView) -> Seq<(Seq<char>, JsonView)> {
        seq![
            ("round"@, <u64 as Codec>::json(v.round)),
            ("participants"@, <Vec<String> as Codec>::json(v.participants)),
            ("contributions"@, <TextMap<String> as Codec>::json(v.contributions)),
            ("convergence_type"@, <String as Codec>::json(v.convergence_type)),
            ("converged"@, <bool as Codec>::json(v.converged)),
        ]
    }

    proof fn members_distinct(v: MultiRoundStateView)
        ensures
            distinct_keys(Self::members(v)),
    {
        reveal_strlit("round");
        reveal_strlit("participants");
        reveal_strlit("contributions");
        reveal_strlit("convergence_type");
        reveal_strlit("converged");
        assert("round"@.len() == 5);
        assert("participants"@.len() == 12);
        assert("contributions"@.len() == 13);
        assert("convergence_type"@.len() == 16);
        assert("converged"@.len() == 9);
    }
}

impl Codec for MultiRoundState {
    open spec fn json(v: MultiRoundStateView) -> JsonView {
        JsonView::Object(MultiRoundState::members(v))
    }

    open spec fn from_view(j: JsonView) -> Option<MultiRoundStateView> {
        let round = required::<u64>(j, 0, "round"@);
        let participants = required::<Vec<String>>(j, 1, "participants"@);
        let contributions = required::<TextMap<String>>(j, 2, "contributions"@);
        let convergence_type = defaulted::<String>(j, 3, "convergence_type"@, seq![]);
        let converged = defaulted::<bool>(j, 4, "converged"@, false);
        if is_record(j, 5) && round is Some && participants is Some && contributions is Some
            && convergence_type is Some && converged is Some {
            Some(
                MultiRoundStateView {
                    round: round->0,
                    participants: participants->0,
                    contributions: contributions->0,
                    convergence_type: convergence_type->0,
                    converged: converged->0,
                },
            )
        } else {
            None
        }
    }

    open spec fn depth() -> nat {
        2
    }

    open spec fn valid(v: MultiRoundStateView) -> bool {
        &&& <u64 as Codec>::valid(v.round)
        &&& <Vec<String> as Codec>::valid(v.participants)
        &&& <TextMap<String> as Codec>::valid(v.contributions)
        &&& <String as Codec>::valid(v.convergence_type)
        &&& <bool as Codec>::valid(v.converged)
    }

    proof fn reads_back(v: MultiRoundStateView) {
        let m = MultiRoundState::members(v);
        MultiRoundState::members_distinct(v);
        member_at(m, 0);
        <u64 as Codec>::reads_back(v.round);
        readable_deeper(m[0].1, <u64 as Codec>::depth(), 1);
        member_at(m, 1);
        <Vec<String> as Codec>::reads_back(v.participants);
        readable_deeper(m[1].1, <Vec<String> as Codec>::depth(), 1);
        member_at(m, 2);
        <TextMap<String> as Codec>::reads_back(v.contributions);
        readable_deeper(m[2].1, <TextMap<String> as Codec>::depth(), 1);
        member_at(m, 3);
        <String as Codec>::reads_back(v.convergence_type);
        readable_deeper(m[3].1, <String as Codec>::depth(), 1);
        member_at(m, 4);
        <bool as Codec>::reads_back(v.converged);
        readable_deeper(m[4].1, <bool as Codec>::depth(), 1);
    }

    fn to_json(&self) -> (r: serde_json::Value) {
        let members: Members = Members::new()
            .with("round", self.round.to_json())
            .with("participants", self.participants.to_json())
            .with("contributions", self.contributions.to_json())
            .with("convergence_type", self.convergence_type.to_json())
            .with("converged", self.converged.to_json());
        assert(members@ =~= MultiRoundState::members(self.deep_view()));
        proof {
            MultiRoundState::members_distinct(self.deep_view());
        }
        members.finish()
    }

    fn from_text(bytes: &[u8]) -> (r: Option<Self>) {
        let record: Fields<'_> = match Fields::read(bytes, 5) {
            Some(record) => record,
            None => return None,
        };
        let round: u64 = match read_required::<u64>(&record, 0, "round") {
            Some(x) => x,
            None => return None,
        };
        let participants: Vec<String> = match read_required::<Vec<String>>(&record, 1, "participants") {
            Some(x) => x,
            None => return None,
        };
        let contributions: TextMap<String> = match read_required::<TextMap<String>>(&record, 2, "contributions") {
            Some(x) => x,
            None => return None,
        };
        let convergence_type: String = match read_defaulted::<String>(&record, 3, "convergence_type", String::new()) {
            Some(x) => x,
            None => return None,
        };
        let converged: bool = match read_defaulted::<bool>(&record, 4, "converged", false) {
            Some(x) => x,
            None => return None,
        };
        Some(
            MultiRoundState {
                round,
                participants,
                contributions,
                convergence_type,
                converged,
            },
        )
    }
}

} // verus!
