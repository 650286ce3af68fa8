//! What the recorded states of the modes hold, stated of the documents that record
//! them: what has to be there is there, and what may be missing is missing or has
//! its default.

use crate::codec::Codec;
use crate::json::{JsonView, NumberView};
use crate::json_text::given;
use crate::mode::handoff_state::{
    HandoffContextRecord, HandoffDisposition, HandoffOfferRecord, HandoffState,
};
use crate::mode::multi_round_state::MultiRoundState;
use crate::mode::quorum_state::{ApprovalRequestRecord, BallotChoice, BallotRecord, QuorumState};
use crate::text_map::TextMap;
use vstd::prelude::*;

verus! {

/// Whether the document is a record of at most so many fields.
pub open spec fn has_fields(j: JsonView, n: nat) -> bool {
    j is Object || (j is Array && j->Array_0.len() <= n)
}

/// Context can be read exactly where every field that has to be there is there once
/// and all have the right shape, and then holds what they record.
pub proof fn contexts_as_recorded(j: JsonView)
    ensures
        <HandoffContextRecord as Codec>::from_view(j) is Some <==> {
            &&& has_fields(j, 3)
            &&& given(j, 0, "content_type"@) matches Some(Some(part))
                && <String as Codec>::from_view(part) is Some
            &&& given(j, 1, "context"@) matches Some(Some(part))
                && <Vec<u8> as Codec>::from_view(part) is Some
            &&& given(j, 2, "sender"@) matches Some(Some(part))
                && <String as Codec>::from_view(part) is Some
        },
        <HandoffContextRecord as Codec>::from_view(j) matches Some(r) ==> {
            &&& given(j, 0, "content_type"@) matches Some(Some(part))
                && <String as Codec>::from_view(part) == Some(r.content_type)
            &&& given(j, 1, "context"@) matches Some(Some(part))
                && <Vec<u8> as Codec>::from_view(part) == Some(r.context)
            &&& given(j, 2, "sender"@) matches Some(Some(part))
                && <String as Codec>::from_view(part) == Some(r.sender)
        },
{
}

/// The state of the handoff mode can be read exactly where every field that has to be
/// there is there once and all have the right shape, and then holds what they
/// record.
pub proof fn handoffs_as_recorded(j: JsonView)
    ensures
        <HandoffState as Codec>::from_view(j) is Some <==> {
            &&& has_fields(j, 2)
            &&& given(j, 0, "offers"@) matches Some(Some(part))
                && <TextMap<HandoffOfferRecord> as Codec>::from_view(part) is Some
            &&& given(j, 1, "contexts"@) matches Some(Some(part))
                && <TextMap<Vec<HandoffContextRecord>> as Codec>::from_view(part) is Some
        },
        <HandoffState as Codec>::from_view(j) matches Some(r) ==> {
            &&& given(j, 0, "offers"@) matches Some(Some(part))
                && <TextMap<HandoffOfferRecord> as Codec>::from_view(part) == Some(r.offers)
            &&& given(j, 1, "contexts"@) matches Some(Some(part))
                && <TextMap<Vec<HandoffContextRecord>> as Codec>::from_view(part)
                == Some(r.contexts)
        },
{
}

/// A ballot can be read exactly where every field that has to be there is there once
/// and all have the right shape, and then holds what they record.
pub proof fn ballots_as_recorded(j: JsonView)
    ensures
        <BallotRecord as Codec>::from_view(j) is Some <==> {
            &&& has_fields(j, 4)
            &&& given(j, 0, "request_id"@) matches Some(Some(part))
                && <String as Codec>::from_view(part) is Some
            &&& given(j, 1, "choice"@) matches Some(Some(part))
                && <BallotChoice as Codec>::from_view(part) is Some
            &&& given(j, 2, "sender"@) matches Some(Some(part))
                && <String as Codec>::from_view(part) is Some
            &&& given(j, 3, "reason"@) matches Some(Some(part))
                && <String as Codec>::from_view(part) is Some
        },
        <BallotRecord as Codec>::from_view(j) matches Some(r) ==> {
            &&& given(j, 0, "request_id"@) matches Some(Some(part))
                && <String as Codec>::from_view(part) == Some(r.request_id)
            &&& given(j, 1, "choice"@) matches Some(Some(part))
                && <BallotChoice as Codec>::from_view(part) == Some(r.choice)
            &&& given(j, 2, "sender"@) matches Some(Some(part))
                && <String as Codec>::from_view(part) == Some(r.sender)
            &&& given(j, 3, "reason"@) matches Some(Some(part))
                && <String as Codec>::from_view(part) == Some(r.reason)
        },
{
}

/// The state of the quorum mode can be read exactly where every field that has to be
/// there is there once and all have the right shape, and then holds what they
/// record.
pub proof fn quorums_as_recorded(j: JsonView)
    ensures
        <QuorumState as Codec>::from_view(j) is Some <==> {
            &&& has_fields(j, 2)
            &&& given(j, 0, "request"@) is Some
            &&& given(j, 0, "request"@) matches Some(Some(part))
                ==> part is Null || <ApprovalRequestRecord as Codec>::from_view(part) is Some
            &&& j is Array ==> given(j, 0, "request"@) != Some(None::<JsonView>)
            &&& given(j, 1, "ballots"@) matches Some(Some(part))
                && <TextMap<BallotRecord> as Codec>::from_view(part) is Some
        },
        <QuorumState as Codec>::from_view(j) matches Some(r) ==> {
            &&& r.request is None
                <==> given(j, 0, "request"@) == Some(None::<JsonView>)
                || given(j, 0, "request"@) == Some(
                Some(JsonView::Null),
            )
            &&& r.request matches Some(x)
                ==> (given(j, 0, "request"@) matches Some(Some(part))
                && <ApprovalRequestRecord as Codec>::from_view(
                part,
            ) == Some(x))
            &&& given(j, 1, "ballots"@) matches Some(Some(part))
                && <TextMap<BallotRecord> as Codec>::from_view(part) == Some(r.ballots)
        },
{
}

/// The state of the multi-round mode can be read exactly where every field that has to be
/// there is there once and all have the right shape, and then holds what they
/// record.
pub proof fn rounds_as_recorded(j: JsonView)
    ensures
        <MultiRoundState as Codec>::from_view(j) is Some <==> {
            &&& has_fields(j, 5)
            &&& given(j, 0, "round"@) matches Some(Some(part))
                && <u64 as Codec>::from_view(part) is Some
            &&& given(j, 1, "participants"@) matches Some(Some(part))
                && <Vec<String> as Codec>::from_view(part) is Some
            &&& given(j, 2, "contributions"@) matches Some(Some(part))
                && <TextMap<String> as Codec>::from_view(part) is Some
            &&& given(j, 3, "convergence_type"@) is Some
            &&& given(j, 3, "convergence_type"@) matches Some(Some(part))
                ==> <String as Codec>::from_view(part) is Some
            &&& given(j, 4, "converged"@) is Some
            &&& given(j, 4, "converged"@) matches Some(Some(part))
                ==> <bool as Codec>::from_view(part) is Some
        },
        <MultiRoundState as Codec>::from_view(j) matches Some(r) ==> {
            &&& given(j, 0, "round"@) matches Some(Some(part))
                && <u64 as Codec>::from_view(part) == Some(r.round)
            &&& given(j, 1, "participants"@) matches Some(Some(part))
                && <Vec<String> as Codec>::from_view(part) == Some(r.participants)
            &&& given(j, 2, "contributions"@) matches Some(Some(part))
                && <TextMap<String> as Codec>::from_view(part) == Some(r.contributions)
            &&& given(j, 3, "convergence_type"@) == Some(None::<JsonView>)
                ==> r.convergence_type.len() == 0
            &&& given(j, 3, "convergence_type"@) matches Some(Some(part))
                ==> <String as Codec>::from_view(part) == Some(r.convergence_type)
            &&& given(j, 4, "converged"@) == Some(None::<JsonView>) ==> !r.converged
            &&& given(j, 4, "converged"@) matches Some(Some(part))
                ==> <bool as Codec>::from_view(part) == Some(r.converged)
        },
{
}

/// A text is recorded as a string, a truth value as one, and a number as an integer
/// that its type can hold. Nothing else is read as one of them.
pub proof fn scalars_as_recorded(j: JsonView)
    ensures
        <String as Codec>::from_view(j) is Some <==> j is Text,
        j matches JsonView::Text(s) ==> <String as Codec>::from_view(j) == Some(s),
        <bool as Codec>::from_view(j) is Some <==> j is Bool,
        j matches JsonView::Bool(b) ==> <bool as Codec>::from_view(j) == Some(b),
        <i64 as Codec>::from_view(j) is Some <==> (j matches JsonView::Number(
            NumberView::Integer(i),
        ) && -0x8000_0000_0000_0000 <= i < 0x8000_0000_0000_0000),
        <i64 as Codec>::from_view(j) matches Some(n) ==> j == JsonView::Number(
            NumberView::Integer(n as int),
        ),
        <u64 as Codec>::from_view(j) is Some <==> (j matches JsonView::Number(
            NumberView::Integer(i),
        ) && 0 <= i < 0x1_0000_0000_0000_0000),
        <u64 as Codec>::from_view(j) matches Some(n) ==> j == JsonView::Number(
            NumberView::Integer(n as int),
        ),
        <u32 as Codec>::from_view(j) is Some <==> (j matches JsonView::Number(
            NumberView::Integer(i),
        ) && 0 <= i < 0x1_0000_0000),
        <u32 as Codec>::from_view(j) matches Some(n) ==> j == JsonView::Number(
            NumberView::Integer(n as int),
        ),
        <u8 as Codec>::from_view(j) is Some <==> (j matches JsonView::Number(
            NumberView::Integer(i),
        ) && 0 <= i < 256),
        <u8 as Codec>::from_view(j) matches Some(n) ==> j == JsonView::Number(
            NumberView::Integer(n as int),
        ),
{
}

/// A list is read where all its elements are, each as what it records.
pub proof fn lists_as_recorded<T: Codec>(j: JsonView)
    ensures
        <Vec<T> as Codec>::from_view(j) is Some <==> (j matches JsonView::Array(list) && forall|
            i: int,
        |
            0 <= i < list.len() ==> T::from_view(#[trigger] list[i]) is Some),
        <Vec<T> as Codec>::from_view(j) matches Some(r) ==> (j matches JsonView::Array(list)
            && r.len() == list.len() && forall|i: int|
            0 <= i < list.len() ==> T::from_view(#[trigger] list[i]) == Some(r[i])),
{
}

/// A map is read where all the members of an object are, each under its name; of two
/// under one name the later counts.
pub proof fn maps_as_recorded<T: Codec>(members: Seq<(Seq<char>, JsonView)>, i: int)
    requires
        0 <= i < members.len(),
    ensures
        <TextMap<T> as Codec>::from_view(JsonView::Object(members)) matches Some(r) ==> {
            &&& T::from_view(members[i].1) is Some
            &&& r.dom().contains(members[i].0)
            &&& (forall|k: int| i < k < members.len() ==> (#[trigger] members[k]).0
                != members[i].0) ==> T::from_view(members[i].1) == Some(r[members[i].0])
        },
    decreases members.len(),
{
    let init = members.drop_last();
    if i < init.len() {
        maps_as_recorded::<T>(init, i);
        assert(init[i] == members[i]);
        if forall|k: int| i < k < members.len() ==> (#[trigger] members[k]).0 != members[i].0 {
            assert(members[members.len() - 1].0 != members[i].0);
            assert forall|k: int| i < k < init.len() implies (#[trigger] init[k]).0
                != members[i].0 by {
                assert(init[k] == members[k]);
            }
        }
    }
}

/// What has become of an offer, and what a ballot is for, are recorded by name.
pub proof fn names_as_recorded(name: Seq<char>)
    ensures
        <HandoffDisposition as Codec>::from_view(JsonView::Text("Offered"@)) == Some(
            HandoffDisposition::Offered,
        ),
        <HandoffDisposition as Codec>::from_view(JsonView::Text("Accepted"@)) == Some(
            HandoffDisposition::Accepted,
        ),
        <HandoffDisposition as Codec>::from_view(JsonView::Text("Declined"@)) == Some(
            HandoffDisposition::Declined,
        ),
        name != "Offered"@ && name != "Accepted"@ && name != "Declined"@ ==> <
            HandoffDisposition as Codec>::from_view(JsonView::Text(name)) is None,
        <BallotChoice as Codec>::from_view(JsonView::Text("Approve"@)) == Some(
            BallotChoice::Approve,
        ),
        <BallotChoice as Codec>::from_view(JsonView::Text("Reject"@)) == Some(BallotChoice::Reject),
        <BallotChoice as Codec>::from_view(JsonView::Text("Abstain"@)) == Some(
            BallotChoice::Abstain,
        ),
        name != "Approve"@ && name != "Reject"@ && name != "Abstain"@ ==> <
            BallotChoice as Codec>::from_view(JsonView::Text(name)) is None,
{
    <HandoffDisposition as Codec>::reads_back(HandoffDisposition::Offered);
    <HandoffDisposition as Codec>::reads_back(HandoffDisposition::Accepted);
    <HandoffDisposition as Codec>::reads_back(HandoffDisposition::Declined);
    <BallotChoice as Codec>::reads_back(BallotChoice::Approve);
    <BallotChoice as Codec>::reads_back(BallotChoice::Reject);
    <BallotChoice as Codec>::reads_back(BallotChoice::Abstain);
}

} // verus!
