//! What the messages hold, stated of the fields that write them: every field by its
//! tag.

use crate::pb::commitment::{CommitmentPayload, CommitmentRef};
use crate::pb::handoff::{
    HandoffAcceptPayload, HandoffContextPayload, HandoffDeclinePayload, HandoffOfferPayload,
};
use crate::pb::multi_round::ContributePayload;
use crate::pb::quorum::{AbstainPayload, ApprovalRequestPayload, ApprovePayload, RejectPayload};
use crate::pb::session_start::{extensions_of, ExtensionEntry, Root, SessionStartPayload};
use crate::wire::{
    all_text, chunk_list, contents, nested_one, read_fields, read_fields_at, ContentView,
    FieldView, Kind,
};
use vstd::prelude::*;
use vstd::utf8::{decode_utf8, encode_utf8, valid_utf8};

verus! {

/// Whether all contents are texts in UTF-8.
pub open spec fn is_utf8(list: Seq<ContentView>) -> bool {
    forall|i: int|
        0 <= i < list.len() ==> (#[trigger] list[i]) is Chunk && valid_utf8(list[i]->Chunk_0)
}

/// Whether the text is that of the last content, and empty where there is none.
pub open spec fn is_last_text(list: Seq<ContentView>, s: Seq<char>) -> bool {
    if list.len() == 0 {
        s.len() == 0
    } else {
        s == decode_utf8(list.last()->Chunk_0)
    }
}

/// Whether the bytes are those of the last content, and none where there is none.
pub open spec fn is_last_chunk(list: Seq<ContentView>, b: Seq<u8>) -> bool {
    if list.len() == 0 {
        b.len() == 0
    } else {
        list.last() is Chunk ==> b == list.last()->Chunk_0
    }
}

/// The number in the last content, and zero where there is none.
pub open spec fn last_number(list: Seq<ContentView>) -> int {
    if list.len() > 0 && list.last() is Number {
        list.last()->Number_0 as int
    } else {
        0
    }
}

proof fn nothing_is_no_text()
    ensures
        decode_utf8(Seq::<u8>::empty()).len() == 0,
{
    let none = Seq::<char>::empty();
    vstd::utf8::encode_utf8_decode_utf8(none);
    assert(encode_utf8(none) =~= Seq::<u8>::empty());
}

/// A request holds what the fields of its tags hold: of each the last one, and nothing for
/// one that is not there. It can be read exactly where its texts are texts.
pub proof fn requests_by_tag(b: Seq<u8>, f: Seq<FieldView>)
    requires
        read_fields(b, seq![
            Kind::Chunk,
            Kind::Chunk,
            Kind::Chunk,
            Kind::Chunk,
            Kind::Number,
        ]) == Some(f),
    ensures
        ApprovalRequestPayload::from_bytes(b) is Some <==> {
            &&& is_utf8(contents(f, 1))
            &&& is_utf8(contents(f, 2))
            &&& is_utf8(contents(f, 3))
        },
        ApprovalRequestPayload::from_bytes(b) matches Some(r) ==> {
            &&& is_last_text(contents(f, 1), r.request_id)
            &&& is_last_text(contents(f, 2), r.action)
            &&& is_last_text(contents(f, 3), r.summary)
            &&& is_last_chunk(contents(f, 4), r.details)
            &&& r.required_approvals == last_number(contents(f, 5)) % 0x1_0000_0000
        },
{
    nothing_is_no_text();
    assert(ApprovalRequestPayload::kinds() =~= seq![
        Kind::Chunk,
        Kind::Chunk,
        Kind::Chunk,
        Kind::Chunk,
        Kind::Number,
    ]);
}

/// An approval holds what the fields of its tags hold: of each the last one, and nothing for
/// one that is not there. It can be read exactly where its texts are texts.
pub proof fn approvals_by_tag(b: Seq<u8>, f: Seq<FieldView>)
    requires
        read_fields(b, seq![Kind::Chunk, Kind::Chunk]) == Some(f),
    ensures
        ApprovePayload::from_bytes(b) is Some <==> {
            &&& is_utf8(contents(f, 1))
            &&& is_utf8(contents(f, 2))
        },
        ApprovePayload::from_bytes(b) matches Some(r) ==> {
            &&& is_last_text(contents(f, 1), r.request_id)
            &&& is_last_text(contents(f, 2), r.reason)
        },
{
    nothing_is_no_text();
    assert(ApprovePayload::kinds() =~= seq![Kind::Chunk, Kind::Chunk]);
}

/// A rejection holds what the fields of its tags hold: of each the last one, and nothing for
/// one that is not there. It can be read exactly where its texts are texts.
pub proof fn rejections_by_tag(b: Seq<u8>, f: Seq<FieldView>)
    requires
        read_fields(b, seq![Kind::Chunk, Kind::Chunk]) == Some(f),
    ensures
        RejectPayload::from_bytes(b) is Some <==> {
            &&& is_utf8(contents(f, 1))
            &&& is_utf8(contents(f, 2))
        },
        RejectPayload::from_bytes(b) matches Some(r) ==> {
            &&& is_last_text(contents(f, 1), r.request_id)
            &&& is_last_text(contents(f, 2), r.reason)
        },
{
    nothing_is_no_text();
    assert(RejectPayload::kinds() =~= seq![Kind::Chunk, Kind::Chunk]);
}

/// An abstention holds what the fields of its tags hold: of each the last one, and nothing for
/// one that is not there. It can be read exactly where its texts are texts.
pub proof fn abstentions_by_tag(b: Seq<u8>, f: Seq<FieldView>)
    requires
        read_fields(b, seq![Kind::Chunk, Kind::Chunk]) == Some(f),
    ensures
        AbstainPayload::from_bytes(b) is Some <==> {
            &&& is_utf8(contents(f, 1))
            &&& is_utf8(contents(f, 2))
        },
        AbstainPayload::from_bytes(b) matches Some(r) ==> {
            &&& is_last_text(contents(f, 1), r.request_id)
            &&& is_last_text(contents(f, 2), r.reason)
        },
{
    nothing_is_no_text();
    assert(AbstainPayload::kinds() =~= seq![Kind::Chunk, Kind::Chunk]);
}

/// An offer holds what the fields of its tags hold: of each the last one, and nothing for
/// one that is not there. It can be read exactly where its texts are texts.
pub proof fn offers_by_tag(b: Seq<u8>, f: Seq<FieldView>)
    requires
        read_fields(b, seq![Kind::Chunk, Kind::Chunk, Kind::Chunk, Kind::Chunk]) == Some(f),
    ensures
        HandoffOfferPayload::from_bytes(b) is Some <==> {
            &&& is_utf8(contents(f, 1))
            &&& is_utf8(contents(f, 2))
            &&& is_utf8(contents(f, 3))
            &&& is_utf8(contents(f, 4))
        },
        HandoffOfferPayload::from_bytes(b) matches Some(r) ==> {
            &&& is_last_text(contents(f, 1), r.handoff_id)
            &&& is_last_text(contents(f, 2), r.target_participant)
            &&& is_last_text(contents(f, 3), r.scope)
            &&& is_last_text(contents(f, 4), r.reason)
        },
{
    nothing_is_no_text();
    assert(HandoffOfferPayload::kinds() =~= seq![
        Kind::Chunk,
        Kind::Chunk,
        Kind::Chunk,
        Kind::Chunk,
    ]);
}

/// Context holds what the fields of its tags hold: of each the last one, and nothing for
/// one that is not there. It can be read exactly where its texts are texts.
pub proof fn contexts_by_tag(b: Seq<u8>, f: Seq<FieldView>)
    requires
        read_fields(b, seq![Kind::Chunk, Kind::Chunk, Kind::Chunk]) == Some(f),
    ensures
        HandoffContextPayload::from_bytes(b) is Some <==> {
            &&& is_utf8(contents(f, 1))
            &&& is_utf8(contents(f, 2))
        },
        HandoffContextPayload::from_bytes(b) matches Some(r) ==> {
            &&& is_last_text(contents(f, 1), r.handoff_id)
            &&& is_last_text(contents(f, 2), r.content_type)
            &&& is_last_chunk(contents(f, 3), r.context)
        },
{
    nothing_is_no_text();
    assert(HandoffContextPayload::kinds() =~= seq![Kind::Chunk, Kind::Chunk, Kind::Chunk]);
}

/// An acceptance holds what the fields of its tags hold: of each the last one, and nothing for
/// one that is not there. It can be read exactly where its texts are texts.
pub proof fn acceptances_by_tag(b: Seq<u8>, f: Seq<FieldView>)
    requires
        read_fields(b, seq![Kind::Chunk, Kind::Chunk, Kind::Chunk, Kind::Number]) == Some(f),
    ensures
        HandoffAcceptPayload::from_bytes(b) is Some <==> {
            &&& is_utf8(contents(f, 1))
            &&& is_utf8(contents(f, 2))
            &&& is_utf8(contents(f, 3))
        },
        HandoffAcceptPayload::from_bytes(b) matches Some(r) ==> {
            &&& is_last_text(contents(f, 1), r.handoff_id)
            &&& is_last_text(contents(f, 2), r.accepted_by)
            &&& is_last_text(contents(f, 3), r.reason)
            &&& r.implicit <==> last_number(contents(f, 4)) != 0
        },
{
    nothing_is_no_text();
    assert(HandoffAcceptPayload::kinds() =~= seq![
        Kind::Chunk,
        Kind::Chunk,
        Kind::Chunk,
        Kind::Number,
    ]);
}

/// A refusal holds what the fields of its tags hold: of each the last one, and nothing for
/// one that is not there. It can be read exactly where its texts are texts.
pub proof fn refusals_by_tag(b: Seq<u8>, f: Seq<FieldView>)
    requires
        read_fields(b, seq![Kind::Chunk, Kind::Chunk, Kind::Chunk]) == Some(f),
    ensures
        HandoffDeclinePayload::from_bytes(b) is Some <==> {
            &&& is_utf8(contents(f, 1))
            &&& is_utf8(contents(f, 2))
            &&& is_utf8(contents(f, 3))
        },
        HandoffDeclinePayload::from_bytes(b) matches Some(r) ==> {
            &&& is_last_text(contents(f, 1), r.handoff_id)
            &&& is_last_text(contents(f, 2), r.declined_by)
            &&& is_last_text(contents(f, 3), r.reason)
        },
{
    nothing_is_no_text();
    assert(HandoffDeclinePayload::kinds() =~= seq![Kind::Chunk, Kind::Chunk, Kind::Chunk]);
}

/// A contribution holds what the fields of its tags hold: of each the last one, and nothing for
/// one that is not there. It can be read exactly where its texts are texts.
pub proof fn contributions_by_tag(b: Seq<u8>, f: Seq<FieldView>)
    requires
        read_fields(b, seq![Kind::Chunk]) == Some(f),
    ensures
        ContributePayload::from_bytes(b) is Some <==> {
            &&& is_utf8(contents(f, 1))
        },
        ContributePayload::from_bytes(b) matches Some(r) ==> {
            &&& is_last_text(contents(f, 1), r.value)
        },
{
    nothing_is_no_text();
    assert(ContributePayload::kinds() =~= seq![Kind::Chunk]);
}

/// A reference holds what the fields of its tags hold: of each the last one, and nothing for
/// one that is not there. It can be read exactly where its texts are texts.
pub proof fn references_by_tag(b: Seq<u8>, f: Seq<FieldView>)
    requires
        read_fields(b, seq![Kind::Chunk, Kind::Chunk]) == Some(f),
    ensures
        CommitmentRef::from_bytes(b) is Some <==> {
            &&& is_utf8(contents(f, 1))
            &&& is_utf8(contents(f, 2))
        },
        CommitmentRef::from_bytes(b) matches Some(r) ==> {
            &&& is_last_text(contents(f, 1), r.session_id)
            &&& is_last_text(contents(f, 2), r.commitment_hash)
        },
{
    nothing_is_no_text();
    assert(CommitmentRef::kinds() =~= seq![Kind::Chunk, Kind::Chunk]);
}

/// A commitment holds what the fields of its tags hold: of each the last one, and nothing for
/// one that is not there. It can be read only where its texts are texts.
pub proof fn commitments_by_tag(b: Seq<u8>, f: Seq<FieldView>)
    requires
        read_fields(b, seq![
            Kind::Chunk,
            Kind::Chunk,
            Kind::Chunk,
            Kind::Chunk,
            Kind::Chunk,
            Kind::Chunk,
            Kind::Chunk,
            Kind::Number,
            Kind::Chunk,
        ]) == Some(f),
    ensures
        CommitmentPayload::from_bytes(b) is Some ==> {
            &&& is_utf8(contents(f, 1))
            &&& is_utf8(contents(f, 2))
            &&& is_utf8(contents(f, 3))
            &&& is_utf8(contents(f, 4))
            &&& is_utf8(contents(f, 5))
            &&& is_utf8(contents(f, 6))
            &&& is_utf8(contents(f, 7))
        },
        CommitmentPayload::from_bytes(b) matches Some(r) ==> {
            &&& is_last_text(contents(f, 1), r.commitment_id)
            &&& is_last_text(contents(f, 2), r.action)
            &&& is_last_text(contents(f, 3), r.authority_scope)
            &&& is_last_text(contents(f, 4), r.reason)
            &&& is_last_text(contents(f, 5), r.mode_version)
            &&& is_last_text(contents(f, 6), r.policy_version)
            &&& is_last_text(contents(f, 7), r.configuration_version)
            &&& r.outcome_positive <==> last_number(contents(f, 8)) != 0
            &&& r.supersedes is None <==> contents(f, 9).len() == 0
        },
{
    nothing_is_no_text();
    assert(CommitmentPayload::kinds() =~= seq![
        Kind::Chunk,
        Kind::Chunk,
        Kind::Chunk,
        Kind::Chunk,
        Kind::Chunk,
        Kind::Chunk,
        Kind::Chunk,
        Kind::Number,
        Kind::Chunk,
    ]);
    if CommitmentPayload::from_bytes(b) is Some {
        assert(all_text(f, 1) && all_text(f, 2) && all_text(f, 3) && all_text(f, 4));
        assert(all_text(f, 5) && all_text(f, 6) && all_text(f, 7));
    }
}

/// A root holds what the fields of its tags hold: of each the last one, and nothing for
/// one that is not there. It can be read exactly where its texts are texts.
pub proof fn roots_by_tag(b: Seq<u8>, f: Seq<FieldView>)
    requires
        read_fields(b, seq![Kind::Chunk, Kind::Chunk]) == Some(f),
    ensures
        Root::from_bytes(b) is Some <==> {
            &&& is_utf8(contents(f, 1))
            &&& is_utf8(contents(f, 2))
        },
        Root::from_bytes(b) matches Some(r) ==> {
            &&& is_last_text(contents(f, 1), r.uri)
            &&& is_last_text(contents(f, 2), r.name)
        },
{
    nothing_is_no_text();
    assert(Root::kinds() =~= seq![Kind::Chunk, Kind::Chunk]);
}

/// An entry holds what the fields of its tags hold: of each the last one, and nothing for
/// one that is not there. It can be read exactly where its texts are texts.
pub proof fn entries_by_tag(b: Seq<u8>, f: Seq<FieldView>)
    requires
        read_fields_at(b, seq![Kind::Chunk, Kind::Chunk], true) == Some(f),
    ensures
        ExtensionEntry::from_bytes(b) is Some <==> {
            &&& is_utf8(contents(f, 1))
        },
        ExtensionEntry::from_bytes(b) matches Some(r) ==> {
            &&& is_last_text(contents(f, 1), r.key)
            &&& is_last_chunk(contents(f, 2), r.value)
        },
{
    nothing_is_no_text();
    assert(ExtensionEntry::kinds() =~= seq![Kind::Chunk, Kind::Chunk]);
}

/// A session start holds what the fields of its tags hold: of each the last one, and nothing for
/// one that is not there. It can be read only where its texts are texts.
pub proof fn session_starts_by_tag(b: Seq<u8>, f: Seq<FieldView>)
    requires
        read_fields(b, seq![
            Kind::Chunk,
            Kind::Chunk,
            Kind::Chunk,
            Kind::Chunk,
            Kind::Chunk,
            Kind::Number,
            Kind::Chunk,
            Kind::Chunk,
            Kind::Entry,
            Kind::Number,
        ]) == Some(f),
    ensures
        SessionStartPayload::from_bytes(b) is Some ==> {
            &&& is_utf8(contents(f, 1))
            &&& is_utf8(contents(f, 2))
            &&& is_utf8(contents(f, 3))
            &&& is_utf8(contents(f, 4))
            &&& is_utf8(contents(f, 5))
            &&& is_utf8(contents(f, 8))
        },
        SessionStartPayload::from_bytes(b) matches Some(r) ==> {
            &&& is_last_text(contents(f, 1), r.intent)
            &&& r.participants.len() == contents(f, 2).len() && forall|i: int|
                0 <= i < contents(f, 2).len() ==> #[trigger] r.participants[i] == decode_utf8(
                    contents(f, 2)[i]->Chunk_0,
                )
            &&& is_last_text(contents(f, 3), r.mode_version)
            &&& is_last_text(contents(f, 4), r.configuration_version)
            &&& is_last_text(contents(f, 5), r.policy_version)
            &&& last_number(contents(f, 6)) <= i64::MAX ==> r.ttl_ms == last_number(contents(f, 6))
            &&& last_number(contents(f, 6)) > i64::MAX ==> r.ttl_ms == last_number(contents(f, 6))
                - 0x1_0000_0000_0000_0000
            &&& r.roots.len() == contents(f, 7).len()
            &&& forall|i: int|
                0 <= i < contents(f, 7).len() ==> contents(f, 7)[i] is Chunk && Root::from_bytes_at(
                    contents(f, 7)[i]->Chunk_0,
                    true,
                ) == Some(#[trigger] r.roots[i])
            &&& is_last_text(contents(f, 8), r.context_id)
            &&& last_number(contents(f, 10)) <= i64::MAX ==> r.max_suspend_ms == last_number(
                contents(f, 10),
            )
            &&& last_number(contents(f, 10)) > i64::MAX ==> r.max_suspend_ms == last_number(
                contents(f, 10),
            ) - 0x1_0000_0000_0000_0000
        },
{
    nothing_is_no_text();
    assert(SessionStartPayload::kinds() =~= seq![
        Kind::Chunk,
        Kind::Chunk,
        Kind::Chunk,
        Kind::Chunk,
        Kind::Chunk,
        Kind::Number,
        Kind::Chunk,
        Kind::Chunk,
        Kind::Entry,
        Kind::Number,
    ]);
    if SessionStartPayload::from_bytes(b) is Some {
        let roots = chunk_list(f, 7);
        assert forall|i: int| 0 <= i < contents(f, 7).len() implies contents(f, 7)[i] is Chunk
            && Root::from_bytes_at(contents(f, 7)[i]->Chunk_0, true) == Some(
            #[trigger] SessionStartPayload::from_bytes(b)->0.roots[i],
        ) by {
            assert(roots[i] == contents(f, 7)[i]->Chunk_0);
        }
    }
}

/// What a commitment supersedes is what the one chunk for it writes.
pub proof fn superseded_by_tag(b: Seq<u8>, chunk: Seq<u8>)
    requires
        CommitmentPayload::from_bytes(b) is Some,
        read_fields(b, CommitmentPayload::kinds()) is Some,
        contents(read_fields(b, CommitmentPayload::kinds())->0, 9) == seq![
            ContentView::Chunk(chunk),
        ],
    ensures
        CommitmentPayload::from_bytes(b)->0.supersedes is Some,
        CommitmentPayload::from_bytes(b)->0.supersedes == CommitmentRef::from_inner(chunk),
{
    let f = read_fields(b, CommitmentPayload::kinds())->0;
    assert(chunk_list(f, 9) =~= seq![chunk]);
    nested_one(chunk, CommitmentRef::kinds());
}

/// Every extension block is there under its key, and of two for one key the later
/// counts.
pub proof fn extensions_by_key(chunks: Seq<Seq<u8>>, i: int)
    requires
        extensions_of(chunks) is Some,
        0 <= i < chunks.len(),
    ensures
        ExtensionEntry::from_bytes(chunks[i]) is Some,
        ({
            let entry = ExtensionEntry::from_bytes(chunks[i])->0;
            &&& extensions_of(chunks)->0.dom().contains(entry.key)
            &&& (forall|k: int|
                i < k < chunks.len() ==> ExtensionEntry::from_bytes(#[trigger] chunks[k])->0.key
                    != entry.key) ==> extensions_of(chunks)->0[entry.key] == entry.value
        }),
    decreases chunks.len(),
{
    if i < chunks.len() - 1 {
        let init = chunks.drop_last();
        extensions_by_key(init, i);
        let entry = ExtensionEntry::from_bytes(chunks[i])->0;
        assert(init[i] == chunks[i]);
        if forall|k: int|
            i < k < chunks.len() ==> ExtensionEntry::from_bytes(#[trigger] chunks[k])->0.key
                != entry.key {
            assert(ExtensionEntry::from_bytes(chunks[chunks.len() - 1])->0.key != entry.key);
            assert forall|k: int| i < k < init.len() implies ExtensionEntry::from_bytes(
                #[trigger] init[k],
            )->0.key != entry.key by {
                assert(init[k] == chunks[k]);
            }
        }
    }
}

} // verus!
