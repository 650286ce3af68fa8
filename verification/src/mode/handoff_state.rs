//! The state of the handoff mode and its record.

use crate::codec::{
    defaulted, optional, optional_json, read_defaulted, read_optional, read_required,
    readable_deeper, required, write_optional, Codec,
};
use crate::json::{
    distinct_keys, is_record, member_at, readable, variant_of, write_text, JsonView, Members,
};
use crate::json_text::{read_variant_text, Fields};
use crate::text::same;
use crate::text_map::TextMap;
use vstd::prelude::*;

verus! {

/// What has become of an offer.
#[derive(Debug, Clone, Copy, PartialEq, Eq, Structural)]
pub enum HandoffDisposition {
    Offered,
    Accepted,
    Declined,
}

impl DeepView for HandoffDisposition {
    type V = HandoffDisposition;

    open spec fn deep_view(&self) -> HandoffDisposition {
        *self
    }
}

impl HandoffDisposition {
    /// The name that records the value.
    pub open spec fn name(self) -> Seq<char> {
        match self {
            HandoffDisposition::Offered => "Offered"@,
            HandoffDisposition::Accepted => "Accepted"@,
            HandoffDisposition::Declined => "Declined"@,
        }
    }
}

impl Codec for HandoffDisposition {
    open spec fn json(v: HandoffDisposition) -> JsonView {
        JsonView::Text(v.name())
    }

    open spec fn from_view(j: JsonView) -> Option<HandoffDisposition> {
        match variant_of(j) {
            Some(name) => 
            if name == "Offered"@ {
                Some(HandoffDisposition::Offered)
            } else if name == "Accepted"@ {
                Some(HandoffDisposition::Accepted)
            } else if name == "Declined"@ {
                Some(HandoffDisposition::Declined)
            } else {
                None
            },
            None => None,
        }
    }

    open spec fn depth() -> nat {
        0
    }

    open spec fn valid(v: HandoffDisposition) -> bool {
        true
    }

    proof fn reads_back(v: HandoffDisposition) {
        reveal_strlit("Offered");
        reveal_strlit("Accepted");
        reveal_strlit("Declined");
        assert("Accepted"@[0] != "Declined"@[0]);
    }

    fn to_json(&self) -> (r: serde_json::Value) {
        match self {
            HandoffDisposition::Offered => write_text("Offered"),
            HandoffDisposition::Accepted => write_text("Accepted"),
            HandoffDisposition::Declined => write_text("Declined"),
        }
    }

    fn from_text(bytes: &[u8]) -> (r: Option<Self>) {
        match read_variant_text(bytes) {
            Some(name) => {
                if same(name.as_str(), "Offered") {
                    Some(HandoffDisposition::Offered)
                } else if same(name.as_str(), "Accepted") {
                    Some(HandoffDisposition::Accepted)
                } else if same(name.as_str(), "Declined") {
                    Some(HandoffDisposition::Declined)
                } else {
                    None
                }
            },
            None => None,
        }
    }
}

/// An offer on record.
#[derive(Clone, Debug)]
pub struct HandoffOfferRecord {
    pub handoff_id: String,
    pub target_participant: String,
    pub scope: String,
    pub reason: String,
    pub offered_by: String,
    pub disposition: HandoffDisposition,
    pub accepted_by: Option<String>,
    pub declined_by: Option<String>,
    pub outcome_reason: Option<String>,
    /// When the offer was made.
    pub offered_at_ms: i64,
    /// How long the session had been suspended when the offer was made.
    pub suspended_ms_at_offer: i64,
}

/// What a [`HandoffOfferRecord`] holds.
#[verifier::ext_equal]
pub struct HandoffOfferRecordView {
    pub handoff_id: Seq<char>,
    pub target_participant: Seq<char>,
    pub scope: Seq<char>,
    pub reason: Seq<char>,
    pub offered_by: Seq<char>,
    pub disposition: HandoffDisposition,
    pub accepted_by: Option<Seq<char>>,
    pub declined_by: Option<Seq<char>>,
    pub outcome_reason: Option<Seq<char>>,
    pub offered_at_ms: i64,
    pub suspended_ms_at_offer: i64,
}

impl DeepView for HandoffOfferRecord {
    type V = HandoffOfferRecordView;

    open spec fn deep_view(&self) -> HandoffOfferRecordView {
        HandoffOfferRecordView {
            handoff_id: self.handoff_id@,
            target_participant: self.target_participant@,
            scope: self.scope@,
            reason: self.reason@,
            offered_by: self.offered_by@,
            disposition: self.disposition.deep_view(),
            accepted_by: self.accepted_by.deep_view(),
            declined_by: self.declined_by.deep_view(),
            outcome_reason: self.outcome_reason.deep_view(),
            offered_at_ms: self.offered_at_ms,
            suspended_ms_at_offer: self.suspended_ms_at_offer,
        }
    }
}

impl HandoffOfferRecord {
    /// The members of the object that records the value.
    pub open spec fn members(v: HandoffOfferRecordView) -> Seq<(Seq<char>, JsonView)> {
        seq![
            ("handoff_id"@, <String as Codec>::json(v.handoff_id)),
            ("target_participant"@, <String as Codec>::json(v.target_participant)),
            ("scope"@, <String as Codec>::json(v.scope)),
            ("reason"@, <String as Codec>::json(v.reason)),
            ("offered_by"@, <String as Codec>::json(v.offered_by)),
            ("disposition"@, <HandoffDisposition as Codec>::json(v.disposition)),
            ("accepted_by"@, optional_json::<String>(v.accepted_by)),
            ("declined_by"@, optional_json::<String>(v.declined_by)),
            ("outcome_reason"@, optional_json::<String>(v.outcome_reason)),
            ("offered_at_ms"@, <i64 as Codec>::json(v.offered_at_ms)),
            ("suspended_ms_at_offer"@, <i64 as Codec>::json(v.suspended_ms_at_offer)),
        ]
    }

    proof fn members_distinct(v: HandoffOfferRecordView)
        ensures
            distinct_keys(Self::members(v)),
    {
        reveal_strlit("handoff_id");
        reveal_strlit("target_participant");
        reveal_strlit("scope");
        reveal_strlit("reason");
        reveal_strlit("offered_by");
        reveal_strlit("disposition");
        reveal_strlit("accepted_by");
        reveal_strlit("declined_by");
        reveal_strlit("outcome_reason");
        reveal_strlit("offered_at_ms");
        reveal_strlit("suspended_ms_at_offer");
        assert("handoff_id"@.len() == 10);
        assert("target_participant"@.len() == 18);
        assert("scope"@.len() == 5);
        assert("reason"@.len() == 6);
        assert("offered_by"@.len() == 10);
        assert("disposition"@.len() == 11);
        assert("accepted_by"@.len() == 11);
        assert("declined_by"@.len() == 11);
        assert("outcome_reason"@.len() == 14);
        assert("offered_at_ms"@.len() == 13);
        assert("suspended_ms_at_offer"@.len() == 21);
        assert("handoff_id"@[0] != "offered_by"@[0]);
        assert("disposition"@[0] != "accepted_by"@[0]);
        assert("disposition"@[1] != "declined_by"@[1]);
        assert("accepted_by"@[0] != "declined_by"@[0]);
    }
}

impl Codec for HandoffOfferRecord {
    open spec fn json(v: HandoffOfferRecordView) -> JsonView {
        JsonView::Object(HandoffOfferRecord::members(v))
    }

    open spec fn from_view(j: JsonView) -> Option<HandoffOfferRecordView> {
        let handoff_id = required::<String>(j, 0, "handoff_id"@);
        let target_participant = required::<String>(j, 1, "target_participant"@);
        let scope = required::<String>(j, 2, "scope"@);
        let reason = required::<String>(j, 3, "reason"@);
        let offered_by = required::<String>(j, 4, "offered_by"@);
        let disposition = required::<HandoffDisposition>(j, 5, "disposition"@);
        let accepted_by = optional::<String>(j, 6, "accepted_by"@);
        let declined_by = optional::<String>(j, 7, "declined_by"@);
        let outcome_reason = optional::<String>(j, 8, "outcome_reason"@);
        let offered_at_ms = defaulted::<i64>(j, 9, "offered_at_ms"@, 0);
        let suspended_ms_at_offer = defaulted::<i64>(j, 10, "suspended_ms_at_offer"@, 0);
        if is_record(j, 11) && handoff_id is Some && target_participant is Some && scope is Some
            && reason is Some && offered_by is Some && disposition is Some && accepted_by is Some
            && declined_by is Some && outcome_reason is Some && offered_at_ms is Some
            && suspended_ms_at_offer is Some {
            Some(
                HandoffOfferRecordView {
                    handoff_id: handoff_id->0,
                    target_participant: target_participant->0,
                    scope: scope->0,
                    reason: reason->0,
                    offered_by: offered_by->0,
                    disposition: disposition->0,
                    accepted_by: accepted_by->0,
                    declined_by: declined_by->0,
                    outcome_reason: outcome_reason->0,
                    offered_at_ms: offered_at_ms->0,
                    suspended_ms_at_offer: suspended_ms_at_offer->0,
                },
            )
        } else {
            None
        }
    }

    open spec fn depth() -> nat {
        1
    }

    open spec fn valid(v: HandoffOfferRecordView) -> bool {
        &&& <String as Codec>::valid(v.handoff_id)
        &&& <String as Codec>::valid(v.target_participant)
        &&& <String as Codec>::valid(v.scope)
        &&& <String as Codec>::valid(v.reason)
        &&& <String as Codec>::valid(v.offered_by)
        &&& <HandoffDisposition as Codec>::valid(v.disposition)
        &&& v.accepted_by is Some ==> <String as Codec>::valid(v.accepted_by->0)
        &&& v.declined_by is Some ==> <String as Codec>::valid(v.declined_by->0)
        &&& v.outcome_reason is Some ==> <String as Codec>::valid(v.outcome_reason->0)
        &&& <i64 as Codec>::valid(v.offered_at_ms)
        &&& <i64 as Codec>::valid(v.suspended_ms_at_offer)
    }

    proof fn reads_back(v: HandoffOfferRecordView) {
        let m = HandoffOfferRecord::members(v);
        HandoffOfferRecord::members_distinct(v);
        member_at(m, 0);
        <String as Codec>::reads_back(v.handoff_id);
        readable_deeper(m[0].1, <String as Codec>::depth(), 0);
        member_at(m, 1);
        <String as Codec>::reads_back(v.target_participant);
        readable_deeper(m[1].1, <String as Codec>::depth(), 0);
        member_at(m, 2);
        <String as Codec>::reads_back(v.scope);
        readable_deeper(m[2].1, <String as Codec>::depth(), 0);
        member_at(m, 3);
        <String as Codec>::reads_back(v.reason);
        readable_deeper(m[3].1, <String as Codec>::depth(), 0);
        member_at(m, 4);
        <String as Codec>::reads_back(v.offered_by);
        readable_deeper(m[4].1, <String as Codec>::depth(), 0);
        member_at(m, 5);
        <HandoffDisposition as Codec>::reads_back(v.disposition);
        readable_deeper(m[5].1, <HandoffDisposition as Codec>::depth(), 0);
        member_at(m, 6);
        if v.accepted_by is Some {
            <String as Codec>::reads_back(v.accepted_by->0);
            readable_deeper(m[6].1, <String as Codec>::depth(), 0);
        }
        assert(readable(m[6].1, 0));
        member_at(m, 7);
        if v.declined_by is Some {
            <String as Codec>::reads_back(v.declined_by->0);
            readable_deeper(m[7].1, <String as Codec>::depth(), 0);
        }
        assert(readable(m[7].1, 0));
        member_at(m, 8);
        if v.outcome_reason is Some {
            <String as Codec>::reads_back(v.outcome_reason->0);
            readable_deeper(m[8].1, <String as Codec>::depth(), 0);
        }
        assert(readable(m[8].1, 0));
        member_at(m, 9);
        <i64 as Codec>::reads_back(v.offered_at_ms);
        readable_deeper(m[9].1, <i64 as Codec>::depth(), 0);
        member_at(m, 10);
        <i64 as Codec>::reads_back(v.suspended_ms_at_offer);
        readable_deeper(m[10].1, <i64 as Codec>::depth(), 0);
    }

    fn to_json(&self) -> (r: serde_json::Value) {
        let members: Members = Members::new()
            .with("handoff_id", self.handoff_id.to_json())
            .with("target_participant", self.target_participant.to_json())
            .with("scope", self.scope.to_json())
            .with("reason", self.reason.to_json())
            .with("offered_by", self.offered_by.to_json())
            .with("disposition", self.disposition.to_json())
            .with("accepted_by", write_optional(&self.accepted_by))
            .with("declined_by", write_optional(&self.declined_by))
            .with("outcome_reason", write_optional(&self.outcome_reason))
            .with("offered_at_ms", self.offered_at_ms.to_json())
            .with("suspended_ms_at_offer", self.suspended_ms_at_offer.to_json());
        assert(members@ =~= HandoffOfferRecord::members(self.deep_view()));
        proof {
            HandoffOfferRecord::members_distinct(self.deep_view());
        }
        members.finish()
    }

    fn from_text(bytes: &[u8]) -> (r: Option<Self>) {
        let record: Fields<'_> = match Fields::read(bytes, 11) {
            Some(record) => record,
            None => return None,
        };
        let handoff_id: String = match read_required::<String>(&record, 0, "handoff_id") {
            Some(x) => x,
            None => return None,
        };
        let target_participant: String = match read_required::<String>(&record, 1, "target_participant") {
            Some(x) => x,
            None => return None,
        };
        let scope: String = match read_required::<String>(&record, 2, "scope") {
            Some(x) => x,
            None => return None,
        };
        let reason: String = match read_required::<String>(&record, 3, "reason") {
            Some(x) => x,
            None => return None,
        };
        let offered_by: String = match read_required::<String>(&record, 4, "offered_by") {
            Some(x) => x,
            None => return None,
        };
        let disposition: HandoffDisposition = match read_required::<HandoffDisposition>(&record, 5, "disposition") {
            Some(x) => x,
            None => return None,
        };
        let accepted_by: Option<String> = match read_optional::<String>(&record, 6, "accepted_by") {
            Some(x) => x,
            None => return None,
        };
        let declined_by: Option<String> = match read_optional::<String>(&record, 7, "declined_by") {
            Some(x) => x,
            None => return None,
        };
        let outcome_reason: Option<String> = match read_optional::<String>(&record, 8, "outcome_reason") {
            Some(x) => x,
            None => return None,
        };
        let offered_at_ms: i64 = match read_defaulted::<i64>(&record, 9, "offered_at_ms", 0) {
            Some(x) => x,
            None => return None,
        };
        let suspended_ms_at_offer: i64 = match read_defaulted::<i64>(&record, 10, "suspended_ms_at_offer", 0) {
            Some(x) => x,
            None => return None,
        };
        Some(
            HandoffOfferRecord {
                handoff_id,
                target_participant,
                scope,
                reason,
                offered_by,
                disposition,
                accepted_by,
                declined_by,
                outcome_reason,
                offered_at_ms,
                suspended_ms_at_offer,
            },
        )
    }
}

/// Context on record.
#[derive(Clone, Debug)]
pub struct HandoffContextRecord {
    pub content_type: String,
    pub context: Vec<u8>,
    pub sender: String,
}

/// What a [`HandoffContextRecord`] holds.
#[verifier::ext_equal]
pub struct HandoffContextRecordView {
    pub content_type: Seq<char>,
    pub context: Seq<u8>,
    pub sender: Seq<char>,
}

impl DeepView for HandoffContextRecord {
    type V = HandoffContextRecordView;

    open spec fn deep_view(&self) -> HandoffContextRecordView {
        HandoffContextRecordView {
            content_type: self.content_type@,
            context: self.context.deep_view(),
            sender: self.sender@,
        }
    }
}

impl HandoffContextRecord {
    /// The members of the object that records the value.
    pub open spec fn members(v: HandoffContextRecordView) -> Seq<(Seq<char>, JsonView)> {
        seq![
            ("content_type"@, <String as Codec>::json(v.content_type)),
            ("context"@, <Vec<u8> as Codec>::json(v.context)),
            ("sender"@, <String as Codec>::json(v.sender)),
        ]
    }

    proof fn members_distinct(v: HandoffContextRecordView)
        ensures
            distinct_keys(Self::members(v)),
    {
        reveal_strlit("content_type");
        reveal_strlit("context");
        reveal_strlit("sender");
        assert("content_type"@.len() == 12);
        assert("context"@.len() == 7);
        assert("sender"@.len() == 6);
    }
}

impl Codec for HandoffContextRecord {
    open spec fn json(v: HandoffContextRecordView) -> JsonView {
        JsonView::Object(HandoffContextRecord::members(v))
    }

    open spec fn from_view(j: JsonView) -> Option<HandoffContextRecordView> {
        let content_type = required::<String>(j, 0, "content_type"@);
        let context = required::<Vec<u8>>(j, 1, "context"@);
        let sender = required::<String>(j, 2, "sender"@);
        if is_record(j, 3) && content_type is Some && context is Some && sender is Some {
            Some(
                HandoffContextRecordView {
                    content_type: content_type->0,
                    context: context->0,
                    sender: sender->0,
                },
            )
        } else {
            None
        }
    }

    open spec fn depth() -> nat {
        2
    }

    open spec fn valid(v: HandoffContextRecordView) -> bool {
        &&& <String as Codec>::valid(v.content_type)
        &&& <Vec<u8> as Codec>::valid(v.context)
        &&& <String as Codec>::valid(v.sender)
    }

    proof fn reads_back(v: HandoffContextRecordView) {
        let m = HandoffContextRecord::members(v);
        HandoffContextRecord::members_distinct(v);
        member_at(m, 0);
        <String as Codec>::reads_back(v.content_type);
        readable_deeper(m[0].1, <String as Codec>::depth(), 1);
        member_at(m, 1);
        <Vec<u8> as Codec>::reads_back(v.context);
        readable_deeper(m[1].1, <Vec<u8> as Codec>::depth(), 1);
        member_at(m, 2);
        <String as Codec>::reads_back(v.sender);
        readable_deeper(m[2].1, <String as Codec>::depth(), 1);
    }

    fn to_json(&self) -> (r: serde_json::Value) {
        let members: Members = Members::new()
            .with("content_type", self.content_type.to_json())
            .with("context", self.context.to_json())
            .with("sender", self.sender.to_json());
        assert(members@ =~= HandoffContextRecord::members(self.deep_view()));
        proof {
            HandoffContextRecord::members_distinct(self.deep_view());
        }
        members.finish()
    }

    fn from_text(bytes: &[u8]) -> (r: Option<Self>) {
        let record: Fields<'_> = match Fields::read(bytes, 3) {
            Some(record) => record,
            None => return None,
        };
        let content_type: String = match read_required::<String>(&record, 0, "content_type") {
            Some(x) => x,
            None => return None,
        };
        let context: Vec<u8> = match read_required::<Vec<u8>>(&record, 1, "context") {
            Some(x) => x,
            None => return None,
        };
        let sender: String = match read_required::<String>(&record, 2, "sender") {
            Some(x) => x,
            None => return None,
        };
        Some(
            HandoffContextRecord {
                content_type,
                context,
                sender,
            },
        )
    }
}

/// The state of a handoff session: its offers, and the context attached to them.
#[derive(Clone, Debug)]
pub struct HandoffState {
    pub offers: TextMap<HandoffOfferRecord>,
    pub contexts: TextMap<Vec<HandoffContextRecord>>,
}

/// What a [`HandoffState`] holds.
#[verifier::ext_equal]
pub struct HandoffStateView {
    pub offers: Map<Seq<char>, HandoffOfferRecordView>,
    pub contexts: Map<Seq<char>, Seq<HandoffContextRecordView>>,
}

impl DeepView for HandoffState {
    type V = HandoffStateView;

    open spec fn deep_view(&self) -> HandoffStateView {
        HandoffStateView {
            offers: self.offers.deep_view(),
            contexts: self.contexts.deep_view(),
        }
    }
}

impl Default for HandoffState {
    fn default() -> (r: Self)
        ensures
            r.deep_view() == (HandoffStateView { offers: Map::<Seq<char>, HandoffOfferRecordView>::empty(), contexts: Map::<Seq<char>, Seq<HandoffContextRecordView>>::empty() }),
    {
        HandoffState { offers: TextMap::new(), contexts: TextMap::new() }
    }
}

impl HandoffState {
    /// The members of the object that records the value.
    pub open spec fn members(v: HandoffStateView) -> Seq<(Seq<char>, JsonView)> {
        seq![
            ("offers"@, <TextMap<HandoffOfferRecord> as Codec>::json(v.offers)),
            ("contexts"@, <TextMap<Vec<HandoffContextRecord>> as Codec>::json(v.contexts)),
        ]
    }

    proof fn members_distinct(v: HandoffStateView)
        ensures
            distinct_keys(Self::members(v)),
    {
        reveal_strlit("offers");
        reveal_strlit("contexts");
        assert("offers"@.len() == 6);
        assert("contexts"@.len() == 8);
    }
}

impl Codec for HandoffState {
    open spec fn json(v: HandoffStateView) -> JsonView {
        JsonView::Object(HandoffState::members(v))
    }

    open spec fn from_view(j: JsonView) -> Option<HandoffStateView> {
        let offers = required::<TextMap<HandoffOfferRecord>>(j, 0, "offers"@);
        let contexts = required::<TextMap<Vec<HandoffContextRecord>>>(j, 1, "contexts"@);
        if is_record(j, 2) && offers is Some && contexts is Some {
            Some(
                HandoffStateView {
                    offers: offers->0,
                    contexts: contexts->0,
                },
            )
        } else {
            None
        }
    }

    open spec fn depth() -> nat {
        5
    }

    open spec fn valid(v: HandoffStateView) -> bool {
        &&& <TextMap<HandoffOfferRecord> as Codec>::valid(v.offers)
        &&& <TextMap<Vec<HandoffContextRecord>> as Codec>::valid(v.contexts)
    }

    proof fn reads_back(v: HandoffStateView) {
        let m = HandoffState::members(v);
        HandoffState::members_distinct(v);
        member_at(m, 0);
        <TextMap<HandoffOfferRecord> as Codec>::reads_back(v.offers);
        readable_deeper(m[0].1, <TextMap<HandoffOfferRecord> as Codec>::depth(), 4);
        member_at(m, 1);
        <TextMap<Vec<HandoffContextRecord>> as Codec>::reads_back(v.contexts);
        readable_deeper(m[1].1, <TextMap<Vec<HandoffContextRecord>> as Codec>::depth(), 4);
    }

    fn to_json(&self) -> (r: serde_json::Value) {
        let members: Members = Members::new()
            .with("offers", self.offers.to_json())
            .with("contexts", self.contexts.to_json());
        assert(members@ =~= HandoffState::members(self.deep_view()));
        proof {
            HandoffState::members_distinct(self.deep_view());
        }
        members.finish()
    }

    fn from_text(bytes: &[u8]) -> (r: Option<Self>) {
        let record: Fields<'_> = match Fields::read(bytes, 2) {
            Some(record) => record,
            None => return None,
        };
        let offers: TextMap<HandoffOfferRecord> = match read_required::<TextMap<HandoffOfferRecord>>(&record, 0, "offers") {
            Some(x) => x,
            None => return None,
        };
        let contexts: TextMap<Vec<HandoffContextRecord>> = match read_required::<TextMap<Vec<HandoffContextRecord>>>(&record, 1, "contexts") {
            Some(x) => x,
            None => return None,
        };
        Some(
            HandoffState {
                offers,
                contexts,
            },
        )
    }
}

} // verus!
