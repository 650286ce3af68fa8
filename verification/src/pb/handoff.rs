//! The payloads of the handoff mode.

use crate::wire::{
    all_text, bool_number, bytes_field, bytes_fields, bytes_segment, decode_fields, fields_bytes,
    fields_read_back, get_bytes, get_number, get_text, joined, joined_known, number_field,
    number_fields, number_of_bool, number_segment, read_fields, text_field, text_fields,
    text_segment, writable, Field, FieldView, Kind, Writer,
};
use vstd::prelude::*;

verus! {

/// An offer to hand responsibility over to a participant.
#[derive(Clone, Debug, PartialEq, Eq)]
pub struct HandoffOfferPayload {
    pub handoff_id: String,
    pub target_participant: String,
    pub scope: String,
    pub reason: String,
}

/// What a [`HandoffOfferPayload`] holds.
pub struct HandoffOfferPayloadView {
    pub handoff_id: Seq<char>,
    pub target_participant: Seq<char>,
    pub scope: Seq<char>,
    pub reason: Seq<char>,
}

impl DeepView for HandoffOfferPayload {
    type V = HandoffOfferPayloadView;

    open spec fn deep_view(&self) -> HandoffOfferPayloadView {
        HandoffOfferPayloadView {
            handoff_id: self.handoff_id@,
            target_participant: self.target_participant@,
            scope: self.scope@,
            reason: self.reason@,
        }
    }
}

impl Default for HandoffOfferPayload {
    fn default() -> (r: Self)
        ensures
            r.deep_view() == (HandoffOfferPayloadView {
                handoff_id: seq![],
                target_participant: seq![],
                scope: seq![],
                reason: seq![],
            }),
    {
        HandoffOfferPayload {
            handoff_id: String::new(),
            target_participant: String::new(),
            scope: String::new(),
            reason: String::new(),
        }
    }
}

impl HandoffOfferPayload {
    /// The kinds of the fields, by tag.
    pub open spec fn kinds() -> Seq<Kind> {
        seq![Kind::Chunk, Kind::Chunk, Kind::Chunk, Kind::Chunk]
    }

    /// The fields that write the message, by tag.
    pub open spec fn segments(v: HandoffOfferPayloadView) -> Seq<Seq<FieldView>> {
        seq![
            text_fields(1, v.handoff_id),
            text_fields(2, v.target_participant),
            text_fields(3, v.scope),
            text_fields(4, v.reason),
        ]
    }

    /// The bytes that write the message.
    pub open spec fn bytes(v: HandoffOfferPayloadView) -> Seq<u8> {
        fields_bytes(joined(Self::segments(v)))
    }

    /// The message that the fields write.
    pub open spec fn from_fields(f: Seq<FieldView>) -> Option<HandoffOfferPayloadView> {
        if all_text(f, 1) && all_text(f, 2) && all_text(f, 3) && all_text(f, 4) {
            Some(
                HandoffOfferPayloadView {
                    handoff_id: text_field(f, 1),
                    target_participant: text_field(f, 2),
                    scope: text_field(f, 3),
                    reason: text_field(f, 4),
                },
            )
        } else {
            None
        }
    }

    /// The message that the bytes write, and `None` where they write none.
    pub open spec fn from_bytes(b: Seq<u8>) -> Option<HandoffOfferPayloadView> {
        match read_fields(b, Self::kinds()) {
            Some(f) => Self::from_fields(f),
            None => None,
        }
    }

    /// Reads the message from the bytes.
    pub fn decode(bytes: &[u8]) -> (r: Option<HandoffOfferPayload>)
        ensures
            r is Some <==> Self::from_bytes(bytes@) is Some,
            r is Some ==> r->0.deep_view() == Self::from_bytes(bytes@)->0,
    {
        let kinds: [Kind; 4] = [Kind::Chunk, Kind::Chunk, Kind::Chunk, Kind::Chunk];
        assert(kinds@ =~= Self::kinds());
        let f: Vec<Field> = match decode_fields(bytes, &kinds) {
            Some(f) => f,
            None => return None,
        };
        let handoff_id: String = match get_text(&f, 1) {
            Some(s) => s,
            None => return None,
        };
        let target_participant: String = match get_text(&f, 2) {
            Some(s) => s,
            None => return None,
        };
        let scope: String = match get_text(&f, 3) {
            Some(s) => s,
            None => return None,
        };
        let reason: String = match get_text(&f, 4) {
            Some(s) => s,
            None => return None,
        };
        Some(
            HandoffOfferPayload {
                handoff_id,
                target_participant,
                scope,
                reason,
            },
        )
    }

    /// Writes the message. It reads back from the bytes.
    pub fn encode_to_vec(&self) -> (r: Vec<u8>)
        ensures
            r@ == Self::bytes(self.deep_view()),
            Self::from_bytes(r@) == Some(self.deep_view()),
    {
        let w: Writer = Writer::new()
            .text(1, self.handoff_id.as_str())
            .text(2, self.target_participant.as_str())
            .text(3, self.scope.as_str())
            .text(4, self.reason.as_str());
        assert(w.segments() =~= Self::segments(self.deep_view()));
        let r: Vec<u8> = w.finish();
        proof {
            Self::reads_back(self.deep_view());
        }
        r
    }

    /// What the message writes reads back as the message, where the lengths of
    /// its chunks can be written.
    pub proof fn reads_back(v: HandoffOfferPayloadView)
        requires
            writable(joined(Self::segments(v))),
        ensures
            Self::from_bytes(Self::bytes(v)) == Some(v),
    {
        let s = Self::segments(v);
        joined_known(s, Self::kinds());
        fields_read_back(joined(s), Self::kinds());
        text_segment(s, 1, v.handoff_id);
        text_segment(s, 2, v.target_participant);
        text_segment(s, 3, v.scope);
        text_segment(s, 4, v.reason);
    }
}

/// Context that the offerer attaches to an offer.
#[derive(Clone, Debug, PartialEq, Eq)]
pub struct HandoffContextPayload {
    pub handoff_id: String,
    pub content_type: String,
    pub context: Vec<u8>,
}

/// What a [`HandoffContextPayload`] holds.
pub struct HandoffContextPayloadView {
    pub handoff_id: Seq<char>,
    pub content_type: Seq<char>,
    pub context: Seq<u8>,
}

impl DeepView for HandoffContextPayload {
    type V = HandoffContextPayloadView;

    open spec fn deep_view(&self) -> HandoffContextPayloadView {
        HandoffContextPayloadView {
            handoff_id: self.handoff_id@,
            content_type: self.content_type@,
            context: self.context@,
        }
    }
}

impl Default for HandoffContextPayload {
    fn default() -> (r: Self)
        ensures
            r.deep_view() == (HandoffContextPayloadView {
                handoff_id: seq![],
                content_type: seq![],
                context: seq![],
            }),
    {
        HandoffContextPayload {
            handoff_id: String::new(),
            content_type: String::new(),
            context: Vec::new(),
        }
    }
}

impl HandoffContextPayload {
    /// The kinds of the fields, by tag.
    pub open spec fn kinds() -> Seq<Kind> {
        seq![Kind::Chunk, Kind::Chunk, Kind::Chunk]
    }

    /// The fields that write the message, by tag.
    pub open spec fn segments(v: HandoffContextPayloadView) -> Seq<Seq<FieldView>> {
        seq![
            text_fields(1, v.handoff_id),
            text_fields(2, v.content_type),
            bytes_fields(3, v.context),
        ]
    }

    /// The bytes that write the message.
    pub open spec fn bytes(v: HandoffContextPayloadView) -> Seq<u8> {
        fields_bytes(joined(Self::segments(v)))
    }

    /// The message that the fields write.
    pub open spec fn from_fields(f: Seq<FieldView>) -> Option<HandoffContextPayloadView> {
        if all_text(f, 1) && all_text(f, 2) {
            Some(
                HandoffContextPayloadView {
                    handoff_id: text_field(f, 1),
                    content_type: text_field(f, 2),
                    context: bytes_field(f, 3),
                },
            )
        } else {
            None
        }
    }

    /// The message that the bytes write, and `None` where they write none.
    pub open spec fn from_bytes(b: Seq<u8>) -> Option<HandoffContextPayloadView> {
        match read_fields(b, Self::kinds()) {
            Some(f) => Self::from_fields(f),
            None => None,
        }
    }

    /// Reads the message from the bytes.
    pub fn decode(bytes: &[u8]) -> (r: Option<HandoffContextPayload>)
        ensures
            r is Some <==> Self::from_bytes(bytes@) is Some,
            r is Some ==> r->0.deep_view() == Self::from_bytes(bytes@)->0,
    {
        let kinds: [Kind; 3] = [Kind::Chunk, Kind::Chunk, Kind::Chunk];
        assert(kinds@ =~= Self::kinds());
        let f: Vec<Field> = match decode_fields(bytes, &kinds) {
            Some(f) => f,
            None => return None,
        };
        let handoff_id: String = match get_text(&f, 1) {
            Some(s) => s,
            None => return None,
        };
        let content_type: String = match get_text(&f, 2) {
            Some(s) => s,
            None => return None,
        };
        Some(
            HandoffContextPayload {
                handoff_id,
                content_type,
                context: get_bytes(&f, 3),
            },
        )
    }

    /// Writes the message. It reads back from the bytes.
    pub fn encode_to_vec(&self) -> (r: Vec<u8>)
        ensures
            r@ == Self::bytes(self.deep_view()),
            Self::from_bytes(r@) == Some(self.deep_view()),
    {
        let w: Writer = Writer::new()
            .text(1, self.handoff_id.as_str())
            .text(2, self.content_type.as_str())
            .bytes(3, self.context.as_slice());
        assert(w.segments() =~= Self::segments(self.deep_view()));
        let r: Vec<u8> = w.finish();
        proof {
            Self::reads_back(self.deep_view());
        }
        r
    }

    /// What the message writes reads back as the message, where the lengths of
    /// its chunks can be written.
    pub proof fn reads_back(v: HandoffContextPayloadView)
        requires
            writable(joined(Self::segments(v))),
        ensures
            Self::from_bytes(Self::bytes(v)) == Some(v),
    {
        let s = Self::segments(v);
        joined_known(s, Self::kinds());
        fields_read_back(joined(s), Self::kinds());
        text_segment(s, 1, v.handoff_id);
        text_segment(s, 2, v.content_type);
        bytes_segment(s, 3, v.context);
    }
}

/// The acceptance of an offer. `implicit` is set on the acceptance that a timeout stands for.
#[derive(Clone, Debug, PartialEq, Eq)]
pub struct HandoffAcceptPayload {
    pub handoff_id: String,
    pub accepted_by: String,
    pub reason: String,
    pub implicit: bool,
}

/// What a [`HandoffAcceptPayload`] holds.
pub struct HandoffAcceptPayloadView {
    pub handoff_id: Seq<char>,
    pub accepted_by: Seq<char>,
    pub reason: Seq<char>,
    pub implicit: bool,
}

impl DeepView for HandoffAcceptPayload {
    type V = HandoffAcceptPayloadView;

    open spec fn deep_view(&self) -> HandoffAcceptPayloadView {
        HandoffAcceptPayloadView {
            handoff_id: self.handoff_id@,
            accepted_by: self.accepted_by@,
            reason: self.reason@,
            implicit: self.implicit,
        }
    }
}

impl Default for HandoffAcceptPayload {
    fn default() -> (r: Self)
        ensures
            r.deep_view() == (HandoffAcceptPayloadView {
                handoff_id: seq![],
                accepted_by: seq![],
                reason: seq![],
                implicit: false,
            }),
    {
        HandoffAcceptPayload {
            handoff_id: String::new(),
            accepted_by: String::new(),
            reason: String::new(),
            implicit: false,
        }
    }
}

impl HandoffAcceptPayload {
    /// The kinds of the fields, by tag.
    pub open spec fn kinds() -> Seq<Kind> {
        seq![Kind::Chunk, Kind::Chunk, Kind::Chunk, Kind::Number]
    }

    /// The fields that write the message, by tag.
    pub open spec fn segments(v: HandoffAcceptPayloadView) -> Seq<Seq<FieldView>> {
        seq![
            text_fields(1, v.handoff_id),
            text_fields(2, v.accepted_by),
            text_fields(3, v.reason),
            number_fields(4, number_of_bool(v.implicit)),
        ]
    }

    /// The bytes that write the message.
    pub open spec fn bytes(v: HandoffAcceptPayloadView) -> Seq<u8> {
        fields_bytes(joined(Self::segments(v)))
    }

    /// The message that the fields write.
    pub open spec fn from_fields(f: Seq<FieldView>) -> Option<HandoffAcceptPayloadView> {
        if all_text(f, 1) && all_text(f, 2) && all_text(f, 3) {
            Some(
                HandoffAcceptPayloadView {
                    handoff_id: text_field(f, 1),
                    accepted_by: text_field(f, 2),
                    reason: text_field(f, 3),
                    implicit: number_field(f, 4) != 0,
                },
            )
        } else {
            None
        }
    }

    /// The message that the bytes write, and `None` where they write none.
    pub open spec fn from_bytes(b: Seq<u8>) -> Option<HandoffAcceptPayloadView> {
        match read_fields(b, Self::kinds()) {
            Some(f) => Self::from_fields(f),
            None => None,
        }
    }

    /// Reads the message from the bytes.
    pub fn decode(bytes: &[u8]) -> (r: Option<HandoffAcceptPayload>)
        ensures
            r is Some <==> Self::from_bytes(bytes@) is Some,
            r is Some ==> r->0.deep_view() == Self::from_bytes(bytes@)->0,
    {
        let kinds: [Kind; 4] = [Kind::Chunk, Kind::Chunk, Kind::Chunk, Kind::Number];
        assert(kinds@ =~= Self::kinds());
        let f: Vec<Field> = match decode_fields(bytes, &kinds) {
            Some(f) => f,
            None => return None,
        };
        let handoff_id: String = match get_text(&f, 1) {
            Some(s) => s,
            None => return None,
        };
        let accepted_by: String = match get_text(&f, 2) {
            Some(s) => s,
            None => return None,
        };
        let reason: String = match get_text(&f, 3) {
            Some(s) => s,
            None => return None,
        };
        Some(
            HandoffAcceptPayload {
                handoff_id,
                accepted_by,
                reason,
                implicit: get_number(&f, 4) != 0,
            },
        )
    }

    /// Writes the message. It reads back from the bytes.
    pub fn encode_to_vec(&self) -> (r: Vec<u8>)
        ensures
            r@ == Self::bytes(self.deep_view()),
            Self::from_bytes(r@) == Some(self.deep_view()),
    {
        let w: Writer = Writer::new()
            .text(1, self.handoff_id.as_str())
            .text(2, self.accepted_by.as_str())
            .text(3, self.reason.as_str())
            .number(4, bool_number(self.implicit));
        assert(w.segments() =~= Self::segments(self.deep_view()));
        let r: Vec<u8> = w.finish();
        proof {
            Self::reads_back(self.deep_view());
        }
        r
    }

    /// What the message writes reads back as the message, where the lengths of
    /// its chunks can be written.
    pub proof fn reads_back(v: HandoffAcceptPayloadView)
        requires
            writable(joined(Self::segments(v))),
        ensures
            Self::from_bytes(Self::bytes(v)) == Some(v),
    {
        let s = Self::segments(v);
        joined_known(s, Self::kinds());
        fields_read_back(joined(s), Self::kinds());
        text_segment(s, 1, v.handoff_id);
        text_segment(s, 2, v.accepted_by);
        text_segment(s, 3, v.reason);
        number_segment(s, 4, number_of_bool(v.implicit));
    }
}

/// The refusal of an offer.
#[derive(Clone, Debug, PartialEq, Eq)]
pub struct HandoffDeclinePayload {
    pub handoff_id: String,
    pub declined_by: String,
    pub reason: String,
}

/// What a [`HandoffDeclinePayload`] holds.
pub struct HandoffDeclinePayloadView {
    pub handoff_id: Seq<char>,
    pub declined_by: Seq<char>,
    pub reason: Seq<char>,
}

impl DeepView for HandoffDeclinePayload {
    type V = HandoffDeclinePayloadView;

    open spec fn deep_view(&self) -> HandoffDeclinePayloadView {
        HandoffDeclinePayloadView {
            handoff_id: self.handoff_id@,
            declined_by: self.declined_by@,
            reason: self.reason@,
        }
    }
}

impl Default for HandoffDeclinePayload {
    fn default() -> (r: Self)
        ensures
            r.deep_view() == (HandoffDeclinePayloadView {
                handoff_id: seq![],
                declined_by: seq![],
                reason: seq![],
            }),
    {
        HandoffDeclinePayload {
            handoff_id: String::new(),
            declined_by: String::new(),
            reason: String::new(),
        }
    }
}

impl HandoffDeclinePayload {
    /// The kinds of the fields, by tag.
    pub open spec fn kinds() -> Seq<Kind> {
        seq![Kind::Chunk, Kind::Chunk, Kind::Chunk]
    }

    /// The fields that write the message, by tag.
    pub open spec fn segments(v: HandoffDeclinePayloadView) -> Seq<Seq<FieldView>> {
        seq![
            text_fields(1, v.handoff_id),
            text_fields(2, v.declined_by),
            text_fields(3, v.reason),
        ]
    }

    /// The bytes that write the message.
    pub open spec fn bytes(v: HandoffDeclinePayloadView) -> Seq<u8> {
        fields_bytes(joined(Self::segments(v)))
    }

    /// The message that the fields write.
    pub open spec fn from_fields(f: Seq<FieldView>) -> Option<HandoffDeclinePayloadView> {
        if all_text(f, 1) && all_text(f, 2) && all_text(f, 3) {
            Some(
                HandoffDeclinePayloadView {
                    handoff_id: text_field(f, 1),
                    declined_by: text_field(f, 2),
                    reason: text_field(f, 3),
                },
            )
        } else {
            None
        }
    }

    /// The message that the bytes write, and `None` where they write none.
    pub open spec fn from_bytes(b: Seq<u8>) -> Option<HandoffDeclinePayloadView> {
        match read_fields(b, Self::kinds()) {
            Some(f) => Self::from_fields(f),
            None => None,
        }
    }

    /// Reads the message from the bytes.
    pub fn decode(bytes: &[u8]) -> (r: Option<HandoffDeclinePayload>)
        ensures
            r is Some <==> Self::from_bytes(bytes@) is Some,
            r is Some ==> r->0.deep_view() == Self::from_bytes(bytes@)->0,
    {
        let kinds: [Kind; 3] = [Kind::Chunk, Kind::Chunk, Kind::Chunk];
        assert(kinds@ =~= Self::kinds());
        let f: Vec<Field> = match decode_fields(bytes, &kinds) {
            Some(f) => f,
            None => return None,
        };
        let handoff_id: String = match get_text(&f, 1) {
            Some(s) => s,
            None => return None,
        };
        let declined_by: String = match get_text(&f, 2) {
            Some(s) => s,
            None => return None,
        };
        let reason: String = match get_text(&f, 3) {
            Some(s) => s,
            None => return None,
        };
        Some(
            HandoffDeclinePayload {
                handoff_id,
                declined_by,
                reason,
            },
        )
    }

    /// Writes the message. It reads back from the bytes.
    pub fn encode_to_vec(&self) -> (r: Vec<u8>)
        ensures
            r@ == Self::bytes(self.deep_view()),
            Self::from_bytes(r@) == Some(self.deep_view()),
    {
        let w: Writer = Writer::new()
            .text(1, self.handoff_id.as_str())
            .text(2, self.declined_by.as_str())
            .text(3, self.reason.as_str());
        assert(w.segments() =~= Self::segments(self.deep_view()));
        let r: Vec<u8> = w.finish();
        proof {
            Self::reads_back(self.deep_view());
        }
        r
    }

    /// What the message writes reads back as the message, where the lengths of
    /// its chunks can be written.
    pub proof fn reads_back(v: HandoffDeclinePayloadView)
        requires
            writable(joined(Self::segments(v))),
        ensures
            Self::from_bytes(Self::bytes(v)) == Some(v),
    {
        let s = Self::segments(v);
        joined_known(s, Self::kinds());
        fields_read_back(joined(s), Self::kinds());
        text_segment(s, 1, v.handoff_id);
        text_segment(s, 2, v.declined_by);
        text_segment(s, 3, v.reason);
    }
}
} // verus!
