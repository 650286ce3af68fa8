//! The payloads of the quorum mode.

use crate::wire::{
    all_text, bytes_field, bytes_fields, bytes_segment, decode_fields, fields_bytes,
    fields_read_back, get_bytes, get_number, get_text, joined, joined_known, low_u32, number_field,
    number_fields, number_segment, read_fields, text_field, text_fields, text_segment, to_low_u32,
    writable, Field, FieldView, Kind, Writer,
};
use vstd::prelude::*;

verus! {

/// The request that the participants vote on.
#[derive(Clone, Debug, PartialEq, Eq)]
pub struct ApprovalRequestPayload {
    pub request_id: String,
    pub action: String,
    pub summary: String,
    pub details: Vec<u8>,
    pub required_approvals: u32,
}

/// What a [`ApprovalRequestPayload`] holds.
pub struct ApprovalRequestPayloadView {
    pub request_id: Seq<char>,
    pub action: Seq<char>,
    pub summary: Seq<char>,
    pub details: Seq<u8>,
    pub required_approvals: u32,
}

impl DeepView for ApprovalRequestPayload {
    type V = ApprovalRequestPayloadView;

    open spec fn deep_view(&self) -> ApprovalRequestPayloadView {
        ApprovalRequestPayloadView {
            request_id: self.request_id@,
            action: self.action@,
            summary: self.summary@,
            details: self.details@,
            required_approvals: self.required_approvals,
        }
    }
}

impl Default for ApprovalRequestPayload {
    fn default() -> (r: Self)
        ensures
            r.deep_view() == (ApprovalRequestPayloadView {
                request_id: seq![],
                action: seq![],
                summary: seq![],
                details: seq![],
                required_approvals: 0,
            }),
    {
        ApprovalRequestPayload {
            request_id: String::new(),
            action: String::new(),
            summary: String::new(),
            details: Vec::new(),
            required_approvals: 0,
        }
    }
}

impl ApprovalRequestPayload {
    /// The kinds of the fields, by tag.
    pub open spec fn kinds() -> Seq<Kind> {
        seq![Kind::Chunk, Kind::Chunk, Kind::Chunk, Kind::Chunk, Kind::Number]
    }

    /// The fields that write the message, by tag.
    pub open spec fn segments(v: ApprovalRequestPayloadView) -> Seq<Seq<FieldView>> {
        seq![
            text_fields(1, v.request_id),
            text_fields(2, v.action),
            text_fields(3, v.summary),
            bytes_fields(4, v.details),
            number_fields(5, v.required_approvals as u64),
        ]
    }

    /// The bytes that write the message.
    pub open spec fn bytes(v: ApprovalRequestPayloadView) -> Seq<u8> {
        fields_bytes(joined(Self::segments(v)))
    }

    /// The message that the fields write.
    pub open spec fn from_fields(f: Seq<FieldView>) -> Option<ApprovalRequestPayloadView> {
        if all_text(f, 1) && all_text(f, 2) && all_text(f, 3) {
            Some(
                ApprovalRequestPayloadView {
                    request_id: text_field(f, 1),
                    action: text_field(f, 2),
                    summary: text_field(f, 3),
                    details: bytes_field(f, 4),
                    required_approvals: low_u32(number_field(f, 5)),
                },
            )
        } else {
            None
        }
    }

    /// The message that the bytes write, and `None` where they write none.
    pub open spec fn from_bytes(b: Seq<u8>) -> Option<ApprovalRequestPayloadView> {
        match read_fields(b, Self::kinds()) {
            Some(f) => Self::from_fields(f),
            None => None,
        }
    }

    /// Reads the message from the bytes.
    pub fn decode(bytes: &[u8]) -> (r: Option<ApprovalRequestPayload>)
        ensures
            r is Some <==> Self::from_bytes(bytes@) is Some,
            r is Some ==> r->0.deep_view() == Self::from_bytes(bytes@)->0,
    {
        let kinds: [Kind; 5] = [Kind::Chunk, Kind::Chunk, Kind::Chunk, Kind::Chunk, Kind::Number];
        assert(kinds@ =~= Self::kinds());
        let f: Vec<Field> = match decode_fields(bytes, &kinds) {
            Some(f) => f,
            None => return None,
        };
        let request_id: String = match get_text(&f, 1) {
            Some(s) => s,
            None => return None,
        };
        let action: String = match get_text(&f, 2) {
            Some(s) => s,
            None => return None,
        };
        let summary: String = match get_text(&f, 3) {
            Some(s) => s,
            None => return None,
        };
        Some(
            ApprovalRequestPayload {
                request_id,
                action,
                summary,
                details: get_bytes(&f, 4),
                required_approvals: to_low_u32(get_number(&f, 5)),
            },
        )
    }

    /// Writes the message. It reads back from the bytes.
    pub fn encode_to_vec(&self) -> (r: Vec<u8>)
        ensures
            r@ == Self::bytes(self.deep_view()),
            Self::from_bytes(r@) == Some(self.deep_view()),
    {
        let w: Writer = Writer::new()
            .text(1, self.request_id.as_str())
            .text(2, self.action.as_str())
            .text(3, self.summary.as_str())
            .bytes(4, self.details.as_slice())
            .number(5, self.required_approvals as u64);
        assert(w.segments() =~= Self::segments(self.deep_view()));
        let r: Vec<u8> = w.finish();
        proof {
            Self::reads_back(self.deep_view());
        }
        r
    }

    /// What the message writes reads back as the message, where the lengths of
    /// its chunks can be written.
    pub proof fn reads_back(v: ApprovalRequestPayloadView)
        requires
            writable(joined(Self::segments(v))),
        ensures
            Self::from_bytes(Self::bytes(v)) == Some(v),
    {
        let s = Self::segments(v);
        joined_known(s, Self::kinds());
        fields_read_back(joined(s), Self::kinds());
        text_segment(s, 1, v.request_id);
        text_segment(s, 2, v.action);
        text_segment(s, 3, v.summary);
        bytes_segment(s, 4, v.details);
        number_segment(s, 5, v.required_approvals as u64);
    }
}

/// A vote for the request.
#[derive(Clone, Debug, PartialEq, Eq)]
pub struct ApprovePayload {
    pub request_id: String,
    pub reason: String,
}

/// What a [`ApprovePayload`] holds.
pub struct ApprovePayloadView {
    pub request_id: Seq<char>,
    pub reason: Seq<char>,
}

impl DeepView for ApprovePayload {
    type V = ApprovePayloadView;

    open spec fn deep_view(&self) -> ApprovePayloadView {
        ApprovePayloadView {
            request_id: self.request_id@,
            reason: self.reason@,
        }
    }
}

impl Default for ApprovePayload {
    fn default() -> (r: Self)
        ensures
            r.deep_view() == (ApprovePayloadView {
                request_id: seq![],
                reason: seq![],
            }),
    {
        ApprovePayload {
            request_id: String::new(),
            reason: String::new(),
        }
    }
}

impl ApprovePayload {
    /// The kinds of the fields, by tag.
    pub open spec fn kinds() -> Seq<Kind> {
        seq![Kind::Chunk, Kind::Chunk]
    }

    /// The fields that write the message, by tag.
    pub open spec fn segments(v: ApprovePayloadView) -> Seq<Seq<FieldView>> {
        seq![
            text_fields(1, v.request_id),
            text_fields(2, v.reason),
        ]
    }

    /// The bytes that write the message.
    pub open spec fn bytes(v: ApprovePayloadView) -> Seq<u8> {
        fields_bytes(joined(Self::segments(v)))
    }

    /// The message that the fields write.
    pub open spec fn from_fields(f: Seq<FieldView>) -> Option<ApprovePayloadView> {
        if all_text(f, 1) && all_text(f, 2) {
            Some(
                ApprovePayloadView {
                    request_id: text_field(f, 1),
                    reason: text_field(f, 2),
                },
            )
        } else {
            None
        }
    }

    /// The message that the bytes write, and `None` where they write none.
    pub open spec fn from_bytes(b: Seq<u8>) -> Option<ApprovePayloadView> {
        match read_fields(b, Self::kinds()) {
            Some(f) => Self::from_fields(f),
            None => None,
        }
    }

    /// Reads the message from the bytes.
    pub fn decode(bytes: &[u8]) -> (r: Option<ApprovePayload>)
        ensures
            r is Some <==> Self::from_bytes(bytes@) is Some,
            r is Some ==> r->0.deep_view() == Self::from_bytes(bytes@)->0,
    {
        let kinds: [Kind; 2] = [Kind::Chunk, Kind::Chunk];
        assert(kinds@ =~= Self::kinds());
        let f: Vec<Field> = match decode_fields(bytes, &kinds) {
            Some(f) => f,
            None => return None,
        };
        let request_id: String = match get_text(&f, 1) {
            Some(s) => s,
            None => return None,
        };
        let reason: String = match get_text(&f, 2) {
            Some(s) => s,
            None => return None,
        };
        Some(
            ApprovePayload {
                request_id,
                reason,
            },
        )
    }

    /// Writes the message. It reads back from the bytes.
    pub fn encode_to_vec(&self) -> (r: Vec<u8>)
        ensures
            r@ == Self::bytes(self.deep_view()),
            Self::from_bytes(r@) == Some(self.deep_view()),
    {
        let w: Writer = Writer::new()
            .text(1, self.request_id.as_str())
            .text(2, self.reason.as_str());
        assert(w.segments() =~= Self::segments(self.deep_view()));
        let r: Vec<u8> = w.finish();
        proof {
            Self::reads_back(self.deep_view());
        }
        r
    }

    /// What the message writes reads back as the message, where the lengths of
    /// its chunks can be written.
    pub proof fn reads_back(v: ApprovePayloadView)
        requires
            writable(joined(Self::segments(v))),
        ensures
            Self::from_bytes(Self::bytes(v)) == Some(v),
    {
        let s = Self::segments(v);
        joined_known(s, Self::kinds());
        fields_read_back(joined(s), Self::kinds());
        text_segment(s, 1, v.request_id);
        text_segment(s, 2, v.reason);
    }
}

/// A vote against the request.
#[derive(Clone, Debug, PartialEq, Eq)]
pub struct RejectPayload {
    pub request_id: String,
    pub reason: String,
}

/// What a [`RejectPayload`] holds.
pub struct RejectPayloadView {
    pub request_id: Seq<char>,
    pub reason: Seq<char>,
}

impl DeepView for RejectPayload {
    type V = RejectPayloadView;

    open spec fn deep_view(&self) -> RejectPayloadView {
        RejectPayloadView {
            request_id: self.request_id@,
            reason: self.reason@,
        }
    }
}

impl Default for RejectPayload {
    fn default() -> (r: Self)
        ensures
            r.deep_view() == (RejectPayloadView {
                request_id: seq![],
                reason: seq![],
            }),
    {
        RejectPayload {
            request_id: String::new(),
            reason: String::new(),
        }
    }
}

impl RejectPayload {
    /// The kinds of the fields, by tag.
    pub open spec fn kinds() -> Seq<Kind> {
        seq![Kind::Chunk, Kind::Chunk]
    }

    /// The fields that write the message, by tag.
    pub open spec fn segments(v: RejectPayloadView) -> Seq<Seq<FieldView>> {
        seq![
            text_fields(1, v.request_id),
            text_fields(2, v.reason),
        ]
    }

    /// The bytes that write the message.
    pub open spec fn bytes(v: RejectPayloadView) -> Seq<u8> {
        fields_bytes(joined(Self::segments(v)))
    }

    /// The message that the fields write.
    pub open spec fn from_fields(f: Seq<FieldView>) -> Option<RejectPayloadView> {
        if all_text(f, 1) && all_text(f, 2) {
            Some(
                RejectPayloadView {
                    request_id: text_field(f, 1),
                    reason: text_field(f, 2),
                },
            )
        } else {
            None
        }
    }

    /// The message that the bytes write, and `None` where they write none.
    pub open spec fn from_bytes(b: Seq<u8>) -> Option<RejectPayloadView> {
        match read_fields(b, Self::kinds()) {
            Some(f) => Self::from_fields(f),
            None => None,
        }
    }

    /// Reads the message from the bytes.
    pub fn decode(bytes: &[u8]) -> (r: Option<RejectPayload>)
        ensures
            r is Some <==> Self::from_bytes(bytes@) is Some,
            r is Some ==> r->0.deep_view() == Self::from_bytes(bytes@)->0,
    {
        let kinds: [Kind; 2] = [Kind::Chunk, Kind::Chunk];
        assert(kinds@ =~= Self::kinds());
        let f: Vec<Field> = match decode_fields(bytes, &kinds) {
            Some(f) => f,
            None => return None,
        };
        let request_id: String = match get_text(&f, 1) {
            Some(s) => s,
            None => return None,
        };
        let reason: String = match get_text(&f, 2) {
            Some(s) => s,
            None => return None,
        };
        Some(
            RejectPayload {
                request_id,
                reason,
            },
        )
    }

    /// Writes the message. It reads back from the bytes.
    pub fn encode_to_vec(&self) -> (r: Vec<u8>)
        ensures
            r@ == Self::bytes(self.deep_view()),
            Self::from_bytes(r@) == Some(self.deep_view()),
    {
        let w: Writer = Writer::new()
            .text(1, self.request_id.as_str())
            .text(2, self.reason.as_str());
        assert(w.segments() =~= Self::segments(self.deep_view()));
        let r: Vec<u8> = w.finish();
        proof {
            Self::reads_back(self.deep_view());
        }
        r
    }

    /// What the message writes reads back as the message, where the lengths of
    /// its chunks can be written.
    pub proof fn reads_back(v: RejectPayloadView)
        requires
            writable(joined(Self::segments(v))),
        ensures
            Self::from_bytes(Self::bytes(v)) == Some(v),
    {
        let s = Self::segments(v);
        joined_known(s, Self::kinds());
        fields_read_back(joined(s), Self::kinds());
        text_segment(s, 1, v.request_id);
        text_segment(s, 2, v.reason);
    }
}

/// An abstention from the vote.
#[derive(Clone, Debug, PartialEq, Eq)]
pub struct AbstainPayload {
    pub request_id: String,
    pub reason: String,
}

/// What a [`AbstainPayload`] holds.
pub struct AbstainPayloadView {
    pub request_id: Seq<char>,
    pub reason: Seq<char>,
}

impl DeepView for AbstainPayload {
    type V = AbstainPayloadView;

    open spec fn deep_view(&self) -> AbstainPayloadView {
        AbstainPayloadView {
            request_id: self.request_id@,
            reason: self.reason@,
        }
    }
}

impl Default for AbstainPayload {
    fn default() -> (r: Self)
        ensures
            r.deep_view() == (AbstainPayloadView {
                request_id: seq![],
                reason: seq![],
            }),
    {
        AbstainPayload {
            request_id: String::new(),
            reason: String::new(),
        }
    }
}

impl AbstainPayload {
    /// The kinds of the fields, by tag.
    pub open spec fn kinds() -> Seq<Kind> {
        seq![Kind::Chunk, Kind::Chunk]
    }

    /// The fields that write the message, by tag.
    pub open spec fn segments(v: AbstainPayloadView) -> Seq<Seq<FieldView>> {
        seq![
            text_fields(1, v.request_id),
            text_fields(2, v.reason),
        ]
    }

    /// The bytes that write the message.
    pub open spec fn bytes(v: AbstainPayloadView) -> Seq<u8> {
        fields_bytes(joined(Self::segments(v)))
    }

    /// The message that the fields write.
    pub open spec fn from_fields(f: Seq<FieldView>) -> Option<AbstainPayloadView> {
        if all_text(f, 1) && all_text(f, 2) {
            Some(
                AbstainPayloadView {
                    request_id: text_field(f, 1),
                    reason: text_field(f, 2),
                },
            )
        } else {
            None
        }
    }

    /// The message that the bytes write, and `None` where they write none.
    pub open spec fn from_bytes(b: Seq<u8>) -> Option<AbstainPayloadView> {
        match read_fields(b, Self::kinds()) {
            Some(f) => Self::from_fields(f),
            None => None,
        }
    }

    /// Reads the message from the bytes.
    pub fn decode(bytes: &[u8]) -> (r: Option<AbstainPayload>)
        ensures
            r is Some <==> Self::from_bytes(bytes@) is Some,
            r is Some ==> r->0.deep_view() == Self::from_bytes(bytes@)->0,
    {
        let kinds: [Kind; 2] = [Kind::Chunk, Kind::Chunk];
        assert(kinds@ =~= Self::kinds());
        let f: Vec<Field> = match decode_fields(bytes, &kinds) {
            Some(f) => f,
            None => return None,
        };
        let request_id: String = match get_text(&f, 1) {
            Some(s) => s,
            None => return None,
        };
        let reason: String = match get_text(&f, 2) {
            Some(s) => s,
            None => return None,
        };
        Some(
            AbstainPayload {
                request_id,
                reason,
            },
        )
    }

    /// Writes the message. It reads back from the bytes.
    pub fn encode_to_vec(&self) -> (r: Vec<u8>)
        ensures
            r@ == Self::bytes(self.deep_view()),
            Self::from_bytes(r@) == Some(self.deep_view()),
    {
        let w: Writer = Writer::new()
            .text(1, self.request_id.as_str())
            .text(2, self.reason.as_str());
        assert(w.segments() =~= Self::segments(self.deep_view()));
        let r: Vec<u8> = w.finish();
        proof {
            Self::reads_back(self.deep_view());
        }
        r
    }

    /// What the message writes reads back as the message, where the lengths of
    /// its chunks can be written.
    pub proof fn reads_back(v: AbstainPayloadView)
        requires
            writable(joined(Self::segments(v))),
        ensures
            Self::from_bytes(Self::bytes(v)) == Some(v),
    {
        let s = Self::segments(v);
        joined_known(s, Self::kinds());
        fields_read_back(joined(s), Self::kinds());
        text_segment(s, 1, v.request_id);
        text_segment(s, 2, v.reason);
    }
}
} // verus!
