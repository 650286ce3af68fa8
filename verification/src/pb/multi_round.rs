//! The payload of the multi-round mode.

use crate::wire::{
    all_text, decode_fields, defaults_are_not_written, fields_bytes, fields_read_back, get_text,
    joined, joined_known, read_fields, text_field, text_fields, text_segment, varint, writable,
    Field, FieldView, Kind, Writer,
};
use vstd::prelude::*;
use vstd::utf8::encode_utf8;

verus! {

/// A contribution to the current round.
#[derive(Clone, Debug, PartialEq, Eq)]
pub struct ContributePayload {
    pub value: String,
}

/// What a [`ContributePayload`] holds.
pub struct ContributePayloadView {
    pub value: Seq<char>,
}

impl DeepView for ContributePayload {
    type V = ContributePayloadView;

    open spec fn deep_view(&self) -> ContributePayloadView {
        ContributePayloadView {
            value: self.value@,
        }
    }
}

impl Default for ContributePayload {
    fn default() -> (r: Self)
        ensures
            r.deep_view() == (ContributePayloadView {
                value: seq![],
            }),
    {
        ContributePayload {
            value: String::new(),
        }
    }
}

impl ContributePayload {
    /// The kinds of the fields, by tag.
    pub open spec fn kinds() -> Seq<Kind> {
        seq![Kind::Chunk]
    }

    /// The fields that write the message, by tag.
    pub open spec fn segments(v: ContributePayloadView) -> Seq<Seq<FieldView>> {
        seq![
            text_fields(1, v.value),
        ]
    }

    /// The bytes that write the message.
    pub open spec fn bytes(v: ContributePayloadView) -> Seq<u8> {
        fields_bytes(joined(Self::segments(v)))
    }

    /// The message that the fields write.
    pub open spec fn from_fields(f: Seq<FieldView>) -> Option<ContributePayloadView> {
        if all_text(f, 1) {
            Some(
                ContributePayloadView {
                    value: text_field(f, 1),
                },
            )
        } else {
            None
        }
    }

    /// The message that the bytes write, and `None` where they write none.
    pub open spec fn from_bytes(b: Seq<u8>) -> Option<ContributePayloadView> {
        match read_fields(b, Self::kinds()) {
            Some(f) => Self::from_fields(f),
            None => None,
        }
    }

    /// Reads the message from the bytes.
    pub fn decode(bytes: &[u8]) -> (r: Option<ContributePayload>)
        ensures
            r is Some <==> Self::from_bytes(bytes@) is Some,
            r is Some ==> r->0.deep_view() == Self::from_bytes(bytes@)->0,
    {
        let kinds: [Kind; 1] = [Kind::Chunk];
        assert(kinds@ =~= Self::kinds());
        let f: Vec<Field> = match decode_fields(bytes, &kinds) {
            Some(f) => f,
            None => return None,
        };
        let value: String = match get_text(&f, 1) {
            Some(s) => s,
            None => return None,
        };
        Some(
            ContributePayload {
                value,
            },
        )
    }

    /// Writes the message. It reads back from the bytes.
    pub fn encode_to_vec(&self) -> (r: Vec<u8>)
        ensures
            r@ == Self::bytes(self.deep_view()),
            Self::from_bytes(r@) == Some(self.deep_view()),
    {
        let w: Writer = Writer::new()
            .text(1, self.value.as_str());
        assert(w.segments() =~= Self::segments(self.deep_view()));
        let r: Vec<u8> = w.finish();
        proof {
            Self::reads_back(self.deep_view());
        }
        r
    }

    /// What the message writes reads back as the message, where the lengths of
    /// its chunks can be written.
    pub proof fn reads_back(v: ContributePayloadView)
        requires
            writable(joined(Self::segments(v))),
        ensures
            Self::from_bytes(Self::bytes(v)) == Some(v),
    {
        let s = Self::segments(v);
        joined_known(s, Self::kinds());
        fields_read_back(joined(s), Self::kinds());
        text_segment(s, 1, v.value);
    }
}
/// A contribution is written as one field, the first, with its value in UTF-8, and an
/// empty one as nothing at all.
pub proof fn contributions_are_one_field(value: Seq<char>)
    ensures
        value.len() == 0 ==> ContributePayload::bytes(ContributePayloadView { value }).len() == 0,
        value.len() > 0 ==> ContributePayload::bytes(ContributePayloadView { value }) == seq![10u8]
            + varint(encode_utf8(value).len()) + encode_utf8(value),
{
    let v = ContributePayloadView { value };
    let segments = ContributePayload::segments(v);
    defaults_are_not_written(1, value, Seq::empty(), 0, Seq::empty());
    reveal_with_fuel(joined, 2);
    assert(segments.drop_last() =~= Seq::empty());
    assert(joined(segments) =~= text_fields(1, value));
    if value.len() > 0 {
        let f = text_fields(1, value);
        reveal_with_fuel(fields_bytes, 2);
        assert(f.drop_first() =~= Seq::empty());
        assert(varint(10) =~= seq![10u8]);
        assert(fields_bytes(f) =~= seq![10u8] + varint(encode_utf8(value).len()) + encode_utf8(
            value,
        ));
    }
}

} // verus!
