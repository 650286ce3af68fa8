//! The commitment that ends a session, and what it refers to.

use crate::wire::{
    all_chunks, all_text, bool_number, chunk_fields, chunk_list, chunks_segment, decode_fields,
    decode_nested, fields_bytes, fields_read_back, get_chunks, get_number, get_text, joined,
    joined_known, nested_fields, nested_one, number_field, number_fields, number_of_bool,
    number_segment, read_fields, read_fields_at, text_field, text_fields, text_segment, writable,
    Field, FieldView, Kind, Writer,
};
use vstd::prelude::*;

verus! {

/// A commitment of another session.
#[derive(Clone, Debug, PartialEq, Eq)]
pub struct CommitmentRef {
    pub session_id: String,
    pub commitment_hash: String,
}

/// What a [`CommitmentRef`] holds.
pub struct CommitmentRefView {
    pub session_id: Seq<char>,
    pub commitment_hash: Seq<char>,
}

impl DeepView for CommitmentRef {
    type V = CommitmentRefView;

    open spec fn deep_view(&self) -> CommitmentRefView {
        CommitmentRefView {
            session_id: self.session_id@,
            commitment_hash: self.commitment_hash@,
        }
    }
}

impl Default for CommitmentRef {
    fn default() -> (r: Self)
        ensures
            r.deep_view() == (CommitmentRefView {
                session_id: seq![],
                commitment_hash: seq![],
            }),
    {
        CommitmentRef {
            session_id: String::new(),
            commitment_hash: String::new(),
        }
    }
}

impl CommitmentRef {
    /// The kinds of the fields, by tag.
    pub open spec fn kinds() -> Seq<Kind> {
        seq![Kind::Chunk, Kind::Chunk]
    }

    /// The fields that write the message, by tag.
    pub open spec fn segments(v: CommitmentRefView) -> Seq<Seq<FieldView>> {
        seq![
            text_fields(1, v.session_id),
            text_fields(2, v.commitment_hash),
        ]
    }

    /// The bytes that write the message.
    pub open spec fn bytes(v: CommitmentRefView) -> Seq<u8> {
        fields_bytes(joined(Self::segments(v)))
    }

    /// The message that the fields write.
    pub open spec fn from_fields(f: Seq<FieldView>) -> Option<CommitmentRefView> {
        if all_text(f, 1) && all_text(f, 2) {
            Some(
                CommitmentRefView {
                    session_id: text_field(f, 1),
                    commitment_hash: text_field(f, 2),
                },
            )
        } else {
            None
        }
    }

    /// The message that the bytes write, and `None` where they write none.
    pub open spec fn from_bytes(b: Seq<u8>) -> Option<CommitmentRefView> {
        match read_fields(b, Self::kinds()) {
            Some(f) => Self::from_fields(f),
            None => None,
        }
    }

    /// The message that the bytes write within another.
    pub open spec fn from_inner(b: Seq<u8>) -> Option<CommitmentRefView> {
        match read_fields_at(b, Self::kinds(), true) {
            Some(f) => Self::from_fields(f),
            None => None,
        }
    }

    /// Reads the message from the bytes.
    pub fn decode(bytes: &[u8]) -> (r: Option<CommitmentRef>)
        ensures
            r is Some <==> Self::from_bytes(bytes@) is Some,
            r is Some ==> r->0.deep_view() == Self::from_bytes(bytes@)->0,
    {
        let kinds: [Kind; 2] = [Kind::Chunk, Kind::Chunk];
        assert(kinds@ =~= Self::kinds());
        let f: Vec<Field> = match decode_fields(bytes, &kinds) {
            Some(f) => f,
            None => return None,
        };
        let session_id: String = match get_text(&f, 1) {
            Some(s) => s,
            None => return None,
        };
        let commitment_hash: String = match get_text(&f, 2) {
            Some(s) => s,
            None => return None,
        };
        Some(
            CommitmentRef {
                session_id,
                commitment_hash,
            },
        )
    }

    /// Writes the message. It reads back from the bytes.
    pub fn encode_to_vec(&self) -> (r: Vec<u8>)
        ensures
            r@ == Self::bytes(self.deep_view()),
            Self::from_bytes(r@) == Some(self.deep_view()),
            Self::from_inner(r@) == Some(self.deep_view()),
    {
        let w: Writer = Writer::new()
            .text(1, self.session_id.as_str())
            .text(2, self.commitment_hash.as_str());
        assert(w.segments() =~= Self::segments(self.deep_view()));
        let r: Vec<u8> = w.finish();
        proof {
            Self::reads_back(self.deep_view());
        }
        r
    }

    /// What the message writes reads back as the message, by itself and within
    /// another, where the lengths of its chunks can be written.
    pub proof fn reads_back(v: CommitmentRefView)
        requires
            writable(joined(Self::segments(v))),
        ensures
            Self::from_bytes(Self::bytes(v)) == Some(v),
            Self::from_inner(Self::bytes(v)) == Some(v),
    {
        let s = Self::segments(v);
        joined_known(s, Self::kinds());
        fields_read_back(joined(s), Self::kinds());
        text_segment(s, 1, v.session_id);
        text_segment(s, 2, v.commitment_hash);
    }
}


/// The terminal message of a session: the outcome that was agreed.
#[derive(Clone, Debug, PartialEq, Eq)]
pub struct CommitmentPayload {
    pub commitment_id: String,
    pub action: String,
    pub authority_scope: String,
    pub reason: String,
    pub mode_version: String,
    pub policy_version: String,
    pub configuration_version: String,
    pub outcome_positive: bool,
    pub supersedes: Option<CommitmentRef>,
}

/// What a [`CommitmentPayload`] holds.
pub struct CommitmentPayloadView {
    pub commitment_id: Seq<char>,
    pub action: Seq<char>,
    pub authority_scope: Seq<char>,
    pub reason: Seq<char>,
    pub mode_version: Seq<char>,
    pub policy_version: Seq<char>,
    pub configuration_version: Seq<char>,
    pub outcome_positive: bool,
    pub supersedes: Option<CommitmentRefView>,
}

impl DeepView for CommitmentPayload {
    type V = CommitmentPayloadView;

    open spec fn deep_view(&self) -> CommitmentPayloadView {
        CommitmentPayloadView {
            commitment_id: self.commitment_id@,
            action: self.action@,
            authority_scope: self.authority_scope@,
            reason: self.reason@,
            mode_version: self.mode_version@,
            policy_version: self.policy_version@,
            configuration_version: self.configuration_version@,
            outcome_positive: self.outcome_positive,
            supersedes: self.supersedes.deep_view(),
        }
    }
}

impl Default for CommitmentPayload {
    fn default() -> (r: Self)
        ensures
            r.deep_view() == (CommitmentPayloadView {
                commitment_id: seq![],
                action: seq![],
                authority_scope: seq![],
                reason: seq![],
                mode_version: seq![],
                policy_version: seq![],
                configuration_version: seq![],
                outcome_positive: false,
                supersedes: None,
            }),
    {
        CommitmentPayload {
            commitment_id: String::new(),
            action: String::new(),
            authority_scope: String::new(),
            reason: String::new(),
            mode_version: String::new(),
            policy_version: String::new(),
            configuration_version: String::new(),
            outcome_positive: false,
            supersedes: None,
        }
    }
}

/// The reference that the chunks write: none where there is no chunk. The outer
/// `None` stands for chunks that write no reference.
pub open spec fn reference_of(chunks: Seq<Seq<u8>>) -> Option<Option<CommitmentRefView>> {
    if chunks.len() == 0 {
        Some(None)
    } else {
        match nested_fields(chunks, CommitmentRef::kinds()) {
            Some(f) => match CommitmentRef::from_fields(f) {
                Some(r) => Some(Some(r)),
                None => None,
            },
            None => None,
        }
    }
}

/// The chunks that write a reference.
pub open spec fn reference_chunks(r: Option<CommitmentRefView>) -> Seq<Seq<u8>> {
    match r {
        Some(r) => seq![CommitmentRef::bytes(r)],
        None => seq![],
    }
}

impl CommitmentPayload {
    /// The kinds of the fields, by tag.
    pub open spec fn kinds() -> Seq<Kind> {
        seq![
            Kind::Chunk,
            Kind::Chunk,
            Kind::Chunk,
            Kind::Chunk,
            Kind::Chunk,
            Kind::Chunk,
            Kind::Chunk,
            Kind::Number,
            Kind::Chunk,
        ]
    }

    /// The fields that write the message, by tag.
    pub open spec fn segments(v: CommitmentPayloadView) -> Seq<Seq<FieldView>> {
        seq![
            text_fields(1, v.commitment_id),
            text_fields(2, v.action),
            text_fields(3, v.authority_scope),
            text_fields(4, v.reason),
            text_fields(5, v.mode_version),
            text_fields(6, v.policy_version),
            text_fields(7, v.configuration_version),
            number_fields(8, number_of_bool(v.outcome_positive)),
            chunk_fields(9, reference_chunks(v.supersedes)),
        ]
    }

    /// The bytes that write the message.
    pub open spec fn bytes(v: CommitmentPayloadView) -> Seq<u8> {
        fields_bytes(joined(Self::segments(v)))
    }

    /// The message that the fields write.
    pub open spec fn from_fields(f: Seq<FieldView>) -> Option<CommitmentPayloadView> {
        if (forall|tag: u32| 1 <= tag <= 7 ==> #[trigger] all_text(f, tag)) && all_chunks(f, 9)
            && reference_of(chunk_list(f, 9)) is Some {
            Some(
                CommitmentPayloadView {
                    commitment_id: text_field(f, 1),
                    action: text_field(f, 2),
                    authority_scope: text_field(f, 3),
                    reason: text_field(f, 4),
                    mode_version: text_field(f, 5),
                    policy_version: text_field(f, 6),
                    configuration_version: text_field(f, 7),
                    outcome_positive: number_field(f, 8) != 0,
                    supersedes: reference_of(chunk_list(f, 9))->0,
                },
            )
        } else {
            None
        }
    }

    /// The message that the bytes write, and `None` where they write none.
    pub open spec fn from_bytes(b: Seq<u8>) -> Option<CommitmentPayloadView> {
        match read_fields(b, Self::kinds()) {
            Some(f) => Self::from_fields(f),
            None => None,
        }
    }

    fn decode_reference(f: &Vec<Field>) -> (r: Option<Option<CommitmentRef>>)
        ensures
            r is Some <==> all_chunks(f.deep_view(), 9) && reference_of(
                chunk_list(f.deep_view(), 9),
            ) is Some,
            r is Some ==> r->0.deep_view() == reference_of(chunk_list(f.deep_view(), 9))->0,
    {
        match get_chunks(f, 9) {
            None => None,
            Some(chunks) => {
                assert(chunks.deep_view().len() == chunks@.len());
                if chunks.len() == 0 {
                    return Some(None);
                }
                let kinds: [Kind; 2] = [Kind::Chunk, Kind::Chunk];
                assert(kinds@ =~= CommitmentRef::kinds());
                match decode_nested(&chunks, &kinds) {
                    None => None,
                    Some(nested) => {
                        match (get_text(&nested, 1), get_text(&nested, 2)) {
                            (Some(session_id), Some(commitment_hash)) => Some(
                                Some(CommitmentRef { session_id, commitment_hash }),
                            ),
                            _ => None,
                        }
                    },
                }
            },
        }
    }

    /// Reads the message from the bytes.
    pub fn decode(bytes: &[u8]) -> (r: Option<CommitmentPayload>)
        ensures
            r is Some <==> Self::from_bytes(bytes@) is Some,
            r is Some ==> r->0.deep_view() == Self::from_bytes(bytes@)->0,
    {
        let kinds: [Kind; 9] = [
            Kind::Chunk,
            Kind::Chunk,
            Kind::Chunk,
            Kind::Chunk,
            Kind::Chunk,
            Kind::Chunk,
            Kind::Chunk,
            Kind::Number,
            Kind::Chunk,
        ];
        assert(kinds@ =~= Self::kinds());
        let f: Vec<Field> = match decode_fields(bytes, &kinds) {
            Some(f) => f,
            None => return None,
        };
        let commitment_id: String = match get_text(&f, 1) {
            Some(s) => s,
            None => return None,
        };
        let action: String = match get_text(&f, 2) {
            Some(s) => s,
            None => return None,
        };
        let authority_scope: String = match get_text(&f, 3) {
            Some(s) => s,
            None => return None,
        };
        let reason: String = match get_text(&f, 4) {
            Some(s) => s,
            None => return None,
        };
        let mode_version: String = match get_text(&f, 5) {
            Some(s) => s,
            None => return None,
        };
        let policy_version: String = match get_text(&f, 6) {
            Some(s) => s,
            None => return None,
        };
        let configuration_version: String = match get_text(&f, 7) {
            Some(s) => s,
            None => return None,
        };
        let supersedes: Option<CommitmentRef> = match Self::decode_reference(&f) {
            Some(reference) => reference,
            None => return None,
        };
        let outcome_positive: bool = get_number(&f, 8) != 0;
        Some(
            CommitmentPayload {
                commitment_id,
                action,
                authority_scope,
                reason,
                mode_version,
                policy_version,
                configuration_version,
                outcome_positive,
                supersedes,
            },
        )
    }

    /// Writes the message. It reads back from the bytes.
    pub fn encode_to_vec(&self) -> (r: Vec<u8>)
        ensures
            r@ == Self::bytes(self.deep_view()),
            Self::from_bytes(r@) == Some(self.deep_view()),
    {
        let mut chunks: Vec<Vec<u8>> = Vec::new();
        match &self.supersedes {
            Some(reference) => {
                let chunk: Vec<u8> = reference.encode_to_vec();
                assert(chunk.deep_view() =~= chunk@);
                chunks.push(chunk);
            },
            None => {},
        }
        assert(chunks.deep_view() =~= reference_chunks(self.supersedes.deep_view()));
        let w: Writer = Writer::new()
            .text(1, self.commitment_id.as_str())
            .text(2, self.action.as_str())
            .text(3, self.authority_scope.as_str())
            .text(4, self.reason.as_str())
            .text(5, self.mode_version.as_str())
            .text(6, self.policy_version.as_str())
            .text(7, self.configuration_version.as_str())
            .number(8, bool_number(self.outcome_positive))
            .chunks(9, &chunks);
        assert(w.segments() =~= Self::segments(self.deep_view()));
        let r: Vec<u8> = w.finish();
        proof {
            Self::reads_back(self.deep_view());
        }
        r
    }

    /// What the message writes reads back as the message, where the lengths of
    /// its chunks can be written and the reference reads back.
    #[verifier::rlimit(60)]
    pub proof fn reads_back(v: CommitmentPayloadView)
        requires
            writable(joined(Self::segments(v))),
            v.supersedes is Some ==> CommitmentRef::from_inner(
                CommitmentRef::bytes(v.supersedes->0),
            ) == v.supersedes,
        ensures
            Self::from_bytes(Self::bytes(v)) == Some(v),
    {
        let s = Self::segments(v);
        joined_known(s, Self::kinds());
        fields_read_back(joined(s), Self::kinds());
        text_segment(s, 1, v.commitment_id);
        text_segment(s, 2, v.action);
        text_segment(s, 3, v.authority_scope);
        text_segment(s, 4, v.reason);
        text_segment(s, 5, v.mode_version);
        text_segment(s, 6, v.policy_version);
        text_segment(s, 7, v.configuration_version);
        number_segment(s, 8, number_of_bool(v.outcome_positive));
        chunks_segment(s, 9, reference_chunks(v.supersedes));
        if v.supersedes is Some {
            nested_one(CommitmentRef::bytes(v.supersedes->0), CommitmentRef::kinds());
        }
        assert forall|tag: u32| 1 <= tag <= 7 implies #[trigger] all_text(joined(s), tag) by {
            assert(tag == 1 || tag == 2 || tag == 3 || tag == 4 || tag == 5 || tag == 6 || tag == 7);
        }
    }
}

} // verus!
