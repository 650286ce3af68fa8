//! The protobuf wire format: varints, keys, and a message as the sequence of its
//! fields.

use crate::text::from_utf8;
use vstd::prelude::*;
use vstd::utf8::{decode_utf8, encode_utf8, valid_utf8};

verus! {

// ---------------------------------------------------------------------------
// Varints
// ---------------------------------------------------------------------------

/// The bytes that write `v`: seven bits each, the lowest first, with the high
/// bit set on all but the last.
pub open spec fn varint(v: nat) -> Seq<u8>
    decreases v,
{
    if v < 128 {
        seq![v as u8]
    } else {
        seq![(128 + v % 128) as u8] + varint(v / 128)
    }
}

/// The number that the bytes start with and how many of them write it. It takes
/// at most `budget` bytes, and the last of ten adds a single bit.
pub open spec fn read_varint(b: Seq<u8>, budget: nat) -> Option<(nat, nat)>
    decreases budget,
{
    if budget == 0 || b.len() == 0 {
        None
    } else if b[0] < 128 {
        if budget == 1 && b[0] > 1 {
            None
        } else {
            Some((b[0] as nat, 1))
        }
    } else {
        match read_varint(b.drop_first(), (budget - 1) as nat) {
            Some((v, n)) => Some(((b[0] - 128 + 128 * v) as nat, n + 1)),
            None => None,
        }
    }
}

/// How many bytes a varint takes at most.
pub const VARINT_BYTES: u64 = 10;

/// `prost::encoding::decode_varint`: the number that the bytes start with, and
/// the bytes behind it.
#[verifier::external_body]
fn decode_varint(bytes: &[u8]) -> (r: Option<(u64, &[u8])>)
    ensures
        r is Some <==> read_varint(bytes@, VARINT_BYTES as nat) is Some,
        r is Some ==> ({
            let (value, n) = read_varint(bytes@, VARINT_BYTES as nat)->0;
            &&& (r->0).0 == value
            &&& n <= bytes@.len()
            &&& (r->0).1@ == bytes@.skip(n as int)
        }),
{
    let mut rest = bytes;
    match prost::encoding::decode_varint(&mut rest) {
        Ok(value) => Some((value, rest)),
        Err(_) => None,
    }
}

/// `prost::encoding::encode_varint`: appends the bytes that write the number.
#[verifier::external_body]
fn encode_varint(value: u64, out: &mut Vec<u8>)
    ensures
        final(out)@ == old(out)@ + varint(value as nat),
{
    prost::encoding::encode_varint(value, out);
}

/// What bounds a number that fits in `budget` bytes, the last of them with a
/// single bit.
pub open spec fn varint_bound(budget: nat) -> nat
    decreases budget,
{
    if budget == 0 {
        0
    } else if budget == 1 {
        2
    } else {
        128 * varint_bound((budget - 1) as nat)
    }
}

/// A varint reads back from the bytes that write it, whatever follows.
pub proof fn varint_reads_back(v: nat, rest: Seq<u8>, budget: nat)
    requires
        v < varint_bound(budget),
    ensures
        read_varint(varint(v) + rest, budget) == Some((v, varint(v).len())),
        varint(v).len() > 0,
    decreases budget,
{
    let b = varint(v) + rest;
    if v < 128 {
        assert(b[0] == v as u8);
    } else {
        assert(budget > 1);
        assert(b[0] == (128 + v % 128) as u8);
        assert(b.drop_first() =~= varint(v / 128) + rest);
        varint_reads_back(v / 128, rest, (budget - 1) as nat);
        assert(v == v % 128 + 128 * (v / 128));
    }
}

/// Every `u64` fits in ten bytes.
pub proof fn varint_bound_u64()
    ensures
        varint_bound(VARINT_BYTES as nat) == 0x1_0000_0000_0000_0000,
{
    reveal_with_fuel(varint_bound, 11);
}

/// A varint that was read lies within the bytes and within a `u64`.
pub proof fn read_varint_within(b: Seq<u8>, budget: nat)
    ensures
        read_varint(b, budget) is Some ==> {
            let (v, n) = read_varint(b, budget)->0;
            &&& 0 < n <= b.len()
            &&& v < varint_bound(budget)
        },
    decreases budget,
{
    if budget > 0 && b.len() > 0 {
        if b[0] < 128 {
            if budget > 1 {
                varint_bound_grows((budget - 1) as nat);
            }
        } else {
            read_varint_within(b.drop_first(), (budget - 1) as nat);
        }
    }
}

proof fn varint_bound_grows(budget: nat)
    requires
        budget > 0,
    ensures
        varint_bound(budget) >= 2,
    decreases budget,
{
    if budget > 1 {
        varint_bound_grows((budget - 1) as nat);
    }
}

// ---------------------------------------------------------------------------
// Keys
// ---------------------------------------------------------------------------

/// How the content of a field is laid out.
#[derive(Clone, Copy, Debug, PartialEq, Eq, Structural)]
pub enum Wire {
    Varint,
    SixtyFourBit,
    LengthDelimited,
    StartGroup,
    EndGroup,
    ThirtyTwoBit,
}

/// The layout with the given number.
pub open spec fn wire_of(n: int) -> Option<Wire> {
    if n == 0 {
        Some(Wire::Varint)
    } else if n == 1 {
        Some(Wire::SixtyFourBit)
    } else if n == 2 {
        Some(Wire::LengthDelimited)
    } else if n == 3 {
        Some(Wire::StartGroup)
    } else if n == 4 {
        Some(Wire::EndGroup)
    } else if n == 5 {
        Some(Wire::ThirtyTwoBit)
    } else {
        None
    }
}

/// The tag and the layout that the bytes start with, and how many of them write
/// it.
pub open spec fn read_key(b: Seq<u8>) -> Option<(u32, Wire, nat)> {
    match read_varint(b, VARINT_BYTES as nat) {
        Some((key, n)) => if key <= u32::MAX && wire_of(key as int % 8) is Some && key / 8 >= 1 {
            Some(((key / 8) as u32, wire_of(key as int % 8)->0, n))
        } else {
            None
        },
        None => None,
    }
}

/// Reads a key: the tag, the layout and the bytes behind it.
fn decode_key(bytes: &[u8]) -> (r: Option<(u32, Wire, &[u8])>)
    ensures
        r is Some <==> read_key(bytes@) is Some,
        r is Some ==> ({
            let (tag, wire, n) = read_key(bytes@)->0;
            &&& (r->0).0 == tag
            &&& (r->0).1 == wire
            &&& n <= bytes@.len()
            &&& (r->0).2@ == bytes@.skip(n as int)
        }),
{
    match decode_varint(bytes) {
        None => None,
        Some((key, rest)) => {
            if key > u32::MAX as u64 || key / 8 < 1 {
                return None;
            }
            let tag: u32 = (key / 8) as u32;
            let low: u64 = key % 8;
            if low == 0 {
                Some((tag, Wire::Varint, rest))
            } else if low == 1 {
                Some((tag, Wire::SixtyFourBit, rest))
            } else if low == 2 {
                Some((tag, Wire::LengthDelimited, rest))
            } else if low == 3 {
                Some((tag, Wire::StartGroup, rest))
            } else if low == 4 {
                Some((tag, Wire::EndGroup, rest))
            } else if low == 5 {
                Some((tag, Wire::ThirtyTwoBit, rest))
            } else {
                None
            }
        },
    }
}

// ---------------------------------------------------------------------------
// Chunks and unknown fields
// ---------------------------------------------------------------------------

/// Where the content of a length-delimited field starts and how long it is.
pub open spec fn read_chunk(b: Seq<u8>) -> Option<(nat, nat)> {
    match read_varint(b, VARINT_BYTES as nat) {
        Some((len, n)) => if n + len <= b.len() {
            Some((n, len))
        } else {
            None
        },
        None => None,
    }
}

/// Reads a length-delimited field: its content, and the bytes behind it.
fn decode_chunk(bytes: &[u8]) -> (r: Option<(Vec<u8>, &[u8])>)
    ensures
        r is Some <==> read_chunk(bytes@) is Some,
        r is Some ==> ({
            let (n, len) = read_chunk(bytes@)->0;
            &&& (r->0).0@ == bytes@.subrange(n as int, (n + len) as int)
            &&& (r->0).1@ == bytes@.skip((n + len) as int)
        }),
{
    match decode_varint(bytes) {
        None => None,
        Some((len, rest)) => {
            if len > rest.len() as u64 {
                return None;
            }
            let (content, behind) = rest.split_at(len as usize);
            proof {
                let (_, n) = read_varint(bytes@, VARINT_BYTES as nat)->0;
                assert(content@ =~= bytes@.subrange(n as int, (n + len) as int));
                assert(behind@ =~= bytes@.skip((n + len) as int));
            }
            Some((crate::text::copy_bytes(content), behind))
        },
    }
}

/// How many bytes the group with the tag takes behind its key, and `None` where
/// it is malformed.
pub uninterp spec fn group_len(tag: u32, b: Seq<u8>) -> Option<nat>;

/// How many bytes a field that the message does not know takes behind its key.
pub open spec fn unknown_len(wire: Wire, tag: u32, b: Seq<u8>) -> Option<nat> {
    match wire {
        Wire::Varint => match read_varint(b, VARINT_BYTES as nat) {
            Some((_, n)) => Some(n),
            None => None,
        },
        Wire::SixtyFourBit => if b.len() >= 8 {
            Some(8)
        } else {
            None
        },
        Wire::ThirtyTwoBit => if b.len() >= 4 {
            Some(4)
        } else {
            None
        },
        Wire::LengthDelimited => match read_chunk(b) {
            Some((n, len)) => Some(n + len),
            None => None,
        },
        Wire::StartGroup => if group_len(tag, b) is Some && group_len(tag, b)->0 <= b.len() {
            group_len(tag, b)
        } else {
            None
        },
        Wire::EndGroup => None,
    }
}

/// `prost::encoding::skip_field` at the outermost level: the bytes behind the
/// content of a field of the given layout. A varint, eight bytes, four bytes or
/// a length-delimited content is skipped; a group up to the key that ends it,
/// which depends on the tag and the bytes alone; a key that ends a group is
/// refused.
#[verifier::external_body]
fn skip_field(wire: Wire, tag: u32, bytes: &[u8]) -> (r: Option<&[u8]>)
    ensures
        r is Some <==> unknown_len(wire, tag, bytes@) is Some,
        r is Some ==> unknown_len(wire, tag, bytes@)->0 <= bytes@.len(),
        r is Some ==> r->0@ == bytes@.skip(unknown_len(wire, tag, bytes@)->0 as int),
        wire is StartGroup && r is Some ==> group_len(tag, bytes@) == Some(
            (bytes@.len() - r->0@.len()) as nat,
        ),
{
    let kind = match wire {
        Wire::Varint => prost::encoding::WireType::Varint,
        Wire::SixtyFourBit => prost::encoding::WireType::SixtyFourBit,
        Wire::LengthDelimited => prost::encoding::WireType::LengthDelimited,
        Wire::StartGroup => prost::encoding::WireType::StartGroup,
        Wire::EndGroup => prost::encoding::WireType::EndGroup,
        Wire::ThirtyTwoBit => prost::encoding::WireType::ThirtyTwoBit,
    };
    let mut rest = bytes;
    let context = prost::encoding::DecodeContext::default();
    prost::encoding::skip_field(kind, tag, &mut rest, context).ok().map(|_| rest)
}

/// A group with the tag that holds the group whose content is given, under the
/// same tag: what follows the key of the outer one.
pub open spec fn group_within(tag: u32, content: Seq<u8>) -> Seq<u8> {
    varint((8 * tag + 3) as nat) + content + varint((8 * tag + 4) as nat)
}

/// How many bytes a field that the message does not know takes behind its key. In
/// a message within another, a group may nest one level less: it counts as if it
/// stood in a group.
pub open spec fn unknown_len_at(wire: Wire, tag: u32, b: Seq<u8>, inner: bool) -> Option<nat> {
    match unknown_len(wire, tag, b) {
        Some(n) => if inner && wire is StartGroup && unknown_len(
            wire,
            tag,
            group_within(tag, b.take(n as int)),
        ) is None {
            None
        } else {
            Some(n)
        },
        None => None,
    }
}

/// Skips a field that the message does not know.
fn skip_unknown(wire: Wire, tag: u32, bytes: &[u8], inner: bool) -> (r: Option<&[u8]>)
    ensures
        r is Some <==> unknown_len_at(wire, tag, bytes@, inner) is Some,
        r is Some ==> unknown_len_at(wire, tag, bytes@, inner)->0 <= bytes@.len(),
        r is Some ==> r->0@ == bytes@.skip(unknown_len_at(wire, tag, bytes@, inner)->0 as int),
{
    let behind: &[u8] = match skip_field(wire, tag, bytes) {
        Some(behind) => behind,
        None => return None,
    };
    if inner && wire == Wire::StartGroup {
        let (content, _) = bytes.split_at(bytes.len() - behind.len());
        let mut group: Vec<u8> = Vec::new();
        encode_varint(8 * (tag as u64) + 3, &mut group);
        group.extend_from_slice(content);
        encode_varint(8 * (tag as u64) + 4, &mut group);
        assert(group@ =~= group_within(tag, content@));
        assert(content@ =~= bytes@.take(unknown_len(wire, tag, bytes@)->0 as int));
        if skip_field(wire, tag, group.as_slice()).is_none() {
            return None;
        }
    }
    Some(behind)
}

// ---------------------------------------------------------------------------
// Fields
// ---------------------------------------------------------------------------

/// The content of a field: a number, or a chunk of bytes.
#[derive(Debug)]
pub enum Content {
    Number(u64),
    Chunk(Vec<u8>),
}

/// A field of a message.
#[derive(Debug)]
pub struct Field {
    pub tag: u32,
    pub content: Content,
}

/// What a content holds.
pub enum ContentView {
    Number(u64),
    Chunk(Seq<u8>),
}

/// What a field holds.
pub struct FieldView {
    pub tag: u32,
    pub content: ContentView,
}

impl DeepView for Field {
    type V = FieldView;

    open spec fn deep_view(&self) -> FieldView {
        FieldView {
            tag: self.tag,
            content: match self.content {
                Content::Number(v) => ContentView::Number(v),
                Content::Chunk(b) => ContentView::Chunk(b@),
            },
        }
    }
}

/// Which kind of content a known field has. The entries of a map are read as
/// chunks whatever layout their key names.
#[derive(Clone, Copy, Debug, PartialEq, Eq, Structural)]
pub enum Kind {
    Number,
    Chunk,
    Entry,
}

/// The fields that a message knows: tags `1..=kinds.len()`, the kind of each at
/// its place.
pub open spec fn kind_of(kinds: Seq<Kind>, tag: u32) -> Option<Kind> {
    if 1 <= tag <= kinds.len() {
        Some(kinds[tag - 1])
    } else {
        None
    }
}

/// The field that the bytes start with and how many of them write it. A field
/// that the message does not know leaves nothing.
pub open spec fn read_field(b: Seq<u8>, kinds: Seq<Kind>, inner: bool) -> Option<
    (Seq<FieldView>, nat),
> {
    match read_key(b) {
        None => None,
        Some((tag, wire, k)) => {
            let r = b.skip(k as int);
            match kind_of(kinds, tag) {
                Some(Kind::Number) => match read_varint(r, VARINT_BYTES as nat) {
                    Some((v, n)) => if wire is Varint {
                        Some(
                            (
                                seq![FieldView { tag, content: ContentView::Number(v as u64) }],
                                k + n,
                            ),
                        )
                    } else {
                        None
                    },
                    None => None,
                },
                Some(kind) => match read_chunk(r) {
                    Some((n, len)) => if kind is Entry || wire is LengthDelimited {
                        Some(
                            (
                                seq![
                                    FieldView {
                                        tag,
                                        content: ContentView::Chunk(
                                            r.subrange(n as int, (n + len) as int),
                                        ),
                                    },
                                ],
                                k + n + len,
                            ),
                        )
                    } else {
                        None
                    },
                    None => None,
                },
                None => match unknown_len_at(wire, tag, r, inner) {
                    Some(n) => Some((seq![], k + n)),
                    None => None,
                },
            }
        },
    }
}

/// The known fields of a message, in the order in which the bytes write them,
/// and `None` where the bytes are no message.
pub open spec fn read_fields(b: Seq<u8>, kinds: Seq<Kind>) -> Option<Seq<FieldView>> {
    read_fields_at(b, kinds, false)
}

/// The known fields of a message that stands by itself or within another.
pub open spec fn read_fields_at(b: Seq<u8>, kinds: Seq<Kind>, inner: bool) -> Option<
    Seq<FieldView>,
>
    decreases b.len(),
{
    if b.len() == 0 {
        Some(seq![])
    } else {
        match read_field(b, kinds, inner) {
            Some((first, n)) => if 0 < n <= b.len() {
                match read_fields_at(b.skip(n as int), kinds, inner) {
                    Some(rest) => Some(first + rest),
                    None => None,
                }
            } else {
                None
            },
            None => None,
        }
    }
}

/// Reads the field that the bytes start with.
fn decode_field<'a>(bytes: &'a [u8], kinds: &[Kind], inner: bool) -> (r: Option<
    (Option<Field>, &'a [u8]),
>)
    ensures
        r is Some <==> read_field(bytes@, kinds@, inner) is Some,
        r is Some ==> ({
            let (first, n) = read_field(bytes@, kinds@, inner)->0;
            &&& 0 < n <= bytes@.len()
            &&& (r->0).1@ == bytes@.skip(n as int)
            &&& first == match (r->0).0 {
                Some(f) => seq![f.deep_view()],
                None => seq![],
            }
        }),
{
    match decode_key(bytes) {
        None => None,
        Some((tag, wire, rest)) => {
            let ghost k = (read_key(bytes@)->0).2;
            proof {
                read_varint_within(bytes@, VARINT_BYTES as nat);
                read_varint_within(rest@, VARINT_BYTES as nat);
                varint_bound_u64();
            }
            if 1 <= tag && (tag as u64) <= kinds.len() as u64 {
                match kinds[(tag - 1) as usize] {
                    Kind::Number => {
                        match wire {
                            Wire::Varint => {
                                match decode_varint(rest) {
                                    Some((value, behind)) => {
                                        assert(behind@ =~= bytes@.skip(
                                            (k + (read_varint(rest@, VARINT_BYTES as nat)->0).1) as int,
                                        ));
                                        Some(
                                            (
                                                Some(Field { tag, content: Content::Number(value) }),
                                                behind,
                                            ),
                                        )
                                    },
                                    None => None,
                                }
                            },
                            _ => None,
                        }
                    },
                    kind => {
                        if kind != Kind::Entry && wire != Wire::LengthDelimited {
                            return None;
                        }
                        match decode_chunk(rest) {
                            Some((content, behind)) => {
                                assert(behind@ =~= bytes@.skip(
                                    (k + (read_chunk(rest@)->0).0 + (read_chunk(rest@)->0).1) as int,
                                ));
                                Some((Some(Field { tag, content: Content::Chunk(content) }), behind))
                            },
                            None => None,
                        }
                    },
                }
            } else {
                match skip_unknown(wire, tag, rest, inner) {
                    Some(behind) => {
                        assert(behind@ =~= bytes@.skip(
                            (k + unknown_len_at(wire, tag, rest@, inner)->0) as int,
                        ));
                        Some((None, behind))
                    },
                    None => None,
                }
            }
        },
    }
}

/// Reads the known fields of a message.
pub fn decode_fields(bytes: &[u8], kinds: &[Kind]) -> (r: Option<Vec<Field>>)
    ensures
        r is Some <==> read_fields(bytes@, kinds@) is Some,
        r is Some ==> r->0.deep_view() == read_fields(bytes@, kinds@)->0,
{
    decode_fields_at(bytes, kinds, false)
}

/// Reads the known fields of a message that stands by itself or within another.
pub fn decode_fields_at(bytes: &[u8], kinds: &[Kind], inner: bool) -> (r: Option<Vec<Field>>)
    ensures
        r is Some <==> read_fields_at(bytes@, kinds@, inner) is Some,
        r is Some ==> r->0.deep_view() == read_fields_at(bytes@, kinds@, inner)->0,
{
    let mut fields: Vec<Field> = Vec::new();
    let mut rest: &[u8] = bytes;
    let ghost all = read_fields_at(bytes@, kinds@, inner);
    assert(fields.deep_view() =~= seq![]);
    proof {
        if read_fields_at(rest@, kinds@, inner) is Some {
            assert(fields.deep_view() + read_fields_at(rest@, kinds@, inner)->0 =~= read_fields_at(
                rest@,
                kinds@,
                inner,
            )->0);
        }
    }
    while rest.len() > 0
        invariant
            all == read_fields_at(bytes@, kinds@, inner),
            all is Some <==> read_fields_at(rest@, kinds@, inner) is Some,
            all is Some ==> all->0 == fields.deep_view() + read_fields_at(rest@, kinds@, inner)->0,
        decreases rest@.len(),
    {
        let ghost before = fields.deep_view();
        let ghost here = rest@;
        match decode_field(rest, kinds, inner) {
            None => {
                return None;
            },
            Some((field, behind)) => {
                let ghost first = (read_field(here, kinds@, inner)->0).0;
                rest = behind;
                match field {
                    Some(f) => {
                        fields.push(f);
                        assert(fields.deep_view() =~= before + first);
                    },
                    None => {
                        assert(fields.deep_view() =~= before + first);
                    },
                }
                proof {
                    if read_fields_at(rest@, kinds@, inner) is Some {
                        let tail = read_fields_at(rest@, kinds@, inner)->0;
                        assert(before + (first + tail) =~= (before + first) + tail);
                    }
                }
            },
        }
    }
    assert(fields.deep_view() + Seq::<FieldView>::empty() =~= fields.deep_view());
    Some(fields)
}

// ---------------------------------------------------------------------------
// The values of a message
// ---------------------------------------------------------------------------

/// The contents of the fields with the tag, in order.
pub open spec fn contents(fields: Seq<FieldView>, tag: u32) -> Seq<ContentView>
    decreases fields.len(),
{
    if fields.len() == 0 {
        seq![]
    } else {
        let before = contents(fields.drop_last(), tag);
        if fields.last().tag == tag {
            before.push(fields.last().content)
        } else {
            before
        }
    }
}

/// The contents of one sequence of fields behind another.
pub proof fn contents_concat(a: Seq<FieldView>, b: Seq<FieldView>, tag: u32)
    ensures
        contents(a + b, tag) == contents(a, tag) + contents(b, tag),
    decreases b.len(),
{
    if b.len() == 0 {
        assert(a + b =~= a);
        assert(contents(a, tag) + contents(b, tag) =~= contents(a, tag));
    } else {
        assert((a + b).drop_last() =~= a + b.drop_last());
        contents_concat(a, b.drop_last(), tag);
        assert(contents(a + b, tag) =~= contents(a, tag) + contents(b, tag));
    }
}

/// The number of a field: the last one written, and zero where there is none.
pub open spec fn number_field(fields: Seq<FieldView>, tag: u32) -> u64 {
    let all = contents(fields, tag);
    if all.len() > 0 && all.last() is Number {
        all.last()->Number_0
    } else {
        0
    }
}

/// The bytes of a field: the last ones written, and none where there are none.
pub open spec fn bytes_field(fields: Seq<FieldView>, tag: u32) -> Seq<u8> {
    let all = contents(fields, tag);
    if all.len() > 0 && all.last() is Chunk {
        all.last()->Chunk_0
    } else {
        seq![]
    }
}

/// Whether a content is text in UTF-8.
pub open spec fn is_text(content: ContentView) -> bool {
    content is Chunk && valid_utf8(content->Chunk_0)
}

/// Whether every content of the field is text.
pub open spec fn all_text(fields: Seq<FieldView>, tag: u32) -> bool {
    let all = contents(fields, tag);
    forall|i: int| 0 <= i < all.len() ==> is_text(#[trigger] all[i])
}

/// The text of a field.
pub open spec fn text_field(fields: Seq<FieldView>, tag: u32) -> Seq<char> {
    decode_utf8(bytes_field(fields, tag))
}

/// The texts of a repeated field.
pub open spec fn text_list(fields: Seq<FieldView>, tag: u32) -> Seq<Seq<char>> {
    let all = contents(fields, tag);
    Seq::new(all.len(), |i: int| decode_utf8(all[i]->Chunk_0))
}

/// Whether every content of the field is a chunk.
pub open spec fn all_chunks(fields: Seq<FieldView>, tag: u32) -> bool {
    let all = contents(fields, tag);
    forall|i: int| 0 <= i < all.len() ==> (#[trigger] all[i]) is Chunk
}

/// The chunks of a repeated field.
pub open spec fn chunk_list(fields: Seq<FieldView>, tag: u32) -> Seq<Seq<u8>> {
    let all = contents(fields, tag);
    Seq::new(all.len(), |i: int| all[i]->Chunk_0)
}

/// The fields of a nested message that was written in several chunks: those of
/// each chunk, one behind the other.
pub open spec fn nested_fields(chunks: Seq<Seq<u8>>, kinds: Seq<Kind>) -> Option<Seq<FieldView>>
    decreases chunks.len(),
{
    if chunks.len() == 0 {
        Some(seq![])
    } else {
        match (
            nested_fields(chunks.drop_last(), kinds),
            read_fields_at(chunks.last(), kinds, true),
        ) {
            (Some(before), Some(last)) => Some(before + last),
            _ => None,
        }
    }
}

/// Reads the fields of a nested message from its chunks.
pub fn decode_nested(chunks: &Vec<Vec<u8>>, kinds: &[Kind]) -> (r: Option<Vec<Field>>)
    ensures
        r is Some <==> nested_fields(chunks.deep_view(), kinds@) is Some,
        r is Some ==> r->0.deep_view() == nested_fields(chunks.deep_view(), kinds@)->0,
{
    let ghost all = chunks.deep_view();
    let mut fields: Vec<Field> = Vec::new();
    let mut i: usize = 0;
    assert(all.take(0) =~= seq![]);
    assert(fields.deep_view() =~= seq![]);
    while i < chunks.len()
        invariant
            i <= chunks@.len(),
            all == chunks.deep_view(),
            nested_fields(all.take(i as int), kinds@) is Some,
            fields.deep_view() == nested_fields(all.take(i as int), kinds@)->0,
        decreases chunks@.len() - i,
    {
        proof {
            assert(chunks@[i as int].deep_view() =~= chunks@[i as int]@);
            assert(all.take(i + 1).drop_last() =~= all.take(i as int));
            assert(all.take(i + 1).last() == chunks@[i as int]@);
        }
        match decode_fields_at(chunks[i].as_slice(), kinds, true) {
            Some(more) => {
                let ghost before = fields.deep_view();
                let ghost last = more.deep_view();
                let mut more: Vec<Field> = more;
                fields.append(&mut more);
                assert(fields.deep_view() =~= before + last);
            },
            None => {
                proof {
                    nested_fields_prefix(all, kinds@, i + 1);
                }
                return None;
            },
        }
        i = i + 1;
    }
    assert(all.take(i as int) =~= all);
    Some(fields)
}

proof fn nested_fields_prefix(chunks: Seq<Seq<u8>>, kinds: Seq<Kind>, n: int)
    requires
        0 <= n <= chunks.len(),
        nested_fields(chunks.take(n), kinds) is None,
    ensures
        nested_fields(chunks, kinds) is None,
    decreases chunks.len(),
{
    if n == chunks.len() {
        assert(chunks.take(n) =~= chunks);
    } else {
        assert(chunks.drop_last().take(n) =~= chunks.take(n));
        nested_fields_prefix(chunks.drop_last(), kinds, n);
    }
}

/// A single chunk holds the fields of the nested message.
pub proof fn nested_one(chunk: Seq<u8>, kinds: Seq<Kind>)
    ensures
        nested_fields(seq![chunk], kinds) == read_fields_at(chunk, kinds, true),
{
    assert(seq![chunk].drop_last() =~= seq![]);
    assert(nested_fields(seq![], kinds) == Some(Seq::<FieldView>::empty()));
    if read_fields_at(chunk, kinds, true) is Some {
        let last = read_fields_at(chunk, kinds, true)->0;
        assert(Seq::<FieldView>::empty() + last =~= last);
    }
}

proof fn contents_push(fields: Seq<FieldView>, field: FieldView, tag: u32)
    ensures
        contents(fields.push(field), tag) == if field.tag == tag {
            contents(fields, tag).push(field.content)
        } else {
            contents(fields, tag)
        },
{
    assert(fields.push(field).drop_last() =~= fields);
}

proof fn take_next(fields: Seq<Field>, i: int)
    requires
        0 <= i < fields.len(),
    ensures
        Seq::new(fields.len(), |j: int| fields[j].deep_view()).take(i + 1) == Seq::new(
            fields.len(),
            |j: int| fields[j].deep_view(),
        ).take(i).push(fields[i].deep_view()),
{
    let all = Seq::new(fields.len(), |j: int| fields[j].deep_view());
    assert(all.take(i + 1) =~= all.take(i).push(all[i]));
}

/// Reads the number of a field.
pub fn get_number(fields: &Vec<Field>, tag: u32) -> (r: u64)
    ensures
        r == number_field(fields.deep_view(), tag),
{
    let ghost all = fields.deep_view();
    let mut value: u64 = 0;
    let mut i: usize = 0;
    while i < fields.len()
        invariant
            i <= fields@.len(),
            all == fields.deep_view(),
            value == number_field(all.take(i as int), tag),
        decreases fields@.len() - i,
    {
        proof {
            take_next(fields@, i as int);
            contents_push(all.take(i as int), all[i as int], tag);
        }
        if fields[i].tag == tag {
            match &fields[i].content {
                Content::Number(v) => {
                    value = *v;
                },
                Content::Chunk(_) => {
                    value = 0;
                },
            }
        }
        i = i + 1;
    }
    assert(all.take(i as int) =~= all);
    value
}

/// Reads the bytes of a field.
pub fn get_bytes(fields: &Vec<Field>, tag: u32) -> (r: Vec<u8>)
    ensures
        r@ == bytes_field(fields.deep_view(), tag),
{
    let ghost all = fields.deep_view();
    let mut value: Vec<u8> = Vec::new();
    let mut i: usize = 0;
    while i < fields.len()
        invariant
            i <= fields@.len(),
            all == fields.deep_view(),
            value@ == bytes_field(all.take(i as int), tag),
        decreases fields@.len() - i,
    {
        proof {
            take_next(fields@, i as int);
            contents_push(all.take(i as int), all[i as int], tag);
        }
        if fields[i].tag == tag {
            match &fields[i].content {
                Content::Number(_) => {
                    value = Vec::new();
                },
                Content::Chunk(b) => {
                    value = crate::text::copy_bytes(b.as_slice());
                },
            }
        }
        i = i + 1;
    }
    assert(all.take(i as int) =~= all);
    value
}

/// Reads the chunks of a repeated field, and `None` where one is a number.
pub fn get_chunks(fields: &Vec<Field>, tag: u32) -> (r: Option<Vec<Vec<u8>>>)
    ensures
        r is Some <==> all_chunks(fields.deep_view(), tag),
        r is Some ==> r->0.deep_view() == chunk_list(fields.deep_view(), tag),
{
    let ghost all = fields.deep_view();
    let mut list: Vec<Vec<u8>> = Vec::new();
    let mut chunks: bool = true;
    let mut i: usize = 0;
    while i < fields.len()
        invariant
            i <= fields@.len(),
            all == fields.deep_view(),
            list@.len() == contents(all.take(i as int), tag).len(),
            chunks == (forall|j: int|
                0 <= j < list@.len() ==> (#[trigger] contents(all.take(i as int), tag)[j]) is Chunk),
            chunks ==> forall|j: int|
                0 <= j < list@.len() ==> (#[trigger] list@[j])@ == contents(all.take(i as int), tag)[j]->Chunk_0,
        decreases fields@.len() - i,
    {
        let ghost before = contents(all.take(i as int), tag);
        proof {
            take_next(fields@, i as int);
            contents_push(all.take(i as int), all[i as int], tag);
        }
        let ghost after = contents(all.take(i + 1), tag);
        if fields[i].tag == tag {
            match &fields[i].content {
                Content::Number(_) => {
                    list.push(Vec::new());
                    assert(!(after[before.len() as int] is Chunk));
                    chunks = false;
                },
                Content::Chunk(b) => {
                    list.push(crate::text::copy_bytes(b.as_slice()));
                    assert forall|j: int| 0 <= j < before.len() implies after[j] == before[j] by {}
                    if chunks {
                        assert forall|j: int| 0 <= j < after.len() implies (#[trigger] after[j]) is Chunk by {
                            if j < before.len() {
                                assert(before[j] is Chunk);
                            }
                        }
                    } else {
                        proof {
                            let j = choose|j: int| 0 <= j < before.len() && !((#[trigger] before[j]) is Chunk);
                            assert(!(after[j] is Chunk));
                        }
                    }
                },
            }
        }
        i = i + 1;
    }
    assert(all.take(i as int) =~= all);
    if chunks {
        assert forall|j: int| 0 <= j < list@.len() implies (#[trigger] list@[j]).deep_view()
            == list@[j]@ by {
            assert(list@[j].deep_view() =~= list@[j]@);
        }
        assert(list.deep_view() =~= chunk_list(all, tag));
        Some(list)
    } else {
        None
    }
}

/// Reads the texts of a repeated field, and `None` where one is no UTF-8.
pub fn get_texts(fields: &Vec<Field>, tag: u32) -> (r: Option<Vec<String>>)
    ensures
        r is Some <==> all_text(fields.deep_view(), tag),
        r is Some ==> r->0.deep_view() == text_list(fields.deep_view(), tag),
{
    let ghost all = contents(fields.deep_view(), tag);
    match get_chunks(fields, tag) {
        None => None,
        Some(chunks) => {
            assert(chunks.deep_view().len() == all.len());
            assert forall|j: int| 0 <= j < all.len() implies (#[trigger] chunks@[j])@
                == all[j]->Chunk_0 by {
                assert(chunks@[j].deep_view() =~= chunks@[j]@);
                assert(chunks.deep_view()[j] == chunk_list(fields.deep_view(), tag)[j]);
            }
            let mut list: Vec<String> = Vec::new();
            let mut i: usize = 0;
            while i < chunks.len()
                invariant
                    i <= chunks@.len(),
                    all == contents(fields.deep_view(), tag),
                    chunks@.len() == all.len(),
                    forall|j: int| 0 <= j < all.len() ==> (#[trigger] all[j]) is Chunk,
                    forall|j: int|
                        0 <= j < all.len() ==> (#[trigger] chunks@[j])@ == all[j]->Chunk_0,
                    list@.len() == i,
                    forall|j: int| 0 <= j < i ==> is_text(#[trigger] all[j]),
                    forall|j: int|
                        0 <= j < i ==> (#[trigger] list@[j])@ == decode_utf8(all[j]->Chunk_0),
                decreases chunks@.len() - i,
            {
                match from_utf8(chunks[i].as_slice()) {
                    Some(s) => {
                        list.push(s);
                    },
                    None => {
                        assert(!is_text(all[i as int]));
                        return None;
                    },
                }
                i = i + 1;
            }
            assert(list.deep_view() =~= text_list(fields.deep_view(), tag));
            Some(list)
        },
    }
}

/// Reads the text of a field, and `None` where one of its contents is no UTF-8.
pub fn get_text(fields: &Vec<Field>, tag: u32) -> (r: Option<String>)
    ensures
        r is Some <==> all_text(fields.deep_view(), tag),
        r is Some ==> r->0@ == text_field(fields.deep_view(), tag),
{
    let ghost all = contents(fields.deep_view(), tag);
    match get_texts(fields, tag) {
        None => None,
        Some(mut list) => {
            assert(list.deep_view() == text_list(fields.deep_view(), tag));
            match list.pop() {
                Some(s) => {
                    assert(is_text(all[all.len() - 1]));
                    assert(s@ == text_list(fields.deep_view(), tag)[all.len() - 1]);
                    Some(s)
                },
                None => {
                    assert(all.len() == 0);
                    assert(decode_utf8(seq![]) =~= seq![]);
                    Some(String::new())
                },
            }
        },
    }
}

// ---------------------------------------------------------------------------
// Writing
// ---------------------------------------------------------------------------

/// The bytes that write a field.
pub open spec fn field_bytes(field: FieldView) -> Seq<u8> {
    match field.content {
        ContentView::Number(v) => varint((8 * field.tag) as nat) + varint(v as nat),
        ContentView::Chunk(b) => varint((8 * field.tag + 2) as nat) + varint(b.len()) + b,
    }
}

/// The bytes that write the fields one behind the other.
pub open spec fn fields_bytes(fields: Seq<FieldView>) -> Seq<u8>
    decreases fields.len(),
{
    if fields.len() == 0 {
        seq![]
    } else {
        field_bytes(fields[0]) + fields_bytes(fields.drop_first())
    }
}

/// Whether the field is one that the message knows, with a content that fits.
pub open spec fn known(field: FieldView, kinds: Seq<Kind>) -> bool {
    match kind_of(kinds, field.tag) {
        Some(Kind::Number) => field.content is Number,
        Some(_) => field.content is Chunk && field.content->Chunk_0.len() <= u64::MAX,
        None => false,
    }
}

/// A field reads back from the bytes that write it, whatever follows.
pub proof fn field_reads_back(field: FieldView, rest: Seq<u8>, kinds: Seq<Kind>, inner: bool)
    requires
        known(field, kinds),
        kinds.len() <= 100,
    ensures
        read_field(field_bytes(field) + rest, kinds, inner) == Some(
            (seq![field], field_bytes(field).len()),
        ),
        field_bytes(field).len() > 0,
{
    varint_bound_u64();
    let b = field_bytes(field) + rest;
    match field.content {
        ContentView::Number(v) => {
            let key = (8 * field.tag) as nat;
            let tail = varint(v as nat) + rest;
            assert(b =~= varint(key) + tail);
            varint_reads_back(key, tail, VARINT_BYTES as nat);
            assert(b.skip(varint(key).len() as int) =~= tail);
            varint_reads_back(v as nat, rest, VARINT_BYTES as nat);
        },
        ContentView::Chunk(c) => {
            let key = (8 * field.tag + 2) as nat;
            let tail = varint(c.len()) + (c + rest);
            assert(b =~= varint(key) + tail);
            varint_reads_back(key, tail, VARINT_BYTES as nat);
            assert(b.skip(varint(key).len() as int) =~= tail);
            varint_reads_back(c.len(), c + rest, VARINT_BYTES as nat);
            let n = varint(c.len()).len() as int;
            assert(tail.subrange(n, n + c.len()) =~= c);
        },
    }
}

/// The fields of a message read back from the bytes that write them, by itself
/// and within another message.
pub proof fn fields_read_back(fields: Seq<FieldView>, kinds: Seq<Kind>)
    requires
        forall|i: int| 0 <= i < fields.len() ==> known(#[trigger] fields[i], kinds),
        kinds.len() <= 100,
    ensures
        read_fields(fields_bytes(fields), kinds) == Some(fields),
        read_fields_at(fields_bytes(fields), kinds, true) == Some(fields),
{
    fields_read_back_at(fields, kinds, false);
    fields_read_back_at(fields, kinds, true);
}

proof fn fields_read_back_at(fields: Seq<FieldView>, kinds: Seq<Kind>, inner: bool)
    requires
        forall|i: int| 0 <= i < fields.len() ==> known(#[trigger] fields[i], kinds),
        kinds.len() <= 100,
    ensures
        read_fields_at(fields_bytes(fields), kinds, inner) == Some(fields),
    decreases fields.len(),
{
    if fields.len() > 0 {
        let first = fields[0];
        let rest = fields.drop_first();
        assert forall|i: int| 0 <= i < rest.len() implies known(#[trigger] rest[i], kinds) by {
            assert(known(fields[i + 1], kinds));
        }
        fields_read_back_at(rest, kinds, inner);
        field_reads_back(first, fields_bytes(rest), kinds, inner);
        let b = fields_bytes(fields);
        assert(b.skip(field_bytes(first).len() as int) =~= fields_bytes(rest));
        assert(seq![first] + rest =~= fields);
    }
}

/// The bytes of fields behind the bytes of others.
pub proof fn fields_bytes_concat(a: Seq<FieldView>, b: Seq<FieldView>)
    ensures
        fields_bytes(a + b) == fields_bytes(a) + fields_bytes(b),
    decreases a.len(),
{
    if a.len() == 0 {
        assert(a + b =~= b);
        assert(fields_bytes(a) + fields_bytes(b) =~= fields_bytes(b));
    } else {
        assert((a + b).drop_first() =~= a.drop_first() + b);
        fields_bytes_concat(a.drop_first(), b);
        assert(fields_bytes(a + b) =~= fields_bytes(a) + fields_bytes(b));
    }
}

/// A field with a chunk.
pub open spec fn chunk_of(tag: u32, b: Seq<u8>) -> FieldView {
    FieldView { tag, content: ContentView::Chunk(b) }
}

/// What writes a number: nothing where it is zero.
pub open spec fn number_fields(tag: u32, v: u64) -> Seq<FieldView> {
    if v == 0 {
        seq![]
    } else {
        seq![FieldView { tag, content: ContentView::Number(v) }]
    }
}

/// What writes bytes: nothing where there are none.
pub open spec fn bytes_fields(tag: u32, b: Seq<u8>) -> Seq<FieldView> {
    if b.len() == 0 {
        seq![]
    } else {
        seq![chunk_of(tag, b)]
    }
}

/// What writes a text: nothing where it is empty.
pub open spec fn text_fields(tag: u32, s: Seq<char>) -> Seq<FieldView> {
    bytes_fields(tag, encode_utf8(s))
}

/// What writes a list of chunks: a field for each.
pub open spec fn chunk_fields(tag: u32, list: Seq<Seq<u8>>) -> Seq<FieldView> {
    Seq::new(list.len(), |i: int| chunk_of(tag, list[i]))
}

proof fn one_field(field: FieldView)
    ensures
        fields_bytes(seq![field]) == field_bytes(field),
{
    assert(seq![field].drop_first() =~= seq![]);
    assert(fields_bytes(seq![]) =~= seq![]);
    assert(fields_bytes(seq![field]) =~= field_bytes(field));
}

/// Appends a field with a number, unless it is zero.
fn put_number(out: &mut Vec<u8>, tag: u32, value: u64)
    requires
        1 <= tag <= 100,
    ensures
        final(out)@ == old(out)@ + fields_bytes(number_fields(tag, value)),
{
    if value != 0 {
        proof {
            one_field(FieldView { tag, content: ContentView::Number(value) });
        }
        encode_varint((8 * tag) as u64, out);
        encode_varint(value, out);
        assert(out@ =~= old(out)@ + fields_bytes(number_fields(tag, value)));
    } else {
        assert(out@ =~= old(out)@ + fields_bytes(number_fields(tag, value)));
    }
}

/// Appends a field with a chunk.
fn put_chunk(out: &mut Vec<u8>, tag: u32, bytes: &[u8])
    requires
        1 <= tag <= 100,
    ensures
        final(out)@ == old(out)@ + field_bytes(chunk_of(tag, bytes@)),
{
    encode_varint((8 * tag + 2) as u64, out);
    encode_varint(bytes.len() as u64, out);
    out.extend_from_slice(bytes);
    assert(out@ =~= old(out)@ + field_bytes(chunk_of(tag, bytes@)));
}

/// Appends a field with bytes, unless there are none.
fn put_bytes(out: &mut Vec<u8>, tag: u32, bytes: &[u8])
    requires
        1 <= tag <= 100,
    ensures
        final(out)@ == old(out)@ + fields_bytes(bytes_fields(tag, bytes@)),
{
    if bytes.len() > 0 {
        proof {
            one_field(chunk_of(tag, bytes@));
        }
        put_chunk(out, tag, bytes);
    } else {
        assert(out@ =~= old(out)@ + fields_bytes(bytes_fields(tag, bytes@)));
    }
}

// ---------------------------------------------------------------------------
// A message as its segments
// ---------------------------------------------------------------------------

/// The fields of the segments, one segment behind the other.
pub open spec fn joined(segments: Seq<Seq<FieldView>>) -> Seq<FieldView>
    decreases segments.len(),
{
    if segments.len() == 0 {
        seq![]
    } else {
        joined(segments.drop_last()) + segments.last()
    }
}

/// Whether the segment at place `i` holds fields with the tag `i + 1` alone.
pub open spec fn by_tag(segments: Seq<Seq<FieldView>>) -> bool {
    forall|i: int, k: int|
        0 <= i < segments.len() && 0 <= k < segments[i].len() ==> (#[trigger] segments[i][k]).tag
            == i + 1
}

proof fn contents_other_tag(fields: Seq<FieldView>, tag: u32)
    requires
        forall|k: int| 0 <= k < fields.len() ==> (#[trigger] fields[k]).tag != tag,
    ensures
        contents(fields, tag) == Seq::<ContentView>::empty(),
    decreases fields.len(),
{
    if fields.len() > 0 {
        contents_other_tag(fields.drop_last(), tag);
    }
}

/// The contents of a field are those in its own segment.
pub proof fn contents_joined(segments: Seq<Seq<FieldView>>, tag: u32)
    requires
        by_tag(segments),
    ensures
        contents(joined(segments), tag) == if 1 <= tag <= segments.len() {
            contents(segments[tag - 1], tag)
        } else {
            seq![]
        },
    decreases segments.len(),
{
    if segments.len() > 0 {
        let init = segments.drop_last();
        let last = segments.last();
        let n = segments.len() as int;
        assert(by_tag(init)) by {
            assert forall|i: int, k: int|
                0 <= i < init.len() && 0 <= k < init[i].len() implies (#[trigger] init[i][k]).tag == i
                + 1 by {
                assert(segments[i][k].tag == i + 1);
            }
        }
        contents_joined(init, tag);
        contents_concat(joined(init), last, tag);
        if tag != n {
            assert forall|k: int| 0 <= k < last.len() implies (#[trigger] last[k]).tag != tag by {
                assert(segments[n - 1][k].tag == n);
            }
            contents_other_tag(last, tag);
        }
        assert(contents(joined(segments), tag) =~= if 1 <= tag <= segments.len() {
            contents(segments[tag - 1], tag)
        } else {
            seq![]
        });
    }
}

proof fn contents_one(field: FieldView)
    ensures
        contents(seq![field], field.tag) == seq![field.content],
{
    let none = Seq::<FieldView>::empty();
    contents_push(none, field, field.tag);
    assert(none.push(field) =~= seq![field]);
    assert(contents(none, field.tag) =~= seq![]);
    assert(contents(seq![field], field.tag) =~= seq![field.content]);
}

/// A text reads back from its segment.
pub proof fn text_segment(segments: Seq<Seq<FieldView>>, tag: u32, s: Seq<char>)
    requires
        by_tag(segments),
        1 <= tag <= segments.len(),
        segments[tag - 1] == text_fields(tag, s),
    ensures
        all_text(joined(segments), tag),
        text_field(joined(segments), tag) == s,
{
    contents_joined(segments, tag);
    vstd::utf8::encode_utf8_decode_utf8(s);
    vstd::utf8::encode_utf8_valid_utf8(s);
    if encode_utf8(s).len() == 0 {
        assert(encode_utf8(s) =~= seq![]);
    } else {
        contents_one(chunk_of(tag, encode_utf8(s)));
    }
}

/// Bytes read back from their segment.
pub proof fn bytes_segment(segments: Seq<Seq<FieldView>>, tag: u32, b: Seq<u8>)
    requires
        by_tag(segments),
        1 <= tag <= segments.len(),
        segments[tag - 1] == bytes_fields(tag, b),
    ensures
        bytes_field(joined(segments), tag) == b,
{
    contents_joined(segments, tag);
    if b.len() == 0 {
        assert(b =~= seq![]);
    } else {
        contents_one(chunk_of(tag, b));
    }
}

/// A number reads back from its segment.
pub proof fn number_segment(segments: Seq<Seq<FieldView>>, tag: u32, v: u64)
    requires
        by_tag(segments),
        1 <= tag <= segments.len(),
        segments[tag - 1] == number_fields(tag, v),
    ensures
        number_field(joined(segments), tag) == v,
{
    contents_joined(segments, tag);
    if v != 0 {
        contents_one(FieldView { tag, content: ContentView::Number(v) });
    }
}

proof fn contents_of_chunks(tag: u32, list: Seq<Seq<u8>>)
    ensures
        contents(chunk_fields(tag, list), tag) == Seq::new(
            list.len(),
            |i: int| ContentView::Chunk(list[i]),
        ),
    decreases list.len(),
{
    if list.len() > 0 {
        let init = list.drop_last();
        contents_of_chunks(tag, init);
        assert(chunk_fields(tag, list).drop_last() =~= chunk_fields(tag, init));
        assert(contents(chunk_fields(tag, list), tag) =~= Seq::new(
            list.len(),
            |i: int| ContentView::Chunk(list[i]),
        ));
    } else {
        assert(contents(chunk_fields(tag, list), tag) =~= Seq::new(
            list.len(),
            |i: int| ContentView::Chunk(list[i]),
        ));
    }
}

/// Chunks read back from their segment.
pub proof fn chunks_segment(segments: Seq<Seq<FieldView>>, tag: u32, list: Seq<Seq<u8>>)
    requires
        by_tag(segments),
        1 <= tag <= segments.len(),
        segments[tag - 1] == chunk_fields(tag, list),
    ensures
        chunk_list(joined(segments), tag) == list,
        contents(joined(segments), tag).len() == list.len(),
        forall|i: int| 0 <= i < list.len() ==> #[trigger] contents(joined(segments), tag)[i]
            == ContentView::Chunk(list[i]),
{
    contents_joined(segments, tag);
    contents_of_chunks(tag, list);
    assert(chunk_list(joined(segments), tag) =~= list);
}

/// The UTF-8 forms of the texts.
pub open spec fn utf8_list(list: Seq<Seq<char>>) -> Seq<Seq<u8>> {
    Seq::new(list.len(), |i: int| encode_utf8(list[i]))
}

/// Texts read back from their segment.
pub proof fn texts_segment(segments: Seq<Seq<FieldView>>, tag: u32, list: Seq<Seq<char>>)
    requires
        by_tag(segments),
        1 <= tag <= segments.len(),
        segments[tag - 1] == chunk_fields(tag, utf8_list(list)),
    ensures
        all_text(joined(segments), tag),
        text_list(joined(segments), tag) == list,
{
    let chunks = utf8_list(list);
    chunks_segment(segments, tag, chunks);
    assert forall|i: int| 0 <= i < list.len() implies is_text(
        #[trigger] contents(joined(segments), tag)[i],
    ) && decode_utf8(contents(joined(segments), tag)[i]->Chunk_0) == list[i] by {
        vstd::utf8::encode_utf8_decode_utf8(list[i]);
        vstd::utf8::encode_utf8_valid_utf8(list[i]);
    }
    assert(text_list(joined(segments), tag) =~= list);
}

/// Writes a message segment by segment, in the order of the tags.
pub struct Writer {
    out: Vec<u8>,
    segments: Ghost<Seq<Seq<FieldView>>>,
}

/// Whether every chunk of the fields has a length that the format can write.
pub open spec fn writable(fields: Seq<FieldView>) -> bool {
    forall|k: int|
        0 <= k < fields.len() && (#[trigger] fields[k]).content is Chunk ==> fields[k].content->Chunk_0.len()
            <= u64::MAX
}

impl Writer {
    /// The segments written so far.
    pub closed spec fn segments(&self) -> Seq<Seq<FieldView>> {
        self.segments@
    }

    /// The bytes are those of the segments.
    #[verifier::type_invariant]
    spec fn consistent(&self) -> bool {
        &&& self.out@ == fields_bytes(joined(self.segments@))
        &&& writable(joined(self.segments@))
    }

    /// A writer that has written nothing.
    pub fn new() -> (r: Self)
        ensures
            r.segments() == Seq::<Seq<FieldView>>::empty(),
    {
        let out: Vec<u8> = Vec::new();
        assert(out@ =~= fields_bytes(joined(seq![])));
        Writer { out, segments: Ghost(Seq::empty()) }
    }

    proof fn appended(segments: Seq<Seq<FieldView>>, next: Seq<FieldView>)
        requires
            writable(joined(segments)),
            writable(next),
        ensures
            fields_bytes(joined(segments.push(next))) == fields_bytes(joined(segments))
                + fields_bytes(next),
            writable(joined(segments.push(next))),
    {
        assert(segments.push(next).drop_last() =~= segments);
        fields_bytes_concat(joined(segments), next);
    }

    /// Writes a number, unless it is zero.
    pub fn number(self, tag: u32, value: u64) -> (r: Self)
        requires
            1 <= tag <= 100,
        ensures
            r.segments() == self.segments().push(number_fields(tag, value)),
    {
        proof {
            use_type_invariant(&self);
            Self::appended(self.segments@, number_fields(tag, value));
        }
        let mut out: Vec<u8> = self.out;
        put_number(&mut out, tag, value);
        Writer { out, segments: Ghost(self.segments@.push(number_fields(tag, value))) }
    }

    /// Writes bytes, unless there are none.
    pub fn bytes(self, tag: u32, bytes: &[u8]) -> (r: Self)
        requires
            1 <= tag <= 100,
        ensures
            r.segments() == self.segments().push(bytes_fields(tag, bytes@)),
    {
        proof {
            use_type_invariant(&self);
        }
        let n: usize = bytes.len();
        proof {
            assert(bytes@.len() == n);
            Self::appended(self.segments@, bytes_fields(tag, bytes@));
        }
        let mut out: Vec<u8> = self.out;
        put_bytes(&mut out, tag, bytes);
        Writer { out, segments: Ghost(self.segments@.push(bytes_fields(tag, bytes@))) }
    }

    /// Writes a text, unless it is empty.
    pub fn text(self, tag: u32, text: &str) -> (r: Self)
        requires
            1 <= tag <= 100,
        ensures
            r.segments() == self.segments().push(text_fields(tag, text@)),
    {
        self.bytes(tag, text.as_bytes())
    }

    /// Writes a chunk for each element of the list.
    pub fn chunks(self, tag: u32, list: &Vec<Vec<u8>>) -> (r: Self)
        requires
            1 <= tag <= 100,
        ensures
            r.segments() == self.segments().push(chunk_fields(tag, list.deep_view())),
    {
        proof {
            use_type_invariant(&self);
        }
        let ghost all = chunk_fields(tag, list.deep_view());
        let mut out: Vec<u8> = self.out;
        let mut i: usize = 0;
        assert(all.take(0) =~= seq![]);
        assert(out@ =~= self.out@ + fields_bytes(all.take(0)));
        while i < list.len()
            invariant
                i <= list@.len(),
                1 <= tag <= 100,
                all == chunk_fields(tag, list.deep_view()),
                writable(all.take(i as int)),
                out@ == self.out@ + fields_bytes(all.take(i as int)),
            decreases list@.len() - i,
        {
            let n: usize = list[i].len();
            put_chunk(&mut out, tag, list[i].as_slice());
            proof {
                let next = chunk_of(tag, list@[i as int]@);
                assert(list@[i as int].deep_view() =~= list@[i as int]@);
                assert(all[i as int] == next);
                assert(list@[i as int]@.len() == n);
                assert(all.take(i + 1) =~= all.take(i as int) + seq![next]);
                fields_bytes_concat(all.take(i as int), seq![next]);
                one_field(next);
                assert(out@ =~= self.out@ + fields_bytes(all.take(i + 1)));
                assert forall|k: int|
                    0 <= k < i + 1 && (#[trigger] all.take(i + 1)[k]).content is Chunk implies all.take(
                    i + 1,
                )[k].content->Chunk_0.len() <= u64::MAX by {
                    if k < i {
                        assert(all.take(i as int)[k] == all.take(i + 1)[k]);
                    }
                }
            }
            i = i + 1;
        }
        assert(all.take(i as int) =~= all);
        proof {
            Self::appended(self.segments@, all);
        }
        Writer { out, segments: Ghost(self.segments@.push(all)) }
    }

    /// Writes a chunk for each text of the list.
    pub fn texts(self, tag: u32, list: &Vec<String>) -> (r: Self)
        requires
            1 <= tag <= 100,
        ensures
            r.segments() == self.segments().push(chunk_fields(tag, utf8_list(list.deep_view()))),
    {
        let mut chunks: Vec<Vec<u8>> = Vec::new();
        let mut i: usize = 0;
        while i < list.len()
            invariant
                i <= list@.len(),
                chunks@.len() == i,
                forall|j: int| 0 <= j < i ==> (#[trigger] chunks@[j])@ == encode_utf8(list@[j]@),
            decreases list@.len() - i,
        {
            chunks.push(crate::text::copy_bytes(list[i].as_str().as_bytes()));
            i = i + 1;
        }
        assert(chunks.deep_view() =~= utf8_list(list.deep_view())) by {
            assert forall|j: int| 0 <= j < chunks@.len() implies chunks.deep_view()[j]
                == #[trigger] utf8_list(list.deep_view())[j] by {
                assert(chunks@[j].deep_view() =~= chunks@[j]@);
            }
        }
        self.chunks(tag, &chunks)
    }

    /// The bytes written.
    pub fn finish(self) -> (r: Vec<u8>)
        ensures
            r@ == fields_bytes(joined(self.segments())),
            writable(joined(self.segments())),
    {
        proof {
            use_type_invariant(&self);
        }
        self.out
    }
}

/// The fields of a message are known to it, where every segment holds contents of
/// the kind of its tag.
pub proof fn joined_known(segments: Seq<Seq<FieldView>>, kinds: Seq<Kind>)
    requires
        segments.len() <= kinds.len(),
        by_tag(segments),
        writable(joined(segments)),
        forall|i: int, k: int|
            0 <= i < segments.len() && 0 <= k < segments[i].len() ==> (
            (#[trigger] segments[i][k]).content is Number <==> kinds[i] is Number),
        kinds.len() <= 100,
    ensures
        forall|j: int| 0 <= j < joined(segments).len() ==> known(#[trigger] joined(segments)[j], kinds),
    decreases segments.len(),
{
    if segments.len() > 0 {
        let init = segments.drop_last();
        let n = segments.len() as int;
        assert forall|i: int, k: int|
            0 <= i < init.len() && 0 <= k < init[i].len() implies (#[trigger] init[i][k]).tag == i + 1
            && (init[i][k].content is Number <==> kinds[i] is Number) by {
            assert(segments[i][k].tag == i + 1);
        }
        let all = joined(segments);
        assert forall|k: int|
            0 <= k < joined(init).len() && (#[trigger] joined(init)[k]).content is Chunk implies joined(
            init,
        )[k].content->Chunk_0.len() <= u64::MAX by {
            assert(all[k] == joined(init)[k]);
        }
        joined_known(init, kinds);
        assert forall|j: int| 0 <= j < all.len() implies known(#[trigger] all[j], kinds) by {
            let m = joined(init).len() as int;
            if j < m {
                assert(all[j] == joined(init)[j]);
            } else {
                assert(all[j] == segments[n - 1][j - m]);
            }
        }
    }
}

/// The number that writes a boolean.
pub open spec fn number_of_bool(b: bool) -> u64 {
    if b {
        1
    } else {
        0
    }
}

/// The number that writes a boolean.
pub fn bool_number(b: bool) -> (r: u64)
    ensures
        r == number_of_bool(b),
{
    if b {
        1
    } else {
        0
    }
}

/// The low half of a number.
pub open spec fn low_u32(v: u64) -> u32 {
    (v % 0x1_0000_0000) as u32
}

/// The low half of a number.
pub fn to_low_u32(v: u64) -> (r: u32)
    ensures
        r == low_u32(v),
{
    (v % 0x1_0000_0000) as u32
}

/// The signed number that shares its bits with `v`.
pub open spec fn signed(v: u64) -> i64 {
    if v <= i64::MAX {
        v as i64
    } else {
        (v - 0x1_0000_0000_0000_0000) as i64
    }
}

/// The signed number that shares its bits with `v`.
pub fn to_signed(v: u64) -> (r: i64)
    ensures
        r == signed(v),
{
    if v <= i64::MAX as u64 {
        v as i64
    } else {
        -1 - ((u64::MAX - v) as i64)
    }
}

/// The number that shares its bits with the signed `v`.
pub open spec fn unsigned(v: i64) -> u64 {
    if v >= 0 {
        v as u64
    } else {
        (v + 0x1_0000_0000_0000_0000) as u64
    }
}

/// The number that shares its bits with the signed `v`.
pub fn to_unsigned(v: i64) -> (r: u64)
    ensures
        r == unsigned(v),
{
    if v >= 0 {
        v as u64
    } else {
        u64::MAX - ((-1 - v) as u64)
    }
}

/// Of a field that is written more than once the last one counts, and one that is
/// not written again stays; what is repeated adds up.
pub proof fn later_fields_count(f: Seq<FieldView>, g: Seq<FieldView>, tag: u32)
    ensures
        contents(g, tag).len() > 0 ==> number_field(f + g, tag) == number_field(g, tag)
            && bytes_field(f + g, tag) == bytes_field(g, tag) && text_field(f + g, tag)
            == text_field(g, tag),
        contents(g, tag).len() == 0 ==> number_field(f + g, tag) == number_field(f, tag)
            && bytes_field(f + g, tag) == bytes_field(f, tag) && text_field(f + g, tag)
            == text_field(f, tag),
        text_list(f + g, tag) == text_list(f, tag) + text_list(g, tag),
        chunk_list(f + g, tag) == chunk_list(f, tag) + chunk_list(g, tag),
        all_text(f + g, tag) <==> all_text(f, tag) && all_text(g, tag),
{
    contents_concat(f, g, tag);
    let a = contents(f, tag);
    let b = contents(g, tag);
    assert(text_list(f + g, tag) =~= text_list(f, tag) + text_list(g, tag));
    assert(chunk_list(f + g, tag) =~= chunk_list(f, tag) + chunk_list(g, tag));
    if b.len() > 0 {
        assert((a + b).last() == b.last());
    } else {
        assert(a + b =~= a);
    }
    if all_text(f, tag) && all_text(g, tag) {
        assert forall|i: int| 0 <= i < (a + b).len() implies is_text(#[trigger] (a + b)[i]) by {
            if i < a.len() {
                assert(is_text(a[i]));
            } else {
                assert(is_text(b[i - a.len()]));
            }
        }
    }
    if all_text(f + g, tag) {
        assert forall|i: int| 0 <= i < a.len() implies is_text(#[trigger] a[i]) by {
            assert(is_text((a + b)[i]));
        }
        assert forall|i: int| 0 <= i < b.len() implies is_text(#[trigger] b[i]) by {
            assert(is_text((a + b)[a.len() + i]));
        }
    }
}

/// A field that is not written is zero, empty or no list.
pub proof fn unwritten_fields_are_empty(f: Seq<FieldView>, tag: u32)
    requires
        contents(f, tag).len() == 0,
    ensures
        number_field(f, tag) == 0,
        bytes_field(f, tag).len() == 0,
        text_list(f, tag).len() == 0,
        chunk_list(f, tag).len() == 0,
{
}

proof fn unknown_number_read(tag: u32, v: u64, rest: Seq<u8>, kinds: Seq<Kind>)
    requires
        kinds.len() < tag <= 1000,
    ensures
        ({
            let bytes = varint((8 * tag) as nat) + varint(v as nat);
            &&& bytes.len() > 0
            &&& read_field(bytes + rest, kinds, false) == Some(
                (Seq::<FieldView>::empty(), bytes.len()),
            )
        }),
{
    varint_bound_u64();
    let key = (8 * tag) as nat;
    let tail = varint(v as nat) + rest;
    let b = varint(key) + varint(v as nat) + rest;
    assert(b =~= varint(key) + tail);
    varint_reads_back(key, tail, VARINT_BYTES as nat);
    assert(b.skip(varint(key).len() as int) =~= tail);
    varint_reads_back(v as nat, rest, VARINT_BYTES as nat);
    assert(read_key(b) == Some((tag, Wire::Varint, varint(key).len())));
}

proof fn unknown_chunk_read(tag: u32, c: Seq<u8>, rest: Seq<u8>, kinds: Seq<Kind>)
    requires
        kinds.len() < tag <= 1000,
        c.len() <= u64::MAX,
    ensures
        ({
            let bytes = varint((8 * tag + 2) as nat) + varint(c.len()) + c;
            &&& bytes.len() > 0
            &&& read_field(bytes + rest, kinds, false) == Some(
                (Seq::<FieldView>::empty(), bytes.len()),
            )
        }),
{
    varint_bound_u64();
    let key = (8 * tag + 2) as nat;
    let tail = varint(c.len()) + (c + rest);
    let b = varint(key) + varint(c.len()) + c + rest;
    assert(b =~= varint(key) + tail);
    varint_reads_back(key, tail, VARINT_BYTES as nat);
    assert(b.skip(varint(key).len() as int) =~= tail);
    varint_reads_back(c.len(), c + rest, VARINT_BYTES as nat);
    assert(read_key(b) == Some((tag, Wire::LengthDelimited, varint(key).len())));
    assert(read_chunk(tail) == Some((varint(c.len()).len(), c.len())));
}

/// A field that the message does not know makes no difference to those around it.
pub proof fn unknown_fields_are_passed_over(field: FieldView, rest: Seq<u8>, kinds: Seq<Kind>)
    requires
        kinds.len() < field.tag <= 1000,
        field.content matches ContentView::Chunk(c) ==> c.len() <= u64::MAX,
    ensures
        read_fields(field_bytes(field) + rest, kinds) == read_fields(rest, kinds),
{
    let bytes = field_bytes(field);
    let b = bytes + rest;
    match field.content {
        ContentView::Number(v) => {
            unknown_number_read(field.tag, v, rest, kinds);
        },
        ContentView::Chunk(c) => {
            unknown_chunk_read(field.tag, c, rest, kinds);
        },
    }
    assert(b.skip(bytes.len() as int) =~= rest);
    if read_fields(rest, kinds) is Some {
        let more = read_fields(rest, kinds)->0;
        assert(Seq::<FieldView>::empty() + more =~= more);
    }
}

/// A signed number is what it is where it fits, and wraps around otherwise; writing
/// and reading it changes nothing.
pub proof fn signed_numbers_wrap_around(v: u64, i: i64)
    ensures
        v <= i64::MAX ==> signed(v) == v,
        v > i64::MAX ==> signed(v) == v - 0x1_0000_0000_0000_0000,
        signed(unsigned(i)) == i,
        i >= 0 ==> unsigned(i) == i,
        low_u32(v) == v % 0x1_0000_0000,
        number_of_bool(true) == 1,
        number_of_bool(false) == 0,
{
}

/// A field that the message knows is read only in the layout of its kind: a number as a
/// varint, and a chunk with its length before it.
pub proof fn known_fields_have_their_layout(b: Seq<u8>, kinds: Seq<Kind>, inner: bool)
    requires
        read_key(b) is Some,
        1 <= (read_key(b)->0).0 <= kinds.len(),
    ensures
        kinds[(read_key(b)->0).0 - 1] is Number && !((read_key(b)->0).1 is Varint) ==> read_field(
            b,
            kinds,
            inner,
        ) is None,
        kinds[(read_key(b)->0).0 - 1] is Chunk && !((read_key(b)->0).1 is LengthDelimited)
            ==> read_field(b, kinds, inner) is None,
        read_field(b, kinds, inner) matches Some((fields, _)) ==> fields.len() == 1 && fields[0].tag
            == (read_key(b)->0).0,
{
}

/// What is zero or empty is not written; anything else is written once, and a list
/// once for each of its elements, empty or not.
pub proof fn defaults_are_not_written(
    tag: u32,
    s: Seq<char>,
    b: Seq<u8>,
    v: u64,
    list: Seq<Seq<u8>>,
)
    ensures
        s.len() == 0 ==> text_fields(tag, s).len() == 0,
        s.len() > 0 ==> text_fields(tag, s) == seq![
            FieldView { tag, content: ContentView::Chunk(encode_utf8(s)) },
        ],
        b.len() == 0 ==> bytes_fields(tag, b).len() == 0,
        b.len() > 0 ==> bytes_fields(tag, b) == seq![
            FieldView { tag, content: ContentView::Chunk(b) },
        ],
        v == 0 ==> number_fields(tag, v).len() == 0,
        v > 0 ==> number_fields(tag, v) == seq![FieldView { tag, content: ContentView::Number(v) }],
        chunk_fields(tag, list).len() == list.len(),
        forall|i: int|
            0 <= i < list.len() ==> (#[trigger] chunk_fields(tag, list)[i]).tag == tag
                && chunk_fields(tag, list)[i].content == ContentView::Chunk(list[i]),
{
    if s.len() == 0 {
        assert(encode_utf8(s) =~= Seq::<u8>::empty());
    } else {
        vstd::utf8::encode_utf8_decode_utf8(s);
        if encode_utf8(s).len() == 0 {
            assert(encode_utf8(s) =~= encode_utf8(Seq::<char>::empty()));
            vstd::utf8::encode_utf8_decode_utf8(Seq::<char>::empty());
        }
    }
}

/// A number is written in groups of seven bits, the lowest first, and every byte but
/// the last says that more follow.
pub proof fn numbers_are_written_low_end_first(v: nat)
    ensures
        v < 128 ==> varint(v) == seq![v as u8],
        v >= 128 ==> varint(v)[0] == 128 + v % 128 && varint(v).drop_first() == varint(v / 128),
        varint(v).len() > 0,
        varint(v).last() < 128,
    decreases v,
{
    if v >= 128 {
        numbers_are_written_low_end_first(v / 128);
        assert(varint(v).drop_first() =~= varint(v / 128));
        assert(varint(v).last() == varint(v / 128).last());
    }
}

} // verus!
