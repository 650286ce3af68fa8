//! The message that opens a session.

use crate::wire::{
    all_chunks, all_text, bytes_field, bytes_fields, bytes_segment, chunk_fields, chunk_list,
    chunks_segment, decode_fields, decode_fields_at, fields_bytes, fields_read_back, get_bytes,
    get_chunks, get_number, get_text, get_texts, joined, joined_known, number_field,
    number_fields, number_segment, read_fields, read_fields_at, signed, text_field, text_fields,
    text_list, text_segment, texts_segment, to_signed, to_unsigned, unsigned, utf8_list, writable,
    Field, FieldView, Kind, Writer,
};
use crate::text_map::{ascending, drop_last_map, in_order, lists, map_of, map_of_entry, TextMap};
use vstd::prelude::*;

verus! {

/// A root that a session works within.
#[derive(Clone, Debug, PartialEq, Eq)]
pub struct Root {
    pub uri: String,
    pub name: String,
}

/// What a [`Root`] holds.
pub struct RootView {
    pub uri: Seq<char>,
    pub name: Seq<char>,
}

impl DeepView for Root {
    type V = RootView;

    open spec fn deep_view(&self) -> RootView {
        RootView {
            uri: self.uri@,
            name: self.name@,
        }
    }
}

impl Default for Root {
    fn default() -> (r: Self)
        ensures
            r.deep_view() == (RootView {
                uri: seq![],
                name: seq![],
            }),
    {
        Root {
            uri: String::new(),
            name: String::new(),
        }
    }
}

impl Root {
    /// The kinds of the fields, by tag.
    pub open spec fn kinds() -> Seq<Kind> {
        seq![Kind::Chunk, Kind::Chunk]
    }

    /// The fields that write the message, by tag.
    pub open spec fn segments(v: RootView) -> Seq<Seq<FieldView>> {
        seq![
            text_fields(1, v.uri),
            text_fields(2, v.name),
        ]
    }

    /// The bytes that write the message.
    pub open spec fn bytes(v: RootView) -> Seq<u8> {
        fields_bytes(joined(Self::segments(v)))
    }

    /// The message that the fields write.
    pub open spec fn from_fields(f: Seq<FieldView>) -> Option<RootView> {
        if all_text(f, 1) && all_text(f, 2) {
            Some(
                RootView {
                    uri: text_field(f, 1),
                    name: text_field(f, 2),
                },
            )
        } else {
            None
        }
    }

    /// The message that the bytes write, and `None` where they write none.
    pub open spec fn from_bytes(b: Seq<u8>) -> Option<RootView> {
        Self::from_bytes_at(b, false)
    }

    /// The message that the bytes write by itself or within another.
    pub open spec fn from_bytes_at(b: Seq<u8>, inner: bool) -> Option<RootView> {
        match read_fields_at(b, Self::kinds(), inner) {
            Some(f) => Self::from_fields(f),
            None => None,
        }
    }

    /// Reads the message from the bytes.
    pub fn decode(bytes: &[u8]) -> (r: Option<Root>)
        ensures
            r is Some <==> Self::from_bytes(bytes@) is Some,
            r is Some ==> r->0.deep_view() == Self::from_bytes(bytes@)->0,
    {
        Self::decode_at(bytes, false)
    }

    fn decode_at(bytes: &[u8], inner: bool) -> (r: Option<Root>)
        ensures
            r is Some <==> Self::from_bytes_at(bytes@, inner) is Some,
            r is Some ==> r->0.deep_view() == Self::from_bytes_at(bytes@, inner)->0,
    {
        let kinds: [Kind; 2] = [Kind::Chunk, Kind::Chunk];
        assert(kinds@ =~= Self::kinds());
        let f: Vec<Field> = match decode_fields_at(bytes, &kinds, inner) {
            Some(f) => f,
            None => return None,
        };
        let uri: String = match get_text(&f, 1) {
            Some(s) => s,
            None => return None,
        };
        let name: String = match get_text(&f, 2) {
            Some(s) => s,
            None => return None,
        };
        Some(
            Root {
                uri,
                name,
            },
        )
    }

    /// Writes the message. It reads back from the bytes.
    pub fn encode_to_vec(&self) -> (r: Vec<u8>)
        ensures
            r@ == Self::bytes(self.deep_view()),
            Self::from_bytes(r@) == Some(self.deep_view()),
            Self::from_bytes_at(r@, true) == Some(self.deep_view()),
    {
        let w: Writer = Writer::new()
            .text(1, self.uri.as_str())
            .text(2, self.name.as_str());
        assert(w.segments() =~= Self::segments(self.deep_view()));
        let r: Vec<u8> = w.finish();
        proof {
            Self::reads_back(self.deep_view());
        }
        r
    }

    /// What the message writes reads back as the message, by itself and within
    /// another, where the lengths of its chunks can be written.
    pub proof fn reads_back(v: RootView)
        requires
            writable(joined(Self::segments(v))),
        ensures
            Self::from_bytes(Self::bytes(v)) == Some(v),
            Self::from_bytes_at(Self::bytes(v), true) == Some(v),
    {
        let s = Self::segments(v);
        joined_known(s, Self::kinds());
        fields_read_back(joined(s), Self::kinds());
        text_segment(s, 1, v.uri);
        text_segment(s, 2, v.name);
    }
}

/// An extension block of a session: the protocol it belongs to, and its bytes.
#[derive(Clone, Debug, PartialEq, Eq)]
pub struct ExtensionEntry {
    pub key: String,
    pub value: Vec<u8>,
}

/// What a [`ExtensionEntry`] holds.
pub struct ExtensionEntryView {
    pub key: Seq<char>,
    pub value: Seq<u8>,
}

impl DeepView for ExtensionEntry {
    type V = ExtensionEntryView;

    open spec fn deep_view(&self) -> ExtensionEntryView {
        ExtensionEntryView {
            key: self.key@,
            value: self.value@,
        }
    }
}

impl Default for ExtensionEntry {
    fn default() -> (r: Self)
        ensures
            r.deep_view() == (ExtensionEntryView {
                key: seq![],
                value: seq![],
            }),
    {
        ExtensionEntry {
            key: String::new(),
            value: Vec::new(),
        }
    }
}

impl ExtensionEntry {
    /// The kinds of the fields, by tag.
    pub open spec fn kinds() -> Seq<Kind> {
        seq![Kind::Chunk, Kind::Chunk]
    }

    /// The fields that write the message, by tag.
    pub open spec fn segments(v: ExtensionEntryView) -> Seq<Seq<FieldView>> {
        seq![
            text_fields(1, v.key),
            bytes_fields(2, v.value),
        ]
    }

    /// The bytes that write the message.
    pub open spec fn bytes(v: ExtensionEntryView) -> Seq<u8> {
        fields_bytes(joined(Self::segments(v)))
    }

    /// The message that the fields write.
    pub open spec fn from_fields(f: Seq<FieldView>) -> Option<ExtensionEntryView> {
        if all_text(f, 1) {
            Some(
                ExtensionEntryView {
                    key: text_field(f, 1),
                    value: bytes_field(f, 2),
                },
            )
        } else {
            None
        }
    }

    /// The message that the bytes write within another, and `None` where they
    /// write none.
    pub open spec fn from_bytes(b: Seq<u8>) -> Option<ExtensionEntryView> {
        match read_fields_at(b, Self::kinds(), true) {
            Some(f) => Self::from_fields(f),
            None => None,
        }
    }

    /// Reads the message from the bytes that write it within another.
    pub fn decode(bytes: &[u8]) -> (r: Option<ExtensionEntry>)
        ensures
            r is Some <==> Self::from_bytes(bytes@) is Some,
            r is Some ==> r->0.deep_view() == Self::from_bytes(bytes@)->0,
    {
        let kinds: [Kind; 2] = [Kind::Chunk, Kind::Chunk];
        assert(kinds@ =~= Self::kinds());
        let f: Vec<Field> = match decode_fields_at(bytes, &kinds, true) {
            Some(f) => f,
            None => return None,
        };
        let key: String = match get_text(&f, 1) {
            Some(s) => s,
            None => return None,
        };
        Some(
            ExtensionEntry {
                key,
                value: get_bytes(&f, 2),
            },
        )
    }

    /// Writes the message. It reads back from the bytes.
    pub fn encode_to_vec(&self) -> (r: Vec<u8>)
        ensures
            r@ == Self::bytes(self.deep_view()),
            Self::from_bytes(r@) == Some(self.deep_view()),
    {
        let w: Writer = Writer::new()
            .text(1, self.key.as_str())
            .bytes(2, self.value.as_slice());
        assert(w.segments() =~= Self::segments(self.deep_view()));
        let r: Vec<u8> = w.finish();
        proof {
            Self::reads_back(self.deep_view());
        }
        r
    }

    /// What the message writes reads back as the message, where the lengths of
    /// its chunks can be written.
    pub proof fn reads_back(v: ExtensionEntryView)
        requires
            writable(joined(Self::segments(v))),
        ensures
            Self::from_bytes(Self::bytes(v)) == Some(v),
    {
        let s = Self::segments(v);
        joined_known(s, Self::kinds());
        fields_read_back(joined(s), Self::kinds());
        text_segment(s, 1, v.key);
        bytes_segment(s, 2, v.value);
    }
}

/// The message that opens a session and binds its terms.
#[derive(Clone, Debug)]
pub struct SessionStartPayload {
    pub intent: String,
    pub participants: Vec<String>,
    pub mode_version: String,
    pub configuration_version: String,
    pub policy_version: String,
    pub ttl_ms: i64,
    pub roots: Vec<Root>,
    pub context_id: String,
    pub extensions: TextMap<Vec<u8>>,
    pub max_suspend_ms: i64,
}

/// What a [`SessionStartPayload`] holds.
pub struct SessionStartPayloadView {
    pub intent: Seq<char>,
    pub participants: Seq<Seq<char>>,
    pub mode_version: Seq<char>,
    pub configuration_version: Seq<char>,
    pub policy_version: Seq<char>,
    pub ttl_ms: i64,
    pub roots: Seq<RootView>,
    pub context_id: Seq<char>,
    pub extensions: Map<Seq<char>, Seq<u8>>,
    pub max_suspend_ms: i64,
}

impl DeepView for SessionStartPayload {
    type V = SessionStartPayloadView;

    open spec fn deep_view(&self) -> SessionStartPayloadView {
        SessionStartPayloadView {
            intent: self.intent@,
            participants: self.participants.deep_view(),
            mode_version: self.mode_version@,
            configuration_version: self.configuration_version@,
            policy_version: self.policy_version@,
            ttl_ms: self.ttl_ms,
            roots: self.roots.deep_view(),
            context_id: self.context_id@,
            extensions: self.extensions@,
            max_suspend_ms: self.max_suspend_ms,
        }
    }
}

impl Default for SessionStartPayload {
    fn default() -> (r: Self)
        ensures
            r.deep_view() == (SessionStartPayloadView {
                intent: seq![],
                participants: seq![],
                mode_version: seq![],
                configuration_version: seq![],
                policy_version: seq![],
                ttl_ms: 0,
                roots: seq![],
                context_id: seq![],
                extensions: Map::empty(),
                max_suspend_ms: 0,
            }),
    {
        let r = SessionStartPayload {
            intent: String::new(),
            participants: Vec::new(),
            mode_version: String::new(),
            configuration_version: String::new(),
            policy_version: String::new(),
            ttl_ms: 0,
            roots: Vec::new(),
            context_id: String::new(),
            extensions: TextMap::new(),
            max_suspend_ms: 0,
        };
        assert(r.participants.deep_view() =~= seq![]);
        assert(r.roots.deep_view() =~= seq![]);
        r
    }
}

/// The roots that the chunks write, and `None` where one writes none.
pub open spec fn roots_of(chunks: Seq<Seq<u8>>) -> Option<Seq<RootView>> {
    if forall|i: int| 0 <= i < chunks.len() ==> Root::from_bytes_at(
        #[trigger] chunks[i],
        true,
    ) is Some {
        Some(Seq::new(chunks.len(), |i: int| Root::from_bytes_at(chunks[i], true)->0))
    } else {
        None
    }
}

/// The extension blocks that the chunks write: the last one of each protocol.
pub open spec fn extensions_of(chunks: Seq<Seq<u8>>) -> Option<Map<Seq<char>, Seq<u8>>>
    decreases chunks.len(),
{
    if chunks.len() == 0 {
        Some(Map::empty())
    } else {
        match (extensions_of(chunks.drop_last()), ExtensionEntry::from_bytes(chunks.last())) {
            (Some(m), Some(e)) => Some(m.insert(e.key, e.value)),
            _ => None,
        }
    }
}

/// The chunks that write the roots.
pub open spec fn root_chunks(roots: Seq<RootView>) -> Seq<Seq<u8>> {
    Seq::new(roots.len(), |i: int| Root::bytes(roots[i]))
}

/// The extension block of an entry.
pub open spec fn extension_entry(e: (Seq<char>, Seq<u8>)) -> ExtensionEntryView {
    ExtensionEntryView { key: e.0, value: e.1 }
}

/// The chunks that write the extension blocks, in the order of their keys.
pub open spec fn extension_chunks(entries: Seq<(Seq<char>, Seq<u8>)>) -> Seq<Seq<u8>> {
    Seq::new(entries.len(), |i: int| ExtensionEntry::bytes(extension_entry(entries[i])))
}

fn decode_roots(chunks: &Vec<Vec<u8>>) -> (r: Option<Vec<Root>>)
    ensures
        r is Some <==> roots_of(chunks.deep_view()) is Some,
        r is Some ==> r->0.deep_view() == roots_of(chunks.deep_view())->0,
{
    let ghost all = chunks.deep_view();
    let mut roots: Vec<Root> = Vec::new();
    let mut i: usize = 0;
    while i < chunks.len()
        invariant
            i <= chunks@.len(),
            all == chunks.deep_view(),
            roots@.len() == i,
            forall|j: int| 0 <= j < i ==> Root::from_bytes_at(#[trigger] all[j], true) is Some,
            forall|j: int|
                0 <= j < i ==> (#[trigger] roots@[j]).deep_view() == Root::from_bytes_at(
                    all[j],
                    true,
                )->0,
        decreases chunks@.len() - i,
    {
        assert(all[i as int] =~= chunks@[i as int]@);
        match Root::decode_at(chunks[i].as_slice(), true) {
            Some(root) => {
                roots.push(root);
            },
            None => {
                assert(Root::from_bytes_at(all[i as int], true) is None);
                return None;
            },
        }
        i = i + 1;
    }
    assert(roots.deep_view() =~= roots_of(all)->0);
    Some(roots)
}

proof fn extensions_prefix(chunks: Seq<Seq<u8>>, n: int)
    requires
        0 <= n <= chunks.len(),
        extensions_of(chunks.take(n)) is None,
    ensures
        extensions_of(chunks) is None,
    decreases chunks.len(),
{
    if n == chunks.len() {
        assert(chunks.take(n) =~= chunks);
    } else {
        assert(chunks.drop_last().take(n) =~= chunks.take(n));
        extensions_prefix(chunks.drop_last(), n);
    }
}

fn decode_extensions(chunks: &Vec<Vec<u8>>) -> (r: Option<TextMap<Vec<u8>>>)
    ensures
        r is Some <==> extensions_of(chunks.deep_view()) is Some,
        r is Some ==> r->0@ == extensions_of(chunks.deep_view())->0,
{
    let ghost all = chunks.deep_view();
    let mut extensions: TextMap<Vec<u8>> = TextMap::new();
    let mut i: usize = 0;
    assert(all.take(0) =~= seq![]);
    while i < chunks.len()
        invariant
            i <= chunks@.len(),
            all == chunks.deep_view(),
            extensions_of(all.take(i as int)) is Some,
            extensions@ == extensions_of(all.take(i as int))->0,
        decreases chunks@.len() - i,
    {
        proof {
            assert(all[i as int] =~= chunks@[i as int]@);
            assert(all.take(i + 1).drop_last() =~= all.take(i as int));
            assert(all.take(i + 1).last() == chunks@[i as int]@);
        }
        match ExtensionEntry::decode(chunks[i].as_slice()) {
            Some(entry) => {
                assert(entry.value.deep_view() =~= entry.value@);
                extensions.insert(entry.key, entry.value);
            },
            None => {
                proof {
                    extensions_prefix(all, i + 1);
                }
                return None;
            },
        }
        i = i + 1;
    }
    assert(all.take(i as int) =~= all);
    Some(extensions)
}

impl SessionStartPayload {
    /// The kinds of the fields, by tag.
    pub open spec fn kinds() -> Seq<Kind> {
        seq![
            Kind::Chunk,
            Kind::Chunk,
            Kind::Chunk,
            Kind::Chunk,
            Kind::Chunk,
            Kind::Number,
            Kind::Chunk,
            Kind::Chunk,
            Kind::Entry,
            Kind::Number,
        ]
    }

    /// The fields that write the message, by tag.
    pub open spec fn segments(v: SessionStartPayloadView) -> Seq<Seq<FieldView>> {
        seq![
            text_fields(1, v.intent),
            chunk_fields(2, utf8_list(v.participants)),
            text_fields(3, v.mode_version),
            text_fields(4, v.configuration_version),
            text_fields(5, v.policy_version),
            number_fields(6, unsigned(v.ttl_ms)),
            chunk_fields(7, root_chunks(v.roots)),
            text_fields(8, v.context_id),
            chunk_fields(9, extension_chunks(in_order(v.extensions))),
            number_fields(10, unsigned(v.max_suspend_ms)),
        ]
    }

    /// The bytes that write the message.
    pub open spec fn bytes(v: SessionStartPayloadView) -> Seq<u8> {
        fields_bytes(joined(Self::segments(v)))
    }

    /// Whether the fields write a message.
    pub open spec fn well_formed(f: Seq<FieldView>) -> bool {
        &&& all_text(f, 1)
        &&& all_text(f, 2)
        &&& all_text(f, 3)
        &&& all_text(f, 4)
        &&& all_text(f, 5)
        &&& all_chunks(f, 7)
        &&& all_text(f, 8)
        &&& all_chunks(f, 9)
        &&& roots_of(chunk_list(f, 7)) is Some
        &&& extensions_of(chunk_list(f, 9)) is Some
    }

    /// The message that the fields write.
    pub open spec fn from_fields(f: Seq<FieldView>) -> Option<SessionStartPayloadView> {
        if Self::well_formed(f) {
            Some(
                SessionStartPayloadView {
                    intent: text_field(f, 1),
                    participants: text_list(f, 2),
                    mode_version: text_field(f, 3),
                    configuration_version: text_field(f, 4),
                    policy_version: text_field(f, 5),
                    ttl_ms: signed(number_field(f, 6)),
                    roots: roots_of(chunk_list(f, 7))->0,
                    context_id: text_field(f, 8),
                    extensions: extensions_of(chunk_list(f, 9))->0,
                    max_suspend_ms: signed(number_field(f, 10)),
                },
            )
        } else {
            None
        }
    }

    /// The message that the bytes write, and `None` where they write none.
    pub open spec fn from_bytes(b: Seq<u8>) -> Option<SessionStartPayloadView> {
        match read_fields(b, Self::kinds()) {
            Some(f) => Self::from_fields(f),
            None => None,
        }
    }

    /// Reads the message from the bytes.
    pub fn decode(bytes: &[u8]) -> (r: Option<SessionStartPayload>)
        ensures
            r is Some <==> Self::from_bytes(bytes@) is Some,
            r is Some ==> r->0.deep_view() == Self::from_bytes(bytes@)->0,
    {
        let kinds: [Kind; 10] = [
            Kind::Chunk,
            Kind::Chunk,
            Kind::Chunk,
            Kind::Chunk,
            Kind::Chunk,
            Kind::Number,
            Kind::Chunk,
            Kind::Chunk,
            Kind::Entry,
            Kind::Number,
        ];
        assert(kinds@ =~= Self::kinds());
        let f: Vec<Field> = match decode_fields(bytes, &kinds) {
            Some(f) => f,
            None => return None,
        };
        let intent: String = match get_text(&f, 1) {
            Some(s) => s,
            None => return None,
        };
        let participants: Vec<String> = match get_texts(&f, 2) {
            Some(list) => list,
            None => return None,
        };
        let mode_version: String = match get_text(&f, 3) {
            Some(s) => s,
            None => return None,
        };
        let configuration_version: String = match get_text(&f, 4) {
            Some(s) => s,
            None => return None,
        };
        let policy_version: String = match get_text(&f, 5) {
            Some(s) => s,
            None => return None,
        };
        let context_id: String = match get_text(&f, 8) {
            Some(s) => s,
            None => return None,
        };
        let root_list: Vec<Vec<u8>> = match get_chunks(&f, 7) {
            Some(list) => list,
            None => return None,
        };
        let roots: Vec<Root> = match decode_roots(&root_list) {
            Some(list) => list,
            None => return None,
        };
        let extension_list: Vec<Vec<u8>> = match get_chunks(&f, 9) {
            Some(list) => list,
            None => return None,
        };
        let extensions: TextMap<Vec<u8>> = match decode_extensions(&extension_list) {
            Some(map) => map,
            None => return None,
        };
        let ttl_ms: i64 = to_signed(get_number(&f, 6));
        let max_suspend_ms: i64 = to_signed(get_number(&f, 10));
        Some(
            SessionStartPayload {
                intent,
                participants,
                mode_version,
                configuration_version,
                policy_version,
                ttl_ms,
                roots,
                context_id,
                extensions,
                max_suspend_ms,
            },
        )
    }

    fn encode_roots(&self) -> (r: Vec<Vec<u8>>)
        ensures
            r.deep_view() == root_chunks(self.deep_view().roots),
            forall|i: int|
                0 <= i < self.roots@.len() ==> Root::from_bytes_at(
                    Root::bytes(#[trigger] self.deep_view().roots[i]),
                    true,
                ) == Some(self.deep_view().roots[i]),
    {
        let ghost roots = self.roots.deep_view();
        let mut r: Vec<Vec<u8>> = Vec::new();
        let mut i: usize = 0;
        while i < self.roots.len()
            invariant
                i <= self.roots@.len(),
                roots == self.roots.deep_view(),
                r@.len() == i,
                forall|j: int| 0 <= j < i ==> (#[trigger] r@[j])@ == Root::bytes(roots[j]),
                forall|j: int|
                    0 <= j < i ==> Root::from_bytes_at(
                        Root::bytes(#[trigger] roots[j]),
                        true,
                    ) == Some(roots[j]),
            decreases self.roots@.len() - i,
        {
            r.push(self.roots[i].encode_to_vec());
            i = i + 1;
        }
        assert(r.deep_view() =~= root_chunks(roots)) by {
            assert forall|j: int| 0 <= j < r@.len() implies r.deep_view()[j]
                == #[trigger] root_chunks(roots)[j] by {
                assert(r@[j].deep_view() =~= r@[j]@);
            }
        }
        r
    }

    fn encode_extensions(&self) -> (r: Vec<Vec<u8>>)
        ensures
            lists(in_order(self.extensions@), self.extensions@),
            r.deep_view() == extension_chunks(in_order(self.extensions@)),
            forall|i: int|
                0 <= i < in_order(self.extensions@).len() ==> ExtensionEntry::from_bytes(
                    ExtensionEntry::bytes(extension_entry(#[trigger] in_order(self.extensions@)[i])),
                ) == Some(extension_entry(in_order(self.extensions@)[i])),
    {
        let ghost entries = in_order(self.extensions@);
        let n: usize = self.extensions.len();
        let mut r: Vec<Vec<u8>> = Vec::new();
        let mut i: usize = 0;
        while i < n
            invariant
                i <= n,
                entries == in_order(self.extensions@),
                n == entries.len(),
                r@.len() == i,
                forall|j: int|
                    0 <= j < i ==> (#[trigger] r@[j])@ == ExtensionEntry::bytes(
                        extension_entry(entries[j]),
                    ),
                forall|j: int|
                    0 <= j < i ==> ExtensionEntry::from_bytes(
                        ExtensionEntry::bytes(extension_entry(#[trigger] entries[j])),
                    ) == Some(extension_entry(entries[j])),
            decreases n - i,
        {
            let value: &Vec<u8> = self.extensions.value_at(i);
            let entry = ExtensionEntry {
                key: self.extensions.key_at(i).to_owned(),
                value: crate::text::copy_bytes(value.as_slice()),
            };
            assert(value.deep_view() =~= value@);
            assert(entry.deep_view() == extension_entry(entries[i as int]));
            r.push(entry.encode_to_vec());
            i = i + 1;
        }
        assert(r.deep_view() =~= extension_chunks(entries)) by {
            assert forall|j: int| 0 <= j < r@.len() implies r.deep_view()[j]
                == #[trigger] extension_chunks(entries)[j] by {
                assert(r@[j].deep_view() =~= r@[j]@);
            }
        }
        r
    }

    /// Writes the message. It reads back from the bytes.
    pub fn encode_to_vec(&self) -> (r: Vec<u8>)
        ensures
            r@ == Self::bytes(self.deep_view()),
            Self::from_bytes(r@) == Some(self.deep_view()),
    {
        let roots: Vec<Vec<u8>> = self.encode_roots();
        let extensions: Vec<Vec<u8>> = self.encode_extensions();
        let w: Writer = Writer::new()
            .text(1, self.intent.as_str())
            .texts(2, &self.participants)
            .text(3, self.mode_version.as_str())
            .text(4, self.configuration_version.as_str())
            .text(5, self.policy_version.as_str())
            .number(6, to_unsigned(self.ttl_ms))
            .chunks(7, &roots)
            .text(8, self.context_id.as_str())
            .chunks(9, &extensions)
            .number(10, to_unsigned(self.max_suspend_ms));
        assert(w.segments() =~= Self::segments(self.deep_view()));
        let r: Vec<u8> = w.finish();
        proof {
            Self::reads_back(self.deep_view());
        }
        r
    }

    /// What the message writes reads back as the message, where the lengths of
    /// its chunks can be written and its parts read back.
    #[verifier::rlimit(60)]
    pub proof fn reads_back(v: SessionStartPayloadView)
        requires
            writable(joined(Self::segments(v))),
            lists(in_order(v.extensions), v.extensions),
            forall|i: int|
                0 <= i < v.roots.len() ==> Root::from_bytes_at(
                    Root::bytes(#[trigger] v.roots[i]),
                    true,
                ) == Some(v.roots[i]),
            forall|i: int|
                0 <= i < in_order(v.extensions).len() ==> ExtensionEntry::from_bytes(
                    ExtensionEntry::bytes(extension_entry(#[trigger] in_order(v.extensions)[i])),
                ) == Some(extension_entry(in_order(v.extensions)[i])),
        ensures
            Self::from_bytes(Self::bytes(v)) == Some(v),
    {
        let s = Self::segments(v);
        joined_known(s, Self::kinds());
        fields_read_back(joined(s), Self::kinds());
        text_segment(s, 1, v.intent);
        texts_segment(s, 2, v.participants);
        text_segment(s, 3, v.mode_version);
        text_segment(s, 4, v.configuration_version);
        text_segment(s, 5, v.policy_version);
        number_segment(s, 6, unsigned(v.ttl_ms));
        chunks_segment(s, 7, root_chunks(v.roots));
        text_segment(s, 8, v.context_id);
        let entries = in_order(v.extensions);
        chunks_segment(s, 9, extension_chunks(entries));
        number_segment(s, 10, unsigned(v.max_suspend_ms));
        let roots = root_chunks(v.roots);
        assert forall|i: int| 0 <= i < roots.len() implies Root::from_bytes_at(
            #[trigger] roots[i],
            true,
        ) == Some(v.roots[i]) by {}
        assert(roots_of(roots)->0 =~= v.roots);
        extensions_read_back(entries);
    }
}

proof fn extensions_read_back(entries: Seq<(Seq<char>, Seq<u8>)>)
    requires
        ascending(entries),
        forall|i: int|
            0 <= i < entries.len() ==> ExtensionEntry::from_bytes(
                ExtensionEntry::bytes(extension_entry(#[trigger] entries[i])),
            ) == Some(extension_entry(entries[i])),
    ensures
        extensions_of(extension_chunks(entries)) == Some(map_of(entries)),
    decreases entries.len(),
{
    let chunks = extension_chunks(entries);
    if entries.len() == 0 {
        assert(map_of(entries) =~= Map::empty());
    } else {
        let init = entries.drop_last();
        assert(ascending(init));
        assert forall|i: int| 0 <= i < init.len() implies ExtensionEntry::from_bytes(
            ExtensionEntry::bytes(extension_entry(#[trigger] init[i])),
        ) == Some(extension_entry(init[i])) by {
            assert(init[i] == entries[i]);
        }
        extensions_read_back(init);
        assert(chunks.drop_last() =~= extension_chunks(init));
        assert(chunks.last() == ExtensionEntry::bytes(extension_entry(entries.last())));
        drop_last_map(entries);
        map_of_entry(entries, entries.len() - 1);
        assert(map_of(init).insert(entries.last().0, entries.last().1) =~= map_of(entries));
    }
}

} // verus!
