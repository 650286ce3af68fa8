//! JSON documents. `serde_json` parses and prints them; what a document holds
//! is stated over [`JsonView`], and the readers below take it apart one layer at
//! a time.

use crate::double::{integer_bits, Double};
use crate::json_text::is_compact;
use crate::text::same;
use vstd::prelude::*;

verus! {

/// A declaration of `serde_json::Value`, a JSON document.
#[verifier::external_type_specification]
#[verifier::external_body]
pub struct ExValue(serde_json::Value);

/// A JSON number: an integer, or the double with the given bits.
pub enum NumberView {
    Integer(int),
    Real(u64),
}

/// What a JSON document holds. The members of an object stand in the order in
/// which it holds them.
pub enum JsonView {
    Null,
    Bool(bool),
    Number(NumberView),
    Text(Seq<char>),
    Array(Seq<JsonView>),
    Object(Seq<(Seq<char>, JsonView)>),
    /// What no document can hold.
    Opaque,
}

/// What the document holds.
pub uninterp spec fn json_of(value: serde_json::Value) -> JsonView;

/// What the documents of a list hold.
pub open spec fn jsons(list: Seq<serde_json::Value>) -> Seq<JsonView> {
    Seq::new(list.len(), |i: int| json_of(list[i]))
}

/// What the members of an object hold.
pub open spec fn members_view(
    list: Seq<(String, serde_json::Value)>,
) -> Seq<(Seq<char>, JsonView)> {
    Seq::new(list.len(), |i: int| (list[i].0@, json_of(list[i].1)))
}

/// Whether no key occurs twice.
pub open spec fn distinct_keys<T>(members: Seq<(Seq<char>, T)>) -> bool {
    forall|i: int, j: int|
        0 <= i < j < members.len() ==> #[trigger] members[i].0 != #[trigger] members[j].0
}

/// The readings of a JSON number: as a `u64`, as an `i64`, and as the bits of a
/// double.
#[derive(Clone, Copy, Debug, PartialEq, Eq)]
pub struct JsonNumber {
    pub unsigned: Option<u64>,
    pub signed: Option<i64>,
    pub double: Option<u64>,
}

/// Whether the readings are those of the number.
pub open spec fn reads(n: JsonNumber, number: NumberView) -> bool {
    match number {
        NumberView::Integer(i) => {
            &&& i64::MIN <= i <= u64::MAX
            &&& n.unsigned == if i >= 0 {
                Some(i as u64)
            } else {
                None::<u64>
            }
            &&& n.signed == if i <= i64::MAX {
                Some(i as i64)
            } else {
                None::<i64>
            }
        },
        NumberView::Real(bits) => {
            &&& n.unsigned is None
            &&& n.signed is None
            &&& n.double == Some(bits)
        },
    }
}

/// The outermost layer of a document.
pub enum Json {
    Null,
    Bool(bool),
    Number(JsonNumber),
    Text(String),
    Array(Vec<serde_json::Value>),
    Object(Vec<(String, serde_json::Value)>),
}

/// Whether the layer is the outermost one of the document.
pub open spec fn is_layer(layer: Json, view: JsonView) -> bool {
    match layer {
        Json::Null => view is Null,
        Json::Bool(b) => view == JsonView::Bool(b),
        Json::Number(n) => view is Number && reads(n, view->Number_0),
        Json::Text(s) => view == JsonView::Text(s@),
        Json::Array(list) => view == JsonView::Array(jsons(list@)),
        Json::Object(list) => view == JsonView::Object(members_view(list@)),
    }
}

/// `Value::clone`: a document that holds the same.
pub assume_specification[ <serde_json::Value as Clone>::clone ](
    value: &serde_json::Value,
) -> (r: serde_json::Value)
    ensures
        json_of(r) == json_of(*value),
;

/// Matches on `serde_json::Value`: the variant of the document with what it
/// carries. `Number::as_u64` and `Number::as_i64` read an integer where it fits,
/// and nothing from a double, whose bits `Number::as_f64` gives.
#[verifier::external_body]
pub(crate) fn open(value: serde_json::Value) -> (r: Json)
    ensures
        is_layer(r, json_of(value)),
{
    match value {
        serde_json::Value::Null => Json::Null,
        serde_json::Value::Bool(b) => Json::Bool(b),
        serde_json::Value::Number(n) => Json::Number(
            JsonNumber {
                unsigned: n.as_u64(),
                signed: n.as_i64(),
                double: n.as_f64().map(|x| x.to_bits()),
            },
        ),
        serde_json::Value::String(s) => Json::Text(s),
        serde_json::Value::Array(list) => Json::Array(list),
        serde_json::Value::Object(members) => Json::Object(members.into_iter().collect()),
    }
}

/// A document to be built from its parts.
pub enum Part {
    Null,
    Bool(bool),
    Unsigned(u64),
    Signed(i64),
    Text(String),
    Array(Vec<serde_json::Value>),
    Object(Vec<(String, serde_json::Value)>),
}

/// What the document built from the part holds.
pub open spec fn part_view(part: Part) -> JsonView {
    match part {
        Part::Null => JsonView::Null,
        Part::Bool(b) => JsonView::Bool(b),
        Part::Unsigned(n) => JsonView::Number(NumberView::Integer(n as int)),
        Part::Signed(n) => JsonView::Number(NumberView::Integer(n as int)),
        Part::Text(s) => JsonView::Text(s@),
        Part::Array(list) => JsonView::Array(jsons(list@)),
        Part::Object(list) => JsonView::Object(members_view(list@)),
    }
}

/// The variants of `serde_json::Value`, and `Value::from` for integers: the
/// document with the given content. The members of an object keep their order
/// (`serde_json::Map` is built with `preserve_order`).
#[verifier::external_body]
pub(crate) fn close(part: Part) -> (r: serde_json::Value)
    requires
        part is Object ==> distinct_keys(members_view(part->Object_0@)),
    ensures
        json_of(r) == part_view(part),
{
    match part {
        Part::Null => serde_json::Value::Null,
        Part::Bool(b) => serde_json::Value::Bool(b),
        Part::Unsigned(n) => serde_json::Value::from(n),
        Part::Signed(n) => serde_json::Value::from(n),
        Part::Text(s) => serde_json::Value::String(s),
        Part::Array(list) => serde_json::Value::Array(list),
        Part::Object(list) => serde_json::Value::Object(list.into_iter().collect()),
    }
}

/// What the bytes hold as a JSON document, and `None` where they are none.
pub uninterp spec fn json_parse(bytes: Seq<u8>) -> Option<JsonView>;

/// `serde_json::from_slice`: the document that the bytes write, which depends on
/// the bytes alone.
#[verifier::external_body]
pub(crate) fn parse(bytes: &[u8]) -> (r: Option<serde_json::Value>)
    ensures
        r is Some <==> json_parse(bytes@) is Some,
        r is Some ==> json_of(r->0) == json_parse(bytes@)->0,
{
    serde_json::from_slice::<serde_json::Value>(bytes).ok()
}

/// The compact text of a document.
pub uninterp spec fn json_text(view: JsonView) -> Seq<u8>;

/// Whether the document reads back as it was written: no double in it, no key
/// twice in an object, and arrays and objects nested at most `depth` deep.
pub open spec fn readable(view: JsonView, depth: nat) -> bool
    decreases view,
{
    match view {
        JsonView::Null => true,
        JsonView::Bool(_) => true,
        JsonView::Number(NumberView::Integer(i)) => i64::MIN <= i <= u64::MAX,
        JsonView::Number(NumberView::Real(_)) => false,
        JsonView::Opaque => false,
        JsonView::Text(_) => true,
        JsonView::Array(list) => {
            &&& depth > 0
            &&& forall|i: int|
                0 <= i < list.len() ==> readable(#[trigger] list[i], (depth - 1) as nat)
        },
        JsonView::Object(members) => {
            &&& depth > 0
            &&& distinct_keys(members)
            &&& forall|i: int|
                0 <= i < members.len() ==> readable((#[trigger] members[i]).1, (depth - 1) as nat)
        },
    }
}

/// How deep arrays and objects may nest in a text that `serde_json` reads.
pub const MAX_DEPTH: u64 = 127;

/// `serde_json::to_vec`: the compact text of the document, which depends on what
/// it holds alone and is always produced. No document has an empty text. The text
/// of an array or an object is made of the texts of its parts, with commas and
/// colons and no space between them, and each part ends where it ends by itself. A
/// document without doubles that does not nest deeper than [`MAX_DEPTH`] reads
/// back from its text.
#[verifier::external_body]
pub(crate) fn print(value: &serde_json::Value) -> (r: Vec<u8>)
    ensures
        r@ == json_text(json_of(*value)),
        r@.len() > 0,
        is_compact(json_of(*value), r@),
        readable(json_of(*value), MAX_DEPTH as nat) ==> json_parse(r@) == Some(json_of(*value)),
{
    serde_json::to_vec(value).unwrap_or_default()
}

// ---------------------------------------------------------------------------
// Objects
// ---------------------------------------------------------------------------

/// The value of the first member with the key.
pub open spec fn member(members: Seq<(Seq<char>, JsonView)>, key: Seq<char>) -> Option<JsonView>
    decreases members.len(),
{
    if members.len() == 0 {
        None
    } else if members[0].0 == key {
        Some(members[0].1)
    } else {
        member(members.drop_first(), key)
    }
}

/// Whether more than one member has the key.
pub open spec fn repeated(members: Seq<(Seq<char>, JsonView)>, key: Seq<char>) -> bool {
    exists|i: int, j: int|
        0 <= i < j < members.len() && #[trigger] members[i].0 == key && #[trigger] members[j].0
            == key
}

/// The first member with a key is the one at the place of the key, where no key
/// occurs twice.
pub proof fn member_at(members: Seq<(Seq<char>, JsonView)>, i: int)
    requires
        distinct_keys(members),
        0 <= i < members.len(),
    ensures
        member(members, members[i].0) == Some(members[i].1),
        !repeated(members, members[i].0),
    decreases members.len(),
{
    if i > 0 {
        let rest = members.drop_first();
        assert(members[0].0 != members[i].0);
        assert forall|a: int, b: int| 0 <= a < b < rest.len() implies #[trigger] rest[a].0
            != #[trigger] rest[b].0 by {
            assert(members[a + 1].0 != members[b + 1].0);
        }
        member_at(rest, i - 1);
    }
}

/// The value of the first member with the key.
pub fn find_member<'a>(members: &'a Vec<(String, serde_json::Value)>, key: &str) -> (r: Option<
    &'a serde_json::Value,
>)
    ensures
        r is Some <==> member(members_view(members@), key@) is Some,
        r is Some ==> json_of(*r->0) == member(members_view(members@), key@)->0,
{
    let ghost all = members_view(members@);
    assert(all.skip(0) =~= all);
    let mut i: usize = 0;
    while i < members.len()
        invariant
            i <= members@.len(),
            all == members_view(members@),
            member(all, key@) == member(all.skip(i as int), key@),
        decreases members@.len() - i,
    {
        if same(members[i].0.as_str(), key) {
            assert(all.skip(i as int)[0] == all[i as int]);
            return Some(&members[i].1);
        }
        assert(all.skip(i as int).drop_first() =~= all.skip(i + 1));
        i = i + 1;
    }
    None
}

/// What a record is read from: an object, or an array of its fields in order.
pub enum Record {
    Named(Vec<(String, serde_json::Value)>),
    Listed(Vec<serde_json::Value>),
}

/// Whether the document can be a record of `n` fields.
pub open spec fn is_record(view: JsonView, n: nat) -> bool {
    match view {
        JsonView::Object(_) => true,
        JsonView::Array(list) => list.len() <= n,
        _ => false,
    }
}

/// The field of a record: by its name in an object, by its place in an array.
pub open spec fn field(view: JsonView, i: int, name: Seq<char>) -> Option<JsonView> {
    match view {
        JsonView::Object(members) => member(members, name),
        JsonView::Array(list) => if 0 <= i < list.len() {
            Some(list[i])
        } else {
            None
        },
        _ => None,
    }
}

/// The record's document.
pub open spec fn record_view(record: Record) -> JsonView {
    match record {
        Record::Named(members) => JsonView::Object(members_view(members@)),
        Record::Listed(list) => JsonView::Array(jsons(list@)),
    }
}

impl Record {
    /// Reads a record of at most `n` fields.
    pub fn read(value: &serde_json::Value, n: usize) -> (r: Option<Record>)
        ensures
            r is Some <==> is_record(json_of(*value), n as nat),
            r is Some ==> record_view(r->0) == json_of(*value),
    {
        match open(value.clone()) {
            Json::Object(members) => Some(Record::Named(members)),
            Json::Array(list) => {
                if list.len() <= n {
                    Some(Record::Listed(list))
                } else {
                    None
                }
            },
            _ => None,
        }
    }

    /// The field of the record.
    pub fn field(&self, i: usize, name: &str) -> (r: Option<&serde_json::Value>)
        ensures
            r is Some <==> field(record_view(*self), i as int, name@) is Some,
            r is Some ==> json_of(*r->0) == field(record_view(*self), i as int, name@)->0,
    {
        match self {
            Record::Named(members) => find_member(members, name),
            Record::Listed(list) => {
                if i < list.len() {
                    Some(&list[i])
                } else {
                    None
                }
            },
        }
    }

    /// Whether the fields are told apart by their places.
    pub fn is_listed(&self) -> (r: bool)
        ensures
            r == (record_view(*self) is Array),
    {
        match self {
            Record::Named(_) => false,
            Record::Listed(_) => true,
        }
    }
}

// ---------------------------------------------------------------------------
// Scalars and lists
// ---------------------------------------------------------------------------

/// The text of a JSON string.
pub open spec fn text_of(view: JsonView) -> Option<Seq<char>> {
    match view {
        JsonView::Text(s) => Some(s),
        _ => None,
    }
}

/// The value of a JSON boolean.
pub open spec fn bool_of(view: JsonView) -> Option<bool> {
    match view {
        JsonView::Bool(b) => Some(b),
        _ => None,
    }
}

/// The value of a JSON integer.
pub open spec fn integer_of(view: JsonView) -> Option<int> {
    match view {
        JsonView::Number(NumberView::Integer(i)) => Some(i),
        _ => None,
    }
}

/// The value of a JSON integer from `low` to `high`.
pub open spec fn integer_within(view: JsonView, low: int, high: int) -> Option<int> {
    match integer_of(view) {
        Some(i) => if low <= i <= high {
            Some(i)
        } else {
            None
        },
        None => None,
    }
}

/// The text of a JSON string.
pub fn read_text(value: &serde_json::Value) -> (r: Option<String>)
    ensures
        r is Some <==> text_of(json_of(*value)) is Some,
        r is Some ==> r->0@ == text_of(json_of(*value))->0,
{
    match open(value.clone()) {
        Json::Text(s) => Some(s),
        _ => None,
    }
}

/// The value of a JSON boolean.
pub fn read_bool(value: &serde_json::Value) -> (r: Option<bool>)
    ensures
        r == bool_of(json_of(*value)),
{
    match open(value.clone()) {
        Json::Bool(b) => Some(b),
        _ => None,
    }
}

/// The value of a JSON integer that a `u64` holds.
pub fn read_u64(value: &serde_json::Value) -> (r: Option<u64>)
    ensures
        r is Some <==> integer_within(json_of(*value), 0, u64::MAX as int) is Some,
        r is Some ==> r->0 == integer_within(json_of(*value), 0, u64::MAX as int)->0,
{
    match open(value.clone()) {
        Json::Number(n) => n.unsigned,
        _ => None,
    }
}

/// The value of a JSON integer that a `u32` holds.
pub fn read_u32(value: &serde_json::Value) -> (r: Option<u32>)
    ensures
        r is Some <==> integer_within(json_of(*value), 0, u32::MAX as int) is Some,
        r is Some ==> r->0 == integer_within(json_of(*value), 0, u32::MAX as int)->0,
{
    match read_u64(value) {
        Some(n) => {
            if n <= u32::MAX as u64 {
                Some(n as u32)
            } else {
                None
            }
        },
        None => None,
    }
}

/// The value of a JSON integer that a byte holds.
pub fn read_u8(value: &serde_json::Value) -> (r: Option<u8>)
    ensures
        r is Some <==> integer_within(json_of(*value), 0, u8::MAX as int) is Some,
        r is Some ==> r->0 == integer_within(json_of(*value), 0, u8::MAX as int)->0,
{
    match read_u64(value) {
        Some(n) => {
            if n <= u8::MAX as u64 {
                Some(n as u8)
            } else {
                None
            }
        },
        None => None,
    }
}

/// The value of a JSON integer that a `usize` holds.
pub fn read_usize(value: &serde_json::Value) -> (r: Option<usize>)
    ensures
        r is Some <==> integer_within(json_of(*value), 0, usize::MAX as int) is Some,
        r is Some ==> r->0 == integer_within(json_of(*value), 0, usize::MAX as int)->0,
{
    match read_u64(value) {
        Some(n) => {
            if n <= usize::MAX as u64 {
                Some(n as usize)
            } else {
                None
            }
        },
        None => None,
    }
}

/// The value of a JSON integer that an `i64` holds.
pub fn read_i64(value: &serde_json::Value) -> (r: Option<i64>)
    ensures
        r is Some <==> integer_within(json_of(*value), i64::MIN as int, i64::MAX as int) is Some,
        r is Some ==> r->0 == integer_within(
            json_of(*value),
            i64::MIN as int,
            i64::MAX as int,
        )->0,
{
    match open(value.clone()) {
        Json::Number(n) => n.signed,
        _ => None,
    }
}

/// The bits of a JSON number as a double.
pub open spec fn double_of(view: JsonView) -> Option<u64> {
    match view {
        JsonView::Number(NumberView::Integer(i)) => Some(integer_bits(i)),
        JsonView::Number(NumberView::Real(bits)) => Some(bits),
        _ => None,
    }
}

/// The value of a JSON number as a double.
pub fn read_double(value: &serde_json::Value) -> (r: Option<Double>)
    ensures
        r is Some <==> double_of(json_of(*value)) is Some,
        r is Some ==> (r->0).bits == double_of(json_of(*value))->0,
{
    match open(value.clone()) {
        Json::Number(n) => {
            match n.unsigned {
                Some(i) => Some(Double::from_u64(i)),
                None => {
                    match n.signed {
                        Some(i) => Some(Double::from_negative(i)),
                        None => {
                            match n.double {
                                Some(bits) => Some(Double::from_bits(bits)),
                                None => None,
                            }
                        },
                    }
                },
            }
        },
        _ => None,
    }
}

/// The texts of a JSON array of strings.
pub open spec fn texts_of(view: JsonView) -> Option<Seq<Seq<char>>> {
    match view {
        JsonView::Array(list) => if forall|i: int| 0 <= i < list.len() ==> #[trigger] list[i] is Text {
            Some(Seq::new(list.len(), |i: int| list[i]->Text_0))
        } else {
            None
        },
        _ => None,
    }
}

/// The texts of a JSON array of strings.
pub fn read_texts(value: &serde_json::Value) -> (r: Option<Vec<String>>)
    ensures
        r is Some <==> texts_of(json_of(*value)) is Some,
        r is Some ==> r->0.deep_view() == texts_of(json_of(*value))->0,
{
    match open(value.clone()) {
        Json::Array(list) => {
            let mut r: Vec<String> = Vec::new();
            let mut i: usize = 0;
            while i < list.len()
                invariant
                    i <= list@.len(),
                    json_of(*value) == JsonView::Array(jsons(list@)),
                    r@.len() == i,
                    forall|j: int| 0 <= j < i ==> #[trigger] jsons(list@)[j] is Text,
                    forall|j: int| 0 <= j < i ==> (#[trigger] r@[j])@ == jsons(list@)[j]->Text_0,
                decreases list@.len() - i,
            {
                match read_text(&list[i]) {
                    Some(s) => {
                        r.push(s);
                    },
                    None => {
                        assert(!(jsons(list@)[i as int] is Text));
                        return None;
                    },
                }
                i = i + 1;
            }
            assert(r.deep_view() =~= texts_of(JsonView::Array(jsons(list@)))->0);
            Some(r)
        },
        _ => None,
    }
}

/// The name of a variant without fields: a string, or an object whose only
/// member has that key and the value `null`.
pub open spec fn variant_of(view: JsonView) -> Option<Seq<char>> {
    match view {
        JsonView::Text(s) => Some(s),
        JsonView::Object(members) => if members.len() == 1 && members[0].1 is Null {
            Some(members[0].0)
        } else {
            None
        },
        _ => None,
    }
}

/// The name of a variant without fields.
pub fn read_variant(value: &serde_json::Value) -> (r: Option<String>)
    ensures
        r is Some <==> variant_of(json_of(*value)) is Some,
        r is Some ==> r->0@ == variant_of(json_of(*value))->0,
{
    match open(value.clone()) {
        Json::Text(s) => Some(s),
        Json::Object(members) => {
            if members.len() == 1 {
                assert(members_view(members@)[0] == (members@[0].0@, json_of(members@[0].1)));
                match open(members[0].1.clone()) {
                    Json::Null => Some(members[0].0.clone()),
                    _ => None,
                }
            } else {
                None
            }
        },
        _ => None,
    }
}

// ---------------------------------------------------------------------------
// Fields with a default
// ---------------------------------------------------------------------------

/// The text of a field, or the default where the record lacks it.
pub open spec fn text_or(view: JsonView, i: int, name: Seq<char>, default: Seq<char>) -> Option<
    Seq<char>,
> {
    match field(view, i, name) {
        Some(v) => text_of(v),
        None => Some(default),
    }
}

/// The boolean of a field, or `false` where the record lacks it.
pub open spec fn bool_or_false(view: JsonView, i: int, name: Seq<char>) -> Option<bool> {
    match field(view, i, name) {
        Some(v) => bool_of(v),
        None => Some(false),
    }
}

/// The integer of a field, or the default where the record lacks it.
pub open spec fn integer_or(
    view: JsonView,
    i: int,
    name: Seq<char>,
    low: int,
    high: int,
    default: int,
) -> Option<int> {
    match field(view, i, name) {
        Some(v) => integer_within(v, low, high),
        None => Some(default),
    }
}

/// The double of a field, or the default where the record lacks it.
pub open spec fn double_or(view: JsonView, i: int, name: Seq<char>, default: u64) -> Option<u64> {
    match field(view, i, name) {
        Some(v) => double_of(v),
        None => Some(default),
    }
}

/// The texts of a field, or none where the record lacks it.
pub open spec fn texts_or_none(view: JsonView, i: int, name: Seq<char>) -> Option<Seq<Seq<char>>> {
    match field(view, i, name) {
        Some(v) => texts_of(v),
        None => Some(seq![]),
    }
}

impl Record {
    /// The text of a field, or the default.
    pub fn text_or(&self, i: usize, name: &str, default: &str) -> (r: Option<String>)
        ensures
            r is Some <==> text_or(record_view(*self), i as int, name@, default@) is Some,
            r is Some ==> r->0@ == text_or(record_view(*self), i as int, name@, default@)->0,
    {
        match self.field(i, name) {
            Some(v) => read_text(v),
            None => Some(default.to_owned()),
        }
    }

    /// The boolean of a field, or `false`.
    pub fn bool_or_false(&self, i: usize, name: &str) -> (r: Option<bool>)
        ensures
            r == bool_or_false(record_view(*self), i as int, name@),
    {
        match self.field(i, name) {
            Some(v) => read_bool(v),
            None => Some(false),
        }
    }

    /// The integer of a field, or the default.
    pub fn u64_or(&self, i: usize, name: &str, default: u64) -> (r: Option<u64>)
        ensures
            r is Some <==> integer_or(
                record_view(*self),
                i as int,
                name@,
                0,
                u64::MAX as int,
                default as int,
            ) is Some,
            r is Some ==> r->0 == integer_or(
                record_view(*self),
                i as int,
                name@,
                0,
                u64::MAX as int,
                default as int,
            )->0,
    {
        match self.field(i, name) {
            Some(v) => read_u64(v),
            None => Some(default),
        }
    }

    /// The integer of a field, or the default.
    pub fn u32_or(&self, i: usize, name: &str, default: u32) -> (r: Option<u32>)
        ensures
            r is Some <==> integer_or(
                record_view(*self),
                i as int,
                name@,
                0,
                u32::MAX as int,
                default as int,
            ) is Some,
            r is Some ==> r->0 == integer_or(
                record_view(*self),
                i as int,
                name@,
                0,
                u32::MAX as int,
                default as int,
            )->0,
    {
        match self.field(i, name) {
            Some(v) => read_u32(v),
            None => Some(default),
        }
    }

    /// The integer of a field, or the default.
    pub fn usize_or(&self, i: usize, name: &str, default: usize) -> (r: Option<usize>)
        ensures
            r is Some <==> integer_or(
                record_view(*self),
                i as int,
                name@,
                0,
                usize::MAX as int,
                default as int,
            ) is Some,
            r is Some ==> r->0 == integer_or(
                record_view(*self),
                i as int,
                name@,
                0,
                usize::MAX as int,
                default as int,
            )->0,
    {
        match self.field(i, name) {
            Some(v) => read_usize(v),
            None => Some(default),
        }
    }

    /// The double of a field, or the default.
    pub fn double_or(&self, i: usize, name: &str, default: Double) -> (r: Option<Double>)
        ensures
            r is Some <==> double_or(record_view(*self), i as int, name@, default.bits) is Some,
            r is Some ==> (r->0).bits == double_or(
                record_view(*self),
                i as int,
                name@,
                default.bits,
            )->0,
    {
        match self.field(i, name) {
            Some(v) => read_double(v),
            None => Some(default),
        }
    }

    /// The texts of a field, or none.
    pub fn texts_or_none(&self, i: usize, name: &str) -> (r: Option<Vec<String>>)
        ensures
            r is Some <==> texts_or_none(record_view(*self), i as int, name@) is Some,
            r is Some ==> r->0.deep_view() == texts_or_none(record_view(*self), i as int, name@)->0,
    {
        match self.field(i, name) {
            Some(v) => read_texts(v),
            None => {
                let none: Vec<String> = Vec::new();
                assert(none.deep_view() =~= seq![]);
                Some(none)
            },
        }
    }
}

// ---------------------------------------------------------------------------
// Writing
// ---------------------------------------------------------------------------

/// The document that holds the integer.
pub open spec fn integer_json(i: int) -> JsonView {
    JsonView::Number(NumberView::Integer(i))
}

/// Writes a text.
pub fn write_text(text: &str) -> (r: serde_json::Value)
    ensures
        json_of(r) == JsonView::Text(text@),
{
    close(Part::Text(text.to_owned()))
}

/// Writes a boolean.
pub fn write_bool(b: bool) -> (r: serde_json::Value)
    ensures
        json_of(r) == JsonView::Bool(b),
{
    close(Part::Bool(b))
}

/// Writes an unsigned integer.
pub fn write_u64(n: u64) -> (r: serde_json::Value)
    ensures
        json_of(r) == integer_json(n as int),
{
    close(Part::Unsigned(n))
}

/// Writes a signed integer.
pub fn write_i64(n: i64) -> (r: serde_json::Value)
    ensures
        json_of(r) == integer_json(n as int),
{
    close(Part::Signed(n))
}

/// The members of an object that is being written.
pub struct Members {
    list: Vec<(String, serde_json::Value)>,
}

impl View for Members {
    type V = Seq<(Seq<char>, JsonView)>;

    closed spec fn view(&self) -> Seq<(Seq<char>, JsonView)> {
        members_view(self.list@)
    }
}

impl Members {
    /// No members yet.
    pub fn new() -> (r: Self)
        ensures
            r@ == Seq::<(Seq<char>, JsonView)>::empty(),
    {
        let r = Members { list: Vec::new() };
        assert(r@ =~= Seq::<(Seq<char>, JsonView)>::empty());
        r
    }

    /// The members with one more.
    pub fn with(self, key: &str, value: serde_json::Value) -> (r: Self)
        ensures
            r@ == self@.push((key@, json_of(value))),
    {
        let mut list: Vec<(String, serde_json::Value)> = self.list;
        list.push((key.to_owned(), value));
        let r = Members { list };
        assert(r@ =~= self@.push((key@, json_of(value))));
        r
    }

    /// The object with the members.
    pub fn finish(self) -> (r: serde_json::Value)
        requires
            distinct_keys(self@),
        ensures
            json_of(r) == JsonView::Object(self@),
    {
        close(Part::Object(self.list))
    }
}

} // verus!
