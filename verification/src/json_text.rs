//! JSON texts, read one layer at a time. `serde_json` tells where a value ends and
//! reads what holds no other values; arrays and objects are taken apart here, so
//! that a member is looked at only where someone asks for it.

use crate::json::{
    field, is_record, json_of, json_parse, json_text, member, open, parse, read_text, readable,
    repeated, variant_of, Json, JsonView, NumberView,
};
use crate::text::same;
use vstd::prelude::*;

verus! {

// ---------------------------------------------------------------------------
// Where values end
// ---------------------------------------------------------------------------

/// How many bytes the value that the bytes start with takes, with the space before
/// it, and `None` where they start with no value that is clearly at an end.
pub uninterp spec fn value_len(b: Seq<u8>) -> Option<nat>;

/// `serde_json::StreamDeserializer` over `serde::de::IgnoredAny`: how many bytes
/// the first value takes, which depends on the bytes alone. What the value holds
/// is only checked to be JSON.
#[verifier::external_body]
fn skip_value(bytes: &[u8]) -> (r: Option<usize>)
    ensures
        r is Some <==> value_len(bytes@) is Some,
        r is Some ==> r->0 == value_len(bytes@)->0,
        r is Some ==> 0 < r->0 <= bytes@.len(),
{
    let mut values = serde_json::Deserializer::from_slice(bytes)
        .into_iter::<serde::de::IgnoredAny>();
    match values.next() {
        Some(Ok(_)) => Some(values.byte_offset()),
        _ => None,
    }
}

/// Whether the byte is space between values.
pub open spec fn is_space(c: u8) -> bool {
    c == 32 || c == 9 || c == 10 || c == 13
}

/// The bytes without the space that they start with.
pub open spec fn past_space(b: Seq<u8>) -> Seq<u8>
    decreases b.len(),
{
    if b.len() > 0 && is_space(b[0]) {
        past_space(b.drop_first())
    } else {
        b
    }
}

proof fn past_space_shorter(b: Seq<u8>)
    ensures
        past_space(b).len() <= b.len(),
    decreases b.len(),
{
    if b.len() > 0 && is_space(b[0]) {
        past_space_shorter(b.drop_first());
    }
}

fn skip_space(bytes: &[u8]) -> (r: &[u8])
    ensures
        r@ == past_space(bytes@),
{
    let mut rest: &[u8] = bytes;
    while rest.len() > 0 && (rest[0] == 32 || rest[0] == 9 || rest[0] == 10 || rest[0] == 13)
        invariant
            past_space(rest@) == past_space(bytes@),
        decreases rest@.len(),
    {
        let (_, behind) = rest.split_at(1);
        assert(behind@ =~= rest@.drop_first());
        rest = behind;
    }
    rest
}

/// Whether the bytes are one value and nothing else.
pub open spec fn is_one_value(b: Seq<u8>) -> bool {
    value_len(b) is Some && value_len(b)->0 <= b.len() && past_space(
        b.skip(value_len(b)->0 as int),
    ).len() == 0
}

// ---------------------------------------------------------------------------
// Arrays and objects
// ---------------------------------------------------------------------------

/// The texts of the elements of an array, from one of them to its end.
pub open spec fn elements_from(b: Seq<u8>) -> Option<Seq<Seq<u8>>>
    decreases b.len(),
{
    match value_len(b) {
        Some(n) => {
            let rest = past_space(b.skip(n as int));
            if !(0 < n <= b.len()) || rest.len() == 0 || rest.len() >= b.len() {
                None
            } else if rest[0] == 93 {
                Some(seq![b.take(n as int)])
            } else if rest[0] == 44 {
                match elements_from(rest.drop_first()) {
                    Some(more) => Some(seq![b.take(n as int)] + more),
                    None => None,
                }
            } else {
                None
            }
        },
        None => None,
    }
}

/// The texts of the elements of an array.
pub open spec fn elements(b: Seq<u8>) -> Option<Seq<Seq<u8>>> {
    let inside = past_space(past_space(b).drop_first());
    if inside.len() > 0 && inside[0] == 93 {
        Some(seq![])
    } else {
        elements_from(inside)
    }
}

/// The texts of the members of an object, key and value apart, from one of them to
/// its end.
pub open spec fn members_from(b: Seq<u8>) -> Option<Seq<(Seq<u8>, Seq<u8>)>>
    decreases b.len(),
{
    match value_len(b) {
        Some(n) => {
            let behind_key = past_space(b.skip(n as int));
            if !(0 < n <= b.len()) || behind_key.len() == 0 || behind_key[0] != 58 {
                None
            } else {
                let from_value = behind_key.drop_first();
                match value_len(from_value) {
                    Some(m) => {
                        let rest = past_space(from_value.skip(m as int));
                        let first = (b.take(n as int), from_value.take(m as int));
                        if !(0 < m <= from_value.len()) || rest.len() == 0 || rest.len()
                            >= b.len() {
                            None
                        } else if rest[0] == 125 {
                            Some(seq![first])
                        } else if rest[0] == 44 {
                            match members_from(rest.drop_first()) {
                                Some(more) => Some(seq![first] + more),
                                None => None,
                            }
                        } else {
                            None
                        }
                    },
                    None => None,
                }
            }
        },
        None => None,
    }
}

/// The texts of the members of an object, key and value apart.
pub open spec fn members(b: Seq<u8>) -> Option<Seq<(Seq<u8>, Seq<u8>)>> {
    let inside = past_space(past_space(b).drop_first());
    if inside.len() > 0 && inside[0] == 125 {
        Some(seq![])
    } else {
        members_from(inside)
    }
}

// ---------------------------------------------------------------------------
// What a text holds
// ---------------------------------------------------------------------------

/// Whether the texts are keys: strings that can be held.
pub open spec fn are_keys(list: Seq<(Seq<u8>, Seq<u8>)>) -> bool {
    forall|i: int| 0 <= i < list.len() ==> key_of((#[trigger] list[i]).0) is Some
}

/// The key that the text writes.
pub open spec fn key_of(b: Seq<u8>) -> Option<Seq<char>> {
    match json_parse(b) {
        Some(JsonView::Text(s)) => Some(s),
        _ => None,
    }
}

/// What a JSON text holds. An object holds all its members in order, one key as
/// often as it is written. What is no JSON, or can be no document, is opaque.
pub open spec fn view_of(b: Seq<u8>) -> JsonView
    decreases b.len(),
{
    let lead = past_space(b);
    if !is_one_value(b) || lead.len() == 0 {
        JsonView::Opaque
    } else if lead[0] == 91 {
        match elements(b) {
            Some(list) => JsonView::Array(
                Seq::new(
                    list.len(),
                    |i: int|
                        if list[i].len() < b.len() {
                            view_of(list[i])
                        } else {
                            JsonView::Opaque
                        },
                ),
            ),
            None => JsonView::Opaque,
        }
    } else if lead[0] == 123 {
        match members(b) {
            Some(list) => if are_keys(list) {
                JsonView::Object(
                    Seq::new(
                        list.len(),
                        |i: int|
                            (
                                key_of(list[i].0)->0,
                                if list[i].1.len() < b.len() {
                                    view_of(list[i].1)
                                } else {
                                    JsonView::Opaque
                                },
                            ),
                    ),
                )
            } else {
                JsonView::Opaque
            },
            None => JsonView::Opaque,
        }
    } else {
        match json_parse(b) {
            Some(JsonView::Array(_)) => JsonView::Opaque,
            Some(JsonView::Object(_)) => JsonView::Opaque,
            Some(view) => view,
            None => JsonView::Opaque,
        }
    }
}

// ---------------------------------------------------------------------------
// Taking texts apart
// ---------------------------------------------------------------------------

/// The texts in a list.
pub open spec fn raws(list: Seq<&[u8]>) -> Seq<Seq<u8>> {
    Seq::new(list.len(), |i: int| list[i]@)
}

/// The texts of keys and values in a list.
pub open spec fn raw_pairs(list: Seq<(&[u8], &[u8])>) -> Seq<(Seq<u8>, Seq<u8>)> {
    Seq::new(list.len(), |i: int| (list[i].0@, list[i].1@))
}

fn behind_first(bytes: &[u8]) -> (r: &[u8])
    requires
        bytes@.len() > 0,
    ensures
        r@ == bytes@.drop_first(),
{
    let (_, rest) = bytes.split_at(1);
    assert(rest@ =~= bytes@.drop_first());
    rest
}

proof fn elements_from_shorter(b: Seq<u8>, i: int)
    requires
        elements_from(b) is Some,
        0 <= i < elements_from(b)->0.len(),
    ensures
        elements_from(b)->0[i].len() <= b.len(),
    decreases b.len(),
{
    let n = value_len(b)->0;
    let rest = past_space(b.skip(n as int));
    if rest[0] != 93 && i > 0 {
        elements_from_shorter(rest.drop_first(), i - 1);
    }
}

proof fn members_from_shorter(b: Seq<u8>, i: int)
    requires
        members_from(b) is Some,
        0 <= i < members_from(b)->0.len(),
    ensures
        members_from(b)->0[i].1.len() <= b.len(),
    decreases b.len(),
{
    let n = value_len(b)->0;
    past_space_shorter(b.skip(n as int));
    let from_value = past_space(b.skip(n as int)).drop_first();
    let m = value_len(from_value)->0;
    let rest = past_space(from_value.skip(m as int));
    if rest[0] != 125 && i > 0 {
        members_from_shorter(rest.drop_first(), i - 1);
    }
}

/// What is inside an array or an object is shorter than its text.
proof fn inside_shorter(b: Seq<u8>)
    requires
        past_space(b).len() > 0,
    ensures
        past_space(past_space(b).drop_first()).len() < b.len(),
{
    past_space_shorter(b);
    past_space_shorter(past_space(b).drop_first());
}

fn split_elements<'a>(bytes: &'a [u8]) -> (r: Option<Vec<&'a [u8]>>)
    ensures
        r is Some <==> elements_from(bytes@) is Some,
        r is Some ==> raws(r->0@) == elements_from(bytes@)->0,
{
    let mut list: Vec<&'a [u8]> = Vec::new();
    let mut from: &'a [u8] = bytes;
    let ghost all = elements_from(bytes@);
    proof {
        if all is Some {
            assert(raws(list@) + all->0 =~= all->0);
        }
    }
    loop
        invariant
            all == elements_from(bytes@),
            all is Some <==> elements_from(from@) is Some,
            all is Some ==> all->0 == raws(list@) + elements_from(from@)->0,
        decreases from@.len(),
    {
        let ghost here = from@;
        let n: usize = match skip_value(from) {
            Some(n) => n,
            None => return None,
        };
        let (value, behind) = from.split_at(n);
        assert(value@ =~= here.take(n as int));
        assert(behind@ =~= here.skip(n as int));
        let rest: &'a [u8] = skip_space(behind);
        proof {
            past_space_shorter(behind@);
        }
        let ghost before = raws(list@);
        list.push(value);
        assert(raws(list@) =~= before.push(value@));
        if rest.len() == 0 {
            return None;
        }
        if rest[0] == 93 {
            assert(raws(list@) =~= before + seq![value@]);
            return Some(list);
        }
        if rest[0] != 44 {
            return None;
        }
        from = behind_first(rest);
        proof {
            if elements_from(from@) is Some {
                assert(raws(list@) + elements_from(from@)->0 =~= before + (seq![value@]
                    + elements_from(from@)->0));
            }
        }
    }
}

fn split_members<'a>(bytes: &'a [u8]) -> (r: Option<Vec<(&'a [u8], &'a [u8])>>)
    ensures
        r is Some <==> members_from(bytes@) is Some,
        r is Some ==> raw_pairs(r->0@) == members_from(bytes@)->0,
{
    let mut list: Vec<(&'a [u8], &'a [u8])> = Vec::new();
    let mut from: &'a [u8] = bytes;
    let ghost all = members_from(bytes@);
    proof {
        if all is Some {
            assert(raw_pairs(list@) + all->0 =~= all->0);
        }
    }
    loop
        invariant
            all == members_from(bytes@),
            all is Some <==> members_from(from@) is Some,
            all is Some ==> all->0 == raw_pairs(list@) + members_from(from@)->0,
        decreases from@.len(),
    {
        let ghost here = from@;
        let n: usize = match skip_value(from) {
            Some(n) => n,
            None => return None,
        };
        let (key, behind) = from.split_at(n);
        assert(key@ =~= here.take(n as int));
        assert(behind@ =~= here.skip(n as int));
        let behind_key: &'a [u8] = skip_space(behind);
        proof {
            past_space_shorter(behind@);
        }
        if behind_key.len() == 0 || behind_key[0] != 58 {
            return None;
        }
        let from_value: &'a [u8] = behind_first(behind_key);
        let m: usize = match skip_value(from_value) {
            Some(m) => m,
            None => return None,
        };
        let (value, behind) = from_value.split_at(m);
        assert(value@ =~= from_value@.take(m as int));
        assert(behind@ =~= from_value@.skip(m as int));
        let rest: &'a [u8] = skip_space(behind);
        proof {
            past_space_shorter(behind@);
        }
        let ghost before = raw_pairs(list@);
        let ghost first = (key@, value@);
        list.push((key, value));
        assert(raw_pairs(list@) =~= before.push(first));
        if rest.len() == 0 {
            return None;
        }
        if rest[0] == 125 {
            assert(raw_pairs(list@) =~= before + seq![first]);
            return Some(list);
        }
        if rest[0] != 44 {
            return None;
        }
        from = behind_first(rest);
        proof {
            if members_from(from@) is Some {
                assert(raw_pairs(list@) + members_from(from@)->0 =~= before + (seq![first]
                    + members_from(from@)->0));
            }
        }
    }
}

/// The outermost layer of a text.
pub enum Layer<'a> {
    /// A value that holds no others.
    Scalar(serde_json::Value),
    Array(Vec<&'a [u8]>),
    Object(Vec<(String, &'a [u8])>),
    /// What is no JSON, or can be no document.
    Opaque,
}

/// What the texts of a list hold.
pub open spec fn list_views(list: Seq<&[u8]>) -> Seq<JsonView> {
    Seq::new(list.len(), |i: int| view_of(list[i]@))
}

/// What the members of an object hold.
pub open spec fn member_views(list: Seq<(String, &[u8])>) -> Seq<(Seq<char>, JsonView)> {
    Seq::new(list.len(), |i: int| (list[i].0@, view_of(list[i].1@)))
}

/// Whether the layer is the outermost one of the view.
pub open spec fn is_layer_of(layer: Layer<'_>, view: JsonView) -> bool {
    match layer {
        Layer::Scalar(value) => view == json_of(value) && !(view is Array) && !(view is Object)
            && !(view is Opaque),
        Layer::Array(list) => view == JsonView::Array(list_views(list@)),
        Layer::Object(list) => view == JsonView::Object(member_views(list@)),
        Layer::Opaque => view is Opaque,
    }
}

fn read_key(bytes: &[u8]) -> (r: Option<String>)
    ensures
        r.deep_view() == key_of(bytes@),
{
    match parse(bytes) {
        Some(value) => {
            match open(value) {
                Json::Text(s) => Some(s),
                _ => None,
            }
        },
        None => None,
    }
}

fn array_layer<'a>(bytes: &'a [u8], inside: &'a [u8]) -> (r: Layer<'a>)
    requires
        is_one_value(bytes@),
        past_space(bytes@).len() > 0,
        past_space(bytes@)[0] == 91,
        inside@ == past_space(past_space(bytes@).drop_first()),
    ensures
        is_layer_of(r, view_of(bytes@)),
{
    let list: Vec<&'a [u8]> = if inside.len() > 0 && inside[0] == 93 {
        let none: Vec<&'a [u8]> = Vec::new();
        assert(raws(none@) =~= seq![]);
        none
    } else {
        match split_elements(inside) {
            Some(list) => list,
            None => return Layer::Opaque,
        }
    };
    proof {
        inside_shorter(bytes@);
        assert forall|i: int| 0 <= i < list@.len() implies (#[trigger] list@[i])@.len()
            < bytes@.len() by {
            assert(raws(list@)[i] == list@[i]@);
            elements_from_shorter(inside@, i);
        }
        assert(view_of(bytes@)->Array_0 =~= list_views(list@)) by {
            assert forall|i: int| 0 <= i < list@.len() implies view_of(bytes@)->Array_0[i]
                == #[trigger] list_views(list@)[i] by {
                assert(raws(list@)[i] == list@[i]@);
            }
        }
    }
    Layer::Array(list)
}

fn object_layer<'a>(bytes: &'a [u8], inside: &'a [u8]) -> (r: Layer<'a>)
    requires
        is_one_value(bytes@),
        past_space(bytes@).len() > 0,
        past_space(bytes@)[0] == 123,
        inside@ == past_space(past_space(bytes@).drop_first()),
    ensures
        is_layer_of(r, view_of(bytes@)),
{
    let pairs: Vec<(&'a [u8], &'a [u8])> = if inside.len() > 0 && inside[0] == 125 {
        let none: Vec<(&'a [u8], &'a [u8])> = Vec::new();
        assert(raw_pairs(none@) =~= seq![]);
        none
    } else {
        match split_members(inside) {
            Some(pairs) => pairs,
            None => return Layer::Opaque,
        }
    };
    let ghost all = raw_pairs(pairs@);
    assert(members(bytes@) == Some(all));
    let mut list: Vec<(String, &'a [u8])> = Vec::new();
    let mut i: usize = 0;
    while i < pairs.len()
        invariant
            i <= pairs@.len(),
            all == raw_pairs(pairs@),
            members(bytes@) == Some(all),
            is_one_value(bytes@),
            past_space(bytes@).len() > 0,
            past_space(bytes@)[0] == 123,
            list@.len() == i,
            forall|j: int| 0 <= j < i ==> key_of((#[trigger] all[j]).0) == Some(list@[j].0@),
            forall|j: int| 0 <= j < i ==> (#[trigger] list@[j]).1@ == all[j].1,
        decreases pairs@.len() - i,
    {
        assert(all[i as int] == (pairs@[i as int].0@, pairs@[i as int].1@));
        match read_key(pairs[i].0) {
            Some(key) => {
                list.push((key, pairs[i].1));
            },
            None => {
                assert(key_of(all[i as int].0) is None);
                assert(!are_keys(all));
                return Layer::Opaque;
            },
        }
        i = i + 1;
    }
    proof {
        inside_shorter(bytes@);
        assert forall|i: int| 0 <= i < all.len() implies (#[trigger] all[i]).1.len()
            < bytes@.len() by {
            members_from_shorter(inside@, i);
        }
        assert(are_keys(all));
        assert(view_of(bytes@)->Object_0 =~= member_views(list@)) by {
            assert forall|i: int| 0 <= i < list@.len() implies view_of(bytes@)->Object_0[i]
                == #[trigger] member_views(list@)[i] by {
                assert(key_of(all[i].0) == Some(list@[i].0@));
                assert(list@[i].1@ == all[i].1);
            }
        }
    }
    Layer::Object(list)
}

/// Reads the outermost layer of a text.
pub fn layer<'a>(bytes: &'a [u8]) -> (r: Layer<'a>)
    ensures
        is_layer_of(r, view_of(bytes@)),
{
    let n: usize = match skip_value(bytes) {
        Some(n) => n,
        None => return Layer::Opaque,
    };
    let (_, behind) = bytes.split_at(n);
    assert(behind@ =~= bytes@.skip(n as int));
    let lead: &'a [u8] = skip_space(bytes);
    if skip_space(behind).len() > 0 || lead.len() == 0 {
        return Layer::Opaque;
    }
    if lead[0] == 91 {
        array_layer(bytes, skip_space(behind_first(lead)))
    } else if lead[0] == 123 {
        object_layer(bytes, skip_space(behind_first(lead)))
    } else {
        match parse(bytes) {
            Some(value) => {
                match open(value.clone()) {
                    Json::Array(_) => Layer::Opaque,
                    Json::Object(_) => Layer::Opaque,
                    _ => Layer::Scalar(value),
                }
            },
            None => Layer::Opaque,
        }
    }
}

// ---------------------------------------------------------------------------
// Records
// ---------------------------------------------------------------------------

/// What a record is read from: an object, or an array of its fields in order.
pub enum Fields<'a> {
    Named(Vec<(String, &'a [u8])>),
    Listed(Vec<&'a [u8]>),
}

/// What the fields hold.
pub open spec fn fields_view(fields: Fields<'_>) -> JsonView {
    match fields {
        Fields::Named(list) => JsonView::Object(member_views(list@)),
        Fields::Listed(list) => JsonView::Array(list_views(list@)),
    }
}

/// The field of a record: by its name in an object, by its place in an array. The
/// outer `None` stands for an object that names the field more than once.
pub open spec fn given(view: JsonView, i: int, name: Seq<char>) -> Option<Option<JsonView>> {
    match view {
        JsonView::Object(members) => if repeated(members, name) {
            None
        } else {
            Some(member(members, name))
        },
        _ => Some(field(view, i, name)),
    }
}

/// The place of the first member with the key, from a place on.
fn place_of(members: &Vec<(String, &[u8])>, from: usize, key: &str) -> (r: Option<usize>)
    requires
        from <= members@.len(),
    ensures
        r is Some ==> from <= r->0 < members@.len() && members@[r->0 as int].0@ == key@,
        forall|j: int|
            from <= j < (if r is Some {
                r->0 as int
            } else {
                members@.len() as int
            }) ==> (#[trigger] members@[j]).0@ != key@,
{
    let mut i: usize = from;
    while i < members.len()
        invariant
            from <= i <= members@.len(),
            forall|j: int| from <= j < i ==> (#[trigger] members@[j]).0@ != key@,
        decreases members@.len() - i,
    {
        if same(members[i].0.as_str(), key) {
            return Some(i);
        }
        i = i + 1;
    }
    None
}

proof fn member_is_first(members: Seq<(Seq<char>, JsonView)>, key: Seq<char>, i: int)
    requires
        0 <= i <= members.len(),
        forall|j: int| 0 <= j < i ==> (#[trigger] members[j]).0 != key,
        i < members.len() ==> members[i].0 == key,
    ensures
        member(members, key) == if i < members.len() {
            Some(members[i].1)
        } else {
            None
        },
    decreases i,
{
    if i > 0 {
        let rest = members.drop_first();
        assert(members[0].0 != key);
        assert forall|j: int| 0 <= j < i - 1 implies (#[trigger] rest[j]).0 != key by {
            assert(members[j + 1].0 != key);
        }
        member_is_first(rest, key, i - 1);
    }
}

impl<'a> Fields<'a> {
    /// Reads the fields of a record of at most `n` fields.
    pub fn read(bytes: &'a [u8], n: usize) -> (r: Option<Fields<'a>>)
        ensures
            r is Some <==> is_record(view_of(bytes@), n as nat),
            r is Some ==> fields_view(r->0) == view_of(bytes@),
    {
        match layer(bytes) {
            Layer::Object(list) => Some(Fields::Named(list)),
            Layer::Array(list) => {
                if list.len() <= n {
                    Some(Fields::Listed(list))
                } else {
                    None
                }
            },
            _ => None,
        }
    }

    /// The text of the field.
    pub fn field(&self, i: usize, name: &str) -> (r: Option<Option<&'a [u8]>>)
        ensures
            match given(fields_view(*self), i as int, name@) {
                None => r is None,
                Some(None) => r matches Some(None),
                Some(Some(view)) => r matches Some(Some(text)) && view_of(text@) == view,
            },
    {
        match self {
            Fields::Named(list) => {
                let ghost all = member_views(list@);
                let n: usize = list.len();
                match place_of(list, 0, name) {
                    None => {
                        proof {
                            assert forall|j: int| 0 <= j < all.len() implies (#[trigger] all[j]).0
                                != name@ by {
                                assert(list@[j].0@ != name@);
                            }
                            member_is_first(all, name@, all.len() as int);
                        }
                        Some(None)
                    },
                    Some(k) => {
                        proof {
                            assert forall|j: int| 0 <= j < k implies (#[trigger] all[j]).0
                                != name@ by {
                                assert(list@[j].0@ != name@);
                            }
                            assert(all[k as int].0 == name@);
                            member_is_first(all, name@, k as int);
                        }
                        match place_of(list, k + 1, name) {
                            None => {
                                assert(!repeated(all, name@)) by {
                                    assert forall|j: int|
                                        0 <= j < all.len() && j != k implies (#[trigger] all[j]).0
                                        != name@ by {
                                        assert(list@[j].0@ != name@);
                                    }
                                }
                                Some(Some(list[k].1))
                            },
                            Some(again) => {
                                assert(all[again as int].0 == name@);
                                None
                            },
                        }
                    },
                }
            },
            Fields::Listed(list) => {
                if i < list.len() {
                    Some(Some(list[i]))
                } else {
                    Some(None)
                }
            },
        }
    }

    /// Whether the fields are told apart by their places.
    pub fn is_listed(&self) -> (r: bool)
        ensures
            r == (fields_view(*self) is Array),
    {
        match self {
            Fields::Named(_) => false,
            Fields::Listed(_) => true,
        }
    }
}

/// Reads a value that holds no others.
pub fn scalar(bytes: &[u8]) -> (r: Option<serde_json::Value>)
    ensures
        r is Some ==> json_of(r->0) == view_of(bytes@),
        r is None <==> (view_of(bytes@) is Array || view_of(bytes@) is Object || view_of(
            bytes@,
        ) is Opaque),
{
    match layer(bytes) {
        Layer::Scalar(value) => Some(value),
        _ => None,
    }
}

/// The name of a variant without fields.
pub fn read_variant_text(bytes: &[u8]) -> (r: Option<String>)
    ensures
        r.deep_view() == variant_of(view_of(bytes@)),
{
    match layer(bytes) {
        Layer::Scalar(value) => read_text(&value),
        Layer::Object(list) => {
            if list.len() != 1 {
                return None;
            }
            assert(member_views(list@)[0] == (list@[0].0@, view_of(list@[0].1@)));
            match layer(list[0].1) {
                Layer::Scalar(value) => {
                    match open(value) {
                        Json::Null => Some(list[0].0.clone()),
                        _ => None,
                    }
                },
                _ => None,
            }
        },
        _ => None,
    }
}

// ---------------------------------------------------------------------------
// Compact texts
// ---------------------------------------------------------------------------

/// Whether a value that stands before the bytes is at an end there.
pub open spec fn delimits(rest: Seq<u8>) -> bool {
    rest.len() == 0 || rest[0] == 44 || rest[0] == 58 || rest[0] == 93 || rest[0] == 125
}

/// Whether the text is one value, whatever follows that puts an end to it.
pub open spec fn stands_alone(text: Seq<u8>) -> bool {
    forall|rest: Seq<u8>| delimits(rest) ==> #[trigger] value_len(text + rest) == Some(text.len())
}

/// The texts with commas between them.
pub open spec fn with_commas(texts: Seq<Seq<u8>>) -> Seq<u8>
    decreases texts.len(),
{
    if texts.len() == 0 {
        seq![]
    } else if texts.len() == 1 {
        texts[0]
    } else {
        texts[0] + seq![44u8] + with_commas(texts.drop_first())
    }
}

/// The texts of the documents in a list.
pub open spec fn element_texts(list: Seq<JsonView>) -> Seq<Seq<u8>> {
    Seq::new(list.len(), |i: int| json_text(list[i]))
}

/// The text of a key.
pub open spec fn key_text(key: Seq<char>) -> Seq<u8> {
    json_text(JsonView::Text(key))
}

/// The text of a member.
pub open spec fn member_text(member: (Seq<char>, JsonView)) -> Seq<u8> {
    key_text(member.0) + seq![58u8] + json_text(member.1)
}

/// The texts of the members of an object.
pub open spec fn member_texts(list: Seq<(Seq<char>, JsonView)>) -> Seq<Seq<u8>> {
    Seq::new(list.len(), |i: int| member_text(list[i]))
}

/// Whether the text of a string stands alone, starts with a quote and reads back.
pub open spec fn is_string_text(s: Seq<char>, text: Seq<u8>) -> bool {
    &&& text.len() > 0
    &&& text[0] == 34
    &&& stands_alone(text)
    &&& json_parse(text) == Some(JsonView::Text(s))
}

/// Whether the text is the compact one of the document: it stands alone, and has
/// no space between its parts. A scalar other than a double reads back.
pub open spec fn is_compact(view: JsonView, text: Seq<u8>) -> bool
    decreases view,
{
    &&& stands_alone(text)
    &&& match view {
        JsonView::Text(s) => is_string_text(s, text),
        JsonView::Array(list) => {
            &&& text == seq![91u8] + with_commas(element_texts(list)) + seq![93u8]
            &&& forall|i: int|
                0 <= i < list.len() ==> is_compact(#[trigger] list[i], json_text(list[i]))
        },
        JsonView::Object(list) => {
            &&& text == seq![123u8] + with_commas(member_texts(list)) + seq![125u8]
            &&& forall|i: int|
                0 <= i < list.len() ==> is_string_text(
                    (#[trigger] list[i]).0,
                    key_text(list[i].0),
                ) && is_compact(list[i].1, json_text(list[i].1))
        },
        _ => {
            &&& text.len() > 0
            &&& !is_space(text[0])
            &&& text[0] != 91
            &&& text[0] != 93
            &&& text[0] != 123
            &&& !(view matches JsonView::Number(NumberView::Real(_))) ==> json_parse(text) == Some(
                view,
            )
        },
    }
}

proof fn compact_lead(view: JsonView, text: Seq<u8>)
    requires
        is_compact(view, text),
    ensures
        text.len() > 0,
        !is_space(text[0]),
        text[0] != 93,
        past_space(text) == text,
{
}

proof fn compact_is_one_value(text: Seq<u8>)
    requires
        stands_alone(text),
        text.len() > 0,
    ensures
        is_one_value(text),
{
    let none = Seq::<u8>::empty();
    assert(text + none =~= text);
    assert(value_len(text + none) == Some(text.len()));
    assert(text.skip(text.len() as int) =~= none);
}

proof fn compact_elements(list: Seq<JsonView>)
    requires
        list.len() > 0,
        forall|i: int| 0 <= i < list.len() ==> is_compact(#[trigger] list[i], json_text(list[i])),
    ensures
        elements_from(with_commas(element_texts(list)) + seq![93u8]) == Some(element_texts(list)),
    decreases list.len(),
{
    let texts = element_texts(list);
    let first = json_text(list[0]);
    let more = list.drop_first();
    compact_lead(list[0], first);
    if list.len() == 1 {
        let rest = seq![93u8];
        let b = first + rest;
        assert(with_commas(texts) == first);
        assert(value_len(b) == Some(first.len()));
        assert(b.skip(first.len() as int) =~= rest);
        assert(b.take(first.len() as int) =~= first);
        assert(texts =~= seq![first]);
    } else {
        let tail = with_commas(element_texts(more)) + seq![93u8];
        let rest = seq![44u8] + tail;
        let b = first + rest;
        assert(texts.drop_first() =~= element_texts(more));
        assert(with_commas(texts) + seq![93u8] =~= b);
        assert(value_len(b) == Some(first.len()));
        assert(b.skip(first.len() as int) =~= rest);
        assert(b.take(first.len() as int) =~= first);
        assert(rest.drop_first() =~= tail);
        assert forall|i: int| 0 <= i < more.len() implies is_compact(
            #[trigger] more[i],
            json_text(more[i]),
        ) by {
            assert(is_compact(list[i + 1], json_text(list[i + 1])));
        }
        compact_elements(more);
        assert(seq![first] + element_texts(more) =~= texts);
    }
}

/// The texts of keys and values of the members of an object.
spec fn pair_texts(list: Seq<(Seq<char>, JsonView)>) -> Seq<(Seq<u8>, Seq<u8>)> {
    Seq::new(list.len(), |i: int| (key_text(list[i].0), json_text(list[i].1)))
}

proof fn compact_members(list: Seq<(Seq<char>, JsonView)>)
    requires
        list.len() > 0,
        forall|i: int|
            0 <= i < list.len() ==> is_string_text((#[trigger] list[i]).0, key_text(list[i].0))
                && is_compact(list[i].1, json_text(list[i].1)),
    ensures
        members_from(with_commas(member_texts(list)) + seq![125u8]) == Some(pair_texts(list)),
    decreases list.len(),
{
    let texts = member_texts(list);
    let key = key_text(list[0].0);
    let value = json_text(list[0].1);
    let more = list.drop_first();
    assert(is_string_text(list[0].0, key) && is_compact(list[0].1, value));
    compact_lead(list[0].1, value);
    let tail = with_commas(member_texts(more)) + seq![125u8];
    let rest = if list.len() == 1 {
        seq![125u8]
    } else {
        seq![44u8] + tail
    };
    let from_value = value + rest;
    let behind_key = seq![58u8] + from_value;
    let b = key + behind_key;
    assert(texts.drop_first() =~= member_texts(more));
    assert(with_commas(texts) + seq![125u8] =~= b);
    assert(value_len(b) == Some(key.len()));
    assert(b.skip(key.len() as int) =~= behind_key);
    assert(b.take(key.len() as int) =~= key);
    assert(behind_key.drop_first() =~= from_value);
    assert(value_len(from_value) == Some(value.len()));
    assert(from_value.skip(value.len() as int) =~= rest);
    assert(from_value.take(value.len() as int) =~= value);
    if list.len() == 1 {
        assert(pair_texts(list) =~= seq![(key, value)]);
    } else {
        assert(rest.drop_first() =~= tail);
        assert forall|i: int| 0 <= i < more.len() implies is_string_text(
            (#[trigger] more[i]).0,
            key_text(more[i].0),
        ) && is_compact(more[i].1, json_text(more[i].1)) by {
            assert(more[i] == list[i + 1]);
        }
        compact_members(more);
        assert(seq![(key, value)] + pair_texts(more) =~= pair_texts(list));
    }
}

/// A document without doubles reads back from its compact text.
pub proof fn compact_reads_back(view: JsonView, text: Seq<u8>, depth: nat)
    requires
        is_compact(view, text),
        readable(view, depth),
    ensures
        view_of(text) == view,
    decreases view,
{
    compact_lead(view, text);
    compact_is_one_value(text);
    match view {
        JsonView::Array(list) => {
            let inside = with_commas(element_texts(list)) + seq![93u8];
            assert(text.drop_first() =~= inside);
            if list.len() == 0 {
                assert(inside =~= seq![93u8]);
            } else {
                compact_elements(list);
                compact_lead(list[0], json_text(list[0]));
                assert(inside[0] == json_text(list[0])[0]);
            }
            assert(elements(text)->0 =~= element_texts(list));
            inside_shorter(text);
            assert forall|i: int| 0 <= i < list.len() implies view_of(text)->Array_0[i]
                == #[trigger] list[i] by {
                elements_from_shorter(inside, i);
                compact_reads_back(list[i], json_text(list[i]), (depth - 1) as nat);
            }
            assert(view_of(text)->Array_0 =~= list);
        },
        JsonView::Object(list) => {
            let inside = with_commas(member_texts(list)) + seq![125u8];
            assert(text.drop_first() =~= inside);
            if list.len() == 0 {
                assert(inside =~= seq![125u8]);
            } else {
                compact_members(list);
                assert(is_string_text(list[0].0, key_text(list[0].0)));
                assert(inside[0] == key_text(list[0].0)[0]);
            }
            assert(members(text)->0 =~= pair_texts(list));
            inside_shorter(text);
            assert forall|i: int| 0 <= i < list.len() implies key_of(
                (#[trigger] pair_texts(list)[i]).0,
            ) == Some(list[i].0) by {
                assert(is_string_text(list[i].0, key_text(list[i].0)));
            }
            assert forall|i: int| 0 <= i < list.len() implies view_of(text)->Object_0[i]
                == #[trigger] list[i] by {
                members_from_shorter(inside, i);
                assert(key_of(pair_texts(list)[i].0) == Some(list[i].0));
                compact_reads_back(list[i].1, json_text(list[i].1), (depth - 1) as nat);
            }
            assert(view_of(text)->Object_0 =~= list);
        },
        _ => {},
    }
}

/// A field of an object is what its only member of that name holds; where there is
/// none it is not given, and where there are two it cannot be told.
pub proof fn fields_are_given_once(members: Seq<(Seq<char>, JsonView)>, name: Seq<char>, i: int)
    requires
        0 <= i < members.len(),
    ensures
        members[i].0 == name && (forall|j: int|
            0 <= j < members.len() && j != i ==> (#[trigger] members[j]).0 != name) ==> given(
            JsonView::Object(members),
            0,
            name,
        ) == Some(Some(members[i].1)),
        members[i].0 == name && (exists|j: int|
            0 <= j < members.len() && j != i && (#[trigger] members[j]).0 == name) ==> given(
            JsonView::Object(members),
            0,
            name,
        ) is None,
        (forall|j: int| 0 <= j < members.len() ==> (#[trigger] members[j]).0 != name) ==> given(
            JsonView::Object(members),
            0,
            name,
        ) == Some(None::<JsonView>),
{
    if members[i].0 == name && (forall|j: int|
        0 <= j < members.len() && j != i ==> (#[trigger] members[j]).0 != name) {
        member_is_first(members, name, i);
    }
    if members[i].0 == name && (exists|j: int|
        0 <= j < members.len() && j != i && (#[trigger] members[j]).0 == name) {
        let j = choose|j: int|
            0 <= j < members.len() && j != i && (#[trigger] members[j]).0 == name;
        if i < j {
            assert(members[i].0 == name && members[j].0 == name);
        } else {
            assert(members[j].0 == name && members[i].0 == name);
        }
    }
    if forall|j: int| 0 <= j < members.len() ==> (#[trigger] members[j]).0 != name {
        member_is_first(members, name, members.len() as int);
    }
}

} // verus!
