//! Values that are recorded as JSON and read back.

use crate::json::{
    bool_of, close, distinct_keys, integer_json, integer_within, json_of, json_text, jsons,
    members_view, open, print, read_bool, read_i64, read_text, read_u32, read_u64, read_u8,
    read_usize, readable, text_of, write_bool, write_i64, write_text, write_u64, Json, JsonView,
    Part,
};
use crate::json_text::{
    compact_reads_back, fields_view, given, layer, list_views, member_views, scalar, view_of,
    Fields, Layer,
};
use crate::text_map::{ascending, in_order, lists, map_of, map_of_entry, TextMap};
use vstd::prelude::*;

verus! {

/// A value that is recorded as a JSON document.
pub trait Codec: DeepView + Sized {
    /// The document that records the value.
    spec fn json(v: Self::V) -> JsonView;

    /// The value that the document records, and `None` where it records none.
    spec fn from_view(j: JsonView) -> Option<Self::V>;

    /// How deep the documents nest at most.
    spec fn depth() -> nat;

    /// Whether the value is one that can be held.
    spec fn valid(v: Self::V) -> bool;

    /// A value reads back from the document that records it.
    proof fn reads_back(v: Self::V)
        requires
            Self::valid(v),
        ensures
            Self::from_view(Self::json(v)) == Some(v),
            readable(Self::json(v), Self::depth()),
    ;

    /// Records the value.
    fn to_json(&self) -> (r: serde_json::Value)
        ensures
            json_of(r) == Self::json(self.deep_view()),
            Self::valid(self.deep_view()),
    ;

    /// Reads the value from a text.
    fn from_text(bytes: &[u8]) -> (r: Option<Self>)
        ensures
            r is Some <==> Self::from_view(view_of(bytes@)) is Some,
            r is Some ==> r->0.deep_view() == Self::from_view(view_of(bytes@))->0,
    ;
}

/// What nests no deeper than one bound nests no deeper than a greater one.
pub proof fn readable_deeper(v: JsonView, d: nat, e: nat)
    requires
        readable(v, d),
        d <= e,
    ensures
        readable(v, e),
    decreases v,
{
    match v {
        JsonView::Array(list) => {
            assert forall|i: int| 0 <= i < list.len() implies readable(
                #[trigger] list[i],
                (e - 1) as nat,
            ) by {
                readable_deeper(list[i], (d - 1) as nat, (e - 1) as nat);
            }
        },
        JsonView::Object(members) => {
            assert forall|i: int| 0 <= i < members.len() implies readable(
                (#[trigger] members[i]).1,
                (e - 1) as nat,
            ) by {
                readable_deeper(members[i].1, (d - 1) as nat, (e - 1) as nat);
            }
        },
        _ => {},
    }
}

/// The value that a JSON text records, and `None` where it records none.
pub open spec fn recorded_in<T: Codec>(bytes: Seq<u8>) -> Option<T::V> {
    T::from_view(view_of(bytes))
}

/// Records a value as a JSON text. It reads back from the text.
pub fn encode<T: Codec>(value: &T) -> (r: Vec<u8>)
    ensures
        r@ == json_text(T::json(value.deep_view())),
        r@.len() > 0,
        recorded_in::<T>(r@) == Some(value.deep_view()),
{
    let document: serde_json::Value = value.to_json();
    let r: Vec<u8> = print(&document);
    proof {
        T::reads_back(value.deep_view());
        compact_reads_back(T::json(value.deep_view()), r@, T::depth());
    }
    r
}

/// Reads a value from a JSON text.
pub fn decode<T: Codec>(bytes: &[u8]) -> (r: Option<T>)
    ensures
        r is Some <==> recorded_in::<T>(bytes@) is Some,
        r is Some ==> r->0.deep_view() == recorded_in::<T>(bytes@)->0,
{
    T::from_text(bytes)
}

// ---------------------------------------------------------------------------
// Fields
// ---------------------------------------------------------------------------

/// The value of a field that the record must have.
pub open spec fn required<T: Codec>(v: JsonView, i: int, name: Seq<char>) -> Option<T::V> {
    match given(v, i, name) {
        Some(Some(part)) => T::from_view(part),
        _ => None,
    }
}

/// The value of a field, or the default where the record lacks it.
pub open spec fn defaulted<T: Codec>(v: JsonView, i: int, name: Seq<char>, default: T::V) -> Option<
    T::V,
> {
    match given(v, i, name) {
        Some(Some(part)) => T::from_view(part),
        Some(None) => Some(default),
        None => None,
    }
}

/// The value of a field that may be `null`. An object may lack it, an array of
/// fields may not.
pub open spec fn optional<T: Codec>(v: JsonView, i: int, name: Seq<char>) -> Option<Option<T::V>> {
    match given(v, i, name) {
        Some(Some(JsonView::Null)) => Some(None),
        Some(Some(part)) => match T::from_view(part) {
            Some(x) => Some(Some(x)),
            None => None,
        },
        Some(None) => if v is Array {
            None
        } else {
            Some(None)
        },
        None => None,
    }
}

/// The document of a value that may be missing.
pub open spec fn optional_json<T: Codec>(v: Option<T::V>) -> JsonView {
    match v {
        Some(x) => T::json(x),
        None => JsonView::Null,
    }
}

/// Reads a field that the record must have.
pub fn read_required<T: Codec>(record: &Fields<'_>, i: usize, name: &str) -> (r: Option<T>)
    ensures
        r is Some <==> required::<T>(fields_view(*record), i as int, name@) is Some,
        r is Some ==> r->0.deep_view() == required::<T>(fields_view(*record), i as int, name@)->0,
{
    match record.field(i, name) {
        Some(Some(part)) => T::from_text(part),
        _ => None,
    }
}

/// Reads a field that may be missing.
pub fn read_defaulted<T: Codec>(record: &Fields<'_>, i: usize, name: &str, default: T) -> (r: Option<
    T,
>)
    ensures
        r is Some <==> defaulted::<T>(
            fields_view(*record),
            i as int,
            name@,
            default.deep_view(),
        ) is Some,
        r is Some ==> r->0.deep_view() == defaulted::<T>(
            fields_view(*record),
            i as int,
            name@,
            default.deep_view(),
        )->0,
{
    match record.field(i, name) {
        Some(Some(part)) => T::from_text(part),
        Some(None) => Some(default),
        None => None,
    }
}

fn is_null(bytes: &[u8]) -> (r: bool)
    ensures
        r == (view_of(bytes@) is Null),
{
    match scalar(bytes) {
        Some(value) => {
            match open(value) {
                Json::Null => true,
                _ => false,
            }
        },
        None => false,
    }
}

/// Reads a field that may be `null`.
pub fn read_optional<T: Codec>(record: &Fields<'_>, i: usize, name: &str) -> (r: Option<Option<T>>)
    ensures
        r is Some <==> optional::<T>(fields_view(*record), i as int, name@) is Some,
        r is Some ==> r->0.deep_view() == optional::<T>(fields_view(*record), i as int, name@)->0,
{
    match record.field(i, name) {
        Some(Some(part)) => {
            if is_null(part) {
                return Some(None);
            }
            match T::from_text(part) {
                Some(x) => Some(Some(x)),
                None => None,
            }
        },
        Some(None) => {
            if record.is_listed() {
                None
            } else {
                Some(None)
            }
        },
        None => None,
    }
}

/// Records a value that may be missing.
pub fn write_optional<T: Codec>(value: &Option<T>) -> (r: serde_json::Value)
    ensures
        json_of(r) == optional_json::<T>(value.deep_view()),
        value is Some ==> T::valid(value->0.deep_view()),
{
    match value {
        Some(x) => x.to_json(),
        None => close(Part::Null),
    }
}

// ---------------------------------------------------------------------------
// Scalars
// ---------------------------------------------------------------------------

impl Codec for String {
    open spec fn json(v: Seq<char>) -> JsonView {
        JsonView::Text(v)
    }

    open spec fn from_view(j: JsonView) -> Option<Seq<char>> {
        text_of(j)
    }

    open spec fn depth() -> nat {
        0
    }

    open spec fn valid(v: Seq<char>) -> bool {
        true
    }

    proof fn reads_back(v: Seq<char>) {
    }

    fn to_json(&self) -> (r: serde_json::Value) {
        write_text(self.as_str())
    }

    fn from_text(bytes: &[u8]) -> (r: Option<Self>) {
        match scalar(bytes) {
            Some(value) => read_text(&value),
            None => None,
        }
    }
}

impl Codec for bool {
    open spec fn json(v: bool) -> JsonView {
        JsonView::Bool(v)
    }

    open spec fn from_view(j: JsonView) -> Option<bool> {
        bool_of(j)
    }

    open spec fn depth() -> nat {
        0
    }

    open spec fn valid(v: bool) -> bool {
        true
    }

    proof fn reads_back(v: bool) {
    }

    fn to_json(&self) -> (r: serde_json::Value) {
        write_bool(*self)
    }

    fn from_text(bytes: &[u8]) -> (r: Option<Self>) {
        match scalar(bytes) {
            Some(value) => read_bool(&value),
            None => None,
        }
    }
}

impl Codec for i64 {
    open spec fn json(v: i64) -> JsonView {
        integer_json(v as int)
    }

    open spec fn from_view(j: JsonView) -> Option<i64> {
        match integer_within(j, i64::MIN as int, i64::MAX as int) {
            Some(i) => Some(i as i64),
            None => None,
        }
    }

    open spec fn depth() -> nat {
        0
    }

    open spec fn valid(v: i64) -> bool {
        true
    }

    proof fn reads_back(v: i64) {
    }

    fn to_json(&self) -> (r: serde_json::Value) {
        write_i64(*self)
    }

    fn from_text(bytes: &[u8]) -> (r: Option<Self>) {
        match scalar(bytes) {
            Some(value) => read_i64(&value),
            None => None,
        }
    }
}

impl Codec for u64 {
    open spec fn json(v: u64) -> JsonView {
        integer_json(v as int)
    }

    open spec fn from_view(j: JsonView) -> Option<u64> {
        match integer_within(j, 0, u64::MAX as int) {
            Some(i) => Some(i as u64),
            None => None,
        }
    }

    open spec fn depth() -> nat {
        0
    }

    open spec fn valid(v: u64) -> bool {
        true
    }

    proof fn reads_back(v: u64) {
    }

    fn to_json(&self) -> (r: serde_json::Value) {
        write_u64(*self)
    }

    fn from_text(bytes: &[u8]) -> (r: Option<Self>) {
        match scalar(bytes) {
            Some(value) => read_u64(&value),
            None => None,
        }
    }
}

impl Codec for u32 {
    open spec fn json(v: u32) -> JsonView {
        integer_json(v as int)
    }

    open spec fn from_view(j: JsonView) -> Option<u32> {
        match integer_within(j, 0, u32::MAX as int) {
            Some(i) => Some(i as u32),
            None => None,
        }
    }

    open spec fn depth() -> nat {
        0
    }

    open spec fn valid(v: u32) -> bool {
        true
    }

    proof fn reads_back(v: u32) {
    }

    fn to_json(&self) -> (r: serde_json::Value) {
        write_u64(*self as u64)
    }

    fn from_text(bytes: &[u8]) -> (r: Option<Self>) {
        match scalar(bytes) {
            Some(value) => read_u32(&value),
            None => None,
        }
    }
}

impl Codec for usize {
    open spec fn json(v: usize) -> JsonView {
        integer_json(v as int)
    }

    open spec fn from_view(j: JsonView) -> Option<usize> {
        match integer_within(j, 0, usize::MAX as int) {
            Some(i) => Some(i as usize),
            None => None,
        }
    }

    open spec fn depth() -> nat {
        0
    }

    open spec fn valid(v: usize) -> bool {
        true
    }

    proof fn reads_back(v: usize) {
    }

    fn to_json(&self) -> (r: serde_json::Value) {
        write_u64(*self as u64)
    }

    fn from_text(bytes: &[u8]) -> (r: Option<Self>) {
        match scalar(bytes) {
            Some(value) => read_usize(&value),
            None => None,
        }
    }
}

impl Codec for u8 {
    open spec fn json(v: u8) -> JsonView {
        integer_json(v as int)
    }

    open spec fn from_view(j: JsonView) -> Option<u8> {
        match integer_within(j, 0, u8::MAX as int) {
            Some(i) => Some(i as u8),
            None => None,
        }
    }

    open spec fn depth() -> nat {
        0
    }

    open spec fn valid(v: u8) -> bool {
        true
    }

    proof fn reads_back(v: u8) {
    }

    fn to_json(&self) -> (r: serde_json::Value) {
        write_u64(*self as u64)
    }

    fn from_text(bytes: &[u8]) -> (r: Option<Self>) {
        match scalar(bytes) {
            Some(value) => read_u8(&value),
            None => None,
        }
    }
}

// ---------------------------------------------------------------------------
// Lists
// ---------------------------------------------------------------------------

/// The documents of a list.
pub open spec fn list_json<T: Codec>(v: Seq<T::V>) -> Seq<JsonView> {
    Seq::new(v.len(), |i: int| T::json(v[i]))
}

/// The values of a list of documents, and `None` where one records none.
pub open spec fn list_of<T: Codec>(list: Seq<JsonView>) -> Option<Seq<T::V>> {
    if forall|i: int| 0 <= i < list.len() ==> T::from_view(#[trigger] list[i]) is Some {
        Some(Seq::new(list.len(), |i: int| T::from_view(list[i])->0))
    } else {
        None
    }
}

impl<T: Codec> Codec for Vec<T> {
    open spec fn json(v: Seq<T::V>) -> JsonView {
        JsonView::Array(list_json::<T>(v))
    }

    open spec fn from_view(j: JsonView) -> Option<Seq<T::V>> {
        match j {
            JsonView::Array(list) => list_of::<T>(list),
            _ => None,
        }
    }

    open spec fn depth() -> nat {
        T::depth() + 1
    }

    open spec fn valid(v: Seq<T::V>) -> bool {
        forall|i: int| 0 <= i < v.len() ==> T::valid(#[trigger] v[i])
    }

    proof fn reads_back(v: Seq<T::V>) {
        let list = list_json::<T>(v);
        assert forall|i: int| 0 <= i < list.len() implies T::from_view(#[trigger] list[i]) == Some(
            v[i],
        ) && readable(list[i], T::depth()) by {
            T::reads_back(v[i]);
        }
        assert(list_of::<T>(list)->0 =~= v);
    }

    fn to_json(&self) -> (r: serde_json::Value) {
        let ghost v = self.deep_view();
        let mut list: Vec<serde_json::Value> = Vec::new();
        let mut i: usize = 0;
        while i < self.len()
            invariant
                i <= self@.len(),
                v == self.deep_view(),
                list@.len() == i,
                forall|j: int| 0 <= j < i ==> json_of(#[trigger] list@[j]) == T::json(v[j]),
                forall|j: int| 0 <= j < i ==> T::valid(#[trigger] v[j]),
            decreases self@.len() - i,
        {
            list.push(self[i].to_json());
            i = i + 1;
        }
        assert(jsons(list@) =~= list_json::<T>(v));
        close(Part::Array(list))
    }

    fn from_text(bytes: &[u8]) -> (r: Option<Self>) {
        match layer(bytes) {
            Layer::Array(list) => {
                let ghost all = list_views(list@);
                let mut r: Vec<T> = Vec::new();
                let mut i: usize = 0;
                while i < list.len()
                    invariant
                        i <= list@.len(),
                        all == list_views(list@),
                        view_of(bytes@) == JsonView::Array(all),
                        r@.len() == i,
                        forall|j: int| 0 <= j < i ==> T::from_view(#[trigger] all[j]) is Some,
                        forall|j: int|
                            0 <= j < i ==> (#[trigger] r@[j]).deep_view() == T::from_view(
                                all[j],
                            )->0,
                    decreases list@.len() - i,
                {
                    match T::from_text(list[i]) {
                        Some(x) => {
                            r.push(x);
                        },
                        None => {
                            assert(T::from_view(all[i as int]) is None);
                            return None;
                        },
                    }
                    i = i + 1;
                }
                assert(r.deep_view() =~= list_of::<T>(all)->0);
                Some(r)
            },
            _ => None,
        }
    }
}

// ---------------------------------------------------------------------------
// Maps
// ---------------------------------------------------------------------------

/// The members of the object that records the entries.
pub open spec fn entries_json<T: Codec>(entries: Seq<(Seq<char>, T::V)>) -> Seq<
    (Seq<char>, JsonView),
> {
    Seq::new(entries.len(), |i: int| (entries[i].0, T::json(entries[i].1)))
}

/// The map that the members of an object record: the last value of each key.
pub open spec fn map_in<T: Codec>(members: Seq<(Seq<char>, JsonView)>) -> Option<
    Map<Seq<char>, T::V>,
>
    decreases members.len(),
{
    if members.len() == 0 {
        Some(Map::empty())
    } else {
        match (map_in::<T>(members.drop_last()), T::from_view(members.last().1)) {
            (Some(m), Some(x)) => Some(m.insert(members.last().0, x)),
            _ => None,
        }
    }
}

proof fn map_in_prefix<T: Codec>(members: Seq<(Seq<char>, JsonView)>, n: int)
    requires
        0 <= n <= members.len(),
        map_in::<T>(members.take(n)) is None,
    ensures
        map_in::<T>(members) is None,
    decreases members.len(),
{
    if n == members.len() {
        assert(members.take(n) =~= members);
    } else {
        assert(members.drop_last().take(n) =~= members.take(n));
        map_in_prefix::<T>(members.drop_last(), n);
    }
}

proof fn map_in_reads_back<T: Codec>(entries: Seq<(Seq<char>, T::V)>)
    requires
        ascending(entries),
        forall|i: int| 0 <= i < entries.len() ==> T::valid((#[trigger] entries[i]).1),
    ensures
        map_in::<T>(entries_json::<T>(entries)) == Some(map_of(entries)),
    decreases entries.len(),
{
    let members = entries_json::<T>(entries);
    if entries.len() == 0 {
        assert(map_of(entries) =~= Map::empty());
    } else {
        let init = entries.drop_last();
        assert(ascending(init));
        assert forall|i: int| 0 <= i < init.len() implies T::valid((#[trigger] init[i]).1) by {
            assert(init[i] == entries[i]);
        }
        map_in_reads_back::<T>(init);
        assert(members.drop_last() =~= entries_json::<T>(init));
        assert(T::valid(entries[entries.len() - 1].1));
        T::reads_back(entries.last().1);
        crate::text_map::drop_last_map(entries);
        map_of_entry(entries, entries.len() - 1);
        assert(map_of(init).insert(entries.last().0, entries.last().1) =~= map_of(entries));
    }
}

proof fn entries_distinct<T: Codec>(entries: Seq<(Seq<char>, T::V)>)
    requires
        ascending(entries),
    ensures
        distinct_keys(entries_json::<T>(entries)),
{
    let members = entries_json::<T>(entries);
    assert forall|i: int, j: int| 0 <= i < j < members.len() implies #[trigger] members[i].0
        != #[trigger] members[j].0 by {
        crate::text::text_before_asymmetric(entries[i].0, entries[j].0);
    }
}

impl<T: Codec> Codec for TextMap<T> {
    open spec fn json(v: Map<Seq<char>, T::V>) -> JsonView {
        JsonView::Object(entries_json::<T>(in_order(v)))
    }

    open spec fn from_view(j: JsonView) -> Option<Map<Seq<char>, T::V>> {
        match j {
            JsonView::Object(members) => map_in::<T>(members),
            _ => None,
        }
    }

    open spec fn depth() -> nat {
        T::depth() + 1
    }

    open spec fn valid(v: Map<Seq<char>, T::V>) -> bool {
        &&& lists(in_order(v), v)
        &&& forall|i: int| 0 <= i < in_order(v).len() ==> T::valid((#[trigger] in_order(v)[i]).1)
    }

    proof fn reads_back(v: Map<Seq<char>, T::V>) {
        let entries = in_order(v);
        let members = entries_json::<T>(entries);
        map_in_reads_back::<T>(entries);
        entries_distinct::<T>(entries);
        assert forall|i: int| 0 <= i < members.len() implies readable(
            (#[trigger] members[i]).1,
            T::depth(),
        ) by {
            assert(T::valid(entries[i].1));
            T::reads_back(entries[i].1);
        }
    }

    fn to_json(&self) -> (r: serde_json::Value) {
        let ghost entries = in_order(self@);
        let n: usize = self.len();
        let mut list: Vec<(String, serde_json::Value)> = Vec::new();
        let mut i: usize = 0;
        while i < n
            invariant
                i <= n,
                entries == in_order(self@),
                n == entries.len(),
                list@.len() == i,
                forall|j: int| 0 <= j < i ==> (#[trigger] list@[j]).0@ == entries[j].0,
                forall|j: int|
                    0 <= j < i ==> json_of((#[trigger] list@[j]).1) == T::json(entries[j].1),
                forall|j: int| 0 <= j < i ==> T::valid((#[trigger] entries[j]).1),
            decreases n - i,
        {
            list.push((self.key_at(i).to_owned(), self.value_at(i).to_json()));
            i = i + 1;
        }
        assert(members_view(list@) =~= entries_json::<T>(entries));
        proof {
            entries_distinct::<T>(entries);
        }
        close(Part::Object(list))
    }

    fn from_text(bytes: &[u8]) -> (r: Option<Self>) {
        match layer(bytes) {
            Layer::Object(members) => {
                let ghost all = member_views(members@);
                let mut map: TextMap<T> = TextMap::new();
                let mut i: usize = 0;
                assert(all.take(0) =~= seq![]);
                while i < members.len()
                    invariant
                        i <= members@.len(),
                        all == member_views(members@),
                        view_of(bytes@) == JsonView::Object(all),
                        map_in::<T>(all.take(i as int)) is Some,
                        map@ == map_in::<T>(all.take(i as int))->0,
                    decreases members@.len() - i,
                {
                    assert(all.take(i + 1).drop_last() =~= all.take(i as int));
                    assert(all.take(i + 1).last() == all[i as int]);
                    match T::from_text(members[i].1) {
                        Some(x) => {
                            map.insert(members[i].0.clone(), x);
                        },
                        None => {
                            proof {
                                map_in_prefix::<T>(all, i + 1);
                            }
                            return None;
                        },
                    }
                    i = i + 1;
                }
                assert(all.take(i as int) =~= all);
                Some(map)
            },
            _ => None,
        }
    }
}

} // verus!
