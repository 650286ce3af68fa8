//! Maps and sets keyed by text, kept in the order of their keys.

use crate::text::{
    place, text_before, text_before_asymmetric, text_before_irreflexive, text_before_transitive,
    Place,
};
use vstd::prelude::*;

verus! {

/// Whether the keys of the entries stand in strictly ascending order.
pub open spec fn ascending<T>(entries: Seq<(Seq<char>, T)>) -> bool {
    forall|i: int, j: int|
        0 <= i < j < entries.len() ==> text_before(#[trigger] entries[i].0, #[trigger] entries[j].0)
}

/// The map that the entries spell out.
pub open spec fn map_of<T>(entries: Seq<(Seq<char>, T)>) -> Map<Seq<char>, T> {
    Map::new(
        |k: Seq<char>| exists|i: int| 0 <= i < entries.len() && #[trigger] entries[i].0 == k,
        |k: Seq<char>| entries[choose|i: int| 0 <= i < entries.len() && #[trigger] entries[i].0 == k].1,
    )
}

/// Whether `entries` lists the map `m` in the order of its keys.
pub open spec fn lists<T>(entries: Seq<(Seq<char>, T)>, m: Map<Seq<char>, T>) -> bool {
    &&& ascending(entries)
    &&& map_of(entries) == m
}

/// The entries of the map in the order of their keys.
pub open spec fn in_order<T>(m: Map<Seq<char>, T>) -> Seq<(Seq<char>, T)> {
    choose|entries: Seq<(Seq<char>, T)>| lists(entries, m)
}

proof fn ascending_keys_distinct<T>(entries: Seq<(Seq<char>, T)>)
    requires
        ascending(entries),
    ensures
        forall|i: int, j: int|
            0 <= i < entries.len() && 0 <= j < entries.len() && #[trigger] entries[i].0
                == #[trigger] entries[j].0 ==> i == j,
{
    assert forall|i: int, j: int|
        0 <= i < entries.len() && 0 <= j < entries.len() && #[trigger] entries[i].0
            == #[trigger] entries[j].0 implies i == j by {
        if i < j {
            text_before_asymmetric(entries[i].0, entries[j].0);
        } else if j < i {
            text_before_asymmetric(entries[j].0, entries[i].0);
        }
    }
}

/// What the map of ascending entries holds under the key of an entry.
pub proof fn map_of_entry<T>(entries: Seq<(Seq<char>, T)>, i: int)
    requires
        ascending(entries),
        0 <= i < entries.len(),
    ensures
        map_of(entries).dom().contains(entries[i].0),
        map_of(entries)[entries[i].0] == entries[i].1,
{
    ascending_keys_distinct(entries);
    let k = entries[i].0;
    let j = choose|j: int| 0 <= j < entries.len() && #[trigger] entries[j].0 == k;
    assert(entries[i].0 == k);
    assert(i == j);
}

/// The key of a map of entries is the key of one of them.
pub proof fn map_of_key<T>(entries: Seq<(Seq<char>, T)>, k: Seq<char>) -> (i: int)
    requires
        ascending(entries),
        map_of(entries).dom().contains(k),
    ensures
        0 <= i < entries.len(),
        entries[i].0 == k,
        entries[i].1 == map_of(entries)[k],
{
    let i = choose|i: int| 0 <= i < entries.len() && #[trigger] entries[i].0 == k;
    map_of_entry(entries, i);
    i
}

/// Ascending entries that spell out the same map are the same.
pub proof fn listing_unique<T>(a: Seq<(Seq<char>, T)>, b: Seq<(Seq<char>, T)>)
    requires
        ascending(a),
        ascending(b),
        map_of(a) == map_of(b),
    ensures
        a == b,
    decreases a.len(),
{
    if a.len() == 0 {
        if b.len() > 0 {
            map_of_entry(b, 0);
            let i = map_of_key(a, b[0].0);
        }
        assert(a =~= b);
    } else {
        map_of_entry(a, a.len() - 1);
        let ib = map_of_key(b, a.last().0);
        assert(b.len() > 0);
        map_of_entry(b, b.len() - 1);
        let ia = map_of_key(a, b.last().0);
        // The greatest keys agree.
        if ib < b.len() - 1 {
            assert(text_before(b[ib].0, b.last().0));
            if ia < a.len() - 1 {
                assert(text_before(a[ia].0, a.last().0));
            }
            text_before_asymmetric(a.last().0, b.last().0);
        }
        assert(ib == b.len() - 1);
        assert(a.last() == b.last());
        let a1 = a.drop_last();
        let b1 = b.drop_last();
        assert(ascending(a1));
        assert(ascending(b1));
        drop_last_map(a);
        drop_last_map(b);
        listing_unique(a1, b1);
        assert(a =~= a1.push(a.last()));
        assert(b =~= b1.push(b.last()));
    }
}

/// The map of the entries but the last one.
pub proof fn drop_last_map<T>(a: Seq<(Seq<char>, T)>)
    requires
        ascending(a),
        a.len() > 0,
    ensures
        map_of(a.drop_last()) == map_of(a).remove(a.last().0),
{
    let d = a.drop_last();
    assert(ascending(d));
    ascending_keys_distinct(a);
    assert forall|k: Seq<char>|
        map_of(d).dom().contains(k) == map_of(a).remove(a.last().0).dom().contains(k) by {
        if map_of(d).dom().contains(k) {
            let i = map_of_key(d, k);
            assert(a[i].0 == k);
        }
        if map_of(a).dom().contains(k) && k != a.last().0 {
            let i = map_of_key(a, k);
            assert(d[i].0 == k);
        }
    }
    assert forall|k: Seq<char>| map_of(d).dom().contains(k) implies map_of(d)[k] == map_of(
        a,
    )[k] by {
        let i = map_of_key(d, k);
        map_of_entry(a, i);
    }
    assert(map_of(d) =~= map_of(a).remove(a.last().0));
}

/// The map of one entry more.
pub proof fn map_of_next<T>(entries: Seq<(Seq<char>, T)>, i: int)
    requires
        ascending(entries),
        0 <= i < entries.len(),
    ensures
        map_of(entries.take(i + 1)) == map_of(entries.take(i)).insert(entries[i].0, entries[i].1),
{
    let longer = entries.take(i + 1);
    assert(ascending(longer));
    assert(longer.drop_last() =~= entries.take(i));
    drop_last_map(longer);
    map_of_entry(longer, i);
    assert(map_of(longer) =~= map_of(entries.take(i)).insert(entries[i].0, entries[i].1));
}

/// Ascending entries are the entries of their map in the order of the keys.
pub proof fn in_order_of_listing<T>(entries: Seq<(Seq<char>, T)>)
    requires
        ascending(entries),
    ensures
        in_order(map_of(entries)) == entries,
{
    let m = map_of(entries);
    assert(lists(entries, m));
    listing_unique(in_order(m), entries);
}

/// A map keyed by text. Its entries stand in the order of their keys, each key
/// once.
#[derive(Debug, PartialEq, Eq)]
pub struct TextMap<V> {
    entries: Vec<(String, V)>,
}

impl<V: Clone + DeepView> Clone for TextMap<V> {
    fn clone(&self) -> (r: Self)
        ensures
            r@.dom() == self@.dom(),
            (forall|a: V, b: V| #[trigger] cloned(a, b) ==> a.deep_view() == b.deep_view())
                ==> r@ == self@,
    {
        proof {
            use_type_invariant(self);
        }
        let mut entries: Vec<(String, V)> = Vec::new();
        let mut i: usize = 0;
        while i < self.entries.len()
            invariant
                i <= self.entries@.len(),
                entries@.len() == i,
                forall|j: int| 0 <= j < i ==> (#[trigger] entries@[j]).0@ == self.entries@[j].0@,
                forall|j: int|
                    0 <= j < i ==> cloned(self.entries@[j].1, (#[trigger] entries@[j]).1),
            decreases self.entries@.len() - i,
        {
            entries.push((self.entries[i].0.clone(), self.entries[i].1.clone()));
            i = i + 1;
        }
        assert forall|i: int, j: int| 0 <= i < j < entries@.len() implies text_before(
            (#[trigger] entries@[i]).0@,
            (#[trigger] entries@[j]).0@,
        ) by {
            assert(text_before(self.entries@[i].0@, self.entries@[j].0@));
        }
        let ghost before = entries_view(self.entries@);
        let ghost after = entries_view(entries@);
        let r = TextMap { entries };
        proof {
            Self::ordered_entries(self.entries@);
            Self::ordered_entries(entries@);
            assert forall|k: Seq<char>|
                map_of(before).dom().contains(k) == map_of(after).dom().contains(k) by {
                if map_of(before).dom().contains(k) {
                    let i = map_of_key(before, k);
                    assert(after[i].0 == k);
                }
                if map_of(after).dom().contains(k) {
                    let i = map_of_key(after, k);
                    assert(before[i].0 == k);
                }
            }
            assert(r@.dom() =~= self@.dom());
            if forall|a: V, b: V| #[trigger] cloned(a, b) ==> a.deep_view() == b.deep_view() {
                assert(before =~= after);
            }
        }
        r
    }
}

/// What the entries hold.
pub open spec fn entries_view<V: DeepView>(entries: Seq<(String, V)>) -> Seq<(Seq<char>, V::V)> {
    Seq::new(entries.len(), |i: int| (entries[i].0@, entries[i].1.deep_view()))
}

impl<V: DeepView> View for TextMap<V> {
    type V = Map<Seq<char>, V::V>;

    closed spec fn view(&self) -> Map<Seq<char>, V::V> {
        map_of(entries_view(self.entries@))
    }
}

impl<V: DeepView> DeepView for TextMap<V> {
    type V = Map<Seq<char>, V::V>;

    open spec fn deep_view(&self) -> Map<Seq<char>, V::V> {
        self@
    }
}

impl<V> TextMap<V> {
    #[verifier::type_invariant]
    spec fn ordered(&self) -> bool {
        forall|i: int, j: int|
            0 <= i < j < self.entries@.len() ==> text_before(
                (#[trigger] self.entries@[i]).0@,
                (#[trigger] self.entries@[j]).0@,
            )
    }
}

impl<V: DeepView> TextMap<V> {
    proof fn ordered_entries(entries: Seq<(String, V)>)
        ensures
            ascending(entries_view(entries)) == forall|i: int, j: int|
                0 <= i < j < entries.len() ==> text_before(
                    (#[trigger] entries[i]).0@,
                    (#[trigger] entries[j]).0@,
                ),
    {
        let ev = entries_view(entries);
        assert forall|i: int, j: int| ascending(ev) && 0 <= i < j < entries.len() implies text_before(
            (#[trigger] entries[i]).0@,
            (#[trigger] entries[j]).0@,
        ) by {
            assert(text_before(ev[i].0, ev[j].0));
        }
    }

    /// The map without entries.
    pub fn new() -> (r: Self)
        ensures
            r@ == Map::<Seq<char>, V::V>::empty(),
    {
        let r = TextMap { entries: Vec::new() };
        assert(r@ =~= Map::<Seq<char>, V::V>::empty());
        r
    }

    /// Where the key stands, or where it would have to be inserted.
    fn find(&self, key: &str) -> (r: (usize, bool))
        ensures
            r.0 <= self.entries@.len(),
            r.1 ==> r.0 < self.entries@.len() && self.entries@[r.0 as int].0@ == key@,
            !r.1 ==> forall|j: int|
                0 <= j < r.0 ==> text_before(#[trigger] self.entries@[j].0@, key@),
            !r.1 ==> forall|j: int|
                r.0 <= j < self.entries@.len() ==> text_before(
                    key@,
                    #[trigger] self.entries@[j].0@,
                ),
            r.1 == self@.dom().contains(key@),
            r.1 ==> self@[key@] == self.entries@[r.0 as int].1.deep_view(),
    {
        proof {
            use_type_invariant(self);
            Self::ordered_entries(self.entries@);
        }
        let ghost ev = entries_view(self.entries@);
        let mut low: usize = 0;
        let mut high: usize = self.entries.len();
        while low < high
            invariant
                low <= high <= self.entries@.len(),
                ev == entries_view(self.entries@),
                ascending(ev),
                forall|j: int| 0 <= j < low ==> text_before(#[trigger] self.entries@[j].0@, key@),
                forall|j: int|
                    high <= j < self.entries@.len() ==> text_before(
                        key@,
                        #[trigger] self.entries@[j].0@,
                    ),
            decreases high - low,
        {
            let middle: usize = low + (high - low) / 2;
            match place(self.entries[middle].0.as_str(), key) {
                Place::Before => {
                    assert forall|j: int| 0 <= j < middle + 1 implies text_before(
                        #[trigger] self.entries@[j].0@,
                        key@,
                    ) by {
                        if j < middle {
                            assert(text_before(ev[j].0, ev[middle as int].0));
                            text_before_transitive(ev[j].0, ev[middle as int].0, key@);
                        }
                    }
                    low = middle + 1;
                },
                Place::Same => {
                    proof {
                        map_of_entry(ev, middle as int);
                    }
                    return (middle, true);
                },
                Place::Behind => {
                    assert forall|j: int| middle <= j < self.entries@.len() implies text_before(
                        key@,
                        #[trigger] self.entries@[j].0@,
                    ) by {
                        if middle < j {
                            assert(text_before(ev[middle as int].0, ev[j].0));
                            text_before_transitive(key@, ev[middle as int].0, ev[j].0);
                        }
                    }
                    high = middle;
                },
            }
        }
        proof {
            Self::absent(ev, key@, low as int);
        }
        (low, false)
    }

    proof fn absent(ev: Seq<(Seq<char>, V::V)>, key: Seq<char>, at: int)
        requires
            ascending(ev),
            0 <= at <= ev.len(),
            forall|j: int| 0 <= j < at ==> text_before(#[trigger] ev[j].0, key),
            forall|j: int| at <= j < ev.len() ==> text_before(key, #[trigger] ev[j].0),
        ensures
            !map_of(ev).dom().contains(key),
    {
        if map_of(ev).dom().contains(key) {
            let i = map_of_key(ev, key);
            text_before_irreflexive(key);
        }
    }

    /// Whether the map has the key.
    pub fn contains_key(&self, key: &str) -> (r: bool)
        ensures
            r == self@.dom().contains(key@),
    {
        self.find(key).1
    }

    /// What the map holds under the key.
    pub fn get(&self, key: &str) -> (r: Option<&V>)
        ensures
            r is Some <==> self@.dom().contains(key@),
            r is Some ==> r->0.deep_view() == self@[key@],
    {
        let (i, found) = self.find(key);
        if found {
            Some(&self.entries[i].1)
        } else {
            None
        }
    }

    /// Puts the value under the key, in place of what stood there.
    pub fn insert(&mut self, key: String, value: V)
        ensures
            final(self)@ == old(self)@.insert(key@, value.deep_view()),
    {
        let (i, found) = self.find(key.as_str());
        proof {
            use_type_invariant(&*self);
            Self::ordered_entries(self.entries@);
        }
        let mut entries: Vec<(String, V)> = Vec::new();
        std::mem::swap(&mut entries, &mut self.entries);
        let ghost before = entries_view(entries@);
        if found {
            entries.set(i, (key, value));
            let ghost after = entries_view(entries@);
            proof {
                assert(after =~= before.update(i as int, (key@, value.deep_view())));
                Self::replaced(before, i as int, value.deep_view());
            }
        } else {
            entries.insert(i, (key, value));
            let ghost after = entries_view(entries@);
            proof {
                assert(after =~= before.insert(i as int, (key@, value.deep_view())));
                Self::inserted(before, i as int, key@, value.deep_view());
            }
        }
        proof {
            Self::ordered_entries(entries@);
        }
        self.entries = entries;
    }

    proof fn replaced(before: Seq<(Seq<char>, V::V)>, at: int, value: V::V)
        requires
            ascending(before),
            0 <= at < before.len(),
        ensures
            ascending(before.update(at, (before[at].0, value))),
            map_of(before.update(at, (before[at].0, value))) == map_of(before).insert(
                before[at].0,
                value,
            ),
    {
        let after = before.update(at, (before[at].0, value));
        assert forall|i: int| 0 <= i < after.len() implies after[i].0 == before[i].0 by {}
        assert(ascending(after));
        let want = map_of(before).insert(before[at].0, value);
        assert forall|k: Seq<char>| map_of(after).dom().contains(k) == want.dom().contains(k) by {
            if map_of(after).dom().contains(k) {
                let i = map_of_key(after, k);
                assert(before[i].0 == k);
            }
            if map_of(before).dom().contains(k) {
                let i = map_of_key(before, k);
                assert(after[i].0 == k);
            }
            assert(after[at].0 == before[at].0);
        }
        assert forall|k: Seq<char>| map_of(after).dom().contains(k) implies map_of(after)[k]
            == want[k] by {
            let i = map_of_key(after, k);
            map_of_entry(before, i);
            if k == before[at].0 {
                ascending_keys_distinct(before);
                assert(i == at);
            }
        }
        assert(map_of(after) =~= want);
    }

    proof fn inserted(before: Seq<(Seq<char>, V::V)>, at: int, key: Seq<char>, value: V::V)
        requires
            ascending(before),
            0 <= at <= before.len(),
            forall|j: int| 0 <= j < at ==> text_before(#[trigger] before[j].0, key),
            forall|j: int| at <= j < before.len() ==> text_before(key, #[trigger] before[j].0),
        ensures
            ascending(before.insert(at, (key, value))),
            map_of(before.insert(at, (key, value))) == map_of(before).insert(key, value),
    {
        let after = before.insert(at, (key, value));
        assert(after[at] == (key, value));
        assert forall|i: int| 0 <= i < before.len() implies #[trigger] before[i] == after[if i
            < at {
            i
        } else {
            i + 1
        }] by {}
        assert forall|i: int, j: int| 0 <= i < j < after.len() implies text_before(
            #[trigger] after[i].0,
            #[trigger] after[j].0,
        ) by {
            if i < at {
                assert(after[i] == before[i]);
            } else if i > at {
                assert(after[i] == before[i - 1]);
            }
            if j < at {
                assert(after[j] == before[j]);
            } else if j > at {
                assert(after[j] == before[j - 1]);
            }
        }
        let want = map_of(before).insert(key, value);
        assert forall|k: Seq<char>| map_of(after).dom().contains(k) == want.dom().contains(k) by {
            if map_of(after).dom().contains(k) {
                let i = map_of_key(after, k);
                if i < at {
                    assert(before[i].0 == k);
                } else if i > at {
                    assert(before[i - 1].0 == k);
                }
            }
            if map_of(before).dom().contains(k) {
                let i = map_of_key(before, k);
                let j = if i < at {
                    i
                } else {
                    i + 1
                };
                assert(after[j].0 == k);
            }
            assert(after[at].0 == key);
            assert(0 <= at < after.len());
        }
        assert forall|k: Seq<char>| map_of(after).dom().contains(k) implies map_of(after)[k]
            == want[k] by {
            let i = map_of_key(after, k);
            if i < at {
                map_of_entry(before, i);
                text_before_asymmetric(before[i].0, key);
            } else if i > at {
                map_of_entry(before, i - 1);
                text_before_asymmetric(key, before[i - 1].0);
            }
        }
        assert(map_of(after) =~= want);
    }

    proof fn removed(before: Seq<(Seq<char>, V::V)>, at: int)
        requires
            ascending(before),
            0 <= at < before.len(),
        ensures
            ascending(before.remove(at)),
            map_of(before.remove(at)) == map_of(before).remove(before[at].0),
    {
        let after = before.remove(at);
        assert forall|i: int| 0 <= i < after.len() implies #[trigger] after[i] == before[if i < at {
            i
        } else {
            i + 1
        }] by {}
        assert forall|i: int, j: int| 0 <= i < j < after.len() implies text_before(
            #[trigger] after[i].0,
            #[trigger] after[j].0,
        ) by {}
        ascending_keys_distinct(before);
        let want = map_of(before).remove(before[at].0);
        assert forall|k: Seq<char>| map_of(after).dom().contains(k) == want.dom().contains(k) by {
            if map_of(after).dom().contains(k) {
                let i = map_of_key(after, k);
                map_of_entry(
                    before,
                    if i < at {
                        i
                    } else {
                        i + 1
                    },
                );
            }
            if want.dom().contains(k) {
                let i = map_of_key(before, k);
                map_of_entry(
                    after,
                    if i < at {
                        i
                    } else {
                        i - 1
                    },
                );
            }
        }
        assert forall|k: Seq<char>| map_of(after).dom().contains(k) implies map_of(after)[k]
            == want[k] by {
            let i = map_of_key(after, k);
            map_of_entry(
                before,
                if i < at {
                    i
                } else {
                    i + 1
                },
            );
        }
        assert(map_of(after) =~= want);
    }

    /// Takes out the `i`-th entry in the order of keys, and returns its value.
    pub fn remove_at(&mut self, i: usize) -> (r: V)
        requires
            i < in_order(old(self)@).len(),
        ensures
            lists(in_order(old(self)@), old(self)@),
            r.deep_view() == in_order(old(self)@)[i as int].1,
            final(self)@ == old(self)@.remove(in_order(old(self)@)[i as int].0),
            in_order(final(self)@) == in_order(old(self)@).remove(i as int),
    {
        proof {
            use_type_invariant(&*self);
            Self::ordered_entries(self.entries@);
            in_order_of_listing(entries_view(self.entries@));
        }
        let mut entries: Vec<(String, V)> = Vec::new();
        std::mem::swap(&mut entries, &mut self.entries);
        let ghost before = entries_view(entries@);
        let entry: (String, V) = entries.remove(i);
        proof {
            assert(entries_view(entries@) =~= before.remove(i as int));
            Self::removed(before, i as int);
            Self::ordered_entries(entries@);
            in_order_of_listing(entries_view(entries@));
        }
        self.entries = entries;
        entry.1
    }

    /// Takes out the entry under the key, and returns its value.
    pub fn remove(&mut self, key: &str) -> (r: Option<V>)
        ensures
            r is Some <==> old(self)@.dom().contains(key@),
            r is Some ==> r->0.deep_view() == old(self)@[key@],
            final(self)@ == old(self)@.remove(key@),
    {
        let (i, found) = self.find(key);
        if found {
            proof {
                use_type_invariant(&*self);
                Self::ordered_entries(self.entries@);
                in_order_of_listing(entries_view(self.entries@));
            }
            Some(self.remove_at(i))
        } else {
            assert(self@.remove(key@) =~= self@);
            None
        }
    }

    /// How many entries the map has.
    pub fn len(&self) -> (r: usize)
        ensures
            r == in_order(self@).len(),
            lists(in_order(self@), self@),
    {
        proof {
            use_type_invariant(self);
            Self::ordered_entries(self.entries@);
            in_order_of_listing(entries_view(self.entries@));
        }
        self.entries.len()
    }

    /// Whether the map has no entry.
    pub fn is_empty(&self) -> (r: bool)
        ensures
            r == (self@ == Map::<Seq<char>, V::V>::empty()),
            r == (in_order(self@).len() == 0),
    {
        proof {
            use_type_invariant(self);
            Self::ordered_entries(self.entries@);
            let ev = entries_view(self.entries@);
            in_order_of_listing(ev);
            if ev.len() > 0 {
                map_of_entry(ev, 0);
                assert(self@.dom().contains(ev[0].0));
            } else {
                assert(self@ =~= Map::<Seq<char>, V::V>::empty());
            }
        }
        self.entries.len() == 0
    }

    /// The key of the `i`-th entry in the order of keys.
    pub fn key_at(&self, i: usize) -> (r: &str)
        requires
            i < in_order(self@).len(),
        ensures
            r@ == in_order(self@)[i as int].0,
    {
        proof {
            use_type_invariant(self);
            Self::ordered_entries(self.entries@);
            in_order_of_listing(entries_view(self.entries@));
        }
        self.entries[i].0.as_str()
    }

    /// The value of the `i`-th entry in the order of keys.
    pub fn value_at(&self, i: usize) -> (r: &V)
        requires
            i < in_order(self@).len(),
        ensures
            r.deep_view() == in_order(self@)[i as int].1,
    {
        proof {
            use_type_invariant(self);
            Self::ordered_entries(self.entries@);
            in_order_of_listing(entries_view(self.entries@));
        }
        &self.entries[i].1
    }
}

/// A set of texts.
#[derive(Clone, Debug, PartialEq, Eq)]
pub struct TextSet {
    members: TextMap<bool>,
}

impl View for TextSet {
    type V = Set<Seq<char>>;

    closed spec fn view(&self) -> Set<Seq<char>> {
        self.members@.dom()
    }
}

impl TextSet {
    /// The set without members.
    pub fn new() -> (r: Self)
        ensures
            r@ == Set::<Seq<char>>::empty(),
    {
        let r = TextSet { members: TextMap::new() };
        assert(r@ =~= Set::<Seq<char>>::empty());
        r
    }

    /// Whether the text is a member.
    pub fn contains(&self, text: &str) -> (r: bool)
        ensures
            r == self@.contains(text@),
    {
        self.members.contains_key(text)
    }

    /// Adds the text, and says whether it was none of the members before.
    pub fn insert(&mut self, text: String) -> (r: bool)
        ensures
            r == !old(self)@.contains(text@),
            final(self)@ == old(self)@.insert(text@),
    {
        let fresh: bool = !self.members.contains_key(text.as_str());
        self.members.insert(text, true);
        assert(self@ =~= old(self)@.insert(text@));
        fresh
    }

    /// The same set.
    pub fn copied(&self) -> (r: TextSet)
        ensures
            r@ == self@,
    {
        let ghost entries = in_order(self.members@);
        let n: usize = self.members.len();
        let mut r: TextSet = TextSet::new();
        let mut i: usize = 0;
        assert(map_of(entries.take(0)).dom() =~= Set::empty());
        while i < n
            invariant
                i <= n,
                entries == in_order(self.members@),
                n == entries.len(),
                lists(entries, self.members@),
                r@ == map_of(entries.take(i as int)).dom(),
            decreases n - i,
        {
            proof {
                map_of_next(entries, i as int);
            }
            let _ = r.insert(self.members.key_at(i).to_owned());
            i = i + 1;
            assert(r@ =~= map_of(entries.take(i as int)).dom());
        }
        assert(entries.take(i as int) =~= entries);
        r
    }

    /// How many members the set has.
    pub fn len(&self) -> (r: usize)
        ensures
            self@.finite(),
            r == self@.len(),
    {
        let n: usize = self.members.len();
        proof {
            let entries = in_order(self.members@);
            keys_count(entries);
            assert(map_of(entries).dom() =~= self@);
        }
        n
    }

    /// Whether the set has no member.
    pub fn is_empty(&self) -> (r: bool)
        ensures
            r == (self@ == Set::<Seq<char>>::empty()),
    {
        let r: bool = self.members.is_empty();
        assert(r ==> self@ =~= Set::<Seq<char>>::empty());
        proof {
            if self@ == Set::<Seq<char>>::empty() {
                assert(self.members@ =~= Map::<Seq<char>, bool>::empty());
            }
        }
        r
    }
}

/// Ascending entries are as many as the keys of their map.
pub proof fn keys_count<T>(entries: Seq<(Seq<char>, T)>)
    requires
        ascending(entries),
    ensures
        map_of(entries).dom().finite(),
        map_of(entries).dom().len() == entries.len(),
    decreases entries.len(),
{
    if entries.len() == 0 {
        assert(map_of(entries).dom() =~= Set::empty());
    } else {
        let init = entries.drop_last();
        assert(ascending(init));
        keys_count(init);
        drop_last_map(entries);
        map_of_entry(entries, entries.len() - 1);
        let last = entries.last().0;
        assert(map_of(entries).dom() =~= map_of(init).dom().insert(last));
        assert(!map_of(init).dom().contains(last));
    }
}

} // verus!
