//! A map kept in ascending key order.

use vstd::prelude::*;

use crate::order::{strict_total, Key, Relation};

verus! {

/// The keys stand in strictly ascending order, so none occurs twice.
pub open spec fn ascending<A, B>(lt: spec_fn(A, A) -> bool, entries: Seq<(A, B)>) -> bool {
    forall|i: int, j: int|
        0 <= i < j < entries.len() ==> lt((#[trigger] entries[i]).0, (#[trigger] entries[j]).0)
}

/// Some entry has the key `key`.
pub open spec fn has_key<A, B>(entries: Seq<(A, B)>, key: A) -> bool {
    exists|i: int| 0 <= i < entries.len() && (#[trigger] entries[i]).0 == key
}

/// The map that comes of inserting the entries one after another, so that of two
/// entries with one key the later counts.
pub open spec fn collected<A, B>(entries: Seq<(A, B)>) -> Map<A, B>
    decreases entries.len(),
{
    if entries.len() == 0 {
        Map::empty()
    } else {
        collected(entries.drop_last()).insert(entries.last().0, entries.last().1)
    }
}

/// A key is in the collected map exactly when some entry has it.
pub proof fn lemma_collected_domain<A, B>(entries: Seq<(A, B)>, key: A)
    ensures
        collected(entries).contains_key(key) <==> has_key(entries, key),
    decreases entries.len(),
{
    if entries.len() > 0 {
        let front = entries.drop_last();
        lemma_collected_domain(front, key);
        if has_key(front, key) {
            let i = choose|i: int| 0 <= i < front.len() && (#[trigger] front[i]).0 == key;
            assert(entries[i].0 == key);
        }
        if has_key(entries, key) && entries.last().0 != key {
            let i = choose|i: int| 0 <= i < entries.len() && (#[trigger] entries[i]).0 == key;
            assert(front[i].0 == key);
        }
        assert(entries[entries.len() - 1] == entries.last());
    }
}

/// The collected map holds, under each key, the value of the last entry that has it.
pub proof fn lemma_collected_last<A, B>(entries: Seq<(A, B)>, i: int)
    requires
        0 <= i < entries.len(),
        forall|j: int| i < j < entries.len() ==> (#[trigger] entries[j]).0 != entries[i].0,
    ensures
        collected(entries).contains_key(entries[i].0),
        collected(entries)[entries[i].0] == entries[i].1,
    decreases entries.len(),
{
    if i < entries.len() - 1 {
        let front = entries.drop_last();
        assert(entries.last() == entries[entries.len() - 1]);
        assert forall|j: int| i < j < front.len() implies (#[trigger] front[j]).0 != front[i].0 by {
            assert(front[j] == entries[j]);
        }
        lemma_collected_last(front, i);
    }
}

/// In a sequence whose keys ascend, every entry is what the collected map holds
/// under its key.
pub proof fn lemma_collected_entry<A, B>(
    lt: spec_fn(A, A) -> bool,
    entries: Seq<(A, B)>,
    i: int,
)
    requires
        strict_total(lt),
        ascending(lt, entries),
        0 <= i < entries.len(),
    ensures
        collected(entries).contains_key(entries[i].0),
        collected(entries)[entries[i].0] == entries[i].1,
{
    assert forall|j: int| i < j < entries.len() implies (#[trigger] entries[j]).0 != entries[i].0 by {
        assert(lt(entries[i].0, entries[j].0));
    }
    lemma_collected_last(entries, i);
}

/// Placing an entry where its key belongs keeps the keys ascending and inserts the
/// entry in the collected map.
proof fn lemma_placed<A, B>(
    lt: spec_fn(A, A) -> bool,
    entries: Seq<(A, B)>,
    at: int,
    entry: (A, B),
)
    requires
        strict_total(lt),
        ascending(lt, entries),
        0 <= at <= entries.len(),
        forall|i: int| 0 <= i < at ==> lt((#[trigger] entries[i]).0, entry.0),
        forall|i: int| at <= i < entries.len() ==> lt(entry.0, (#[trigger] entries[i]).0),
    ensures
        ascending(lt, entries.insert(at, entry)),
        collected(entries.insert(at, entry)) == collected(entries).insert(entry.0, entry.1),
{
    let placed = entries.insert(at, entry);
    assert forall|i: int, j: int| 0 <= i < j < placed.len() implies lt(
        (#[trigger] placed[i]).0,
        (#[trigger] placed[j]).0,
    ) by {
        let before = if i < at { entries[i] } else if i == at { entry } else { entries[i - 1] };
        let after = if j < at { entries[j] } else if j == at { entry } else { entries[j - 1] };
        assert(placed[i] == before && placed[j] == after);
    }
    let new = collected(placed);
    let old = collected(entries);
    assert forall|key: A| #[trigger] new.contains_key(key) <==> old.insert(
        entry.0,
        entry.1,
    ).contains_key(key) by {
        lemma_collected_domain(placed, key);
        lemma_collected_domain(entries, key);
        if has_key(entries, key) {
            let i = choose|i: int| 0 <= i < entries.len() && (#[trigger] entries[i]).0 == key;
            let j = if i < at { i } else { i + 1 };
            assert(placed[j] == entries[i]);
        }
        if has_key(placed, key) {
            let j = choose|j: int| 0 <= j < placed.len() && (#[trigger] placed[j]).0 == key;
            if j != at {
                let i = if j < at { j } else { j - 1 };
                assert(entries[i] == placed[j]);
            }
        }
        assert(placed[at] == entry);
    }
    assert forall|key: A| #[trigger] new.contains_key(key) implies new[key] == old.insert(
        entry.0,
        entry.1,
    )[key] by {
        lemma_collected_domain(placed, key);
        let j = choose|j: int| 0 <= j < placed.len() && (#[trigger] placed[j]).0 == key;
        lemma_collected_entry(lt, placed, j);
        if j != at {
            let i = if j < at { j } else { j - 1 };
            assert(entries[i] == placed[j]);
            lemma_collected_entry(lt, entries, i);
        }
    }
    assert(new =~= old.insert(entry.0, entry.1));
}

/// Giving the entry at `at` another value keeps the keys ascending and replaces the
/// value in the collected map.
proof fn lemma_replaced<A, B>(
    lt: spec_fn(A, A) -> bool,
    entries: Seq<(A, B)>,
    at: int,
    value: B,
)
    requires
        strict_total(lt),
        ascending(lt, entries),
        0 <= at < entries.len(),
    ensures
        ascending(lt, entries.update(at, (entries[at].0, value))),
        collected(entries.update(at, (entries[at].0, value))) == collected(entries).insert(
            entries[at].0,
            value,
        ),
{
    let entry = (entries[at].0, value);
    let replaced = entries.update(at, entry);
    assert forall|i: int, j: int| 0 <= i < j < replaced.len() implies lt(
        (#[trigger] replaced[i]).0,
        (#[trigger] replaced[j]).0,
    ) by {
        assert(replaced[i].0 == entries[i].0 && replaced[j].0 == entries[j].0);
    }
    let new = collected(replaced);
    let old = collected(entries);
    assert forall|key: A| #[trigger] new.contains_key(key) <==> old.insert(
        entry.0,
        entry.1,
    ).contains_key(key) by {
        lemma_collected_domain(replaced, key);
        lemma_collected_domain(entries, key);
        if has_key(entries, key) {
            let i = choose|i: int| 0 <= i < entries.len() && (#[trigger] entries[i]).0 == key;
            assert(replaced[i].0 == key);
        }
        if has_key(replaced, key) {
            let i = choose|i: int| 0 <= i < replaced.len() && (#[trigger] replaced[i]).0 == key;
            assert(entries[i].0 == key);
        }
        assert(replaced[at] == entry);
    }
    assert forall|key: A| #[trigger] new.contains_key(key) implies new[key] == old.insert(
        entry.0,
        entry.1,
    )[key] by {
        lemma_collected_domain(replaced, key);
        let i = choose|i: int| 0 <= i < replaced.len() && (#[trigger] replaced[i]).0 == key;
        lemma_collected_entry(lt, replaced, i);
        if i != at {
            assert(entries[i] == replaced[i]);
            lemma_collected_entry(lt, entries, i);
            if i < at {
                assert(lt(entries[i].0, entries[at].0));
            } else {
                assert(lt(entries[at].0, entries[i].0));
            }
        }
    }
    assert(new =~= old.insert(entry.0, entry.1));
}

/// A map from keys to values, kept in ascending key order.
#[derive(Debug)]
pub struct SortedMap<K: Key, V: DeepView> {
    keys: Vec<K>,
    values: Vec<V>,
}

impl<K: Key, V: DeepView> SortedMap<K, V> {
    /// The entries, in ascending key order.
    pub closed spec fn entries(&self) -> Seq<(<K as DeepView>::V, <V as DeepView>::V)> {
        Seq::new(
            self.keys@.len(),
            |i: int| (self.keys@[i].deep_view(), self.values@[i].deep_view()),
        )
    }

    /// The map that the entries make up.
    pub open spec fn map(&self) -> Map<<K as DeepView>::V, <V as DeepView>::V> {
        collected(self.entries())
    }

    #[verifier::type_invariant]
    closed spec fn well_formed(&self) -> bool {
        &&& self.keys@.len() == self.values@.len()
        &&& ascending(K::order(), self.entries())
    }

    /// An empty map.
    pub fn new() -> (map: Self)
        ensures
            map.entries() == Seq::<(<K as DeepView>::V, <V as DeepView>::V)>::empty(),
    {
        SortedMap { keys: Vec::new(), values: Vec::new() }
    }

    /// The number of entries. Their keys strictly ascend.
    pub fn len(&self) -> (n: usize)
        ensures
            n == self.entries().len(),
            ascending(K::order(), self.entries()),
    {
        proof {
            use_type_invariant(self);
        }
        self.keys.len()
    }

    /// Whether the map holds no entry.
    pub fn is_empty(&self) -> (empty: bool)
        ensures
            empty == (self.entries().len() == 0),
    {
        self.keys.len() == 0
    }

    /// The key of the entry at position `i`.
    pub fn key_at(&self, i: usize) -> (key: &K)
        requires
            i < self.entries().len(),
        ensures
            key.deep_view() == self.entries()[i as int].0,
    {
        &self.keys[i]
    }

    /// The value of the entry at position `i`.
    pub fn value_at(&self, i: usize) -> (value: &V)
        requires
            i < self.entries().len(),
        ensures
            value.deep_view() == self.entries()[i as int].1,
    {
        proof {
            use_type_invariant(self);
        }
        &self.values[i]
    }

    /// The position of the first entry whose key does not come before `key`, and
    /// whether that entry has it.
    fn position(&self, key: &K) -> (found: (usize, bool))
        ensures
            found.0 <= self.keys@.len(),
            forall|i: int|
                0 <= i < found.0 ==> (K::order())(
                    (#[trigger] self.keys@[i]).deep_view(),
                    key.deep_view(),
                ),
            found.1 ==> found.0 < self.keys@.len() && self.keys@[found.0 as int].deep_view()
                == key.deep_view(),
            !found.1 ==> forall|i: int|
                found.0 <= i < self.keys@.len() ==> (K::order())(
                    key.deep_view(),
                    (#[trigger] self.keys@[i]).deep_view(),
                ),
    {
        proof {
            use_type_invariant(self);
            K::order_is_strict_total();
        }
        let ghost lt = K::order();
        let mut low: usize = 0;
        let mut high: usize = self.keys.len();
        while low < high
            invariant
                lt == K::order(),
                strict_total(lt),
                ascending(lt, self.entries()),
                low <= high <= self.keys@.len(),
                forall|i: int|
                    0 <= i < low ==> lt((#[trigger] self.keys@[i]).deep_view(), key.deep_view()),
                forall|i: int|
                    high <= i < self.keys@.len() ==> lt(
                        key.deep_view(),
                        (#[trigger] self.keys@[i]).deep_view(),
                    ),
            decreases high - low,
        {
            let middle: usize = low + (high - low) / 2;
            let ghost entries = self.entries();
            match self.keys[middle].compare(key) {
                Relation::Before => {
                    assert forall|i: int| 0 <= i < middle + 1 implies lt(
                        (#[trigger] self.keys@[i]).deep_view(),
                        key.deep_view(),
                    ) by {
                        if i < middle {
                            assert(lt(entries[i].0, entries[middle as int].0));
                        }
                    }
                    low = middle + 1;
                },
                Relation::Same => {
                    assert forall|i: int| 0 <= i < middle implies lt(
                        (#[trigger] self.keys@[i]).deep_view(),
                        key.deep_view(),
                    ) by {
                        assert(lt(entries[i].0, entries[middle as int].0));
                    }
                    return (middle, true);
                },
                Relation::After => {
                    assert forall|i: int| middle <= i < self.keys@.len() implies lt(
                        key.deep_view(),
                        (#[trigger] self.keys@[i]).deep_view(),
                    ) by {
                        if middle < i {
                            assert(lt(entries[middle as int].0, entries[i].0));
                        }
                    }
                    high = middle;
                },
            }
        }
        (low, false)
    }

    /// Whether some entry has the key `key`.
    pub fn contains_key(&self, key: &K) -> (found: bool)
        ensures
            found == has_key(self.entries(), key.deep_view()),
            found == self.map().contains_key(key.deep_view()),
    {
        let (at, found) = self.position(key);
        proof {
            K::order_is_strict_total();
            lemma_collected_domain(self.entries(), key.deep_view());
            if found {
                assert(self.entries()[at as int].0 == key.deep_view());
            } else {
                assert forall|i: int| 0 <= i < self.entries().len() implies (
                #[trigger] self.entries()[i]).0 != key.deep_view() by {
                    assert(self.entries()[i].0 == self.keys@[i].deep_view());
                    if i < at {
                        assert((K::order())(self.keys@[i].deep_view(), key.deep_view()));
                    } else {
                        assert((K::order())(key.deep_view(), self.keys@[i].deep_view()));
                    }
                }
            }
        }
        found
    }

    /// The value of the entry with the key `key`, if there is one.
    pub fn get(&self, key: &K) -> (value: Option<&V>)
        ensures
            match value {
                Some(v) => self.map().contains_key(key.deep_view()) && v.deep_view()
                    == self.map()[key.deep_view()],
                None => !self.map().contains_key(key.deep_view()),
            },
    {
        proof {
            use_type_invariant(self);
            K::order_is_strict_total();
        }
        if !self.contains_key(key) {
            return None;
        }
        let (at, found) = self.position(key);
        proof {
            let i = choose|i: int|
                0 <= i < self.entries().len() && (#[trigger] self.entries()[i]).0
                    == key.deep_view();
            assert(self.keys@[i].deep_view() == key.deep_view());
            assert(found);
            assert(self.entries()[at as int].0 == key.deep_view());
            lemma_collected_entry(K::order(), self.entries(), at as int);
        }
        Some(&self.values[at])
    }

    /// Adds an entry, in place of the one that has its key, if there is one.
    pub fn insert(&mut self, key: K, value: V)
        ensures
            final(self).map() == old(self).map().insert(key.deep_view(), value.deep_view()),
            final(self).entries().len() == old(self).entries().len() + (if old(
                self,
            ).map().contains_key(key.deep_view()) {
                0int
            } else {
                1
            }),
    {
        let (at, found) = self.position(&key);
        proof {
            use_type_invariant(&*self);
            K::order_is_strict_total();
        }
        let ghost before = self.entries();
        let ghost entry = (key.deep_view(), value.deep_view());
        proof {
            assert forall|i: int| 0 <= i < at implies (K::order())(
                (#[trigger] before[i]).0,
                entry.0,
            ) by {
                assert(before[i].0 == self.keys@[i].deep_view());
            }
            lemma_collected_domain(before, entry.0);
            if found {
                assert(before[at as int].0 == entry.0);
                lemma_replaced(K::order(), before, at as int, entry.1);
            } else {
                assert forall|i: int| at <= i < before.len() implies (K::order())(
                    entry.0,
                    (#[trigger] before[i]).0,
                ) by {
                    assert(before[i].0 == self.keys@[i].deep_view());
                }
                lemma_placed(K::order(), before, at as int, entry);
                assert(!has_key(before, entry.0));
            }
        }
        let mut inner: Self = SortedMap { keys: Vec::new(), values: Vec::new() };
        std::mem::swap(&mut inner, self);
        let SortedMap { mut keys, mut values } = inner;
        if found {
            values.set(at, value);
        } else {
            keys.insert(at, key);
            values.insert(at, value);
        }
        proof {
            let after = Seq::new(
                keys@.len(),
                |i: int| (keys@[i].deep_view(), values@[i].deep_view()),
            );
            if found {
                assert(after =~= before.update(at as int, entry));
            } else {
                assert(after =~= before.insert(at as int, entry));
            }
        }
        *self = SortedMap { keys, values };
    }

    /// The map that comes of inserting the items one after another.
    pub fn collect(items: Vec<(K, V)>) -> (map: Self)
        ensures
            map.map() == collected(items.deep_view()),
    {
        let ghost pairs = items.deep_view();
        let mut map: Self = SortedMap::new();
        for item in remaining: items
            invariant
                remaining.seq() == items@,
                pairs == items.deep_view(),
                map.map() == collected(pairs.take(remaining.index())),
        {
            let ghost n = remaining.index();
            assert(pairs.take(n + 1).drop_last() =~= pairs.take(n));
            assert(pairs.take(n + 1).last() == item.deep_view());
            let (key, value) = item;
            map.insert(key, value);
        }
        assert(pairs.take(pairs.len() as int) =~= pairs);
        map
    }

    /// The keys and the values, in ascending key order.
    pub fn into_parts(self) -> (parts: (Vec<K>, Vec<V>))
        ensures
            parts.0@.len() == self.entries().len(),
            parts.1@.len() == self.entries().len(),
            forall|i: int|
                0 <= i < self.entries().len() ==> (#[trigger] self.entries()[i]) == (
                    parts.0@[i].deep_view(),
                    parts.1@[i].deep_view(),
                ),
    {
        proof {
            use_type_invariant(&self);
        }
        let SortedMap { keys, values } = self;
        (keys, values)
    }
}

/// The keys of entries are the keys that stand in them.
pub proof fn keys_are_those_of_the_entries<A, B>(entries: Seq<(A, B)>, key: A)
    ensures
        has_key(entries, key) <==> exists|value: B| #[trigger] entries.contains((key, value)),
{
    if has_key(entries, key) {
        let i = choose|i: int| 0 <= i < entries.len() && (#[trigger] entries[i]).0 == key;
        assert(entries.contains((key, entries[i].1)));
    }
    if exists|value: B| #[trigger] entries.contains((key, value)) {
        let value = choose|value: B| #[trigger] entries.contains((key, value));
        let i = choose|i: int| 0 <= i < entries.len() && entries[i] == (key, value);
        assert(entries[i].0 == key);
    }
}

} // verus!
