//! Maps over keys that can only be tested for equality.

use vstd::prelude::*;

use crate::order::same_bytes;
use crate::property::copy_numbers;

verus! {

/// A key that stands for a mathematical value.
pub trait Keyed: Sized {
    /// What the key stands for.
    type Model;

    /// What the key stands for.
    spec fn model(&self) -> Self::Model;

    /// Whether both keys stand for the same value.
    fn same(&self, other: &Self) -> (same: bool)
        ensures
            same == (self.model() == other.model()),
    ;

    /// Another key that stands for the same value.
    fn copy_key(&self) -> (copy: Self)
        ensures
            copy.model() == self.model(),
    ;
}

impl Keyed for u32 {
    type Model = u32;

    open spec fn model(&self) -> u32 {
        *self
    }

    fn same(&self, other: &u32) -> (same: bool) {
        *self == *other
    }

    fn copy_key(&self) -> (copy: u32) {
        *self
    }
}

impl Keyed for u64 {
    type Model = u64;

    open spec fn model(&self) -> u64 {
        *self
    }

    fn same(&self, other: &u64) -> (same: bool) {
        *self == *other
    }

    fn copy_key(&self) -> (copy: u64) {
        *self
    }
}

impl Keyed for Vec<u8> {
    type Model = Seq<u8>;

    open spec fn model(&self) -> Seq<u8> {
        self@
    }

    fn same(&self, other: &Vec<u8>) -> (same: bool) {
        same_bytes(self.as_slice(), other.as_slice())
    }

    fn copy_key(&self) -> (copy: Vec<u8>) {
        copy_numbers(self)
    }
}

impl Keyed for (u64, u64) {
    type Model = (u64, u64);

    open spec fn model(&self) -> (u64, u64) {
        *self
    }

    fn same(&self, other: &(u64, u64)) -> (same: bool) {
        self.0 == other.0 && self.1 == other.1
    }

    fn copy_key(&self) -> (copy: (u64, u64)) {
        *self
    }
}

/// No two entries have the same key.
pub open spec fn distinct_keys<K: Keyed, V>(entries: Seq<(K, V)>) -> bool {
    forall|i: int, j: int|
        #![trigger entries[i], entries[j]]
        0 <= i < j < entries.len() ==> entries[i].0.model() != entries[j].0.model()
}

/// Where a key stands.
pub open spec fn entry_index<K: Keyed, V>(entries: Seq<(K, V)>, key: K::Model) -> int {
    choose|i: int| 0 <= i < entries.len() && (#[trigger] entries[i]).0.model() == key
}

/// The value of each key.
pub open spec fn assoc_map<K: Keyed, V>(entries: Seq<(K, V)>) -> Map<K::Model, V> {
    Map::new(
        |key: K::Model|
            exists|i: int| 0 <= i < entries.len() && (#[trigger] entries[i]).0.model() == key,
        |key: K::Model| entries[entry_index(entries, key)].1,
    )
}

/// The entry at a place is what the map says of its key.
pub proof fn lemma_assoc_entry<K: Keyed, V>(entries: Seq<(K, V)>, at: int)
    requires
        distinct_keys(entries),
        0 <= at < entries.len(),
    ensures
        assoc_map(entries).dom().contains(entries[at].0.model()),
        assoc_map(entries)[entries[at].0.model()] == entries[at].1,
{
    let key = entries[at].0.model();
    let found = entry_index(entries, key);
    assert(entries[found].0.model() == key);
    if found < at {
        assert(entries[found].0.model() != entries[at].0.model());
    } else if found > at {
        assert(entries[at].0.model() != entries[found].0.model());
    }
}

proof fn lemma_assoc_push<K: Keyed, V>(entries: Seq<(K, V)>, entry: (K, V))
    requires
        distinct_keys(entries),
        !assoc_map(entries).dom().contains(entry.0.model()),
    ensures
        distinct_keys(entries.push(entry)),
        assoc_map(entries.push(entry)) == assoc_map(entries).insert(entry.0.model(), entry.1),
{
    let grown = entries.push(entry);
    assert forall|i: int, j: int|
        #![trigger grown[i], grown[j]]
        0 <= i < j < grown.len() implies grown[i].0.model() != grown[j].0.model() by {
        assert(grown[i] == entries[i]);
        if j < entries.len() {
            assert(grown[j] == entries[j]);
        } else {
            lemma_assoc_entry(entries, i);
        }
    }
    let wanted = assoc_map(entries).insert(entry.0.model(), entry.1);
    assert forall|key: K::Model| #[trigger]
        assoc_map(grown).dom().contains(key) <==> wanted.dom().contains(key) by {
        if assoc_map(grown).dom().contains(key) {
            let i = entry_index(grown, key);
            if i < entries.len() {
                assert(entries[i].0.model() == key);
            }
        }
        if assoc_map(entries).dom().contains(key) {
            let i = entry_index(entries, key);
            assert(grown[i].0.model() == key);
        }
        if key == entry.0.model() {
            assert(grown[entries.len() as int].0.model() == key);
        }
    }
    assert forall|key: K::Model| wanted.dom().contains(key) implies #[trigger] assoc_map(grown)[key]
        == wanted[key] by {
        if key == entry.0.model() {
            lemma_assoc_entry(grown, entries.len() as int);
        } else {
            let i = entry_index(entries, key);
            assert(entries[i].0.model() == key);
            assert(grown[i] == entries[i]);
            lemma_assoc_entry(grown, i);
            lemma_assoc_entry(entries, i);
        }
    }
    assert(assoc_map(grown) =~= wanted);
}

proof fn lemma_assoc_remove<K: Keyed, V>(entries: Seq<(K, V)>, at: int)
    requires
        distinct_keys(entries),
        0 <= at < entries.len(),
    ensures
        distinct_keys(entries.remove(at)),
        assoc_map(entries.remove(at)) == assoc_map(entries).remove(entries[at].0.model()),
{
    let rest = entries.remove(at);
    let gone = entries[at].0.model();
    assert forall|i: int, j: int|
        #![trigger rest[i], rest[j]]
        0 <= i < j < rest.len() implies rest[i].0.model() != rest[j].0.model() by {
        let a = if i < at {
            i
        } else {
            i + 1
        };
        let b = if j < at {
            j
        } else {
            j + 1
        };
        assert(rest[i] == entries[a] && rest[j] == entries[b]);
    }
    let wanted = assoc_map(entries).remove(gone);
    assert forall|key: K::Model| #[trigger]
        assoc_map(rest).dom().contains(key) <==> wanted.dom().contains(key) by {
        if assoc_map(rest).dom().contains(key) {
            let i = entry_index(rest, key);
            let a = if i < at {
                i
            } else {
                i + 1
            };
            assert(rest[i] == entries[a]);
            assert(entries[a].0.model() == key);
            if a < at {
                assert(entries[a].0.model() != entries[at].0.model());
            } else {
                assert(entries[at].0.model() != entries[a].0.model());
            }
        }
        if wanted.dom().contains(key) {
            let a = entry_index(entries, key);
            assert(entries[a].0.model() == key);
            let i = if a < at {
                a
            } else {
                a - 1
            };
            assert(rest[i] == entries[a]);
        }
    }
    assert forall|key: K::Model| wanted.dom().contains(key) implies #[trigger] assoc_map(rest)[key]
        == wanted[key] by {
        let a = entry_index(entries, key);
        assert(entries[a].0.model() == key);
        let i = if a < at {
            a
        } else {
            a - 1
        };
        assert(rest[i] == entries[a]);
        lemma_assoc_entry(rest, i);
        lemma_assoc_entry(entries, a);
    }
    assert(assoc_map(rest) =~= wanted);
}

/// There are as many keys as entries.
proof fn lemma_assoc_len<K: Keyed, V>(entries: Seq<(K, V)>)
    requires
        distinct_keys(entries),
    ensures
        assoc_map(entries).dom().finite(),
        assoc_map(entries).dom().len() == entries.len(),
    decreases entries.len(),
{
    if entries.len() == 0 {
        assert(assoc_map(entries).dom() =~= Set::<K::Model>::empty());
    } else {
        let last = entries.len() - 1;
        lemma_assoc_entry(entries, last);
        lemma_assoc_remove(entries, last);
        assert(entries.remove(last) =~= entries.drop_last());
        lemma_assoc_len(entries.drop_last());
        let rest = assoc_map(entries.drop_last());
        assert(rest.dom() =~= assoc_map(entries).dom().remove(entries[last].0.model()));
        assert(assoc_map(entries).dom() =~= rest.dom().insert(entries[last].0.model()));
    }
}

/// A map held as a list of entries.
#[derive(Debug)]
pub struct AssocMap<K: Keyed, V> {
    entries: Vec<(K, V)>,
}

impl<K: Keyed, V> View for AssocMap<K, V> {
    type V = Map<K::Model, V>;

    closed spec fn view(&self) -> Map<K::Model, V> {
        assoc_map(self.entries@)
    }
}

impl<K: Keyed, V: Clone> Clone for AssocMap<K, V> {
    fn clone(&self) -> (copy: Self)
        ensures
            copy@.dom() == self@.dom(),
            forall|key: K::Model| #[trigger]
                copy@.dom().contains(key) ==> cloned(self@[key], copy@[key]),
    {
        proof {
            use_type_invariant(self);
        }
        let mut entries: Vec<(K, V)> = Vec::new();
        let mut i: usize = 0;
        while i < self.entries.len()
            invariant
                i <= self.entries.len(),
                entries@.len() == i,
                forall|k: int|
                    0 <= k < i ==> (#[trigger] entries@[k]).0.model() == self.entries@[k].0.model()
                        && cloned(self.entries@[k].1, entries@[k].1),
            decreases self.entries.len() - i,
        {
            entries.push((self.entries[i].0.copy_key(), self.entries[i].1.clone()));
            i = i + 1;
        }
        let ghost copies = entries@;
        proof {
            assert forall|i: int, j: int|
                #![trigger copies[i], copies[j]]
                0 <= i < j < copies.len() implies copies[i].0.model() != copies[j].0.model() by {
                assert(self.entries@[i].0.model() != self.entries@[j].0.model());
            }
        }
        let copy = AssocMap { entries };
        proof {
            assert forall|key: K::Model| copy@.dom().contains(key) == self@.dom().contains(key) by {
                if copy@.dom().contains(key) {
                    let at = entry_index(copies, key);
                    assert(self.entries@[at].0.model() == key);
                }
                if self@.dom().contains(key) {
                    let at = entry_index(self.entries@, key);
                    assert(copies[at].0.model() == key);
                }
            }
            assert(copy@.dom() =~= self@.dom());
            assert forall|key: K::Model| #[trigger] copy@.dom().contains(key) implies cloned(
                self@[key],
                copy@[key],
            ) by {
                let at = entry_index(copies, key);
                lemma_assoc_entry(copies, at);
                lemma_assoc_entry(self.entries@, at);
            }
        }
        copy
    }
}

impl<K: Keyed, V> AssocMap<K, V> {
    #[verifier::type_invariant]
    spec fn well_formed(self) -> bool {
        distinct_keys(self.entries@)
    }

    /// The entries, in the order of their insertion.
    pub closed spec fn spec_entries(self) -> Seq<(K, V)> {
        self.entries@
    }

    /// Makes an empty map.
    pub fn new() -> (map: Self)
        ensures
            map@ == Map::<K::Model, V>::empty(),
            map.spec_entries().len() == 0,
    {
        let map = AssocMap { entries: Vec::new() };
        assert(map@ =~= Map::<K::Model, V>::empty());
        map
    }

    /// The number of keys.
    pub fn len(&self) -> (count: usize)
        ensures
            count == self.spec_entries().len(),
            self@.dom().finite(),
            count == self@.dom().len(),
            distinct_keys(self.spec_entries()),
            self@ == assoc_map(self.spec_entries()),
    {
        proof {
            use_type_invariant(self);
            lemma_assoc_len(self.entries@);
        }
        self.entries.len()
    }

    /// Whether there is no key.
    pub fn is_empty(&self) -> (empty: bool)
        ensures
            empty == (self@ == Map::<K::Model, V>::empty()),
    {
        proof {
            use_type_invariant(self);
            if self.entries@.len() > 0 {
                lemma_assoc_entry(self.entries@, 0);
            } else {
                assert(self@ =~= Map::<K::Model, V>::empty());
            }
        }
        self.entries.len() == 0
    }

    fn position(&self, key: &K) -> (at: Option<usize>)
        ensures
            match at {
                Some(at) => at < self.entries@.len() && self.entries@[at as int].0.model()
                    == key.model(),
                None => !self@.dom().contains(key.model()),
            },
    {
        let mut i: usize = 0;
        while i < self.entries.len()
            invariant
                i <= self.entries.len(),
                forall|k: int|
                    0 <= k < i ==> (#[trigger] self.entries@[k]).0.model() != key.model(),
            decreases self.entries.len() - i,
        {
            if self.entries[i].0.same(key) {
                return Some(i);
            }
            i = i + 1;
        }
        None
    }

    /// The value of a key.
    pub fn get(&self, key: &K) -> (value: Option<&V>)
        ensures
            match value {
                Some(value) => self@.dom().contains(key.model()) && self@[key.model()] == *value,
                None => !self@.dom().contains(key.model()),
            },
    {
        proof {
            use_type_invariant(self);
        }
        match self.position(key) {
            Some(at) => {
                proof {
                    lemma_assoc_entry(self.entries@, at as int);
                }
                Some(&self.entries[at].1)
            },
            None => None,
        }
    }

    /// The entry at a place.
    pub fn entry_at(&self, at: usize) -> (entry: (&K, &V))
        requires
            at < self.spec_entries().len(),
        ensures
            (*entry.0, *entry.1) == self.spec_entries()[at as int],
            self@.dom().contains(entry.0.model()),
            self@[entry.0.model()] == *entry.1,
            distinct_keys(self.spec_entries()),
            self@ == assoc_map(self.spec_entries()),
    {
        proof {
            use_type_invariant(self);
            lemma_assoc_entry(self.entries@, at as int);
        }
        let entry = &self.entries[at];
        (&entry.0, &entry.1)
    }

    /// Takes a key and its value out of the map.
    pub fn take(&mut self, key: &K) -> (value: Option<V>)
        ensures
            match value {
                Some(value) => {
                    &&& old(self)@.dom().contains(key.model())
                    &&& old(self)@[key.model()] == value
                    &&& final(self)@ == old(self)@.remove(key.model())
                    &&& final(self).spec_entries().len() + 1 == old(self).spec_entries().len()
                },
                None => !old(self)@.dom().contains(key.model()) && final(self)@ == old(self)@
                    && final(self).spec_entries() == old(self).spec_entries(),
            },
    {
        proof {
            use_type_invariant(&*self);
        }
        match self.position(key) {
            Some(at) => {
                proof {
                    lemma_assoc_entry(self.entries@, at as int);
                    lemma_assoc_remove(self.entries@, at as int);
                }
                let mut entries: Vec<(K, V)> = Vec::new();
                std::mem::swap(&mut entries, &mut self.entries);
                let entry = entries.remove(at);
                self.entries = entries;
                Some(entry.1)
            },
            None => None,
        }
    }

    /// Takes the entry inserted last out of the map.
    pub fn pop(&mut self) -> (entry: Option<(K, V)>)
        ensures
            match entry {
                Some(entry) => {
                    &&& old(self).spec_entries().len() > 0
                    &&& entry == old(self).spec_entries().last()
                    &&& final(self).spec_entries() == old(self).spec_entries().drop_last()
                    &&& old(self)@.dom().contains(entry.0.model())
                    &&& old(self)@[entry.0.model()] == entry.1
                    &&& final(self)@ == old(self)@.remove(entry.0.model())
                },
                None => old(self)@ == Map::<K::Model, V>::empty() && old(self).spec_entries().len()
                    == 0 && final(self)@ == old(self)@ && final(self).spec_entries()
                    == old(self).spec_entries(),
            },
    {
        proof {
            use_type_invariant(&*self);
        }
        if self.entries.len() == 0 {
            assert(self@ =~= Map::<K::Model, V>::empty());
            return None;
        }
        let last = self.entries.len() - 1;
        proof {
            lemma_assoc_entry(self.entries@, last as int);
            lemma_assoc_remove(self.entries@, last as int);
            assert(self.entries@.remove(last as int) =~= self.entries@.drop_last());
        }
        let mut entries: Vec<(K, V)> = Vec::new();
        std::mem::swap(&mut entries, &mut self.entries);
        let entry = entries.remove(last);
        self.entries = entries;
        Some(entry)
    }

    /// Sets the value of a key.
    pub fn insert(&mut self, key: K, value: V)
        ensures
            final(self)@ == old(self)@.insert(key.model(), value),
            !old(self)@.dom().contains(key.model()) ==> final(self).spec_entries()
                == old(self).spec_entries().push((key, value)),
    {
        let _ = self.take(&key);
        proof {
            use_type_invariant(&*self);
            lemma_assoc_push(self.entries@, (key, value));
        }
        let mut entries: Vec<(K, V)> = Vec::new();
        std::mem::swap(&mut entries, &mut self.entries);
        entries.push((key, value));
        self.entries = entries;
        assert(self@ =~= old(self)@.insert(key.model(), value));
    }
}

/// A map says of its keys what its entries do.
pub proof fn lemma_assoc_view<K: Keyed, V>(map: AssocMap<K, V>)
    ensures
        map@ == assoc_map(map.spec_entries()),
{
}

/// An insertion sets the value of its key, whatever it was, and of no other key;
/// a lookup finds the value of its key, and none without one.
pub proof fn law_maps_remember_the_last_value<K: Keyed, V>(
    map: &mut AssocMap<K, V>,
    key: K,
    value: V,
    other: K::Model,
    now: AssocMap<K, V>,
    found: Option<&V>,
)
    requires
        call_ensures(AssocMap::<K, V>::insert, (map, key, value), ()),
        call_ensures(AssocMap::<K, V>::get, (&now, &key), found),
    ensures
        final(map)@.dom().contains(key.model()),
        final(map)@[key.model()] == value,
        other != key.model() ==> {
            &&& final(map)@.dom().contains(other) <==> old(map)@.dom().contains(other)
            &&& old(map)@.dom().contains(other) ==> final(map)@[other] == old(map)@[other]
        },
        found is Some <==> now@.dom().contains(key.model()),
        found is Some ==> *found->Some_0 == now@[key.model()],
{
}

/// Taking a key gives its value, and the map no longer has the key; other keys stay.
pub proof fn law_taken_keys_are_gone<K: Keyed, V>(
    map: &mut AssocMap<K, V>,
    key: K,
    other: K::Model,
    value: Option<V>,
)
    requires
        call_ensures(AssocMap::<K, V>::take, (map, &key), value),
    ensures
        value is Some <==> old(map)@.dom().contains(key.model()),
        value is Some ==> value->Some_0 == old(map)@[key.model()],
        !final(map)@.dom().contains(key.model()),
        other != key.model() ==> {
            &&& final(map)@.dom().contains(other) <==> old(map)@.dom().contains(other)
            &&& old(map)@.dom().contains(other) ==> final(map)@[other] == old(map)@[other]
        },
{
}

/// Popping gives a key with its value as long as there is one, and the map no longer
/// has the key; other keys stay.
pub proof fn law_popped_keys_are_gone<K: Keyed, V>(
    map: &mut AssocMap<K, V>,
    other: K::Model,
    entry: Option<(K, V)>,
)
    requires
        call_ensures(AssocMap::<K, V>::pop, (map,), entry),
    ensures
        entry is None ==> !old(map)@.dom().contains(other),
        entry matches Some((key, value)) ==> {
            &&& old(map)@.dom().contains(key.model()) && old(map)@[key.model()] == value
            &&& !final(map)@.dom().contains(key.model())
            &&& other != key.model() ==> (final(map)@.dom().contains(other) <==> old(map)@.dom().contains(other))
        },
{
}

/// A map is as long as it has keys, and empty if and only if it has none.
pub proof fn law_maps_are_as_long_as_their_keys<K: Keyed, V>(
    map: AssocMap<K, V>,
    fresh: AssocMap<K, V>,
    count: usize,
    empty: bool,
)
    requires
        call_ensures(AssocMap::<K, V>::new, (), fresh),
        call_ensures(AssocMap::<K, V>::len, (&map,), count),
        call_ensures(AssocMap::<K, V>::is_empty, (&map,), empty),
    ensures
        fresh@.dom() == Set::<K::Model>::empty(),
        count == map@.dom().len(),
        empty <==> map@.dom() == Set::<K::Model>::empty(),
{
    if map@.dom() == Set::<K::Model>::empty() {
        assert(map@ =~= Map::<K::Model, V>::empty());
    }
}

} // verus!
