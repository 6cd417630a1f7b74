//! Maps with text keys, listed in ascending key order.

use vstd::prelude::*;
use vstd::utf8::{decode_utf8, encode_utf8};

use crate::order::{
    lemma_rank_seq_antisymmetric, lemma_rank_seq_reflexive, lemma_rank_seq_transitive, rank_seq,
    rank_str, rank_text, Rank,
};

verus! {

/// Every key comes before those behind it.
pub open spec fn keys_ascending<V>(pairs: Seq<(Seq<char>, V)>) -> bool {
    forall|i: int, j: int|
        #![trigger pairs[i], pairs[j]]
        0 <= i < j < pairs.len() ==> rank_text(pairs[i].0, pairs[j].0) == Rank::Less
}

/// Where the pair of `key` stands.
pub open spec fn key_index<V>(pairs: Seq<(Seq<char>, V)>, key: Seq<char>) -> int {
    choose|i: int| 0 <= i < pairs.len() && (#[trigger] pairs[i]).0 == key
}

/// The value that the pairs assign to each key.
pub open spec fn map_of<V>(pairs: Seq<(Seq<char>, V)>) -> Map<Seq<char>, V> {
    Map::new(
        |key: Seq<char>| exists|i: int| 0 <= i < pairs.len() && (#[trigger] pairs[i]).0 == key,
        |key: Seq<char>| pairs[key_index(pairs, key)].1,
    )
}

/// Texts that tie are the same text.
pub proof fn lemma_rank_text_equal(a: Seq<char>, b: Seq<char>)
    ensures
        rank_text(a, b) == Rank::Equal <==> a == b,
{
    lemma_rank_bytes_equal(encode_utf8(a), encode_utf8(b));
    lemma_rank_seq_reflexive(encode_utf8(a));
    vstd::utf8::encode_utf8_decode_utf8(a);
    vstd::utf8::encode_utf8_decode_utf8(b);
}

/// Byte strings that tie are the same bytes.
pub proof fn lemma_rank_bytes_equal(a: Seq<u8>, b: Seq<u8>)
    ensures
        rank_seq(a, b) == Rank::Equal ==> a == b,
    decreases a.len(),
{
    if rank_seq(a, b) == Rank::Equal {
        if a.len() > 0 {
            lemma_rank_bytes_equal(a.drop_first(), b.drop_first());
            assert(a =~= seq![a[0]] + a.drop_first());
            assert(b =~= seq![b[0]] + b.drop_first());
        } else {
            assert(a =~= b);
        }
    }
}

/// With ascending keys the pair of a key is the only one of that key.
proof fn lemma_map_of<V>(pairs: Seq<(Seq<char>, V)>, at: int)
    requires
        keys_ascending(pairs),
        0 <= at < pairs.len(),
    ensures
        map_of(pairs).dom().contains(pairs[at].0),
        map_of(pairs)[pairs[at].0] == pairs[at].1,
{
    let key = pairs[at].0;
    let chosen = key_index(pairs, key);
    assert(pairs[at].0 == key);
    if chosen != at {
        lemma_rank_text_equal(key, key);
        if chosen < at {
            assert(rank_text(pairs[chosen].0, pairs[at].0) == Rank::Less);
        } else {
            assert(rank_text(pairs[at].0, pairs[chosen].0) == Rank::Less);
        }
    }
}

/// There are as many keys as pairs.
proof fn lemma_map_len<V>(pairs: Seq<(Seq<char>, V)>)
    requires
        keys_ascending(pairs),
    ensures
        map_of(pairs).dom().finite(),
        map_of(pairs).dom().len() == pairs.len(),
    decreases pairs.len(),
{
    if pairs.len() == 0 {
        assert(map_of(pairs).dom() =~= Set::<Seq<char>>::empty());
    } else {
        let front = pairs.drop_last();
        let last = pairs.last().0;
        lemma_map_len(front);
        assert forall|i: int| 0 <= i < front.len() implies (#[trigger] front[i]).0 != last by {
            assert(rank_text(pairs[i].0, pairs[pairs.len() - 1].0) == Rank::Less);
            lemma_rank_text_equal(last, last);
        }
        assert forall|key: Seq<char>| #[trigger]
            map_of(pairs).dom().contains(key) <==> map_of(front).dom().insert(last).contains(
            key,
        ) by {
            if map_of(pairs).dom().contains(key) {
                let i = key_index(pairs, key);
                if i < front.len() {
                    assert(front[i].0 == key);
                }
            }
            if map_of(front).dom().contains(key) {
                let i = key_index(front, key);
                assert(pairs[i].0 == key);
            }
            if key == last {
                assert(pairs[pairs.len() - 1].0 == key);
            }
        }
        assert(map_of(pairs).dom() =~= map_of(front).dom().insert(last));
    }
}

/// The pairs without the last one map everything but the last key.
proof fn lemma_map_drop_last<V>(pairs: Seq<(Seq<char>, V)>)
    requires
        keys_ascending(pairs),
        pairs.len() > 0,
    ensures
        map_of(pairs.drop_last()) == map_of(pairs).remove(pairs.last().0),
{
    let front = pairs.drop_last();
    let last = pairs.last().0;
    let wanted = map_of(pairs).remove(last);
    assert forall|i: int| 0 <= i < front.len() implies (#[trigger] front[i]).0 != last by {
        assert(rank_text(pairs[i].0, pairs[pairs.len() - 1].0) == Rank::Less);
        lemma_rank_text_equal(last, last);
    }
    assert forall|key: Seq<char>| #[trigger]
        map_of(front).dom().contains(key) <==> wanted.dom().contains(key) by {
        if map_of(front).dom().contains(key) {
            let i = key_index(front, key);
            assert(front[i].0 == key);
            assert(pairs[i].0 == key);
        }
        if wanted.dom().contains(key) {
            let i = key_index(pairs, key);
            assert(pairs[i].0 == key);
            assert(front[i].0 == key);
        }
    }
    assert forall|key: Seq<char>| wanted.dom().contains(key) implies #[trigger] map_of(front)[key]
        == wanted[key] by {
        let i = key_index(pairs, key);
        assert(pairs[i].0 == key);
        assert(front[i] == pairs[i]);
        lemma_map_of(pairs, i);
        lemma_map_of(front, i);
    }
    assert(map_of(front) =~= wanted);
}

/// The last key is the greatest one.
proof fn lemma_last_key<V>(pairs: Seq<(Seq<char>, V)>, key: Seq<char>)
    requires
        keys_ascending(pairs),
        map_of(pairs).dom().contains(key),
    ensures
        rank_text(key, pairs.last().0) != Rank::Greater,
{
    let i = key_index(pairs, key);
    assert(pairs[i].0 == key);
    if i < pairs.len() - 1 {
        assert(rank_text(pairs[i].0, pairs[pairs.len() - 1].0) == Rank::Less);
    } else {
        lemma_rank_text_equal(key, key);
    }
}

/// Ascending pairs are determined by what they map.
pub proof fn lemma_map_determines_pairs<V>(a: Seq<(Seq<char>, V)>, b: Seq<(Seq<char>, V)>)
    requires
        keys_ascending(a),
        keys_ascending(b),
        map_of(a) == map_of(b),
    ensures
        a == b,
    decreases a.len(),
{
    lemma_map_len(a);
    lemma_map_len(b);
    if a.len() == 0 {
        assert(a =~= b);
    } else {
        let last = a.len() - 1;
        lemma_map_of(a, last);
        lemma_map_of(b, last);
        lemma_last_key(b, a.last().0);
        lemma_last_key(a, b.last().0);
        lemma_rank_seq_antisymmetric(encode_utf8(a.last().0), encode_utf8(b.last().0));
        lemma_rank_text_equal(a.last().0, b.last().0);
        lemma_map_drop_last(a);
        lemma_map_drop_last(b);
        lemma_map_determines_pairs(a.drop_last(), b.drop_last());
        assert(a =~= a.drop_last().push(a.last()));
        assert(b =~= b.drop_last().push(b.last()));
    }
}

/// A map from texts to values.
#[derive(Debug, PartialEq, Eq)]
pub struct TextMap<V> {
    entries: Vec<(String, V)>,
}

impl<V> TextMap<V> {
    /// The key and value pairs, in ascending key order.
    pub closed spec fn pairs(self) -> Seq<(Seq<char>, V)> {
        Seq::new(self.entries@.len(), |i: int| (self.entries@[i].0@, self.entries@[i].1))
    }

    #[verifier::type_invariant]
    spec fn ordered(self) -> bool {
        keys_ascending(self.pairs())
    }
}

impl<V> View for TextMap<V> {
    type V = Map<Seq<char>, V>;

    open spec fn view(&self) -> Map<Seq<char>, V> {
        map_of(self.pairs())
    }
}

impl<V: Clone> Clone for TextMap<V> {
    fn clone(&self) -> (copy: Self)
        ensures
            copy@.dom() == self@.dom(),
            forall|key: Seq<char>| #[trigger]
                copy@.dom().contains(key) ==> cloned(self@[key], copy@[key]),
    {
        proof {
            use_type_invariant(self);
        }
        let mut entries: Vec<(String, V)> = Vec::new();
        let mut i: usize = 0;
        while i < self.entries.len()
            invariant
                i <= self.entries.len(),
                entries@.len() == i,
                forall|k: int|
                    0 <= k < i ==> (#[trigger] entries@[k]).0@ == self.entries@[k].0@ && cloned(
                        self.entries@[k].1,
                        entries@[k].1,
                    ),
            decreases self.entries.len() - i,
        {
            entries.push((self.entries[i].0.clone(), self.entries[i].1.clone()));
            i = i + 1;
        }
        let ghost pairs = self.pairs();
        let ghost copies = Seq::new(entries@.len(), |i: int| (entries@[i].0@, entries@[i].1));
        proof {
            assert forall|i: int, j: int|
                #![trigger copies[i], copies[j]]
                0 <= i < j < copies.len() implies rank_text(copies[i].0, copies[j].0)
                == Rank::Less by {
                assert(copies[i].0 == pairs[i].0);
                assert(copies[j].0 == pairs[j].0);
            }
        }
        let copy = TextMap { entries };
        proof {
            assert(copy.pairs() =~= copies);
            assert forall|key: Seq<char>| copy@.dom().contains(key) == self@.dom().contains(key) by {
                if copy@.dom().contains(key) {
                    let at = key_index(copies, key);
                    assert(pairs[at].0 == key);
                }
                if self@.dom().contains(key) {
                    let at = key_index(pairs, key);
                    assert(copies[at].0 == key);
                }
            }
            assert(copy@.dom() =~= self@.dom());
            assert forall|key: Seq<char>| #[trigger] copy@.dom().contains(key) implies cloned(
                self@[key],
                copy@[key],
            ) by {
                let at = key_index(copies, key);
                lemma_map_of(copies, at);
                lemma_map_of(pairs, at);
                assert(copies[at].0 == pairs[at].0);
                assert(entries@[at].1 == copies[at].1);
            }
        }
        copy
    }
}

impl<V> TextMap<V> {
    /// An empty map.
    pub fn new() -> (map: Self)
        ensures
            map@ == Map::<Seq<char>, V>::empty(),
            map.pairs() == Seq::<(Seq<char>, V)>::empty(),
    {
        let map = TextMap { entries: Vec::new() };
        assert(map.pairs() =~= Seq::empty());
        assert(map@ =~= Map::<Seq<char>, V>::empty());
        map
    }

    /// How many keys the map has.
    pub fn len(&self) -> (count: usize)
        ensures
            count == self.pairs().len(),
            self@.dom().finite(),
            count == self@.dom().len(),
    {
        proof {
            use_type_invariant(self);
            lemma_map_len(self.pairs());
        }
        self.entries.len()
    }

    /// The entries, in ascending key order.
    pub fn entries(&self) -> (entries: &Vec<(String, V)>)
        ensures
            entries@.len() == self.pairs().len(),
            keys_ascending(self.pairs()),
            forall|i: int|
                0 <= i < entries@.len() ==> self.pairs()[i] == ((#[trigger] entries@[i]).0@, entries@[i].1),
    {
        proof {
            use_type_invariant(self);
        }
        &self.entries
    }

    /// Where `key` stands, or where it would be placed.
    fn position(&self, key: &str) -> (found: (usize, bool))
        ensures
            found.0 <= self.pairs().len(),
            found.1 ==> found.0 < self.pairs().len() && self.pairs()[found.0 as int].0 == key@,
            forall|i: int|
                0 <= i < found.0 ==> rank_text((#[trigger] self.pairs()[i]).0, key@) == Rank::Less,
            !found.1 ==> forall|i: int|
                found.0 <= i < self.pairs().len() ==> rank_text(key@, (#[trigger] self.pairs()[i]).0)
                    == Rank::Less,
    {
        let mut at: usize = 0;
        proof {
            use_type_invariant(self);
        }
        while at < self.entries.len()
            invariant
                at <= self.entries@.len(),
                keys_ascending(self.pairs()),
                forall|i: int|
                    0 <= i < at ==> rank_text((#[trigger] self.pairs()[i]).0, key@) == Rank::Less,
            decreases self.entries.len() - at,
        {
            assert(self.pairs()[at as int].0 == self.entries@[at as int].0@);
            match rank_str(self.entries[at].0.as_str(), key) {
                Rank::Less => {
                    at = at + 1;
                },
                Rank::Equal => {
                    proof {
                        lemma_rank_text_equal(self.pairs()[at as int].0, key@);
                    }
                    return (at, true);
                },
                Rank::Greater => {
                    proof {
                        let pairs = self.pairs();
                        assert forall|i: int| at <= i < pairs.len() implies rank_text(
                            key@,
                            (#[trigger] pairs[i]).0,
                        ) == Rank::Less by {
                            lemma_rank_seq_antisymmetric(
                                encode_utf8(pairs[at as int].0),
                                encode_utf8(key@),
                            );
                            if i > at {
                                assert(rank_text(pairs[at as int].0, pairs[i].0) == Rank::Less);
                                lemma_rank_seq_transitive(
                                    encode_utf8(key@),
                                    encode_utf8(pairs[at as int].0),
                                    encode_utf8(pairs[i].0),
                                );
                            }
                        }
                    }
                    return (at, false);
                },
            }
        }
        (at, false)
    }

    /// The value of `key`.
    pub fn get(&self, key: &str) -> (value: Option<&V>)
        ensures
            match value {
                Some(value) => self@.dom().contains(key@) && *value == self@[key@],
                None => !self@.dom().contains(key@),
            },
    {
        let (at, present) = self.position(key);
        if present {
            proof {
                use_type_invariant(self);
                lemma_map_of(self.pairs(), at as int);
            }
            Some(&self.entries[at].1)
        } else {
            proof {
                let pairs = self.pairs();
                assert forall|i: int| 0 <= i < pairs.len() implies (#[trigger] pairs[i]).0
                    != key@ by {
                    lemma_rank_text_equal(pairs[i].0, key@);
                    lemma_rank_text_equal(key@, pairs[i].0);
                }
            }
            None
        }
    }

    /// Assigns `value` to `key`, in place of what was assigned to it.
    pub fn insert(&mut self, key: String, value: V)
        ensures
            final(self)@ == old(self)@.insert(key@, value),
    {
        let (at, present) = self.position(key.as_str());
        let ghost before = self.pairs();
        proof {
            use_type_invariant(&*self);
        }
        let mut entries: Vec<(String, V)> = Vec::new();
        std::mem::swap(&mut entries, &mut self.entries);
        let ghost text = key@;
        if present {
            let _ = entries.remove(at);
        }
        entries.insert(at, (key, value));
        proof {
            let after = Seq::new(entries@.len(), |i: int| (entries@[i].0@, entries@[i].1));
            if present {
                assert(after =~= before.update(at as int, (text, value)));
                assert forall|i: int, j: int|
                    #![trigger after[i], after[j]]
                    0 <= i < j < after.len() implies rank_text(after[i].0, after[j].0)
                    == Rank::Less by {
                    assert(after[i].0 == before[i].0);
                    assert(after[j].0 == before[j].0);
                }
            } else {
                assert(after =~= before.insert(at as int, (text, value)));
                assert forall|i: int, j: int|
                    #![trigger after[i], after[j]]
                    0 <= i < j < after.len() implies rank_text(after[i].0, after[j].0)
                    == Rank::Less by {
                    if i < at && j > at {
                        assert(rank_text(before[i].0, before[j - 1].0) == Rank::Less);
                    } else if i < at && j < at {
                        assert(rank_text(before[i].0, before[j].0) == Rank::Less);
                    } else if i > at {
                        assert(rank_text(before[i - 1].0, before[j - 1].0) == Rank::Less);
                    }
                }
            }
            assert(keys_ascending(after));
            lemma_insert_pairs(before, after, at as int, present, text, value);
        }
        self.entries = entries;
        assert(self.pairs() =~= Seq::new(
            entries@.len(),
            |i: int| (entries@[i].0@, entries@[i].1),
        ));
    }
}

proof fn lemma_insert_pairs<V>(
    before: Seq<(Seq<char>, V)>,
    after: Seq<(Seq<char>, V)>,
    at: int,
    present: bool,
    key: Seq<char>,
    value: V,
)
    requires
        keys_ascending(before),
        keys_ascending(after),
        0 <= at < after.len(),
        if present {
            at < before.len() && before[at].0 == key && after == before.update(at, (key, value))
        } else {
            at <= before.len() && after == before.insert(at, (key, value))
        },
    ensures
        map_of(after) == map_of(before).insert(key, value),
{
    let expected = map_of(before).insert(key, value);
    assert(after[at] == (key, value));
    assert forall|k: Seq<char>| map_of(after).dom().contains(k) <==> expected.dom().contains(k) by {
        if map_of(after).dom().contains(k) {
            let i = choose|i: int| 0 <= i < after.len() && (#[trigger] after[i]).0 == k;
            if i != at {
                let source = if present || i < at { i } else { i - 1 };
                assert(before[source].0 == k);
            }
        }
        if expected.dom().contains(k) && k != key {
            let i = choose|i: int| 0 <= i < before.len() && (#[trigger] before[i]).0 == k;
            let target = if present || i < at { i } else { i + 1 };
            assert(after[target].0 == k);
        }
        if k == key {
            assert(after[at].0 == k);
        }
    }
    assert forall|k: Seq<char>| map_of(after).dom().contains(k) implies map_of(after)[k]
        == expected[k] by {
        let i = choose|i: int| 0 <= i < after.len() && (#[trigger] after[i]).0 == k;
        lemma_map_of(after, i);
        lemma_map_of(after, at);
        if k != key {
            let source = if present || i < at { i } else { i - 1 };
            assert(before[source] == after[i]);
            lemma_map_of(before, source);
        }
    }
    assert(map_of(after) =~= expected);
}

/// An insertion sets the value of its text, whatever it was, and of no other text; a
/// lookup finds the value of its text, and none without one.
pub proof fn law_text_maps_remember_the_last_value<V>(
    map: &mut TextMap<V>,
    key: String,
    value: V,
    other: Seq<char>,
    now: TextMap<V>,
    text: &str,
    found: Option<&V>,
)
    requires
        call_ensures(TextMap::<V>::insert, (map, key, value), ()),
        call_ensures(TextMap::<V>::get, (&now, text), found),
    ensures
        final(map)@.dom().contains(key@),
        final(map)@[key@] == value,
        other != key@ ==> {
            &&& final(map)@.dom().contains(other) <==> old(map)@.dom().contains(other)
            &&& old(map)@.dom().contains(other) ==> final(map)@[other] == old(map)@[other]
        },
        found is Some <==> now@.dom().contains(text@),
        found is Some ==> *found->Some_0 == now@[text@],
{
}

/// The entries of a map are its texts with their values, each once, in the order of
/// the texts; there are as many as the map is long.
pub proof fn law_text_maps_list_their_texts_in_order<V>(
    map: TextMap<V>,
    entries: &Vec<(String, V)>,
    count: usize,
)
    requires
        call_ensures(TextMap::<V>::entries, (&map,), entries),
        call_ensures(TextMap::<V>::len, (&map,), count),
    ensures
        entries@.len() == count,
        count == map@.dom().len(),
        forall|i: int|
            0 <= i < entries@.len() ==> map@.dom().contains((#[trigger] entries@[i]).0@)
                && map@[entries@[i].0@] == entries@[i].1,
        forall|i: int, j: int|
            #![trigger entries@[i], entries@[j]]
            0 <= i < j < entries@.len() ==> rank_text(entries@[i].0@, entries@[j].0@)
                == Rank::Less,
{
    assert forall|i: int| 0 <= i < entries@.len() implies map@.dom().contains(
        (#[trigger] entries@[i]).0@,
    ) && map@[entries@[i].0@] == entries@[i].1 by {
        lemma_map_of(map.pairs(), i);
    }
    assert forall|i: int, j: int|
        #![trigger entries@[i], entries@[j]]
        0 <= i < j < entries@.len() implies rank_text(entries@[i].0@, entries@[j].0@)
        == Rank::Less by {
        assert(map.pairs()[i].0 == entries@[i].0@);
        assert(map.pairs()[j].0 == entries@[j].0@);
    }
}

} // verus!
