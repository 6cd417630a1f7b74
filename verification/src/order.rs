//! Equality of texts, total orders and a stable sort.

use vstd::prelude::*;

verus! {

/// Outcome of comparing two values.
#[derive(Debug, Clone, Copy, PartialEq, Eq, Structural)]
pub enum Rank {
    Less,
    Equal,
    Greater,
}

impl Rank {
    /// The outcome with the operands exchanged.
    pub open spec fn reversed(self) -> Rank {
        match self {
            Rank::Less => Rank::Greater,
            Rank::Equal => Rank::Equal,
            Rank::Greater => Rank::Less,
        }
    }

    /// The outcome that `next` refines when this one is a tie.
    pub open spec fn refined(self, next: Rank) -> Rank {
        match self {
            Rank::Equal => next,
            other => other,
        }
    }
}

/// A type with a total preorder.
pub trait Ranked: Sized {
    /// How `self` stands to `other`.
    spec fn ranked(&self, other: &Self) -> Rank;

    /// Every value ties with itself.
    proof fn rank_reflexive(a: &Self)
        ensures
            a.ranked(a) == Rank::Equal,
    ;

    /// Exchanging the operands reverses the outcome.
    proof fn rank_antisymmetric(a: &Self, b: &Self)
        ensures
            b.ranked(a) == a.ranked(b).reversed(),
    ;

    /// The order is transitive, strictly if either step is strict.
    proof fn rank_transitive(a: &Self, b: &Self, c: &Self)
        requires
            a.ranked(b) != Rank::Greater,
            b.ranked(c) != Rank::Greater,
        ensures
            a.ranked(c) == a.ranked(b).refined(b.ranked(c)),
    ;

    /// How `self` stands to `other`.
    fn rank(&self, other: &Self) -> (rank: Rank)
        ensures
            rank == self.ranked(other),
    ;
}

/// How two integers stand to each other.
pub open spec fn rank_int(a: int, b: int) -> Rank {
    if a < b {
        Rank::Less
    } else if a == b {
        Rank::Equal
    } else {
        Rank::Greater
    }
}

/// How two numbers stand to each other.
pub fn rank_u64(a: u64, b: u64) -> (rank: Rank)
    ensures
        rank == rank_int(a as int, b as int),
{
    if a < b {
        Rank::Less
    } else if b < a {
        Rank::Greater
    } else {
        Rank::Equal
    }
}

impl Ranked for u64 {
    open spec fn ranked(&self, other: &u64) -> Rank {
        rank_int(*self as int, *other as int)
    }

    proof fn rank_reflexive(a: &u64) {
    }

    proof fn rank_antisymmetric(a: &u64, b: &u64) {
    }

    proof fn rank_transitive(a: &u64, b: &u64, c: &u64) {
    }

    fn rank(&self, other: &u64) -> (rank: Rank) {
        if *self < *other {
            Rank::Less
        } else if *other < *self {
            Rank::Greater
        } else {
            Rank::Equal
        }
    }
}

impl Ranked for u8 {
    open spec fn ranked(&self, other: &u8) -> Rank {
        rank_int(*self as int, *other as int)
    }

    proof fn rank_reflexive(a: &u8) {
    }

    proof fn rank_antisymmetric(a: &u8, b: &u8) {
    }

    proof fn rank_transitive(a: &u8, b: &u8, c: &u8) {
    }

    fn rank(&self, other: &u8) -> (rank: Rank) {
        if *self < *other {
            Rank::Less
        } else if *other < *self {
            Rank::Greater
        } else {
            Rank::Equal
        }
    }
}

impl Ranked for u32 {
    open spec fn ranked(&self, other: &u32) -> Rank {
        rank_int(*self as int, *other as int)
    }

    proof fn rank_reflexive(a: &u32) {
    }

    proof fn rank_antisymmetric(a: &u32, b: &u32) {
    }

    proof fn rank_transitive(a: &u32, b: &u32, c: &u32) {
    }

    fn rank(&self, other: &u32) -> (rank: Rank) {
        if *self < *other {
            Rank::Less
        } else if *other < *self {
            Rank::Greater
        } else {
            Rank::Equal
        }
    }
}

impl Ranked for i64 {
    open spec fn ranked(&self, other: &i64) -> Rank {
        rank_int(*self as int, *other as int)
    }

    proof fn rank_reflexive(a: &i64) {
    }

    proof fn rank_antisymmetric(a: &i64, b: &i64) {
    }

    proof fn rank_transitive(a: &i64, b: &i64, c: &i64) {
    }

    fn rank(&self, other: &i64) -> (rank: Rank) {
        if *self < *other {
            Rank::Less
        } else if *other < *self {
            Rank::Greater
        } else {
            Rank::Equal
        }
    }
}

/// Lexicographic order: the first difference decides, and a proper prefix
/// comes first.
pub open spec fn rank_seq<T: Ranked>(a: Seq<T>, b: Seq<T>) -> Rank
    decreases a.len(),
{
    if a.len() == 0 {
        if b.len() == 0 {
            Rank::Equal
        } else {
            Rank::Less
        }
    } else if b.len() == 0 {
        Rank::Greater
    } else {
        a[0].ranked(&b[0]).refined(rank_seq(a.drop_first(), b.drop_first()))
    }
}

/// Lexicographic order ties a sequence with itself.
pub proof fn lemma_rank_seq_reflexive<T: Ranked>(a: Seq<T>)
    ensures
        rank_seq(a, a) == Rank::Equal,
    decreases a.len(),
{
    if a.len() > 0 {
        T::rank_reflexive(&a[0]);
        lemma_rank_seq_reflexive(a.drop_first());
    }
}

/// Exchanging the operands reverses lexicographic order.
pub proof fn lemma_rank_seq_antisymmetric<T: Ranked>(a: Seq<T>, b: Seq<T>)
    ensures
        rank_seq(b, a) == rank_seq(a, b).reversed(),
    decreases a.len(),
{
    if a.len() > 0 && b.len() > 0 {
        T::rank_antisymmetric(&a[0], &b[0]);
        lemma_rank_seq_antisymmetric(a.drop_first(), b.drop_first());
    }
}

/// Lexicographic order is transitive.
pub proof fn lemma_rank_seq_transitive<T: Ranked>(a: Seq<T>, b: Seq<T>, c: Seq<T>)
    requires
        rank_seq(a, b) != Rank::Greater,
        rank_seq(b, c) != Rank::Greater,
    ensures
        rank_seq(a, c) == rank_seq(a, b).refined(rank_seq(b, c)),
    decreases a.len(),
{
    if a.len() > 0 && b.len() > 0 && c.len() > 0 {
        T::rank_transitive(&a[0], &b[0], &c[0]);
        if a[0].ranked(&b[0]) == Rank::Equal && b[0].ranked(&c[0]) == Rank::Equal {
            lemma_rank_seq_transitive(a.drop_first(), b.drop_first(), c.drop_first());
        }
    }
}

/// A shared prefix of tying elements does not affect lexicographic order.
pub proof fn lemma_rank_seq_skip<T: Ranked>(a: Seq<T>, b: Seq<T>, count: int)
    requires
        0 <= count <= a.len(),
        count <= b.len(),
        forall|i: int| 0 <= i < count ==> (#[trigger] a[i]).ranked(&b[i]) == Rank::Equal,
    ensures
        rank_seq(a, b) == rank_seq(a.skip(count), b.skip(count)),
    decreases count,
{
    if count == 0 {
        assert(a.skip(0) =~= a);
        assert(b.skip(0) =~= b);
    } else {
        let a1 = a.drop_first();
        let b1 = b.drop_first();
        assert(a[0].ranked(&b[0]) == Rank::Equal);
        assert forall|i: int| 0 <= i < count - 1 implies (#[trigger] a1[i]).ranked(&b1[i])
            == Rank::Equal by {
            assert(a[i + 1].ranked(&b[i + 1]) == Rank::Equal);
        }
        lemma_rank_seq_skip(a1, b1, count - 1);
        assert(a1.skip(count - 1) =~= a.skip(count));
        assert(b1.skip(count - 1) =~= b.skip(count));
    }
}

/// How two slices stand to each other lexicographically.
pub fn rank_slices<T: Ranked>(a: &[T], b: &[T]) -> (rank: Rank)
    ensures
        rank == rank_seq(a@, b@),
{
    let mut i: usize = 0;
    while i < a.len() && i < b.len()
        invariant
            i <= a.len(),
            i <= b.len(),
            forall|k: int| 0 <= k < i ==> (#[trigger] a@[k]).ranked(&b@[k]) == Rank::Equal,
        decreases a.len() - i,
    {
        let step = a[i].rank(&b[i]);
        if step != Rank::Equal {
            proof {
                lemma_rank_seq_skip(a@, b@, i as int);
            }
            return step;
        }
        i = i + 1;
    }
    proof {
        lemma_rank_seq_skip(a@, b@, i as int);
    }
    if a.len() == b.len() {
        Rank::Equal
    } else if a.len() < b.len() {
        Rank::Less
    } else {
        Rank::Greater
    }
}

impl<T: Ranked> Ranked for Vec<T> {
    open spec fn ranked(&self, other: &Vec<T>) -> Rank {
        rank_seq(self@, other@)
    }

    proof fn rank_reflexive(a: &Vec<T>) {
        lemma_rank_seq_reflexive(a@);
    }

    proof fn rank_antisymmetric(a: &Vec<T>, b: &Vec<T>) {
        lemma_rank_seq_antisymmetric(a@, b@);
    }

    proof fn rank_transitive(a: &Vec<T>, b: &Vec<T>, c: &Vec<T>) {
        lemma_rank_seq_transitive(a@, b@, c@);
    }

    fn rank(&self, other: &Vec<T>) -> (rank: Rank) {
        rank_slices(self.as_slice(), other.as_slice())
    }
}

/// Strings are ordered by their UTF-8 bytes.
pub open spec fn rank_text(a: Seq<char>, b: Seq<char>) -> Rank {
    rank_seq(vstd::utf8::encode_utf8(a), vstd::utf8::encode_utf8(b))
}

/// How two strings stand to each other.
pub fn rank_str(a: &str, b: &str) -> (rank: Rank)
    ensures
        rank == rank_text(a@, b@),
{
    rank_slices(a.as_bytes(), b.as_bytes())
}

impl Ranked for String {
    open spec fn ranked(&self, other: &String) -> Rank {
        rank_text(self@, other@)
    }

    proof fn rank_reflexive(a: &String) {
        lemma_rank_seq_reflexive(vstd::utf8::encode_utf8(a@));
    }

    proof fn rank_antisymmetric(a: &String, b: &String) {
        lemma_rank_seq_antisymmetric(vstd::utf8::encode_utf8(a@), vstd::utf8::encode_utf8(b@));
    }

    proof fn rank_transitive(a: &String, b: &String, c: &String) {
        lemma_rank_seq_transitive(
            vstd::utf8::encode_utf8(a@),
            vstd::utf8::encode_utf8(b@),
            vstd::utf8::encode_utf8(c@),
        );
    }

    fn rank(&self, other: &String) -> (rank: Rank) {
        rank_str(self.as_str(), other.as_str())
    }
}

/// Every element comes no later than those behind it.
pub open spec fn is_sorted<T: Ranked>(s: Seq<T>) -> bool {
    forall|i: int, j: int|
        #![trigger s[i], s[j]]
        0 <= i <= j < s.len() ==> s[i].ranked(&s[j]) != Rank::Greater
}

/// `s` with `x` placed behind the last element that is not greater than `x`.
pub open spec fn insert_ranked<T: Ranked>(s: Seq<T>, x: T) -> Seq<T>
    decreases s.len(),
{
    if s.len() == 0 || s.last().ranked(&x) != Rank::Greater {
        s.push(x)
    } else {
        insert_ranked(s.drop_last(), x).push(s.last())
    }
}

/// The elements of `s` in ascending order; ties keep their order in `s`.
pub open spec fn sort_ranked<T: Ranked>(s: Seq<T>) -> Seq<T>
    decreases s.len(),
{
    if s.len() == 0 {
        Seq::empty()
    } else {
        insert_ranked(sort_ranked(s.drop_last()), s.last())
    }
}

/// Placing an element keeps all others and adds it once.
pub proof fn lemma_insert_ranked_multiset<T: Ranked>(s: Seq<T>, x: T)
    ensures
        insert_ranked(s, x).len() == s.len() + 1,
        insert_ranked(s, x).to_multiset() == s.to_multiset().insert(x),
    decreases s.len(),
{
    broadcast use vstd::seq_lib::group_to_multiset_ensures;

    if s.len() == 0 || s.last().ranked(&x) != Rank::Greater {
    } else {
        lemma_insert_ranked_multiset(s.drop_last(), x);
        assert(s =~= s.drop_last().push(s.last()));
        assert(s.drop_last().to_multiset().insert(x).insert(s.last())
            =~= s.drop_last().to_multiset().insert(s.last()).insert(x));
    }
}

/// Placing an element into a sorted sequence keeps it sorted.
pub proof fn lemma_insert_ranked_sorted<T: Ranked>(s: Seq<T>, x: T)
    requires
        is_sorted(s),
    ensures
        is_sorted(insert_ranked(s, x)),
        forall|i: int|
            #![trigger insert_ranked(s, x)[i]]
            0 <= i < insert_ranked(s, x).len() ==> insert_ranked(s, x)[i] == x || s.contains(
                insert_ranked(s, x)[i],
            ),
    decreases s.len(),
{
    let out = insert_ranked(s, x);
    if s.len() == 0 || s.last().ranked(&x) != Rank::Greater {
        assert(out =~= s.push(x));
        assert forall|i: int, j: int|
            #![trigger out[i], out[j]]
            0 <= i <= j < out.len() implies out[i].ranked(&out[j]) != Rank::Greater by {
            if i == s.len() {
                T::rank_reflexive(&x);
            } else if j == s.len() {
                assert(s[i].ranked(&s.last()) != Rank::Greater);
                T::rank_transitive(&s[i], &s.last(), &x);
            } else {
                assert(s[i].ranked(&s[j]) != Rank::Greater);
            }
        }
        assert forall|i: int| 0 <= i < out.len() implies out[i] == x || s.contains(
            #[trigger] out[i],
        ) by {
            if i < s.len() {
                assert(s[i] == out[i]);
            }
        }
    } else {
        let front = s.drop_last();
        assert forall|i: int, j: int|
            #![trigger front[i], front[j]]
            0 <= i <= j < front.len() implies front[i].ranked(&front[j]) != Rank::Greater by {
            assert(s[i].ranked(&s[j]) != Rank::Greater);
        }
        lemma_insert_ranked_sorted(front, x);
        lemma_insert_ranked_multiset(front, x);
        let inner = insert_ranked(front, x);
        assert(out =~= inner.push(s.last()));
        T::rank_antisymmetric(&s.last(), &x);
        assert forall|i: int| 0 <= i < inner.len() implies (#[trigger] inner[i]).ranked(&s.last())
            != Rank::Greater by {
            if inner[i] != x {
                let k = choose|k: int| 0 <= k < front.len() && front[k] == inner[i];
                assert(s[k].ranked(&s[s.len() - 1]) != Rank::Greater);
            }
        }
        T::rank_reflexive(&s.last());
        assert forall|i: int, j: int|
            #![trigger out[i], out[j]]
            0 <= i <= j < out.len() implies out[i].ranked(&out[j]) != Rank::Greater by {
            if j < inner.len() {
                assert(inner[i].ranked(&inner[j]) != Rank::Greater);
            } else if i < inner.len() {
                assert(inner[i].ranked(&s.last()) != Rank::Greater);
            }
        }
        assert forall|i: int| 0 <= i < out.len() implies out[i] == x || s.contains(
            #[trigger] out[i],
        ) by {
            if i < inner.len() {
                assert(inner[i] == out[i]);
                if inner[i] != x {
                    let k = choose|k: int| 0 <= k < front.len() && front[k] == inner[i];
                    assert(s[k] == out[i]);
                }
            } else {
                assert(s[s.len() - 1] == out[i]);
            }
        }
    }
}

/// Sorting orders the elements and neither adds nor drops any.
pub proof fn lemma_sort_ranked<T: Ranked>(s: Seq<T>)
    ensures
        is_sorted(sort_ranked(s)),
        sort_ranked(s).to_multiset() == s.to_multiset(),
        sort_ranked(s).len() == s.len(),
    decreases s.len(),
{
    broadcast use vstd::seq_lib::group_to_multiset_ensures;

    if s.len() > 0 {
        let front = s.drop_last();
        lemma_sort_ranked(front);
        lemma_insert_ranked_sorted(sort_ranked(front), s.last());
        lemma_insert_ranked_multiset(sort_ranked(front), s.last());
        assert(s =~= front.push(s.last()));
    } else {
        assert(s =~= Seq::<T>::empty());
    }
}

/// Where [`insert_ranked`] places an element.
proof fn lemma_insert_ranked_at<T: Ranked>(s: Seq<T>, x: T, at: int)
    requires
        0 <= at <= s.len(),
        at == 0 || s[at - 1].ranked(&x) != Rank::Greater,
        forall|i: int| at <= i < s.len() ==> (#[trigger] s[i]).ranked(&x) == Rank::Greater,
    ensures
        insert_ranked(s, x) == s.insert(at, x),
    decreases s.len(),
{
    if s.len() == at {
        if at > 0 {
            assert(s.last() == s[at - 1]);
        }
        assert(s.insert(at, x) =~= s.push(x));
    } else {
        assert(s.last() == s[s.len() - 1]);
        let front = s.drop_last();
        lemma_insert_ranked_at(front, x, at);
        assert(front.insert(at, x).push(s.last()) =~= s.insert(at, x));
    }
}

/// Inserting adds exactly the one image.
proof fn lemma_insert_ranked_mapped<T: Ranked, M>(s: Seq<T>, x: T, image: spec_fn(T) -> M)
    ensures
        insert_ranked(s, x).map_values(image).to_multiset() == s.map_values(
            image,
        ).to_multiset().insert(image(x)),
    decreases s.len(),
{
    broadcast use vstd::seq_lib::group_to_multiset_ensures;

    if s.len() == 0 || s.last().ranked(&x) != Rank::Greater {
        assert(s.push(x).map_values(image) =~= s.map_values(image).push(image(x)));
    } else {
        let front = s.drop_last();
        let last = image(s.last());
        lemma_insert_ranked_mapped(front, x, image);
        assert(insert_ranked(s, x).map_values(image) =~= insert_ranked(front, x).map_values(
            image,
        ).push(last));
        assert(s.map_values(image) =~= front.map_values(image).push(last));
        assert(front.map_values(image).to_multiset().insert(image(x)).insert(last)
            =~= front.map_values(image).to_multiset().insert(last).insert(image(x)));
    }
}

/// What sorted values stand for is what the values stand for, each as often.
pub proof fn lemma_sort_ranked_mapped<T: Ranked, M>(s: Seq<T>, image: spec_fn(T) -> M)
    ensures
        sort_ranked(s).map_values(image).to_multiset() == s.map_values(image).to_multiset(),
    decreases s.len(),
{
    broadcast use vstd::seq_lib::group_to_multiset_ensures;

    if s.len() > 0 {
        let front = s.drop_last();
        lemma_sort_ranked_mapped(front, image);
        lemma_insert_ranked_mapped(sort_ranked(front), s.last(), image);
        assert(s.map_values(image) =~= front.map_values(image).push(image(s.last())));
    } else {
        assert(sort_ranked(s) =~= s);
    }
}

/// Sorts in ascending order, keeping the order of ties.
pub fn sort_values<T: Ranked>(values: &mut Vec<T>)
    ensures
        final(values)@ == sort_ranked(old(values)@),
{
    let ghost original = values@;
    let mut done: usize = 0;
    assert(sort_ranked(original.take(0)) + original.skip(0) =~= original);
    while done < values.len()
        invariant
            done <= values.len(),
            values@.len() == original.len(),
            values@ == sort_ranked(original.take(done as int)) + original.skip(done as int),
            sort_ranked(original.take(done as int)).len() == done,
        decreases values.len() - done,
    {
        let ghost sorted = sort_ranked(original.take(done as int));
        let x = values.remove(done);
        assert(x == original[done as int]);
        assert(values@ =~= sorted + original.skip(done as int + 1));
        let mut at: usize = done;
        while at > 0 && values[at - 1].rank(&x) == Rank::Greater
            invariant
                at <= done,
                done <= values@.len(),
                sorted.len() == done,
                values@ == sorted + original.skip(done as int + 1),
                forall|i: int| at <= i < done ==> (#[trigger] sorted[i]).ranked(&x) == Rank::Greater,
            ensures
                at == 0 || sorted[at - 1].ranked(&x) != Rank::Greater,
            decreases at,
        {
            at = at - 1;
            assert(values@[at as int] == sorted[at as int]);
        }
        assert(at > 0 ==> values@[at - 1] == sorted[at - 1]);
        proof {
            lemma_insert_ranked_at(sorted, x, at as int);
            assert(original.take(done as int + 1).drop_last() =~= original.take(done as int));
            assert(original.take(done as int + 1).last() == x);
        }
        values.insert(at, x);
        assert(values@ =~= sorted.insert(at as int, x) + original.skip(done as int + 1));
        done = done + 1;
    }
    assert(original.take(done as int) =~= original);
    assert(original.skip(done as int) =~= Seq::empty());
    assert(values@ =~= sort_ranked(original));
}

/// Whether two byte strings are the same.
pub fn same_bytes(a: &[u8], b: &[u8]) -> (same: bool)
    ensures
        same == (a@ == b@),
{
    if a.len() != b.len() {
        return false;
    }
    let mut i: usize = 0;
    while i < a.len()
        invariant
            i <= a.len(),
            a@.len() == b@.len(),
            forall|k: int| 0 <= k < i ==> a@[k] == b@[k],
        decreases a.len() - i,
    {
        if a[i] != b[i] {
            return false;
        }
        i = i + 1;
    }
    assert(a@ =~= b@);
    true
}

/// Whether the texts are the same.
pub fn same_text(a: &str, b: &str) -> (same: bool)
    ensures
        same == (a@ == b@),
{
    let same = same_bytes(a.as_bytes(), b.as_bytes());
    proof {
        vstd::utf8::encode_utf8_decode_utf8(a@);
        vstd::utf8::encode_utf8_decode_utf8(b@);
    }
    same
}

/// How far two byte strings agree.
pub proof fn lemma_common_length(a: Seq<u8>, b: Seq<u8>) -> (count: int)
    ensures
        0 <= count <= a.len(),
        count <= b.len(),
        forall|i: int| 0 <= i < count ==> a[i] == b[i],
        count == a.len() || count == b.len() || a[count] != b[count],
    decreases a.len(),
{
    if a.len() == 0 || b.len() == 0 || a[0] != b[0] {
        0
    } else {
        let rest = lemma_common_length(a.drop_first(), b.drop_first());
        assert forall|i: int| 0 <= i < rest + 1 implies a[i] == b[i] by {
            if i > 0 {
                assert(a.drop_first()[i - 1] == b.drop_first()[i - 1]);
            }
        }
        rest + 1
    }
}

/// Where two byte strings part decides their order.
pub proof fn lemma_rank_at(a: Seq<u8>, b: Seq<u8>, count: int)
    requires
        0 <= count <= a.len(),
        count <= b.len(),
        forall|i: int| 0 <= i < count ==> a[i] == b[i],
        count == a.len() || count == b.len() || a[count] != b[count],
    ensures
        rank_seq(a, b) == (if count == a.len() {
            if count == b.len() {
                Rank::Equal
            } else {
                Rank::Less
            }
        } else if count == b.len() {
            Rank::Greater
        } else if a[count] < b[count] {
            Rank::Less
        } else {
            Rank::Greater
        }),
{
    lemma_rank_seq_skip(a, b, count);
}


/// Whether one byte string comes before the other: where they first differ it
/// has the smaller byte, or it is cut short there.
pub open spec fn bytes_precede(a: Seq<u8>, b: Seq<u8>) -> bool {
    exists|n: int|
        0 <= n <= a.len() && n <= b.len() && #[trigger] a.take(n) == b.take(n) && if n == a.len() {
            n < b.len()
        } else {
            n < b.len() && a[n] < b[n]
        }
}

proof fn lemma_bytes_precede(a: Seq<u8>, b: Seq<u8>)
    ensures
        bytes_precede(a, b) <==> rank_seq(a, b) == Rank::Less,
{
    let count = lemma_common_length(a, b);
    lemma_rank_at(a, b, count);
    if rank_seq(a, b) == Rank::Less {
        assert(a.take(count) =~= b.take(count));
    }
    if bytes_precede(a, b) {
        let n = choose|n: int|
            0 <= n <= a.len() && n <= b.len() && #[trigger] a.take(n) == b.take(n) && if n
                == a.len() {
                n < b.len()
            } else {
                n < b.len() && a[n] < b[n]
            };
        assert forall|i: int| 0 <= i < n implies a[i] == b[i] by {
            assert(a.take(n)[i] == b.take(n)[i]);
        }
        lemma_rank_at(a, b, n);
    }
}

/// Byte strings are ordered by the first byte in which they differ, a proper
/// prefix before what it starts; they tie only if they are the same.
pub proof fn law_bytes_are_ordered_by_first_difference(a: &[u8], b: &[u8], rank: Rank)
    requires
        call_ensures(rank_slices::<u8>, (a, b), rank),
    ensures
        rank == Rank::Less <==> bytes_precede(a@, b@),
        rank == Rank::Greater <==> bytes_precede(b@, a@),
        rank == Rank::Equal <==> a@ == b@,
{
    lemma_bytes_order(a@, b@);
}

/// The order of byte strings, by the first byte in which they differ.
pub proof fn lemma_bytes_order(a: Seq<u8>, b: Seq<u8>)
    ensures
        rank_seq(a, b) == Rank::Less <==> bytes_precede(a, b),
        rank_seq(a, b) == Rank::Greater <==> bytes_precede(b, a),
        rank_seq(a, b) == Rank::Equal <==> a == b,
{
    lemma_bytes_precede(a, b);
    lemma_bytes_precede(b, a);
    lemma_rank_seq_antisymmetric(a, b);
    lemma_rank_seq_reflexive(a);
    if rank_seq(a, b) == Rank::Equal {
        let count = lemma_common_length(a, b);
        lemma_rank_at(a, b, count);
        assert(a =~= b);
    }
}

/// Texts are ordered as their UTF-8 bytes are.
pub proof fn law_texts_are_ordered_by_their_bytes(a: &str, b: &str, rank: Rank)
    requires
        call_ensures(rank_str, (a, b), rank),
    ensures
        rank == Rank::Less <==> bytes_precede(
            vstd::utf8::encode_utf8(a@),
            vstd::utf8::encode_utf8(b@),
        ),
        rank == Rank::Greater <==> bytes_precede(
            vstd::utf8::encode_utf8(b@),
            vstd::utf8::encode_utf8(a@),
        ),
        rank == Rank::Equal <==> a@ == b@,
{
    lemma_bytes_order(vstd::utf8::encode_utf8(a@), vstd::utf8::encode_utf8(b@));
    vstd::utf8::encode_utf8_decode_utf8(a@);
    vstd::utf8::encode_utf8_decode_utf8(b@);
}

/// Numbers are ordered by their size.
pub proof fn law_numbers_are_ordered_by_size(a: u64, b: u64, rank: Rank)
    requires
        call_ensures(rank_u64, (a, b), rank),
    ensures
        rank == Rank::Less <==> a < b,
        rank == Rank::Greater <==> b < a,
        rank == Rank::Equal <==> a == b,
        a.ranked(&b) == rank,
{
}

/// A filter goes over the elements one by one.
pub proof fn lemma_filter_push<T>(s: Seq<T>, x: T, kept: spec_fn(T) -> bool)
    ensures
        s.push(x).filter(kept) == if kept(x) {
            s.filter(kept).push(x)
        } else {
            s.filter(kept)
        },
{
    reveal(Seq::filter);
    assert(s.push(x).drop_last() =~= s);
}

proof fn lemma_insert_ranked_ties<T: Ranked>(s: Seq<T>, x: T, probe: T)
    requires
        is_sorted(s),
    ensures
        insert_ranked(s, x).filter(|y: T| y.ranked(&probe) == Rank::Equal) == s.push(x).filter(
            |y: T| y.ranked(&probe) == Rank::Equal,
        ),
    decreases s.len(),
{
    let ties = |y: T| y.ranked(&probe) == Rank::Equal;
    if s.len() == 0 || s.last().ranked(&x) != Rank::Greater {
    } else {
        let front = s.drop_last();
        let last = s.last();
        assert forall|i: int, j: int|
            #![trigger front[i], front[j]]
            0 <= i <= j < front.len() implies front[i].ranked(&front[j]) != Rank::Greater by {
            assert(s[i].ranked(&s[j]) != Rank::Greater);
        }
        lemma_insert_ranked_ties(front, x, probe);
        let inner = insert_ranked(front, x);
        lemma_filter_push(inner, last, ties);
        lemma_filter_push(front, x, ties);
        lemma_filter_push(front, last, ties);
        assert(front.push(last) =~= s);
        lemma_filter_push(s, x, ties);
        if ties(x) && ties(last) {
            T::rank_antisymmetric(&x, &probe);
            T::rank_transitive(&last, &probe, &x);
        }
    }
}

/// Sorting keeps the elements that tie with each other in the order in which
/// they were.
pub proof fn law_sorting_keeps_ties_in_order<T: Ranked>(s: Seq<T>, probe: T)
    ensures
        sort_ranked(s).filter(|y: T| y.ranked(&probe) == Rank::Equal) == s.filter(
            |y: T| y.ranked(&probe) == Rank::Equal,
        ),
    decreases s.len(),
{
    let ties = |y: T| y.ranked(&probe) == Rank::Equal;
    if s.len() > 0 {
        let front = s.drop_last();
        law_sorting_keeps_ties_in_order(front, probe);
        lemma_sort_ranked(front);
        lemma_insert_ranked_ties(sort_ranked(front), s.last(), probe);
        lemma_filter_push(sort_ranked(front), s.last(), ties);
        lemma_filter_push(front, s.last(), ties);
        assert(front.push(s.last()) =~= s);
    } else {
        assert(sort_ranked(s) =~= s);
    }
}

/// Sorting orders the elements and neither adds nor drops any.
pub proof fn law_sorting_orders_all_elements<T: Ranked>(s: Seq<T>)
    ensures
        sort_ranked(s).to_multiset() == s.to_multiset(),
        sort_ranked(s).len() == s.len(),
        forall|i: int, j: int|
            #![trigger sort_ranked(s)[i], sort_ranked(s)[j]]
            0 <= i < j < s.len() ==> sort_ranked(s)[i].ranked(&sort_ranked(s)[j]) != Rank::Greater,
{
    lemma_sort_ranked(s);
}

/// Sorted values are the same ones, each as often, and none comes before one that it
/// follows in the order.
pub proof fn law_sorted_values_are_in_order<T: Ranked>(values: &mut Vec<T>)
    requires
        call_ensures(sort_values::<T>, (values,), ()),
    ensures
        final(values)@.to_multiset() == old(values)@.to_multiset(),
        final(values)@.len() == old(values)@.len(),
        forall|i: int, j: int|
            #![trigger final(values)@[i], final(values)@[j]]
            0 <= i < j < final(values)@.len() ==> final(values)@[i].ranked(&final(values)@[j])
                != Rank::Greater,
{
    law_sorting_orders_all_elements(old(values)@);
    let sorted = sort_ranked(old(values)@);
    assert forall|i: int, j: int|
        #![trigger final(values)@[i], final(values)@[j]]
        0 <= i < j < final(values)@.len() implies final(values)@[i].ranked(&final(values)@[j])
        != Rank::Greater by {
        assert(sorted[i].ranked(&sorted[j]) != Rank::Greater);
    }
}

/// Bytes are the same if and only if they agree in length and at every place, and
/// texts if and only if their characters do.
pub proof fn law_sameness_is_agreement(
    a: &[u8],
    b: &[u8],
    bytes: bool,
    s: &str,
    t: &str,
    texts: bool,
)
    requires
        call_ensures(same_bytes, (a, b), bytes),
        call_ensures(same_text, (s, t), texts),
    ensures
        bytes <==> a@.len() == b@.len() && forall|i: int|
            0 <= i < a@.len() ==> #[trigger] a@[i] == b@[i],
        texts <==> s@.len() == t@.len() && forall|i: int|
            0 <= i < s@.len() ==> #[trigger] s@[i] == t@[i],
{
    if a@.len() == b@.len() && forall|i: int| 0 <= i < a@.len() ==> #[trigger] a@[i] == b@[i] {
        assert(a@ =~= b@);
    }
    if s@.len() == t@.len() && forall|i: int| 0 <= i < s@.len() ==> #[trigger] s@[i] == t@[i] {
        assert(s@ =~= t@);
    }
}

} // verus!
