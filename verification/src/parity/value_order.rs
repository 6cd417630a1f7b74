//! The order of property values in evidence.

use vstd::prelude::*;

use crate::order::{
    bytes_precede, lemma_bytes_order, lemma_rank_seq_antisymmetric, lemma_rank_seq_reflexive, lemma_rank_seq_transitive, rank_int,
    rank_seq, rank_slices, rank_str, rank_text, rank_u64, Rank, Ranked,
};
use crate::property::{ParityProperty, ParityValue};

verus! {

/// Where the kind of a value stands among the kinds.
pub open spec fn kind_place(value: ParityValue) -> int {
    match value {
        ParityValue::Null => 0,
        ParityValue::Bool(_) => 1,
        ParityValue::I64(_) => 2,
        ParityValue::DateTime(_) => 3,
        ParityValue::F64Bits(_) => 4,
        ParityValue::F32Bits(_) => 5,
        ParityValue::String(_) => 6,
        ParityValue::Bytes(_) => 7,
        ParityValue::I64Array(_) => 8,
        ParityValue::F64ArrayBits(_) => 9,
        ParityValue::F32ArrayBits(_) => 10,
        ParityValue::StringArray(_) => 11,
        ParityValue::Array(_) => 12,
        ParityValue::Object(_) => 13,
    }
}

/// Values of different kinds are ordered by kind; values of one kind by what
/// they hold, lists element by element and objects entry by entry.
pub open spec fn value_rank(a: ParityValue, b: ParityValue) -> Rank
    decreases a,
{
    match (a, b) {
        (ParityValue::Bool(a), ParityValue::Bool(b)) => rank_int(bool_place(a), bool_place(b)),
        (ParityValue::I64(a), ParityValue::I64(b)) => rank_int(a as int, b as int),
        (ParityValue::DateTime(a), ParityValue::DateTime(b)) => rank_int(a as int, b as int),
        (ParityValue::F64Bits(a), ParityValue::F64Bits(b)) => rank_int(a as int, b as int),
        (ParityValue::F32Bits(a), ParityValue::F32Bits(b)) => rank_int(a as int, b as int),
        (ParityValue::String(a), ParityValue::String(b)) => rank_text(a@, b@),
        (ParityValue::Bytes(a), ParityValue::Bytes(b)) => rank_seq(a@, b@),
        (ParityValue::I64Array(a), ParityValue::I64Array(b)) => rank_seq(a@, b@),
        (ParityValue::F64ArrayBits(a), ParityValue::F64ArrayBits(b)) => rank_seq(a@, b@),
        (ParityValue::F32ArrayBits(a), ParityValue::F32ArrayBits(b)) => rank_seq(a@, b@),
        (ParityValue::StringArray(a), ParityValue::StringArray(b)) => rank_seq(a@, b@),
        (ParityValue::Array(a), ParityValue::Array(b)) => values_rank(a@, b@),
        (ParityValue::Object(a), ParityValue::Object(b)) => entries_rank(a@, b@),
        _ => rank_int(kind_place(a), kind_place(b)),
    }
}

/// False comes before true.
pub open spec fn bool_place(value: bool) -> int {
    if value {
        1
    } else {
        0
    }
}

/// Lists are ordered by the first difference; a proper prefix comes first.
pub open spec fn values_rank(a: Seq<ParityValue>, b: Seq<ParityValue>) -> Rank
    decreases a,
{
    if a.len() == 0 {
        if b.len() == 0 {
            Rank::Equal
        } else {
            Rank::Less
        }
    } else if b.len() == 0 {
        Rank::Greater
    } else {
        value_rank(a[0], b[0]).refined(
            values_rank(a.subrange(1, a.len() as int), b.subrange(1, b.len() as int)),
        )
    }
}

/// Entries are ordered by key, then by value; the first difference decides.
pub open spec fn entries_rank(
    a: Seq<(String, ParityValue)>,
    b: Seq<(String, ParityValue)>,
) -> Rank
    decreases a,
{
    if a.len() == 0 {
        if b.len() == 0 {
            Rank::Equal
        } else {
            Rank::Less
        }
    } else if b.len() == 0 {
        Rank::Greater
    } else {
        rank_text(a[0].0@, b[0].0@).refined(value_rank(a[0].1, b[0].1)).refined(
            entries_rank(a.subrange(1, a.len() as int), b.subrange(1, b.len() as int)),
        )
    }
}

/// A value ties with itself.
proof fn lemma_value_reflexive(a: ParityValue)
    ensures
        value_rank(a, a) == Rank::Equal,
    decreases a,
{
    match a {
        ParityValue::String(text) => {
            String::rank_reflexive(&text);
        },
        ParityValue::Bytes(list) => {
            lemma_rank_seq_reflexive(list@);
        },
        ParityValue::I64Array(list) => {
            lemma_rank_seq_reflexive(list@);
        },
        ParityValue::F64ArrayBits(list) => {
            lemma_rank_seq_reflexive(list@);
        },
        ParityValue::F32ArrayBits(list) => {
            lemma_rank_seq_reflexive(list@);
        },
        ParityValue::StringArray(list) => {
            lemma_rank_seq_reflexive(list@);
        },
        ParityValue::Array(items) => {
            lemma_values_reflexive(items@);
        },
        ParityValue::Object(entries) => {
            lemma_entries_reflexive(entries@);
        },
        _ => {},
    }
}

proof fn lemma_values_reflexive(a: Seq<ParityValue>)
    ensures
        values_rank(a, a) == Rank::Equal,
    decreases a,
{
    if a.len() > 0 {
        lemma_value_reflexive(a[0]);
        lemma_values_reflexive(a.subrange(1, a.len() as int));
    }
}

proof fn lemma_entries_reflexive(a: Seq<(String, ParityValue)>)
    ensures
        entries_rank(a, a) == Rank::Equal,
    decreases a,
{
    if a.len() > 0 {
        String::rank_reflexive(&a[0].0);
        lemma_value_reflexive(a[0].1);
        lemma_entries_reflexive(a.subrange(1, a.len() as int));
    }
}

/// Exchanging two values reverses the outcome.
proof fn lemma_value_antisymmetric(a: ParityValue, b: ParityValue)
    ensures
        value_rank(b, a) == value_rank(a, b).reversed(),
    decreases a,
{
    match (a, b) {
        (ParityValue::String(x), ParityValue::String(y)) => {
            String::rank_antisymmetric(&x, &y);
        },
        (ParityValue::Bytes(x), ParityValue::Bytes(y)) => {
            lemma_rank_seq_antisymmetric(x@, y@);
        },
        (ParityValue::I64Array(x), ParityValue::I64Array(y)) => {
            lemma_rank_seq_antisymmetric(x@, y@);
        },
        (ParityValue::F64ArrayBits(x), ParityValue::F64ArrayBits(y)) => {
            lemma_rank_seq_antisymmetric(x@, y@);
        },
        (ParityValue::F32ArrayBits(x), ParityValue::F32ArrayBits(y)) => {
            lemma_rank_seq_antisymmetric(x@, y@);
        },
        (ParityValue::StringArray(x), ParityValue::StringArray(y)) => {
            lemma_rank_seq_antisymmetric(x@, y@);
        },
        (ParityValue::Array(x), ParityValue::Array(y)) => {
            lemma_values_antisymmetric(x@, y@);
        },
        (ParityValue::Object(x), ParityValue::Object(y)) => {
            lemma_entries_antisymmetric(x@, y@);
        },
        _ => {},
    }
}

proof fn lemma_values_antisymmetric(a: Seq<ParityValue>, b: Seq<ParityValue>)
    ensures
        values_rank(b, a) == values_rank(a, b).reversed(),
    decreases a,
{
    if a.len() > 0 && b.len() > 0 {
        lemma_value_antisymmetric(a[0], b[0]);
        lemma_values_antisymmetric(a.subrange(1, a.len() as int), b.subrange(1, b.len() as int));
    }
}

proof fn lemma_entries_antisymmetric(a: Seq<(String, ParityValue)>, b: Seq<(String, ParityValue)>)
    ensures
        entries_rank(b, a) == entries_rank(a, b).reversed(),
    decreases a,
{
    if a.len() > 0 && b.len() > 0 {
        String::rank_antisymmetric(&a[0].0, &b[0].0);
        lemma_value_antisymmetric(a[0].1, b[0].1);
        lemma_entries_antisymmetric(a.subrange(1, a.len() as int), b.subrange(1, b.len() as int));
    }
}

/// Two steps that do not go down are no step down together.
spec fn goes_up(first: Rank, second: Rank, both: Rank) -> bool {
    first != Rank::Greater && second != Rank::Greater ==> both == first.refined(second)
}

/// Values of different kinds are ordered by kind.
proof fn lemma_kinds_decide(a: ParityValue, b: ParityValue)
    requires
        kind_place(a) != kind_place(b),
    ensures
        value_rank(a, b) == rank_int(kind_place(a), kind_place(b)),
{
}

/// The order of values is transitive.
proof fn lemma_value_transitive(a: ParityValue, b: ParityValue, c: ParityValue)
    ensures
        goes_up(value_rank(a, b), value_rank(b, c), value_rank(a, c)),
    decreases a,
{
    if kind_place(a) != kind_place(b) || kind_place(b) != kind_place(c) {
        if kind_place(a) != kind_place(b) {
            lemma_kinds_decide(a, b);
        }
        if kind_place(b) != kind_place(c) {
            lemma_kinds_decide(b, c);
        }
        if kind_place(a) != kind_place(c) {
            lemma_kinds_decide(a, c);
        }
        lemma_place_bounds(a, b);
        lemma_place_bounds(b, c);
    } else {
        match (a, b, c) {
            (ParityValue::String(x), ParityValue::String(y), ParityValue::String(z)) => {
                lemma_text_transitive(x, y, z);
            },
            (ParityValue::Bytes(x), ParityValue::Bytes(y), ParityValue::Bytes(z)) => {
                lemma_list_transitive(x@, y@, z@);
            },
            (ParityValue::I64Array(x), ParityValue::I64Array(y), ParityValue::I64Array(z)) => {
                lemma_list_transitive(x@, y@, z@);
            },
            (ParityValue::F64ArrayBits(x), ParityValue::F64ArrayBits(y), ParityValue::F64ArrayBits(z)) => {
                lemma_list_transitive(x@, y@, z@);
            },
            (ParityValue::F32ArrayBits(x), ParityValue::F32ArrayBits(y), ParityValue::F32ArrayBits(z)) => {
                lemma_list_transitive(x@, y@, z@);
            },
            (ParityValue::StringArray(x), ParityValue::StringArray(y), ParityValue::StringArray(z)) => {
                lemma_list_transitive(x@, y@, z@);
            },
            (ParityValue::Array(x), ParityValue::Array(y), ParityValue::Array(z)) => {
                lemma_values_transitive(x@, y@, z@);
            },
            (ParityValue::Object(x), ParityValue::Object(y), ParityValue::Object(z)) => {
                lemma_entries_transitive(x@, y@, z@);
            },
            _ => {},
        }
    }
}

/// A value that does not come after another is of no later kind.
proof fn lemma_place_bounds(a: ParityValue, b: ParityValue)
    ensures
        value_rank(a, b) != Rank::Greater ==> kind_place(a) <= kind_place(b),
{
    if kind_place(a) != kind_place(b) {
        lemma_kinds_decide(a, b);
    }
}

proof fn lemma_text_transitive(a: String, b: String, c: String)
    ensures
        goes_up(rank_text(a@, b@), rank_text(b@, c@), rank_text(a@, c@)),
{
    if rank_text(a@, b@) != Rank::Greater && rank_text(b@, c@) != Rank::Greater {
        String::rank_transitive(&a, &b, &c);
    }
}

proof fn lemma_list_transitive<T: Ranked>(a: Seq<T>, b: Seq<T>, c: Seq<T>)
    ensures
        goes_up(rank_seq(a, b), rank_seq(b, c), rank_seq(a, c)),
{
    if rank_seq(a, b) != Rank::Greater && rank_seq(b, c) != Rank::Greater {
        lemma_rank_seq_transitive(a, b, c);
    }
}

proof fn lemma_values_transitive(
    a: Seq<ParityValue>,
    b: Seq<ParityValue>,
    c: Seq<ParityValue>,
)
    ensures
        goes_up(values_rank(a, b), values_rank(b, c), values_rank(a, c)),
    decreases a,
{
    if a.len() > 0 && b.len() > 0 && c.len() > 0 {
        lemma_value_transitive(a[0], b[0], c[0]);
        lemma_values_transitive(
            a.subrange(1, a.len() as int),
            b.subrange(1, b.len() as int),
            c.subrange(1, c.len() as int),
        );
    }
}

proof fn lemma_entries_transitive(
    a: Seq<(String, ParityValue)>,
    b: Seq<(String, ParityValue)>,
    c: Seq<(String, ParityValue)>,
)
    ensures
        goes_up(entries_rank(a, b), entries_rank(b, c), entries_rank(a, c)),
    decreases a,
{
    if a.len() > 0 && b.len() > 0 && c.len() > 0 {
        lemma_text_transitive(a[0].0, b[0].0, c[0].0);
        lemma_value_transitive(a[0].1, b[0].1, c[0].1);
        lemma_entries_transitive(
            a.subrange(1, a.len() as int),
            b.subrange(1, b.len() as int),
            c.subrange(1, c.len() as int),
        );
    }
}

fn exec_kind_place(value: &ParityValue) -> (place: u64)
    ensures
        place == kind_place(*value),
{
    match value {
        ParityValue::Null => 0,
        ParityValue::Bool(_) => 1,
        ParityValue::I64(_) => 2,
        ParityValue::DateTime(_) => 3,
        ParityValue::F64Bits(_) => 4,
        ParityValue::F32Bits(_) => 5,
        ParityValue::String(_) => 6,
        ParityValue::Bytes(_) => 7,
        ParityValue::I64Array(_) => 8,
        ParityValue::F64ArrayBits(_) => 9,
        ParityValue::F32ArrayBits(_) => 10,
        ParityValue::StringArray(_) => 11,
        ParityValue::Array(_) => 12,
        ParityValue::Object(_) => 13,
    }
}

/// How two lengths stand to each other.
fn rank_lengths(a: usize, b: usize) -> (rank: Rank)
    ensures
        rank == rank_int(a as int, b as int),
{
    rank_u64(a as u64, b as u64)
}

fn rank_values(a: &Vec<ParityValue>, b: &Vec<ParityValue>) -> (rank: Rank)
    ensures
        rank == values_rank(a@, b@),
    decreases a@,
{
    let mut i: usize = 0;
    assert(a@.skip(0) =~= a@);
    assert(b@.skip(0) =~= b@);
    while i < a.len() && i < b.len()
        invariant
            i <= a.len(),
            i <= b.len(),
            values_rank(a@, b@) == values_rank(a@.skip(i as int), b@.skip(i as int)),
        decreases a.len() - i,
    {
        proof {
            let (x, y) = (a@.skip(i as int), b@.skip(i as int));
            assert(x.subrange(1, x.len() as int) =~= a@.skip(i as int + 1));
            assert(y.subrange(1, y.len() as int) =~= b@.skip(i as int + 1));
            assert(decreases_to!(a@ => a@[i as int]));
        }
        let step = rank_value(&a[i], &b[i]);
        if step != Rank::Equal {
            return step;
        }
        i = i + 1;
    }
    rank_lengths(a.len(), b.len())
}

fn rank_entries(a: &Vec<(String, ParityValue)>, b: &Vec<(String, ParityValue)>) -> (rank: Rank)
    ensures
        rank == entries_rank(a@, b@),
    decreases a@,
{
    let mut i: usize = 0;
    assert(a@.skip(0) =~= a@);
    assert(b@.skip(0) =~= b@);
    while i < a.len() && i < b.len()
        invariant
            i <= a.len(),
            i <= b.len(),
            entries_rank(a@, b@) == entries_rank(a@.skip(i as int), b@.skip(i as int)),
        decreases a.len() - i,
    {
        proof {
            let (x, y) = (a@.skip(i as int), b@.skip(i as int));
            assert(x.subrange(1, x.len() as int) =~= a@.skip(i as int + 1));
            assert(y.subrange(1, y.len() as int) =~= b@.skip(i as int + 1));
            let entry = a@[i as int];
            assert(decreases_to!(a@ => entry));
            assert(decreases_to!(entry => entry.1));
        }
        let by_key = rank_str(a[i].0.as_str(), b[i].0.as_str());
        if by_key != Rank::Equal {
            return by_key;
        }
        let by_value = rank_value(&a[i].1, &b[i].1);
        if by_value != Rank::Equal {
            return by_value;
        }
        i = i + 1;
    }
    rank_lengths(a.len(), b.len())
}

/// How two values stand to each other.
pub fn rank_value(a: &ParityValue, b: &ParityValue) -> (rank: Rank)
    ensures
        rank == value_rank(*a, *b),
    decreases a,
{
    match (a, b) {
        (ParityValue::Bool(x), ParityValue::Bool(y)) => {
            if *x == *y {
                Rank::Equal
            } else if *y {
                Rank::Less
            } else {
                Rank::Greater
            }
        },
        (ParityValue::I64(x), ParityValue::I64(y)) => x.rank(y),
        (ParityValue::DateTime(x), ParityValue::DateTime(y)) => x.rank(y),
        (ParityValue::F64Bits(x), ParityValue::F64Bits(y)) => x.rank(y),
        (ParityValue::F32Bits(x), ParityValue::F32Bits(y)) => x.rank(y),
        (ParityValue::String(x), ParityValue::String(y)) => x.rank(y),
        (ParityValue::Bytes(x), ParityValue::Bytes(y)) => {
            rank_slices(x.as_slice(), y.as_slice())
        },
        (ParityValue::I64Array(x), ParityValue::I64Array(y)) => {
            rank_slices(x.as_slice(), y.as_slice())
        },
        (ParityValue::F64ArrayBits(x), ParityValue::F64ArrayBits(y)) => {
            rank_slices(x.as_slice(), y.as_slice())
        },
        (ParityValue::F32ArrayBits(x), ParityValue::F32ArrayBits(y)) => {
            rank_slices(x.as_slice(), y.as_slice())
        },
        (ParityValue::StringArray(x), ParityValue::StringArray(y)) => {
            rank_slices(x.as_slice(), y.as_slice())
        },
        (ParityValue::Array(x), ParityValue::Array(y)) => {
            proof {
                assert(decreases_to!(*a => a->Array_0));
                assert(decreases_to!(*x => x@));
            }
            rank_values(x, y)
        },
        (ParityValue::Object(x), ParityValue::Object(y)) => {
            proof {
                assert(decreases_to!(*a => a->Object_0));
                assert(decreases_to!(*x => x@));
            }
            rank_entries(x, y)
        },
        _ => rank_u64(exec_kind_place(a), exec_kind_place(b)),
    }
}

impl Ranked for ParityValue {
    open spec fn ranked(&self, other: &Self) -> Rank {
        value_rank(*self, *other)
    }

    proof fn rank_reflexive(a: &Self) {
        lemma_value_reflexive(*a);
    }

    proof fn rank_antisymmetric(a: &Self, b: &Self) {
        lemma_value_antisymmetric(*a, *b);
    }

    proof fn rank_transitive(a: &Self, b: &Self, c: &Self) {
        lemma_value_transitive(*a, *b, *c);
    }

    fn rank(&self, other: &Self) -> (rank: Rank) {
        rank_value(self, other)
    }
}

/// Properties are ordered by name, then by value.
impl Ranked for ParityProperty {
    open spec fn ranked(&self, other: &Self) -> Rank {
        rank_text(self.name@, other.name@).refined(value_rank(self.value, other.value))
    }

    proof fn rank_reflexive(a: &Self) {
        String::rank_reflexive(&a.name);
        lemma_value_reflexive(a.value);
    }

    proof fn rank_antisymmetric(a: &Self, b: &Self) {
        String::rank_antisymmetric(&a.name, &b.name);
        lemma_value_antisymmetric(a.value, b.value);
    }

    proof fn rank_transitive(a: &Self, b: &Self, c: &Self) {
        lemma_text_transitive(a.name, b.name, c.name);
        lemma_value_transitive(a.value, b.value, c.value);
    }

    fn rank(&self, other: &Self) -> (rank: Rank) {
        let by_name = rank_str(self.name.as_str(), other.name.as_str());
        if by_name != Rank::Equal {
            return by_name;
        }
        rank_value(&self.value, &other.value)
    }
}

/// Values of different kinds are ordered by their kinds: nothing, truth values,
/// integers, times, both kinds of floats, texts, bytes, the lists of these,
/// arrays, objects.
pub proof fn law_kinds_are_ordered(a: ParityValue, b: ParityValue, rank: Rank)
    requires
        call_ensures(rank_value, (&a, &b), rank),
    ensures
        a is Null && b is Null ==> rank == Rank::Equal,
        a is Null && (b is Bool || b is I64 || b is DateTime || b is F64Bits || b is F32Bits || b is String || b is Bytes || b is I64Array || b is F64ArrayBits || b is F32ArrayBits || b is StringArray || b is Array || b is Object) ==> rank == Rank::Less,
        b is Null && (a is Bool || a is I64 || a is DateTime || a is F64Bits || a is F32Bits || a is String || a is Bytes || a is I64Array || a is F64ArrayBits || a is F32ArrayBits || a is StringArray || a is Array || a is Object) ==> rank == Rank::Greater,
        a is Bool && (b is I64 || b is DateTime || b is F64Bits || b is F32Bits || b is String || b is Bytes || b is I64Array || b is F64ArrayBits || b is F32ArrayBits || b is StringArray || b is Array || b is Object) ==> rank == Rank::Less,
        b is Bool && (a is I64 || a is DateTime || a is F64Bits || a is F32Bits || a is String || a is Bytes || a is I64Array || a is F64ArrayBits || a is F32ArrayBits || a is StringArray || a is Array || a is Object) ==> rank == Rank::Greater,
        a is I64 && (b is DateTime || b is F64Bits || b is F32Bits || b is String || b is Bytes || b is I64Array || b is F64ArrayBits || b is F32ArrayBits || b is StringArray || b is Array || b is Object) ==> rank == Rank::Less,
        b is I64 && (a is DateTime || a is F64Bits || a is F32Bits || a is String || a is Bytes || a is I64Array || a is F64ArrayBits || a is F32ArrayBits || a is StringArray || a is Array || a is Object) ==> rank == Rank::Greater,
        a is DateTime && (b is F64Bits || b is F32Bits || b is String || b is Bytes || b is I64Array || b is F64ArrayBits || b is F32ArrayBits || b is StringArray || b is Array || b is Object) ==> rank == Rank::Less,
        b is DateTime && (a is F64Bits || a is F32Bits || a is String || a is Bytes || a is I64Array || a is F64ArrayBits || a is F32ArrayBits || a is StringArray || a is Array || a is Object) ==> rank == Rank::Greater,
        a is F64Bits && (b is F32Bits || b is String || b is Bytes || b is I64Array || b is F64ArrayBits || b is F32ArrayBits || b is StringArray || b is Array || b is Object) ==> rank == Rank::Less,
        b is F64Bits && (a is F32Bits || a is String || a is Bytes || a is I64Array || a is F64ArrayBits || a is F32ArrayBits || a is StringArray || a is Array || a is Object) ==> rank == Rank::Greater,
        a is F32Bits && (b is String || b is Bytes || b is I64Array || b is F64ArrayBits || b is F32ArrayBits || b is StringArray || b is Array || b is Object) ==> rank == Rank::Less,
        b is F32Bits && (a is String || a is Bytes || a is I64Array || a is F64ArrayBits || a is F32ArrayBits || a is StringArray || a is Array || a is Object) ==> rank == Rank::Greater,
        a is String && (b is Bytes || b is I64Array || b is F64ArrayBits || b is F32ArrayBits || b is StringArray || b is Array || b is Object) ==> rank == Rank::Less,
        b is String && (a is Bytes || a is I64Array || a is F64ArrayBits || a is F32ArrayBits || a is StringArray || a is Array || a is Object) ==> rank == Rank::Greater,
        a is Bytes && (b is I64Array || b is F64ArrayBits || b is F32ArrayBits || b is StringArray || b is Array || b is Object) ==> rank == Rank::Less,
        b is Bytes && (a is I64Array || a is F64ArrayBits || a is F32ArrayBits || a is StringArray || a is Array || a is Object) ==> rank == Rank::Greater,
        a is I64Array && (b is F64ArrayBits || b is F32ArrayBits || b is StringArray || b is Array || b is Object) ==> rank == Rank::Less,
        b is I64Array && (a is F64ArrayBits || a is F32ArrayBits || a is StringArray || a is Array || a is Object) ==> rank == Rank::Greater,
        a is F64ArrayBits && (b is F32ArrayBits || b is StringArray || b is Array || b is Object) ==> rank == Rank::Less,
        b is F64ArrayBits && (a is F32ArrayBits || a is StringArray || a is Array || a is Object) ==> rank == Rank::Greater,
        a is F32ArrayBits && (b is StringArray || b is Array || b is Object) ==> rank == Rank::Less,
        b is F32ArrayBits && (a is StringArray || a is Array || a is Object) ==> rank == Rank::Greater,
        a is StringArray && (b is Array || b is Object) ==> rank == Rank::Less,
        b is StringArray && (a is Array || a is Object) ==> rank == Rank::Greater,
        a is Array && (b is Object) ==> rank == Rank::Less,
        b is Array && (a is Object) ==> rank == Rank::Greater,
{
}

/// Simple values of one kind are ordered by what they hold: false before true,
/// numbers by size, and texts and bytes by the first byte that differs.
pub proof fn law_values_are_ordered_by_content(a: ParityValue, b: ParityValue, rank: Rank)
    requires
        call_ensures(rank_value, (&a, &b), rank),
    ensures
        a is Bool && b is Bool ==> (rank == Rank::Less <==> !a->Bool_0 && b->Bool_0) && (rank
            == Rank::Equal <==> a->Bool_0 == b->Bool_0),
        a is I64 && b is I64 ==> (rank == Rank::Less <==> a->I64_0 < b->I64_0) && (rank
            == Rank::Equal <==> a->I64_0 == b->I64_0),
        a is DateTime && b is DateTime ==> (rank == Rank::Less <==> a->DateTime_0 < b->DateTime_0)
            && (rank == Rank::Equal <==> a->DateTime_0 == b->DateTime_0),
        a is F64Bits && b is F64Bits ==> (rank == Rank::Less <==> a->F64Bits_0 < b->F64Bits_0) && (
        rank == Rank::Equal <==> a->F64Bits_0 == b->F64Bits_0),
        a is F32Bits && b is F32Bits ==> (rank == Rank::Less <==> a->F32Bits_0 < b->F32Bits_0) && (
        rank == Rank::Equal <==> a->F32Bits_0 == b->F32Bits_0),
        a is String && b is String ==> (rank == Rank::Less <==> bytes_precede(
            vstd::utf8::encode_utf8(a->String_0@),
            vstd::utf8::encode_utf8(b->String_0@),
        )) && (rank == Rank::Greater <==> bytes_precede(
            vstd::utf8::encode_utf8(b->String_0@),
            vstd::utf8::encode_utf8(a->String_0@),
        )),
        a is Bytes && b is Bytes ==> (rank == Rank::Less <==> bytes_precede(
            a->Bytes_0@,
            b->Bytes_0@,
        )) && (rank == Rank::Greater <==> bytes_precede(b->Bytes_0@, a->Bytes_0@)),
{
    if a is String && b is String {
        lemma_bytes_order(
            vstd::utf8::encode_utf8(a->String_0@),
            vstd::utf8::encode_utf8(b->String_0@),
        );
    }
    if a is Bytes && b is Bytes {
        lemma_bytes_order(a->Bytes_0@, b->Bytes_0@);
    }
}

proof fn lemma_values_at(a: Seq<ParityValue>, b: Seq<ParityValue>, at: int)
    requires
        0 <= at <= a.len(),
        at <= b.len(),
        forall|i: int| 0 <= i < at ==> value_rank(#[trigger] a[i], b[i]) == Rank::Equal,
    ensures
        at < a.len() && at < b.len() && value_rank(a[at], b[at]) != Rank::Equal ==> values_rank(
            a,
            b,
        ) == value_rank(a[at], b[at]),
        at == a.len() && at == b.len() ==> values_rank(a, b) == Rank::Equal,
        at == a.len() && at < b.len() ==> values_rank(a, b) == Rank::Less,
        at < a.len() && at == b.len() ==> values_rank(a, b) == Rank::Greater,
    decreases at,
{
    if at > 0 {
        let x = a.subrange(1, a.len() as int);
        let y = b.subrange(1, b.len() as int);
        assert(value_rank(a[0], b[0]) == Rank::Equal);
        assert forall|i: int| 0 <= i < at - 1 implies value_rank(#[trigger] x[i], y[i])
            == Rank::Equal by {
            assert(value_rank(a[i + 1], b[i + 1]) == Rank::Equal);
        }
        lemma_values_at(x, y, at - 1);
    }
}

/// Arrays are ordered as their first elements that do not tie; where all of them
/// tie, the shorter array comes first.
pub proof fn law_arrays_are_ordered_by_first_difference(
    a: ParityValue,
    b: ParityValue,
    at: int,
    rank: Rank,
)
    requires
        call_ensures(rank_value, (&a, &b), rank),
        a is Array && b is Array,
        0 <= at <= a->Array_0@.len(),
        at <= b->Array_0@.len(),
        forall|i: int|
            0 <= i < at ==> (#[trigger] a->Array_0@[i]).ranked(&b->Array_0@[i]) == Rank::Equal,
    ensures
        ({
            let x = a->Array_0@;
            let y = b->Array_0@;
            &&& at < x.len() && at < y.len() && x[at].ranked(&y[at]) != Rank::Equal ==> rank
                == x[at].ranked(&y[at])
            &&& at == x.len() && at == y.len() ==> rank == Rank::Equal
            &&& at == x.len() && at < y.len() ==> rank == Rank::Less
            &&& at < x.len() && at == y.len() ==> rank == Rank::Greater
        }),
{
    lemma_values_at(a->Array_0@, b->Array_0@, at);
}

/// Objects are ordered as their first entries that do not tie, by key and then
/// by value.
pub proof fn law_objects_are_ordered_by_first_entries(
    a: ParityValue,
    b: ParityValue,
    rank: Rank,
)
    requires
        call_ensures(rank_value, (&a, &b), rank),
        a is Object && b is Object,
        a->Object_0@.len() > 0,
        b->Object_0@.len() > 0,
    ensures
        ({
            let (key, value) = a->Object_0@[0];
            let (other_key, other_value) = b->Object_0@[0];
            &&& bytes_precede(
                vstd::utf8::encode_utf8(key@),
                vstd::utf8::encode_utf8(other_key@),
            ) ==> rank == Rank::Less
            &&& bytes_precede(
                vstd::utf8::encode_utf8(other_key@),
                vstd::utf8::encode_utf8(key@),
            ) ==> rank == Rank::Greater
            &&& key@ == other_key@ && value.ranked(&other_value) != Rank::Equal ==> rank
                == value.ranked(&other_value)
        }),
{
    let key = a->Object_0@[0].0;
    let other = b->Object_0@[0].0;
    lemma_bytes_order(vstd::utf8::encode_utf8(key@), vstd::utf8::encode_utf8(other@));
}

/// Properties are ordered by their name, and those of one name by their value.
pub proof fn law_properties_are_ordered_by_name(a: ParityProperty, b: ParityProperty, rank: Rank)
    requires
        call_ensures(ParityProperty::rank, (&a, &b), rank),
    ensures
        bytes_precede(vstd::utf8::encode_utf8(a.name@), vstd::utf8::encode_utf8(b.name@)) ==> rank
            == Rank::Less,
        bytes_precede(vstd::utf8::encode_utf8(b.name@), vstd::utf8::encode_utf8(a.name@)) ==> rank
            == Rank::Greater,
        a.name@ == b.name@ ==> rank == a.value.ranked(&b.value),
{
    lemma_bytes_order(vstd::utf8::encode_utf8(a.name@), vstd::utf8::encode_utf8(b.name@));
}

} // verus!
