//! Property values, their parity form and their persisted hash.

use vstd::prelude::*;
use vstd::utf8::encode_utf8;

use crate::codec::{le_bytes, push_le};
use crate::digest::{sip13, sip13_of};
use crate::render::{decimal, decimal_string, lemma_decimal, number_of};
use crate::text_map::{keys_ascending, lemma_map_determines_pairs, map_of};

verus! {

/// A property value. Floating-point numbers are held as their bit patterns.
///
/// The entries of an object are in ascending key order, one per key: the value
/// is canonical (see [`is_canonical`]).
#[derive(Debug, PartialEq, Eq)]
pub enum PropertyValue {
    Null,
    Bool(bool),
    I64(i64),
    DateTime(i64),
    /// Bits of a double.
    F64(u64),
    /// Bits of a single-precision number widened to a double.
    F32(u64),
    String(String),
    Bytes(Vec<u8>),
    I64Array(Vec<i64>),
    /// Bits of doubles.
    F64Array(Vec<u64>),
    /// Bits of single-precision numbers.
    F32Array(Vec<u32>),
    StringArray(Vec<String>),
    Array(Vec<PropertyValue>),
    Object(Vec<(String, PropertyValue)>),
}

/// A property value in the form that parity evidence records it. It is
/// canonical as the value is.
#[derive(Debug, PartialEq, Eq)]
pub enum ParityValue {
    Null,
    Bool(bool),
    I64(i64),
    DateTime(i64),
    F64Bits(u64),
    F32Bits(u64),
    String(String),
    Bytes(Vec<u8>),
    I64Array(Vec<i64>),
    F64ArrayBits(Vec<u64>),
    F32ArrayBits(Vec<u32>),
    StringArray(Vec<String>),
    Array(Vec<ParityValue>),
    Object(Vec<(String, ParityValue)>),
}

/// What a property value is, independent of how it is stored.
pub enum ValueModel {
    Null,
    Bool(bool),
    I64(i64),
    DateTime(i64),
    F64(u64),
    F32(u64),
    Text(Seq<char>),
    Bytes(Seq<u8>),
    I64Array(Seq<i64>),
    F64Array(Seq<u64>),
    F32Array(Seq<u32>),
    TextArray(Seq<Seq<char>>),
    Array(Seq<ValueModel>),
    Object(Seq<(Seq<char>, ValueModel)>),
}

/// Whether the entries of every object in the value are in ascending key order,
/// one per key.
pub open spec fn is_canonical(value: ValueModel) -> bool
    decreases value,
{
    match value {
        ValueModel::Array(items) => forall|i: int|
            0 <= i < items.len() ==> is_canonical(#[trigger] items[i]),
        ValueModel::Object(entries) => keys_ascending(entries) && forall|i: int|
            0 <= i < entries.len() ==> is_canonical((#[trigger] entries[i]).1),
        _ => true,
    }
}

/// The texts of a sequence of strings.
pub open spec fn texts(strings: Seq<String>) -> Seq<Seq<char>> {
    Seq::new(strings.len(), |i: int| strings[i]@)
}

impl PropertyValue {
    /// What the value is.
    pub open spec fn model(self) -> ValueModel
        decreases self,
    {
        match self {
            PropertyValue::Null => ValueModel::Null,
            PropertyValue::Bool(value) => ValueModel::Bool(value),
            PropertyValue::I64(value) => ValueModel::I64(value),
            PropertyValue::DateTime(value) => ValueModel::DateTime(value),
            PropertyValue::F64(bits) => ValueModel::F64(bits),
            PropertyValue::F32(bits) => ValueModel::F32(bits),
            PropertyValue::String(value) => ValueModel::Text(value@),
            PropertyValue::Bytes(value) => ValueModel::Bytes(value@),
            PropertyValue::I64Array(value) => ValueModel::I64Array(value@),
            PropertyValue::F64Array(value) => ValueModel::F64Array(value@),
            PropertyValue::F32Array(value) => ValueModel::F32Array(value@),
            PropertyValue::StringArray(value) => ValueModel::TextArray(texts(value@)),
            PropertyValue::Array(items) => ValueModel::Array(
                Seq::new(
                    items@.len(),
                    |i: int|
                        if 0 <= i < items@.len() {
                            items@[i].model()
                        } else {
                            ValueModel::Null
                        },
                ),
            ),
            PropertyValue::Object(entries) => ValueModel::Object(
                Seq::new(
                    entries@.len(),
                    |i: int|
                        if 0 <= i < entries@.len() {
                            (entries@[i].0@, entries@[i].1.model())
                        } else {
                            (Seq::empty(), ValueModel::Null)
                        },
                ),
            ),
        }
    }
}

impl ParityValue {
    /// What the value is.
    pub open spec fn model(self) -> ValueModel
        decreases self,
    {
        match self {
            ParityValue::Null => ValueModel::Null,
            ParityValue::Bool(value) => ValueModel::Bool(value),
            ParityValue::I64(value) => ValueModel::I64(value),
            ParityValue::DateTime(value) => ValueModel::DateTime(value),
            ParityValue::F64Bits(bits) => ValueModel::F64(bits),
            ParityValue::F32Bits(bits) => ValueModel::F32(bits),
            ParityValue::String(value) => ValueModel::Text(value@),
            ParityValue::Bytes(value) => ValueModel::Bytes(value@),
            ParityValue::I64Array(value) => ValueModel::I64Array(value@),
            ParityValue::F64ArrayBits(value) => ValueModel::F64Array(value@),
            ParityValue::F32ArrayBits(value) => ValueModel::F32Array(value@),
            ParityValue::StringArray(value) => ValueModel::TextArray(texts(value@)),
            ParityValue::Array(items) => ValueModel::Array(
                Seq::new(
                    items@.len(),
                    |i: int|
                        if 0 <= i < items@.len() {
                            items@[i].model()
                        } else {
                            ValueModel::Null
                        },
                ),
            ),
            ParityValue::Object(entries) => ValueModel::Object(
                Seq::new(
                    entries@.len(),
                    |i: int|
                        if 0 <= i < entries@.len() {
                            (entries@[i].0@, entries@[i].1.model())
                        } else {
                            (Seq::empty(), ValueModel::Null)
                        },
                ),
            ),
        }
    }
}

/// Copies strings.
pub fn copy_strings(strings: &Vec<String>) -> (copy: Vec<String>)
    ensures
        texts(copy@) == texts(strings@),
{
    let mut copy: Vec<String> = Vec::new();
    let mut i: usize = 0;
    while i < strings.len()
        invariant
            i <= strings.len(),
            copy@.len() == i,
            forall|k: int| 0 <= k < i ==> (#[trigger] copy@[k])@ == strings@[k]@,
        decreases strings.len() - i,
    {
        copy.push(strings[i].clone());
        i = i + 1;
    }
    assert(texts(copy@) =~= texts(strings@));
    copy
}

/// Copies numbers.
pub fn copy_numbers<T: Copy>(numbers: &Vec<T>) -> (copy: Vec<T>)
    ensures
        copy@ == numbers@,
{
    let mut copy: Vec<T> = Vec::new();
    let mut i: usize = 0;
    while i < numbers.len()
        invariant
            i <= numbers.len(),
            copy@ == numbers@.take(i as int),
        decreases numbers.len() - i,
    {
        copy.push(numbers[i]);
        assert(copy@ =~= numbers@.take(i as int + 1));
        i = i + 1;
    }
    assert(numbers@.take(i as int) =~= numbers@);
    copy
}

/// The parity form of a property value.
pub fn parity_value(value: &PropertyValue) -> (parity: ParityValue)
    ensures
        parity.model() == value.model(),
    decreases value,
{
    match value {
        PropertyValue::Null => ParityValue::Null,
        PropertyValue::Bool(value) => ParityValue::Bool(*value),
        PropertyValue::I64(value) => ParityValue::I64(*value),
        PropertyValue::DateTime(value) => ParityValue::DateTime(*value),
        PropertyValue::F64(bits) => ParityValue::F64Bits(*bits),
        PropertyValue::F32(bits) => ParityValue::F32Bits(*bits),
        PropertyValue::String(value) => ParityValue::String(value.clone()),
        PropertyValue::Bytes(value) => ParityValue::Bytes(copy_numbers(value)),
        PropertyValue::I64Array(value) => ParityValue::I64Array(copy_numbers(value)),
        PropertyValue::F64Array(value) => ParityValue::F64ArrayBits(copy_numbers(value)),
        PropertyValue::F32Array(value) => ParityValue::F32ArrayBits(copy_numbers(value)),
        PropertyValue::StringArray(value) => ParityValue::StringArray(copy_strings(value)),
        PropertyValue::Array(items) => {
            let mut copy: Vec<ParityValue> = Vec::new();
            let mut i: usize = 0;
            while i < items.len()
                invariant
                    i <= items.len(),
                    *value == PropertyValue::Array(*items),
                    copy@.len() == i,
                    forall|k: int| 0 <= k < i ==> (#[trigger] copy@[k]).model() == items@[k].model(),
                decreases items.len() - i,
            {
                proof {
                    assert(decreases_to!(*value => value->Array_0));
                    assert(decreases_to!(*items => items@));
                    assert(decreases_to!(items@ => items@[i as int]));
                }
                copy.push(parity_value(&items[i]));
                i = i + 1;
            }
            let parity = ParityValue::Array(copy);
            assert(parity.model()->Array_0 =~= value.model()->Array_0);
            parity
        },
        PropertyValue::Object(entries) => {
            let mut copy: Vec<(String, ParityValue)> = Vec::new();
            let mut i: usize = 0;
            while i < entries.len()
                invariant
                    i <= entries.len(),
                    *value == PropertyValue::Object(*entries),
                    copy@.len() == i,
                    forall|k: int|
                        0 <= k < i ==> (#[trigger] copy@[k]).1.model() == entries@[k].1.model()
                            && copy@[k].0@ == entries@[k].0@,
                decreases entries.len() - i,
            {
                proof {
                    let entry = entries@[i as int];
                    assert(decreases_to!(*value => value->Object_0));
                    assert(decreases_to!(*entries => entries@));
                    assert(decreases_to!(entries@ => entry));
                    assert(decreases_to!(entry => entry.1));
                }
                copy.push((entries[i].0.clone(), parity_value(&entries[i].1)));
                i = i + 1;
            }
            let parity = ParityValue::Object(copy);
            assert(parity.model()->Object_0 =~= value.model()->Object_0);
            parity
        },
    }
}

/// The property value that a parity form records.
pub fn property_value_from_parity(value: &ParityValue) -> (property: PropertyValue)
    ensures
        property.model() == value.model(),
    decreases value,
{
    match value {
        ParityValue::Null => PropertyValue::Null,
        ParityValue::Bool(value) => PropertyValue::Bool(*value),
        ParityValue::I64(value) => PropertyValue::I64(*value),
        ParityValue::DateTime(value) => PropertyValue::DateTime(*value),
        ParityValue::F64Bits(bits) => PropertyValue::F64(*bits),
        ParityValue::F32Bits(bits) => PropertyValue::F32(*bits),
        ParityValue::String(value) => PropertyValue::String(value.clone()),
        ParityValue::Bytes(value) => PropertyValue::Bytes(copy_numbers(value)),
        ParityValue::I64Array(value) => PropertyValue::I64Array(copy_numbers(value)),
        ParityValue::F64ArrayBits(value) => PropertyValue::F64Array(copy_numbers(value)),
        ParityValue::F32ArrayBits(value) => PropertyValue::F32Array(copy_numbers(value)),
        ParityValue::StringArray(value) => PropertyValue::StringArray(copy_strings(value)),
        ParityValue::Array(items) => {
            let mut copy: Vec<PropertyValue> = Vec::new();
            let mut i: usize = 0;
            while i < items.len()
                invariant
                    i <= items.len(),
                    *value == ParityValue::Array(*items),
                    copy@.len() == i,
                    forall|k: int| 0 <= k < i ==> (#[trigger] copy@[k]).model() == items@[k].model(),
                decreases items.len() - i,
            {
                proof {
                    assert(decreases_to!(*value => value->Array_0));
                    assert(decreases_to!(*items => items@));
                    assert(decreases_to!(items@ => items@[i as int]));
                }
                copy.push(property_value_from_parity(&items[i]));
                i = i + 1;
            }
            let property = PropertyValue::Array(copy);
            assert(property.model()->Array_0 =~= value.model()->Array_0);
            property
        },
        ParityValue::Object(entries) => {
            let mut copy: Vec<(String, PropertyValue)> = Vec::new();
            let mut i: usize = 0;
            while i < entries.len()
                invariant
                    i <= entries.len(),
                    *value == ParityValue::Object(*entries),
                    copy@.len() == i,
                    forall|k: int|
                        0 <= k < i ==> (#[trigger] copy@[k]).1.model() == entries@[k].1.model()
                            && copy@[k].0@ == entries@[k].0@,
                decreases entries.len() - i,
            {
                proof {
                    let entry = entries@[i as int];
                    assert(decreases_to!(*value => value->Object_0));
                    assert(decreases_to!(*entries => entries@));
                    assert(decreases_to!(entries@ => entry));
                    assert(decreases_to!(entry => entry.1));
                }
                copy.push((entries[i].0.clone(), property_value_from_parity(&entries[i].1)));
                i = i + 1;
            }
            let property = PropertyValue::Object(copy);
            assert(property.model()->Object_0 =~= value.model()->Object_0);
            property
        },
    }
}

impl Clone for ParityValue {
    fn clone(&self) -> (copy: Self)
        ensures
            copy.model() == self.model(),
        decreases self,
    {
        match self {
            ParityValue::Null => ParityValue::Null,
            ParityValue::Bool(value) => ParityValue::Bool(*value),
            ParityValue::I64(value) => ParityValue::I64(*value),
            ParityValue::DateTime(value) => ParityValue::DateTime(*value),
            ParityValue::F64Bits(bits) => ParityValue::F64Bits(*bits),
            ParityValue::F32Bits(bits) => ParityValue::F32Bits(*bits),
            ParityValue::String(value) => ParityValue::String(value.clone()),
            ParityValue::Bytes(value) => ParityValue::Bytes(copy_numbers(value)),
            ParityValue::I64Array(value) => ParityValue::I64Array(copy_numbers(value)),
            ParityValue::F64ArrayBits(value) => ParityValue::F64ArrayBits(copy_numbers(value)),
            ParityValue::F32ArrayBits(value) => ParityValue::F32ArrayBits(copy_numbers(value)),
            ParityValue::StringArray(value) => ParityValue::StringArray(copy_strings(value)),
            ParityValue::Array(items) => {
                let mut copies: Vec<ParityValue> = Vec::new();
                let mut i: usize = 0;
                while i < items.len()
                    invariant
                        i <= items.len(),
                        *self == ParityValue::Array(*items),
                        copies@.len() == i,
                        forall|k: int|
                            0 <= k < i ==> (#[trigger] copies@[k]).model() == items@[k].model(),
                    decreases items.len() - i,
                {
                    proof {
                        assert(decreases_to!(*self => self->Array_0));
                        assert(decreases_to!(*items => items@));
                        assert(decreases_to!(items@ => items@[i as int]));
                    }
                    copies.push(items[i].clone());
                    i = i + 1;
                }
                let copy = ParityValue::Array(copies);
                assert(copy.model()->Array_0 =~= self.model()->Array_0);
                copy
            },
            ParityValue::Object(entries) => {
                let mut copies: Vec<(String, ParityValue)> = Vec::new();
                let mut i: usize = 0;
                while i < entries.len()
                    invariant
                        i <= entries.len(),
                        *self == ParityValue::Object(*entries),
                        copies@.len() == i,
                        forall|k: int|
                            0 <= k < i ==> (#[trigger] copies@[k]).1.model() == entries@[k].1.model()
                                && copies@[k].0@ == entries@[k].0@,
                    decreases entries.len() - i,
                {
                    proof {
                        let entry = entries@[i as int];
                        assert(decreases_to!(*self => self->Object_0));
                        assert(decreases_to!(*entries => entries@));
                        assert(decreases_to!(entries@ => entry));
                        assert(decreases_to!(entry => entry.1));
                    }
                    copies.push((entries[i].0.clone(), entries[i].1.clone()));
                    i = i + 1;
                }
                let copy = ParityValue::Object(copies);
                assert(copy.model()->Object_0 =~= self.model()->Object_0);
                copy
            },
        }
    }
}

/// A named property in parity form.
#[derive(Debug, PartialEq, Eq)]
pub struct ParityProperty {
    pub name: String,
    pub value: ParityValue,
}

/// A named property.
#[derive(Debug, PartialEq, Eq)]
pub struct Property {
    pub name: String,
    pub value: PropertyValue,
}

impl ParityProperty {
    /// Name and value.
    pub open spec fn model(self) -> (Seq<char>, ValueModel) {
        (self.name@, self.value.model())
    }
}

impl Property {
    /// Name and value.
    pub open spec fn model(self) -> (Seq<char>, ValueModel) {
        (self.name@, self.value.model())
    }
}

impl Clone for ParityProperty {
    fn clone(&self) -> (copy: Self)
        ensures
            copy.model() == self.model(),
    {
        ParityProperty { name: self.name.clone(), value: self.value.clone() }
    }
}

/// The parity form of a property list, in the same order, duplicates included.
pub fn parity_properties(properties: &[Property]) -> (parity: Vec<ParityProperty>)
    ensures
        parity@.len() == properties@.len(),
        forall|i: int|
            0 <= i < properties@.len() ==> (#[trigger] parity@[i]).model() == properties@[i].model(),
{
    let mut parity: Vec<ParityProperty> = Vec::new();
    let mut i: usize = 0;
    while i < properties.len()
        invariant
            i <= properties.len(),
            parity@.len() == i,
            forall|k: int| 0 <= k < i ==> (#[trigger] parity@[k]).model() == properties@[k].model(),
        decreases properties.len() - i,
    {
        parity.push(
            ParityProperty {
                name: properties[i].name.clone(),
                value: parity_value(&properties[i].value),
            },
        );
        i = i + 1;
    }
    parity
}

/// Eight bytes, least significant first.
pub open spec fn word(value: u64) -> Seq<u8> {
    le_bytes(value as nat, 8)
}

/// The UTF-8 bytes of a text behind which `0xff` marks its end.
pub open spec fn text_stream(text: Seq<char>) -> Seq<u8> {
    encode_utf8(text).push(0xff)
}

/// The words of all numbers.
pub open spec fn words(values: Seq<u64>) -> Seq<u8>
    decreases values.len(),
{
    if values.len() == 0 {
        Seq::empty()
    } else {
        words(values.drop_last()) + word(values.last())
    }
}

/// The words of all signed numbers, in two's complement.
pub open spec fn signed_words(values: Seq<i64>) -> Seq<u8>
    decreases values.len(),
{
    if values.len() == 0 {
        Seq::empty()
    } else {
        signed_words(values.drop_last()) + word(values.last() as u64)
    }
}

/// Four bytes for each number, least significant first.
pub open spec fn half_words(values: Seq<u32>) -> Seq<u8>
    decreases values.len(),
{
    if values.len() == 0 {
        Seq::empty()
    } else {
        half_words(values.drop_last()) + le_bytes(values.last() as nat, 4)
    }
}

/// The streams of all texts.
pub open spec fn text_streams(values: Seq<Seq<char>>) -> Seq<u8>
    decreases values.len(),
{
    if values.len() == 0 {
        Seq::empty()
    } else {
        text_streams(values.drop_last()) + text_stream(values.last())
    }
}

/// The bytes that stand for a value in its persisted hash: a tag, then the
/// contents. Nested values stand as the words of their own hashes.
pub open spec fn value_stream(value: ValueModel) -> Seq<u8>
    decreases value,
{
    match value {
        ValueModel::Null => seq![0u8],
        ValueModel::Bool(value) => seq![1u8, if value { 1u8 } else { 0u8 }],
        ValueModel::I64(value) => seq![2u8] + word(value as u64),
        ValueModel::DateTime(value) => seq![11u8] + word(value as u64),
        ValueModel::F64(bits) => seq![3u8] + word(bits),
        ValueModel::F32(bits) => seq![4u8] + word(bits),
        ValueModel::Text(text) => seq![5u8] + text_stream(text),
        ValueModel::Bytes(bytes) => seq![6u8] + word(bytes.len() as u64) + bytes,
        ValueModel::I64Array(values) => seq![7u8] + word(values.len() as u64) + signed_words(values),
        ValueModel::F64Array(values) => seq![8u8] + words(values),
        ValueModel::F32Array(values) => seq![9u8] + half_words(values),
        ValueModel::TextArray(values) => seq![10u8] + word(values.len() as u64) + text_streams(values),
        ValueModel::Array(items) => seq![12u8] + item_stream(items),
        ValueModel::Object(entries) => seq![13u8] + entry_stream(entries),
    }
}

/// The words of the items' hashes.
pub open spec fn item_stream(items: Seq<ValueModel>) -> Seq<u8>
    decreases items,
{
    if items.len() == 0 {
        Seq::empty()
    } else {
        item_stream(items.drop_last()) + word(sip13_of(0, 0, value_stream(items.last())))
    }
}

/// For each entry its key's stream and the word of its value's hash.
pub open spec fn entry_stream(entries: Seq<(Seq<char>, ValueModel)>) -> Seq<u8>
    decreases entries,
{
    if entries.len() == 0 {
        Seq::empty()
    } else {
        entry_stream(entries.drop_last()) + text_stream(entries.last().0) + word(
            sip13_of(0, 0, value_stream(entries.last().1)),
        )
    }
}

/// The persisted hash of a property value: SipHash-1-3 under zero keys.
pub open spec fn value_hash(value: ValueModel) -> u64 {
    sip13_of(0, 0, value_stream(value))
}

/// The persisted hash of an index-name component.
pub open spec fn component_hash(text: Seq<char>) -> u64 {
    sip13_of(0, 0, text_stream(text))
}

fn push_text(out: &mut Vec<u8>, text: &str)
    ensures
        final(out)@ == old(out)@ + text_stream(text@),
{
    let ghost before = out@;
    out.extend_from_slice(text.as_bytes());
    assert(out@ =~= before + encode_utf8(text@));
    out.push(0xff);
    assert(out@ =~= before + text_stream(text@));
}

/// Hashes one component of a persisted index name.
pub fn hash_index_component(value: &str) -> (hash: u64)
    ensures
        hash == component_hash(value@),
{
    let mut stream: Vec<u8> = Vec::new();
    push_text(&mut stream, value);
    assert(stream@ =~= text_stream(value@));
    sip13(0, 0, stream.as_slice())
}

fn push_contents(out: &mut Vec<u8>, bytes: &Vec<u8>)
    ensures
        final(out)@ == old(out)@ + word(bytes@.len() as u64) + bytes@,
{
    push_le(out, bytes.len() as u64, 8);
    let ghost before = out@;
    out.extend_from_slice(bytes.as_slice());
    assert(out@ =~= before + bytes@);
}

fn push_words(out: &mut Vec<u8>, values: &Vec<u64>)
    ensures
        final(out)@ == old(out)@ + words(values@),
{
    let ghost before = out@;
    let mut i: usize = 0;
    assert(out@ =~= before + words(values@.take(0)));
    while i < values.len()
        invariant
            i <= values.len(),
            out@ == before + words(values@.take(i as int)),
        decreases values.len() - i,
    {
        push_le(out, values[i], 8);
        assert(values@.take(i as int + 1).drop_last() =~= values@.take(i as int));
        assert(out@ =~= before + words(values@.take(i as int + 1)));
        i = i + 1;
    }
    assert(values@.take(i as int) =~= values@);
}

fn push_signed_words(out: &mut Vec<u8>, values: &Vec<i64>)
    ensures
        final(out)@ == old(out)@ + signed_words(values@),
{
    let ghost before = out@;
    let mut i: usize = 0;
    assert(out@ =~= before + signed_words(values@.take(0)));
    while i < values.len()
        invariant
            i <= values.len(),
            out@ == before + signed_words(values@.take(i as int)),
        decreases values.len() - i,
    {
        push_le(out, values[i] as u64, 8);
        assert(values@.take(i as int + 1).drop_last() =~= values@.take(i as int));
        assert(out@ =~= before + signed_words(values@.take(i as int + 1)));
        i = i + 1;
    }
    assert(values@.take(i as int) =~= values@);
}

fn push_half_words(out: &mut Vec<u8>, values: &Vec<u32>)
    ensures
        final(out)@ == old(out)@ + half_words(values@),
{
    let ghost before = out@;
    let mut i: usize = 0;
    assert(out@ =~= before + half_words(values@.take(0)));
    while i < values.len()
        invariant
            i <= values.len(),
            out@ == before + half_words(values@.take(i as int)),
        decreases values.len() - i,
    {
        push_le(out, values[i] as u64, 4);
        assert(values@.take(i as int + 1).drop_last() =~= values@.take(i as int));
        assert(out@ =~= before + half_words(values@.take(i as int + 1)));
        i = i + 1;
    }
    assert(values@.take(i as int) =~= values@);
}

fn push_texts(out: &mut Vec<u8>, values: &Vec<String>)
    ensures
        final(out)@ == old(out)@ + text_streams(texts(values@)),
{
    let ghost before = out@;
    let ghost all = texts(values@);
    let mut i: usize = 0;
    assert(out@ =~= before + text_streams(all.take(0)));
    while i < values.len()
        invariant
            i <= values.len(),
            all == texts(values@),
            out@ == before + text_streams(all.take(i as int)),
        decreases values.len() - i,
    {
        push_text(out, values[i].as_str());
        assert(all.take(i as int + 1).drop_last() =~= all.take(i as int));
        assert(out@ =~= before + text_streams(all.take(i as int + 1)));
        i = i + 1;
    }
    assert(all.take(i as int) =~= all);
}

/// Hashes a property value as persisted tenant-scoped index names record it.
pub fn hash_property_value_component(value: &PropertyValue) -> (hash: u64)
    ensures
        hash == value_hash(value.model()),
    decreases value,
{
    let mut stream: Vec<u8> = Vec::new();
    match value {
        PropertyValue::Null => {
            stream.push(0);
        },
        PropertyValue::Bool(flag) => {
            stream.push(1);
            stream.push(if *flag { 1 } else { 0 });
        },
        PropertyValue::I64(number) => {
            stream.push(2);
            push_le(&mut stream, *number as u64, 8);
        },
        PropertyValue::DateTime(number) => {
            stream.push(11);
            push_le(&mut stream, *number as u64, 8);
        },
        PropertyValue::F64(bits) => {
            stream.push(3);
            push_le(&mut stream, *bits, 8);
        },
        PropertyValue::F32(bits) => {
            stream.push(4);
            push_le(&mut stream, *bits, 8);
        },
        PropertyValue::String(text) => {
            stream.push(5);
            push_text(&mut stream, text.as_str());
        },
        PropertyValue::Bytes(bytes) => {
            stream.push(6);
            push_contents(&mut stream, bytes);
        },
        PropertyValue::I64Array(values) => {
            stream.push(7);
            push_le(&mut stream, values.len() as u64, 8);
            push_signed_words(&mut stream, values);
        },
        PropertyValue::F64Array(values) => {
            stream.push(8);
            push_words(&mut stream, values);
        },
        PropertyValue::F32Array(values) => {
            stream.push(9);
            push_half_words(&mut stream, values);
        },
        PropertyValue::StringArray(values) => {
            stream.push(10);
            push_le(&mut stream, values.len() as u64, 8);
            push_texts(&mut stream, values);
        },
        PropertyValue::Array(items) => {
            stream.push(12);
            let ghost models = value.model()->Array_0;
            let mut i: usize = 0;
            assert(stream@ =~= seq![12u8] + item_stream(models.take(0)));
            while i < items.len()
                invariant
                    i <= items.len(),
                    *value == PropertyValue::Array(*items),
                    models == value.model()->Array_0,
                    models.len() == items@.len(),
                    stream@ == seq![12u8] + item_stream(models.take(i as int)),
                decreases items.len() - i,
            {
                proof {
                    assert(decreases_to!(*value => value->Array_0));
                    assert(decreases_to!(*items => items@));
                    assert(decreases_to!(items@ => items@[i as int]));
                }
                let inner = hash_property_value_component(&items[i]);
                push_le(&mut stream, inner, 8);
                assert(models.take(i as int + 1).drop_last() =~= models.take(i as int));
                assert(models.take(i as int + 1).last() == items@[i as int].model());
                assert(stream@ =~= seq![12u8] + item_stream(models.take(i as int + 1)));
                i = i + 1;
            }
            assert(models.take(i as int) =~= models);
        },
        PropertyValue::Object(entries) => {
            stream.push(13);
            let ghost models = value.model()->Object_0;
            let mut i: usize = 0;
            assert(stream@ =~= seq![13u8] + entry_stream(models.take(0)));
            while i < entries.len()
                invariant
                    i <= entries.len(),
                    *value == PropertyValue::Object(*entries),
                    models == value.model()->Object_0,
                    models.len() == entries@.len(),
                    stream@ == seq![13u8] + entry_stream(models.take(i as int)),
                decreases entries.len() - i,
            {
                proof {
                    let entry = entries@[i as int];
                    assert(decreases_to!(*value => value->Object_0));
                    assert(decreases_to!(*entries => entries@));
                    assert(decreases_to!(entries@ => entry));
                    assert(decreases_to!(entry => entry.1));
                }
                push_text(&mut stream, entries[i].0.as_str());
                let inner = hash_property_value_component(&entries[i].1);
                push_le(&mut stream, inner, 8);
                assert(models.take(i as int + 1).drop_last() =~= models.take(i as int));
                assert(stream@ =~= seq![13u8] + entry_stream(models.take(i as int + 1)));
                i = i + 1;
            }
            assert(models.take(i as int) =~= models);
        },
    }
    assert(stream@ =~= value_stream(value.model()));
    sip13(0, 0, stream.as_slice())
}

/// The persisted hash of an index-name component, for parity evidence.
pub fn migration_parity_hash_index_component(value: &str) -> (hash: u64)
    ensures
        hash == component_hash(value@),
{
    hash_index_component(value)
}

/// The persisted hash of a tenant value, for parity evidence.
pub fn migration_parity_hash_property_value_component(value: &PropertyValue) -> (hash: u64)
    ensures
        hash == value_hash(value.model()),
{
    hash_property_value_component(value)
}

/// A canonical object is what it maps its keys to, and so is its hash: two
/// canonical objects with the same keys and values are the same value.
pub proof fn law_canonical_objects_are_their_entries(
    a: Seq<(Seq<char>, ValueModel)>,
    b: Seq<(Seq<char>, ValueModel)>,
)
    requires
        is_canonical(ValueModel::Object(a)),
        is_canonical(ValueModel::Object(b)),
        map_of(a) == map_of(b),
    ensures
        a == b,
        value_hash(ValueModel::Object(a)) == value_hash(ValueModel::Object(b)),
{
    lemma_map_determines_pairs(a, b);
}

/// Parity evidence keeps every value: reading a recorded form back gives the
/// value that was recorded.
pub proof fn law_parity_round_trip(
    value: PropertyValue,
    recorded: ParityValue,
    restored: PropertyValue,
)
    requires
        call_ensures(parity_value, (&value,), recorded),
        call_ensures(property_value_from_parity, (&recorded,), restored),
    ensures
        restored.model() == value.model(),
        value_hash(restored.model()) == value_hash(value.model()),
{
}

/// Whether a secondary index can hold the value: all but nested arrays and
/// objects.
pub fn property_value_is_secondary_indexable(value: &PropertyValue) -> (indexable: bool)
    ensures
        indexable == !(value.model() is Array || value.model() is Object),
{
    match value {
        PropertyValue::Array(_) => false,
        PropertyValue::Object(_) => false,
        _ => true,
    }
}

/// The name of a value's kind.
pub open spec fn kind_name(value: ValueModel) -> Seq<char> {
    match value {
        ValueModel::Null => "Null"@,
        ValueModel::Bool(_) => "Bool"@,
        ValueModel::I64(_) => "I64"@,
        ValueModel::DateTime(_) => "DateTime"@,
        ValueModel::F64(_) => "F64"@,
        ValueModel::F32(_) => "F32"@,
        ValueModel::Text(_) => "String"@,
        ValueModel::Bytes(_) => "Bytes"@,
        ValueModel::I64Array(_) => "I64Array"@,
        ValueModel::F64Array(_) => "F64Array"@,
        ValueModel::F32Array(_) => "F32Array"@,
        ValueModel::TextArray(_) => "StringArray"@,
        ValueModel::Array(_) => "Array"@,
        ValueModel::Object(_) => "Object"@,
    }
}

/// The name of a value's kind.
pub fn property_value_type_name(value: &PropertyValue) -> (name: &'static str)
    ensures
        name@ == kind_name(value.model()),
{
    match value {
        PropertyValue::Null => "Null",
        PropertyValue::Bool(_) => "Bool",
        PropertyValue::I64(_) => "I64",
        PropertyValue::DateTime(_) => "DateTime",
        PropertyValue::F64(_) => "F64",
        PropertyValue::F32(_) => "F32",
        PropertyValue::String(_) => "String",
        PropertyValue::Bytes(_) => "Bytes",
        PropertyValue::I64Array(_) => "I64Array",
        PropertyValue::F64Array(_) => "F64Array",
        PropertyValue::F32Array(_) => "F32Array",
        PropertyValue::StringArray(_) => "StringArray",
        PropertyValue::Array(_) => "Array",
        PropertyValue::Object(_) => "Object",
    }
}

/// The index text of a value, or the number that a floating-point or calendar
/// formatter still has to write.
#[derive(Debug, PartialEq, Eq)]
pub enum IndexText {
    /// The finished text.
    Text(String),
    /// Bits of a double to be written in scientific notation.
    Float(u64),
    /// A timestamp to be written by the calendar formatter.
    DateTime(i64),
}

/// What an [`IndexText`] holds.
pub enum IndexTextModel {
    Text(Seq<char>),
    Float(u64),
    DateTime(i64),
}

impl IndexText {
    /// What it holds.
    pub open spec fn model(self) -> IndexTextModel {
        match self {
            IndexText::Text(text) => IndexTextModel::Text(text@),
            IndexText::Float(bits) => IndexTextModel::Float(bits),
            IndexText::DateTime(value) => IndexTextModel::DateTime(value),
        }
    }
}

/// `count` zeros.
pub open spec fn zeros(count: int) -> Seq<char> {
    Seq::new(if count > 0 { count as nat } else { 0 }, |i: int| '0')
}

/// A number padded with zeros to twenty characters, behind its sign.
pub open spec fn padded_number(value: i64) -> Seq<char> {
    if value < 0 {
        let digits = decimal((-value) as nat);
        seq!['-'] + zeros(19 - digits.len()) + digits
    } else {
        let digits = decimal(value as nat);
        zeros(20 - digits.len()) + digits
    }
}

/// Decimal numbers with a comma and a space between them.
pub open spec fn listed_bytes(bytes: Seq<u8>) -> Seq<char>
    decreases bytes.len(),
{
    if bytes.len() == 0 {
        Seq::empty()
    } else if bytes.len() == 1 {
        decimal(bytes[0] as nat)
    } else {
        listed_bytes(bytes.drop_last()) + ", "@ + decimal(bytes.last() as nat)
    }
}

/// `<name[count]>`.
pub open spec fn sized_text(name: Seq<char>, count: nat) -> Seq<char> {
    "<"@ + name + "["@ + decimal(count) + "]>"@
}

/// The index text of a value.
pub open spec fn index_text(value: ValueModel) -> IndexTextModel {
    match value {
        ValueModel::Null => IndexTextModel::Text("null"@),
        ValueModel::Bool(flag) => IndexTextModel::Text(if flag { "true"@ } else { "false"@ }),
        ValueModel::I64(number) => IndexTextModel::Text(padded_number(number)),
        ValueModel::DateTime(number) => IndexTextModel::DateTime(number),
        ValueModel::F64(bits) => IndexTextModel::Float(bits),
        ValueModel::F32(bits) => IndexTextModel::Float(bits),
        ValueModel::Text(text) => IndexTextModel::Text(text),
        ValueModel::Bytes(bytes) => IndexTextModel::Text(
            "<bytes:["@ + listed_bytes(bytes) + "]>"@,
        ),
        ValueModel::I64Array(values) => IndexTextModel::Text(sized_text("i64"@, values.len())),
        ValueModel::F64Array(values) => IndexTextModel::Text(sized_text("f64"@, values.len())),
        ValueModel::F32Array(values) => IndexTextModel::Text(sized_text("f32"@, values.len())),
        ValueModel::TextArray(values) => IndexTextModel::Text(sized_text("str"@, values.len())),
        ValueModel::Array(items) => IndexTextModel::Text(sized_text("array"@, items.len())),
        ValueModel::Object(entries) => IndexTextModel::Text(sized_text("object"@, entries.len())),
    }
}

fn sized_string(name: &str, count: usize) -> (text: String)
    ensures
        text@ == sized_text(name@, count as nat),
{
    let digits = decimal_string(count as u64);
    let mut text = "<".to_owned();
    text.append(name);
    text.append("[");
    text.append(digits.as_str());
    text.append("]>");
    text
}

fn padded_string(value: i64) -> (text: String)
    ensures
        text@ == padded_number(value),
{
    let negative = value < 0;
    let magnitude: u64 = if negative {
        if value == i64::MIN {
            0x8000_0000_0000_0000
        } else {
            (-value) as u64
        }
    } else {
        value as u64
    };
    let digits = decimal_string(magnitude);
    let width: usize = if negative { 19 } else { 20 };
    let mut text = String::new();
    if negative {
        text.push('-');
    }
    let ghost sign = text@;
    proof {
        lemma_decimal_len(magnitude as nat);
    }
    let count = digits.as_str().unicode_len();
    let mut written: usize = count;
    assert(text@ =~= sign + zeros(written - count));
    while written < width
        invariant
            count <= written,
            written <= width || written == count,
            text@ == sign + zeros(written - count),
        decreases width - written,
    {
        text.push('0');
        assert(text@ =~= sign + zeros(written + 1 - count));
        written = written + 1;
    }
    text.append(digits.as_str());
    assert(zeros(written - count) =~= zeros(width - count));
    assert(text@ =~= padded_number(value));
    text
}

proof fn lemma_decimal_len(value: nat)
    ensures
        decimal(value).len() >= 1,
    decreases value,
{
    if value >= 10 {
        lemma_decimal_len(value / 10);
    }
}

fn listed_string(bytes: &Vec<u8>) -> (text: String)
    ensures
        text@ == listed_bytes(bytes@),
{
    let mut text = String::new();
    let mut i: usize = 0;
    assert(text@ =~= listed_bytes(bytes@.take(0)));
    while i < bytes.len()
        invariant
            i <= bytes.len(),
            text@ == listed_bytes(bytes@.take(i as int)),
        decreases bytes.len() - i,
    {
        let ghost before = text@;
        if i > 0 {
            text.append(", ");
        }
        let digits = decimal_string(bytes[i] as u64);
        text.append(digits.as_str());
        proof {
            assert(bytes@.take(i as int + 1).drop_last() =~= bytes@.take(i as int));
            if i == 0 {
                assert(before =~= Seq::empty());
                assert(text@ =~= decimal(bytes@[0] as nat));
            }
        }
        i = i + 1;
    }
    assert(bytes@.take(i as int) =~= bytes@);
    text
}

/// The text under which the legacy index files a value.
pub fn property_value_to_index_string(value: &PropertyValue) -> (text: IndexText)
    ensures
        text.model() == index_text(value.model()),
{
    match value {
        PropertyValue::Null => IndexText::Text("null".to_owned()),
        PropertyValue::Bool(flag) => IndexText::Text(
            if *flag {
                "true".to_owned()
            } else {
                "false".to_owned()
            },
        ),
        PropertyValue::I64(number) => IndexText::Text(padded_string(*number)),
        PropertyValue::DateTime(number) => IndexText::DateTime(*number),
        PropertyValue::F64(bits) => IndexText::Float(*bits),
        PropertyValue::F32(bits) => IndexText::Float(*bits),
        PropertyValue::String(text) => IndexText::Text(text.clone()),
        PropertyValue::Bytes(bytes) => {
            let list = listed_string(bytes);
            let mut text = "<bytes:[".to_owned();
            text.append(list.as_str());
            text.append("]>");
            IndexText::Text(text)
        },
        PropertyValue::I64Array(values) => IndexText::Text(sized_string("i64", values.len())),
        PropertyValue::F64Array(values) => IndexText::Text(sized_string("f64", values.len())),
        PropertyValue::F32Array(values) => IndexText::Text(sized_string("f32", values.len())),
        PropertyValue::StringArray(values) => IndexText::Text(sized_string("str", values.len())),
        PropertyValue::Array(items) => IndexText::Text(sized_string("array", items.len())),
        PropertyValue::Object(entries) => IndexText::Text(sized_string("object", entries.len())),
    }
}

/// A value keeps its kind and its content in parity form, and has them again when
/// it is restored.
pub proof fn law_values_keep_their_kind(value: PropertyValue, parity: ParityValue)
    requires
        call_ensures(parity_value, (&value,), parity) || call_ensures(
            property_value_from_parity,
            (&parity,),
            value,
        ),
    ensures
        value is Null <==> parity is Null,
        value is Bool <==> parity is Bool,
        value is Bool ==> value->Bool_0 == parity->Bool_0,
        value is I64 <==> parity is I64,
        value is I64 ==> value->I64_0 == parity->I64_0,
        value is DateTime <==> parity is DateTime,
        value is DateTime ==> value->DateTime_0 == parity->DateTime_0,
        value is F64 <==> parity is F64Bits,
        value is F64 ==> value->F64_0 == parity->F64Bits_0,
        value is F32 <==> parity is F32Bits,
        value is F32 ==> value->F32_0 == parity->F32Bits_0,
        value is String <==> parity is String,
        value is String ==> value->String_0@ == parity->String_0@,
        value is Bytes <==> parity is Bytes,
        value is Bytes ==> value->Bytes_0@ == parity->Bytes_0@,
        value is I64Array <==> parity is I64Array,
        value is I64Array ==> value->I64Array_0@ == parity->I64Array_0@,
        value is F64Array <==> parity is F64ArrayBits,
        value is F64Array ==> value->F64Array_0@ == parity->F64ArrayBits_0@,
        value is F32Array <==> parity is F32ArrayBits,
        value is F32Array ==> value->F32Array_0@ == parity->F32ArrayBits_0@,
        value is StringArray <==> parity is StringArray,
        value is StringArray ==> value->StringArray_0@.len() == parity->StringArray_0@.len()
            && forall|i: int|
            0 <= i < value->StringArray_0@.len() ==> (#[trigger] value->StringArray_0@[i])@
                == parity->StringArray_0@[i]@,
        value is Array <==> parity is Array,
        value is Array ==> value->Array_0@.len() == parity->Array_0@.len() && forall|i: int|
            0 <= i < value->Array_0@.len() ==> (#[trigger] value->Array_0@[i]).model()
                == parity->Array_0@[i].model(),
        value is Object <==> parity is Object,
        value is Object ==> value->Object_0@.len() == parity->Object_0@.len() && forall|i: int|
            0 <= i < value->Object_0@.len() ==> (#[trigger] value->Object_0@[i]).0@
                == parity->Object_0@[i].0@ && value->Object_0@[i].1.model()
                == parity->Object_0@[i].1.model(),
{
    assert(value.model() == parity.model());
    match value {
        PropertyValue::StringArray(list) => {
            let other = parity->StringArray_0;
            assert(texts(list@) == texts(other@));
            assert(texts(list@).len() == list@.len());
            assert(texts(other@).len() == other@.len());
            assert forall|i: int| 0 <= i < list@.len() implies (#[trigger] list@[i])@
                == other@[i]@ by {
                assert(texts(list@)[i] == list@[i]@);
                assert(texts(other@)[i] == other@[i]@);
            }
        },
        PropertyValue::Array(items) => {
            let other = parity->Array_0;
            let models = value.model()->Array_0;
            assert(models.len() == items@.len());
            assert(models.len() == other@.len());
            assert forall|i: int| 0 <= i < items@.len() implies (#[trigger] items@[i]).model()
                == other@[i].model() by {
                assert(models[i] == items@[i].model());
                assert(parity.model()->Array_0[i] == other@[i].model());
            }
        },
        PropertyValue::Object(entries) => {
            let other = parity->Object_0;
            let models = value.model()->Object_0;
            assert(models.len() == entries@.len());
            assert(models.len() == other@.len());
            assert forall|i: int| 0 <= i < entries@.len() implies (#[trigger] entries@[i]).0@
                == other@[i].0@ && entries@[i].1.model() == other@[i].1.model() by {
                assert(models[i] == (entries@[i].0@, entries@[i].1.model()));
                assert(parity.model()->Object_0[i] == (other@[i].0@, other@[i].1.model()));
            }
        },
        _ => {},
    }
}

/// The properties of a list keep their order, their names and their values.
pub proof fn law_property_lists_keep_their_order(
    properties: &[Property],
    parity: Vec<ParityProperty>,
)
    requires
        call_ensures(parity_properties, (properties,), parity),
    ensures
        parity@.len() == properties@.len(),
        forall|i: int|
            0 <= i < properties@.len() ==> (#[trigger] parity@[i]).name@ == properties@[i].name@
                && parity@[i].value.model() == properties@[i].value.model(),
{
}

/// A component of an index name is hashed as its UTF-8 bytes with `0xff` behind
/// them, under zero keys; evidence takes the same hash.
pub proof fn law_components_are_hashed_as_text(value: &str, hash: u64, evidence: u64)
    requires
        call_ensures(hash_index_component, (value,), hash),
        call_ensures(migration_parity_hash_index_component, (value,), evidence),
    ensures
        hash == sip13_of(0, 0, encode_utf8(value@) + seq![0xffu8]),
        evidence == hash,
{
    assert(text_stream(value@) =~= encode_utf8(value@) + seq![0xffu8]);
}

/// A simple value is hashed as its tag and its content: numbers in eight
/// little-endian bytes, texts as their UTF-8 bytes with `0xff` behind them, bytes
/// behind their length. Evidence takes the same hash.
pub proof fn law_simple_values_are_hashed_behind_their_tag(
    value: PropertyValue,
    hash: u64,
    evidence: u64,
)
    requires
        call_ensures(hash_property_value_component, (&value,), hash),
        call_ensures(migration_parity_hash_property_value_component, (&value,), evidence),
    ensures
        evidence == hash,
        value is Null ==> hash == sip13_of(0, 0, seq![0u8]),
        value is Bool ==> hash == sip13_of(
            0,
            0,
            seq![
                1u8,
                if value->Bool_0 {
                    1u8
                } else {
                    0u8
                },
            ],
        ),
        value is I64 ==> hash == sip13_of(
            0,
            0,
            seq![2u8] + le_bytes((value->I64_0 as u64) as nat, 8),
        ),
        value is F64 ==> hash == sip13_of(0, 0, seq![3u8] + le_bytes(value->F64_0 as nat, 8)),
        value is F32 ==> hash == sip13_of(0, 0, seq![4u8] + le_bytes(value->F32_0 as nat, 8)),
        value is String ==> hash == sip13_of(
            0,
            0,
            seq![5u8] + encode_utf8(value->String_0@) + seq![0xffu8],
        ),
        value is Bytes ==> hash == sip13_of(
            0,
            0,
            seq![6u8] + le_bytes((value->Bytes_0@.len() as u64) as nat, 8) + value->Bytes_0@,
        ),
        value is DateTime ==> hash == sip13_of(
            0,
            0,
            seq![11u8] + le_bytes((value->DateTime_0 as u64) as nat, 8),
        ),
{
    if value is String {
        assert(seq![5u8] + text_stream(value->String_0@) =~= seq![5u8] + encode_utf8(
            value->String_0@,
        ) + seq![0xffu8]);
    }
}

proof fn lemma_words(values: Seq<u64>)
    ensures
        words(values) == values.map_values(|value: u64| le_bytes(value as nat, 8)).flatten(),
    decreases values.len(),
{
    let shown = |value: u64| le_bytes(value as nat, 8);
    if values.len() == 0 {
        assert(values.map_values(shown) =~= Seq::<Seq<u8>>::empty());
    } else {
        lemma_words(values.drop_last());
        assert(values.map_values(shown) =~= values.drop_last().map_values(shown).push(
            shown(values.last()),
        ));
        values.drop_last().map_values(shown).lemma_flatten_push(shown(values.last()));
    }
}

proof fn lemma_signed_words(values: Seq<i64>)
    ensures
        signed_words(values) == values.map_values(
            |value: i64| le_bytes((value as u64) as nat, 8),
        ).flatten(),
    decreases values.len(),
{
    let shown = |value: i64| le_bytes((value as u64) as nat, 8);
    if values.len() == 0 {
        assert(values.map_values(shown) =~= Seq::<Seq<u8>>::empty());
    } else {
        lemma_signed_words(values.drop_last());
        assert(values.map_values(shown) =~= values.drop_last().map_values(shown).push(
            shown(values.last()),
        ));
        values.drop_last().map_values(shown).lemma_flatten_push(shown(values.last()));
    }
}

proof fn lemma_half_words(values: Seq<u32>)
    ensures
        half_words(values) == values.map_values(|value: u32| le_bytes(value as nat, 4)).flatten(),
    decreases values.len(),
{
    let shown = |value: u32| le_bytes(value as nat, 4);
    if values.len() == 0 {
        assert(values.map_values(shown) =~= Seq::<Seq<u8>>::empty());
    } else {
        lemma_half_words(values.drop_last());
        assert(values.map_values(shown) =~= values.drop_last().map_values(shown).push(
            shown(values.last()),
        ));
        values.drop_last().map_values(shown).lemma_flatten_push(shown(values.last()));
    }
}

proof fn lemma_text_streams(values: Seq<Seq<char>>)
    ensures
        text_streams(values) == values.map_values(
            |text: Seq<char>| encode_utf8(text) + seq![0xffu8],
        ).flatten(),
    decreases values.len(),
{
    let shown = |text: Seq<char>| encode_utf8(text) + seq![0xffu8];
    if values.len() == 0 {
        assert(values.map_values(shown) =~= Seq::<Seq<u8>>::empty());
    } else {
        lemma_text_streams(values.drop_last());
        assert(values.map_values(shown) =~= values.drop_last().map_values(shown).push(
            shown(values.last()),
        ));
        values.drop_last().map_values(shown).lemma_flatten_push(shown(values.last()));
        assert(text_stream(values.last()) =~= shown(values.last()));
    }
}

/// A list is hashed as its tag and its elements in their order; lists of integers
/// and of texts have their length before the elements.
pub proof fn law_lists_are_hashed_in_order(value: PropertyValue, hash: u64)
    requires
        call_ensures(hash_property_value_component, (&value,), hash),
    ensures
        value is I64Array ==> hash == sip13_of(
            0,
            0,
            seq![7u8] + le_bytes((value->I64Array_0@.len() as u64) as nat, 8)
                + value->I64Array_0@.map_values(
                |number: i64| le_bytes((number as u64) as nat, 8),
            ).flatten(),
        ),
        value is F64Array ==> hash == sip13_of(
            0,
            0,
            seq![8u8] + value->F64Array_0@.map_values(
                |bits: u64| le_bytes(bits as nat, 8),
            ).flatten(),
        ),
        value is F32Array ==> hash == sip13_of(
            0,
            0,
            seq![9u8] + value->F32Array_0@.map_values(
                |bits: u32| le_bytes(bits as nat, 4),
            ).flatten(),
        ),
        value is StringArray ==> hash == sip13_of(
            0,
            0,
            seq![10u8] + le_bytes((value->StringArray_0@.len() as u64) as nat, 8)
                + value->StringArray_0@.map_values(
                |text: String| encode_utf8(text@) + seq![0xffu8],
            ).flatten(),
        ),
{
    match value {
        PropertyValue::I64Array(values) => {
            lemma_signed_words(values@);
        },
        PropertyValue::F64Array(values) => {
            lemma_words(values@);
        },
        PropertyValue::F32Array(values) => {
            lemma_half_words(values@);
        },
        PropertyValue::StringArray(values) => {
            lemma_text_streams(texts(values@));
            assert(texts(values@).len() == values@.len());
            assert(texts(values@).map_values(
                |text: Seq<char>| encode_utf8(text) + seq![0xffu8],
            ) =~= values@.map_values(|text: String| encode_utf8(text@) + seq![0xffu8]));
        },
        _ => {},
    }
}

proof fn lemma_item_stream(items: Seq<ValueModel>)
    ensures
        item_stream(items) == items.map_values(
            |item: ValueModel| le_bytes(value_hash(item) as nat, 8),
        ).flatten(),
    decreases items.len(),
{
    let shown = |item: ValueModel| le_bytes(value_hash(item) as nat, 8);
    if items.len() == 0 {
        assert(items.map_values(shown) =~= Seq::<Seq<u8>>::empty());
    } else {
        lemma_item_stream(items.drop_last());
        assert(items.map_values(shown) =~= items.drop_last().map_values(shown).push(
            shown(items.last()),
        ));
        items.drop_last().map_values(shown).lemma_flatten_push(shown(items.last()));
    }
}

proof fn lemma_entry_stream(entries: Seq<(Seq<char>, ValueModel)>)
    ensures
        entry_stream(entries) == entries.map_values(
            |entry: (Seq<char>, ValueModel)|
                encode_utf8(entry.0) + seq![0xffu8] + le_bytes(value_hash(entry.1) as nat, 8),
        ).flatten(),
    decreases entries.len(),
{
    let shown = |entry: (Seq<char>, ValueModel)|
        encode_utf8(entry.0) + seq![0xffu8] + le_bytes(value_hash(entry.1) as nat, 8);
    if entries.len() == 0 {
        assert(entries.map_values(shown) =~= Seq::<Seq<u8>>::empty());
    } else {
        let front = entries.drop_last();
        lemma_entry_stream(front);
        assert(entries.map_values(shown) =~= front.map_values(shown).push(shown(entries.last())));
        front.map_values(shown).lemma_flatten_push(shown(entries.last()));
        assert(entry_stream(entries) =~= entry_stream(front) + shown(entries.last()));
    }
}

/// An array is hashed as its tag and the hashes of its elements, an object as its
/// tag and its keys with the hashes of their values, in their order.
pub proof fn law_nested_values_are_hashed_by_their_hashes(
    value: PropertyValue,
    hash: u64,
    hashes: Seq<u64>,
)
    requires
        call_ensures(hash_property_value_component, (&value,), hash),
        value is Array ==> hashes.len() == value->Array_0@.len() && forall|i: int|
            0 <= i < hashes.len() ==> call_ensures(
                hash_property_value_component,
                (&value->Array_0@[i],),
                #[trigger] hashes[i],
            ),
        value is Object ==> hashes.len() == value->Object_0@.len() && forall|i: int|
            0 <= i < hashes.len() ==> call_ensures(
                hash_property_value_component,
                (&value->Object_0@[i].1,),
                #[trigger] hashes[i],
            ),
    ensures
        value is Array ==> hash == sip13_of(
            0,
            0,
            seq![12u8] + hashes.map_values(|inner: u64| le_bytes(inner as nat, 8)).flatten(),
        ),
        value is Object ==> hash == sip13_of(
            0,
            0,
            seq![13u8] + Seq::new(
                hashes.len(),
                |i: int|
                    encode_utf8(value->Object_0@[i].0@) + seq![0xffu8] + le_bytes(
                        hashes[i] as nat,
                        8,
                    ),
            ).flatten(),
        ),
{
    match value {
        PropertyValue::Array(items) => {
            let models = value.model()->Array_0;
            lemma_item_stream(models);
            assert(models.map_values(|item: ValueModel| le_bytes(value_hash(item) as nat, 8))
                =~= hashes.map_values(|inner: u64| le_bytes(inner as nat, 8))) by {
                assert forall|i: int| 0 <= i < models.len() implies value_hash(
                    #[trigger] models[i],
                ) == hashes[i] by {
                    assert(models[i] == items@[i].model());
                }
            }
        },
        PropertyValue::Object(entries) => {
            let models = value.model()->Object_0;
            lemma_entry_stream(models);
            let shown = Seq::new(
                hashes.len(),
                |i: int|
                    encode_utf8(entries@[i].0@) + seq![0xffu8] + le_bytes(hashes[i] as nat, 8),
            );
            assert(models.map_values(
                |entry: (Seq<char>, ValueModel)|
                    encode_utf8(entry.0) + seq![0xffu8] + le_bytes(value_hash(entry.1) as nat, 8),
            ) =~= shown) by {
                assert forall|i: int| 0 <= i < models.len() implies (#[trigger] models[i]).0
                    == entries@[i].0@ && value_hash(models[i].1) == hashes[i] by {
                    assert(models[i] == (entries@[i].0@, entries@[i].1.model()));
                    assert(call_ensures(
                        hash_property_value_component,
                        (&entries@[i].1,),
                        hashes[i],
                    ));
                }
            }
        },
        _ => {},
    }
}

/// Every value has the name of its kind, and a secondary index holds all kinds but
/// nested arrays and objects.
pub proof fn law_kinds_are_named(value: PropertyValue, name: &'static str, indexable: bool)
    requires
        call_ensures(property_value_type_name, (&value,), name),
        call_ensures(property_value_is_secondary_indexable, (&value,), indexable),
    ensures
        indexable <==> !(value is Array) && !(value is Object),
        value is Null ==> name@ == "Null"@,
        value is Bool ==> name@ == "Bool"@,
        value is I64 ==> name@ == "I64"@,
        value is DateTime ==> name@ == "DateTime"@,
        value is F64 ==> name@ == "F64"@,
        value is F32 ==> name@ == "F32"@,
        value is String ==> name@ == "String"@,
        value is Bytes ==> name@ == "Bytes"@,
        value is I64Array ==> name@ == "I64Array"@,
        value is F64Array ==> name@ == "F64Array"@,
        value is F32Array ==> name@ == "F32Array"@,
        value is StringArray ==> name@ == "StringArray"@,
        value is Array ==> name@ == "Array"@,
        value is Object ==> name@ == "Object"@,
{
}

proof fn lemma_decimal_fits(value: nat, width: nat)
    requires
        value < vstd::arithmetic::power::pow(10, width),
        width > 0,
    ensures
        decimal(value).len() <= width,
    decreases width,
{
    if value >= 10 {
        vstd::arithmetic::power::lemma_pow1(10);
        assert(width > 1) by {
            if width == 1 {
                assert(vstd::arithmetic::power::pow(10, 1) == 10);
            }
        }
        let below = vstd::arithmetic::power::pow(10, (width - 1) as nat);
        vstd::arithmetic::power::lemma_pow_adds(10, 1, (width - 1) as nat);
        assert(value / 10 < below) by (nonlinear_arith)
            requires
                value < 10 * below,
        ;
        lemma_decimal_fits(value / 10, (width - 1) as nat);
    }
}

proof fn lemma_leading_zeros(count: int, digits: Seq<char>)
    requires
        count >= 0,
    ensures
        number_of(zeros(count) + digits) == number_of(digits),
    decreases digits.len(), count,
{
    let whole = zeros(count) + digits;
    if digits.len() > 0 {
        lemma_leading_zeros(count, digits.drop_last());
        assert(whole.drop_last() =~= zeros(count) + digits.drop_last());
    } else if count > 0 {
        lemma_leading_zeros(count - 1, digits);
        assert(whole.drop_last() =~= zeros(count - 1) + digits);
        assert(whole.last() == '0');
    } else {
        assert(whole =~= digits);
    }
}

/// An integer is filed in twenty characters: a minus sign if it is negative, and
/// digits that spell its size.
pub proof fn law_integers_are_filed_in_twenty_characters(value: i64, text: IndexText)
    requires
        call_ensures(property_value_to_index_string, (&PropertyValue::I64(value),), text),
    ensures
        text is Text,
        text->Text_0@.len() == 20,
        value < 0 <==> text->Text_0@[0] == '-',
        value < 0 ==> number_of(text->Text_0@.skip(1)) == -value,
        value >= 0 ==> number_of(text->Text_0@) == value,
{
    let size = if value < 0 {
        (-value) as nat
    } else {
        value as nat
    };
    vstd::arithmetic::power::lemma_pow1(10);
    assert(vstd::arithmetic::power::pow(10, 19) == 10_000_000_000_000_000_000) by {
        reveal_with_fuel(vstd::arithmetic::power::pow, 20);
    }
    lemma_decimal_fits(size, 19);
    lemma_decimal(size);
    let digits = decimal(size);
    let filed = text->Text_0@;
    assert(filed == padded_number(value));
    if value < 0 {
        lemma_leading_zeros(19 - digits.len(), digits);
        assert(filed.skip(1) =~= zeros(19 - digits.len()) + digits);
        assert(filed[0] == '-');
    } else {
        lemma_leading_zeros(20 - digits.len(), digits);
        assert(filed[0] == '0');
    }
}

/// A text is filed as it is, and every other value by what identifies it: truth
/// values by name, floats and times by their number, lists by their kind and
/// length.
pub proof fn law_values_are_filed_by_content(value: PropertyValue, text: IndexText)
    requires
        call_ensures(property_value_to_index_string, (&value,), text),
    ensures
        value is DateTime <==> text is DateTime,
        value is DateTime ==> text->DateTime_0 == value->DateTime_0,
        value is F64 || value is F32 <==> text is Float,
        value is F64 ==> text->Float_0 == value->F64_0,
        value is F32 ==> text->Float_0 == value->F32_0,
        value is String ==> text->Text_0@ == value->String_0@,
        value is Null ==> text->Text_0@ == "null"@,
        value is Bool ==> text->Text_0@ == if value->Bool_0 {
            "true"@
        } else {
            "false"@
        },
        value is I64Array ==> text->Text_0@ == "<"@ + "i64"@ + "["@ + decimal(
            value->I64Array_0@.len(),
        ) + "]>"@,
        value is F64Array ==> text->Text_0@ == "<"@ + "f64"@ + "["@ + decimal(
            value->F64Array_0@.len(),
        ) + "]>"@,
        value is F32Array ==> text->Text_0@ == "<"@ + "f32"@ + "["@ + decimal(
            value->F32Array_0@.len(),
        ) + "]>"@,
        value is StringArray ==> text->Text_0@ == "<"@ + "str"@ + "["@ + decimal(
            value->StringArray_0@.len(),
        ) + "]>"@,
        value is Array ==> text->Text_0@ == "<"@ + "array"@ + "["@ + decimal(
            value->Array_0@.len(),
        ) + "]>"@,
        value is Object ==> text->Text_0@ == "<"@ + "object"@ + "["@ + decimal(
            value->Object_0@.len(),
        ) + "]>"@,
        value is Bytes && value->Bytes_0@.len() == 0 ==> text->Text_0@ == "<bytes:["@ + "]>"@,
        value is Bytes && value->Bytes_0@.len() > 0 ==> text->Text_0@ == "<bytes:["@ + (decimal(
            value->Bytes_0@[0] as nat,
        ) + value->Bytes_0@.skip(1).map_values(
            |byte: u8| ", "@ + decimal(byte as nat),
        ).flatten()) + "]>"@,
{
    match value {
        PropertyValue::Bytes(bytes) => {
            if bytes@.len() == 0 {
                assert("<bytes:["@ + listed_bytes(bytes@) + "]>"@ =~= "<bytes:["@ + "]>"@);
            } else {
                lemma_listed_bytes(bytes@);
            }
        },
        PropertyValue::StringArray(values) => {
            assert(texts(values@).len() == values@.len());
        },
        _ => {},
    }
}

proof fn lemma_listed_bytes(bytes: Seq<u8>)
    requires
        bytes.len() > 0,
    ensures
        listed_bytes(bytes) == decimal(bytes[0] as nat) + bytes.skip(1).map_values(
            |byte: u8| ", "@ + decimal(byte as nat),
        ).flatten(),
    decreases bytes.len(),
{
    let shown = |byte: u8| ", "@ + decimal(byte as nat);
    if bytes.len() == 1 {
        assert(bytes.skip(1).map_values(shown) =~= Seq::<Seq<char>>::empty());
        assert(listed_bytes(bytes) =~= decimal(bytes[0] as nat) + Seq::<char>::empty());
    } else {
        let front = bytes.drop_last();
        lemma_listed_bytes(front);
        assert(bytes.skip(1).map_values(shown) =~= front.skip(1).map_values(shown).push(
            shown(bytes.last()),
        ));
        front.skip(1).map_values(shown).lemma_flatten_push(shown(bytes.last()));
        assert(listed_bytes(bytes) =~= decimal(bytes[0] as nat) + (front.skip(1).map_values(
            shown,
        ).flatten() + shown(bytes.last())));
    }
}

} // verus!
