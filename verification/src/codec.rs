//! Fixed-width integers as bytes.

use vstd::arithmetic::div_mod::lemma_div_denominator;
use vstd::arithmetic::power::{lemma_pow0, lemma_pow1, lemma_pow_adds, lemma_pow_positive, pow};
use vstd::prelude::*;

verus! {

/// The low `width` bytes of `value`, least significant first.
pub open spec fn le_bytes(value: nat, width: nat) -> Seq<u8>
    decreases width,
{
    if width == 0 {
        Seq::empty()
    } else {
        seq![(value % 256) as u8] + le_bytes(value / 256, (width - 1) as nat)
    }
}

/// The low `width` bytes of `value`, most significant first.
pub open spec fn be_bytes(value: nat, width: nat) -> Seq<u8>
    decreases width,
{
    if width == 0 {
        Seq::empty()
    } else {
        be_bytes(value / 256, (width - 1) as nat).push((value % 256) as u8)
    }
}

/// The number whose big-endian bytes are `bytes`.
pub open spec fn be_value(bytes: Seq<u8>) -> nat
    decreases bytes.len(),
{
    if bytes.len() == 0 {
        0
    } else {
        be_value(bytes.drop_last()) * 256 + bytes.last() as nat
    }
}

/// Appends the low `width` bytes of `value`, least significant first.
pub fn push_le(out: &mut Vec<u8>, value: u64, width: u64)
    ensures
        final(out)@ == old(out)@ + le_bytes(value as nat, width as nat),
{
    let ghost before = out@;
    let mut rest: u64 = value;
    let mut left: u64 = width;
    assert(out@ + le_bytes(rest as nat, left as nat) =~= before + le_bytes(
        value as nat,
        width as nat,
    ));
    while left > 0
        invariant
            out@ + le_bytes(rest as nat, left as nat) == before + le_bytes(
                value as nat,
                width as nat,
            ),
        decreases left,
    {
        let ghost written = out@;
        let low: u8 = (rest % 256) as u8;
        out.push(low);
        assert(out@ + le_bytes((rest / 256) as nat, (left - 1) as nat) =~= written + le_bytes(
            rest as nat,
            left as nat,
        ));
        rest = rest / 256;
        left = left - 1;
    }
    assert(out@ + le_bytes(rest as nat, 0) =~= out@);
}

/// The low `width` bytes of `value`, most significant first.
pub fn be_vec(value: u128, width: u64) -> (bytes: Vec<u8>)
    ensures
        bytes@ == be_bytes(value as nat, width as nat),
    decreases width,
{
    if width == 0 {
        let bytes: Vec<u8> = Vec::new();
        assert(bytes@ =~= be_bytes(value as nat, 0));
        bytes
    } else {
        let mut bytes = be_vec(value / 256, width - 1);
        bytes.push((value % 256) as u8);
        bytes
    }
}

/// Appends the low `width` bytes of `value`, most significant first.
pub fn push_be(out: &mut Vec<u8>, value: u128, width: u64)
    ensures
        final(out)@ == old(out)@ + be_bytes(value as nat, width as nat),
{
    let mut tail = be_vec(value, width);
    out.append(&mut tail);
}

/// The number whose big-endian bytes are the sixteen given ones.
pub fn be_u128(bytes: &[u8]) -> (value: u128)
    requires
        bytes@.len() == 16,
    ensures
        value as nat == be_value(bytes@),
{
    let mut value: u128 = 0;
    let mut i: usize = 0;
    while i < bytes.len()
        invariant
            i <= bytes.len(),
            bytes@.len() == 16,
            value as nat == be_value(bytes@.take(i as int)),
            value < power256(i as nat),
        decreases bytes.len() - i,
    {
        proof {
            lemma_power256_bound(i as nat);
            assert(bytes@.take(i as int + 1).drop_last() =~= bytes@.take(i as int));
        }
        value = value * 256 + bytes[i] as u128;
        i = i + 1;
    }
    assert(bytes@.take(i as int) =~= bytes@);
    value
}

/// How many values `width` bytes can hold.
pub open spec fn power256(width: nat) -> nat
    decreases width,
{
    if width == 0 {
        1
    } else {
        256 * power256((width - 1) as nat)
    }
}

proof fn lemma_power256_bound(width: nat)
    requires
        width < 16,
    ensures
        power256(width) * 256 == power256(width + 1),
        power256(width) * 256 <= u128::MAX + 1,
{
    reveal_with_fuel(power256, 17);
}

/// Big-endian bytes have the requested width.
pub proof fn lemma_be_bytes_len(value: nat, width: nat)
    ensures
        be_bytes(value, width).len() == width,
    decreases width,
{
    if width > 0 {
        lemma_be_bytes_len(value / 256, (width - 1) as nat);
    }
}

/// Reading big-endian bytes gives back the number, if it fits the width.
pub proof fn law_be_round_trip(value: nat, width: nat)
    requires
        value < power256(width),
    ensures
        be_value(be_bytes(value, width)) == value,
    decreases width,
{
    if width > 0 {
        law_be_round_trip(value / 256, (width - 1) as nat);
        let bytes = be_bytes(value, width);
        assert(bytes.drop_last() =~= be_bytes(value / 256, (width - 1) as nat));
    }
}

/// Big-endian bytes of a number give the bytes back.
pub proof fn lemma_be_value_bytes(bytes: Seq<u8>)
    ensures
        be_bytes(be_value(bytes), bytes.len()) == bytes,
        be_value(bytes) < power256(bytes.len()),
    decreases bytes.len(),
{
    if bytes.len() > 0 {
        let front = bytes.drop_last();
        lemma_be_value_bytes(front);
        let value = be_value(bytes);
        assert(value / 256 == be_value(front));
        assert(value % 256 == bytes.last() as nat);
        assert(be_bytes(value, bytes.len()) =~= front.push(bytes.last()));
        assert(front.push(bytes.last()) =~= bytes);
    } else {
        assert(be_bytes(be_value(bytes), 0) =~= bytes);
    }
}

/// Different numbers that fit a width have different big-endian bytes.
pub proof fn lemma_be_bytes_injective(a: nat, b: nat, width: nat)
    requires
        a < power256(width),
        b < power256(width),
        be_bytes(a, width) == be_bytes(b, width),
    ensures
        a == b,
{
    law_be_round_trip(a, width);
    law_be_round_trip(b, width);
}

/// Dividing by a power of 256 takes that many bytes off.
proof fn lemma_byte_below(value: nat, place: nat)
    requires
        place > 0,
    ensures
        (value / 256) as int / pow(256, (place - 1) as nat) == value as int / pow(256, place),
{
    lemma_pow_positive(256, (place - 1) as nat);
    lemma_pow_adds(256, 1, (place - 1) as nat);
    lemma_pow1(256);
    lemma_div_denominator(value as int, 256, pow(256, (place - 1) as nat));
}

proof fn lemma_le_byte(value: nat, width: nat, at: int)
    requires
        0 <= at < width,
    ensures
        le_bytes(value, width).len() == width,
        le_bytes(value, width)[at] == (value as int / pow(256, at as nat)) % 256,
    decreases width,
{
    lemma_le_len(value, width);
    if at == 0 {
        lemma_pow0(256);
        assert(value as int / 1 == value);
    } else {
        lemma_le_byte(value / 256, (width - 1) as nat, at - 1);
        lemma_byte_below(value, at as nat);
    }
}

proof fn lemma_le_len(value: nat, width: nat)
    ensures
        le_bytes(value, width).len() == width,
    decreases width,
{
    if width > 0 {
        lemma_le_len(value / 256, (width - 1) as nat);
    }
}

proof fn lemma_be_byte(value: nat, width: nat, at: int)
    requires
        0 <= at < width,
    ensures
        be_bytes(value, width).len() == width,
        be_bytes(value, width)[at] == (value as int / pow(256, (width - 1 - at) as nat)) % 256,
    decreases width,
{
    lemma_be_bytes_len(value, width);
    lemma_be_bytes_len(value / 256, (width - 1) as nat);
    if at == width - 1 {
        lemma_pow0(256);
        assert(value as int / 1 == value);
    } else {
        lemma_be_byte(value / 256, (width - 1) as nat, at);
        lemma_byte_below(value, (width - 1 - at) as nat);
    }
}

/// Little-endian bytes go behind what is there, the byte of each power of 256 at
/// the place of that power.
pub proof fn law_low_bytes_come_first(out: &mut Vec<u8>, value: u64, width: u64)
    requires
        call_ensures(push_le, (out, value, width), ()),
    ensures
        final(out)@.len() == old(out)@.len() + width,
        forall|i: int| 0 <= i < old(out)@.len() ==> #[trigger] final(out)@[i] == old(out)@[i],
        forall|i: int|
            0 <= i < width ==> final(out)@[#[trigger] (old(out)@.len() + i)] == (value as int / pow(
                256,
                i as nat,
            )) % 256,
{
    lemma_le_len(value as nat, width as nat);
    assert forall|i: int| 0 <= i < width implies final(out)@[#[trigger] (old(out)@.len() + i)] == (
    value as int / pow(256, i as nat)) % 256 by {
        lemma_le_byte(value as nat, width as nat, i);
    }
}

/// Big-endian bytes go behind what is there, the byte of each power of 256 as far
/// from the end as that power.
pub proof fn law_high_bytes_come_first(
    out: &mut Vec<u8>,
    value: u128,
    width: u64,
    bytes: Vec<u8>,
)
    requires
        call_ensures(push_be, (out, value, width), ()),
        call_ensures(be_vec, (value, width), bytes),
    ensures
        bytes@.len() == width,
        final(out)@ == old(out)@ + bytes@,
        forall|i: int|
            0 <= i < width ==> #[trigger] bytes@[i] == (value as int / pow(
                256,
                (width - 1 - i) as nat,
            )) % 256,
{
    lemma_be_bytes_len(value as nat, width as nat);
    assert forall|i: int| 0 <= i < width implies #[trigger] bytes@[i] == (value as int / pow(
        256,
        (width - 1 - i) as nat,
    )) % 256 by {
        lemma_be_byte(value as nat, width as nat, i);
    }
}

/// The number of sixteen bytes has each of them where its power of 256 is, the
/// first one highest.
pub proof fn law_sixteen_bytes_are_read_from_the_highest(bytes: &[u8], value: u128)
    requires
        bytes@.len() == 16,
        call_ensures(be_u128, (bytes,), value),
    ensures
        forall|i: int|
            0 <= i < 16 ==> #[trigger] bytes@[i] == (value as int / pow(256, (15 - i) as nat))
                % 256,
{
    lemma_be_value_bytes(bytes@);
    assert forall|i: int| 0 <= i < 16 implies #[trigger] bytes@[i] == (value as int / pow(
        256,
        (15 - i) as nat,
    )) % 256 by {
        lemma_be_byte(value as nat, 16, i);
    }
}

} // verus!
