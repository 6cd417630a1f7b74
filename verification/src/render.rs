//! Decimal and hexadecimal text.

use vstd::prelude::*;

verus! {

/// `String::push` of std: documented to append the character to the end of
/// the string.
pub assume_specification[ std::string::String::push ](
    string: &mut std::string::String,
    character: char,
)
    ensures
        final(string)@ == old(string)@.push(character),
;

/// The lower-case digit with value `value`, for bases up to sixteen.
pub open spec fn digit_char(value: int) -> char {
    if value == 0 {
        '0'
    } else if value == 1 {
        '1'
    } else if value == 2 {
        '2'
    } else if value == 3 {
        '3'
    } else if value == 4 {
        '4'
    } else if value == 5 {
        '5'
    } else if value == 6 {
        '6'
    } else if value == 7 {
        '7'
    } else if value == 8 {
        '8'
    } else if value == 9 {
        '9'
    } else if value == 10 {
        'a'
    } else if value == 11 {
        'b'
    } else if value == 12 {
        'c'
    } else if value == 13 {
        'd'
    } else if value == 14 {
        'e'
    } else {
        'f'
    }
}

/// The lower-case digit with value `value`.
pub fn digit_of(value: u64) -> (digit: char)
    requires
        value < 16,
    ensures
        digit == digit_char(value as int),
{
    match value {
        0 => '0',
        1 => '1',
        2 => '2',
        3 => '3',
        4 => '4',
        5 => '5',
        6 => '6',
        7 => '7',
        8 => '8',
        9 => '9',
        10 => 'a',
        11 => 'b',
        12 => 'c',
        13 => 'd',
        14 => 'e',
        _ => 'f',
    }
}

/// The decimal digits of `value`, without leading zeros.
pub open spec fn decimal(value: nat) -> Seq<char>
    decreases value,
{
    if value < 10 {
        seq![digit_char(value as int)]
    } else {
        decimal(value / 10).push(digit_char((value % 10) as int))
    }
}

/// The decimal digits of `value`.
pub fn decimal_string(value: u64) -> (text: String)
    ensures
        text@ == decimal(value as nat),
    decreases value,
{
    if value < 10 {
        let mut text = String::new();
        text.push(digit_of(value));
        assert(text@ =~= decimal(value as nat));
        text
    } else {
        let mut text = decimal_string(value / 10);
        text.push(digit_of(value % 10));
        text
    }
}

/// The low `width` hexadecimal digits of `value`, most significant first.
pub open spec fn hex_fixed(value: nat, width: nat) -> Seq<char>
    decreases width,
{
    if width == 0 {
        Seq::empty()
    } else {
        hex_fixed(value / 16, (width - 1) as nat).push(digit_char((value % 16) as int))
    }
}

/// `value` as `width` hexadecimal digits.
pub fn hex_fixed_string(value: u64, width: u64) -> (text: String)
    ensures
        text@ == hex_fixed(value as nat, width as nat),
    decreases width,
{
    if width == 0 {
        let text = String::new();
        assert(text@ =~= hex_fixed(value as nat, width as nat));
        text
    } else {
        let mut text = hex_fixed_string(value / 16, width - 1);
        text.push(digit_of(value % 16));
        text
    }
}

/// Two lower-case hexadecimal digits per byte.
pub open spec fn hex_of_bytes(bytes: Seq<u8>) -> Seq<char> {
    Seq::new(
        2 * bytes.len(),
        |i: int|
            if i % 2 == 0 {
                digit_char(bytes[i / 2] as int / 16)
            } else {
                digit_char(bytes[i / 2] as int % 16)
            },
    )
}

/// Two lower-case hexadecimal digits per byte.
pub fn hex_string(bytes: &[u8]) -> (text: String)
    ensures
        text@ == hex_of_bytes(bytes@),
{
    let mut text = String::new();
    let mut i: usize = 0;
    while i < bytes.len()
        invariant
            i <= bytes.len(),
            text@ =~= hex_of_bytes(bytes@.take(i as int)),
        decreases bytes.len() - i,
    {
        let byte: u64 = bytes[i] as u64;
        text.push(digit_of(byte / 16));
        text.push(digit_of(byte % 16));
        proof {
            let before = hex_of_bytes(bytes@.take(i as int));
            let after = hex_of_bytes(bytes@.take(i as int + 1));
            assert forall|k: int| 0 <= k < after.len() implies text@[k] == after[k] by {
                if k < before.len() {
                    assert(before[k] == after[k]);
                }
            }
        }
        i = i + 1;
    }
    assert(bytes@.take(i as int) =~= bytes@);
    text
}

/// The text that the characters spell.
pub fn text_of_chars(characters: &Vec<char>) -> (text: String)
    ensures
        text@ == characters@,
{
    let mut text = String::new();
    let mut i: usize = 0;
    while i < characters.len()
        invariant
            i <= characters.len(),
            text@ =~= characters@.take(i as int),
        decreases characters.len() - i,
    {
        text.push(characters[i]);
        i = i + 1;
    }
    assert(characters@.take(i as int) =~= characters@);
    text
}

/// The value of a lower-case hexadecimal digit.
pub open spec fn digit_value(digit: char) -> int {
    if '0' as int <= digit as int <= '9' as int {
        digit as int - '0' as int
    } else {
        digit as int - 'a' as int + 10
    }
}

/// The number that decimal digits spell.
pub open spec fn number_of(digits: Seq<char>) -> int
    decreases digits.len(),
{
    if digits.len() == 0 {
        0
    } else {
        number_of(digits.drop_last()) * 10 + digit_value(digits.last())
    }
}

/// The number that hexadecimal digits spell.
pub open spec fn hex_number_of(digits: Seq<char>) -> int
    decreases digits.len(),
{
    if digits.len() == 0 {
        0
    } else {
        hex_number_of(digits.drop_last()) * 16 + digit_value(digits.last())
    }
}

/// Digits are the characters from `0` to `9` and then those from `a`.
pub proof fn law_digits_have_their_value(value: u64, digit: char)
    requires
        value < 16,
        call_ensures(digit_of, (value,), digit),
    ensures
        value < 10 ==> digit as int == '0' as int + value,
        value >= 10 ==> digit as int == 'a' as int + (value - 10),
        digit_value(digit) == value,
{
}

/// Decimal digits spell their number, without leading zeros.
pub proof fn lemma_decimal(value: nat)
    ensures
        number_of(decimal(value)) == value,
        decimal(value).len() > 0,
        decimal(value).len() > 1 ==> decimal(value)[0] != '0',
        value > 0 ==> decimal(value)[0] != '0',
        forall|i: int|
            0 <= i < decimal(value).len() ==> '0' as int <= #[trigger] decimal(value)[i] as int
                <= '9' as int,
    decreases value,
{
    let digits = decimal(value);
    if value < 10 {
        assert(digits.drop_last() =~= Seq::<char>::empty());
        assert(number_of(digits.drop_last()) == 0);
    } else {
        lemma_decimal(value / 10);
        assert(digits.drop_last() =~= decimal(value / 10));
        assert(digits.last() == digit_char((value % 10) as int));
        assert(digits[0] == decimal(value / 10)[0]);
        assert forall|i: int| 0 <= i < digits.len() implies '0' as int <= #[trigger] digits[i] as int
            <= '9' as int by {
            if i < digits.len() - 1 {
                assert(digits[i] == decimal(value / 10)[i]);
            }
        }
    }
}

/// A number is written in decimal digits that spell it, without leading zeros.
pub proof fn law_decimals_spell_their_number(value: u64, text: String)
    requires
        call_ensures(decimal_string, (value,), text),
    ensures
        number_of(text@) == value,
        text@.len() > 0,
        text@.len() > 1 ==> text@[0] != '0',
        forall|i: int|
            0 <= i < text@.len() ==> '0' as int <= #[trigger] text@[i] as int <= '9' as int,
{
    lemma_decimal(value as nat);
}

proof fn lemma_hex_fixed(value: nat, width: nat)
    ensures
        hex_fixed(value, width).len() == width,
        value < vstd::arithmetic::power::pow(16, width) ==> hex_number_of(hex_fixed(value, width))
            == value,
    decreases width,
{
    if width == 0 {
        vstd::arithmetic::power::lemma_pow0(16);
    } else {
        lemma_hex_fixed(value / 16, (width - 1) as nat);
        let digits = hex_fixed(value, width);
        assert(digits.drop_last() =~= hex_fixed(value / 16, (width - 1) as nat));
        vstd::arithmetic::power::lemma_pow_adds(16, 1, (width - 1) as nat);
        vstd::arithmetic::power::lemma_pow1(16);
        let below = vstd::arithmetic::power::pow(16, (width - 1) as nat);
        if value < 16 * below {
            assert((value / 16) < below) by (nonlinear_arith)
                requires
                    value < 16 * below,
            ;
        }
    }
}

/// A number that fits is written in the given number of hexadecimal digits, which
/// spell it.
pub proof fn law_fixed_digits_spell_their_number(value: u64, width: u64, text: String)
    requires
        call_ensures(hex_fixed_string, (value, width), text),
    ensures
        text@.len() == width,
        value < vstd::arithmetic::power::pow(16, width as nat) ==> hex_number_of(text@) == value,
{
    lemma_hex_fixed(value as nat, width as nat);
}

/// Every byte is written in two digits, in the order of the bytes, the higher
/// digit first.
pub proof fn law_bytes_are_written_in_two_digits(bytes: &[u8], text: String)
    requires
        call_ensures(hex_string, (bytes,), text),
    ensures
        text@.len() == 2 * bytes@.len(),
        forall|i: int|
            0 <= i < bytes@.len() ==> #[trigger] bytes@[i] == 16 * digit_value(text@[2 * i])
                + digit_value(text@[2 * i + 1]),
{
    assert forall|i: int| 0 <= i < bytes@.len() implies #[trigger] bytes@[i] == 16 * digit_value(
        text@[2 * i],
    ) + digit_value(text@[2 * i + 1]) by {
        assert(text@[2 * i] == digit_char(bytes@[i] as int / 16));
        assert(text@[2 * i + 1] == digit_char(bytes@[i] as int % 16));
    }
}

/// A text has the characters that it is made of, in their order.
pub proof fn law_texts_have_their_characters(characters: Vec<char>, text: String)
    requires
        call_ensures(text_of_chars, (&characters,), text),
    ensures
        text@.len() == characters@.len(),
        forall|i: int| 0 <= i < characters@.len() ==> #[trigger] text@[i] == characters@[i],
{
}

} // verus!
