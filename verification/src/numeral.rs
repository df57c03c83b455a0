//! Further spellings of numbers: hexadecimal, octal, padded, signed, and seconds.

use vstd::prelude::*;

use crate::digest::hex_digit;
use crate::text::{all_digits, decimal, decimal_text, digits_value, is_digit, join, join3};

verus! {

/// The hexadecimal spelling of a number, without leading zeros.
pub open spec fn hexadecimal(value: nat) -> Seq<char>
    decreases value,
{
    if value < 16 {
        seq![hex_digit(value as u8)]
    } else {
        hexadecimal(value / 16).push(hex_digit((value % 16) as u8))
    }
}

/// The text with zeros in front of it, to at least the given width.
pub open spec fn zero_padded(text: Seq<char>, width: nat) -> Seq<char> {
    if text.len() >= width {
        text
    } else {
        Seq::new((width - text.len()) as nat, |i: int| '0') + text
    }
}

/// `0x` and the hexadecimal spelling.
pub open spec fn hex_number(value: nat) -> Seq<char> {
    "0x"@ + hexadecimal(value)
}

/// `0x` and at least four hexadecimal digits.
pub open spec fn hex_word(value: nat) -> Seq<char> {
    "0x"@ + zero_padded(hexadecimal(value), 4)
}

/// The decimal spelling of an integer, with a minus sign when it is negative.
pub open spec fn signed_decimal(value: int) -> Seq<char> {
    if value < 0 {
        "-"@ + decimal((-value) as nat)
    } else {
        decimal(value as nat)
    }
}

/// Nanoseconds of a second.
pub const NANOS_PER_SECOND: u64 = 1_000_000_000;

/// A number of nanoseconds as seconds with nine decimal places, and a minus
/// sign when it is negative.
pub open spec fn seconds_text(nanoseconds: int) -> Seq<char> {
    let magnitude = if nanoseconds < 0 {
        (-nanoseconds) as nat
    } else {
        nanoseconds as nat
    };
    let text = decimal(magnitude / (NANOS_PER_SECOND as nat)) + "."@ + zero_padded(
        decimal(magnitude % (NANOS_PER_SECOND as nat)),
        9,
    );
    if nanoseconds < 0 {
        "-"@ + text
    } else {
        text
    }
}

/// Spells a number in hexadecimal.
pub fn hexadecimal_text(value: u64) -> (text: String)
    ensures
        text@ == hexadecimal(value as nat),
    decreases value,
{
    let digit: u8 = (value % 16) as u8;
    let last: char = if digit < 10 {
        (48u8 + digit) as char
    } else {
        (87u8 + digit) as char
    };
    if value < 16 {
        let mut text = String::new();
        text.push(last);
        assert(text@ =~= seq![hex_digit(value as u8)]);
        text
    } else {
        let mut text = hexadecimal_text(value / 16);
        text.push(last);
        text
    }
}

/// Puts zeros in front of a text, to at least the given width.
pub fn pad_zeros(text: &str, width: usize) -> (padded: String)
    ensures
        padded@ == zero_padded(text@, width as nat),
{
    let length: usize = crate::text::chars_of(text).len();
    if length >= width {
        return text.to_owned();
    }
    let mut zeros = String::new();
    let mut i: usize = 0;
    while i < width - length
        invariant
            length < width,
            i <= width - length,
            zeros@ =~= Seq::new(i as nat, |j: int| '0'),
        decreases width - length - i,
    {
        zeros.push('0');
        i += 1;
    }
    join(&zeros, text)
}

pub fn hex_number_text(value: u64) -> (text: String)
    ensures
        text@ == hex_number(value as nat),
{
    join("0x", &hexadecimal_text(value))
}

pub fn hex_word_text(value: u64) -> (text: String)
    ensures
        text@ == hex_word(value as nat),
{
    join("0x", &pad_zeros(&hexadecimal_text(value), 4))
}

pub fn signed_decimal_text(value: i64) -> (text: String)
    ensures
        text@ == signed_decimal(value as int),
{
    if value < 0 {
        if value == i64::MIN {
            return join("-", &decimal_text(9_223_372_036_854_775_808));
        }
        join("-", &decimal_text((-value) as u64))
    } else {
        decimal_text(value as u64)
    }
}

/// Spells a number of nanoseconds as seconds.
pub fn spell_seconds(nanoseconds: i128) -> (text: String)
    requires
        -0x1_0000_0000_0000_0000 * NANOS_PER_SECOND < nanoseconds < 0x1_0000_0000_0000_0000
            * NANOS_PER_SECOND,
    ensures
        text@ == seconds_text(nanoseconds as int),
{
    let magnitude: u128 = if nanoseconds < 0 {
        (-nanoseconds) as u128
    } else {
        nanoseconds as u128
    };
    let whole: u64 = (magnitude / 1_000_000_000) as u64;
    let rest: u64 = (magnitude % 1_000_000_000) as u64;
    let text = join3(&decimal_text(whole), ".", &pad_zeros(&decimal_text(rest), 9));
    if nanoseconds < 0 {
        join("-", &text)
    } else {
        text
    }
}

/// A decimal spelling spells its number.
pub proof fn lemma_decimal_value(value: nat)
    ensures
        digits_value(decimal(value)) == value,
    decreases value,
{
    let text = decimal(value);
    if value < 10 {
        assert(text.drop_last() =~= Seq::<char>::empty());
        assert(digits_value(text.drop_last()) == 0);
    } else {
        lemma_decimal_value(value / 10);
        assert(text.drop_last() =~= decimal(value / 10));
    }
}

/// Zeros in front of digits do not change the number.
pub proof fn lemma_padding_keeps_the_value(digits: Seq<char>, width: nat)
    requires
        all_digits(digits),
    ensures
        all_digits(zero_padded(digits, width)),
        digits_value(zero_padded(digits, width)) == digits_value(digits),
        zero_padded(digits, width).len() == if digits.len() < width {
            width
        } else {
            digits.len()
        },
{
    if digits.len() < width {
        lemma_leading_zeros(digits, (width - digits.len()) as nat);
        let zeros = Seq::new((width - digits.len()) as nat, |i: int| '0');
        assert forall|i: int| 0 <= i < (zeros + digits).len() implies is_digit(
            #[trigger] (zeros + digits)[i],
        ) by {
            if i >= zeros.len() {
                assert((zeros + digits)[i] == digits[i - zeros.len()]);
            }
        }
    }
}

proof fn lemma_leading_zeros(digits: Seq<char>, count: nat)
    ensures
        digits_value(Seq::new(count, |i: int| '0') + digits) == digits_value(digits),
    decreases digits.len(), count,
{
    let zeros = Seq::new(count, |i: int| '0');
    let text = zeros + digits;
    if digits.len() > 0 {
        lemma_leading_zeros(digits.drop_last(), count);
        assert(text.drop_last() =~= zeros + digits.drop_last());
    } else if count > 0 {
        lemma_leading_zeros(digits, (count - 1) as nat);
        assert(text.drop_last() =~= Seq::new((count - 1) as nat, |i: int| '0') + digits);
        assert(text.last() == '0');
        assert(digits_value(digits) == 0);
    }
}

/// A larger number is spelled with at least as many digits.
pub proof fn lemma_decimal_grows(small: nat, large: nat)
    requires
        small <= large,
    ensures
        1 <= decimal(small).len() <= decimal(large).len(),
    decreases large,
{
    if large >= 10 {
        if small >= 10 {
            lemma_decimal_grows(small / 10, large / 10);
        } else {
            lemma_decimal_grows(0, large / 10);
        }
    }
}

/// A number has no more than half as many digits as its value, and one.
pub proof fn lemma_decimal_is_short(value: nat)
    ensures
        decimal(value).len() <= value / 2 + 1,
    decreases value,
{
    if value >= 10 {
        lemma_decimal_is_short(value / 10);
    }
}

/// A machine word has at most twenty decimal digits.
pub proof fn lemma_decimal_word(value: u64)
    ensures
        decimal(value as nat).len() <= 20,
{
    reveal_with_fuel(decimal, 21);
    lemma_decimal_grows(value as nat, 0xffff_ffff_ffff_ffff);
}

/// Every character of a decimal spelling is an ASCII digit.
pub proof fn lemma_decimal_digits(value: nat)
    ensures
        all_digits(decimal(value)),
    decreases value,
{
    if value >= 10 {
        lemma_decimal_digits(value / 10);
        let shorter = decimal(value / 10);
        assert forall|i: int| 0 <= i < decimal(value).len() implies is_digit(
            #[trigger] decimal(value)[i],
        ) by {
            if i < shorter.len() {
                assert(decimal(value)[i] == shorter[i]);
            }
        }
    }
}

/// A number in decimal has digits alone, no leading zero, and is read as itself.
pub proof fn law_decimal_reads_back(value: nat)
    ensures
        all_digits(decimal(value)),
        digits_value(decimal(value)) == value,
        decimal(value).len() >= 1,
        value > 0 ==> decimal(value)[0] != '0',
        signed_decimal(value as int) == decimal(value),
        value > 0 ==> signed_decimal(-value) == seq!['-'] + decimal(value),
    decreases value,
{
    lemma_decimal_digits(value);
    lemma_decimal_value(value);
    lemma_decimal_grows(0, value);
    reveal_strlit("-");
    assert("-"@ =~= seq!['-']);
    if value >= 10 {
        law_decimal_reads_back(value / 10);
    }
}

/// What hexadecimal digits say.
pub open spec fn hexadecimal_value(text: Seq<char>) -> nat
    decreases text.len(),
{
    if text.len() == 0 {
        0
    } else {
        let last = text.last();
        hexadecimal_value(text.drop_last()) * 16 + if '0' <= last <= '9' {
            (last as nat - 48) as nat
        } else if 'a' <= last <= 'f' {
            (last as nat - 87) as nat
        } else {
            0
        }
    }
}

/// A number in hexadecimal says that number, with `0x` in front, and in at least
/// four digits where it is a word.
pub proof fn law_hexadecimal_reads_back(value: nat)
    ensures
        hexadecimal_value(hexadecimal(value)) == value,
        hexadecimal(value).len() >= 1,
        value > 0 ==> hexadecimal(value)[0] != '0',
        hex_number(value) == seq!['0', 'x'] + hexadecimal(value),
        hex_word(value).take(2) == seq!['0', 'x'],
        hexadecimal_value(hex_word(value).skip(2)) == value,
        hex_word(value).len() >= 6,
        value >= 0x1000 ==> hex_word(value) == hex_number(value),
    decreases value,
{
    reveal_strlit("0x");
    assert("0x"@ =~= seq!['0', 'x']);
    let text = hexadecimal(value);
    let last = (value % 16) as u8;
    assert(text.last() == hex_digit(last));
    if value >= 16 {
        law_hexadecimal_reads_back(value / 16);
        assert(text.drop_last() =~= hexadecimal(value / 16));
        assert(value == (value / 16) * 16 + value % 16) by (nonlinear_arith);
    } else {
        assert(text.drop_last() =~= Seq::<char>::empty());
        reveal_with_fuel(hexadecimal_value, 2);
    }
    assert(hex_word(value).skip(2) =~= zero_padded(text, 4));
    assert(hex_word(value).take(2) =~= "0x"@);
    if text.len() < 4 {
        lemma_leading_hexadecimal_zeros(text, (4 - text.len()) as nat);
    }
    if value >= 0x1000 {
        reveal_with_fuel(hexadecimal, 4);
        law_hexadecimal_reads_back(value / 16);
        law_hexadecimal_reads_back(value / 16 / 16);
        law_hexadecimal_reads_back(value / 16 / 16 / 16);
        assert(text.len() >= 4);
    }
}

proof fn lemma_leading_hexadecimal_zeros(digits: Seq<char>, count: nat)
    ensures
        hexadecimal_value(Seq::new(count, |i: int| '0') + digits) == hexadecimal_value(digits),
    decreases digits.len(), count,
{
    let text = Seq::new(count, |i: int| '0') + digits;
    if digits.len() > 0 {
        lemma_leading_hexadecimal_zeros(digits.drop_last(), count);
        assert(text.drop_last() =~= Seq::new(count, |i: int| '0') + digits.drop_last());
    } else if count > 0 {
        let fewer = (count - 1) as nat;
        lemma_leading_hexadecimal_zeros(digits, fewer);
        assert(text.drop_last() =~= Seq::new(fewer, |i: int| '0') + digits);
    } else {
        assert(text =~= digits);
    }
}

} // verus!
