//! One colour channel as a normalized fixed-point literal.
//!
//! A channel byte `v` stands for the fraction `v / 255`. Its literal is that
//! fraction rounded to the nearest multiple of one ten-millionth and written
//! with exactly seven digits after the point: `0.0000000` for 0,
//! `0.5019608` for 128, `1.0000000` for 255.

use vstd::prelude::*;
use vstd::string::*;
use crate::digits::{
    append_decimal, append_padded, decimal_text, digit_char, is_digit, lemma_decimal_text_reads_back,
    lemma_padded_text_reads_back, numeral_value, padded_text, power_of_ten,
};

verus! {

/// Number of digits after the decimal point.
pub const FRACTION_DIGITS: u8 = 7;

/// How many units of the last fractional digit make up one whole.
pub const UNITS_PER_WHOLE: u32 = 10_000_000;

/// The fraction `value / 255` in units of one ten-millionth, rounded to the
/// nearest unit: `value * 10_000_000 / 255`, with numerator and denominator
/// doubled so that adding 255 rounds to nearest.
pub open spec fn channel_units(value: u8) -> nat {
    ((value as nat * 20_000_000 + 255) / 510) as nat
}

/// The literal of a channel byte: the whole part, a point, and seven
/// fractional digits.
pub open spec fn channel_text(value: u8) -> Seq<char> {
    decimal_text(channel_units(value) / UNITS_PER_WHOLE as nat) + seq!['.'] + padded_text(
        channel_units(value) % UNITS_PER_WHOLE as nat,
        FRACTION_DIGITS as nat,
    )
}

/// Whether `text` has the shape of a channel literal: one digit, a point,
/// and seven more digits.
pub open spec fn is_channel_literal(text: Seq<char>) -> bool {
    &&& text.len() == 2 + FRACTION_DIGITS
    &&& is_digit(text[0])
    &&& text[1] == '.'
    &&& forall|i: int| 2 <= i < text.len() ==> is_digit(#[trigger] text[i])
}

/// The number of ten-millionths that a channel literal denotes.
pub open spec fn literal_units(text: Seq<char>) -> nat
    recommends
        is_channel_literal(text),
{
    numeral_value(text.subrange(0, 1)) * UNITS_PER_WHOLE as nat + numeral_value(
        text.subrange(2, 2 + FRACTION_DIGITS),
    )
}

/// The channel byte nearest to a fraction given in ten-millionths: the
/// fraction times 255, rounded half up (`units * 255 / 10_000_000`, with
/// numerator and denominator doubled so that adding one whole rounds).
pub open spec fn nearest_byte(units: nat) -> nat {
    ((units * 510 + 10_000_000) / 20_000_000) as nat
}

/// `channel_units` is the multiple of one ten-millionth closest to
/// `value / 255`: the two differ by less than half a unit. The result lies
/// between zero and one whole, and reaches either end only for 0 and 255.
pub proof fn lemma_channel_units_nearest(value: u8)
    ensures
        2 * (255 * channel_units(value) - value * UNITS_PER_WHOLE) < 255,
        2 * (value * UNITS_PER_WHOLE - 255 * channel_units(value)) < 255,
        channel_units(value) <= UNITS_PER_WHOLE,
        channel_units(value) == 0 <==> value == 0,
        channel_units(value) == UNITS_PER_WHOLE <==> value == 255,
{
}

/// A larger channel byte has a larger literal value, so distinct bytes never
/// share a literal.
pub proof fn lemma_channel_units_increasing(low: u8, high: u8)
    requires
        low < high,
    ensures
        channel_units(low) < channel_units(high),
{
}

/// Every channel literal is one digit, a point and exactly seven digits, and
/// denotes a value from 0.0 to 1.0 inclusive: the value `channel_units`.
pub proof fn lemma_channel_text_shape(value: u8)
    ensures
        is_channel_literal(channel_text(value)),
        channel_text(value)[0] == '0' || channel_text(value)[0] == '1',
        literal_units(channel_text(value)) == channel_units(value),
        literal_units(channel_text(value)) <= UNITS_PER_WHOLE,
{
    let units = channel_units(value);
    let whole = units / UNITS_PER_WHOLE as nat;
    let fraction = units % UNITS_PER_WHOLE as nat;
    let text = channel_text(value);
    lemma_channel_units_nearest(value);
    assert(whole <= 1);
    lemma_decimal_text_reads_back(whole);
    lemma_padded_text_reads_back(fraction, FRACTION_DIGITS as nat);
    assert(decimal_text(whole) =~= seq![digit_char(whole)]);
    assert(text.subrange(0, 1) =~= decimal_text(whole));
    assert(text.subrange(2, 2 + FRACTION_DIGITS) =~= padded_text(fraction, FRACTION_DIGITS as nat));
    assert forall|i: int| 2 <= i < text.len() implies is_digit(#[trigger] text[i]) by {
        assert(text[i] == padded_text(fraction, FRACTION_DIGITS as nat)[i - 2]);
    }
    assert(power_of_ten(7) == UNITS_PER_WHOLE) by {
        reveal_with_fuel(power_of_ten, 8);
    }
    assert(fraction % power_of_ten(7) == fraction) by {
        vstd::arithmetic::div_mod::lemma_small_mod(fraction, power_of_ten(7));
    }
}

/// Reading a channel literal back and rounding it to the nearest byte gives
/// the byte it was written for.
pub proof fn lemma_channel_round_trip(value: u8)
    ensures
        nearest_byte(literal_units(channel_text(value))) == value,
{
    lemma_channel_text_shape(value);
    lemma_channel_units_nearest(value);
}

/// Appends the literal of a channel byte to `out`.
pub fn append_channel(out: &mut String, value: u8)
    ensures
        final(out)@ == old(out)@ + channel_text(value),
{
    let units: u64 = (value as u64 * 20_000_000 + 255) / 510;
    let whole: u32 = (units / (UNITS_PER_WHOLE as u64)) as u32;
    let fraction: u32 = (units % (UNITS_PER_WHOLE as u64)) as u32;
    append_decimal(out, whole);
    out.append(".");
    append_padded(out, fraction, FRACTION_DIGITS);
    proof {
        reveal_strlit(".");
        assert("."@ =~= seq!['.']);
        assert(out@ =~= old(out)@ + channel_text(value));
    }
}

/// The literal of a channel byte.
pub fn channel_literal(value: u8) -> (text: String)
    ensures
        text@ == channel_text(value),
{
    let mut text = String::new();
    append_channel(&mut text, value);
    text
}

} // verus!
