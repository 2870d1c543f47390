//! Decimal numerals.

use vstd::prelude::*;
use vstd::string::*;

verus! {

/// The character that writes the decimal digit `d`.
pub open spec fn digit_char(d: nat) -> char
    recommends
        d < 10,
{
    if d == 0 {
        '0'
    } else if d == 1 {
        '1'
    } else if d == 2 {
        '2'
    } else if d == 3 {
        '3'
    } else if d == 4 {
        '4'
    } else if d == 5 {
        '5'
    } else if d == 6 {
        '6'
    } else if d == 7 {
        '7'
    } else if d == 8 {
        '8'
    } else {
        '9'
    }
}

/// Whether `c` is one of the ten decimal digit characters.
pub open spec fn is_digit(c: char) -> bool {
    '0' <= c <= '9'
}

/// The number a decimal digit character stands for.
pub open spec fn digit_value(c: char) -> nat
    recommends
        is_digit(c),
{
    (c as int - '0' as int) as nat
}

/// The shortest decimal numeral of `n`: no sign, no padding, and a single
/// `0` for zero.
pub open spec fn decimal_text(n: nat) -> Seq<char>
    decreases n,
{
    if n < 10 {
        seq![digit_char(n)]
    } else {
        decimal_text(n / 10).push(digit_char(n % 10))
    }
}

/// The numeral of `n` written with exactly `width` digits, padded with
/// zeros on the left. Digits that do not fit are dropped from the left, so
/// the text stands for `n` modulo ten to the power `width`.
pub open spec fn padded_text(n: nat, width: nat) -> Seq<char>
    decreases width,
{
    if width == 0 {
        Seq::empty()
    } else {
        padded_text(n / 10, (width - 1) as nat).push(digit_char(n % 10))
    }
}

/// The number that a sequence of digit characters denotes, read as a decimal
/// numeral with the most significant digit first.
pub open spec fn numeral_value(text: Seq<char>) -> nat
    decreases text.len(),
{
    if text.len() == 0 {
        0
    } else {
        numeral_value(text.drop_last()) * 10 + digit_value(text.last())
    }
}

/// Ten to the power `exponent`.
pub open spec fn power_of_ten(exponent: nat) -> nat
    decreases exponent,
{
    if exponent == 0 {
        1
    } else {
        10 * power_of_ten((exponent - 1) as nat)
    }
}

/// A digit character reads back as the digit it was written for.
pub proof fn lemma_digit_char_reads_back(d: nat)
    requires
        d < 10,
    ensures
        is_digit(digit_char(d)),
        digit_value(digit_char(d)) == d,
{
}

/// A decimal numeral is made of digits only, is never empty, and reads back
/// as the number it was written for.
pub proof fn lemma_decimal_text_reads_back(n: nat)
    ensures
        decimal_text(n).len() >= 1,
        forall|i: int| 0 <= i < decimal_text(n).len() ==> is_digit(#[trigger] decimal_text(n)[i]),
        numeral_value(decimal_text(n)) == n,
    decreases n,
{
    let text = decimal_text(n);
    lemma_digit_char_reads_back(n % 10);
    if n < 10 {
        assert(text.drop_last() =~= Seq::<char>::empty());
        assert(numeral_value(text.drop_last()) == 0);
    } else {
        lemma_decimal_text_reads_back(n / 10);
        assert(text.drop_last() =~= decimal_text(n / 10));
    }
}

/// A padded numeral has exactly the requested number of characters, all of
/// them digits, and reads back as the number reduced modulo the matching
/// power of ten.
pub proof fn lemma_padded_text_reads_back(n: nat, width: nat)
    ensures
        padded_text(n, width).len() == width,
        forall|i: int|
            0 <= i < padded_text(n, width).len() ==> is_digit(#[trigger] padded_text(n, width)[i]),
        numeral_value(padded_text(n, width)) == n % power_of_ten(width),
    decreases width,
{
    let text = padded_text(n, width);
    if width == 0 {
    } else {
        let shorter = (width - 1) as nat;
        lemma_padded_text_reads_back(n / 10, shorter);
        lemma_digit_char_reads_back(n % 10);
        assert(text.drop_last() =~= padded_text(n / 10, shorter));
        lemma_power_of_ten_positive(shorter);
        let p = power_of_ten(shorter);
        assert(n % (10 * p) == 10 * ((n / 10) % p) + n % 10) by {
            vstd::arithmetic::div_mod::lemma_mod_breakdown(n as int, 10, p as int);
        }
    }
}

/// Every power of ten is at least one.
pub proof fn lemma_power_of_ten_positive(exponent: nat)
    ensures
        power_of_ten(exponent) >= 1,
    decreases exponent,
{
    if exponent > 0 {
        lemma_power_of_ten_positive((exponent - 1) as nat);
    }
}

/// The one-character string for a decimal digit.
fn digit_str(d: u8) -> (text: &'static str)
    requires
        d < 10,
    ensures
        text@ == seq![digit_char(d as nat)],
{
    proof {
        reveal_strlit("0");
        reveal_strlit("1");
        reveal_strlit("2");
        reveal_strlit("3");
        reveal_strlit("4");
        reveal_strlit("5");
        reveal_strlit("6");
        reveal_strlit("7");
        reveal_strlit("8");
        reveal_strlit("9");
    }
    let text = if d == 0 {
        "0"
    } else if d == 1 {
        "1"
    } else if d == 2 {
        "2"
    } else if d == 3 {
        "3"
    } else if d == 4 {
        "4"
    } else if d == 5 {
        "5"
    } else if d == 6 {
        "6"
    } else if d == 7 {
        "7"
    } else if d == 8 {
        "8"
    } else {
        "9"
    };
    assert(text@ =~= seq![digit_char(d as nat)]);
    text
}

/// Appends the shortest decimal numeral of `n` to `out`.
pub fn append_decimal(out: &mut String, n: u32)
    ensures
        final(out)@ == old(out)@ + decimal_text(n as nat),
    decreases n,
{
    if n >= 10 {
        append_decimal(out, n / 10);
    }
    out.append(digit_str((n % 10) as u8));
    assert(out@ =~= old(out)@ + decimal_text(n as nat));
}

/// Appends `n` to `out` as exactly `width` digits, zero-padded on the left.
pub fn append_padded(out: &mut String, n: u32, width: u8)
    ensures
        final(out)@ == old(out)@ + padded_text(n as nat, width as nat),
    decreases width,
{
    if width > 0 {
        append_padded(out, n / 10, width - 1);
        out.append(digit_str((n % 10) as u8));
    }
    assert(out@ =~= old(out)@ + padded_text(n as nat, width as nat));
}

/// The shortest decimal numeral of `n`.
pub fn decimal(n: u32) -> (text: String)
    ensures
        text@ == decimal_text(n as nat),
{
    let mut text = String::new();
    append_decimal(&mut text, n);
    text
}

} // verus!
