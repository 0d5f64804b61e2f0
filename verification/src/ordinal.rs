//! Ordinal position labels such as `1st` and `4th`, used in diagnostics.

use crate::text::push_char;
use vstd::prelude::*;
use vstd::string::StringExecFns;

verus! {

/// The character of a decimal digit.
pub open spec fn digit_char(digit: nat) -> char
    recommends
        digit < 10,
{
    ('0' as u8 + digit) as char
}

/// The decimal numeral of a number, most significant digit first, without
/// leading zeros.
pub open spec fn decimal_text(n: nat) -> Seq<char>
    decreases n,
{
    if n < 10 {
        seq![digit_char(n)]
    } else {
        decimal_text(n / 10).push(digit_char(n % 10))
    }
}

/// The suffix of the ordinal of a one-based position.
///
/// The suffix goes by the whole number, not by its last digit: 1, 2 and 3 get
/// `st`, `nd` and `rd`, and every other position gets `th`, so that position 21
/// reads `21th`.
pub open spec fn ordinal_suffix(position: nat) -> Seq<char> {
    if position == 1 {
        "st"@
    } else if position == 2 {
        "nd"@
    } else if position == 3 {
        "rd"@
    } else {
        "th"@
    }
}

/// The ordinal label of a zero-based index: the numeral of the index plus one,
/// followed by that position's suffix.
pub open spec fn ordinal_text(index: nat) -> Seq<char> {
    decimal_text(index + 1) + ordinal_suffix(index + 1)
}

/// Appends the decimal numeral of `n` to `text`.
pub(crate) fn push_decimal(text: &mut String, n: u128)
    ensures
        final(text)@ == old(text)@ + decimal_text(n as nat),
    decreases n,
{
    if n >= 10 {
        push_decimal(text, n / 10);
    }
    let digit: u8 = (n % 10) as u8;
    push_char(text, ('0' as u8 + digit) as char);
}

/// The ordinal label of a zero-based index, such as `1st` for index 0.
///
/// Every index has a label: the position is counted in a wider type, so the
/// largest index does not overflow. See [`ordinal_suffix`] for the rule that
/// picks the suffix.
pub fn ordinal(n: usize) -> (text: String)
    ensures
        text@ == ordinal_text(n as nat),
{
    let position: u128 = n as u128 + 1;
    let suffix = if position == 1 {
        "st"
    } else if position == 2 {
        "nd"
    } else if position == 3 {
        "rd"
    } else {
        "th"
    };
    let mut text = String::new();
    push_decimal(&mut text, position);
    text.append(suffix);
    text
}

} // verus!
