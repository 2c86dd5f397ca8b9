//! The two places where amounts meet `rust_decimal`: reading an amount's text and
//! writing a four-place amount's text.
use rust_decimal::{Decimal, RoundingStrategy};
use vstd::prelude::*;
use vstd::string::StringSliceAdditionalSpecFns;

use crate::domain::MAX_UNITS;

verus! {

/// The byte `.`.
pub open spec fn is_point(b: u8) -> bool {
    b == 46
}

/// `i` is the index of the first `.` in `bytes`.
pub open spec fn is_first_point(bytes: Seq<u8>, i: int) -> bool {
    &&& 0 <= i < bytes.len()
    &&& is_point(bytes[i])
    &&& forall|j: int| 0 <= j < i ==> !is_point(#[trigger] bytes[j])
}

/// The number of bytes after the first `.` of `bytes`, or 0 when there is none.
pub open spec fn bytes_after_point(bytes: Seq<u8>) -> int {
    if exists|i: int| is_first_point(bytes, i) {
        bytes.len() - (choose|i: int| is_first_point(bytes, i)) - 1
    } else {
        0
    }
}

/// What `rust_decimal::Decimal::from_str_exact` makes of a text: its mantissa and
/// scale, or `None` when it refuses the text.
pub uninterp spec fn decimal_from_str_exact(text: Seq<char>) -> Option<(i128, u32)>;

/// Calls `rust_decimal::Decimal::from_str_exact` and hands back the parsed value as its
/// mantissa and scale (`None` for any error). Claimed of it: the result is a function of
/// the text alone, named `decimal_from_str_exact`; a parsed value's mantissa has at most
/// 96 bits; and its scale counts digits that follow the text's first `.`, so it is at
/// most the number of bytes after that point (0 without a point). Which texts it accepts
/// and what value it gives are not stated beyond that name.
#[verifier::external_body]
pub(crate) fn parse_decimal_exact(text: &str) -> (r: Option<(i128, u32)>)
    ensures
        r == decimal_from_str_exact(text@),
        r matches Some((m, scale)) ==> -MAX_UNITS <= m <= MAX_UNITS && scale <= bytes_after_point(
            text.spec_bytes(),
        ),
{
    match Decimal::from_str_exact(text) {
        Ok(d) => Some((d.mantissa(), d.scale())),
        Err(_) => None,
    }
}

/// The character of a decimal digit `0..=9`.
pub open spec fn digit_char(d: nat) -> char {
    (d + 48) as char
}

/// The decimal digits of `n`, without leading zeros (`"0"` for zero).
pub open spec fn decimal_digits(n: nat) -> Seq<char>
    decreases n,
{
    if n < 10 {
        seq![digit_char(n)]
    } else {
        decimal_digits(n / 10).push(digit_char(n % 10))
    }
}

/// The text of `units` ten-thousandths with exactly four places: a `-` for a negative
/// amount, the integer part, a `.`, and four digits (`-12345` is `"-1.2345"`).
pub open spec fn four_place_text(units: int) -> Seq<char> {
    let m: nat = if units < 0 {
        (-units) as nat
    } else {
        units as nat
    };
    let sign = if units < 0 {
        seq!['-']
    } else {
        Seq::<char>::empty()
    };
    sign + decimal_digits(m / 10000) + seq![
        '.',
        digit_char((m / 1000) % 10),
        digit_char((m / 100) % 10),
        digit_char((m / 10) % 10),
        digit_char(m % 10),
    ]
}

/// Writes an amount of `units` ten-thousandths through `rust_decimal`: it builds the
/// `Decimal` of that mantissa at scale 4 (`Decimal::from_i128_with_scale`, which panics
/// beyond 96 bits, hence the bound), rounds it to four places midpoint-to-even
/// (`round_dp_with_strategy`) and pads it to four places (`rescale`), then renders it
/// (`to_string`). Claimed of it: the text is `four_place_text(units)`; at scale 4 the
/// rounding and the padding leave the value as it is, and the rendering writes the
/// sign, the integer digits, the point and the four fractional digits.
#[verifier::external_body]
pub(crate) fn format_4dp(units: i128) -> (text: String)
    requires
        -MAX_UNITS <= units <= MAX_UNITS,
    ensures
        text@ == four_place_text(units as int),
{
    let mut d = Decimal::from_i128_with_scale(units, 4).round_dp_with_strategy(
        4,
        RoundingStrategy::MidpointNearestEven,
    );
    d.rescale(4);
    d.to_string()
}

} // verus!
