//! The boundary to `rust_decimal`.
//!
//! A decimal crosses this boundary as a pair of plain integers: a signed
//! mantissa and a scale, standing for `mantissa / 10^scale`. Reading a numeral,
//! rounding and printing are left to `rust_decimal`; what it returns is taken on
//! trust and given a name, so that the rest of the crate can speak of it.

use rust_decimal::Decimal;
use std::str::FromStr;
use vstd::prelude::*;

verus! {

/// The largest magnitude of a mantissa that a `Decimal` holds, `2^96 - 1`.
pub const MAX_MANTISSA: i128 = 79_228_162_514_264_337_593_543_950_335;

/// The largest scale of a `Decimal`.
pub const MAX_SCALE: u32 = 28;

/// The number of fractional digits that an amount is shown with at most.
pub const DISPLAY_PLACES: u32 = 4;

/// Whether `mantissa / 10^scale` is a value that a `Decimal` can hold.
pub open spec fn is_decimal(mantissa: int, scale: nat) -> bool {
    -MAX_MANTISSA <= mantissa <= MAX_MANTISSA && scale <= MAX_SCALE
}

/// What `Decimal::from_str` makes of a text: the mantissa and scale of the
/// decimal it reads, or `None` where it reports an error.
pub uninterp spec fn parsed_decimal(text: Seq<char>) -> Option<(i128, u32)>;

/// The mantissa that `Decimal::round_dp` leaves when it rounds
/// `mantissa / 10^scale` to `places` fractional digits.
pub uninterp spec fn rounded_mantissa(mantissa: int, scale: nat, places: nat) -> int;

/// The text that `Decimal`'s `Display` prints for `mantissa / 10^scale`.
pub uninterp spec fn decimal_text(mantissa: int, scale: nat) -> Seq<char>;

/// Calls `Decimal::from_str` and hands back the mantissa and the scale of the
/// decimal read. Trusted: the result is a function of the text alone, and the
/// mantissa has at most 96 bits, as `Decimal::mantissa` builds it from three
/// 32-bit words.
#[verifier::external_body]
pub(crate) fn decimal_from_str(text: &str) -> (r: Option<(i128, u32)>)
    ensures
        r == parsed_decimal(text@),
        r matches Some(parts) ==> -MAX_MANTISSA <= parts.0 <= MAX_MANTISSA,
{
    match Decimal::from_str(text) {
        Ok(d) => Some((d.mantissa(), d.scale())),
        Err(_) => None,
    }
}

/// Calls `Decimal::round_dp`. Trusted: a decimal with no more than `places`
/// fractional digits comes back unchanged; any other comes back with exactly
/// `places` digits and a mantissa that is a function of the arguments alone.
#[verifier::external_body]
pub(crate) fn decimal_round_dp(mantissa: i128, scale: u32, places: u32) -> (r: (i128, u32))
    requires
        is_decimal(mantissa as int, scale as nat),
    ensures
        r.0 == rounded_mantissa(mantissa as int, scale as nat, places as nat),
        r.1 == (if scale <= places { scale } else { places }),
        scale <= places ==> r.0 == mantissa,
        is_decimal(r.0 as int, r.1 as nat),
{
    let d = Decimal::from_i128_with_scale(mantissa, scale).round_dp(places);
    (d.mantissa(), d.scale())
}

/// Calls `to_string` on the `Decimal` with the given mantissa and scale.
/// Trusted: the text is a function of the two alone.
#[verifier::external_body]
pub(crate) fn decimal_to_string(mantissa: i128, scale: u32) -> (r: String)
    requires
        is_decimal(mantissa as int, scale as nat),
    ensures
        r@ == decimal_text(mantissa as int, scale as nat),
{
    Decimal::from_i128_with_scale(mantissa, scale).to_string()
}

/// The text shown for `mantissa / 10^scale`: the decimal itself where it has at
/// most four fractional digits, else the decimal rounded to four.
pub open spec fn display_text_of(mantissa: int, scale: nat) -> Seq<char> {
    if scale <= DISPLAY_PLACES {
        decimal_text(mantissa, scale)
    } else {
        decimal_text(
            rounded_mantissa(mantissa, scale, DISPLAY_PLACES as nat),
            DISPLAY_PLACES as nat,
        )
    }
}

/// Prints `mantissa / 10^scale` with at most four fractional digits, or gives
/// `None` where the pair is no decimal.
pub fn display_text(mantissa: i128, scale: u32) -> (r: Option<String>)
    ensures
        r is Some <==> is_decimal(mantissa as int, scale as nat),
        r matches Some(s) ==> s@ == display_text_of(mantissa as int, scale as nat),
{
    if mantissa < -MAX_MANTISSA || mantissa > MAX_MANTISSA || scale > MAX_SCALE {
        return None;
    }
    if scale <= DISPLAY_PLACES {
        Some(decimal_to_string(mantissa, scale))
    } else {
        let rounded = decimal_round_dp(mantissa, scale, DISPLAY_PLACES);
        Some(decimal_to_string(rounded.0, rounded.1))
    }
}

} // verus!
