//! Exact decimal numbers, read and multiplied by the `rust_decimal` crate.
//!
//! A decimal is held here as two plain integers, its mantissa and its scale:
//! it stands for `mantissa / 10^scale`. What is trusted of `rust_decimal` is
//! said in the three functions at the end of this file, and nowhere else.

use rust_decimal::prelude::ToPrimitive;
use rust_decimal::Decimal;
use vstd::prelude::*;

verus! {

/// The largest magnitude of a mantissa: 96 bits, all set.
pub const MAX_MANTISSA: i128 = 0xFFFF_FFFF_FFFF_FFFF_FFFF_FFFF;

/// The largest scale: the number of digits after the decimal point.
pub const MAX_SCALE: u32 = 28;

/// Whether a mantissa and a scale are those of a decimal.
pub open spec fn is_decimal(mantissa: i128, scale: u32) -> bool {
    -MAX_MANTISSA <= mantissa <= MAX_MANTISSA && scale <= MAX_SCALE
}

/// Ten to the power `n`.
pub open spec fn pow10(n: nat) -> nat
    decreases n,
{
    if n == 0 {
        1
    } else {
        10 * pow10((n - 1) as nat)
    }
}

/// The whole part of `mantissa / 10^scale`: the fraction is cut off, so that
/// the result lies towards zero.
pub open spec fn whole_part(mantissa: int, scale: nat) -> int {
    if mantissa >= 0 {
        mantissa / (pow10(scale) as int)
    } else {
        -((-mantissa) / (pow10(scale) as int))
    }
}

/// The whole part of a decimal as an `i64`; `None` where it does not fit.
pub open spec fn whole_i64(mantissa: i128, scale: u32) -> Option<i64> {
    let whole = whole_part(mantissa as int, scale as nat);
    if i64::MIN <= whole <= i64::MAX {
        Some(whole as i64)
    } else {
        None
    }
}

/// What `Decimal::from_str_exact` makes of a text: the mantissa and the scale
/// of the decimal it reads, or `None` where it refuses the text.
pub uninterp spec fn decimal_from_str_exact(text: Seq<char>) -> Option<(i128, u32)>;

/// What `Decimal::checked_mul` makes of two decimals: the mantissa and the
/// scale of their product, or `None` where it reports an overflow.
pub uninterp spec fn decimal_checked_mul(
    left_mantissa: i128,
    left_scale: u32,
    right_mantissa: i128,
    right_scale: u32,
) -> Option<(i128, u32)>;

/// The product of two decimals where it needs no rounding: the mantissas
/// multiplied, the scales added. A product of zero has scale zero.
pub open spec fn plain_product(left: (i128, u32), right: (i128, u32)) -> (i128, u32)
    recommends
        product_is_plain(left, right),
{
    if left.0 == 0 || right.0 == 0 {
        (0, 0)
    } else {
        ((left.0 * right.0) as i128, (left.1 + right.1) as u32)
    }
}

/// Whether the product of two decimals needs no rounding: the mantissas
/// multiplied fit in 96 bits and the scales added do not pass 28.
pub open spec fn product_is_plain(left: (i128, u32), right: (i128, u32)) -> bool {
    &&& -MAX_MANTISSA <= left.0 * right.0 <= MAX_MANTISSA
    &&& left.1 + right.1 <= MAX_SCALE
}

/// Reads a decimal with `Decimal::from_str_exact` of `rust_decimal` and gives
/// its mantissa and scale, or `None` where the crate returns an error.
///
/// Trusted: the outcome depends on the characters of `text` alone, and a
/// decimal that the crate hands out has a mantissa of at most 96 bits and a
/// scale of at most 28.
#[verifier::external_body]
pub(crate) fn decimal_from_text(text: &str) -> (r: Option<(i128, u32)>)
    ensures
        r == decimal_from_str_exact(text@),
        r matches Some((mantissa, scale)) ==> is_decimal(mantissa, scale),
{
    match Decimal::from_str_exact(text) {
        Ok(d) => Some((d.mantissa(), d.scale())),
        Err(_) => None,
    }
}

/// Multiplies two decimals with `Decimal::checked_mul` of `rust_decimal` and
/// gives the product's mantissa and scale, or `None` where the crate reports
/// an overflow.
///
/// Trusted: the outcome depends on the two decimals alone and is a decimal;
/// and where the mantissas multiplied fit in 96 bits and the scales added do
/// not pass 28, the crate returns exactly that mantissa and that scale (the
/// decimal zero, with scale zero, where a factor is zero).
#[verifier::external_body]
pub(crate) fn decimal_product(left: (i128, u32), right: (i128, u32)) -> (r: Option<(i128, u32)>)
    requires
        is_decimal(left.0, left.1),
        is_decimal(right.0, right.1),
    ensures
        r == decimal_checked_mul(left.0, left.1, right.0, right.1),
        r matches Some((mantissa, scale)) ==> is_decimal(mantissa, scale),
        product_is_plain(left, right) ==> r == Some(plain_product(left, right)),
{
    let a = Decimal::from_i128_with_scale(left.0, left.1);
    let b = Decimal::from_i128_with_scale(right.0, right.1);
    match a.checked_mul(b) {
        Some(d) => Some((d.mantissa(), d.scale())),
        None => None,
    }
}

/// Converts a decimal with `to_i64`, which `rust_decimal` implements for
/// `Decimal`.
///
/// Trusted: the crate cuts the fraction off and returns the whole part, or
/// `None` where the whole part is no `i64`.
#[verifier::external_body]
pub(crate) fn decimal_to_i64(mantissa: i128, scale: u32) -> (r: Option<i64>)
    requires
        is_decimal(mantissa, scale),
    ensures
        r == whole_i64(mantissa, scale),
{
    Decimal::from_i128_with_scale(mantissa, scale).to_i64()
}

} // verus!
