//! Writing amounts.

use crate::number::{decimal, pad2, push_decimal, push_pad2};
use crate::text::string_of;
use vstd::prelude::*;
use vstd::std_specs::convert::IntoSpec;

verus! {

/// The magnitude of an amount in minor units as a decimal number with two
/// digits after the separator. The sign is not written.
pub open spec fn minor_units_text(value: int, separator: char) -> Seq<char> {
    let magnitude = if value < 0 {
        -value
    } else {
        value
    };
    decimal((magnitude / 100) as nat) + seq![separator] + pad2((magnitude % 100) as nat)
}

/// `i128::from` for a `u64`: the standard library documents it as the
/// lossless conversion, so what comes back is the same number.
pub assume_specification[ <i128 as core::convert::From<u64>>::from ](a: u64) -> (ret: i128)
    ensures
        ret as int == a as int,
;

/// `From::from` of a type for itself: the standard library documents that
/// it hands its argument back.
pub assume_specification<Same>[ <Same as core::convert::From<Same>>::from ](a: Same) -> (ret:
    Same)
    ensures
        ret == a,
;

/// Writes an amount in minor units that has no sign.
pub fn format_magnitude(magnitude: u128, decimal_separator: char) -> (r: String)
    ensures
        r@ == minor_units_text(magnitude as int, decimal_separator),
{
    let mut out: Vec<char> = Vec::new();
    push_decimal(&mut out, magnitude / 100);
    out.push(decimal_separator);
    push_pad2(&mut out, magnitude % 100);
    assert(out@ =~= minor_units_text(magnitude as int, decimal_separator));
    string_of(out.as_slice())
}

fn format_signed(value: i128, decimal_separator: char) -> (r: String)
    ensures
        r@ == minor_units_text(value as int, decimal_separator),
{
    let magnitude: u128 = if value >= 0 {
        value as u128
    } else {
        ((-(value + 1)) as u128) + 1
    };
    format_magnitude(magnitude, decimal_separator)
}

/// Writes the magnitude of a balance in minor units.
pub fn format_units(value: i128, decimal_separator: char) -> (r: String)
    ensures
        r@ == minor_units_text(value as int, decimal_separator),
{
    format_minor_units(value, decimal_separator)
}

/// Writes an amount of a transaction, which has no sign, in minor units.
pub fn format_amount(amount: u64, decimal_separator: char) -> (r: String)
    ensures
        r@ == minor_units_text(amount as int, decimal_separator),
{
    format_minor_units(amount, decimal_separator)
}

/// Writes the magnitude of an amount in minor units, whatever integer type
/// holds it.
///
/// What is written is the text of the number that the conversion to 128
/// bits gave. For the signed types up to 64 bits that number is stated by
/// the first clause; for `u64` and `i128`, the types of amounts and
/// balances, it follows from what is assumed of `i128::from` above, as
/// [`format_amount`] and [`format_units`] show.
pub fn format_minor_units<T: Into<i128>>(value: T, decimal_separator: char) -> (r: String)
    ensures
        T::obeys_into_spec() ==> r@ == minor_units_text(
            value.into_spec() as int,
            decimal_separator,
        ),
        exists|v: i128|
            call_ensures(T::into, (value,), v) && r@ == minor_units_text(
                v as int,
                decimal_separator,
            ),
{
    let v: i128 = value.into();
    format_signed(v, decimal_separator)
}

} // verus!
