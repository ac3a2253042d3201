//! The two-valued colour that a fresh display is filled from.

use vstd::prelude::*;

use embedded_graphics::pixelcolor::BinaryColor;

verus! {

#[verifier::external_type_specification]
#[verifier::external_body]
pub struct ExBinaryColor(embedded_graphics::pixelcolor::BinaryColor);

/// The colour that embedded-graphics makes of a flag.
pub uninterp spec fn binary_color(on: bool) -> BinaryColor;

/// Calls embedded-graphics' `From<bool> for BinaryColor`, which gives `On`
/// for `true` and `Off` for `false`. The contract only names that result.
#[verifier::external_body]
pub(crate) fn binary_color_of(on: bool) -> (color: BinaryColor)
    ensures
        color == binary_color(on),
{
    BinaryColor::from(on)
}

} // verus!
