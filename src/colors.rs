//! Colours and a little arithmetic.
use vstd::prelude::*;

verus! {

/// The three primary colours.
#[derive(Clone, Copy, Debug, PartialEq, Eq, Structural)]
pub enum PrimaryColor {
    Red,
    Yellow,
    Blue,
}

/// The three secondary colours.
#[derive(Clone, Copy, Debug, PartialEq, Eq, Structural)]
pub enum SecondaryColor {
    Orange,
    Green,
    Purple,
}

/// Mixes two colours; every mix comes out green.
pub fn mix(c1: PrimaryColor, c2: SecondaryColor) -> (r: SecondaryColor)
    ensures
        r == SecondaryColor::Green,
{
    SecondaryColor::Green
}

/// Adds one to the number given.
pub fn add_one(x: i32) -> (r: i32)
    requires
        x < i32::MAX,
    ensures
        r == x + 1,
{
    x + 1
}

} // verus!
