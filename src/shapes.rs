//! Rectangles that hold one another, and guesses kept in range.
use vstd::prelude::*;

verus! {

/// A rectangle by its two side lengths.
#[derive(Clone, Copy, Debug, PartialEq, Eq, Structural)]
pub struct Rectangle {
    pub length: u32,
    pub width: u32,
}

impl Rectangle {
    /// Whether `other` fits strictly inside this rectangle, side by side.
    pub fn can_hole(&self, other: &Rectangle) -> (r: bool)
        ensures
            r == (self.length > other.length && self.width > other.width),
    {
        self.length > other.length && self.width > other.width
    }
}

/// A guess between 1 and 100.
pub struct Guess {
    value: u32,
}

impl Guess {
    /// A guess always lies between 1 and 100.
    #[verifier::type_invariant]
    closed spec fn in_range(&self) -> bool {
        1 <= self.value <= 100
    }

    /// The number guessed.
    pub closed spec fn spec_value(&self) -> u32 {
        self.value
    }

    /// Takes a guess; the number must lie between 1 and 100.
    pub fn new(value: u32) -> (r: Guess)
        requires
            1 <= value <= 100,
        ensures
            r.spec_value() == value,
    {
        Guess { value }
    }

    /// The number guessed.
    pub fn value(&self) -> (r: u32)
        ensures
            r == self.spec_value(),
            1 <= r <= 100,
    {
        proof {
            use_type_invariant(self);
        }
        self.value
    }
}

} // verus!
