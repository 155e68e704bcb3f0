//! The largest element of a list, and points whose coordinates mix types.
use vstd::prelude::*;

verus! {

/// The largest number in a non-empty list.
pub fn get_largest(list: &[i32]) -> (r: i32)
    requires
        list@.len() > 0,
    ensures
        list@.contains(r),
        forall|i: int| 0 <= i < list@.len() ==> list@[i] <= r,
{
    let mut largest = list[0];
    let mut i: usize = 1;
    while i < list.len()
        invariant
            1 <= i <= list@.len(),
            exists|j: int| 0 <= j < i && list@[j] == largest,
            forall|j: int| 0 <= j < i ==> list@[j] <= largest,
        decreases list@.len() - i,
    {
        if list[i] > largest {
            largest = list[i];
        }
        i = i + 1;
    }
    largest
}

/// A point whose two coordinates may have different types.
pub struct Point2<X1, Y1> {
    pub x: X1,
    pub y: Y1,
}

impl<X1, Y1> Point2<X1, Y1> {
    /// A point with the `x` of `self` and the `y` of `other`.
    pub fn mixup<X2, Y2>(self, other: Point2<X2, Y2>) -> (r: Point2<X1, Y2>)
        ensures
            r.x == self.x,
            r.y == other.y,
    {
        Point2 { x: self.x, y: other.y }
    }
}

} // verus!
