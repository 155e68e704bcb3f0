//! A screen that draws its components.
use vstd::prelude::*;

verus! {

/// Something that can draw itself.
pub trait Draw {
    fn draw(&self);
}

/// A screen of components of one kind.
pub struct Screen<T: Draw> {
    pub components: Vec<T>,
}

impl<T: Draw> Screen<T> {
    /// Draws every component once, in order.
    pub fn run(&self) {
        let n = self.components.len();
        let mut i: usize = 0;
        while i < n
            invariant
                i <= n,
                n == self.components.len(),
            decreases n - i,
        {
            self.components[i].draw();
            i = i + 1;
        }
    }
}

/// A button with a label.
pub struct Button {
    pub width: i32,
    pub height: i32,
    pub label: String,
}

impl Draw for Button {
    /// A button has nothing to render yet.
    fn draw(&self) {
    }
}

} // verus!
