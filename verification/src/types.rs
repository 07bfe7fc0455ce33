//! Small value types shared by the graph model.

use vstd::prelude::*;

verus! {

/// A pair of coordinates on the layout plane.
#[derive(Clone, Copy, Debug, PartialEq)]
pub struct Point<T> {
    x: T,
    y: T,
}

impl<T> Point<T> {
    /// The first coordinate, as a specification value.
    pub closed spec fn spec_x(&self) -> T {
        self.x
    }

    /// The second coordinate, as a specification value.
    pub closed spec fn spec_y(&self) -> T {
        self.y
    }

    /// Creates the point `(x, y)`.
    pub fn new(x: T, y: T) -> (r: Self)
        ensures
            r.spec_x() == x,
            r.spec_y() == y,
    {
        Self { x, y }
    }

    /// Returns the x coordinate.
    pub fn x(&self) -> (r: &T)
        ensures
            *r == self.spec_x(),
    {
        &self.x
    }

    /// Returns the y coordinate.
    pub fn y(&self) -> (r: &T)
        ensures
            *r == self.spec_y(),
    {
        &self.y
    }
}

} // verus!
