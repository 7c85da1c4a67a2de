//! A two-component value used for sizes and offsets.

use vstd::prelude::*;

verus! {

/// A pair of coordinates of one type.
#[derive(Debug, Clone, Copy, PartialEq, Eq)]
pub struct Vec2<T> {
    pub x: T,
    pub y: T,
}

impl<T> Vec2<T> {
    /// Builds the vector with the given components.
    pub fn new(x: T, y: T) -> (v: Vec2<T>)
        ensures
            v.x == x,
            v.y == y,
    {
        Vec2 { x, y }
    }
}

} // verus!
