//! Small plain-value vector and dimension types used across the runtime.

use vstd::prelude::*;

verus! {

/// A two-dimensional extent with both coordinates of the same copyable type.
#[derive(Debug, Clone, Copy)]
pub struct Dim<T: Copy> {
    pub x: T,
    pub y: T,
}

impl<T: Copy> Dim<T> {
    pub fn new(x: T, y: T) -> (r: Self)
        ensures
            r.x == x,
            r.y == y,
    {
        Self { x, y }
    }
}

/// A pair of signed integers, as parsed out of configuration text.
#[derive(Debug, Clone, Copy, PartialEq, Eq, Structural)]
pub struct IVec2 {
    pub x: i32,
    pub y: i32,
}

impl IVec2 {
    pub fn new(x: i32, y: i32) -> (r: Self)
        ensures
            r.x == x,
            r.y == y,
    {
        Self { x, y }
    }
}

} // verus!
