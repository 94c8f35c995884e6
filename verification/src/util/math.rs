//! Small unsigned vector type used for window dimensions.

use vstd::prelude::*;

verus! {

/// A pair of unsigned integers.
#[derive(Default, Debug, PartialEq, Eq, Structural)]
pub struct Vec2 {
    pub x: u32,
    pub y: u32,
}

impl Vec2 {
    pub fn new(x: u32, y: u32) -> (r: Self)
        ensures
            r.x == x,
            r.y == y,
    {
        Vec2 { x, y }
    }
}

} // verus!
