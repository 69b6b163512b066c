use vstd::prelude::*;

verus! {

/// A rectangle in physical screen pixels.
#[derive(Clone, Copy, Debug, PartialEq, Eq, Structural)]
pub struct PhysicalBounds {
    pub x: i32,
    pub y: i32,
    pub width: i32,
    pub height: i32,
}

impl PhysicalBounds {
    pub fn new(x: i32, y: i32, width: i32, height: i32) -> (b: Self)
        ensures
            b == (PhysicalBounds { x, y, width, height }),
    {
        PhysicalBounds { x, y, width, height }
    }
}

impl Default for PhysicalBounds {
    fn default() -> (b: Self)
        ensures
            b == (PhysicalBounds { x: 0, y: 0, width: 0, height: 0 }),
    {
        PhysicalBounds { x: 0, y: 0, width: 0, height: 0 }
    }
}

} // verus!
