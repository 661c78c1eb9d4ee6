use vstd::prelude::*;

verus! {

/// The ball of the paddle game that runs on the same board: its top-left pixel and its
/// velocity in pixels per frame.
#[derive(Clone, Copy, Debug, PartialEq, Eq, Structural)]
pub struct Ball {
    pub x: usize,
    pub y: usize,
    pub dx: isize,
    pub dy: isize,
}

impl Ball {
    /// A ball at `(x, y)` moving by `(dx, dy)`.
    pub fn new(x: usize, y: usize, dx: isize, dy: isize) -> (b: Self)
        ensures
            b == (Ball { x, y, dx, dy }),
    {
        Ball { x, y, dx, dy }
    }
}

} // verus!
