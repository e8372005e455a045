//! A point type parameterized by the coordinate space it lives in, so that
//! positions from different spaces cannot be mixed: maze cells count in
//! `usize`, window pixels in `i64`, and abstract layout units in `u64`.

use vstd::prelude::*;

use crate::maze::Maze;

verus! {

/// Marker for the window-pixel coordinate space.
pub struct Window;

/// Marker for the abstract layout-unit coordinate space.
pub struct LayoutSpace;

/// A coordinate space, naming the number type its coordinates use.
pub trait Space {
    type Number: Copy;
}

impl Space for Maze {
    type Number = usize;
}

impl Space for Window {
    type Number = i64;
}

impl Space for LayoutSpace {
    type Number = u64;
}

/// A point in the coordinate space `S`.
pub struct Point<S: Space> {
    pub x: S::Number,
    pub y: S::Number,
}

impl<S: Space> Point<S> {
    pub fn new(x: S::Number, y: S::Number) -> (r: Self)
        ensures
            r == (Point::<S> { x, y }),
    {
        Self { x, y }
    }
}

/// A conversion taking points of space `I` to points of space `O`.
pub trait ConvertPoint<I: Space, O: Space> {
    fn convert_point(&self, input: Point<I>) -> Point<O>;
}

} // verus!
