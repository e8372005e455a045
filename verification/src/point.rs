//! Points in the two concrete coordinate spaces the demo works in: maze cell
//! indices and window pixels. The two types are deliberately not
//! interchangeable, so cell coordinates cannot be mixed up with pixels.

use vstd::prelude::*;

use crate::maze::{in_bounds, Maze, MazeView};
use crate::{GFX_MAZE_HEIGHT, GFX_MAZE_WIDTH, GFX_MAZE_X, GFX_MAZE_Y};

verus! {

/// A cell position in the maze grid, in cell units.
#[derive(Clone, Copy, PartialEq, Eq, Hash, Structural, Debug)]
pub struct MazePoint {
    pub x: i64,
    pub y: i64,
}

impl MazePoint {
    pub fn new(x: i64, y: i64) -> (r: Self)
        ensures
            r == (MazePoint { x, y }),
    {
        Self { x, y }
    }
}

/// A position in window pixels.
#[derive(Clone, Copy, PartialEq, Eq, Hash, Structural, Debug)]
pub struct WindowPoint {
    pub x: i64,
    pub y: i64,
}

impl WindowPoint {
    pub fn new(x: i64, y: i64) -> (r: Self)
        ensures
            r == (WindowPoint { x, y }),
    {
        Self { x, y }
    }
}

/// A conversion between coordinate spaces that needs the maze's dimensions:
/// the nominal maze area is divided evenly into the maze's cells.
pub trait Convert<T>: Sized {
    /// When the conversion is defined.
    spec fn convert_req(self, maze: MazeView) -> bool;

    /// The value the conversion yields.
    spec fn convert_spec(self, maze: MazeView) -> T;

    fn convert(self, maze: &Maze) -> (r: T)
        requires
            maze.wf(),
            self.convert_req(maze@),
        ensures
            r == self.convert_spec(maze@),
    ;
}

impl Convert<WindowPoint> for MazePoint {
    /// Defined for cells inside the maze.
    open spec fn convert_req(self, maze: MazeView) -> bool {
        in_bounds(self, maze.width, maze.height)
    }

    /// The top-left pixel of the cell in the nominal maze area, with every
    /// cell `GFX_MAZE_WIDTH / width` by `GFX_MAZE_HEIGHT / height` pixels.
    open spec fn convert_spec(self, maze: MazeView) -> WindowPoint {
        let cell_width = GFX_MAZE_WIDTH as int / maze.width;
        let cell_height = GFX_MAZE_HEIGHT as int / maze.height;
        WindowPoint {
            x: (self.x * cell_width + GFX_MAZE_X) as i64,
            y: (self.y * cell_height + GFX_MAZE_Y) as i64,
        }
    }

    fn convert(self, maze: &Maze) -> (r: WindowPoint) {
        let cell_width = GFX_MAZE_WIDTH / maze.width();
        let cell_height = GFX_MAZE_HEIGHT / maze.height();
        proof {
            lemma_cell_scale(self.x as int, maze@.width, GFX_MAZE_WIDTH as int);
            lemma_cell_scale(self.y as int, maze@.height, GFX_MAZE_HEIGHT as int);
        }
        WindowPoint::new(self.x * cell_width + GFX_MAZE_X, self.y * cell_height + GFX_MAZE_Y)
    }
}

impl Convert<MazePoint> for WindowPoint {
    /// Defined while cells are at least one pixel in the nominal maze area,
    /// so the inverse division is meaningful.
    open spec fn convert_req(self, maze: MazeView) -> bool {
        maze.width <= GFX_MAZE_WIDTH && maze.height <= GFX_MAZE_HEIGHT
    }

    /// The cell whose nominal area the pixel falls in, clamped into the
    /// maze for pixels outside the maze area.
    open spec fn convert_spec(self, maze: MazeView) -> MazePoint {
        let cell_width = GFX_MAZE_WIDTH as int / maze.width;
        let cell_height = GFX_MAZE_HEIGHT as int / maze.height;
        let x = if self.x < GFX_MAZE_X {
            0int
        } else {
            (self.x - GFX_MAZE_X) / cell_width
        };
        let y = if self.y < GFX_MAZE_Y {
            0int
        } else {
            (self.y - GFX_MAZE_Y) / cell_height
        };
        MazePoint {
            x: (if x > maze.width - 1 {
                maze.width - 1
            } else {
                x
            }) as i64,
            y: (if y > maze.height - 1 {
                maze.height - 1
            } else {
                y
            }) as i64,
        }
    }

    fn convert(self, maze: &Maze) -> (r: MazePoint) {
        let cell_width = GFX_MAZE_WIDTH / maze.width();
        let cell_height = GFX_MAZE_HEIGHT / maze.height();
        proof {
            lemma_cell_unit(maze@.width, GFX_MAZE_WIDTH as int);
            lemma_cell_unit(maze@.height, GFX_MAZE_HEIGHT as int);
        }

        let x = if self.x < GFX_MAZE_X {
            0
        } else {
            (self.x - GFX_MAZE_X) / cell_width
        };
        let y = if self.y < GFX_MAZE_Y {
            0
        } else {
            (self.y - GFX_MAZE_Y) / cell_height
        };

        let x = if x > maze.width() - 1 {
            maze.width() - 1
        } else {
            x
        };
        let y = if y > maze.height() - 1 {
            maze.height() - 1
        } else {
            y
        };

        MazePoint::new(x, y)
    }
}

/// A cell coordinate scaled into the nominal maze area stays within it.
proof fn lemma_cell_scale(c: int, dim: int, gfx: int)
    requires
        0 <= c < dim,
        1 <= gfx,
    ensures
        0 <= c * (gfx / dim) <= gfx,
{
    assert(0 <= c * (gfx / dim) <= gfx) by (nonlinear_arith)
        requires
            0 <= c < dim,
            1 <= gfx,
    ;
}

/// A maze no larger than the nominal area gives cells of at least a pixel.
proof fn lemma_cell_unit(dim: int, gfx: int)
    requires
        1 <= dim <= gfx,
    ensures
        1 <= gfx / dim <= gfx,
{
    assert(1 <= gfx / dim <= gfx) by (nonlinear_arith)
        requires
            1 <= dim <= gfx,
    ;
}

} // verus!
