//! The maze model: a `width` × `height` grid of cells, a set of walls between
//! axis-adjacent cells, a visited-cell set, and a path (stack) whose last
//! element is the current cursor. A step of the random walk picks an in-bounds
//! neighbour of the cursor, removes the wall between them, and pushes the
//! neighbour onto the path.

use vstd::prelude::*;

use crate::point::MazePoint;

verus! {

/// Whether `p` lies inside a `width` × `height` grid.
pub open spec fn in_bounds(p: MazePoint, width: int, height: int) -> bool {
    0 <= p.x < width && 0 <= p.y < height
}

/// Whether `a` and `b` are axis-adjacent (Manhattan distance exactly 1).
pub open spec fn adjacent(a: MazePoint, b: MazePoint) -> bool {
    ||| a.x == b.x && (a.y + 1 == b.y || b.y + 1 == a.y)
    ||| a.y == b.y && (a.x + 1 == b.x || b.x + 1 == a.x)
}

/// Whether `a` comes strictly before `b` in row-major order.
pub open spec fn cell_before(a: MazePoint, b: MazePoint) -> bool {
    a.y < b.y || (a.y == b.y && a.x < b.x)
}

/// A wall between two adjacent cells in a [`Maze`].
///
/// Enforces an invariant to make sure the two cells are adjacent, and that
/// the internal order of the cells doesn't depend on the provided order, so
/// that equality checks don't depend on the order.
#[derive(Clone, Copy, PartialEq, Eq, Hash, Structural, Debug)]
pub struct Wall(pub MazePoint, pub MazePoint);

/// The canonical wall between two adjacent cells: the cell that comes first
/// in row-major order is stored first, whichever order the cells are given in.
pub open spec fn spec_wall_between(a: MazePoint, b: MazePoint) -> Wall {
    if cell_before(a, b) {
        Wall(a, b)
    } else {
        Wall(b, a)
    }
}

/// Whether `w` is in canonical form: its second cell is the right or the
/// lower neighbour of its first cell.
pub open spec fn wall_wf(w: Wall) -> bool {
    ||| w.0.y == w.1.y && w.0.x + 1 == w.1.x
    ||| w.0.x == w.1.x && w.0.y + 1 == w.1.y
}

/// Whether `w` is one of the walls of a `width` × `height` maze: canonical,
/// with both cells in bounds.
pub open spec fn is_maze_wall(w: Wall, width: int, height: int) -> bool {
    wall_wf(w) && in_bounds(w.0, width, height) && in_bounds(w.1, width, height)
}

impl Wall {
    /// The canonical wall between two adjacent cells, or an error if the
    /// cells are not axis-adjacent.
    pub fn new(cell1: MazePoint, cell2: MazePoint) -> (r: Result<Self, String>)
        ensures
            r is Ok <==> adjacent(cell1, cell2),
            adjacent(cell1, cell2) ==> r == Ok::<Wall, String>(spec_wall_between(cell1, cell2)),
            !adjacent(cell1, cell2) ==> (r matches Err(e) && e@
                == "A wall must be between two adjacent cells (no diagonals allowed)"@),
    {
        let adj = (cell1.x == cell2.x && ((cell1.y < cell2.y && cell1.y + 1 == cell2.y) || (
        cell2.y < cell1.y && cell2.y + 1 == cell1.y))) || (cell1.y == cell2.y && ((cell1.x
            < cell2.x && cell1.x + 1 == cell2.x) || (cell2.x < cell1.x && cell2.x + 1
            == cell1.x)));
        if !adj {
            Err("A wall must be between two adjacent cells (no diagonals allowed)".to_string())
        } else if cell1.y < cell2.y || (cell1.y == cell2.y && cell1.x < cell2.x) {
            Ok(Wall(cell1, cell2))
        } else {
            Ok(Wall(cell2, cell1))
        }
    }

    /// The cell that comes first in row-major order.
    pub fn first_cell(&self) -> (r: MazePoint)
        ensures
            r == self.0,
    {
        self.0
    }

    /// The cell that comes second in row-major order.
    pub fn second_cell(&self) -> (r: MazePoint)
        ensures
            r == self.1,
    {
        self.1
    }
}

/// The canonical wall between two adjacent cells, as a total function: the
/// counterpart of [`Wall::new`] for callers that have already established
/// adjacency.
pub fn wall_between(cell1: MazePoint, cell2: MazePoint) -> (r: Wall)
    requires
        adjacent(cell1, cell2),
    ensures
        r == spec_wall_between(cell1, cell2),
{
    if cell1.y < cell2.y || (cell1.y == cell2.y && cell1.x < cell2.x) {
        Wall(cell1, cell2)
    } else {
        Wall(cell2, cell1)
    }
}

/// Law: the wall between two adjacent cells does not depend on the order in
/// which the cells are given.
pub proof fn lemma_wall_between_symmetric(a: MazePoint, b: MazePoint)
    requires
        adjacent(a, b),
    ensures
        spec_wall_between(a, b) == spec_wall_between(b, a),
{
}

/// Largest grid dimension the maze accepts, so that every intermediate count
/// and coordinate fits comfortably in the machine integers used.
pub const MAX_MAZE_DIM: i64 = 1048576;

/// Whether no element of `s` occurs twice.
pub open spec fn distinct_seq<T>(s: Seq<T>) -> bool {
    forall|i: int, j: int| 0 <= i < j < s.len() ==> s[i] != s[j]
}

/// The mathematical state of a [`Maze`].
pub struct MazeView {
    pub width: int,
    pub height: int,
    pub walls: Seq<Wall>,
    pub path: Seq<MazePoint>,
    pub visited: Seq<MazePoint>,
}

impl MazeView {
    /// Well-formedness: dimensions in range, every wall a canonical in-bounds
    /// wall occurring once, a non-empty all-in-bounds path, and a
    /// duplicate-free in-bounds visited set containing every path cell.
    pub open spec fn wf(self) -> bool {
        &&& 1 <= self.width <= MAX_MAZE_DIM
        &&& 1 <= self.height <= MAX_MAZE_DIM
        &&& forall|i: int|
            0 <= i < self.walls.len() ==> is_maze_wall(
                #[trigger] self.walls[i],
                self.width,
                self.height,
            )
        &&& distinct_seq(self.walls)
        &&& self.path.len() >= 1
        &&& forall|i: int|
            0 <= i < self.path.len() ==> in_bounds(#[trigger] self.path[i], self.width, self.height)
        &&& forall|i: int|
            0 <= i < self.visited.len() ==> in_bounds(
                #[trigger] self.visited[i],
                self.width,
                self.height,
            )
        &&& distinct_seq(self.visited)
        &&& forall|i: int| 0 <= i < self.path.len() ==> self.visited.contains(#[trigger] self.path[i])
    }
}

/// A grid maze being carved by a random walk: all walls are present at first,
/// and each step removes the wall between the cursor and a random in-bounds
/// neighbour.
pub struct Maze {
    width: i64,
    height: i64,
    walls: Vec<Wall>,
    path: Vec<MazePoint>,
    visited: Vec<MazePoint>,
}

impl View for Maze {
    type V = MazeView;

    closed spec fn view(&self) -> MazeView {
        MazeView {
            width: self.width as int,
            height: self.height as int,
            walls: self.walls@,
            path: self.path@,
            visited: self.visited@,
        }
    }
}

/// Which cells of a row-major sweep lie strictly before position `(x, y)`.
spec fn swept_before(c: MazePoint, x: int, y: int) -> bool {
    c.y < y || (c.y == y && c.x < x)
}

/// Number of walls emitted by a row-major sweep over the first `y` full rows.
spec fn rows_wall_count(y: int, w: int, h: int) -> int {
    y * (w - 1) + (if y < h {
        y
    } else {
        h - 1
    }) * w
}

/// Number of walls emitted by a row-major sweep that stands at cell `(x, y)`,
/// `y < h`, having fully processed all earlier cells.
spec fn swept_wall_count(x: int, y: int, w: int, h: int) -> int {
    rows_wall_count(y, w, h) + (if x < w {
        x
    } else {
        w - 1
    }) + (if y + 1 < h {
        x
    } else {
        0
    })
}

impl Maze {
    /// Whether this maze is well-formed; established by [`Maze::new`] and
    /// preserved by every mutating operation.
    pub open spec fn wf(self) -> bool {
        self@.wf()
    }

    /// A fresh `width` × `height` maze: every wall of the grid present
    /// exactly once, the path at the origin cell, and only the origin
    /// visited. The wall count is `width·(height−1) + height·(width−1)`.
    pub fn new(width: i64, height: i64) -> (r: Self)
        requires
            1 <= width <= MAX_MAZE_DIM,
            1 <= height <= MAX_MAZE_DIM,
        ensures
            r.wf(),
            r@.width == width,
            r@.height == height,
            r@.walls.len() == width * (height - 1) + height * (width - 1),
            forall|w: Wall| #[trigger]
                r@.walls.contains(w) <==> is_maze_wall(w, width as int, height as int),
            r@.path == seq![MazePoint { x: 0, y: 0 }],
            r@.visited == seq![MazePoint { x: 0, y: 0 }],
    {
        let start_cell = MazePoint::new(0, 0);

        let mut walls: Vec<Wall> = Vec::new();
        Self::fill_all_walls(&mut walls, width, height);

        let mut path: Vec<MazePoint> = Vec::new();
        path.push(start_cell);

        let mut visited: Vec<MazePoint> = Vec::new();
        visited.push(start_cell);

        proof {
            assert(path@ =~= seq![MazePoint { x: 0, y: 0 }]);
            assert(visited@ =~= seq![MazePoint { x: 0, y: 0 }]);
            broadcast use vstd::seq_lib::group_seq_properties;

        }

        let r = Maze { width, height, walls, path, visited };
        proof {
            assert forall|i: int| 0 <= i < r@.walls.len() implies is_maze_wall(
                #[trigger] r@.walls[i],
                width as int,
                height as int,
            ) by {
                assert(r@.walls.contains(r@.walls[i]));
            }
        }
        r
    }

    /// Appends to `walls` every wall of a `width` × `height` grid, in
    /// row-major order of the wall's first cell (for each cell: the wall to
    /// its right neighbour, then the wall to its lower neighbour).
    pub fn fill_all_walls(walls: &mut Vec<Wall>, width: i64, height: i64)
        requires
            old(walls)@.len() == 0,
            1 <= width <= MAX_MAZE_DIM,
            1 <= height <= MAX_MAZE_DIM,
        ensures
            final(walls)@.len() == width * (height - 1) + height * (width - 1),
            forall|w: Wall| #[trigger]
                final(walls)@.contains(w) <==> is_maze_wall(w, width as int, height as int),
            distinct_seq(final(walls)@),
    {
        proof {
            let wi = width as int;
            assert(0 * (wi - 1) == 0) by (nonlinear_arith);
            assert(0 * wi == 0) by (nonlinear_arith);
        }
        let mut y: i64 = 0;
        while y < height
            invariant
                1 <= width <= MAX_MAZE_DIM,
                1 <= height <= MAX_MAZE_DIM,
                0 <= y <= height,
                walls@.len() == rows_wall_count(y as int, width as int, height as int),
                forall|w: Wall| #[trigger]
                    walls@.contains(w) <==> is_maze_wall(w, width as int, height as int)
                        && swept_before(w.0, 0, y as int),
                distinct_seq(walls@),
            decreases height - y,
        {
            let mut x: i64 = 0;
            while x < width
                invariant
                    1 <= width <= MAX_MAZE_DIM,
                    1 <= height <= MAX_MAZE_DIM,
                    0 <= y < height,
                    0 <= x <= width,
                    walls@.len() == swept_wall_count(x as int, y as int, width as int, height as int),
                    forall|w: Wall| #[trigger]
                        walls@.contains(w) <==> is_maze_wall(w, width as int, height as int)
                            && swept_before(w.0, x as int, y as int),
                    distinct_seq(walls@),
                decreases width - x,
            {
                let current = MazePoint::new(x, y);
                let right = MazePoint::new(x + 1, y);
                let down = MazePoint::new(x, y + 1);
                let right_wl = wall_between(current, right);
                let down_wl = wall_between(current, down);
                proof {
                    assert(right_wl == Wall(current, right));
                    assert(down_wl == Wall(current, down));
                    assert(!swept_before(current, x as int, y as int));
                }
                let ghost pre0 = walls@;

                if x + 1 < width {
                    push_wall(walls, right_wl);
                }
                let ghost pre1 = walls@;

                if y + 1 < height {
                    proof {
                        assert(!walls@.contains(down_wl));
                    }
                    push_wall(walls, down_wl);
                }

                proof {
                    let wi = width as int;
                    let hi = height as int;
                    let xi = x as int;
                    let yi = y as int;
                    assert forall|w: Wall| #[trigger]
                        walls@.contains(w) <==> (is_maze_wall(w, wi, hi) && swept_before(
                            w.0,
                            xi + 1,
                            yi,
                        )) by {
                        if walls@.contains(w) {
                            if !pre0.contains(w) {
                                assert(w == right_wl || w == down_wl);
                                assert(w.0 == current);
                            }
                        }
                        if is_maze_wall(w, wi, hi) && swept_before(w.0, xi + 1, yi) {
                            if swept_before(w.0, xi, yi) {
                                assert(pre0.contains(w));
                                if x + 1 < width {
                                    assert(pre1.contains(w));
                                }
                                assert(walls@.contains(w));
                            } else {
                                assert(w.0.x == xi && w.0.y == yi);
                                assert(w.0 == current);
                                assert(w == Wall(w.0, w.1));
                                if w.1.y == w.0.y {
                                    assert(w.1 == right);
                                    assert(w == right_wl);
                                    assert(x + 1 < width);
                                    assert(pre1.contains(w));
                                    assert(walls@.contains(w));
                                } else {
                                    assert(w.1 == down);
                                    assert(w == down_wl);
                                    assert(y + 1 < height);
                                    assert(walls@.contains(w));
                                }
                            }
                        }
                    }
                }

                x = x + 1;
            }
            proof {
                let yi = y as int;
                let wi = width as int;
                let hi = height as int;
                assert((yi + 1) * (wi - 1) == yi * (wi - 1) + (wi - 1)) by (nonlinear_arith);
                assert((yi + 1) * wi == yi * wi + wi) by (nonlinear_arith);
                assert forall|w: Wall|
                    is_maze_wall(w, wi, hi) && swept_before(w.0, 0, yi + 1) implies #[trigger] walls@.contains(
                    w,
                ) by {
                    assert(swept_before(w.0, wi, yi));
                }
            }
            y = y + 1;
        }
        proof {
            let wi = width as int;
            let hi = height as int;
            assert((hi - 1) * wi == wi * (hi - 1)) by (nonlinear_arith);
        }
    }

    /// The number of columns of the maze.
    pub fn width(&self) -> (r: i64)
        ensures
            r == self@.width,
    {
        self.width
    }

    /// The number of rows of the maze.
    pub fn height(&self) -> (r: i64)
        ensures
            r == self@.height,
    {
        self.height
    }

    /// The current cursor: the last cell of the path, or `None` if the path
    /// is empty (which a well-formed maze never is).
    pub fn cursor(&self) -> (r: Option<MazePoint>)
        ensures
            r == if self@.path.len() > 0 {
                Some(self@.path.last())
            } else {
                None::<MazePoint>
            },
    {
        if self.path.len() > 0 {
            Some(self.path[self.path.len() - 1])
        } else {
            None
        }
    }

    /// Whether `cell` has been visited by the walk.
    pub fn is_visited(&self, cell: MazePoint) -> (r: bool)
        ensures
            r == self@.visited.contains(cell),
    {
        contains_point(&self.visited, cell)
    }

    /// The walls still standing, in unspecified order, each exactly once.
    pub fn walls(&self) -> (r: &Vec<Wall>)
        ensures
            r@ == self@.walls,
    {
        &self.walls
    }

    /// Whether `point` lies inside the grid.
    pub fn is_point_inside(&self, point: MazePoint) -> (r: bool)
        ensures
            r == in_bounds(point, self@.width, self@.height),
    {
        point.x >= 0 && point.x < self.width && point.y >= 0 && point.y < self.height
    }

    /// Every grid cell in row-major order: cell `i` is
    /// `(i % width, i / width)`.
    pub fn all_cells(&self) -> (r: Vec<MazePoint>)
        requires
            self.wf(),
        ensures
            r@.len() == self@.width * self@.height,
            forall|y: int, x: int|
                0 <= y < self@.height && 0 <= x < self@.width ==> #[trigger] r@[y * self@.width + x]
                    == (MazePoint { x: x as i64, y: y as i64 }),
    {
        proof {
            assert(0 * self@.width == 0) by (nonlinear_arith);
        }
        let mut r: Vec<MazePoint> = Vec::new();
        let mut y: i64 = 0;
        while y < self.height
            invariant
                self.wf(),
                0 <= y <= self@.height,
                r@.len() == y * self@.width,
                forall|yy: int, xx: int|
                    0 <= yy < y && 0 <= xx < self@.width ==> #[trigger] r@[yy * self@.width + xx]
                        == (MazePoint { x: xx as i64, y: yy as i64 }),
            decreases self@.height - y,
        {
            let mut x: i64 = 0;
            while x < self.width
                invariant
                    self.wf(),
                    0 <= y < self@.height,
                    0 <= x <= self@.width,
                    r@.len() == y * self@.width + x,
                    forall|yy: int, xx: int|
                        0 <= yy < y && 0 <= xx < self@.width ==> #[trigger] r@[yy * self@.width
                            + xx] == (MazePoint { x: xx as i64, y: yy as i64 }),
                    forall|xx: int|
                        0 <= xx < x ==> #[trigger] r@[y * self@.width + xx] == (MazePoint {
                            x: xx as i64,
                            y: y as i64,
                        }),
                decreases self@.width - x,
            {
                r.push(MazePoint::new(x, y));
                proof {
                    assert forall|yy: int, xx: int| 0 <= yy < y && 0 <= xx < self@.width implies #[trigger] r@[yy
                        * self@.width + xx] == (MazePoint { x: xx as i64, y: yy as i64 }) by {
                        assert((yy + 1) * self@.width <= y * self@.width) by (nonlinear_arith)
                            requires
                                yy + 1 <= y,
                                self@.width >= 1,
                        ;
                        assert(yy * self@.width + self@.width == (yy + 1) * self@.width) by (
                        nonlinear_arith);
                        assert(yy * self@.width + xx < y * self@.width + x);
                    }
                }
                x = x + 1;
            }
            proof {
                assert((y + 1) * self@.width == y * self@.width + self@.width) by (nonlinear_arith);
            }
            y = y + 1;
        }
        proof {
            assert(self@.height * self@.width == self@.width * self@.height) by (nonlinear_arith);
            assert forall|y: int, x: int|
                0 <= y < self@.height && 0 <= x < self@.width implies #[trigger] r@[y * self@.width
                + x] == (MazePoint { x: x as i64, y: y as i64 }) by {
                assert((y + 1) * self@.width <= self@.height * self@.width) by (nonlinear_arith)
                    requires
                        y + 1 <= self@.height,
                        self@.width >= 1,
                ;
                assert(y * self@.width + self@.width == (y + 1) * self@.width) by (nonlinear_arith);
            }
        }
        r
    }
}

/// The cell `dx` columns right of and `dy` rows below `c`.
pub open spec fn offset_cell(c: MazePoint, dx: int, dy: int) -> MazePoint {
    MazePoint { x: (c.x + dx) as i64, y: (c.y + dy) as i64 }
}

/// The in-bounds axis-neighbours of `c`, in the order left, right, up, down.
pub open spec fn spec_neighbor_candidates(c: MazePoint, width: int, height: int) -> Seq<MazePoint> {
    (if in_bounds(offset_cell(c, -1, 0), width, height) {
        seq![offset_cell(c, -1, 0)]
    } else {
        Seq::<MazePoint>::empty()
    }) + (if in_bounds(offset_cell(c, 1, 0), width, height) {
        seq![offset_cell(c, 1, 0)]
    } else {
        Seq::<MazePoint>::empty()
    }) + (if in_bounds(offset_cell(c, 0, -1), width, height) {
        seq![offset_cell(c, 0, -1)]
    } else {
        Seq::<MazePoint>::empty()
    }) + (if in_bounds(offset_cell(c, 0, 1), width, height) {
        seq![offset_cell(c, 0, 1)]
    } else {
        Seq::<MazePoint>::empty()
    })
}

/// The cells the walk may step to: the in-bounds neighbours of the cursor.
pub open spec fn spec_candidates(v: MazeView) -> Seq<MazePoint> {
    spec_neighbor_candidates(v.path.last(), v.width, v.height)
}

/// Law: every candidate step is an in-bounds cell adjacent to the cursor.
pub proof fn lemma_candidates_valid(c: MazePoint, width: int, height: int)
    requires
        in_bounds(c, width, height),
        width <= MAX_MAZE_DIM,
        height <= MAX_MAZE_DIM,
    ensures
        forall|i: int|
            0 <= i < spec_neighbor_candidates(c, width, height).len() ==> adjacent(
                c,
                #[trigger] spec_neighbor_candidates(c, width, height)[i],
            ) && in_bounds(spec_neighbor_candidates(c, width, height)[i], width, height),
{
    assert forall|i: int| 0 <= i < spec_neighbor_candidates(c, width, height).len() implies adjacent(
        c,
        #[trigger] spec_neighbor_candidates(c, width, height)[i],
    ) && in_bounds(spec_neighbor_candidates(c, width, height)[i], width, height) by {
        let s = spec_neighbor_candidates(c, width, height);
        let e = s[i];
        assert(e == offset_cell(c, -1, 0) || e == offset_cell(c, 1, 0) || e == offset_cell(
            c,
            0,
            -1,
        ) || e == offset_cell(c, 0, 1));
        assert(in_bounds(e, width, height));
    }
}

/// Appends a wall known to be absent, keeping the sequence duplicate-free.
fn push_wall(walls: &mut Vec<Wall>, wl: Wall)
    requires
        !old(walls)@.contains(wl),
        distinct_seq(old(walls)@),
    ensures
        final(walls)@ == old(walls)@.push(wl),
        final(walls)@.len() == old(walls)@.len() + 1,
        distinct_seq(final(walls)@),
        forall|z: Wall| #[trigger] final(walls)@.contains(z) <==> old(walls)@.contains(z) || z
            == wl,
{
    let ghost pre = walls@;
    walls.push(wl);
    proof {
        assert forall|z: Wall| #[trigger] walls@.contains(z) <==> pre.contains(z) || z == wl by {
            vstd::seq_lib::lemma_seq_contains_after_push(pre, wl, z);
        }
        assert forall|i: int, j: int| 0 <= i < j < walls@.len() implies walls@[i] != walls@[j] by {
            if j == pre.len() {
                if walls@[i] == wl {
                    assert(pre[i] == wl);
                    assert(pre.contains(wl));
                }
            }
        }
    }
}

impl Maze {
    /// The cells the walk may step to from the current cursor: every
    /// in-bounds axis-neighbour, in the order left, right, up, down.
    pub fn candidate_steps(&self) -> (r: Vec<MazePoint>)
        requires
            self.wf(),
        ensures
            r@ == spec_candidates(self@),
    {
        let cursor = self.path[self.path.len() - 1];
        proof {
            assert(cursor == self@.path.last());
            assert(in_bounds(cursor, self@.width, self@.height));
        }
        let left = MazePoint::new(cursor.x - 1, cursor.y);
        let right = MazePoint::new(cursor.x + 1, cursor.y);
        let up = MazePoint::new(cursor.x, cursor.y - 1);
        let down = MazePoint::new(cursor.x, cursor.y + 1);
        let mut r: Vec<MazePoint> = Vec::new();
        if self.is_point_inside(left) {
            r.push(left);
        }
        if self.is_point_inside(right) {
            r.push(right);
        }
        if self.is_point_inside(up) {
            r.push(up);
        }
        if self.is_point_inside(down) {
            r.push(down);
        }
        proof {
            assert(left == offset_cell(cursor, -1, 0));
            assert(right == offset_cell(cursor, 1, 0));
            assert(up == offset_cell(cursor, 0, -1));
            assert(down == offset_cell(cursor, 0, 1));
            assert(r@ =~= spec_candidates(self@));
        }
        r
    }

    /// One step of the walk with the random draw already made: moves the
    /// cursor to candidate number `k`, removing the wall crossed.
    pub fn step_chosen(&mut self, k: usize)
        requires
            old(self).wf(),
            k < spec_candidates(old(self)@).len(),
        ensures
            final(self).wf(),
            final(self)@.width == old(self)@.width,
            final(self)@.height == old(self)@.height,
            final(self)@.path == old(self)@.path.push(spec_candidates(old(self)@)[k as int]),
            ({
                let c = old(self)@.path.last();
                let s = spec_candidates(old(self)@)[k as int];
                let wl = spec_wall_between(c, s);
                &&& !final(self)@.walls.contains(wl)
                &&& forall|z: Wall| z != wl ==> (#[trigger] final(self)@.walls.contains(z)
                    <==> old(self)@.walls.contains(z))
                &&& final(self)@.walls.len() == old(self)@.walls.len() - (if old(
                    self,
                )@.walls.contains(wl) {
                    1int
                } else {
                    0int
                })
                &&& final(self)@.visited == (if old(self)@.visited.contains(s) {
                    old(self)@.visited
                } else {
                    old(self)@.visited.push(s)
                })
            }),
    {
        proof {
            lemma_candidates_valid(old(self)@.path.last(), old(self)@.width, old(self)@.height);
        }
        let cursor = self.path[self.path.len() - 1];
        let cands = self.candidate_steps();
        let chosen = cands[k];
        proof {
            assert(adjacent(cursor, chosen));
            assert(in_bounds(chosen, self@.width, self@.height));
        }

        let wl = wall_between(cursor, chosen);
        remove_wall(&mut self.walls, wl);

        self.path.push(chosen);
        if !contains_point(&self.visited, chosen) {
            self.visited.push(chosen);
        }

        proof {
            let v = old(self)@;
            let fin = self@;
            assert forall|i: int| 0 <= i < fin.walls.len() implies is_maze_wall(
                #[trigger] fin.walls[i],
                fin.width,
                fin.height,
            ) by {
                assert(fin.walls.contains(fin.walls[i]));
                assert(fin.walls[i] != wl ==> v.walls.contains(fin.walls[i]));
                if v.walls.contains(fin.walls[i]) {
                    let j = choose|j: int| 0 <= j < v.walls.len() && v.walls[j] == fin.walls[i];
                    assert(is_maze_wall(v.walls[j], v.width, v.height));
                }
            }
            assert forall|i: int| 0 <= i < fin.visited.len() implies in_bounds(
                #[trigger] fin.visited[i],
                fin.width,
                fin.height,
            ) by {
                if i < v.visited.len() {
                    assert(v.visited[i] == fin.visited[i]);
                }
            }
            assert forall|i: int| 0 <= i < fin.path.len() implies fin.visited.contains(
                #[trigger] fin.path[i],
            ) by {
                vstd::seq_lib::lemma_seq_contains_after_push(v.visited, chosen, fin.path[i]);
                if i < v.path.len() {
                    assert(v.visited.contains(v.path[i]));
                    let j = choose|j: int| 0 <= j < v.visited.len() && v.visited[j] == v.path[i];
                    assert(fin.visited.len() >= v.visited.len());
                    assert(fin.visited[j] == v.visited[j]);
                } else {
                    assert(fin.path[i] == chosen);
                    if v.visited.contains(chosen) {
                        let j = choose|j: int|
                            0 <= j < v.visited.len() && v.visited[j] == chosen;
                        assert(fin.visited[j] == chosen);
                    }
                }
            }
            if !v.visited.contains(chosen) {
                assert forall|i: int, j: int|
                    0 <= i < j < fin.visited.len() implies fin.visited[i] != fin.visited[j] by {
                    if j == v.visited.len() {
                        if fin.visited[i] == chosen {
                            assert(v.visited[i] == chosen);
                            assert(v.visited.contains(chosen));
                        }
                    }
                }
            }
        }
    }

    /// One step of the random walk: if the cursor has any in-bounds
    /// neighbour, picks one at random, removes the wall between the cursor
    /// and that neighbour, pushes it onto the path and marks it visited;
    /// otherwise leaves the maze unchanged. Whatever the random source
    /// yields, the path grows by at most one cell, and any new cursor is one
    /// axis-step from the old one with the wall between them gone.
    pub fn step(&mut self, rng: &mut rand::rngs::ThreadRng)
        requires
            old(self).wf(),
        ensures
            final(self).wf(),
            final(self)@.width == old(self)@.width,
            final(self)@.height == old(self)@.height,
            old(self)@.path.len() <= final(self)@.path.len() <= old(self)@.path.len() + 1,
            spec_candidates(old(self)@).len() == 0 ==> final(self)@ == old(self)@,
            spec_candidates(old(self)@).len() > 0 ==> final(self)@.path.len() == old(
                self)@.path.len() + 1,
            final(self)@.path.len() > old(self)@.path.len() ==> ({
                let c = old(self)@.path.last();
                let s = final(self)@.path.last();
                &&& final(self)@.path == old(self)@.path.push(s)
                &&& adjacent(c, s)
                &&& in_bounds(s, old(self)@.width, old(self)@.height)
                &&& !final(self)@.walls.contains(spec_wall_between(c, s))
                &&& forall|z: Wall| #[trigger] final(self)@.walls.contains(z)
                    ==> old(self)@.walls.contains(z)
                &&& forall|z: Wall|
                    old(self)@.walls.contains(z) && z != spec_wall_between(c, s)
                        ==> #[trigger] final(self)@.walls.contains(z)
                &&& final(self)@.visited.contains(s)
                &&& forall|p: MazePoint| #[trigger] old(self)@.visited.contains(p)
                    ==> final(self)@.visited.contains(p)
            }),
    {
        let cands = self.candidate_steps();
        if cands.len() > 0 {
            let k = crate::random::rand_index(rng, cands.len());
            self.step_chosen(k);
            proof {
                let v = old(self)@;
                let s = spec_candidates(v)[k as int];
                lemma_candidates_valid(v.path.last(), v.width, v.height);
                assert(self@.path.last() == s);
                vstd::seq_lib::lemma_seq_contains_after_push(v.visited, s, s);
                assert forall|p: MazePoint| #[trigger] v.visited.contains(p) implies self@.visited.contains(
                    p,
                ) by {
                    let j = choose|j: int| 0 <= j < v.visited.len() && v.visited[j] == p;
                    assert(self@.visited.len() >= v.visited.len());
                    assert(self@.visited[j] == p);
                }
            }
        }
    }
}

/// Removes the first (and, in a duplicate-free sequence, only) occurrence of
/// `wl`, if any.
fn remove_wall(walls: &mut Vec<Wall>, wl: Wall)
    requires
        distinct_seq(old(walls)@),
    ensures
        distinct_seq(final(walls)@),
        !final(walls)@.contains(wl),
        forall|z: Wall| z != wl ==> (#[trigger] final(walls)@.contains(z) <==> old(
            walls,
        )@.contains(z)),
        final(walls)@.len() == old(walls)@.len() - (if old(walls)@.contains(wl) {
            1int
        } else {
            0int
        }),
{
    let mut i: usize = 0;
    while i < walls.len()
        invariant
            distinct_seq(walls@),
            walls@ == old(walls)@,
            0 <= i <= walls@.len(),
            forall|j: int| 0 <= j < i ==> walls@[j] != wl,
        decreases walls@.len() - i,
    {
        if walls[i] == wl {
            let ghost pre = walls@;
            let ghost ii = i as int;
            walls.remove(i);
            proof {
                pre.remove_ensures(ii);
                assert(pre.contains(wl));
                assert forall|z: Wall| !(z != wl) || (#[trigger] walls@.contains(z)
                    <==> pre.contains(z)) by {
                    if z != wl {
                        if walls@.contains(z) {
                            let j = choose|j: int| 0 <= j < walls@.len() && walls@[j] == z;
                            if j < ii {
                                assert(pre[j] == z);
                            } else {
                                assert(pre[j + 1] == z);
                            }
                            assert(pre.contains(z));
                        }
                        if pre.contains(z) {
                            let j = choose|j: int| 0 <= j < pre.len() && pre[j] == z;
                            if j < ii {
                                assert(walls@[j] == z);
                            } else {
                                assert(j != ii);
                                assert(walls@[j - 1] == z);
                            }
                            assert(walls@.contains(z));
                        }
                    }
                }
                assert(!walls@.contains(wl)) by {
                    if walls@.contains(wl) {
                        let j = choose|j: int| 0 <= j < walls@.len() && walls@[j] == wl;
                        if j < ii {
                            assert(pre[j] == wl);
                        } else {
                            assert(pre[j + 1] == wl);
                            assert(pre[ii] == wl);
                        }
                    }
                }
                assert forall|a: int, b: int|
                    0 <= a < b < walls@.len() implies walls@[a] != walls@[b] by {
                    let pa = if a < ii {
                        a
                    } else {
                        a + 1
                    };
                    let pb = if b < ii {
                        b
                    } else {
                        b + 1
                    };
                    assert(walls@[a] == pre[pa]);
                    assert(walls@[b] == pre[pb]);
                }
            }
            return;
        }
        i = i + 1;
    }
    proof {
        assert(!walls@.contains(wl)) by {
            if walls@.contains(wl) {
                let j = choose|j: int| 0 <= j < walls@.len() && walls@[j] == wl;
            }
        }
    }
}

/// Whether `v` contains `p`, by linear search.
fn contains_point(v: &Vec<MazePoint>, p: MazePoint) -> (r: bool)
    ensures
        r == v@.contains(p),
{
    let mut i: usize = 0;
    while i < v.len()
        invariant
            0 <= i <= v@.len(),
            forall|j: int| 0 <= j < i ==> v@[j] != p,
        decreases v@.len() - i,
    {
        if v[i] == p {
            return true;
        }
        i = i + 1;
    }
    false
}

} // verus!
