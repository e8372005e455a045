//! The coordinate/layout engine. A [`Layout`] describes the scene in abstract
//! layout units: a maze area of a nominal size surrounded by padding.
//! [`Layout::apply`] maps it onto a concrete window, preserving the aspect
//! ratio, centering the content along the axis with excess space, and
//! producing pixel gridline positions for a maze grid. All positions are
//! derived by exact integer arithmetic; each gridline is floored
//! independently, so cells may differ by a pixel, deliberately.

use vstd::prelude::*;

use crate::point_new::{LayoutSpace, Point, Window};

verus! {

/// Largest abstract layout dimension accepted, so every intermediate product
/// of a layout unit and a window dimension fits in a machine word.
pub const MAX_LAYOUT_UNITS: u64 = 1000000;

/// Largest grid dimension (columns or rows) the layout engine accepts.
pub const MAX_GRID: usize = 1048576;

/// The scene description in abstract layout units: padding around a maze
/// area of a nominal width, height and wall thickness.
#[derive(Clone, Copy)]
pub struct LayoutConfig {
    pub padding: u64,
    pub maze_width: u64,
    pub maze_height: u64,
    pub maze_wall_thickness: u64,
}

impl LayoutConfig {
    /// A usable configuration: positive content size, and dimensions small
    /// enough that all derived pixel arithmetic stays in bounds.
    pub open spec fn wf(self) -> bool {
        &&& 1 <= self.maze_width
        &&& 1 <= self.maze_height
        &&& self.maze_width + 2 * self.padding <= MAX_LAYOUT_UNITS
        &&& self.maze_height + 2 * self.padding <= MAX_LAYOUT_UNITS
        &&& self.maze_wall_thickness <= MAX_LAYOUT_UNITS
    }
}

/// The mathematical content of a [`Layout`].
pub struct LayoutView {
    pub total_width: int,
    pub total_height: int,
    pub padding: int,
    pub maze_x: int,
    pub maze_y: int,
    pub maze_width: int,
    pub maze_height: int,
    pub wall_thickness: int,
}

impl LayoutView {
    pub open spec fn wf(self) -> bool {
        &&& 1 <= self.total_width <= MAX_LAYOUT_UNITS
        &&& 1 <= self.total_height <= MAX_LAYOUT_UNITS
        &&& 0 <= self.padding
        &&& self.maze_x == self.padding
        &&& self.maze_y == self.padding
        &&& 1 <= self.maze_width
        &&& 1 <= self.maze_height
        &&& self.total_width == self.maze_width + 2 * self.padding
        &&& self.total_height == self.maze_height + 2 * self.padding
        &&& 0 <= self.wall_thickness <= MAX_LAYOUT_UNITS
    }
}

/// The maze area inside a [`Layout`], in abstract layout units.
struct MazeLayout {
    position: Point<LayoutSpace>,
    width: u64,
    height: u64,
    wall_thickness: u64,
}

impl MazeLayout {
    fn new(position: Point<LayoutSpace>, width: u64, height: u64, wall_thickness: u64) -> (
        r: Self)
        ensures
            r.position == position,
            r.width == width,
            r.height == height,
            r.wall_thickness == wall_thickness,
    {
        Self { position, width, height, wall_thickness }
    }
}

/// The scene in abstract layout units, ready to be applied to windows of any
/// size. Immutable once constructed.
pub struct Layout {
    total_width: u64,
    total_height: u64,
    padding: u64,
    maze: MazeLayout,
}

impl View for Layout {
    type V = LayoutView;

    closed spec fn view(&self) -> LayoutView {
        LayoutView {
            total_width: self.total_width as int,
            total_height: self.total_height as int,
            padding: self.padding as int,
            maze_x: self.maze.position.x as int,
            maze_y: self.maze.position.y as int,
            maze_width: self.maze.width as int,
            maze_height: self.maze.height as int,
            wall_thickness: self.maze.wall_thickness as int,
        }
    }
}

impl Layout {
    pub open spec fn wf(self) -> bool {
        self@.wf()
    }

    /// Lays the maze area of the configured size inside the configured
    /// padding. The overall aspect ratio becomes
    /// `(maze_width + 2·padding) : (maze_height + 2·padding)`.
    pub fn new(config: LayoutConfig) -> (r: Self)
        requires
            config.wf(),
        ensures
            r.wf(),
            r@ == (LayoutView {
                total_width: config.maze_width + 2 * config.padding,
                total_height: config.maze_height + 2 * config.padding,
                padding: config.padding as int,
                maze_x: config.padding as int,
                maze_y: config.padding as int,
                maze_width: config.maze_width as int,
                maze_height: config.maze_height as int,
                wall_thickness: config.maze_wall_thickness as int,
            }),
    {
        let LayoutConfig { padding, maze_width, maze_height, maze_wall_thickness } = config;

        let total_width = maze_width + padding * 2;
        let total_height = maze_height + padding * 2;

        let maze = MazeLayout::new(
            Point::new(padding, padding),
            maze_width,
            maze_height,
            maze_wall_thickness,
        );

        Self { total_width, total_height, padding, maze }
    }

    /// The aspect ratio of the scene, as the exact pair
    /// `(total width, total height)` of abstract layout units.
    pub fn aspect_ratio(&self) -> (r: (u64, u64))
        ensures
            r.0 == self@.total_width,
            r.1 == self@.total_height,
    {
        (self.total_width, self.total_height)
    }
}

/// Whether a `ww` × `wh` window is at least as wide, proportionally, as the
/// scene: the content then uses the full window height (letterboxing).
pub open spec fn spec_wide(l: LayoutView, ww: int, wh: int) -> bool {
    ww * l.total_height >= wh * l.total_width
}

/// Pixel width of the scaled scene.
pub open spec fn spec_fit_w(l: LayoutView, ww: int, wh: int) -> int {
    if spec_wide(l, ww, wh) {
        wh * l.total_width / l.total_height
    } else {
        ww
    }
}

/// Pixel height of the scaled scene.
pub open spec fn spec_fit_h(l: LayoutView, ww: int, wh: int) -> int {
    if spec_wide(l, ww, wh) {
        wh
    } else {
        ww * l.total_height / l.total_width
    }
}

/// Horizontal pixel offset of the scaled scene: half the excess width.
pub open spec fn spec_fit_x(l: LayoutView, ww: int, wh: int) -> int {
    if spec_wide(l, ww, wh) {
        (ww - spec_fit_w(l, ww, wh)) / 2
    } else {
        0
    }
}

/// Vertical pixel offset of the scaled scene: half the excess height.
pub open spec fn spec_fit_y(l: LayoutView, ww: int, wh: int) -> int {
    if spec_wide(l, ww, wh) {
        0
    } else {
        (wh - spec_fit_h(l, ww, wh)) / 2
    }
}

/// Wall thickness in pixels: the abstract thickness scaled by the pixel per
/// layout-unit ratio, floored, but at least one pixel.
pub open spec fn spec_wall_px(l: LayoutView, ww: int, wh: int) -> int {
    let raw = if spec_wide(l, ww, wh) {
        l.wall_thickness * wh / l.total_height
    } else {
        l.wall_thickness * ww / l.total_width
    };
    if raw < 1 {
        1
    } else {
        raw
    }
}

/// Horizontal pixel position of the maze area.
pub open spec fn spec_maze_px_x(l: LayoutView, ww: int, wh: int) -> int {
    spec_fit_x(l, ww, wh) + l.maze_x * spec_fit_w(l, ww, wh) / l.total_width
}

/// Vertical pixel position of the maze area.
pub open spec fn spec_maze_px_y(l: LayoutView, ww: int, wh: int) -> int {
    spec_fit_y(l, ww, wh) + l.maze_y * spec_fit_h(l, ww, wh) / l.total_height
}

/// Pixel width of the maze area.
pub open spec fn spec_maze_px_w(l: LayoutView, ww: int, wh: int) -> int {
    l.maze_width * spec_fit_w(l, ww, wh) / l.total_width
}

/// Pixel height of the maze area.
pub open spec fn spec_maze_px_h(l: LayoutView, ww: int, wh: int) -> int {
    l.maze_height * spec_fit_h(l, ww, wh) / l.total_height
}

/// Left edge of the gridline span: the maze area inset by half a wall.
pub open spec fn spec_inner_x(l: LayoutView, ww: int, wh: int) -> int {
    spec_maze_px_x(l, ww, wh) + spec_wall_px(l, ww, wh) / 2
}

/// Top edge of the gridline span.
pub open spec fn spec_inner_y(l: LayoutView, ww: int, wh: int) -> int {
    spec_maze_px_y(l, ww, wh) + spec_wall_px(l, ww, wh) / 2
}

/// Width of the gridline span: the maze area minus one wall thickness, or
/// zero for windows too small to hold a wall.
pub open spec fn spec_inner_w(l: LayoutView, ww: int, wh: int) -> int {
    if spec_maze_px_w(l, ww, wh) >= spec_wall_px(l, ww, wh) {
        spec_maze_px_w(l, ww, wh) - spec_wall_px(l, ww, wh)
    } else {
        0
    }
}

/// Height of the gridline span.
pub open spec fn spec_inner_h(l: LayoutView, ww: int, wh: int) -> int {
    if spec_maze_px_h(l, ww, wh) >= spec_wall_px(l, ww, wh) {
        spec_maze_px_h(l, ww, wh) - spec_wall_px(l, ww, wh)
    } else {
        0
    }
}

/// Gridline `i` of `n` across a span: `base + i·span/n`, floored
/// independently for each `i`.
pub open spec fn spec_grid_pos(base: int, span: int, n: int, i: int) -> int {
    base + i * span / n
}

/// Column gridline `i`: where vertical wall `i` of `cols` is drawn.
pub open spec fn spec_cell_x(l: LayoutView, ww: int, wh: int, cols: int, i: int) -> int {
    spec_grid_pos(spec_inner_x(l, ww, wh), spec_inner_w(l, ww, wh), cols, i)
}

/// Row gridline `j`: where horizontal wall `j` of `rows` is drawn.
pub open spec fn spec_cell_y(l: LayoutView, ww: int, wh: int, rows: int, j: int) -> int {
    spec_grid_pos(spec_inner_y(l, ww, wh), spec_inner_h(l, ww, wh), rows, j)
}

/// Largest pixel coordinate a gridline can reach for any accepted input.
pub const MAX_PIXEL_POS: i64 = 18014398509481984;

/// The layout applied to one concrete window size.
pub struct WindowLayout {
    pub maze: WindowMazeLayout,
}

/// The maze area mapped to window pixels: its bounding box, the wall
/// thickness in pixels, and the pixel position of every gridline.
pub struct WindowMazeLayout {
    pub position: Point<Window>,
    pub width: u64,
    pub height: u64,
    pub wall_thickness: u64,
    pub cell_x_positions: Vec<i64>,
    pub cell_y_positions: Vec<i64>,
}

impl WindowMazeLayout {
    /// Gridline positions exist for every column and row boundary, grow
    /// monotonically, and stay in pixel range.
    pub open spec fn wf(self) -> bool {
        &&& self.cell_x_positions@.len() >= 2
        &&& self.cell_y_positions@.len() >= 2
        &&& forall|i: int|
            0 <= i && i + 1 < self.cell_x_positions@.len() ==> #[trigger] self.cell_x_positions@[i]
                <= self.cell_x_positions@[i + 1]
        &&& forall|i: int|
            0 <= i && i + 1 < self.cell_y_positions@.len() ==> #[trigger] self.cell_y_positions@[i]
                <= self.cell_y_positions@[i + 1]
        &&& forall|i: int|
            0 <= i < self.cell_x_positions@.len() ==> 0 <= #[trigger] self.cell_x_positions@[i]
                <= MAX_PIXEL_POS
        &&& forall|i: int|
            0 <= i < self.cell_y_positions@.len() ==> 0 <= #[trigger] self.cell_y_positions@[i]
                <= MAX_PIXEL_POS
    }

    /// The pixel size of `cell`: the distance from its gridline to the next,
    /// on each axis. Cells may differ by a pixel; sizes are exact gridline
    /// differences, never a shared rounded size.
    pub fn cell_size(&self, cell: Point<crate::maze::Maze>) -> (r: (u64, u64))
        requires
            self.wf(),
            cell.x + 1 < self.cell_x_positions@.len(),
            cell.y + 1 < self.cell_y_positions@.len(),
        ensures
            r.0 == self.cell_x_positions@[cell.x + 1] - self.cell_x_positions@[cell.x as int],
            r.1 == self.cell_y_positions@[cell.y + 1] - self.cell_y_positions@[cell.y as int],
    {
        // Reading the lengths shows the verifier that the indices below fit
        // in a machine word.
        let nx = self.cell_x_positions.len();
        let ny = self.cell_y_positions.len();
        proof {
            assert(cell.x + 1 < nx && cell.y + 1 < ny);
        }
        let width = (self.cell_x_positions[cell.x + 1] - self.cell_x_positions[cell.x]) as u64;
        let height = (self.cell_y_positions[cell.y + 1] - self.cell_y_positions[cell.y]) as u64;

        (width, height)
    }
}

/// `0 <= a/d <= a` for nonnegative `a` and positive `d`.
proof fn lemma_div_le_num(a: int, d: int)
    requires
        0 <= a,
        1 <= d,
    ensures
        0 <= a / d <= a,
{
    assert(0 <= a / d <= a) by (nonlinear_arith)
        requires
            0 <= a,
            1 <= d,
    ;
}

/// Division by a positive number is monotone.
proof fn lemma_div_mono(a: int, b: int, d: int)
    requires
        a <= b,
        1 <= d,
    ensures
        a / d <= b / d,
{
    assert(a / d <= b / d) by (nonlinear_arith)
        requires
            a <= b,
            1 <= d,
    ;
}

/// `a/d <= b` whenever `a <= b·d`.
proof fn lemma_mul_div_le(a: int, b: int, d: int)
    requires
        0 <= b,
        1 <= d,
        a <= b * d,
    ensures
        a / d <= b,
{
    assert(a / d <= b) by (nonlinear_arith)
        requires
            0 <= b,
            1 <= d,
            a <= b * d,
    ;
}

/// `(a·d)/d == a`.
proof fn lemma_mul_div_exact(a: int, d: int)
    requires
        1 <= d,
    ensures
        a * d / d == a,
{
    assert(a * d / d == a) by (nonlinear_arith)
        requires
            1 <= d,
    ;
}

impl WindowMazeLayout {
    /// Maps the maze area of `layout` into the already-fitted scene box
    /// `(lw_x, lw_y, lw_w, lw_h)`, with the pixel-per-layout-unit scale given
    /// as the exact ratio `scale_num / scale_den`, and computes the gridline
    /// positions for a `cols` × `rows` grid.
    fn new(
        layout: &Layout,
        scale_num: u64,
        scale_den: u64,
        lw_x: u64,
        lw_y: u64,
        lw_w: u64,
        lw_h: u64,
        cols: usize,
        rows: usize,
    ) -> (r: Self)
        requires
            layout.wf(),
            1 <= scale_den <= MAX_LAYOUT_UNITS,
            scale_num < 4294967296,
            lw_x < 4294967296,
            lw_y < 4294967296,
            lw_w < 4294967296,
            lw_h < 4294967296,
            1 <= cols <= MAX_GRID,
            1 <= rows <= MAX_GRID,
        ensures
            ({
                let l = layout@;
                let px = lw_x + l.maze_x * lw_w / l.total_width;
                let py = lw_y + l.maze_y * lw_h / l.total_height;
                let pw = l.maze_width * lw_w / l.total_width;
                let ph = l.maze_height * lw_h / l.total_height;
                let raw = l.wall_thickness * (scale_num as int) / (scale_den as int);
                let wt = if raw < 1 {
                    1int
                } else {
                    raw
                };
                let xww = px + wt / 2;
                let yww = py + wt / 2;
                let www = if pw >= wt {
                    pw - wt
                } else {
                    0int
                };
                let hww = if ph >= wt {
                    ph - wt
                } else {
                    0int
                };
                &&& r.wf()
                &&& r.position.x == px
                &&& r.position.y == py
                &&& r.width == pw
                &&& r.height == ph
                &&& r.wall_thickness == wt
                &&& r.cell_x_positions@.len() == cols + 1
                &&& r.cell_y_positions@.len() == rows + 1
                &&& forall|i: int|
                    0 <= i <= cols ==> #[trigger] r.cell_x_positions@[i] == spec_grid_pos(
                        xww,
                        www,
                        cols as int,
                        i,
                    )
                &&& forall|j: int|
                    0 <= j <= rows ==> #[trigger] r.cell_y_positions@[j] == spec_grid_pos(
                        yww,
                        hww,
                        rows as int,
                        j,
                    )
            }),
    {
        proof {
            let l = layout@;
            assert(l.maze_x * lw_w <= lw_w * l.total_width && l.maze_width * lw_w <= lw_w
                * l.total_width && l.maze_y * lw_h <= lw_h * l.total_height && l.maze_height * lw_h
                <= lw_h * l.total_height && lw_w * l.total_width <= 4294967295 * 1000000 && lw_h
                * l.total_height <= 4294967295 * 1000000 && 0 <= l.maze_x * lw_w && 0 <= l.maze_y
                * lw_h && 0 <= l.wall_thickness * scale_num && l.wall_thickness * scale_num
                <= 1000000 * 4294967295) by (nonlinear_arith)
                requires
                    0 <= l.maze_x <= l.total_width <= 1000000,
                    1 <= l.maze_width <= l.total_width,
                    0 <= l.maze_y <= l.total_height <= 1000000,
                    1 <= l.maze_height <= l.total_height,
                    0 <= l.wall_thickness <= 1000000,
                    0 <= lw_w < 4294967296,
                    0 <= lw_h < 4294967296,
                    0 <= scale_num < 4294967296,
            ;
            lemma_mul_div_le(l.maze_x * lw_w, lw_w as int, l.total_width);
            lemma_mul_div_le(l.maze_width * lw_w, lw_w as int, l.total_width);
            lemma_mul_div_le(l.maze_y * lw_h, lw_h as int, l.total_height);
            lemma_mul_div_le(l.maze_height * lw_h, lw_h as int, l.total_height);
            lemma_div_le_num(l.wall_thickness * scale_num, scale_den as int);
        }

        let x = lw_x + layout.maze.position.x * lw_w / layout.total_width;
        let y = lw_y + layout.maze.position.y * lw_h / layout.total_height;

        let width = layout.maze.width * lw_w / layout.total_width;
        let height = layout.maze.height * lw_h / layout.total_height;

        let wall_raw = layout.maze.wall_thickness * scale_num / scale_den;
        let wall_thickness = if wall_raw < 1 {
            1
        } else {
            wall_raw
        };

        let x_with_wall = x + wall_thickness / 2;
        let y_with_wall = y + wall_thickness / 2;
        let width_with_wall = if width >= wall_thickness {
            width - wall_thickness
        } else {
            0
        };
        let height_with_wall = if height >= wall_thickness {
            height - wall_thickness
        } else {
            0
        };

        let cell_x_positions = grid_positions(x_with_wall, width_with_wall, cols);
        let cell_y_positions = grid_positions(y_with_wall, height_with_wall, rows);

        let r = Self {
            position: Point::new(x as i64, y as i64),
            width,
            height,
            wall_thickness,
            cell_x_positions,
            cell_y_positions,
        };
        proof {
            assert forall|i: int|
                0 <= i && i + 1 < r.cell_x_positions@.len() implies #[trigger] r.cell_x_positions@[i]
                <= r.cell_x_positions@[i + 1] by {
                lemma_grid_pos_monotone(
                    x_with_wall as int,
                    width_with_wall as int,
                    cols as int,
                    i,
                    i + 1,
                );
            }
            assert forall|i: int|
                0 <= i && i + 1 < r.cell_y_positions@.len() implies #[trigger] r.cell_y_positions@[i]
                <= r.cell_y_positions@[i + 1] by {
                lemma_grid_pos_monotone(
                    y_with_wall as int,
                    height_with_wall as int,
                    rows as int,
                    i,
                    i + 1,
                );
            }
        }
        r
    }
}

impl WindowLayout {
    /// Fits the scene into a `window_width` × `window_height` window:
    /// letterboxed against the axis with excess space, centred there, and
    /// scaled to preserve the aspect ratio exactly.
    fn new(
        layout: &Layout,
        window_width: u32,
        window_height: u32,
        maze_cols: usize,
        maze_rows: usize,
    ) -> (r: Self)
        requires
            layout.wf(),
            1 <= window_width,
            1 <= window_height,
            1 <= maze_cols <= MAX_GRID,
            1 <= maze_rows <= MAX_GRID,
        ensures
            window_layout_matches(r, layout@, window_width as int, window_height as int, maze_cols, maze_rows),
    {
        let ww = window_width as u64;
        let wh = window_height as u64;
        let tw = layout.total_width;
        let th = layout.total_height;
        proof {
            assert(0 <= (ww as int) * (th as int) && (ww as int) * (th as int) <= 4294967295
                * 1000000 && 0 <= (wh as int) * (tw as int) && (wh as int) * (tw as int)
                <= 4294967295 * 1000000) by (nonlinear_arith)
                requires
                    1 <= ww < 4294967296,
                    1 <= wh < 4294967296,
                    1 <= tw <= 1000000,
                    1 <= th <= 1000000,
            ;
        }

        let maze;
        if ww * th >= wh * tw {
            let layout_window_height = wh;
            let layout_window_width = wh * tw / th;
            proof {
                lemma_mul_div_le((wh as int) * (tw as int), ww as int, th as int);
            }
            let layout_window_x = (ww - layout_window_width) / 2;
            let layout_window_y: u64 = 0;

            maze = WindowMazeLayout::new(
                layout,
                wh,
                th,
                layout_window_x,
                layout_window_y,
                layout_window_width,
                layout_window_height,
                maze_cols,
                maze_rows,
            );
        } else {
            let layout_window_width = ww;
            let layout_window_height = ww * th / tw;
            proof {
                lemma_mul_div_le((ww as int) * (th as int), wh as int, tw as int);
            }
            let layout_window_x: u64 = 0;
            let layout_window_y = (wh - layout_window_height) / 2;

            maze = WindowMazeLayout::new(
                layout,
                ww,
                tw,
                layout_window_x,
                layout_window_y,
                layout_window_width,
                layout_window_height,
                maze_cols,
                maze_rows,
            );
        }

        Self { maze }
    }
}

/// What [`Layout::apply`] promises of its result: every field of the maze
/// pixel layout equals its specification at the given window size.
pub open spec fn window_layout_matches(
    r: WindowLayout,
    l: LayoutView,
    ww: int,
    wh: int,
    cols: usize,
    rows: usize,
) -> bool {
    &&& r.maze.wf()
    &&& r.maze.position.x == spec_maze_px_x(l, ww, wh)
    &&& r.maze.position.y == spec_maze_px_y(l, ww, wh)
    &&& r.maze.width == spec_maze_px_w(l, ww, wh)
    &&& r.maze.height == spec_maze_px_h(l, ww, wh)
    &&& r.maze.wall_thickness == spec_wall_px(l, ww, wh)
    &&& r.maze.cell_x_positions@.len() == cols + 1
    &&& r.maze.cell_y_positions@.len() == rows + 1
    &&& forall|i: int|
        0 <= i <= cols ==> #[trigger] r.maze.cell_x_positions@[i] == spec_cell_x(
            l,
            ww,
            wh,
            cols as int,
            i,
        )
    &&& forall|j: int|
        0 <= j <= rows ==> #[trigger] r.maze.cell_y_positions@[j] == spec_cell_y(
            l,
            ww,
            wh,
            rows as int,
            j,
        )
}

impl Layout {
    /// Maps the scene onto a concrete window, yielding the pixel layout of a
    /// `maze_cols` × `maze_rows` maze grid. Pure and deterministic: the
    /// result is exactly the specified integer computation.
    pub fn apply(
        &self,
        window_width: u32,
        window_height: u32,
        maze_cols: usize,
        maze_rows: usize,
    ) -> (r: WindowLayout)
        requires
            self.wf(),
            1 <= window_width,
            1 <= window_height,
            1 <= maze_cols <= MAX_GRID,
            1 <= maze_rows <= MAX_GRID,
        ensures
            window_layout_matches(r, self@, window_width as int, window_height as int, maze_cols, maze_rows),
    {
        WindowLayout::new(self, window_width, window_height, maze_cols, maze_rows)
    }
}

/// The `n + 1` gridline positions `base + i·span/n` for `i` in `0..=n`, each
/// floored independently.
fn grid_positions(base: u64, span: u64, n: usize) -> (r: Vec<i64>)
    requires
        base + span <= MAX_PIXEL_POS,
        span < 4294967296,
        1 <= n <= MAX_GRID,
    ensures
        r@.len() == n + 1,
        forall|i: int| 0 <= i <= n ==> #[trigger] r@[i] == spec_grid_pos(
            base as int,
            span as int,
            n as int,
            i,
        ),
        forall|i: int| 0 <= i <= n ==> 0 <= #[trigger] r@[i] <= MAX_PIXEL_POS,
{
    let mut r: Vec<i64> = Vec::new();
    let mut i: usize = 0;
    while i <= n
        invariant
            base + span <= MAX_PIXEL_POS,
            span < 4294967296,
            1 <= n <= MAX_GRID,
            0 <= i <= n + 1,
            r@.len() == i,
            forall|k: int| 0 <= k < i ==> #[trigger] r@[k] == spec_grid_pos(
                base as int,
                span as int,
                n as int,
                k,
            ),
            forall|k: int| 0 <= k < i ==> 0 <= #[trigger] r@[k] <= MAX_PIXEL_POS,
        decreases n + 1 - i,
    {
        proof {
            assert(0 <= (i as int) * (span as int) && (i as int) * (span as int) <= (span as int)
                * (n as int) && (span as int) * (n as int) <= 4294967295 * 1048576) by (
            nonlinear_arith)
                requires
                    0 <= i <= n <= 1048576,
                    0 <= span <= 4294967295,
            ;
            lemma_mul_div_le((i as int) * (span as int), span as int, n as int);
            lemma_div_le_num((i as int) * (span as int), n as int);
        }
        let pos = base + (i as u64) * span / (n as u64);
        r.push(pos as i64);
        i = i + 1;
    }
    r
}

/// Law: gridlines move monotonically with their index, so every cell has a
/// nonnegative pixel size.
pub proof fn lemma_grid_pos_monotone(base: int, span: int, n: int, i: int, j: int)
    requires
        0 <= span,
        1 <= n,
        0 <= i <= j,
    ensures
        spec_grid_pos(base, span, n, i) <= spec_grid_pos(base, span, n, j),
{
    assert(i * span <= j * span) by (nonlinear_arith)
        requires
            0 <= span,
            i <= j,
    ;
    lemma_div_mono(i * span, j * span, n);
}

/// Law: a window whose aspect ratio matches the scene exactly gets no
/// letterboxing at all — both offsets are zero and the scaled scene fills the
/// window exactly in both dimensions.
pub proof fn lemma_layout_round_trip(l: LayoutView, ww: int, wh: int)
    requires
        l.wf(),
        1 <= ww,
        1 <= wh,
        ww * l.total_height == wh * l.total_width,
    ensures
        spec_fit_x(l, ww, wh) == 0,
        spec_fit_y(l, ww, wh) == 0,
        spec_fit_w(l, ww, wh) == ww,
        spec_fit_h(l, ww, wh) == wh,
{
    assert(spec_wide(l, ww, wh));
    assert(wh * l.total_width == ww * l.total_height);
    lemma_mul_div_exact(ww, l.total_height);
    assert(ww * l.total_height / l.total_height == ww);
    assert(spec_fit_w(l, ww, wh) == ww);
}

/// Law: a window proportionally wider than the scene by any margin of at
/// least two pixel columns is letterboxed left and right only: the vertical
/// offset is zero, the horizontal offset strictly positive, and the scaled
/// scene uses the full window height.
pub proof fn lemma_layout_wide_window(l: LayoutView, ww: int, wh: int)
    requires
        l.wf(),
        1 <= ww,
        1 <= wh,
        ww * l.total_height >= wh * l.total_width + 2 * l.total_height,
    ensures
        spec_fit_y(l, ww, wh) == 0,
        spec_fit_x(l, ww, wh) > 0,
        spec_fit_h(l, ww, wh) == wh,
{
    let tw = l.total_width;
    let th = l.total_height;
    assert(wh * tw >= 0) by (nonlinear_arith)
        requires
            1 <= wh,
            1 <= tw,
    ;
    assert(spec_wide(l, ww, wh));
    assert(wh * tw <= (ww - 2) * th) by {
        assert((ww - 2) * th == ww * th - 2 * th) by (nonlinear_arith);
    }
    lemma_mul_div_le(wh * tw, ww - 2, th);
    assert(spec_fit_w(l, ww, wh) <= ww - 2);
    assert(ww - spec_fit_w(l, ww, wh) >= 2);
    lemma_div_le_num(spec_fit_w(l, ww, wh), 1);
    assert(spec_fit_x(l, ww, wh) >= 2int / 2) by {
        lemma_div_mono(2, ww - spec_fit_w(l, ww, wh), 2);
    }
}

} // verus!
