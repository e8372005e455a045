//! A maze generator demo library: a grid maze carved by a random walk, an
//! aspect-ratio-preserving layout engine mapping abstract layout units onto
//! window pixels, a fixed-timestep loop driver, and a small clickable button
//! set. Rendering and windowing live outside the library; everything here is
//! plain data and verified logic.

use vstd::prelude::*;

pub mod point;
pub mod maze;
pub mod random;
pub mod point_new;
pub mod layout;
pub mod ui;
pub mod stable_loop;
pub mod graphics;

verus! {

/// Horizontal pixel origin of the maze area in the nominal window.
pub const GFX_MAZE_X: i64 = 0;
/// Vertical pixel origin of the maze area in the nominal window.
pub const GFX_MAZE_Y: i64 = 0;
/// Nominal pixel width of the maze area.
pub const GFX_MAZE_WIDTH: i64 = 768;
/// Nominal pixel height of the maze area.
pub const GFX_MAZE_HEIGHT: i64 = 768;

/// Horizontal pixel origin of the button strip.
pub const GFX_UI_X: i64 = 0;
/// Vertical pixel origin of the button strip (directly below the maze area).
pub const GFX_UI_Y: i64 = GFX_MAZE_HEIGHT;
/// Pixel width of the button strip.
pub const GFX_UI_WIDTH: i64 = GFX_MAZE_WIDTH;
/// Pixel height of the button strip.
pub const GFX_UI_HEIGHT: i64 = 96;
/// Uniform padding, in pixels, around and between the buttons.
pub const GFX_UI_PADDING: i64 = 8;

/// Simulation tick rate of the demo, in ticks per second.
pub const TARGET_FPS: u64 = 60;

} // verus!

