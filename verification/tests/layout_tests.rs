use maze_gen::layout::{Layout, LayoutConfig};
use maze_gen::point_new::Point;

fn square_config() -> LayoutConfig {
    // A 100 × 100 content area with 5 units of padding: aspect 110 : 110.
    LayoutConfig {
        padding: 5,
        maze_width: 100,
        maze_height: 100,
        maze_wall_thickness: 0,
    }
}

#[test]
fn aspect_ratio_is_content_plus_padding() {
    let layout = Layout::new(square_config());
    assert_eq!(layout.aspect_ratio(), (110, 110));

    let wide = Layout::new(LayoutConfig {
        padding: 10,
        maze_width: 300,
        maze_height: 100,
        maze_wall_thickness: 2,
    });
    assert_eq!(wide.aspect_ratio(), (320, 120));
}

#[test]
fn matching_window_has_no_offsets() {
    // A window exactly matching the configured aspect ratio: content fills
    // it on both axes and both offsets are zero.
    let layout = Layout::new(square_config());
    let applied = layout.apply(440, 440, 4, 4);
    let maze = &applied.maze;

    // The maze area starts at the scaled padding with no letterbox offset.
    assert_eq!(maze.position.x, 5 * 440 / 110);
    assert_eq!(maze.position.y, 5 * 440 / 110);
    assert_eq!(maze.position.x, 20);
    assert_eq!(maze.position.y, 20);
    assert_eq!(maze.width, 400);
    assert_eq!(maze.height, 400);
}

#[test]
fn far_wider_window_is_letterboxed_horizontally() {
    // Aspect far wider than 1:1 — full window height used, vertical offset
    // zero, horizontal offset strictly positive.
    let layout = Layout::new(square_config());
    let applied = layout.apply(1000, 200, 4, 4);
    let maze = &applied.maze;

    // Scene box: 200 × 200 at x = 400. Maze area inset by scaled padding.
    assert_eq!(maze.position.x, 400 + 5 * 200 / 110);
    assert_eq!(maze.position.y, 5 * 200 / 110);
    assert_eq!(maze.width, 100 * 200 / 110);
    assert_eq!(maze.height, 100 * 200 / 110);
    assert!(maze.position.x > maze.position.y);
}

#[test]
fn wall_thickness_is_scaled_and_at_least_one_pixel() {
    let layout = Layout::new(square_config());
    // Abstract thickness 0 still draws a 1-pixel wall.
    assert_eq!(layout.apply(440, 440, 4, 4).maze.wall_thickness, 1);

    let thick = Layout::new(LayoutConfig {
        padding: 5,
        maze_width: 100,
        maze_height: 100,
        maze_wall_thickness: 2,
    });
    // 2 units × (440 px / 110 units) = 8 px.
    assert_eq!(thick.apply(440, 440, 4, 4).maze.wall_thickness, 8);
}

#[test]
fn gridlines_are_floored_independently() {
    let layout = Layout::new(square_config());
    let maze = layout.apply(440, 440, 4, 4).maze;

    // Inner span: x from 20 (wall 1 / 2 = 0 inset) across 400 − 1 = 399 px.
    assert_eq!(maze.cell_x_positions, vec![20, 119, 219, 319, 419]);
    assert_eq!(maze.cell_y_positions, vec![20, 119, 219, 319, 419]);

    // Independent flooring makes cells differ by a pixel, deliberately.
    assert_eq!(maze.cell_size(Point::new(0, 0)), (99, 99));
    assert_eq!(maze.cell_size(Point::new(1, 1)), (100, 100));

    // The cells exactly tile the inner span.
    let total: u64 = (0..4).map(|i| maze.cell_size(Point::new(i, 0)).0).sum();
    assert_eq!(total, 399);
}

#[test]
fn degenerate_window_yields_empty_cells() {
    let layout = Layout::new(square_config());
    let maze = layout.apply(1, 1, 4, 4).maze;
    assert_eq!(maze.width, 0);
    assert_eq!(maze.height, 0);
    assert_eq!(maze.cell_size(Point::new(0, 0)), (0, 0));
}
