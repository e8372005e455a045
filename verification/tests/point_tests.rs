use maze_gen::graphics::FontLoadError;
use maze_gen::maze::Maze;
use maze_gen::point::{Convert, MazePoint, WindowPoint};
use maze_gen::point_new::Point;

#[test]
fn maze_point_to_window_point_scales_by_cell_size() {
    // 768 / 16 = 48 pixels per cell.
    let maze = Maze::new(16, 16);
    let p: WindowPoint = MazePoint::new(0, 0).convert(&maze);
    assert_eq!(p, WindowPoint::new(0, 0));
    let p: WindowPoint = MazePoint::new(1, 2).convert(&maze);
    assert_eq!(p, WindowPoint::new(48, 96));
    let p: WindowPoint = MazePoint::new(15, 15).convert(&maze);
    assert_eq!(p, WindowPoint::new(720, 720));
}

#[test]
fn window_point_to_maze_point_divides_and_clamps() {
    let maze = Maze::new(16, 16);
    let c: MazePoint = WindowPoint::new(0, 0).convert(&maze);
    assert_eq!(c, MazePoint::new(0, 0));
    let c: MazePoint = WindowPoint::new(100, 100).convert(&maze);
    assert_eq!(c, MazePoint::new(2, 2));
    // Points outside the maze area are clamped onto its border cells.
    let c: MazePoint = WindowPoint::new(-5, 10000).convert(&maze);
    assert_eq!(c, MazePoint::new(0, 15));
}

#[test]
fn phantom_tagged_points_carry_their_coordinates() {
    let cell: Point<Maze> = Point::new(3, 4);
    assert_eq!(cell.x, 3);
    assert_eq!(cell.y, 4);
}

#[test]
fn font_load_error_keeps_the_message() {
    let err = FontLoadError::new(String::from("no such file"));
    assert_eq!(err.message(), "no such file");
    let err = FontLoadError::from(String::from("bad font"));
    assert_eq!(err.message(), "bad font");
}
