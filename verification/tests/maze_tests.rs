use maze_gen::maze::{Maze, Wall};
use maze_gen::point::MazePoint;

fn wall(a: (i64, i64), b: (i64, i64)) -> Wall {
    Wall::new(MazePoint::new(a.0, a.1), MazePoint::new(b.0, b.1)).unwrap()
}

#[test]
fn new_has_full_wall_set() {
    let maze = Maze::new(16, 16);
    assert_eq!(maze.width(), 16);
    assert_eq!(maze.height(), 16);
    // w·(h−1) + h·(w−1)
    assert_eq!(maze.walls().len(), 16 * 15 + 16 * 15);
}

#[test]
fn new_small_wall_counts() {
    assert_eq!(Maze::new(1, 1).walls().len(), 0);
    assert_eq!(Maze::new(2, 1).walls().len(), 1);
    assert_eq!(Maze::new(2, 2).walls().len(), 4);
    assert_eq!(Maze::new(3, 2).walls().len(), 3 + 4);
}

#[test]
fn new_starts_at_origin() {
    let maze = Maze::new(4, 4);
    assert_eq!(maze.cursor(), Some(MazePoint::new(0, 0)));
    assert!(maze.is_visited(MazePoint::new(0, 0)));
    assert!(!maze.is_visited(MazePoint::new(1, 0)));
    assert!(!maze.is_visited(MazePoint::new(3, 3)));
}

#[test]
fn new_contains_each_adjacency_once() {
    let maze = Maze::new(3, 3);
    let walls = maze.walls();
    let expected = [
        wall((0, 0), (1, 0)),
        wall((1, 0), (2, 0)),
        wall((0, 1), (1, 1)),
        wall((0, 0), (0, 1)),
        wall((2, 1), (2, 2)),
    ];
    for w in expected.iter() {
        assert_eq!(walls.iter().filter(|x| x == &w).count(), 1);
    }
}

#[test]
fn wall_is_order_independent() {
    let a = MazePoint::new(3, 4);
    let b = MazePoint::new(3, 5);
    assert_eq!(Wall::new(a, b).unwrap(), Wall::new(b, a).unwrap());

    let c = MazePoint::new(7, 2);
    let d = MazePoint::new(6, 2);
    assert_eq!(Wall::new(c, d).unwrap(), Wall::new(d, c).unwrap());
}

#[test]
fn wall_is_canonically_ordered() {
    let w = wall((3, 5), (3, 4));
    assert_eq!(w.first_cell(), MazePoint::new(3, 4));
    assert_eq!(w.second_cell(), MazePoint::new(3, 5));

    let w = wall((7, 2), (6, 2));
    assert_eq!(w.first_cell(), MazePoint::new(6, 2));
    assert_eq!(w.second_cell(), MazePoint::new(7, 2));
}

#[test]
fn wall_rejects_non_adjacent_cells() {
    let origin = MazePoint::new(0, 0);
    assert!(Wall::new(origin, MazePoint::new(1, 1)).is_err());
    assert!(Wall::new(origin, origin).is_err());
    assert!(Wall::new(origin, MazePoint::new(2, 0)).is_err());
    assert!(Wall::new(origin, MazePoint::new(0, -2)).is_err());
    let message = Wall::new(origin, MazePoint::new(5, 5)).unwrap_err();
    assert_eq!(
        message,
        "A wall must be between two adjacent cells (no diagonals allowed)"
    );
}

#[test]
fn step_on_1x1_is_a_noop() {
    let mut maze = Maze::new(1, 1);
    let mut rng = rand::rng();
    maze.step(&mut rng);
    assert_eq!(maze.cursor(), Some(MazePoint::new(0, 0)));
    assert_eq!(maze.walls().len(), 0);
    assert!(!maze.is_visited(MazePoint::new(1, 0)));
}

#[test]
fn step_on_2x1_is_deterministic() {
    let mut maze = Maze::new(2, 1);
    let mut rng = rand::rng();
    maze.step(&mut rng);
    assert_eq!(maze.cursor(), Some(MazePoint::new(1, 0)));
    assert!(maze.is_visited(MazePoint::new(1, 0)));
    assert_eq!(maze.walls().len(), 0);
}

#[test]
fn step_moves_one_cell_and_removes_the_wall() {
    let mut maze = Maze::new(5, 5);
    let mut rng = rand::rng();
    for _ in 0..50 {
        let before = maze.cursor().unwrap();
        maze.step(&mut rng);
        let after = maze.cursor().unwrap();

        let dx = (after.x - before.x).abs();
        let dy = (after.y - before.y).abs();
        assert_eq!(dx + dy, 1, "cursor must move to an axis-neighbour");
        assert!(after.x >= 0 && after.x < 5 && after.y >= 0 && after.y < 5);
        assert!(maze.is_visited(after));

        let crossed = Wall::new(before, after).unwrap();
        assert!(!maze.walls().contains(&crossed));
    }
}

#[test]
fn all_cells_is_row_major() {
    let maze = Maze::new(3, 2);
    let cells = maze.all_cells();
    let expected = vec![
        MazePoint::new(0, 0),
        MazePoint::new(1, 0),
        MazePoint::new(2, 0),
        MazePoint::new(0, 1),
        MazePoint::new(1, 1),
        MazePoint::new(2, 1),
    ];
    assert_eq!(cells, expected);
}
