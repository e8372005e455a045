use maze_gen::stable_loop::{target_frame_time, StableLoop, StableLoopState};

struct CountingApp {
    updates: usize,
    draws: usize,
    keep_going: bool,
}

impl CountingApp {
    fn new() -> Self {
        Self {
            updates: 0,
            draws: 0,
            keep_going: true,
        }
    }
}

impl StableLoop for CountingApp {
    fn update(&mut self, _current_fps: usize) -> bool {
        self.updates += 1;
        self.keep_going
    }

    fn draw(&mut self, _current_fps: usize) {
        self.draws += 1;
    }
}

#[test]
fn trait_defaults_are_sixty_fps_and_eight_updates() {
    let app = CountingApp::new();
    assert_eq!(app.target_fps(), 60);
    assert_eq!(app.max_updates_per_frame(), 8);
}

const TICK: u64 = 1_000_000_000 / 60;

#[test]
fn tick_duration_is_a_sixtieth_of_a_second() {
    assert_eq!(target_frame_time(60), TICK);
    assert_eq!(target_frame_time(1), 1_000_000_000);
    // Degenerate rates are clamped so the loop still makes progress.
    assert_eq!(target_frame_time(0), 1_000_000_000);
    assert_eq!(target_frame_time(u64::MAX), 1);
}

#[test]
fn one_tick_elapsed_runs_one_update_and_one_draw() {
    let mut state = StableLoopState::new(0);
    let mut app = CountingApp::new();

    let fps = app.target_fps();
    let max_updates = app.max_updates_per_frame();
    let (keep_going, wait) = state.single_iteration(&mut app, TICK, fps, max_updates);

    assert!(keep_going);
    assert_eq!(app.updates, 1);
    assert_eq!(app.draws, 1);
    // Exactly one tick was consumed, so the full tick budget remains.
    assert_eq!(wait, TICK);
}

#[test]
fn catch_up_cap_resets_the_accumulator() {
    let mut state = StableLoopState::new(0);
    let mut app = CountingApp::new();

    // Ten ticks of lag with a cap of eight: one update runs and the lag is
    // dropped to zero instead of performing ten updates.
    let (keep_going, wait) = state.single_iteration(&mut app, 10 * TICK, 60, 8);

    assert!(keep_going);
    assert_eq!(app.updates, 1);
    assert_eq!(app.draws, 1);
    // The accumulator was reset to zero, so the whole tick budget remains.
    assert_eq!(wait, TICK);
}

#[test]
fn less_than_a_tick_runs_nothing() {
    let mut state = StableLoopState::new(0);
    let mut app = CountingApp::new();

    let (keep_going, _wait) = state.single_iteration(&mut app, TICK - 1, 60, 8);

    assert!(keep_going);
    assert_eq!(app.updates, 0);
    assert_eq!(app.draws, 0);
}

#[test]
fn update_returning_false_stops_without_drawing() {
    let mut state = StableLoopState::new(0);
    let mut app = CountingApp::new();
    app.keep_going = false;

    let fps = app.target_fps();
    let max_updates = app.max_updates_per_frame();
    let (keep_going, wait) = state.single_iteration(&mut app, TICK, fps, max_updates);

    assert!(!keep_going);
    assert_eq!(app.updates, 1);
    assert_eq!(app.draws, 0);
    assert_eq!(wait, 0);
}

#[test]
fn several_ticks_below_the_cap_all_run() {
    let mut state = StableLoopState::new(0);
    let mut app = CountingApp::new();

    let (keep_going, wait) = state.single_iteration(&mut app, 3 * TICK, 60, 8);

    assert!(keep_going);
    assert_eq!(app.updates, 3);
    assert_eq!(app.draws, 1);
    // All three ticks were consumed exactly, so a full tick budget remains.
    assert_eq!(wait, TICK);
}

#[test]
fn fps_rolls_over_once_a_second() {
    let mut state = StableLoopState::new(0);
    let mut app = CountingApp::new();

    // 60 frames, one tick each: 60 draws within the first second.
    for frame in 1..=60 {
        state.single_iteration(&mut app, frame * TICK, 60, 8);
    }
    assert_eq!(state.current_fps(), 0);

    // Crossing the one-second boundary snapshots the counter.
    state.single_iteration(&mut app, 1_000_000_001, 60, 8);
    assert_eq!(state.current_fps(), 60);
}
