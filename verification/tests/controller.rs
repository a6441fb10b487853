use fractal_explorer::controller::{
    next_cap, IterationController, DEFAULT_MAX_ITERATIONS, DEFAULT_MIN_ITERATIONS,
    GROWTH_INCREMENT, GROWTH_PERIOD,
};
use fractal_explorer::input::KeyState;

#[test]
fn constants_have_the_documented_values() {
    assert_eq!(DEFAULT_MIN_ITERATIONS, 150);
    assert_eq!(DEFAULT_MAX_ITERATIONS, 2000);
    assert_eq!(GROWTH_INCREMENT, 100);
    assert_eq!(GROWTH_PERIOD, 5);
}

#[test]
fn cap_resets_when_the_view_moved() {
    assert_eq!(next_cap(0, 999, 150, 2000), 150);
    assert_eq!(next_cap(0, 2000, 150, 2000), 150);
    assert_eq!(next_cap(0, 0, 150, 2000), 150);
}

#[test]
fn cap_grows_on_every_fifth_still_frame() {
    assert_eq!(next_cap(5, 150, 150, 2000), 250);
    assert_eq!(next_cap(10, 250, 150, 2000), 350);
    assert_eq!(next_cap(600, 700, 150, 2000), 800);
}

#[test]
fn cap_is_kept_between_growth_steps() {
    for frames in [1u64, 2, 3, 4, 6, 7, 8, 9, 11, 601] {
        assert_eq!(next_cap(frames, 170, 150, 2000), 170);
    }
    assert_eq!(next_cap(3, 5000, 150, 2000), 5000);
    assert_eq!(next_cap(u64::MAX - 1, 170, 150, 2000), 170);
}

#[test]
fn growth_is_clamped_to_the_limits() {
    assert_eq!(next_cap(5, 1950, 150, 2000), 2000);
    assert_eq!(next_cap(5, 1900, 150, 2000), 2000);
    assert_eq!(next_cap(5, 2000, 150, 2000), 2000);
    assert_eq!(next_cap(5, 10, 150, 2000), 150);
    assert_eq!(next_cap(5, 5000, 150, 2000), 2000);
    assert_eq!(next_cap(5, u32::MAX, 0, u32::MAX), u32::MAX);
    assert_eq!(next_cap(u64::MAX, u32::MAX - 50, 0, u32::MAX), u32::MAX);
    assert_eq!(next_cap(5, 7, 7, 7), 7);
}

#[test]
fn controller_starts_at_the_minimum() {
    let state = IterationController::new(150, 2000);
    assert_eq!(state.frames_since_move, 0);
    assert_eq!(state.current_max_iterations, 150);
    assert_eq!(state.min_iterations, 150);
    assert_eq!(state.max_iterations, 2000);
    assert_eq!(state.cap(), 150);
    assert_eq!(IterationController::default(), state);
}

#[test]
fn five_idle_frames_raise_the_cap_to_250() {
    let mut state = IterationController::new(150, 2000);
    for frame in 1..=4u64 {
        state.advance(false);
        assert_eq!(state.frames_since_move, frame);
        assert_eq!(state.cap(), 150);
    }
    state.advance(false);
    assert_eq!(state.frames_since_move, 5);
    assert_eq!(state.cap(), 250);
}

#[test]
fn a_move_resets_counter_and_cap() {
    let mut state = IterationController::new(150, 2000);
    for _ in 0..23 {
        state.advance(false);
    }
    assert_eq!(state.cap(), 550);
    state.advance(true);
    assert_eq!(state.frames_since_move, 0);
    assert_eq!(state.cap(), 150);
    state.advance(true);
    assert_eq!(state.frames_since_move, 0);
    assert_eq!(state.cap(), 150);
    for _ in 0..5 {
        state.advance(false);
    }
    assert_eq!(state.frames_since_move, 5);
    assert_eq!(state.cap(), 250);
}

#[test]
fn idle_cap_follows_the_closed_form() {
    let mut state = IterationController::new(150, 2000);
    for n in 1..=300u64 {
        state.advance(false);
        let grown: u64 = 150 + 100 * (n / 5);
        let expected: u64 = if grown > 2000 { 2000 } else { grown };
        assert_eq!(state.frames_since_move, n);
        assert_eq!(state.cap() as u64, expected);
    }
}

#[test]
fn a_resting_view_reaches_the_maximum_and_stays() {
    let mut state = IterationController::default();
    for _ in 0..94 {
        state.advance(false);
    }
    assert_eq!(state.cap(), 1950);
    state.advance(false);
    assert_eq!(state.cap(), 2000);
    for _ in 0..50 {
        state.advance(false);
        assert_eq!(state.cap(), 2000);
    }
}

#[test]
fn begin_frame_follows_the_keys() {
    let mut state = IterationController::new(10, 500);
    let idle = KeyState::released();
    let mut pan = KeyState::released();
    pan.pan_left = true;
    for _ in 0..4 {
        assert_eq!(state.begin_frame(&idle), 10);
    }
    assert_eq!(state.begin_frame(&idle), 110);
    assert_eq!(state.frames_since_move, 5);
    assert_eq!(state.begin_frame(&pan), 10);
    assert_eq!(state.frames_since_move, 0);
    assert_eq!(state.begin_frame(&idle), 10);
    assert_eq!(state.frames_since_move, 1);
}

#[test]
fn counter_may_reach_its_largest_value() {
    let mut state = IterationController {
        frames_since_move: u64::MAX - 1,
        current_max_iterations: 300,
        min_iterations: 150,
        max_iterations: 2000,
    };
    state.advance(false);
    assert_eq!(state.frames_since_move, u64::MAX);
    assert_eq!(state.cap(), 400);
    state.advance(true);
    assert_eq!(state.frames_since_move, 0);
    assert_eq!(state.cap(), 150);
}

#[test]
fn no_key_down_means_no_movement() {
    let keys = KeyState::released();
    assert!(!keys.any_active());
    assert_eq!(
        keys,
        KeyState {
            zoom_in: false,
            zoom_out: false,
            pan_up: false,
            pan_down: false,
            pan_right: false,
            pan_left: false,
        }
    );
}

#[test]
fn any_single_key_counts_as_movement() {
    let mut keys = KeyState::released();
    keys.zoom_in = true;
    assert!(keys.any_active());
    let mut keys = KeyState::released();
    keys.zoom_out = true;
    assert!(keys.any_active());
    let mut keys = KeyState::released();
    keys.pan_up = true;
    assert!(keys.any_active());
    let mut keys = KeyState::released();
    keys.pan_down = true;
    assert!(keys.any_active());
    let mut keys = KeyState::released();
    keys.pan_right = true;
    assert!(keys.any_active());
    let mut keys = KeyState::released();
    keys.pan_left = true;
    assert!(keys.any_active());
    keys.zoom_in = true;
    keys.pan_up = true;
    assert!(keys.any_active());
}
