//! The keyboard: directions, edges, taps and repeats.

use rustpal::input::{
    key_map, InputState, DIR_EAST, DIR_NORTH, DIR_SOUTH, DIR_UNKNOWN, DIR_WEST, KEY_MAP_LEN, KEY_RIGHT, KEY_SEARCH,
    KEY_UP,
};
use rustpal::keys::KeyCode;

#[test]
fn key_map_len_constant_matches() {
    assert_eq!(key_map().len(), KEY_MAP_LEN);
}

#[test]
fn direction_ordering_follows_most_recent_key() {
    let mut s = InputState::new();
    s.handle_key_event(KeyCode::ArrowUp, true);
    s.update_keyboard_state(10);
    assert_eq!(s.dir, DIR_NORTH);
    assert!(s.pressed(KEY_UP));

    // Press right while up held: direction switches to east.
    s.handle_key_event(KeyCode::ArrowRight, true);
    s.update_keyboard_state(20);
    assert_eq!(s.dir, DIR_EAST);

    // Release right: direction falls back to north.
    s.handle_key_event(KeyCode::ArrowRight, false);
    s.update_keyboard_state(30);
    assert_eq!(s.dir, DIR_NORTH);

    // Release up: no direction.
    s.handle_key_event(KeyCode::ArrowUp, false);
    s.update_keyboard_state(40);
    assert_eq!(s.dir, DIR_UNKNOWN);
}

#[test]
fn press_then_release_same_frame_still_fires_keydown() {
    let mut s = InputState::new();
    s.handle_key_event(KeyCode::Enter, true);
    s.update_keyboard_state(10);
    assert!(s.pressed(KEY_SEARCH));
    s.clear_key_state();
    s.handle_key_event(KeyCode::Enter, false);
    s.update_keyboard_state(10);
    assert!(!s.pressed(KEY_SEARCH));
    assert_eq!(s.dir, DIR_UNKNOWN);
}

#[test]
fn release_all_drops_held_keys_on_next_update() {
    let mut s = InputState::new();
    s.handle_key_event(KeyCode::ArrowUp, true);
    s.update_keyboard_state(10);
    assert_eq!(s.dir, DIR_NORTH);
    s.release_all();
    s.update_keyboard_state(20);
    assert_eq!(s.dir, DIR_UNKNOWN);
    assert_eq!(s.take_direction(0), DIR_UNKNOWN);
}

#[test]
fn key_press_is_edge_triggered_with_repeat() {
    let mut s = InputState::new();
    s.handle_key_event(KeyCode::Enter, true);
    s.update_keyboard_state(10);
    assert!(s.pressed(KEY_SEARCH));
    s.clear_key_state();
    // Held but within repeat delay: no new press.
    s.update_keyboard_state(100);
    assert!(!s.pressed(KEY_SEARCH));
    // After the 200ms initial repeat delay: repeats.
    s.update_keyboard_state(300);
    assert!(s.pressed(KEY_SEARCH));
}

#[test]
fn terminal_direction_tap_is_consumed_exactly_once() {
    let mut s = InputState::new();
    s.handle_key_tap(KeyCode::ArrowRight);
    assert!(s.pressed(KEY_RIGHT));
    assert_eq!(s.direction(), DIR_EAST);
    assert_eq!(s.take_direction(0), DIR_EAST);
    assert_eq!(s.take_direction(0), DIR_UNKNOWN);
}

#[test]
fn repeated_terminal_taps_coalesce_before_a_frame() {
    let mut s = InputState::new();
    s.handle_key_tap(KeyCode::ArrowDown);
    s.handle_key_tap(KeyCode::ArrowDown);
    s.handle_key_tap(KeyCode::ArrowDown);
    assert_eq!(s.take_direction(0), DIR_SOUTH);
    assert_eq!(s.take_direction(0), DIR_UNKNOWN);
}

#[test]
fn quick_physical_press_and_release_still_moves_once() {
    let mut s = InputState::new();
    s.handle_key_event(KeyCode::ArrowLeft, true);
    s.handle_key_event(KeyCode::ArrowLeft, false);
    s.update_keyboard_state(10);
    assert_eq!(s.dir, DIR_UNKNOWN);
    assert_eq!(s.take_direction(0), DIR_WEST);
    assert_eq!(s.take_direction(0), DIR_UNKNOWN);
}

#[test]
fn held_direction_continues_after_initial_latch() {
    let mut s = InputState::new();
    s.handle_key_event(KeyCode::ArrowUp, true);
    s.update_keyboard_state(10);
    assert_eq!(s.take_direction(100), DIR_NORTH);
    assert_eq!(s.take_direction(200), DIR_NORTH);
    assert_eq!(s.take_direction(300), DIR_NORTH);
    s.handle_key_event(KeyCode::ArrowUp, false);
    s.update_keyboard_state(310);
    assert_eq!(s.take_direction(400), DIR_UNKNOWN);
}

#[test]
fn tap_straddling_a_frame_boundary_moves_once() {
    // Press at 95 ms, poll at 100 ms (edge step), release at 130 ms,
    // poll at 200 ms: the key was never held for HOLD_WALK_MS.
    let mut s = InputState::new();
    s.handle_key_event(KeyCode::ArrowRight, true);
    s.update_keyboard_state(95);
    assert_eq!(s.take_direction(100), DIR_EAST);
    s.update_keyboard_state(100);
    // Still held at the next poll but only 5 ms old: no second step yet.
    assert_eq!(s.take_direction(100), DIR_UNKNOWN);
    s.handle_key_event(KeyCode::ArrowRight, false);
    s.update_keyboard_state(130);
    assert_eq!(s.take_direction(200), DIR_UNKNOWN);
}

#[test]
fn genuine_hold_walks_on_the_second_frame() {
    let mut s = InputState::new();
    s.handle_key_event(KeyCode::ArrowDown, true);
    s.update_keyboard_state(5);
    assert_eq!(s.take_direction(100), DIR_SOUTH);
    s.update_keyboard_state(200);
    assert_eq!(s.take_direction(200), DIR_SOUTH);
}

#[test]
fn held_keys_repeat_after_their_waits() {
    let mut s = InputState::new();
    s.handle_key_event(KeyCode::Enter, true);
    let pressed = |s: &mut InputState, now: u64| {
        s.clear_key_state();
        s.update_keyboard_state(now);
        s.pressed(KEY_SEARCH)
    };
    let seen: Vec<bool> = [10, 210, 211, 286, 287, 400].iter().map(|&t| pressed(&mut s, t)).collect();
    assert_eq!(seen, vec![true, false, true, false, true, true]);
    s.handle_key_event(KeyCode::Enter, false);
    assert!(!pressed(&mut s, 500));
    s.enable_key_repeat = false;
    s.handle_key_event(KeyCode::Enter, true);
    assert!(pressed(&mut s, 510));
    assert!(!pressed(&mut s, 5000));
}

#[test]
fn released_keys_press_and_walk_no_more() {
    let mut s = InputState::new();
    s.handle_key_event(KeyCode::ArrowUp, true);
    s.update_keyboard_state(10);
    s.release_all();
    assert_eq!((s.dir, s.direction(), s.key_press), (DIR_NORTH, DIR_NORTH, KEY_UP));
    s.clear_key_state();
    s.update_keyboard_state(1000);
    assert_eq!((s.dir, s.key_press, s.take_direction(2000)), (DIR_UNKNOWN, 0, DIR_UNKNOWN));
}
