use scenegraph::input::{InputFrame, Key};

#[test]
fn new_frame_is_empty() {
    let mut input = InputFrame::new();
    assert_eq!(input.pressed_keys(), Vec::<Key>::new());
    assert!(!input.is_pressed(Key::W));
    assert_eq!(input.drain_mouse(), (0, 0));
}

#[test]
fn a_key_is_recorded_once() {
    let mut input = InputFrame::new();
    input.press(Key::W);
    input.press(Key::A);
    input.press(Key::W);
    assert_eq!(input.pressed_keys(), vec![Key::W, Key::A]);
    assert!(input.is_pressed(Key::W));
    assert!(input.is_pressed(Key::A));
    assert!(!input.is_pressed(Key::S));
}

#[test]
fn release_takes_the_key_out_and_keeps_the_order() {
    let mut input = InputFrame::new();
    input.press(Key::W);
    input.press(Key::A);
    input.press(Key::D);
    input.release(Key::A);
    assert_eq!(input.pressed_keys(), vec![Key::W, Key::D]);
    input.release(Key::A);
    assert_eq!(input.pressed_keys(), vec![Key::W, Key::D]);
    input.release(Key::W);
    input.release(Key::D);
    assert_eq!(input.pressed_keys(), Vec::<Key>::new());
    input.press(Key::A);
    assert_eq!(input.pressed_keys(), vec![Key::A]);
}

#[test]
fn keys_do_not_touch_the_mouse() {
    let mut input = InputFrame::new();
    input.accumulate_mouse(4, 5);
    input.press(Key::T);
    input.release(Key::T);
    assert_eq!(input.drain_mouse(), (4, 5));
}

#[test]
fn mouse_movements_add_up() {
    let mut input = InputFrame::new();
    input.accumulate_mouse(5_000_000, 3_000_000);
    input.accumulate_mouse(-1_000_000, 500_000);
    assert_eq!(input.drain_mouse(), (4_000_000, 3_500_000));
}

#[test]
fn mouse_movement_stops_at_the_ends_of_the_range() {
    let mut input = InputFrame::new();
    input.accumulate_mouse(i64::MAX, i64::MIN);
    input.accumulate_mouse(1, -1);
    assert_eq!(input.drain_mouse(), (i64::MAX, i64::MIN));
}

#[test]
fn drained_mouse_movement_is_not_seen_again() {
    let mut input = InputFrame::new();
    input.press(Key::W);
    input.accumulate_mouse(5_000_000, 3_000_000);
    assert_eq!(input.drain_mouse(), (5_000_000, 3_000_000));
    assert_eq!(input.drain_mouse(), (0, 0));
    assert_eq!(input.pressed_keys(), vec![Key::W]);
}

#[test]
fn pressed_keys_is_a_snapshot() {
    let mut input = InputFrame::new();
    input.press(Key::W);
    let snapshot = input.pressed_keys();
    input.release(Key::W);
    input.press(Key::S);
    assert_eq!(snapshot, vec![Key::W]);
    assert_eq!(input.pressed_keys(), vec![Key::S]);
}
