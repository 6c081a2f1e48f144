use scenegraph::animation::{
    door_animation, door_offset, main_rotor_rotation, rotor_angle, step_toward,
    tail_rotor_rotation, DOOR_CLOSED_OFFSET, DOOR_OPEN_OFFSET, DOOR_SPEED, MAIN_ROTOR_RATE,
    TAIL_ROTOR_RATE,
};
use scenegraph::node::{SceneError, SceneNode};
use scenegraph::vector::Vec3;

#[test]
fn door_moves_by_speed_times_frame_length() {
    assert_eq!(DOOR_SPEED, 10);
    assert_eq!(door_offset(0, true, 16), 160);
    assert_eq!(door_offset(160, true, 16), 320);
    assert_eq!(door_offset(120_000, false, 1000), 110_000);
    assert_eq!(door_offset(500, true, 0), 500);
}

#[test]
fn door_stops_at_its_target() {
    assert_eq!(door_offset(119_990, true, 16), DOOR_OPEN_OFFSET);
    assert_eq!(door_offset(119_840, true, 16), DOOR_OPEN_OFFSET);
    assert_eq!(door_offset(DOOR_OPEN_OFFSET, true, 16), DOOR_OPEN_OFFSET);
    assert_eq!(door_offset(100, false, 16), DOOR_CLOSED_OFFSET);
    assert_eq!(door_offset(160, false, 16), DOOR_CLOSED_OFFSET);
    assert_eq!(door_offset(DOOR_CLOSED_OFFSET, false, 16), DOOR_CLOSED_OFFSET);
    assert_eq!(door_offset(0, true, u32::MAX), DOOR_OPEN_OFFSET);
    assert_eq!(door_offset(120_000, false, u32::MAX), DOOR_CLOSED_OFFSET);
}

#[test]
fn door_outside_its_range_comes_back_to_the_target() {
    assert_eq!(door_offset(200_000, true, 16), 199_840);
    assert_eq!(door_offset(-1_000, false, 16), -840);
    assert_eq!(door_offset(i64::MIN, true, 0), i64::MIN);
    assert_eq!(door_offset(i64::MAX, false, 1), i64::MAX - 10);
}

#[test]
fn step_toward_moves_from_either_side() {
    assert_eq!(step_toward(0, 10, 3), 3);
    assert_eq!(step_toward(9, 10, 3), 10);
    assert_eq!(step_toward(20, 10, 3), 17);
    assert_eq!(step_toward(11, 10, 3), 10);
    assert_eq!(step_toward(10, 10, 3), 10);
    assert_eq!(step_toward(i64::MIN, i64::MAX, u64::MAX), i64::MAX);
    assert_eq!(step_toward(i64::MAX, i64::MIN, u64::MAX), i64::MIN);
    assert_eq!(step_toward(i64::MIN, i64::MAX, 5), i64::MIN + 5);
}

#[test]
fn opening_door_never_falls_and_never_passes_the_open_offset() {
    let mut offset = 0;
    let mut frames = 0;
    while offset != DOOR_OPEN_OFFSET {
        let next = door_offset(offset, true, 16);
        assert!(next >= offset);
        assert!(next <= DOOR_OPEN_OFFSET);
        offset = next;
        frames += 1;
    }
    assert_eq!(frames, 750);
    assert_eq!(door_offset(offset, true, 16), DOOR_OPEN_OFFSET);
}

#[test]
fn closing_door_never_rises_and_never_passes_the_closed_offset() {
    let mut offset = 0;
    for _ in 0..100 {
        offset = door_offset(offset, true, 7);
    }
    assert_eq!(offset, 7_000);
    let mut frames = 0;
    while offset != DOOR_CLOSED_OFFSET {
        let next = door_offset(offset, false, 7);
        assert!(next <= offset);
        assert!(next >= DOOR_CLOSED_OFFSET);
        offset = next;
        frames += 1;
    }
    assert_eq!(frames, 100);
    assert_eq!(door_offset(offset, false, 7), DOOR_CLOSED_OFFSET);
}

#[test]
fn door_animation_moves_the_third_component_only() {
    let mut door = SceneNode::from_vao(1, 3).unwrap();
    door.set_position(Vec3::new(5, 6, 100));
    let mut root = SceneNode::new();
    root.add_child(SceneNode::new());
    root.add_child(door);
    assert_eq!(door_animation(&mut root, &vec![1], true, 16), Ok(()));
    assert_eq!(root.node_at(&vec![1]).unwrap().position(), Vec3::new(5, 6, 260));
    assert_eq!(root.node_at(&vec![0]).unwrap().position(), Vec3::zero());
    assert_eq!(door_animation(&mut root, &vec![1], false, 16), Ok(()));
    assert_eq!(root.node_at(&vec![1]).unwrap().position(), Vec3::new(5, 6, 100));
    assert_eq!(door_animation(&mut root, &vec![1], false, 16), Ok(()));
    assert_eq!(root.node_at(&vec![1]).unwrap().position(), Vec3::new(5, 6, 0));
}

#[test]
fn door_animation_refuses_a_path_that_leads_nowhere() {
    let mut root = SceneNode::new();
    root.add_child(SceneNode::new());
    assert_eq!(door_animation(&mut root, &vec![1], true, 16), Err(SceneError::NoSuchNode));
    assert_eq!(door_animation(&mut root, &vec![0, 0], true, 16), Err(SceneError::NoSuchNode));
    assert_eq!(root.position(), Vec3::zero());
    assert_eq!(root.node_at(&vec![0]).unwrap().position(), Vec3::zero());
}

#[test]
fn rotor_angle_is_rate_times_elapsed_time() {
    assert_eq!(rotor_angle(100_000, 0), 0);
    assert_eq!(rotor_angle(100_000, 2_000), 200_000_000);
    assert_eq!(rotor_angle(-5, u32::MAX), -21_474_836_475);
    assert_eq!(rotor_angle(i32::MAX, u32::MAX), 9_223_372_030_412_324_865);
    assert_eq!(rotor_angle(i32::MIN, u32::MAX), -9_223_372_034_707_292_160);
    assert_eq!(rotor_angle(7, 3), rotor_angle(7, 3));
}

#[test]
fn rotors_turn_about_their_axes() {
    assert_eq!(MAIN_ROTOR_RATE, 100_000);
    assert_eq!(TAIL_ROTOR_RATE, 50_000);
    assert_eq!(main_rotor_rotation(2_000), Vec3::new(200_000_000, 0, 0));
    assert_eq!(tail_rotor_rotation(2_000), Vec3::new(0, 100_000_000, 0));
    assert_eq!(main_rotor_rotation(0), Vec3::zero());
    assert_eq!(main_rotor_rotation(u32::MAX), Vec3::new(429_496_729_500_000, 0, 0));
    assert_eq!(tail_rotor_rotation(u32::MAX), Vec3::new(0, 214_748_364_750_000, 0));
}
