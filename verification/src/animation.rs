use vstd::prelude::*;
use crate::node::{NodeView, SceneError, SceneNode};
use crate::transform::Placement;
use crate::vector::Vec3;

verus! {

/// How far the door has slid when it is open: 0.12 of a scene unit.
pub const DOOR_OPEN_OFFSET: i64 = 120_000;

/// Where the door is when it is closed.
pub const DOOR_CLOSED_OFFSET: i64 = 0;

/// How far the door slides in a millisecond.
pub const DOOR_SPEED: u64 = 10;

/// How far the main rotor turns in a millisecond: 100 radians a second.
pub const MAIN_ROTOR_RATE: i32 = 100_000;

/// How far the tail rotor turns in a millisecond: 50 radians a second.
pub const TAIL_ROTOR_RATE: i32 = 50_000;

/// `current` moved towards `target` by `step`, and not beyond it.
pub open spec fn approach(current: int, target: int, step: int) -> int {
    if current <= target {
        if current + step < target {
            current + step
        } else {
            target
        }
    } else {
        if current - step > target {
            current - step
        } else {
            target
        }
    }
}

/// Where the door is heading.
pub open spec fn door_target(door_open: bool) -> int {
    if door_open {
        DOOR_OPEN_OFFSET as int
    } else {
        DOOR_CLOSED_OFFSET as int
    }
}

/// The offset of the door after a frame of `delta_ms` milliseconds.
pub open spec fn door_offset_after(offset: int, door_open: bool, delta_ms: int) -> int {
    approach(offset, door_target(door_open), DOOR_SPEED * delta_ms)
}

/// The offset of the door after a number of frames of `delta_ms` milliseconds
/// each.
pub open spec fn door_offset_after_frames(
    offset: int,
    door_open: bool,
    delta_ms: int,
    frames: nat,
) -> int
    decreases frames,
{
    if frames == 0 {
        offset
    } else {
        door_offset_after(
            door_offset_after_frames(offset, door_open, delta_ms, (frames - 1) as nat),
            door_open,
            delta_ms,
        )
    }
}

/// The angle of a rotor that turns at `rate`, after `elapsed_ms` milliseconds.
pub open spec fn spec_rotor_angle(rate: int, elapsed_ms: int) -> int {
    rate * elapsed_ms
}

/// The tree with the door at `path` moved for one frame: only the third
/// component of its position changes.
pub open spec fn with_door_moved(
    tree: NodeView,
    path: Seq<usize>,
    door_open: bool,
    delta_ms: int,
) -> NodeView {
    let position = tree.descendant(path).unwrap().local.position;
    tree.with_placement_at(
        path,
        Placement::Position,
        Vec3 { z: door_offset_after(position.z as int, door_open, delta_ms) as i64, ..position },
    )
}

/// `current` moved towards `target` by `step`, and not beyond it.
pub fn step_toward(current: i64, target: i64, step: u64) -> (next: i64)
    ensures
        next == approach(current as int, target as int, step as int),
{
    if current <= target {
        let room: i128 = target as i128 - current as i128;
        if (step as i128) < room {
            (current as i128 + step as i128) as i64
        } else {
            target
        }
    } else {
        let room: i128 = current as i128 - target as i128;
        if (step as i128) < room {
            (current as i128 - step as i128) as i64
        } else {
            target
        }
    }
}

/// The offset of the door after a frame of `delta_ms` milliseconds: it moves
/// towards the open offset if `door_open`, else towards the closed one, by the
/// door's speed times the length of the frame, and stops at its target.
pub fn door_offset(offset: i64, door_open: bool, delta_ms: u32) -> (next: i64)
    ensures
        next == door_offset_after(offset as int, door_open, delta_ms as int),
{
    let target: i64 = if door_open {
        DOOR_OPEN_OFFSET
    } else {
        DOOR_CLOSED_OFFSET
    };
    let step: u64 = DOOR_SPEED * (delta_ms as u64);
    step_toward(offset, target, step)
}

/// Moves the door, the node at `door`, for one frame: the third component of its
/// position goes to `door_offset` of it. A path that leads to no node is refused,
/// and the tree stays as it is.
pub fn door_animation(root: &mut SceneNode, door: &Vec<usize>, door_open: bool, delta_ms: u32) -> (done:
    Result<(), SceneError>)
    ensures
        old(root)@.descendant(door@) is Some ==> done is Ok && final(root)@ == with_door_moved(
            old(root)@,
            door@,
            door_open,
            delta_ms as int,
        ),
        old(root)@.descendant(door@) is None ==> done == Err::<(), SceneError>(
            SceneError::NoSuchNode,
        ) && final(root)@ == old(root)@,
{
    let position = match root.node_at(door) {
        Some(node) => node.position(),
        None => {
            return Err(SceneError::NoSuchNode);
        },
    };
    let moved = Vec3 { x: position.x, y: position.y, z: door_offset(position.z, door_open, delta_ms) };
    root.set_at(door, Placement::Position, moved)
}

/// The angle of a rotor that turns at `rate` a millisecond, after `elapsed_ms`
/// milliseconds: the product of the two, whatever went before.
pub fn rotor_angle(rate: i32, elapsed_ms: u32) -> (angle: i64)
    ensures
        angle == spec_rotor_angle(rate as int, elapsed_ms as int),
{
    let wide_rate: i64 = rate as i64;
    let wide_elapsed: i64 = elapsed_ms as i64;
    assert(-0x8000_0000_0000_0000 < wide_rate * wide_elapsed < 0x8000_0000_0000_0000)
        by (nonlinear_arith)
        requires
            -0x8000_0000 <= wide_rate < 0x8000_0000,
            0 <= wide_elapsed < 0x1_0000_0000,
    ;
    wide_rate * wide_elapsed
}

/// The rotation of the main rotor after `elapsed_ms` milliseconds: it turns
/// about the Y axis.
pub fn main_rotor_rotation(elapsed_ms: u32) -> (rotation: Vec3)
    ensures
        rotation == (Vec3 {
            x: spec_rotor_angle(MAIN_ROTOR_RATE as int, elapsed_ms as int) as i64,
            y: 0,
            z: 0,
        }),
        rotation.x == MAIN_ROTOR_RATE * elapsed_ms,
{
    Vec3 { x: rotor_angle(MAIN_ROTOR_RATE, elapsed_ms), y: 0, z: 0 }
}

/// The rotation of the tail rotor after `elapsed_ms` milliseconds: it turns
/// about the X axis.
pub fn tail_rotor_rotation(elapsed_ms: u32) -> (rotation: Vec3)
    ensures
        rotation == (Vec3 {
            x: 0,
            y: spec_rotor_angle(TAIL_ROTOR_RATE as int, elapsed_ms as int) as i64,
            z: 0,
        }),
        rotation.y == TAIL_ROTOR_RATE * elapsed_ms,
{
    Vec3 { x: 0, y: rotor_angle(TAIL_ROTOR_RATE, elapsed_ms), z: 0 }
}

/// A door between its two ends stays between them, and moves towards its target
/// or stays: while it opens its offset never falls and never passes the open
/// offset, while it closes its offset never rises and never passes the closed
/// one.
pub proof fn lemma_door_frame(offset: int, door_open: bool, delta_ms: int)
    requires
        DOOR_CLOSED_OFFSET <= offset <= DOOR_OPEN_OFFSET,
        delta_ms >= 0,
    ensures
        DOOR_CLOSED_OFFSET <= door_offset_after(offset, door_open, delta_ms) <= DOOR_OPEN_OFFSET,
        door_open ==> offset <= door_offset_after(offset, door_open, delta_ms),
        !door_open ==> door_offset_after(offset, door_open, delta_ms) <= offset,
{
}

/// Over any number of frames of one length, a door that starts between its two
/// ends stays between them, and each frame leaves it where it was or nearer to
/// its target.
pub proof fn lemma_door_frames(offset: int, door_open: bool, delta_ms: int, frames: nat)
    requires
        DOOR_CLOSED_OFFSET <= offset <= DOOR_OPEN_OFFSET,
        delta_ms >= 0,
    ensures
        DOOR_CLOSED_OFFSET <= door_offset_after_frames(offset, door_open, delta_ms, frames)
            <= DOOR_OPEN_OFFSET,
        door_open ==> door_offset_after_frames(offset, door_open, delta_ms, frames)
            <= door_offset_after_frames(offset, door_open, delta_ms, frames + 1),
        !door_open ==> door_offset_after_frames(offset, door_open, delta_ms, frames + 1)
            <= door_offset_after_frames(offset, door_open, delta_ms, frames),
    decreases frames,
{
    if frames > 0 {
        lemma_door_frames(offset, door_open, delta_ms, (frames - 1) as nat);
    }
    lemma_door_frame(
        door_offset_after_frames(offset, door_open, delta_ms, frames),
        door_open,
        delta_ms,
    );
}

/// The door arrives: once the frames together are long enough for the whole way,
/// it is at its target, and it stays there.
pub proof fn lemma_door_arrives(offset: int, door_open: bool, delta_ms: int, frames: nat)
    requires
        DOOR_CLOSED_OFFSET <= offset <= DOOR_OPEN_OFFSET,
        delta_ms >= 0,
        DOOR_SPEED * delta_ms * frames >= DOOR_OPEN_OFFSET - DOOR_CLOSED_OFFSET,
    ensures
        door_offset_after_frames(offset, door_open, delta_ms, frames) == door_target(door_open),
{
    lemma_door_progress(offset, door_open, delta_ms, frames);
}

/// After `frames` frames the door is at its target or has moved the full step in
/// each of them.
proof fn lemma_door_progress(offset: int, door_open: bool, delta_ms: int, frames: nat)
    requires
        DOOR_CLOSED_OFFSET <= offset <= DOOR_OPEN_OFFSET,
        delta_ms >= 0,
    ensures
        ({
            let now = door_offset_after_frames(offset, door_open, delta_ms, frames);
            now == door_target(door_open) || (door_open && now == offset + DOOR_SPEED * delta_ms
                * frames && now < DOOR_OPEN_OFFSET) || (!door_open && now == offset - DOOR_SPEED
                * delta_ms * frames && now > DOOR_CLOSED_OFFSET)
        }),
    decreases frames,
{
    if frames > 0 {
        lemma_door_progress(offset, door_open, delta_ms, (frames - 1) as nat);
        lemma_door_frames(offset, door_open, delta_ms, (frames - 1) as nat);
        let step = DOOR_SPEED * delta_ms;
        assert(step * frames == step * (frames - 1) + step) by (nonlinear_arith);
    }
}

} // verus!
