use vstd::prelude::*;
use crate::fixed::{
    add_saturating, clamp, fixed_mul, saturated, spec_clamp, spec_fixed_mul, sub_saturating, UNIT,
};
use crate::input::{InputFrame, Key};
use crate::transform::{Perspective, TransformStep};
use crate::vector::Vec3;

verus! {

/// A quarter turn, which is as far as the camera looks up or down.
pub const QUARTER_TURN: i64 = 1_570_796;

/// How fast the roll keys turn the camera, as a multiple of the look sensitivity
/// a second.
pub const ROLL_KEY_FACTOR: i64 = 100;

/// The direction the camera faces, as the caller has computed it from the
/// camera's angles: the cosine and the sine of its yaw and the sine of its pitch.
#[derive(Clone, Copy, Debug, PartialEq, Eq, Structural)]
pub struct Heading {
    pub cos_yaw: i64,
    pub sin_yaw: i64,
    pub sin_pitch: i64,
}

/// Where the camera is, how it is turned, and how fast it moves and turns.
#[derive(Clone, Copy, Debug, PartialEq, Eq, Structural)]
pub struct Camera {
    pub x: i64,
    pub y: i64,
    pub z: i64,
    pub movement_speed: i64,
    pub yaw: i64,
    pub pitch: i64,
    pub roll: i64,
    pub look_sensitivity: i64,
}

/// What a frame's input acts on: the camera, the direction it faces, and whether
/// the door is to be open.
#[derive(Clone, Copy, Debug, PartialEq, Eq, Structural)]
pub struct Controls {
    pub camera: Camera,
    pub heading: Heading,
    pub door_open: bool,
}

impl Heading {
    /// The heading of a camera whose yaw and pitch are zero.
    pub open spec fn spec_ahead() -> Heading {
        Heading { cos_yaw: UNIT, sin_yaw: 0, sin_pitch: 0 }
    }

    pub fn ahead() -> (heading: Heading)
        ensures
            heading == Heading::spec_ahead(),
    {
        Heading { cos_yaw: UNIT, sin_yaw: 0, sin_pitch: 0 }
    }
}

/// The pitch after a turn: the sum, held between a quarter turn down and a
/// quarter turn up.
pub open spec fn pitch_after(pitch: int, turn: int) -> int {
    spec_clamp(saturated(pitch + turn), -QUARTER_TURN, QUARTER_TURN as int)
}

/// The pitch after a number of equal turns.
pub open spec fn pitch_after_turns(pitch: int, turn: int, turns: nat) -> int
    decreases turns,
{
    if turns == 0 {
        pitch
    } else {
        pitch_after(pitch_after_turns(pitch, turn, (turns - 1) as nat), turn)
    }
}

impl Camera {
    /// The camera as it starts, and as a reset leaves it.
    pub open spec fn spec_default() -> Camera {
        Camera {
            x: UNIT,
            y: UNIT,
            z: (-UNIT) as i64,
            movement_speed: (20 * UNIT) as i64,
            yaw: 0,
            pitch: 0,
            roll: 0,
            look_sensitivity: 8_000,
        }
    }

    /// How far the camera travels in a frame of `delta_ms` milliseconds.
    pub open spec fn spec_travel(self, delta_ms: int) -> int {
        spec_fixed_mul(delta_ms * 1000, self.movement_speed as int)
    }

    /// How far a roll key turns the camera in a frame of `delta_ms` milliseconds.
    pub open spec fn spec_roll_step(self, delta_ms: int) -> int {
        spec_fixed_mul(delta_ms * 1000 * ROLL_KEY_FACTOR, self.look_sensitivity as int)
    }

    /// The camera after `key` has been held for a frame. `W` and `S` move it
    /// forwards and back along its yaw, and up and down with its pitch; `A` and
    /// `D` move it sideways; `Q` and `E` move it up and down; `F` and `C` roll
    /// it. No other key moves it.
    pub open spec fn spec_moved(self, key: Key, heading: Heading, delta_ms: int) -> Camera {
        let travel = self.spec_travel(delta_ms);
        let along = spec_fixed_mul(travel, heading.cos_yaw as int);
        let across = spec_fixed_mul(travel, heading.sin_yaw as int);
        let rise = spec_fixed_mul(travel, heading.sin_pitch as int);
        let roll_step = self.spec_roll_step(delta_ms);
        match key {
            Key::W => Camera {
                z: saturated(self.z + along) as i64,
                x: saturated(self.x - across) as i64,
                y: saturated(self.y + rise) as i64,
                ..self
            },
            Key::S => Camera {
                z: saturated(self.z - along) as i64,
                x: saturated(self.x + across) as i64,
                y: saturated(self.y - rise) as i64,
                ..self
            },
            Key::A => Camera {
                x: saturated(self.x + along) as i64,
                z: saturated(self.z + across) as i64,
                ..self
            },
            Key::D => Camera {
                x: saturated(self.x - along) as i64,
                z: saturated(self.z - across) as i64,
                ..self
            },
            Key::Q => Camera { y: saturated(self.y + travel) as i64, ..self },
            Key::E => Camera { y: saturated(self.y - travel) as i64, ..self },
            Key::F => Camera { roll: saturated(self.roll + roll_step) as i64, ..self },
            Key::C => Camera { roll: saturated(self.roll - roll_step) as i64, ..self },
            _ => self,
        }
    }

    /// The camera after the mouse has moved by `dx` and `dy`: the vertical
    /// movement turns the pitch by its share along the yaw and the roll by its
    /// share across it, the horizontal movement turns the yaw, each times the look
    /// sensitivity. The pitch stays within a quarter turn either way.
    pub open spec fn spec_looked(self, heading: Heading, dx: int, dy: int) -> Camera {
        let vertical = spec_fixed_mul(dy, self.look_sensitivity as int);
        let horizontal = spec_fixed_mul(dx, self.look_sensitivity as int);
        Camera {
            pitch: pitch_after(self.pitch as int, spec_fixed_mul(vertical, heading.cos_yaw as int)) as i64,
            roll: saturated(self.roll + spec_fixed_mul(vertical, heading.sin_yaw as int)) as i64,
            yaw: saturated(self.yaw + horizontal) as i64,
            ..self
        }
    }

    /// The view-projection transform of the camera: the projection, the offset of
    /// the world, the camera's position, and its yaw, pitch and roll, in this
    /// order.
    pub open spec fn spec_view_projection(self, perspective: Perspective, world_offset: Vec3) -> Seq<
        TransformStep,
    > {
        seq![
            TransformStep::Project(perspective),
            TransformStep::Translate(world_offset),
            TransformStep::Translate(Vec3 { x: self.x, y: self.y, z: self.z }),
            TransformStep::RotateY(self.yaw),
            TransformStep::RotateX(self.pitch),
            TransformStep::RotateZ(self.roll),
        ]
    }

    /// The camera as it starts.
    pub fn new() -> (camera: Camera)
        ensures
            camera == Camera::spec_default(),
    {
        Camera {
            x: UNIT,
            y: UNIT,
            z: -UNIT,
            movement_speed: 20 * UNIT,
            yaw: 0,
            pitch: 0,
            roll: 0,
            look_sensitivity: 8_000,
        }
    }

    /// Puts the camera back to where it started.
    pub fn reset(&mut self)
        ensures
            *final(self) == Camera::spec_default(),
    {
        *self = Camera::new();
    }

    /// Moves the camera as `key`, held for a frame of `delta_ms` milliseconds,
    /// asks.
    pub fn apply_key(&mut self, key: Key, heading: Heading, delta_ms: u32)
        ensures
            *final(self) == old(self).spec_moved(key, heading, delta_ms as int),
    {
        let seconds: i64 = (delta_ms as i64) * 1000;
        let travel = fixed_mul(seconds, self.movement_speed);
        let along = fixed_mul(travel, heading.cos_yaw);
        let across = fixed_mul(travel, heading.sin_yaw);
        let rise = fixed_mul(travel, heading.sin_pitch);
        let roll_step = fixed_mul(seconds * ROLL_KEY_FACTOR, self.look_sensitivity);
        match key {
            Key::W => {
                self.z = add_saturating(self.z, along);
                self.x = sub_saturating(self.x, across);
                self.y = add_saturating(self.y, rise);
            },
            Key::S => {
                self.z = sub_saturating(self.z, along);
                self.x = add_saturating(self.x, across);
                self.y = sub_saturating(self.y, rise);
            },
            Key::A => {
                self.x = add_saturating(self.x, along);
                self.z = add_saturating(self.z, across);
            },
            Key::D => {
                self.x = sub_saturating(self.x, along);
                self.z = sub_saturating(self.z, across);
            },
            Key::Q => {
                self.y = add_saturating(self.y, travel);
            },
            Key::E => {
                self.y = sub_saturating(self.y, travel);
            },
            Key::F => {
                self.roll = add_saturating(self.roll, roll_step);
            },
            Key::C => {
                self.roll = sub_saturating(self.roll, roll_step);
            },
            _ => {},
        }
    }

    /// Turns the camera as a movement of the mouse by `dx` and `dy` asks.
    pub fn look(&mut self, heading: Heading, dx: i64, dy: i64)
        ensures
            *final(self) == old(self).spec_looked(heading, dx as int, dy as int),
            -QUARTER_TURN <= final(self).pitch <= QUARTER_TURN,
    {
        let vertical = fixed_mul(dy, self.look_sensitivity);
        let horizontal = fixed_mul(dx, self.look_sensitivity);
        let turned = add_saturating(self.pitch, fixed_mul(vertical, heading.cos_yaw));
        self.pitch = clamp(turned, -QUARTER_TURN, QUARTER_TURN);
        self.roll = add_saturating(self.roll, fixed_mul(vertical, heading.sin_yaw));
        self.yaw = add_saturating(self.yaw, horizontal);
    }

    /// The view-projection transform of the camera.
    pub fn view_projection(&self, perspective: Perspective, world_offset: Vec3) -> (transform: Vec<
        TransformStep,
    >)
        ensures
            transform@ == self.spec_view_projection(perspective, world_offset),
    {
        let mut transform: Vec<TransformStep> = Vec::new();
        transform.push(TransformStep::Project(perspective));
        transform.push(TransformStep::Translate(world_offset));
        transform.push(TransformStep::Translate(Vec3 { x: self.x, y: self.y, z: self.z }));
        transform.push(TransformStep::RotateY(self.yaw));
        transform.push(TransformStep::RotateX(self.pitch));
        transform.push(TransformStep::RotateZ(self.roll));
        assert(transform@ =~= self.spec_view_projection(perspective, world_offset));
        transform
    }
}

impl Controls {
    /// The controls after `key` has been held for a frame: `R` puts the camera
    /// back to where it started, facing ahead; `T` turns the door's target round;
    /// every other key moves the camera.
    pub open spec fn after_key(self, key: Key, delta_ms: int) -> Controls {
        match key {
            Key::R => Controls {
                camera: Camera::spec_default(),
                heading: Heading::spec_ahead(),
                ..self
            },
            Key::T => Controls { door_open: !self.door_open, ..self },
            _ => Controls { camera: self.camera.spec_moved(key, self.heading, delta_ms), ..self },
        }
    }

    /// The controls after each of `keys` in turn has acted on them.
    pub open spec fn after_keys(self, keys: Seq<Key>, delta_ms: int) -> Controls
        decreases keys.len(),
    {
        if keys.len() == 0 {
            self
        } else {
            self.after_keys(keys.drop_last(), delta_ms).after_key(keys.last(), delta_ms)
        }
    }

    /// The controls after a frame: the keys act in turn, then the mouse turns the
    /// camera.
    pub open spec fn after_frame(self, keys: Seq<Key>, mouse: (i64, i64), delta_ms: int) -> Controls {
        let keyed = self.after_keys(keys, delta_ms);
        Controls {
            camera: keyed.camera.spec_looked(keyed.heading, mouse.0 as int, mouse.1 as int),
            ..keyed
        }
    }

    /// The controls at the start: the camera where it starts, facing ahead, the
    /// door to be closed.
    pub fn new() -> (controls: Controls)
        ensures
            controls == (Controls {
                camera: Camera::spec_default(),
                heading: Heading::spec_ahead(),
                door_open: false,
            }),
    {
        Controls { camera: Camera::new(), heading: Heading::ahead(), door_open: false }
    }

    /// Lets `key`, held for a frame of `delta_ms` milliseconds, act on the
    /// controls.
    pub fn press(&mut self, key: Key, delta_ms: u32)
        ensures
            *final(self) == old(self).after_key(key, delta_ms as int),
    {
        match key {
            Key::R => {
                self.camera.reset();
                self.heading = Heading::ahead();
            },
            Key::T => {
                self.door_open = !self.door_open;
            },
            _ => {
                self.camera.apply_key(key, self.heading, delta_ms);
            },
        }
    }

    /// One frame of input: the keys that are down act in their order, then the
    /// movement of the mouse that has gathered turns the camera. The movement is
    /// taken out of `input`, so that the next frame does not see it again.
    pub fn update(&mut self, input: &mut InputFrame, delta_ms: u32)
        ensures
            *final(self) == old(self).after_frame(
                old(input)@.keys,
                old(input)@.mouse_delta,
                delta_ms as int,
            ),
            final(input)@.keys == old(input)@.keys,
            final(input)@.mouse_delta == (0i64, 0i64),
            -QUARTER_TURN <= final(self).camera.pitch <= QUARTER_TURN,
    {
        let keys = input.pressed_keys();
        let mut i: usize = 0;
        assert(keys@.take(0) =~= Seq::<Key>::empty());
        while i < keys.len()
            invariant
                i <= keys.len(),
                *self == old(self).after_keys(keys@.take(i as int), delta_ms as int),
            decreases keys.len() - i,
        {
            assert(keys@.take(i + 1).drop_last() =~= keys@.take(i as int));
            self.press(keys[i], delta_ms);
            i += 1;
        }
        assert(keys@.take(keys@.len() as int) =~= keys@);
        let (dx, dy) = input.drain_mouse();
        self.camera.look(self.heading, dx, dy);
    }
}

/// A mouse that has not moved turns nothing: once a frame has taken the movement
/// out of the input, the next frame leaves the camera's angles as they are.
pub proof fn lemma_still_mouse_turns_nothing(camera: Camera, heading: Heading)
    requires
        -QUARTER_TURN <= camera.pitch <= QUARTER_TURN,
    ensures
        camera.spec_looked(heading, 0, 0) == camera,
{
    let sensitivity = camera.look_sensitivity as int;
    assert(0 * sensitivity == 0);
    assert(spec_fixed_mul(0, sensitivity) == 0);
    assert(0 * (heading.cos_yaw as int) == 0);
    assert(0 * (heading.sin_yaw as int) == 0);
    assert(spec_fixed_mul(0, heading.cos_yaw as int) == 0);
    assert(spec_fixed_mul(0, heading.sin_yaw as int) == 0);
}

/// A camera at its upper limit stays there under any turn upwards, and a turn
/// that would pass the limit ends on it.
pub proof fn lemma_pitch_limit(pitch: int, turn: int)
    requires
        -QUARTER_TURN <= pitch <= QUARTER_TURN,
    ensures
        -QUARTER_TURN <= pitch_after(pitch, turn) <= QUARTER_TURN,
        pitch + turn >= QUARTER_TURN ==> pitch_after(pitch, turn) == QUARTER_TURN,
        pitch + turn <= -QUARTER_TURN ==> pitch_after(pitch, turn) == -QUARTER_TURN,
        turn >= 0 ==> pitch_after(pitch, turn) >= pitch,
{
}

/// Equal turns upwards bring the pitch to a quarter turn exactly, once they add
/// up to the way that was left, and further ones leave it there.
pub proof fn lemma_pitch_converges(pitch: int, turn: int, turns: nat)
    requires
        -QUARTER_TURN <= pitch <= QUARTER_TURN,
        turn > 0,
        turn * turns >= QUARTER_TURN - pitch,
    ensures
        pitch_after_turns(pitch, turn, turns) == QUARTER_TURN,
        pitch_after_turns(pitch, turn, turns + 1) == QUARTER_TURN,
{
    lemma_pitch_progress(pitch, turn, turns);
    lemma_pitch_limit(pitch_after_turns(pitch, turn, turns), turn);
}

/// After a number of equal turns upwards the pitch is at the limit or has risen
/// by all of them.
proof fn lemma_pitch_progress(pitch: int, turn: int, turns: nat)
    requires
        -QUARTER_TURN <= pitch <= QUARTER_TURN,
        turn > 0,
    ensures
        -QUARTER_TURN <= pitch_after_turns(pitch, turn, turns) <= QUARTER_TURN,
        pitch_after_turns(pitch, turn, turns) == QUARTER_TURN || pitch_after_turns(
            pitch,
            turn,
            turns,
        ) == pitch + turn * turns,
    decreases turns,
{
    if turns > 0 {
        lemma_pitch_progress(pitch, turn, (turns - 1) as nat);
        assert(turn * turns == turn * (turns - 1) + turn) by (nonlinear_arith);
        lemma_pitch_limit(pitch_after_turns(pitch, turn, (turns - 1) as nat), turn);
    } else {
        assert(turn * turns == 0) by (nonlinear_arith)
            requires
                turns == 0,
        ;
    }
}

} // verus!
