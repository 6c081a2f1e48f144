//! A scene graph for an animated scene: a tree of nodes with local placement,
//! world transforms recomputed from the root downwards, a draw traversal, the
//! door and rotor animation, and a first-person camera.
//!
//! The library works in fixed point: a length or an angle is an `i64` counted in
//! millionths (of a scene unit, of a radian), a time a `u32` of milliseconds. A
//! transform is kept exactly, as the sequence of elementary steps whose product it
//! is; turning such a sequence into a matrix is left to the caller.

pub mod fixed;
pub mod vector;
pub mod transform;
pub mod mesh;
pub mod node;
pub mod draw;
pub mod laws;
pub mod animation;
pub mod input;
pub mod camera;
pub mod frame;
