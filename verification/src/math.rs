//! Plain geometric value types carried by simulation snapshots.
//!
//! Every scalar component is an IEEE-754 single-precision bit pattern held in
//! a `u32`. The client stores and forwards these bits unchanged, so equality
//! of two values here is bit-for-bit equality of the underlying floats.

use vstd::prelude::*;

verus! {

/// A three-component vector; each component is an IEEE-754 single-precision
/// bit pattern.
#[derive(Clone, Copy, PartialEq, Eq, Structural, Debug)]
pub struct Vec3 {
    pub x: u32,
    pub y: u32,
    pub z: u32,
}

impl Vec3 {
    /// The all-zero vector (the bit pattern of `0.0` is `0`).
    pub fn zero() -> (r: Vec3)
        ensures
            r == (Vec3 { x: 0u32, y: 0u32, z: 0u32 }),
    {
        Vec3 { x: 0, y: 0, z: 0 }
    }
}

/// A 3x3 rotation matrix stored as three basis vectors.
#[derive(Clone, Copy, PartialEq, Eq, Structural, Debug)]
pub struct RotMat {
    pub forward: Vec3,
    pub right: Vec3,
    pub up: Vec3,
}

impl RotMat {
    /// The identity rotation; `ONE_BITS` is the bit pattern of `1.0`.
    pub fn identity() -> (r: RotMat)
        ensures
            r == spec_rot_mat_identity(),
    {
        RotMat {
            forward: Vec3 { x: ONE_BITS, y: 0, z: 0 },
            right: Vec3 { x: 0, y: ONE_BITS, z: 0 },
            up: Vec3 { x: 0, y: 0, z: ONE_BITS },
        }
    }
}

/// The IEEE-754 single-precision bit pattern of `1.0`.
pub const ONE_BITS: u32 = 0x3F80_0000;

/// The identity rotation matrix, as a spec value.
pub open spec fn spec_rot_mat_identity() -> RotMat {
    RotMat {
        forward: Vec3 { x: ONE_BITS, y: 0, z: 0 },
        right: Vec3 { x: 0, y: ONE_BITS, z: 0 },
        up: Vec3 { x: 0, y: 0, z: ONE_BITS },
    }
}

/// An RGBA color with one byte per channel, used by debug-draw primitives.
#[derive(Clone, Copy, PartialEq, Eq, Structural, Debug)]
pub struct Color {
    pub r: u8,
    pub g: u8,
    pub b: u8,
    pub a: u8,
}

} // verus!
