//! The float-valued vocabulary the renderer carries without computing on
//! it — colors, vectors, matrices, transforms — held as IEEE-754 bit
//! patterns, plus the total order of `f32` bit patterns.

use vstd::prelude::*;

verus! {

/// An RGBA color (bit patterns of the `f32` channels).
#[derive(Clone, Copy, Debug, PartialEq, Eq, Structural)]
pub struct Color {
    pub r: u32,
    pub g: u32,
    pub b: u32,
    pub a: u32,
}

/// A 3D vector (bit patterns of the `f32` components).
#[derive(Clone, Copy, Debug, PartialEq, Eq, Structural)]
pub struct Vec3 {
    pub x: u32,
    pub y: u32,
    pub z: u32,
}

/// A column-major 4×4 matrix (bit patterns of the `f32` entries).
#[derive(Clone, Copy, Debug)]
pub struct Mat4 {
    pub cols: [[u32; 4]; 4],
}

/// A transform: translation, rotation quaternion, scale.
#[derive(Clone, Copy, Debug)]
pub struct Transform {
    pub translation: [u32; 3],
    pub rotation: [u32; 4],
    pub scale: [u32; 3],
}

/// An axis-aligned box (bit patterns of the corners).
#[derive(Clone, Copy, Debug, PartialEq, Eq, Structural)]
pub struct Aabb {
    pub min: Vec3,
    pub max: Vec3,
}

/// The bit pattern of `0.0f32`.
pub const ZERO_BITS: u32 = 0;

/// The bit pattern of `1.0f32`.
pub const ONE_BITS: u32 = 0x3F80_0000;

impl Color {
    /// Opaque black.
    pub fn black() -> (c: Color)
        ensures
            c == (Color { r: ZERO_BITS, g: ZERO_BITS, b: ZERO_BITS, a: ONE_BITS }),
    {
        Color { r: ZERO_BITS, g: ZERO_BITS, b: ZERO_BITS, a: ONE_BITS }
    }

    /// Opaque white.
    pub fn white() -> (c: Color)
        ensures
            c == (Color { r: ONE_BITS, g: ONE_BITS, b: ONE_BITS, a: ONE_BITS }),
    {
        Color { r: ONE_BITS, g: ONE_BITS, b: ONE_BITS, a: ONE_BITS }
    }
}

impl Vec3 {
    /// The origin.
    pub fn zero() -> (v: Vec3)
        ensures
            v == (Vec3 { x: ZERO_BITS, y: ZERO_BITS, z: ZERO_BITS }),
    {
        Vec3 { x: ZERO_BITS, y: ZERO_BITS, z: ZERO_BITS }
    }
}

/// The identity matrix.
pub open spec fn identity_matrix() -> Mat4 {
    Mat4 {
        cols: [
            [ONE_BITS, ZERO_BITS, ZERO_BITS, ZERO_BITS],
            [ZERO_BITS, ONE_BITS, ZERO_BITS, ZERO_BITS],
            [ZERO_BITS, ZERO_BITS, ONE_BITS, ZERO_BITS],
            [ZERO_BITS, ZERO_BITS, ZERO_BITS, ONE_BITS],
        ],
    }
}

impl Mat4 {
    /// The identity matrix.
    pub fn identity() -> (m: Mat4)
        ensures
            m == identity_matrix(),
    {
        Mat4 {
            cols: [
                [ONE_BITS, ZERO_BITS, ZERO_BITS, ZERO_BITS],
                [ZERO_BITS, ONE_BITS, ZERO_BITS, ZERO_BITS],
                [ZERO_BITS, ZERO_BITS, ONE_BITS, ZERO_BITS],
                [ZERO_BITS, ZERO_BITS, ZERO_BITS, ONE_BITS],
            ],
        }
    }
}

/// The key under which `f32` bit patterns compare like `f32::total_cmp`:
/// negative values (sign bit set) have every bit flipped, non-negative
/// values only their sign bit.
pub open spec fn spec_total_key(bits: u32) -> u32 {
    if bits >= 0x8000_0000 {
        (0xFFFF_FFFF - bits) as u32
    } else {
        (bits + 0x8000_0000) as u32
    }
}

/// The keys order bit patterns as `f32::total_cmp` orders the floats:
/// among non-negative values (sign bit clear) a larger pattern is a larger
/// float and gets a strictly larger key; among negative values a larger
/// pattern is a more negative float and gets a strictly smaller key; every
/// negative value comes before every non-negative one; distinct patterns
/// get distinct keys.
pub proof fn lemma_total_key_orders(a: u32, b: u32)
    ensures
        (a < 0x8000_0000 && b < 0x8000_0000 && a < b) ==> spec_total_key(a) < spec_total_key(b),
        (a >= 0x8000_0000 && b >= 0x8000_0000 && a < b) ==> spec_total_key(b) < spec_total_key(a),
        (a >= 0x8000_0000 && b < 0x8000_0000) ==> spec_total_key(a) < spec_total_key(b),
        a != b ==> spec_total_key(a) != spec_total_key(b),
        spec_total_key(a) >= 0x8000_0000 <==> a < 0x8000_0000,
{
}

/// The `total_cmp` key of an `f32` bit pattern.
pub fn total_key(bits: u32) -> (key: u32)
    ensures
        key == spec_total_key(bits),
{
    if bits >= 0x8000_0000 {
        0xFFFF_FFFF - bits
    } else {
        bits + 0x8000_0000
    }
}

} // verus!
