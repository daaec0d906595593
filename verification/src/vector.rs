//! Real numbers and plane vectors, held by their bits.

use vstd::prelude::*;

verus! {

/// Bit pattern of the single-precision number `0.0`.
pub const ZERO_BITS: u32 = 0;

/// Bit pattern of the single-precision number `1.0`.
pub const ONE_BITS: u32 = 0x3F80_0000;

/// A single-precision real number, held as its IEEE 754 bit pattern.
///
/// Two scalars are equal when their bits are equal, so `0.0` and `-0.0`
/// differ and a NaN equals itself.
#[derive(Clone, Copy, Debug, PartialEq, Eq, Structural)]
pub struct Scalar(pub u32);

impl Scalar {
    /// The scalar with the given bit pattern.
    pub fn from_bits(bits: u32) -> (r: Scalar)
        ensures
            r == Scalar(bits),
    {
        Scalar(bits)
    }

    /// The bit pattern of this scalar.
    pub fn to_bits(self) -> (r: u32)
        ensures
            r == self.0,
    {
        self.0
    }

    /// The number `0.0`.
    pub fn zero() -> (r: Scalar)
        ensures
            r == Scalar(ZERO_BITS),
    {
        Scalar(ZERO_BITS)
    }

    /// The number `1.0`.
    pub fn one() -> (r: Scalar)
        ensures
            r == Scalar(ONE_BITS),
    {
        Scalar(ONE_BITS)
    }
}

/// A vector of the plane.
#[derive(Clone, Copy, Debug, PartialEq, Eq, Structural)]
pub struct Vec2 {
    pub x: Scalar,
    pub y: Scalar,
}

impl Vec2 {
    /// The vector `(0.0, 0.0)` as a specification value.
    pub open spec fn spec_zero() -> Vec2 {
        Vec2 { x: Scalar(ZERO_BITS), y: Scalar(ZERO_BITS) }
    }

    /// The vector with the given components.
    pub fn new(x: Scalar, y: Scalar) -> (r: Vec2)
        ensures
            r == (Vec2 { x, y }),
    {
        Vec2 { x, y }
    }

    /// The vector whose components have the given bit patterns.
    pub fn from_bits(x: u32, y: u32) -> (r: Vec2)
        ensures
            r == (Vec2 { x: Scalar(x), y: Scalar(y) }),
    {
        Vec2 { x: Scalar(x), y: Scalar(y) }
    }

    /// The vector `(0.0, 0.0)`.
    pub fn zero() -> (r: Vec2)
        ensures
            r == Vec2::spec_zero(),
    {
        Vec2 { x: Scalar(ZERO_BITS), y: Scalar(ZERO_BITS) }
    }
}

} // verus!
