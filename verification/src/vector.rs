//! Plain values: numbers by their bit patterns, pairs of them, and colours.

use vstd::prelude::*;

verus! {

/// The bit pattern of `1.0`.
pub const ONE: u32 = 0x3f80_0000;

/// The bit pattern of `10.0`.
pub const TEN: u32 = 0x4120_0000;

/// Whether `bits` is the pattern of a number strictly greater than zero: the sign bit is
/// clear, the pattern is not that of zero, and it is not a NaN. Positive infinity counts.
pub open spec fn positive(bits: u32) -> bool {
    0 < bits <= 0x7f80_0000
}

/// Decides [`positive`].
pub fn is_positive(bits: u32) -> (yes: bool)
    ensures
        yes == positive(bits),
{
    0 < bits && bits <= 0x7f80_0000
}

/// A point or a direction in the plane. Two values are equal when their bit patterns are.
#[derive(Clone, Copy, PartialEq, Eq, Structural, Debug)]
pub struct Vec2 {
    pub x: u32,
    pub y: u32,
}

impl Vec2 {
    /// The pair with both coordinates `+0.0`.
    pub open spec fn origin() -> Vec2 {
        Vec2 { x: 0, y: 0 }
    }

    pub fn new(x: u32, y: u32) -> (v: Vec2)
        ensures
            v == (Vec2 { x, y }),
    {
        Vec2 { x, y }
    }

    #[verifier::when_used_as_spec(origin)]
    pub fn zero() -> (v: Vec2)
        ensures
            v == Vec2::origin(),
    {
        Vec2 { x: 0, y: 0 }
    }
}

/// Red, green, blue and opacity.
#[derive(Clone, Copy, PartialEq, Eq, Structural, Debug)]
pub struct Color {
    pub r: u32,
    pub g: u32,
    pub b: u32,
    pub a: u32,
}

impl Color {
    pub fn new(r: u32, g: u32, b: u32, a: u32) -> (c: Color)
        ensures
            c == (Color { r, g, b, a }),
    {
        Color { r, g, b, a }
    }
}

} // verus!
