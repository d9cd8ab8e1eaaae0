use vstd::prelude::*;

verus! {

/// A 2D vector of two `f32` values, each held as its IEEE-754 bit pattern.
///
/// The library carries positions through without computing with them; the
/// program around it converts with `f32::to_bits` and `f32::from_bits`.
#[derive(Clone, Copy, PartialEq, Eq, Debug, Structural)]
pub struct Vec2Bits {
    pub x: u32,
    pub y: u32,
}

impl Default for Vec2Bits {
    fn default() -> (r: Vec2Bits)
        ensures
            r.x == 0 && r.y == 0,
    {
        Vec2Bits { x: 0, y: 0 }
    }
}

/// The bit pattern of the `f32` value 1.0.
pub const ONE_F32_BITS: u32 = 0x3F80_0000;

/// A view transform (an offset and a scale), its `f32` values held as bit patterns.
#[derive(Clone, Copy, PartialEq, Eq, Debug, Structural)]
pub struct TransformBits {
    pub offset: Vec2Bits,
    pub scale: u32,
}

impl Default for TransformBits {
    /// No offset, scale 1.
    fn default() -> (r: TransformBits)
        ensures
            r.offset.x == 0 && r.offset.y == 0,
            r.scale == ONE_F32_BITS,
    {
        TransformBits { offset: Vec2Bits { x: 0, y: 0 }, scale: ONE_F32_BITS }
    }
}

} // verus!
