//! Core Graphics.
//!
//! A `CGFloat` is an `f32`. The library holds each one by its bit pattern
//! and does no arithmetic on it; what needs floating point is done by the
//! caller.

use vstd::prelude::*;

pub mod cg_color;
pub mod cg_context;
pub mod cg_image;
pub mod cg_path;

verus! {

/// A `CGFloat` by its IEEE 754 bit pattern.
pub type CGFloatBits = u32;

/// A point, each coordinate by its bit pattern.
#[derive(Clone, Copy)]
pub struct CGPoint {
    pub x: CGFloatBits,
    pub y: CGFloatBits,
}

/// An affine transform `[a b 0; c d 0; tx ty 1]`, each entry by its bit
/// pattern.
#[derive(Clone, Copy)]
pub struct CGAffineTransform {
    pub a: CGFloatBits,
    pub b: CGFloatBits,
    pub c: CGFloatBits,
    pub d: CGFloatBits,
    pub tx: CGFloatBits,
    pub ty: CGFloatBits,
}

/// The bit pattern of `0.0f32`.
pub const ZERO_BITS: CGFloatBits = 0x0000_0000;
/// The bit pattern of `1.0f32`.
pub const ONE_BITS: CGFloatBits = 0x3f80_0000;

/// The identity transform.
pub open spec fn identity_transform() -> CGAffineTransform {
    CGAffineTransform { a: ONE_BITS, b: ZERO_BITS, c: ZERO_BITS, d: ONE_BITS, tx: ZERO_BITS, ty: ZERO_BITS }
}

} // verus!
