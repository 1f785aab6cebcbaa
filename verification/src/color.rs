use vstd::prelude::*;
use crate::scalar::{Scalar, SCALE, tdiv};

verus! {

/// An RGB triple of grid scalars; channel values are free to leave `[0, 1]`
/// and are only clamped when a pixel buffer is serialized.
#[derive(Debug, Copy, Clone, PartialEq, Eq, Structural)]
pub struct Color {
    pub r: Scalar,
    pub g: Scalar,
    pub b: Scalar,
}

impl Color {
    pub fn new(r: Scalar, g: Scalar, b: Scalar) -> (c: Color)
        ensures
            c.r == r,
            c.g == g,
            c.b == b,
    {
        Color { r, g, b }
    }

    /// Channel-wise sum.
    pub fn add(&self, other: &Color) -> (c: Color)
        requires
            i128::MIN <= self.r.raw + other.r.raw <= i128::MAX,
            i128::MIN <= self.g.raw + other.g.raw <= i128::MAX,
            i128::MIN <= self.b.raw + other.b.raw <= i128::MAX,
        ensures
            c.r.raw == self.r.raw + other.r.raw,
            c.g.raw == self.g.raw + other.g.raw,
            c.b.raw == self.b.raw + other.b.raw,
    {
        Color { r: self.r.add(other.r), g: self.g.add(other.g), b: self.b.add(other.b) }
    }

    /// Channel-wise difference.
    pub fn sub(&self, other: &Color) -> (c: Color)
        requires
            i128::MIN <= self.r.raw - other.r.raw <= i128::MAX,
            i128::MIN <= self.g.raw - other.g.raw <= i128::MAX,
            i128::MIN <= self.b.raw - other.b.raw <= i128::MAX,
        ensures
            c.r.raw == self.r.raw - other.r.raw,
            c.g.raw == self.g.raw - other.g.raw,
            c.b.raw == self.b.raw - other.b.raw,
    {
        Color { r: self.r.sub(other.r), g: self.g.sub(other.g), b: self.b.sub(other.b) }
    }

    /// Every channel multiplied by one scalar.
    pub fn mul_scalar(&self, scalar: Scalar) -> (c: Color)
        requires
            -i128::MAX <= self.r.raw * scalar.raw <= i128::MAX,
            -i128::MAX <= self.g.raw * scalar.raw <= i128::MAX,
            -i128::MAX <= self.b.raw * scalar.raw <= i128::MAX,
        ensures
            c.r.raw == tdiv(self.r.raw * scalar.raw, SCALE as int),
            c.g.raw == tdiv(self.g.raw * scalar.raw, SCALE as int),
            c.b.raw == tdiv(self.b.raw * scalar.raw, SCALE as int),
    {
        Color { r: self.r.mul(scalar), g: self.g.mul(scalar), b: self.b.mul(scalar) }
    }

    /// Channel-wise (Hadamard) product.
    pub fn mul(&self, other: &Color) -> (c: Color)
        requires
            -i128::MAX <= self.r.raw * other.r.raw <= i128::MAX,
            -i128::MAX <= self.g.raw * other.g.raw <= i128::MAX,
            -i128::MAX <= self.b.raw * other.b.raw <= i128::MAX,
        ensures
            c.r.raw == tdiv(self.r.raw * other.r.raw, SCALE as int),
            c.g.raw == tdiv(self.g.raw * other.g.raw, SCALE as int),
            c.b.raw == tdiv(self.b.raw * other.b.raw, SCALE as int),
    {
        Color { r: self.r.mul(other.r), g: self.g.mul(other.g), b: self.b.mul(other.b) }
    }
}

} // verus!
