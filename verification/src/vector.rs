use vstd::prelude::*;
use crate::scalar::{Scalar, SCALE, abs_int, tdiv, sqrt_floor};
use crate::point::Point;
use crate::matrix::Matrix;

verus! {

/// A displacement in homogeneous coordinates: `w` is fixed at zero.
#[derive(Debug, Copy, Clone, PartialEq, Eq, Structural)]
pub struct Vector {
    pub x: Scalar,
    pub y: Scalar,
    pub z: Scalar,
    pub w: Scalar,
}

/// The truncated dot product of the spatial components (`w` excluded).
pub open spec fn spec_dot(a: Vector, b: Vector) -> int {
    tdiv(a.x.raw * b.x.raw, SCALE as int) + tdiv(a.y.raw * b.y.raw, SCALE as int) + tdiv(
        a.z.raw * b.z.raw,
        SCALE as int,
    )
}

/// The machine limits under which a dot product can be computed.
pub open spec fn dot_fits(a: Vector, b: Vector) -> bool {
    &&& -i128::MAX <= a.x.raw * b.x.raw <= i128::MAX
    &&& -i128::MAX <= a.y.raw * b.y.raw <= i128::MAX
    &&& -i128::MAX <= a.z.raw * b.z.raw <= i128::MAX
    &&& i128::MIN <= tdiv(a.x.raw * b.x.raw, SCALE as int) + tdiv(a.y.raw * b.y.raw, SCALE as int)
        <= i128::MAX
    &&& i128::MIN <= spec_dot(a, b) <= i128::MAX
}

/// The divisor `normalize` uses: the magnitude, or one for the zero vector.
pub open spec fn spec_norm_div(v: Vector) -> int {
    let m = sqrt_floor(spec_dot(v, v) * SCALE);
    if m == 0 {
        SCALE as int
    } else {
        m
    }
}

impl Vector {
    pub open spec fn wf(self) -> bool {
        self.w.raw == 0
    }

    pub fn new(x: Scalar, y: Scalar, z: Scalar) -> (v: Vector)
        ensures
            v.x == x,
            v.y == y,
            v.z == z,
            v.w.raw == 0,
            v.wf(),
    {
        Vector { x, y, z, w: Scalar { raw: 0 } }
    }

    /// The 4 by 1 column matrix `(x, y, z, w)`.
    pub fn to_matrix(&self) -> (m: Matrix)
        ensures
            m.wf(),
            m.row_count == 4,
            m.col_count == 1,
            m.at(0, 0) == self.x.raw,
            m.at(1, 0) == self.y.raw,
            m.at(2, 0) == self.z.raw,
            m.at(3, 0) == self.w.raw,
    {
        let mut m = Matrix::new(4, 1);
        let mut grid: Vec<Vec<Scalar>> = Vec::new();
        let mut r0: Vec<Scalar> = Vec::new();
        r0.push(self.x);
        let mut r1: Vec<Scalar> = Vec::new();
        r1.push(self.y);
        let mut r2: Vec<Scalar> = Vec::new();
        r2.push(self.z);
        let mut r3: Vec<Scalar> = Vec::new();
        r3.push(self.w);
        grid.push(r0);
        grid.push(r1);
        grid.push(r2);
        grid.push(r3);
        let ghost gsnap = grid@;
        m.patch(grid);
        proof {
            assert(m.at(0, 0) == gsnap[0]@[0].raw);
            assert(m.at(1, 0) == gsnap[1]@[0].raw);
            assert(m.at(2, 0) == gsnap[2]@[0].raw);
            assert(m.at(3, 0) == gsnap[3]@[0].raw);
        }
        m
    }

    /// The truncated dot product over `x`, `y` and `z`.
    pub fn dot_product(&self, other: &Vector) -> (r: Scalar)
        requires
            dot_fits(*self, *other),
        ensures
            r.raw == spec_dot(*self, *other),
    {
        self.x.mul(other.x).add(self.y.mul(other.y)).add(self.z.mul(other.z))
    }

    /// Euclidean norm of `(x, y, z)` on the grid: the floor square root of
    /// the dot product with itself.
    pub fn magnitude(&self) -> (r: Scalar)
        requires
            dot_fits(*self, *self),
            spec_dot(*self, *self) * SCALE <= u128::MAX,
        ensures
            r.raw == sqrt_floor(spec_dot(*self, *self) * SCALE),
            r.raw >= 0,
    {
        let q = self.dot_product(self);
        proof {
            vstd::arithmetic::div_mod::lemma_div_basics_4(
                abs_int(self.x.raw * self.x.raw),
                SCALE as int,
            );
            vstd::arithmetic::div_mod::lemma_div_basics_4(
                abs_int(self.y.raw * self.y.raw),
                SCALE as int,
            );
            vstd::arithmetic::div_mod::lemma_div_basics_4(
                abs_int(self.z.raw * self.z.raw),
                SCALE as int,
            );
            assert(self.x.raw * self.x.raw >= 0) by (nonlinear_arith);
            assert(self.y.raw * self.y.raw >= 0) by (nonlinear_arith);
            assert(self.z.raw * self.z.raw >= 0) by (nonlinear_arith);
        }
        q.sqrt()
    }

    /// The unit vector in this vector's direction; the zero vector (on the
    /// grid) is returned unchanged rather than divided by zero.
    pub fn normalize(&self) -> (v: Vector)
        requires
            dot_fits(*self, *self),
            spec_dot(*self, *self) * SCALE <= u128::MAX,
            -i128::MAX <= self.x.raw * SCALE <= i128::MAX,
            -i128::MAX <= self.y.raw * SCALE <= i128::MAX,
            -i128::MAX <= self.z.raw * SCALE <= i128::MAX,
        ensures
            v.x.raw == tdiv(self.x.raw * SCALE, spec_norm_div(*self)),
            v.y.raw == tdiv(self.y.raw * SCALE, spec_norm_div(*self)),
            v.z.raw == tdiv(self.z.raw * SCALE, spec_norm_div(*self)),
            v.w.raw == 0,
            v.wf(),
    {
        let mut magnitude = self.magnitude();
        if magnitude.raw == 0 {
            magnitude = Scalar { raw: SCALE };
        }
        Vector::new(self.x.div(magnitude), self.y.div(magnitude), self.z.div(magnitude))
    }

    /// Vector plus vector is a vector.
    pub fn add(&self, other: &Vector) -> (v: Vector)
        requires
            i128::MIN <= self.x.raw + other.x.raw <= i128::MAX,
            i128::MIN <= self.y.raw + other.y.raw <= i128::MAX,
            i128::MIN <= self.z.raw + other.z.raw <= i128::MAX,
        ensures
            v.x.raw == self.x.raw + other.x.raw,
            v.y.raw == self.y.raw + other.y.raw,
            v.z.raw == self.z.raw + other.z.raw,
            v.w.raw == 0,
            v.wf(),
    {
        Vector {
            x: self.x.add(other.x),
            y: self.y.add(other.y),
            z: self.z.add(other.z),
            w: Scalar { raw: 0 },
        }
    }

    /// Vector plus point is a point.
    pub fn add_point(&self, other: &Point) -> (p: Point)
        requires
            i128::MIN <= self.x.raw + other.x.raw <= i128::MAX,
            i128::MIN <= self.y.raw + other.y.raw <= i128::MAX,
            i128::MIN <= self.z.raw + other.z.raw <= i128::MAX,
        ensures
            p.x.raw == self.x.raw + other.x.raw,
            p.y.raw == self.y.raw + other.y.raw,
            p.z.raw == self.z.raw + other.z.raw,
            p.w.raw == SCALE,
            p.wf(),
    {
        Point {
            x: self.x.add(other.x),
            y: self.y.add(other.y),
            z: self.z.add(other.z),
            w: Scalar { raw: SCALE },
        }
    }

    /// Vector minus vector is a vector.
    pub fn sub(&self, other: &Vector) -> (v: Vector)
        requires
            i128::MIN <= self.x.raw - other.x.raw <= i128::MAX,
            i128::MIN <= self.y.raw - other.y.raw <= i128::MAX,
            i128::MIN <= self.z.raw - other.z.raw <= i128::MAX,
        ensures
            v.x.raw == self.x.raw - other.x.raw,
            v.y.raw == self.y.raw - other.y.raw,
            v.z.raw == self.z.raw - other.z.raw,
            v.w.raw == 0,
            v.wf(),
    {
        Vector {
            x: self.x.sub(other.x),
            y: self.y.sub(other.y),
            z: self.z.sub(other.z),
            w: Scalar { raw: 0 },
        }
    }

    /// The opposite displacement.
    pub fn neg(&self) -> (v: Vector)
        requires
            self.x.raw != i128::MIN,
            self.y.raw != i128::MIN,
            self.z.raw != i128::MIN,
        ensures
            v.x.raw == -self.x.raw,
            v.y.raw == -self.y.raw,
            v.z.raw == -self.z.raw,
            v.w.raw == 0,
            v.wf(),
    {
        Vector::new(
            Scalar { raw: 0 }.sub(self.x),
            Scalar { raw: 0 }.sub(self.y),
            Scalar { raw: 0 }.sub(self.z),
        )
    }

    /// Each component multiplied by the scalar.
    pub fn mul(&self, scalar: Scalar) -> (v: Vector)
        requires
            -i128::MAX <= self.x.raw * scalar.raw <= i128::MAX,
            -i128::MAX <= self.y.raw * scalar.raw <= i128::MAX,
            -i128::MAX <= self.z.raw * scalar.raw <= i128::MAX,
        ensures
            v.x.raw == tdiv(self.x.raw * scalar.raw, SCALE as int),
            v.y.raw == tdiv(self.y.raw * scalar.raw, SCALE as int),
            v.z.raw == tdiv(self.z.raw * scalar.raw, SCALE as int),
            v.w.raw == 0,
            v.wf(),
    {
        Vector::new(self.x.mul(scalar), self.y.mul(scalar), self.z.mul(scalar))
    }

    /// Each component divided by the scalar, which must not be zero.
    pub fn div(&self, scalar: Scalar) -> (v: Vector)
        requires
            scalar.raw != 0,
            scalar.raw != i128::MIN,
            -i128::MAX <= self.x.raw * SCALE <= i128::MAX,
            -i128::MAX <= self.y.raw * SCALE <= i128::MAX,
            -i128::MAX <= self.z.raw * SCALE <= i128::MAX,
        ensures
            v.x.raw == tdiv(self.x.raw * SCALE, scalar.raw as int),
            v.y.raw == tdiv(self.y.raw * SCALE, scalar.raw as int),
            v.z.raw == tdiv(self.z.raw * SCALE, scalar.raw as int),
            v.w.raw == 0,
            v.wf(),
    {
        Vector::new(self.x.div(scalar), self.y.div(scalar), self.z.div(scalar))
    }
}

} // verus!
