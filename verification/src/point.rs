use vstd::prelude::*;
use crate::scalar::{Scalar, SCALE};
use crate::matrix::Matrix;
use crate::vector::Vector;

verus! {

/// A location in homogeneous coordinates: `w` is fixed at one.
#[derive(Debug, Copy, Clone, PartialEq, Eq, Structural)]
pub struct Point {
    pub x: Scalar,
    pub y: Scalar,
    pub z: Scalar,
    pub w: Scalar,
}

impl Point {
    pub open spec fn wf(self) -> bool {
        self.w.raw == SCALE
    }

    pub fn new(x: Scalar, y: Scalar, z: Scalar) -> (p: Point)
        ensures
            p.x == x,
            p.y == y,
            p.z == z,
            p.w.raw == SCALE,
            p.wf(),
    {
        Point { x, y, z, w: Scalar { raw: SCALE } }
    }

    /// The 4 by 1 column matrix `(x, y, z, w)`.
    pub fn to_matrix(&self) -> (m: Matrix)
        ensures
            m.wf(),
            m.row_count == 4,
            m.col_count == 1,
            m.at(0, 0) == self.x.raw,
            m.at(1, 0) == self.y.raw,
            m.at(2, 0) == self.z.raw,
            m.at(3, 0) == self.w.raw,
    {
        let mut m = Matrix::new(4, 1);
        let mut grid: Vec<Vec<Scalar>> = Vec::new();
        let mut r0: Vec<Scalar> = Vec::new();
        r0.push(self.x);
        let mut r1: Vec<Scalar> = Vec::new();
        r1.push(self.y);
        let mut r2: Vec<Scalar> = Vec::new();
        r2.push(self.z);
        let mut r3: Vec<Scalar> = Vec::new();
        r3.push(self.w);
        grid.push(r0);
        grid.push(r1);
        grid.push(r2);
        grid.push(r3);
        let ghost gsnap = grid@;
        m.patch(grid);
        proof {
            assert(m.at(0, 0) == gsnap[0]@[0].raw);
            assert(m.at(1, 0) == gsnap[1]@[0].raw);
            assert(m.at(2, 0) == gsnap[2]@[0].raw);
            assert(m.at(3, 0) == gsnap[3]@[0].raw);
        }
        m
    }

    /// Point plus vector is a point.
    pub fn add(&self, other: &Vector) -> (p: Point)
        requires
            i128::MIN <= self.x.raw + other.x.raw <= i128::MAX,
            i128::MIN <= self.y.raw + other.y.raw <= i128::MAX,
            i128::MIN <= self.z.raw + other.z.raw <= i128::MAX,
        ensures
            p.x.raw == self.x.raw + other.x.raw,
            p.y.raw == self.y.raw + other.y.raw,
            p.z.raw == self.z.raw + other.z.raw,
            p.w.raw == SCALE,
            p.wf(),
    {
        Point {
            x: self.x.add(other.x),
            y: self.y.add(other.y),
            z: self.z.add(other.z),
            w: Scalar { raw: SCALE },
        }
    }

    /// Point minus point is a vector.
    pub fn sub(&self, other: &Point) -> (v: Vector)
        requires
            i128::MIN <= self.x.raw - other.x.raw <= i128::MAX,
            i128::MIN <= self.y.raw - other.y.raw <= i128::MAX,
            i128::MIN <= self.z.raw - other.z.raw <= i128::MAX,
        ensures
            v.x.raw == self.x.raw - other.x.raw,
            v.y.raw == self.y.raw - other.y.raw,
            v.z.raw == self.z.raw - other.z.raw,
            v.w.raw == 0,
            v.wf(),
    {
        Vector {
            x: self.x.sub(other.x),
            y: self.y.sub(other.y),
            z: self.z.sub(other.z),
            w: Scalar { raw: 0 },
        }
    }

    /// Point minus vector is a point.
    pub fn sub_vector(&self, other: &Vector) -> (p: Point)
        requires
            i128::MIN <= self.x.raw - other.x.raw <= i128::MAX,
            i128::MIN <= self.y.raw - other.y.raw <= i128::MAX,
            i128::MIN <= self.z.raw - other.z.raw <= i128::MAX,
        ensures
            p.x.raw == self.x.raw - other.x.raw,
            p.y.raw == self.y.raw - other.y.raw,
            p.z.raw == self.z.raw - other.z.raw,
            p.w.raw == SCALE,
            p.wf(),
    {
        Point {
            x: self.x.sub(other.x),
            y: self.y.sub(other.y),
            z: self.z.sub(other.z),
            w: Scalar { raw: SCALE },
        }
    }
}

} // verus!
