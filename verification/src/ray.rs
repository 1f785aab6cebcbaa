use vstd::prelude::*;
use crate::scalar::{Scalar, SCALE, abs_int, tdiv};
use crate::matrix::{Matrix, CELL_LIMIT, cells_within, dot_trunc, point_col, vector_col};
use crate::point::Point;
use crate::vector::Vector;

verus! {

/// An origin and a direction; immutable once constructed.
#[derive(Debug, Copy, Clone)]
pub struct Ray {
    pub origin: Point,
    pub direction: Vector,
}

impl Ray {
    pub open spec fn wf(self) -> bool {
        self.origin.wf() && self.direction.wf()
    }

    pub fn new(origin: Point, direction: Vector) -> (r: Ray)
        ensures
            r.origin == origin,
            r.direction == direction,
    {
        Ray { origin, direction }
    }

    /// The point `origin + direction * t`.
    pub fn position(&self, t: Scalar) -> (p: Point)
        requires
            -i128::MAX <= self.direction.x.raw * t.raw <= i128::MAX,
            -i128::MAX <= self.direction.y.raw * t.raw <= i128::MAX,
            -i128::MAX <= self.direction.z.raw * t.raw <= i128::MAX,
            i128::MIN <= self.origin.x.raw + tdiv(self.direction.x.raw * t.raw, SCALE as int)
                <= i128::MAX,
            i128::MIN <= self.origin.y.raw + tdiv(self.direction.y.raw * t.raw, SCALE as int)
                <= i128::MAX,
            i128::MIN <= self.origin.z.raw + tdiv(self.direction.z.raw * t.raw, SCALE as int)
                <= i128::MAX,
        ensures
            p.x.raw == self.origin.x.raw + tdiv(self.direction.x.raw * t.raw, SCALE as int),
            p.y.raw == self.origin.y.raw + tdiv(self.direction.y.raw * t.raw, SCALE as int),
            p.z.raw == self.origin.z.raw + tdiv(self.direction.z.raw * t.raw, SCALE as int),
            p.w.raw == SCALE,
            p.wf(),
    {
        let step = self.direction.mul(t);
        self.origin.add(&step)
    }

    /// The ray with the matrix applied to origin and direction independently;
    /// the point and vector rules keep each `w` in its place.
    pub fn transform(&self, matrix: &Matrix) -> (r: Ray)
        requires
            matrix.wf(),
            matrix.row_count == 4,
            matrix.col_count == 4,
            cells_within(matrix.grid(), CELL_LIMIT as int),
            self.wf(),
            abs_int(self.origin.x.raw as int) <= CELL_LIMIT as int,
            abs_int(self.origin.y.raw as int) <= CELL_LIMIT as int,
            abs_int(self.origin.z.raw as int) <= CELL_LIMIT as int,
            abs_int(self.direction.x.raw as int) <= CELL_LIMIT as int,
            abs_int(self.direction.y.raw as int) <= CELL_LIMIT as int,
            abs_int(self.direction.z.raw as int) <= CELL_LIMIT as int,
        ensures
            r.origin.x.raw == dot_trunc(matrix.grid()[0], point_col(self.origin), 4),
            r.origin.y.raw == dot_trunc(matrix.grid()[1], point_col(self.origin), 4),
            r.origin.z.raw == dot_trunc(matrix.grid()[2], point_col(self.origin), 4),
            r.origin.w.raw == SCALE,
            r.direction.x.raw == dot_trunc(matrix.grid()[0], vector_col(self.direction), 4),
            r.direction.y.raw == dot_trunc(matrix.grid()[1], vector_col(self.direction), 4),
            r.direction.z.raw == dot_trunc(matrix.grid()[2], vector_col(self.direction), 4),
            r.direction.w.raw == 0,
            r.wf(),
    {
        let new_origin = matrix.mul_point(&self.origin);
        let new_dir = matrix.mul_vector(&self.direction);
        Ray::new(new_origin, new_dir)
    }
}

} // verus!
