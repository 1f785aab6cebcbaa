use vstd::prelude::*;
use crate::intersection::Intersection;
use crate::matrix::{
    Matrix,
    CELL_LIMIT,
    INV_CELL_LIMIT,
    cells_within,
    dot_trunc,
    point_col,
    vector_col,
    spec_det,
    spec_inverse_cell,
    lemma_abs_mul,
    lemma_dot_trunc_bound,
    lemma_mul_fits,
    lemma_tdiv_cap,
    lemma_tdiv_le_abs,
};
use crate::object::Object;
use crate::point::Point;
use crate::ray::Ray;
use crate::scalar::{Scalar, SCALE, abs_int, tdiv, sqrt_floor, lemma_tdiv_monotone};
use crate::vector::Vector;

verus! {

/// A sphere in its own object space, carried into world space by an affine
/// transform (the identity by default).
#[derive(Debug)]
pub struct Sphere {
    pub origin: Point,
    pub radius: Scalar,
    pub transform: Matrix,
}

impl Sphere {
    pub open spec fn wf(self) -> bool {
        &&& self.origin.wf()
        &&& self.transform.wf()
        &&& self.transform.row_count == 4
        &&& self.transform.col_count == 4
    }
}

/// `c` carries the same state as `s` (a faithful copy).
pub open spec fn copy_of(s: Sphere, c: Sphere) -> bool {
    &&& c.origin == s.origin
    &&& c.radius == s.radius
    &&& c.transform.grid() == s.transform.grid()
    &&& c.transform.row_count == s.transform.row_count
    &&& c.transform.col_count == s.transform.col_count
}

/// The grid of the inverse of the sphere's transform.
pub open spec fn inv_grid(s: Sphere) -> Seq<Seq<int>> {
    Seq::new(4, |i: int| Seq::new(4, |j: int| spec_inverse_cell(s.transform.grid(), i, j)))
}

/// Component `i` of the ray's origin carried into the sphere's local space.
pub open spec fn local_origin(s: Sphere, r: Ray, i: int) -> int {
    dot_trunc(inv_grid(s)[i], point_col(r.origin), 4)
}

/// Component `i` of the ray's direction carried into the sphere's local space.
pub open spec fn local_dir(s: Sphere, r: Ray, i: int) -> int {
    dot_trunc(inv_grid(s)[i], vector_col(r.direction), 4)
}

pub open spec fn str_x(s: Sphere, r: Ray) -> int {
    local_origin(s, r, 0) - s.origin.x.raw
}

pub open spec fn str_y(s: Sphere, r: Ray) -> int {
    local_origin(s, r, 1) - s.origin.y.raw
}

pub open spec fn str_z(s: Sphere, r: Ray) -> int {
    local_origin(s, r, 2) - s.origin.z.raw
}

/// The quadratic's leading coefficient: direction dotted with itself.
pub open spec fn spec_a(s: Sphere, r: Ray) -> int {
    tdiv(local_dir(s, r, 0) * local_dir(s, r, 0), SCALE as int) + tdiv(
        local_dir(s, r, 1) * local_dir(s, r, 1),
        SCALE as int,
    ) + tdiv(local_dir(s, r, 2) * local_dir(s, r, 2), SCALE as int)
}

/// Direction dotted with the sphere-to-ray offset.
pub open spec fn spec_dot_ds(s: Sphere, r: Ray) -> int {
    tdiv(local_dir(s, r, 0) * str_x(s, r), SCALE as int) + tdiv(
        local_dir(s, r, 1) * str_y(s, r),
        SCALE as int,
    ) + tdiv(local_dir(s, r, 2) * str_z(s, r), SCALE as int)
}

/// The sphere-to-ray offset dotted with itself.
pub open spec fn spec_dot_ss(s: Sphere, r: Ray) -> int {
    tdiv(str_x(s, r) * str_x(s, r), SCALE as int) + tdiv(str_y(s, r) * str_y(s, r), SCALE as int)
        + tdiv(str_z(s, r) * str_z(s, r), SCALE as int)
}

pub open spec fn spec_b(s: Sphere, r: Ray) -> int {
    tdiv(2 * (SCALE as int) * spec_dot_ds(s, r), SCALE as int)
}

pub open spec fn spec_c(s: Sphere, r: Ray) -> int {
    spec_dot_ss(s, r) - tdiv(s.radius.raw * s.radius.raw, SCALE as int)
}

/// The discriminant `b*b - 4*a*c` as the code computes it.
pub open spec fn spec_disc(s: Sphere, r: Ray) -> int {
    tdiv(spec_b(s, r) * spec_b(s, r), SCALE as int) - tdiv(
        tdiv(4 * (SCALE as int) * spec_a(s, r), SCALE as int) * spec_c(s, r),
        SCALE as int,
    )
}

pub open spec fn spec_den(s: Sphere, r: Ray) -> int {
    tdiv(2 * (SCALE as int) * spec_a(s, r), SCALE as int)
}

/// The near root `(-b - sqrt(disc)) / (2a)`.
pub open spec fn spec_t1(s: Sphere, r: Ray) -> int {
    tdiv(
        (-spec_b(s, r) - sqrt_floor(spec_disc(s, r) * SCALE)) * SCALE,
        spec_den(s, r),
    )
}

/// The far root `(-b + sqrt(disc)) / (2a)`.
pub open spec fn spec_t2(s: Sphere, r: Ray) -> int {
    tdiv(
        (-spec_b(s, r) + sqrt_floor(spec_disc(s, r) * SCALE)) * SCALE,
        spec_den(s, r),
    )
}

/// The machine limits under which the intersection query can be computed:
/// the transform is invertible, every value stays on the grid, and the ray's
/// direction is not degenerate.
pub open spec fn intersect_fits(s: Sphere, r: Ray) -> bool {
    &&& s.wf()
    &&& r.wf()
    &&& cells_within(s.transform.grid(), INV_CELL_LIMIT as int)
    &&& spec_det(s.transform.grid()) != 0
    &&& cells_within(inv_grid(s), CELL_LIMIT as int)
    &&& abs_int(r.origin.x.raw as int) <= CELL_LIMIT as int
    &&& abs_int(r.origin.y.raw as int) <= CELL_LIMIT as int
    &&& abs_int(r.origin.z.raw as int) <= CELL_LIMIT as int
    &&& abs_int(r.direction.x.raw as int) <= CELL_LIMIT as int
    &&& abs_int(r.direction.y.raw as int) <= CELL_LIMIT as int
    &&& abs_int(r.direction.z.raw as int) <= CELL_LIMIT as int
    &&& abs_int(s.origin.x.raw as int) <= CELL_LIMIT as int
    &&& abs_int(s.origin.y.raw as int) <= CELL_LIMIT as int
    &&& abs_int(s.origin.z.raw as int) <= CELL_LIMIT as int
    &&& abs_int(s.radius.raw as int) <= CELL_LIMIT as int
    &&& -i128::MAX <= local_dir(s, r, 0) * local_dir(s, r, 0) <= i128::MAX
    &&& -i128::MAX <= local_dir(s, r, 1) * local_dir(s, r, 1) <= i128::MAX
    &&& -i128::MAX <= local_dir(s, r, 2) * local_dir(s, r, 2) <= i128::MAX
    &&& -i128::MAX <= local_dir(s, r, 0) * str_x(s, r) <= i128::MAX
    &&& -i128::MAX <= local_dir(s, r, 1) * str_y(s, r) <= i128::MAX
    &&& -i128::MAX <= local_dir(s, r, 2) * str_z(s, r) <= i128::MAX
    &&& -i128::MAX <= str_x(s, r) * str_x(s, r) <= i128::MAX
    &&& -i128::MAX <= str_y(s, r) * str_y(s, r) <= i128::MAX
    &&& -i128::MAX <= str_z(s, r) * str_z(s, r) <= i128::MAX
    &&& -i128::MAX <= 2 * (SCALE as int) * spec_dot_ds(s, r) <= i128::MAX
    &&& i128::MIN <= spec_c(s, r) <= i128::MAX
    &&& -i128::MAX <= spec_b(s, r) * spec_b(s, r) <= i128::MAX
    &&& -i128::MAX <= 4 * (SCALE as int) * spec_a(s, r) <= i128::MAX
    &&& -i128::MAX <= tdiv(4 * (SCALE as int) * spec_a(s, r), SCALE as int) * spec_c(s, r)
        <= i128::MAX
    &&& spec_a(s, r) != 0
    &&& (spec_disc(s, r) >= 0 ==> spec_disc(s, r) * SCALE <= u128::MAX)
    &&& (spec_disc(s, r) >= 0 ==> -i128::MAX <= (-spec_b(s, r) - sqrt_floor(
        spec_disc(s, r) * SCALE,
    )) * SCALE <= i128::MAX)
    &&& (spec_disc(s, r) >= 0 ==> -i128::MAX <= (-spec_b(s, r) + sqrt_floor(
        spec_disc(s, r) * SCALE,
    )) * SCALE <= i128::MAX)
}

/// The grid of the transform's transpose.
pub open spec fn tr_grid(s: Sphere) -> Seq<Seq<int>> {
    Seq::new(4, |i: int| Seq::new(4, |j: int| s.transform.grid()[j][i]))
}

/// The grid of the inverse of the transform's transpose.
pub open spec fn tinv_grid(s: Sphere) -> Seq<Seq<int>> {
    Seq::new(4, |i: int| Seq::new(4, |j: int| spec_inverse_cell(tr_grid(s), i, j)))
}

/// The divisor normalization uses for the vector `(x, y, z)`.
pub open spec fn norm_div3(x: int, y: int, z: int) -> int {
    let m = sqrt_floor(
        (tdiv(x * x, SCALE as int) + tdiv(y * y, SCALE as int) + tdiv(z * z, SCALE as int))
            * SCALE,
    );
    if m == 0 {
        SCALE as int
    } else {
        m
    }
}

/// Component `i` of the queried point carried into the sphere's local space.
pub open spec fn local_pt(s: Sphere, p: Point, i: int) -> int {
    dot_trunc(inv_grid(s)[i], point_col(p), 4)
}

pub open spec fn ln_x(s: Sphere, p: Point) -> int {
    local_pt(s, p, 0) - s.origin.x.raw
}

pub open spec fn ln_y(s: Sphere, p: Point) -> int {
    local_pt(s, p, 1) - s.origin.y.raw
}

pub open spec fn ln_z(s: Sphere, p: Point) -> int {
    local_pt(s, p, 2) - s.origin.z.raw
}

/// The local normal: the local offset, normalized.
pub open spec fn nloc_x(s: Sphere, p: Point) -> int {
    tdiv(ln_x(s, p) * SCALE, norm_div3(ln_x(s, p), ln_y(s, p), ln_z(s, p)))
}

pub open spec fn nloc_y(s: Sphere, p: Point) -> int {
    tdiv(ln_y(s, p) * SCALE, norm_div3(ln_x(s, p), ln_y(s, p), ln_z(s, p)))
}

pub open spec fn nloc_z(s: Sphere, p: Point) -> int {
    tdiv(ln_z(s, p) * SCALE, norm_div3(ln_x(s, p), ln_y(s, p), ln_z(s, p)))
}

/// The local normal carried to world space by the inverse transpose.
pub open spec fn wv_x(s: Sphere, p: Point) -> int {
    dot_trunc(tinv_grid(s)[0], seq![nloc_x(s, p), nloc_y(s, p), nloc_z(s, p), 0], 4)
}

pub open spec fn wv_y(s: Sphere, p: Point) -> int {
    dot_trunc(tinv_grid(s)[1], seq![nloc_x(s, p), nloc_y(s, p), nloc_z(s, p), 0], 4)
}

pub open spec fn wv_z(s: Sphere, p: Point) -> int {
    dot_trunc(tinv_grid(s)[2], seq![nloc_x(s, p), nloc_y(s, p), nloc_z(s, p), 0], 4)
}

/// The world normal: the carried vector normalized once more.
pub open spec fn normal_x(s: Sphere, p: Point) -> int {
    tdiv(wv_x(s, p) * SCALE, norm_div3(wv_x(s, p), wv_y(s, p), wv_z(s, p)))
}

pub open spec fn normal_y(s: Sphere, p: Point) -> int {
    tdiv(wv_y(s, p) * SCALE, norm_div3(wv_x(s, p), wv_y(s, p), wv_z(s, p)))
}

pub open spec fn normal_z(s: Sphere, p: Point) -> int {
    tdiv(wv_z(s, p) * SCALE, norm_div3(wv_x(s, p), wv_y(s, p), wv_z(s, p)))
}

/// The machine limits under which the normal query can be computed: both the
/// transform and its transpose are invertible and every value stays on the
/// grid.
pub open spec fn normal_fits(s: Sphere, p: Point) -> bool {
    &&& s.wf()
    &&& p.wf()
    &&& cells_within(s.transform.grid(), INV_CELL_LIMIT as int)
    &&& spec_det(s.transform.grid()) != 0
    &&& spec_det(tr_grid(s)) != 0
    &&& cells_within(inv_grid(s), CELL_LIMIT as int)
    &&& cells_within(tinv_grid(s), CELL_LIMIT as int)
    &&& abs_int(p.x.raw as int) <= CELL_LIMIT as int
    &&& abs_int(p.y.raw as int) <= CELL_LIMIT as int
    &&& abs_int(p.z.raw as int) <= CELL_LIMIT as int
    &&& abs_int(s.origin.x.raw as int) <= CELL_LIMIT as int
    &&& abs_int(s.origin.y.raw as int) <= CELL_LIMIT as int
    &&& abs_int(s.origin.z.raw as int) <= CELL_LIMIT as int
    &&& -i128::MAX <= ln_x(s, p) * ln_x(s, p) <= i128::MAX
    &&& -i128::MAX <= ln_y(s, p) * ln_y(s, p) <= i128::MAX
    &&& -i128::MAX <= ln_z(s, p) * ln_z(s, p) <= i128::MAX
    &&& (tdiv(ln_x(s, p) * ln_x(s, p), SCALE as int) + tdiv(ln_y(s, p) * ln_y(s, p), SCALE as int)
        + tdiv(ln_z(s, p) * ln_z(s, p), SCALE as int)) * SCALE <= u128::MAX
    &&& abs_int(nloc_x(s, p)) <= CELL_LIMIT as int
    &&& abs_int(nloc_y(s, p)) <= CELL_LIMIT as int
    &&& abs_int(nloc_z(s, p)) <= CELL_LIMIT as int
    &&& -i128::MAX <= wv_x(s, p) * wv_x(s, p) <= i128::MAX
    &&& -i128::MAX <= wv_y(s, p) * wv_y(s, p) <= i128::MAX
    &&& -i128::MAX <= wv_z(s, p) * wv_z(s, p) <= i128::MAX
    &&& (tdiv(wv_x(s, p) * wv_x(s, p), SCALE as int) + tdiv(wv_y(s, p) * wv_y(s, p), SCALE as int)
        + tdiv(wv_z(s, p) * wv_z(s, p), SCALE as int)) * SCALE <= u128::MAX
    &&& -i128::MAX <= wv_x(s, p) * SCALE <= i128::MAX
    &&& -i128::MAX <= wv_y(s, p) * SCALE <= i128::MAX
    &&& -i128::MAX <= wv_z(s, p) * SCALE <= i128::MAX
}

impl Object for Sphere {
    /// The normal query is answerable within `normal_fits`.
    open spec fn normal_req(&self, point: Point) -> bool {
        normal_fits(*self, point)
    }

    /// The returned vector is the inverse-transpose-carried, re-normalized
    /// local normal, with `w` zero.
    open spec fn normal_ens(&self, point: Point, v: Vector) -> bool {
        &&& v.x.raw == normal_x(*self, point)
        &&& v.y.raw == normal_y(*self, point)
        &&& v.z.raw == normal_z(*self, point)
        &&& v.w.raw == 0
    }

    /// The world point is carried into object space by the inverse transform,
    /// the local normal is the offset from the sphere's origin normalized,
    /// and it is carried back by the inverse transpose (normals transform
    /// contravariantly) and normalized again; `w` stays zero by construction.
    fn normal_at(&self, point: &Point) -> (v: Vector) {
        let ghost sv = *self;
        let ghost pv = *point;
        let inv = self.transform.inverse();
        proof {
            assert forall|i: int| 0 <= i < 4 implies #[trigger] inv.grid()[i] == inv_grid(sv)[i] by {
                assert(inv.grid()[i].len() == 4);
                assert forall|j: int| 0 <= j < 4 implies inv.grid()[i][j] == inv_grid(sv)[i][j] by {
                    assert(inv.grid()[i][j] == inv.at(i, j));
                }
                assert(inv.grid()[i] =~= inv_grid(sv)[i]);
            }
            assert(inv.grid() =~= inv_grid(sv));
            assert forall|t: int|
                0 <= t < 4 implies abs_int(#[trigger] inv_grid(sv)[0][t]) <= CELL_LIMIT as int by {
                assert(cells_within(inv_grid(sv), CELL_LIMIT as int));
                assert(inv_grid(sv)[0].len() == 4);
            }
            assert forall|t: int|
                0 <= t < 4 implies abs_int(#[trigger] inv_grid(sv)[1][t]) <= CELL_LIMIT as int by {
                assert(cells_within(inv_grid(sv), CELL_LIMIT as int));
                assert(inv_grid(sv)[1].len() == 4);
            }
            assert forall|t: int|
                0 <= t < 4 implies abs_int(#[trigger] inv_grid(sv)[2][t]) <= CELL_LIMIT as int by {
                assert(cells_within(inv_grid(sv), CELL_LIMIT as int));
                assert(inv_grid(sv)[2].len() == 4);
            }
            assert(point_col(pv)[0] == pv.x.raw);
            assert(point_col(pv)[3] == pv.w.raw);
            lemma_dot_trunc_bound(inv_grid(sv)[0], point_col(pv), 4, CELL_LIMIT as int, CELL_LIMIT as int);
            lemma_dot_trunc_bound(inv_grid(sv)[1], point_col(pv), 4, CELL_LIMIT as int, CELL_LIMIT as int);
            lemma_dot_trunc_bound(inv_grid(sv)[2], point_col(pv), 4, CELL_LIMIT as int, CELL_LIMIT as int);
        }
        let transformed_point = inv.mul_point(point);
        proof {
            assert(transformed_point.x.raw == local_pt(sv, pv, 0));
            assert(transformed_point.y.raw == local_pt(sv, pv, 1));
            assert(transformed_point.z.raw == local_pt(sv, pv, 2));
        }
        let local = transformed_point.sub(&self.origin);
        proof {
            assert(local.x.raw == ln_x(sv, pv));
            assert(local.y.raw == ln_y(sv, pv));
            assert(local.z.raw == ln_z(sv, pv));
            lemma_dot_partials(
                ln_x(sv, pv) * ln_x(sv, pv),
                ln_y(sv, pv) * ln_y(sv, pv),
                ln_z(sv, pv) * ln_z(sv, pv),
            );
            assert((4 * ((CELL_LIMIT as int * CELL_LIMIT as int) / (SCALE as int)) + CELL_LIMIT as int)
                * SCALE <= i128::MAX);
        }
        let transformed_vector = local.normalize();
        proof {
            assert(crate::vector::spec_norm_div(local) == norm_div3(
                ln_x(sv, pv),
                ln_y(sv, pv),
                ln_z(sv, pv),
            ));
            assert(transformed_vector.x.raw == nloc_x(sv, pv));
            assert(transformed_vector.y.raw == nloc_y(sv, pv));
            assert(transformed_vector.z.raw == nloc_z(sv, pv));
        }
        let transposed = self.transform.transpose();
        proof {
            assert forall|i: int| 0 <= i < 4 implies #[trigger] transposed.grid()[i] == tr_grid(
                sv,
            )[i] by {
                assert(transposed.grid()[i].len() == 4);
                assert forall|j: int| 0 <= j < 4 implies transposed.grid()[i][j] == tr_grid(
                    sv,
                )[i][j] by {
                    assert(transposed.grid()[i][j] == transposed.at(i, j));
                    assert(tr_grid(sv)[i][j] == sv.transform.grid()[j][i]);
                    assert(sv.transform.grid()[j][i] == sv.transform.at(j, i));
                }
                assert(transposed.grid()[i] =~= tr_grid(sv)[i]);
            }
            assert(transposed.grid() =~= tr_grid(sv));
            assert forall|i: int, j: int|
                0 <= i < transposed.grid().len() && 0 <= j < transposed.grid()[i].len()
                implies -(INV_CELL_LIMIT as int) <= #[trigger] transposed.grid()[i][j] <= (
            INV_CELL_LIMIT as int) by {
                assert(transposed.grid()[i][j] == sv.transform.grid()[j][i]);
                assert(cells_within(sv.transform.grid(), INV_CELL_LIMIT as int));
                assert(sv.transform.grid()[j].len() == 4);
            }
        }
        let tinv = transposed.inverse();
        proof {
            assert forall|i: int| 0 <= i < 4 implies #[trigger] tinv.grid()[i] == tinv_grid(
                sv,
            )[i] by {
                assert(tinv.grid()[i].len() == 4);
                assert forall|j: int| 0 <= j < 4 implies tinv.grid()[i][j] == tinv_grid(
                    sv,
                )[i][j] by {
                    assert(tinv.grid()[i][j] == tinv.at(i, j));
                }
                assert(tinv.grid()[i] =~= tinv_grid(sv)[i]);
            }
            assert(tinv.grid() =~= tinv_grid(sv));
            assert(vector_col(transformed_vector) =~= seq![
                nloc_x(sv, pv),
                nloc_y(sv, pv),
                nloc_z(sv, pv),
                0,
            ]);
        }
        let world = tinv.mul_vector(&transformed_vector);
        proof {
            assert(world.x.raw == wv_x(sv, pv));
            assert(world.y.raw == wv_y(sv, pv));
            assert(world.z.raw == wv_z(sv, pv));
            lemma_dot_partials(
                wv_x(sv, pv) * wv_x(sv, pv),
                wv_y(sv, pv) * wv_y(sv, pv),
                wv_z(sv, pv) * wv_z(sv, pv),
            );
        }
        let result = world.normalize();
        proof {
            assert(crate::vector::spec_norm_div(world) == norm_div3(
                wv_x(sv, pv),
                wv_y(sv, pv),
                wv_z(sv, pv),
            ));
        }
        result
    }
}

/// A sphere whose transform is a translation meets the intersection query's
/// machine limits whenever every input value stays within a thousand units
/// (the translation and the sphere) and the ray within the stated room, and
/// the ray's direction is not degenerate. The local-space values are the
/// world ones shifted, exactly.
pub proof fn lemma_translation_sphere_fits(s: Sphere, r: Ray, tx: int, ty: int, tz: int)
    requires
        s.wf(),
        r.wf(),
        s.transform.grid() == crate::laws::translation_grid(tx, ty, tz),
        abs_int(tx) <= 100_000_000_000,
        abs_int(ty) <= 100_000_000_000,
        abs_int(tz) <= 100_000_000_000,
        abs_int(s.origin.x.raw as int) <= 100_000_000_000,
        abs_int(s.origin.y.raw as int) <= 100_000_000_000,
        abs_int(s.origin.z.raw as int) <= 100_000_000_000,
        abs_int(s.radius.raw as int) <= 100_000_000_000,
        abs_int(r.origin.x.raw as int) <= 100_000_000_000,
        abs_int(r.origin.y.raw as int) <= 100_000_000_000,
        abs_int(r.origin.z.raw as int) <= 100_000_000_000,
        abs_int(r.direction.x.raw as int) <= 20_000_000_000_000,
        abs_int(r.direction.y.raw as int) <= 20_000_000_000_000,
        abs_int(r.direction.z.raw as int) <= 20_000_000_000_000,
        tdiv(r.direction.x.raw * r.direction.x.raw, SCALE as int) + tdiv(
            r.direction.y.raw * r.direction.y.raw,
            SCALE as int,
        ) + tdiv(r.direction.z.raw * r.direction.z.raw, SCALE as int) >= 1,
    ensures
        intersect_fits(s, r),
        local_dir(s, r, 0) == r.direction.x.raw,
        local_dir(s, r, 1) == r.direction.y.raw,
        local_dir(s, r, 2) == r.direction.z.raw,
        str_x(s, r) == r.origin.x.raw - tx - s.origin.x.raw,
        str_y(s, r) == r.origin.y.raw - ty - s.origin.y.raw,
        str_z(s, r) == r.origin.z.raw - tz - s.origin.z.raw,
        spec_a(s, r) == tdiv(r.direction.x.raw * r.direction.x.raw, SCALE as int) + tdiv(
            r.direction.y.raw * r.direction.y.raw,
            SCALE as int,
        ) + tdiv(r.direction.z.raw * r.direction.z.raw, SCALE as int),
        spec_den(s, r) == 2 * spec_a(s, r),
        abs_int(spec_b(s, r)) <= 400_000_000_000_000_000,
        spec_disc(s, r) >= 0 ==> 0 <= sqrt_floor(spec_disc(s, r) * SCALE)
            <= 600_000_000_000_000_000,
{
    let sc = SCALE as int;
    let cl = 100_000_000_000 as int;
    let db = 20_000_000_000_000 as int;
    let m = crate::laws::translation_grid(tx, ty, tz);
    let w = crate::laws::translation_grid(-tx, -ty, -tz);
    crate::laws::lemma_translation_det(tx, ty, tz);
    crate::laws::lemma_translation_inverse(tx, ty, tz);
    assert forall|i: int| 0 <= i < 4 implies #[trigger] inv_grid(s)[i] == w[i] by {
        assert forall|j: int| 0 <= j < 4 implies inv_grid(s)[i][j] == w[i][j] by {
            assert(inv_grid(s)[i][j] == spec_inverse_cell(m, i, j));
        }
        assert(inv_grid(s)[i] =~= w[i]);
    }
    assert(inv_grid(s) =~= w);
    assert forall|i: int, j: int|
        0 <= i < inv_grid(s).len() && 0 <= j < inv_grid(s)[i].len() implies -(CELL_LIMIT as int)
        <= #[trigger] inv_grid(s)[i][j] <= (CELL_LIMIT as int) by {
        assert(inv_grid(s)[i][j] == w[i][j]);
    }
    assert forall|i: int, j: int|
        0 <= i < m.len() && 0 <= j < m[i].len() implies -(INV_CELL_LIMIT as int)
        <= #[trigger] m[i][j] <= (INV_CELL_LIMIT as int) by {}
    let dx = r.direction.x.raw as int;
    let dy = r.direction.y.raw as int;
    let dz = r.direction.z.raw as int;
    let ox = r.origin.x.raw as int;
    let oy = r.origin.y.raw as int;
    let oz = r.origin.z.raw as int;
    crate::laws::lemma_translation_apply(-tx, -ty, -tz, dx, dy, dz, 0);
    crate::laws::lemma_translation_apply(-tx, -ty, -tz, ox, oy, oz, sc);
    crate::matrix::lemma_sign_mul_exact(sc, -tx);
    crate::matrix::lemma_sign_mul_exact(sc, -ty);
    crate::matrix::lemma_sign_mul_exact(sc, -tz);
    crate::matrix::lemma_sign_mul_exact(sc, 0);
    assert(vector_col(r.direction) =~= seq![dx, dy, dz, 0]);
    assert(point_col(r.origin) =~= seq![ox, oy, oz, sc]);
    assert(local_dir(s, r, 0) == dx && local_dir(s, r, 1) == dy && local_dir(s, r, 2) == dz);
    assert(local_origin(s, r, 0) == ox + tdiv(-tx * sc, sc));
    assert(-tx * sc == sc * -tx) by (nonlinear_arith);
    assert(-ty * sc == sc * -ty) by (nonlinear_arith);
    assert(-tz * sc == sc * -tz) by (nonlinear_arith);
    assert(local_origin(s, r, 0) == ox + -tx);
    assert(local_origin(s, r, 1) == oy + -ty);
    assert(local_origin(s, r, 2) == oz + -tz);
    let sx = str_x(s, r);
    let sy = str_y(s, r);
    let sz = str_z(s, r);
    assert(abs_int(sx) <= 3 * cl && abs_int(sy) <= 3 * cl && abs_int(sz) <= 3 * cl);
    // products of directions and offsets
    lemma_mul_fits(dx, dx, db, db);
    lemma_mul_fits(dy, dy, db, db);
    lemma_mul_fits(dz, dz, db, db);
    lemma_mul_fits(dx, sx, db, 3 * cl);
    lemma_mul_fits(dy, sy, db, 3 * cl);
    lemma_mul_fits(dz, sz, db, 3 * cl);
    lemma_mul_fits(sx, sx, 3 * cl, 3 * cl);
    lemma_mul_fits(sy, sy, 3 * cl, 3 * cl);
    lemma_mul_fits(sz, sz, 3 * cl, 3 * cl);
    lemma_mul_fits(s.radius.raw as int, s.radius.raw as int, cl, cl);
    // the dot products and their scaled forms
    lemma_tdiv_cap(dx * sx, sc, db * (3 * cl));
    lemma_tdiv_cap(dy * sy, sc, db * (3 * cl));
    lemma_tdiv_cap(dz * sz, sc, db * (3 * cl));
    assert(abs_int(spec_dot_ds(s, r)) <= 3 * ((db * (3 * cl)) / sc));
    assert((db * (3 * cl)) / sc == 60_000_000_000_000_000int);
    assert(abs_int(spec_dot_ds(s, r)) <= 180_000_000_000_000_000);
    assert(-36_000_000_000_000_000_000_000_000 <= 2 * sc * spec_dot_ds(s, r)
        <= 36_000_000_000_000_000_000_000_000) by (nonlinear_arith)
        requires
            sc == 100_000_000 && -180_000_000_000_000_000 <= spec_dot_ds(s, r)
                <= 180_000_000_000_000_000,
    ;
    assert(abs_int(2 * sc * spec_dot_ds(s, r)) <= 36_000_000_000_000_000_000_000_000);
    lemma_tdiv_cap(2 * sc * spec_dot_ds(s, r), sc, 36_000_000_000_000_000_000_000_000);
    assert(abs_int(spec_b(s, r)) <= 360_000_000_000_000_000);
    lemma_mul_fits(spec_b(s, r), spec_b(s, r), 400_000_000_000_000_000, 400_000_000_000_000_000);
    lemma_tdiv_cap(dx * dx, sc, db * db);
    lemma_tdiv_cap(dy * dy, sc, db * db);
    lemma_tdiv_cap(dz * dz, sc, db * db);
    assert(abs_int(spec_a(s, r)) <= 3 * ((db * db) / sc));
    assert((db * db) / sc == 4_000_000_000_000_000_000);
    assert(-4_800_000_000_000_000_000_000_000_000 <= 4 * sc * spec_a(s, r)
        <= 4_800_000_000_000_000_000_000_000_000) by (nonlinear_arith)
        requires
            sc == 100_000_000 && -12_000_000_000_000_000_000 <= spec_a(s, r)
                <= 12_000_000_000_000_000_000,
    ;
    assert(abs_int(4 * sc * spec_a(s, r)) <= 4_800_000_000_000_000_000_000_000_000);
    lemma_tdiv_cap(4 * sc * spec_a(s, r), sc, 4_800_000_000_000_000_000_000_000_000);
    let four_a = tdiv(4 * sc * spec_a(s, r), sc);
    assert(abs_int(four_a) <= 48_000_000_000_000_000_000);
    lemma_tdiv_cap(sx * sx, sc, (3 * cl) * (3 * cl));
    lemma_tdiv_cap(sy * sy, sc, (3 * cl) * (3 * cl));
    lemma_tdiv_cap(sz * sz, sc, (3 * cl) * (3 * cl));
    assert(((3 * cl) * (3 * cl)) / sc == 900_000_000_000_000);
    assert(abs_int(spec_dot_ss(s, r)) <= 2_700_000_000_000_000);
    lemma_tdiv_cap(s.radius.raw * s.radius.raw, sc, cl * cl);
    assert((cl * cl) / sc == 100_000_000_000_000);
    assert(abs_int(spec_c(s, r)) <= 2_800_000_000_000_000);
    lemma_mul_fits(four_a, spec_c(s, r), 48_000_000_000_000_000_000, 2_800_000_000_000_000);
    lemma_tdiv_cap(
        spec_b(s, r) * spec_b(s, r),
        sc,
        160_000_000_000_000_000_000_000_000_000_000_000,
    );
    lemma_tdiv_cap(
        four_a * spec_c(s, r),
        sc,
        134_400_000_000_000_000_000_000_000_000_000_000,
    );
    assert(abs_int(spec_disc(s, r)) <= 3_000_000_000_000_000_000_000_000_000);
    if spec_disc(s, r) >= 0 {
        lemma_abs_mul(spec_disc(s, r), SCALE as int);
        assert(spec_disc(s, r) * SCALE <= 300_000_000_000_000_000_000_000_000_000_000_000);
        assert((600_000_000_000_000_000 + 1) * (600_000_000_000_000_000 + 1)
            > 300_000_000_000_000_000_000_000_000_000_000_000) by (nonlinear_arith);
        crate::scalar::lemma_sqrt_floor_below(
            spec_disc(s, r) * SCALE,
            600_000_000_000_000_000,
        );
    }
    // the denominator the roots divide by
    vstd::arithmetic::div_mod::lemma_div_multiples_vanish(2 * spec_a(s, r), sc);
    assert(2 * sc * spec_a(s, r) == sc * (2 * spec_a(s, r)));
    assert(spec_den(s, r) == 2 * spec_a(s, r));
    // the root numerators scaled back up stay within the machine word
    if spec_disc(s, r) >= 0 {
        let sq = sqrt_floor(spec_disc(s, r) * SCALE);
        lemma_abs_mul(-spec_b(s, r) - sq, sc);
        lemma_abs_mul(-spec_b(s, r) + sq, sc);
    }
}

/// With a direction of at least half a unit of squared length, both roots of
/// a translated sphere's quadratic stay within ten billion units.
pub proof fn lemma_translation_sphere_roots_bounded(s: Sphere, r: Ray, tx: int, ty: int, tz: int)
    requires
        s.wf(),
        r.wf(),
        s.transform.grid() == crate::laws::translation_grid(tx, ty, tz),
        abs_int(tx) <= 100_000_000_000,
        abs_int(ty) <= 100_000_000_000,
        abs_int(tz) <= 100_000_000_000,
        abs_int(s.origin.x.raw as int) <= 100_000_000_000,
        abs_int(s.origin.y.raw as int) <= 100_000_000_000,
        abs_int(s.origin.z.raw as int) <= 100_000_000_000,
        abs_int(s.radius.raw as int) <= 100_000_000_000,
        abs_int(r.origin.x.raw as int) <= 100_000_000_000,
        abs_int(r.origin.y.raw as int) <= 100_000_000_000,
        abs_int(r.origin.z.raw as int) <= 100_000_000_000,
        abs_int(r.direction.x.raw as int) <= 20_000_000_000_000,
        abs_int(r.direction.y.raw as int) <= 20_000_000_000_000,
        abs_int(r.direction.z.raw as int) <= 20_000_000_000_000,
        tdiv(r.direction.x.raw * r.direction.x.raw, SCALE as int) + tdiv(
            r.direction.y.raw * r.direction.y.raw,
            SCALE as int,
        ) + tdiv(r.direction.z.raw * r.direction.z.raw, SCALE as int) >= 50_000_000,
    ensures
        intersect_fits(s, r),
        spec_disc(s, r) >= 0 ==> abs_int(spec_t1(s, r)) <= 1_000_000_000_000_000_000,
        spec_disc(s, r) >= 0 ==> abs_int(spec_t2(s, r)) <= 1_000_000_000_000_000_000,
{
    let sc = SCALE as int;
    lemma_translation_sphere_fits(s, r, tx, ty, tz);
    assert(spec_a(s, r) >= 50_000_000);
    assert(spec_den(s, r) >= 100_000_000);
    if spec_disc(s, r) >= 0 {
        let sq = sqrt_floor(spec_disc(s, r) * SCALE);
        let num1 = -spec_b(s, r) - sq;
        let num2 = -spec_b(s, r) + sq;
        assert(abs_int(num1) <= 1_000_000_000_000_000_000);
        assert(abs_int(num2) <= 1_000_000_000_000_000_000);
        lemma_abs_mul(num1, sc);
        lemma_abs_mul(num2, sc);
        crate::scalar::lemma_tdiv_denominator(num1 * sc, spec_den(s, r), sc);
        crate::scalar::lemma_tdiv_denominator(num2 * sc, spec_den(s, r), sc);
        vstd::arithmetic::div_mod::lemma_div_is_ordered(
            abs_int(num1) * sc,
            1_000_000_000_000_000_000 * sc,
            sc,
        );
        vstd::arithmetic::div_mod::lemma_div_is_ordered(
            abs_int(num2) * sc,
            1_000_000_000_000_000_000 * sc,
            sc,
        );
        vstd::arithmetic::div_mod::lemma_div_multiples_vanish(1_000_000_000_000_000_000, sc);
        assert(1_000_000_000_000_000_000 * sc == sc * 1_000_000_000_000_000_000int);
    }
}

/// Partial sums of three truncated products stay within the machine word.
pub proof fn lemma_dot_partials(xx: int, yy: int, zz: int)
    requires
        -i128::MAX <= xx <= i128::MAX,
        -i128::MAX <= yy <= i128::MAX,
        -i128::MAX <= zz <= i128::MAX,
    ensures
        i128::MIN <= tdiv(xx, SCALE as int) + tdiv(yy, SCALE as int) <= i128::MAX,
        i128::MIN <= tdiv(xx, SCALE as int) + tdiv(yy, SCALE as int) + tdiv(zz, SCALE as int)
            <= i128::MAX,
{
    lemma_tdiv_cap(xx, SCALE as int, i128::MAX as int);
    lemma_tdiv_cap(yy, SCALE as int, i128::MAX as int);
    lemma_tdiv_cap(zz, SCALE as int, i128::MAX as int);
}

/// A truncated product of a value with itself is never negative.
proof fn lemma_sq_tdiv_nonneg(x: int)
    ensures
        tdiv(x * x, SCALE as int) >= 0,
        x * x >= 0,
{
    assert(x * x >= 0) by (nonlinear_arith);
    vstd::arithmetic::div_mod::lemma_div_basics_4(x * x, SCALE as int);
}

impl Clone for Sphere {
    /// A faithful copy of origin, radius and transform.
    fn clone(&self) -> (s: Sphere)
        ensures
            copy_of(*self, s),
            self.wf() ==> s.wf(),
    {
        Sphere {
            origin: self.origin,
            radius: self.radius,
            transform: self.transform.clone(),
        }
    }
}

impl Sphere {
    /// A sphere from origin and radius; without a transform the identity is
    /// installed.
    pub fn new(origin: Point, radius: Scalar, transform: Option<Matrix>) -> (s: Sphere)
        ensures
            s.origin == origin,
            s.radius == radius,
            transform matches Some(t) ==> s.transform == t,
            transform is None ==> s.transform.wf() && s.transform.row_count == 4
                && s.transform.col_count == 4 && (forall|i: int, j: int|
                0 <= i < 4 && 0 <= j < 4 ==> s.transform.at(i, j) == if i == j {
                    SCALE as int
                } else {
                    0
                }),
    {
        let t = match transform {
            Some(t) => t,
            None => Matrix::identity(4),
        };
        Sphere { origin, radius, transform: t }
    }

    /// Where the ray meets the sphere: the ray is carried into the sphere's
    /// local space by the inverse transform, the quadratic is solved there,
    /// and both roots come back sorted (equal when tangent, negative when
    /// behind the origin). A negative discriminant returns the empty list.
    pub fn intersections(&self, ray: &Ray) -> (res: Vec<Intersection<Sphere>>)
        requires
            intersect_fits(*self, *ray),
        ensures
            res@.len() == if spec_disc(*self, *ray) >= 0 {
                2int
            } else {
                0int
            },
            spec_disc(*self, *ray) >= 0 ==> res@[0].t.raw == spec_t1(*self, *ray),
            spec_disc(*self, *ray) >= 0 ==> res@[1].t.raw == spec_t2(*self, *ray),
            spec_disc(*self, *ray) >= 0 ==> res@[0].t.raw <= res@[1].t.raw,
            forall|k: int| 0 <= k < res@.len() ==> copy_of(*self, (#[trigger] res@[k]).object),
    {
        let ghost sv = *self;
        let ghost rv = *ray;
        let mut out: Vec<Intersection<Sphere>> = Vec::new();
        let inv = self.transform.inverse();
        proof {
            assert forall|i: int| 0 <= i < 4 implies #[trigger] inv.grid()[i] == inv_grid(sv)[i] by {
                assert(inv.grid()[i].len() == 4);
                assert forall|j: int| 0 <= j < 4 implies inv.grid()[i][j] == inv_grid(sv)[i][j] by {
                    assert(inv.grid()[i][j] == inv.at(i, j));
                }
                assert(inv.grid()[i] =~= inv_grid(sv)[i]);
            }
            assert(inv.grid() =~= inv_grid(sv));
            assert(point_col(rv.origin)[0] == rv.origin.x.raw);
            assert(point_col(rv.origin)[1] == rv.origin.y.raw);
            assert(point_col(rv.origin)[2] == rv.origin.z.raw);
            assert(point_col(rv.origin)[3] == rv.origin.w.raw);
            assert(vector_col(rv.direction)[3] == 0);
            assert forall|t: int|
                0 <= t < 4 implies abs_int(#[trigger] inv_grid(sv)[0][t]) <= CELL_LIMIT as int by {
                assert(cells_within(inv_grid(sv), CELL_LIMIT as int));
                assert(inv_grid(sv)[0].len() == 4);
            }
            assert forall|t: int|
                0 <= t < 4 implies abs_int(#[trigger] inv_grid(sv)[1][t]) <= CELL_LIMIT as int by {
                assert(cells_within(inv_grid(sv), CELL_LIMIT as int));
                assert(inv_grid(sv)[1].len() == 4);
            }
            assert forall|t: int|
                0 <= t < 4 implies abs_int(#[trigger] inv_grid(sv)[2][t]) <= CELL_LIMIT as int by {
                assert(cells_within(inv_grid(sv), CELL_LIMIT as int));
                assert(inv_grid(sv)[2].len() == 4);
            }
            lemma_dot_trunc_bound(inv_grid(sv)[0], point_col(rv.origin), 4, CELL_LIMIT as int, CELL_LIMIT as int);
            lemma_dot_trunc_bound(inv_grid(sv)[1], point_col(rv.origin), 4, CELL_LIMIT as int, CELL_LIMIT as int);
            lemma_dot_trunc_bound(inv_grid(sv)[2], point_col(rv.origin), 4, CELL_LIMIT as int, CELL_LIMIT as int);
        }
        let transformed_ray = ray.transform(&inv);
        proof {
            assert(transformed_ray.origin.x.raw == local_origin(sv, rv, 0));
            assert(transformed_ray.origin.y.raw == local_origin(sv, rv, 1));
            assert(transformed_ray.origin.z.raw == local_origin(sv, rv, 2));
            assert(transformed_ray.direction.x.raw == local_dir(sv, rv, 0));
            assert(transformed_ray.direction.y.raw == local_dir(sv, rv, 1));
            assert(transformed_ray.direction.z.raw == local_dir(sv, rv, 2));
        }
        let sphere_to_ray = transformed_ray.origin.sub(&self.origin);
        proof {
            assert(sphere_to_ray.x.raw == str_x(sv, rv));
            assert(sphere_to_ray.y.raw == str_y(sv, rv));
            assert(sphere_to_ray.z.raw == str_z(sv, rv));
            lemma_dot_partials(
                local_dir(sv, rv, 0) * local_dir(sv, rv, 0),
                local_dir(sv, rv, 1) * local_dir(sv, rv, 1),
                local_dir(sv, rv, 2) * local_dir(sv, rv, 2),
            );
        }
        let a = transformed_ray.direction.dot_product(&transformed_ray.direction);
        proof {
            assert(a.raw == spec_a(sv, rv));
            lemma_sq_tdiv_nonneg(local_dir(sv, rv, 0));
            lemma_sq_tdiv_nonneg(local_dir(sv, rv, 1));
            lemma_sq_tdiv_nonneg(local_dir(sv, rv, 2));
            assert(a.raw > 0);
            lemma_dot_partials(
                local_dir(sv, rv, 0) * str_x(sv, rv),
                local_dir(sv, rv, 1) * str_y(sv, rv),
                local_dir(sv, rv, 2) * str_z(sv, rv),
            );
        }
        let dot_ds = transformed_ray.direction.dot_product(&sphere_to_ray);
        let b = Scalar::from_int(2).mul(dot_ds);
        proof {
            assert(dot_ds.raw == spec_dot_ds(sv, rv));
            assert(b.raw == spec_b(sv, rv));
            lemma_tdiv_cap(2 * (SCALE as int) * spec_dot_ds(sv, rv), SCALE as int, i128::MAX as int);
            lemma_dot_partials(
                str_x(sv, rv) * str_x(sv, rv),
                str_y(sv, rv) * str_y(sv, rv),
                str_z(sv, rv) * str_z(sv, rv),
            );
            lemma_mul_fits(
                self.radius.raw as int,
                self.radius.raw as int,
                CELL_LIMIT as int,
                CELL_LIMIT as int,
            );
            lemma_tdiv_le_abs(self.radius.raw * self.radius.raw, SCALE as int);
        }
        let dot_ss = sphere_to_ray.dot_product(&sphere_to_ray);
        let c = dot_ss.sub(self.radius.mul(self.radius));
        proof {
            assert(c.raw == spec_c(sv, rv));
        }
        let four_a = Scalar::from_int(4).mul(a);
        proof {
            assert(four_a.raw == tdiv(4 * (SCALE as int) * spec_a(sv, rv), SCALE as int));
            lemma_tdiv_cap(spec_b(sv, rv) * spec_b(sv, rv), SCALE as int, i128::MAX as int);
            lemma_tdiv_cap(four_a.raw * c.raw, SCALE as int, i128::MAX as int);
        }
        let disc = b.mul(b).sub(four_a.mul(c));
        proof {
            assert(disc.raw == spec_disc(sv, rv));
        }
        if disc.is_nonneg() {
            let sq = disc.sqrt();
            proof {
                assert(sq.raw == sqrt_floor(spec_disc(sv, rv) * SCALE));
                lemma_tdiv_cap(
                    2 * (SCALE as int) * spec_dot_ds(sv, rv),
                    SCALE as int,
                    i128::MAX as int,
                );
                vstd::arithmetic::div_mod::lemma_div_multiples_vanish(2 * a.raw, SCALE as int);
                assert(2 * (SCALE as int) * spec_a(sv, rv) == (SCALE as int) * (2 * a.raw));
            }
            let neg_b = Scalar { raw: 0 }.sub(b);
            proof {
                assert(0 <= 2 * (SCALE as int) * spec_a(sv, rv) <= i128::MAX) by (nonlinear_arith)
                    requires
                        spec_a(sv, rv) > 0,
                        4 * (SCALE as int) * spec_a(sv, rv) <= i128::MAX,
                        SCALE == 100_000_000,
                ;
            }
            let den = Scalar::from_int(2).mul(a);
            proof {
                assert(den.raw == spec_den(sv, rv));
                assert(den.raw == 2 * a.raw);
                assert(den.raw > 0);
            }
            let t1 = neg_b.sub(sq).div(den);
            let t2 = neg_b.add(sq).div(den);
            proof {
                assert(t1.raw == spec_t1(sv, rv));
                assert(t2.raw == spec_t2(sv, rv));
                assert((-spec_b(sv, rv) - sq.raw) * SCALE <= (-spec_b(sv, rv) + sq.raw) * SCALE);
                lemma_tdiv_monotone(
                    (-spec_b(sv, rv) - sq.raw) * SCALE,
                    (-spec_b(sv, rv) + sq.raw) * SCALE,
                    den.raw as int,
                );
            }
            out.push(Intersection::new(t1, self.clone()));
            out.push(Intersection::new(t2, self.clone()));
        }
        out
    }

    /// The first intersection with a non-negative parameter in a list sorted
    /// ascending by `t`: the nearest surface ahead of the ray's origin.
    pub fn hit<'a>(&self, intersections: &'a Vec<Intersection<Sphere>>) -> (res: Option<
        &'a Intersection<Sphere>,
    >)
        ensures
            res is Some <==> exists|k: int|
                0 <= k < intersections@.len() && (#[trigger] intersections@[k]).t.raw >= 0,
            res matches Some(x) ==> exists|k: int|
                0 <= k < intersections@.len() && *x == (#[trigger] intersections@[k])
                    && intersections@[k].t.raw >= 0 && (forall|j: int|
                    0 <= j < k ==> intersections@[j].t.raw < 0),
    {
        let n = intersections.len();
        let mut i: usize = 0;
        while i < n
            invariant
                n == intersections@.len(),
                i <= n,
                forall|j: int| 0 <= j < i ==> (#[trigger] intersections@[j]).t.raw < 0,
            decreases n - i,
        {
            let intersec = &intersections[i];
            if intersec.t.is_nonneg() {
                return Some(intersec);
            }
            i = i + 1;
        }
        None
    }
}

} // verus!
