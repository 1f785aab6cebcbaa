use vstd::prelude::*;
use crate::matrix::{
    col_seq,
    dot_trunc,
    sgn,
    spec_cofactor,
    spec_det,
    spec_inverse_cell,
    square_grid,
    sub_grid,
    lemma_sign_mul_exact,
};
use crate::scalar::{SCALE, abs_int, tdiv, sqrt_floor, is_sqrt_floor, lemma_sqrt_floor_unique};
use crate::vector::{Vector, spec_dot, spec_norm_div};

verus! {

/// The grid of the affine translation by `(x, y, z)`.
pub open spec fn translation_grid(x: int, y: int, z: int) -> Seq<Seq<int>> {
    Seq::new(
        4,
        |i: int|
            Seq::new(
                4,
                |j: int|
                    if j == 3 && i == 0 {
                        x
                    } else if j == 3 && i == 1 {
                        y
                    } else if j == 3 && i == 2 {
                        z
                    } else if i == j {
                        SCALE as int
                    } else {
                        0
                    },
            ),
    )
}

/// The grid whose cells are the inverse's cells.
pub open spec fn inverse_grid(m: Seq<Seq<int>>) -> Seq<Seq<int>> {
    Seq::new(4, |i: int| Seq::new(4, |j: int| spec_inverse_cell(m, i, j)))
}

/// A matrix applied to the point `(px, py, pz)`: component `i` of the
/// product column, with the homogeneous coordinate one.
pub open spec fn apply_point(m: Seq<Seq<int>>, px: int, py: int, pz: int, i: int) -> int {
    dot_trunc(m[i], seq![px, py, pz, SCALE as int], 4)
}

/// Cofactor expansion of a 3 by 3 grid, written out.
proof fn lemma_det3_cells(g: Seq<Seq<int>>)
    requires
        square_grid(g, 3),
    ensures
        spec_det(sub_grid(g, 0, 0)) == tdiv(g[1][1] * g[2][2], SCALE as int) - tdiv(
            g[1][2] * g[2][1],
            SCALE as int,
        ),
        spec_det(sub_grid(g, 0, 1)) == tdiv(g[1][0] * g[2][2], SCALE as int) - tdiv(
            g[1][2] * g[2][0],
            SCALE as int,
        ),
        spec_det(sub_grid(g, 0, 2)) == tdiv(g[1][0] * g[2][1], SCALE as int) - tdiv(
            g[1][1] * g[2][0],
            SCALE as int,
        ),
        spec_det(g) == tdiv(g[0][0] * spec_det(sub_grid(g, 0, 0)), SCALE as int) + tdiv(
            -1 * g[0][1] * spec_det(sub_grid(g, 0, 1)),
            SCALE as int,
        ) + tdiv(g[0][2] * spec_det(sub_grid(g, 0, 2)), SCALE as int),
{
    reveal_with_fuel(crate::matrix::det_sum, 5);
    reveal_with_fuel(spec_det, 2);
    assert(sub_grid(g, 0, 0).len() == 2);
    assert(sub_grid(g, 0, 0)[0].len() == 2);
    assert(sub_grid(g, 0, 0)[1].len() == 2);
    assert(sub_grid(g, 0, 1)[0].len() == 2);
    assert(sub_grid(g, 0, 2)[0].len() == 2);
    assert(spec_det(g) == crate::matrix::det_sum(g, 3));
    assert(crate::matrix::det_sum(g, 1) == tdiv(
        sgn(0) * g[0][0] * spec_det(sub_grid(g, 0, 0)),
        SCALE as int,
    ));
    assert(crate::matrix::det_sum(g, 2) == crate::matrix::det_sum(g, 1) + tdiv(
        sgn(1) * g[0][1] * spec_det(sub_grid(g, 0, 1)),
        SCALE as int,
    ));
    assert(crate::matrix::det_sum(g, 3) == crate::matrix::det_sum(g, 2) + tdiv(
        sgn(2) * g[0][2] * spec_det(sub_grid(g, 0, 2)),
        SCALE as int,
    ));
}

/// Cofactor expansion of a 4 by 4 grid along the first row, written out.
proof fn lemma_det4_cells(g: Seq<Seq<int>>)
    requires
        square_grid(g, 4),
    ensures
        spec_det(g) == tdiv(g[0][0] * spec_det(sub_grid(g, 0, 0)), SCALE as int) + tdiv(
            -1 * g[0][1] * spec_det(sub_grid(g, 0, 1)),
            SCALE as int,
        ) + tdiv(g[0][2] * spec_det(sub_grid(g, 0, 2)), SCALE as int) + tdiv(
            -1 * g[0][3] * spec_det(sub_grid(g, 0, 3)),
            SCALE as int,
        ),
{
    reveal_with_fuel(crate::matrix::det_sum, 6);
    reveal_with_fuel(spec_det, 2);
    assert(spec_det(g) == crate::matrix::det_sum(g, 4));
    assert(crate::matrix::det_sum(g, 1) == tdiv(
        sgn(0) * g[0][0] * spec_det(sub_grid(g, 0, 0)),
        SCALE as int,
    ));
    assert(crate::matrix::det_sum(g, 2) == crate::matrix::det_sum(g, 1) + tdiv(
        sgn(1) * g[0][1] * spec_det(sub_grid(g, 0, 1)),
        SCALE as int,
    ));
    assert(crate::matrix::det_sum(g, 3) == crate::matrix::det_sum(g, 2) + tdiv(
        sgn(2) * g[0][2] * spec_det(sub_grid(g, 0, 2)),
        SCALE as int,
    ));
    assert(crate::matrix::det_sum(g, 4) == crate::matrix::det_sum(g, 3) + tdiv(
        sgn(3) * g[0][3] * spec_det(sub_grid(g, 0, 3)),
        SCALE as int,
    ));
}

/// The grid-step products a translation grid can produce, all exact.
proof fn lemma_translation_products(x: int, y: int, z: int)
    ensures
        tdiv((SCALE as int) * (SCALE as int), SCALE as int) == SCALE as int,
        tdiv((SCALE as int) * x, SCALE as int) == x,
        tdiv((SCALE as int) * y, SCALE as int) == y,
        tdiv((SCALE as int) * z, SCALE as int) == z,
        tdiv((SCALE as int) * -x, SCALE as int) == -x,
        tdiv((SCALE as int) * -y, SCALE as int) == -y,
        tdiv((SCALE as int) * -z, SCALE as int) == -z,
        tdiv(0, SCALE as int) == 0,
{
    lemma_sign_mul_exact(SCALE as int, SCALE as int);
    lemma_sign_mul_exact(SCALE as int, x);
    lemma_sign_mul_exact(SCALE as int, y);
    lemma_sign_mul_exact(SCALE as int, z);
    lemma_sign_mul_exact(SCALE as int, -x);
    lemma_sign_mul_exact(SCALE as int, -y);
    lemma_sign_mul_exact(SCALE as int, -z);
    lemma_sign_mul_exact(SCALE as int, 0);
}

/// The determinant of a translation grid is exactly one (in grid steps).
pub proof fn lemma_translation_det(x: int, y: int, z: int)
    ensures
        spec_det(translation_grid(x, y, z)) == SCALE as int,
{
    let m = translation_grid(x, y, z);
    lemma_translation_products(x, y, z);
    lemma_det4_cells(m);
    lemma_translation_cof_0_0(x, y, z);
    lemma_translation_cof_0_3(x, y, z);
    assert(m[0][0] == SCALE as int && m[0][1] == 0 && m[0][2] == 0 && m[0][3] == x);
    assert(tdiv(m[0][0] * spec_det(sub_grid(m, 0, 0)), SCALE as int) == SCALE as int);
    assert(-1 * m[0][1] * spec_det(sub_grid(m, 0, 1)) == 0) by (nonlinear_arith)
        requires
            m[0][1] == 0,
    ;
    assert(m[0][2] * spec_det(sub_grid(m, 0, 2)) == 0) by (nonlinear_arith)
        requires
            m[0][2] == 0,
    ;
    assert(-1 * m[0][3] * spec_det(sub_grid(m, 0, 3)) == 0) by (nonlinear_arith)
        requires
            spec_det(sub_grid(m, 0, 3)) == 0,
    ;
    assert(tdiv(0, SCALE as int) == 0);
    assert(spec_det(m) == SCALE as int);
}

#[verifier::rlimit(100)]
proof fn lemma_translation_cof_0_0(x: int, y: int, z: int)
    ensures
        spec_cofactor(translation_grid(x, y, z), 0, 0) == (SCALE as int),
        spec_det(sub_grid(translation_grid(x, y, z), 0, 0)) == (SCALE as int),
{
    let m = translation_grid(x, y, z);
    lemma_sign_mul_exact(SCALE as int, x);
    lemma_sign_mul_exact(SCALE as int, -x);
    lemma_sign_mul_exact(SCALE as int, y);
    lemma_sign_mul_exact(SCALE as int, -y);
    lemma_sign_mul_exact(SCALE as int, z);
    lemma_sign_mul_exact(SCALE as int, -z);
    lemma_sign_mul_exact(SCALE as int, SCALE as int);
    lemma_sign_mul_exact(SCALE as int, -(SCALE as int));
    lemma_sign_mul_exact(SCALE as int, 0);
    assert(sub_grid(m, 0, 0)[0][0] == (SCALE as int));
    assert(sub_grid(m, 0, 0)[0][1] == 0);
    assert(sub_grid(m, 0, 0)[0][2] == y);
    assert(sub_grid(m, 0, 0)[1][0] == 0);
    assert(sub_grid(m, 0, 0)[1][1] == (SCALE as int));
    assert(sub_grid(m, 0, 0)[1][2] == z);
    assert(sub_grid(m, 0, 0)[2][0] == 0);
    assert(sub_grid(m, 0, 0)[2][1] == 0);
    assert(sub_grid(m, 0, 0)[2][2] == (SCALE as int));
    lemma_det3_cells(sub_grid(m, 0, 0));
    assert(spec_det(sub_grid(sub_grid(m, 0, 0), 0, 0)) == (SCALE as int));
    assert(spec_det(sub_grid(sub_grid(m, 0, 0), 0, 1)) == 0);
    assert(spec_det(sub_grid(sub_grid(m, 0, 0), 0, 2)) == 0);
    assert(spec_det(sub_grid(m, 0, 0)) == (SCALE as int));
    assert(sgn(0int) == 1);
}

#[verifier::rlimit(100)]
proof fn lemma_translation_cof_0_1(x: int, y: int, z: int)
    ensures
        spec_cofactor(translation_grid(x, y, z), 0, 1) == 0,
        spec_det(sub_grid(translation_grid(x, y, z), 0, 1)) == 0,
{
    let m = translation_grid(x, y, z);
    lemma_sign_mul_exact(SCALE as int, x);
    lemma_sign_mul_exact(SCALE as int, -x);
    lemma_sign_mul_exact(SCALE as int, y);
    lemma_sign_mul_exact(SCALE as int, -y);
    lemma_sign_mul_exact(SCALE as int, z);
    lemma_sign_mul_exact(SCALE as int, -z);
    lemma_sign_mul_exact(SCALE as int, SCALE as int);
    lemma_sign_mul_exact(SCALE as int, -(SCALE as int));
    lemma_sign_mul_exact(SCALE as int, 0);
    assert(sub_grid(m, 0, 1)[0][0] == 0);
    assert(sub_grid(m, 0, 1)[0][1] == 0);
    assert(sub_grid(m, 0, 1)[0][2] == y);
    assert(sub_grid(m, 0, 1)[1][0] == 0);
    assert(sub_grid(m, 0, 1)[1][1] == (SCALE as int));
    assert(sub_grid(m, 0, 1)[1][2] == z);
    assert(sub_grid(m, 0, 1)[2][0] == 0);
    assert(sub_grid(m, 0, 1)[2][1] == 0);
    assert(sub_grid(m, 0, 1)[2][2] == (SCALE as int));
    lemma_det3_cells(sub_grid(m, 0, 1));
    assert(spec_det(sub_grid(sub_grid(m, 0, 1), 0, 0)) == (SCALE as int));
    assert(spec_det(sub_grid(sub_grid(m, 0, 1), 0, 1)) == 0);
    assert(spec_det(sub_grid(sub_grid(m, 0, 1), 0, 2)) == 0);
    assert(spec_det(sub_grid(m, 0, 1)) == 0);
    assert(sgn(1int) == -1);
}

#[verifier::rlimit(100)]
proof fn lemma_translation_cof_0_2(x: int, y: int, z: int)
    ensures
        spec_cofactor(translation_grid(x, y, z), 0, 2) == 0,
        spec_det(sub_grid(translation_grid(x, y, z), 0, 2)) == 0,
{
    let m = translation_grid(x, y, z);
    lemma_sign_mul_exact(SCALE as int, x);
    lemma_sign_mul_exact(SCALE as int, -x);
    lemma_sign_mul_exact(SCALE as int, y);
    lemma_sign_mul_exact(SCALE as int, -y);
    lemma_sign_mul_exact(SCALE as int, z);
    lemma_sign_mul_exact(SCALE as int, -z);
    lemma_sign_mul_exact(SCALE as int, SCALE as int);
    lemma_sign_mul_exact(SCALE as int, -(SCALE as int));
    lemma_sign_mul_exact(SCALE as int, 0);
    assert(sub_grid(m, 0, 2)[0][0] == 0);
    assert(sub_grid(m, 0, 2)[0][1] == (SCALE as int));
    assert(sub_grid(m, 0, 2)[0][2] == y);
    assert(sub_grid(m, 0, 2)[1][0] == 0);
    assert(sub_grid(m, 0, 2)[1][1] == 0);
    assert(sub_grid(m, 0, 2)[1][2] == z);
    assert(sub_grid(m, 0, 2)[2][0] == 0);
    assert(sub_grid(m, 0, 2)[2][1] == 0);
    assert(sub_grid(m, 0, 2)[2][2] == (SCALE as int));
    lemma_det3_cells(sub_grid(m, 0, 2));
    assert(spec_det(sub_grid(sub_grid(m, 0, 2), 0, 0)) == 0);
    assert(spec_det(sub_grid(sub_grid(m, 0, 2), 0, 1)) == 0);
    assert(spec_det(sub_grid(sub_grid(m, 0, 2), 0, 2)) == 0);
    assert(spec_det(sub_grid(m, 0, 2)) == 0);
    assert(sgn(2int) == 1);
}

#[verifier::rlimit(100)]
proof fn lemma_translation_cof_0_3(x: int, y: int, z: int)
    ensures
        spec_cofactor(translation_grid(x, y, z), 0, 3) == 0,
        spec_det(sub_grid(translation_grid(x, y, z), 0, 3)) == 0,
{
    let m = translation_grid(x, y, z);
    lemma_sign_mul_exact(SCALE as int, x);
    lemma_sign_mul_exact(SCALE as int, -x);
    lemma_sign_mul_exact(SCALE as int, y);
    lemma_sign_mul_exact(SCALE as int, -y);
    lemma_sign_mul_exact(SCALE as int, z);
    lemma_sign_mul_exact(SCALE as int, -z);
    lemma_sign_mul_exact(SCALE as int, SCALE as int);
    lemma_sign_mul_exact(SCALE as int, -(SCALE as int));
    lemma_sign_mul_exact(SCALE as int, 0);
    assert(sub_grid(m, 0, 3)[0][0] == 0);
    assert(sub_grid(m, 0, 3)[0][1] == (SCALE as int));
    assert(sub_grid(m, 0, 3)[0][2] == 0);
    assert(sub_grid(m, 0, 3)[1][0] == 0);
    assert(sub_grid(m, 0, 3)[1][1] == 0);
    assert(sub_grid(m, 0, 3)[1][2] == (SCALE as int));
    assert(sub_grid(m, 0, 3)[2][0] == 0);
    assert(sub_grid(m, 0, 3)[2][1] == 0);
    assert(sub_grid(m, 0, 3)[2][2] == 0);
    lemma_det3_cells(sub_grid(m, 0, 3));
    assert(spec_det(sub_grid(sub_grid(m, 0, 3), 0, 0)) == 0);
    assert(spec_det(sub_grid(sub_grid(m, 0, 3), 0, 1)) == 0);
    assert(spec_det(sub_grid(sub_grid(m, 0, 3), 0, 2)) == 0);
    assert(spec_det(sub_grid(m, 0, 3)) == 0);
    assert(sgn(3int) == -1);
}

#[verifier::rlimit(100)]
proof fn lemma_translation_cof_1_0(x: int, y: int, z: int)
    ensures
        spec_cofactor(translation_grid(x, y, z), 1, 0) == 0,
        spec_det(sub_grid(translation_grid(x, y, z), 1, 0)) == 0,
{
    let m = translation_grid(x, y, z);
    lemma_sign_mul_exact(SCALE as int, x);
    lemma_sign_mul_exact(SCALE as int, -x);
    lemma_sign_mul_exact(SCALE as int, y);
    lemma_sign_mul_exact(SCALE as int, -y);
    lemma_sign_mul_exact(SCALE as int, z);
    lemma_sign_mul_exact(SCALE as int, -z);
    lemma_sign_mul_exact(SCALE as int, SCALE as int);
    lemma_sign_mul_exact(SCALE as int, -(SCALE as int));
    lemma_sign_mul_exact(SCALE as int, 0);
    assert(sub_grid(m, 1, 0)[0][0] == 0);
    assert(sub_grid(m, 1, 0)[0][1] == 0);
    assert(sub_grid(m, 1, 0)[0][2] == x);
    assert(sub_grid(m, 1, 0)[1][0] == 0);
    assert(sub_grid(m, 1, 0)[1][1] == (SCALE as int));
    assert(sub_grid(m, 1, 0)[1][2] == z);
    assert(sub_grid(m, 1, 0)[2][0] == 0);
    assert(sub_grid(m, 1, 0)[2][1] == 0);
    assert(sub_grid(m, 1, 0)[2][2] == (SCALE as int));
    lemma_det3_cells(sub_grid(m, 1, 0));
    assert(spec_det(sub_grid(sub_grid(m, 1, 0), 0, 0)) == (SCALE as int));
    assert(spec_det(sub_grid(sub_grid(m, 1, 0), 0, 1)) == 0);
    assert(spec_det(sub_grid(sub_grid(m, 1, 0), 0, 2)) == 0);
    assert(spec_det(sub_grid(m, 1, 0)) == 0);
    assert(sgn(1int) == -1);
}

#[verifier::rlimit(100)]
proof fn lemma_translation_cof_1_1(x: int, y: int, z: int)
    ensures
        spec_cofactor(translation_grid(x, y, z), 1, 1) == (SCALE as int),
        spec_det(sub_grid(translation_grid(x, y, z), 1, 1)) == (SCALE as int),
{
    let m = translation_grid(x, y, z);
    lemma_sign_mul_exact(SCALE as int, x);
    lemma_sign_mul_exact(SCALE as int, -x);
    lemma_sign_mul_exact(SCALE as int, y);
    lemma_sign_mul_exact(SCALE as int, -y);
    lemma_sign_mul_exact(SCALE as int, z);
    lemma_sign_mul_exact(SCALE as int, -z);
    lemma_sign_mul_exact(SCALE as int, SCALE as int);
    lemma_sign_mul_exact(SCALE as int, -(SCALE as int));
    lemma_sign_mul_exact(SCALE as int, 0);
    assert(sub_grid(m, 1, 1)[0][0] == (SCALE as int));
    assert(sub_grid(m, 1, 1)[0][1] == 0);
    assert(sub_grid(m, 1, 1)[0][2] == x);
    assert(sub_grid(m, 1, 1)[1][0] == 0);
    assert(sub_grid(m, 1, 1)[1][1] == (SCALE as int));
    assert(sub_grid(m, 1, 1)[1][2] == z);
    assert(sub_grid(m, 1, 1)[2][0] == 0);
    assert(sub_grid(m, 1, 1)[2][1] == 0);
    assert(sub_grid(m, 1, 1)[2][2] == (SCALE as int));
    lemma_det3_cells(sub_grid(m, 1, 1));
    assert(spec_det(sub_grid(sub_grid(m, 1, 1), 0, 0)) == (SCALE as int));
    assert(spec_det(sub_grid(sub_grid(m, 1, 1), 0, 1)) == 0);
    assert(spec_det(sub_grid(sub_grid(m, 1, 1), 0, 2)) == 0);
    assert(spec_det(sub_grid(m, 1, 1)) == (SCALE as int));
    assert(sgn(2int) == 1);
}

#[verifier::rlimit(100)]
proof fn lemma_translation_cof_1_2(x: int, y: int, z: int)
    ensures
        spec_cofactor(translation_grid(x, y, z), 1, 2) == 0,
        spec_det(sub_grid(translation_grid(x, y, z), 1, 2)) == 0,
{
    let m = translation_grid(x, y, z);
    lemma_sign_mul_exact(SCALE as int, x);
    lemma_sign_mul_exact(SCALE as int, -x);
    lemma_sign_mul_exact(SCALE as int, y);
    lemma_sign_mul_exact(SCALE as int, -y);
    lemma_sign_mul_exact(SCALE as int, z);
    lemma_sign_mul_exact(SCALE as int, -z);
    lemma_sign_mul_exact(SCALE as int, SCALE as int);
    lemma_sign_mul_exact(SCALE as int, -(SCALE as int));
    lemma_sign_mul_exact(SCALE as int, 0);
    assert(sub_grid(m, 1, 2)[0][0] == (SCALE as int));
    assert(sub_grid(m, 1, 2)[0][1] == 0);
    assert(sub_grid(m, 1, 2)[0][2] == x);
    assert(sub_grid(m, 1, 2)[1][0] == 0);
    assert(sub_grid(m, 1, 2)[1][1] == 0);
    assert(sub_grid(m, 1, 2)[1][2] == z);
    assert(sub_grid(m, 1, 2)[2][0] == 0);
    assert(sub_grid(m, 1, 2)[2][1] == 0);
    assert(sub_grid(m, 1, 2)[2][2] == (SCALE as int));
    lemma_det3_cells(sub_grid(m, 1, 2));
    assert(spec_det(sub_grid(sub_grid(m, 1, 2), 0, 0)) == 0);
    assert(spec_det(sub_grid(sub_grid(m, 1, 2), 0, 1)) == 0);
    assert(spec_det(sub_grid(sub_grid(m, 1, 2), 0, 2)) == 0);
    assert(spec_det(sub_grid(m, 1, 2)) == 0);
    assert(sgn(3int) == -1);
}

#[verifier::rlimit(100)]
proof fn lemma_translation_cof_1_3(x: int, y: int, z: int)
    ensures
        spec_cofactor(translation_grid(x, y, z), 1, 3) == 0,
        spec_det(sub_grid(translation_grid(x, y, z), 1, 3)) == 0,
{
    let m = translation_grid(x, y, z);
    lemma_sign_mul_exact(SCALE as int, x);
    lemma_sign_mul_exact(SCALE as int, -x);
    lemma_sign_mul_exact(SCALE as int, y);
    lemma_sign_mul_exact(SCALE as int, -y);
    lemma_sign_mul_exact(SCALE as int, z);
    lemma_sign_mul_exact(SCALE as int, -z);
    lemma_sign_mul_exact(SCALE as int, SCALE as int);
    lemma_sign_mul_exact(SCALE as int, -(SCALE as int));
    lemma_sign_mul_exact(SCALE as int, 0);
    assert(sub_grid(m, 1, 3)[0][0] == (SCALE as int));
    assert(sub_grid(m, 1, 3)[0][1] == 0);
    assert(sub_grid(m, 1, 3)[0][2] == 0);
    assert(sub_grid(m, 1, 3)[1][0] == 0);
    assert(sub_grid(m, 1, 3)[1][1] == 0);
    assert(sub_grid(m, 1, 3)[1][2] == (SCALE as int));
    assert(sub_grid(m, 1, 3)[2][0] == 0);
    assert(sub_grid(m, 1, 3)[2][1] == 0);
    assert(sub_grid(m, 1, 3)[2][2] == 0);
    lemma_det3_cells(sub_grid(m, 1, 3));
    assert(spec_det(sub_grid(sub_grid(m, 1, 3), 0, 0)) == 0);
    assert(spec_det(sub_grid(sub_grid(m, 1, 3), 0, 1)) == 0);
    assert(spec_det(sub_grid(sub_grid(m, 1, 3), 0, 2)) == 0);
    assert(spec_det(sub_grid(m, 1, 3)) == 0);
    assert(sgn(4int) == 1);
}

#[verifier::rlimit(100)]
proof fn lemma_translation_cof_2_0(x: int, y: int, z: int)
    ensures
        spec_cofactor(translation_grid(x, y, z), 2, 0) == 0,
        spec_det(sub_grid(translation_grid(x, y, z), 2, 0)) == 0,
{
    let m = translation_grid(x, y, z);
    lemma_sign_mul_exact(SCALE as int, x);
    lemma_sign_mul_exact(SCALE as int, -x);
    lemma_sign_mul_exact(SCALE as int, y);
    lemma_sign_mul_exact(SCALE as int, -y);
    lemma_sign_mul_exact(SCALE as int, z);
    lemma_sign_mul_exact(SCALE as int, -z);
    lemma_sign_mul_exact(SCALE as int, SCALE as int);
    lemma_sign_mul_exact(SCALE as int, -(SCALE as int));
    lemma_sign_mul_exact(SCALE as int, 0);
    assert(sub_grid(m, 2, 0)[0][0] == 0);
    assert(sub_grid(m, 2, 0)[0][1] == 0);
    assert(sub_grid(m, 2, 0)[0][2] == x);
    assert(sub_grid(m, 2, 0)[1][0] == (SCALE as int));
    assert(sub_grid(m, 2, 0)[1][1] == 0);
    assert(sub_grid(m, 2, 0)[1][2] == y);
    assert(sub_grid(m, 2, 0)[2][0] == 0);
    assert(sub_grid(m, 2, 0)[2][1] == 0);
    assert(sub_grid(m, 2, 0)[2][2] == (SCALE as int));
    lemma_det3_cells(sub_grid(m, 2, 0));
    assert(spec_det(sub_grid(sub_grid(m, 2, 0), 0, 0)) == 0);
    assert(spec_det(sub_grid(sub_grid(m, 2, 0), 0, 1)) == (SCALE as int));
    assert(spec_det(sub_grid(sub_grid(m, 2, 0), 0, 2)) == 0);
    assert(spec_det(sub_grid(m, 2, 0)) == 0);
    assert(sgn(2int) == 1);
}

#[verifier::rlimit(100)]
proof fn lemma_translation_cof_2_1(x: int, y: int, z: int)
    ensures
        spec_cofactor(translation_grid(x, y, z), 2, 1) == 0,
        spec_det(sub_grid(translation_grid(x, y, z), 2, 1)) == 0,
{
    let m = translation_grid(x, y, z);
    lemma_sign_mul_exact(SCALE as int, x);
    lemma_sign_mul_exact(SCALE as int, -x);
    lemma_sign_mul_exact(SCALE as int, y);
    lemma_sign_mul_exact(SCALE as int, -y);
    lemma_sign_mul_exact(SCALE as int, z);
    lemma_sign_mul_exact(SCALE as int, -z);
    lemma_sign_mul_exact(SCALE as int, SCALE as int);
    lemma_sign_mul_exact(SCALE as int, -(SCALE as int));
    lemma_sign_mul_exact(SCALE as int, 0);
    assert(sub_grid(m, 2, 1)[0][0] == (SCALE as int));
    assert(sub_grid(m, 2, 1)[0][1] == 0);
    assert(sub_grid(m, 2, 1)[0][2] == x);
    assert(sub_grid(m, 2, 1)[1][0] == 0);
    assert(sub_grid(m, 2, 1)[1][1] == 0);
    assert(sub_grid(m, 2, 1)[1][2] == y);
    assert(sub_grid(m, 2, 1)[2][0] == 0);
    assert(sub_grid(m, 2, 1)[2][1] == 0);
    assert(sub_grid(m, 2, 1)[2][2] == (SCALE as int));
    lemma_det3_cells(sub_grid(m, 2, 1));
    assert(spec_det(sub_grid(sub_grid(m, 2, 1), 0, 0)) == 0);
    assert(spec_det(sub_grid(sub_grid(m, 2, 1), 0, 1)) == 0);
    assert(spec_det(sub_grid(sub_grid(m, 2, 1), 0, 2)) == 0);
    assert(spec_det(sub_grid(m, 2, 1)) == 0);
    assert(sgn(3int) == -1);
}

#[verifier::rlimit(100)]
proof fn lemma_translation_cof_2_2(x: int, y: int, z: int)
    ensures
        spec_cofactor(translation_grid(x, y, z), 2, 2) == (SCALE as int),
        spec_det(sub_grid(translation_grid(x, y, z), 2, 2)) == (SCALE as int),
{
    let m = translation_grid(x, y, z);
    lemma_sign_mul_exact(SCALE as int, x);
    lemma_sign_mul_exact(SCALE as int, -x);
    lemma_sign_mul_exact(SCALE as int, y);
    lemma_sign_mul_exact(SCALE as int, -y);
    lemma_sign_mul_exact(SCALE as int, z);
    lemma_sign_mul_exact(SCALE as int, -z);
    lemma_sign_mul_exact(SCALE as int, SCALE as int);
    lemma_sign_mul_exact(SCALE as int, -(SCALE as int));
    lemma_sign_mul_exact(SCALE as int, 0);
    assert(sub_grid(m, 2, 2)[0][0] == (SCALE as int));
    assert(sub_grid(m, 2, 2)[0][1] == 0);
    assert(sub_grid(m, 2, 2)[0][2] == x);
    assert(sub_grid(m, 2, 2)[1][0] == 0);
    assert(sub_grid(m, 2, 2)[1][1] == (SCALE as int));
    assert(sub_grid(m, 2, 2)[1][2] == y);
    assert(sub_grid(m, 2, 2)[2][0] == 0);
    assert(sub_grid(m, 2, 2)[2][1] == 0);
    assert(sub_grid(m, 2, 2)[2][2] == (SCALE as int));
    lemma_det3_cells(sub_grid(m, 2, 2));
    assert(spec_det(sub_grid(sub_grid(m, 2, 2), 0, 0)) == (SCALE as int));
    assert(spec_det(sub_grid(sub_grid(m, 2, 2), 0, 1)) == 0);
    assert(spec_det(sub_grid(sub_grid(m, 2, 2), 0, 2)) == 0);
    assert(spec_det(sub_grid(m, 2, 2)) == (SCALE as int));
    assert(sgn(4int) == 1);
}

#[verifier::rlimit(100)]
proof fn lemma_translation_cof_2_3(x: int, y: int, z: int)
    ensures
        spec_cofactor(translation_grid(x, y, z), 2, 3) == 0,
        spec_det(sub_grid(translation_grid(x, y, z), 2, 3)) == 0,
{
    let m = translation_grid(x, y, z);
    lemma_sign_mul_exact(SCALE as int, x);
    lemma_sign_mul_exact(SCALE as int, -x);
    lemma_sign_mul_exact(SCALE as int, y);
    lemma_sign_mul_exact(SCALE as int, -y);
    lemma_sign_mul_exact(SCALE as int, z);
    lemma_sign_mul_exact(SCALE as int, -z);
    lemma_sign_mul_exact(SCALE as int, SCALE as int);
    lemma_sign_mul_exact(SCALE as int, -(SCALE as int));
    lemma_sign_mul_exact(SCALE as int, 0);
    assert(sub_grid(m, 2, 3)[0][0] == (SCALE as int));
    assert(sub_grid(m, 2, 3)[0][1] == 0);
    assert(sub_grid(m, 2, 3)[0][2] == 0);
    assert(sub_grid(m, 2, 3)[1][0] == 0);
    assert(sub_grid(m, 2, 3)[1][1] == (SCALE as int));
    assert(sub_grid(m, 2, 3)[1][2] == 0);
    assert(sub_grid(m, 2, 3)[2][0] == 0);
    assert(sub_grid(m, 2, 3)[2][1] == 0);
    assert(sub_grid(m, 2, 3)[2][2] == 0);
    lemma_det3_cells(sub_grid(m, 2, 3));
    assert(spec_det(sub_grid(sub_grid(m, 2, 3), 0, 0)) == 0);
    assert(spec_det(sub_grid(sub_grid(m, 2, 3), 0, 1)) == 0);
    assert(spec_det(sub_grid(sub_grid(m, 2, 3), 0, 2)) == 0);
    assert(spec_det(sub_grid(m, 2, 3)) == 0);
    assert(sgn(5int) == -1);
}

#[verifier::rlimit(100)]
proof fn lemma_translation_cof_3_0(x: int, y: int, z: int)
    ensures
        spec_cofactor(translation_grid(x, y, z), 3, 0) == -x,
        spec_det(sub_grid(translation_grid(x, y, z), 3, 0)) == x,
{
    let m = translation_grid(x, y, z);
    lemma_sign_mul_exact(SCALE as int, x);
    lemma_sign_mul_exact(SCALE as int, -x);
    lemma_sign_mul_exact(SCALE as int, y);
    lemma_sign_mul_exact(SCALE as int, -y);
    lemma_sign_mul_exact(SCALE as int, z);
    lemma_sign_mul_exact(SCALE as int, -z);
    lemma_sign_mul_exact(SCALE as int, SCALE as int);
    lemma_sign_mul_exact(SCALE as int, -(SCALE as int));
    lemma_sign_mul_exact(SCALE as int, 0);
    assert(sub_grid(m, 3, 0)[0][0] == 0);
    assert(sub_grid(m, 3, 0)[0][1] == 0);
    assert(sub_grid(m, 3, 0)[0][2] == x);
    assert(sub_grid(m, 3, 0)[1][0] == (SCALE as int));
    assert(sub_grid(m, 3, 0)[1][1] == 0);
    assert(sub_grid(m, 3, 0)[1][2] == y);
    assert(sub_grid(m, 3, 0)[2][0] == 0);
    assert(sub_grid(m, 3, 0)[2][1] == (SCALE as int));
    assert(sub_grid(m, 3, 0)[2][2] == z);
    lemma_det3_cells(sub_grid(m, 3, 0));
    assert(spec_det(sub_grid(sub_grid(m, 3, 0), 0, 0)) == -y);
    assert(spec_det(sub_grid(sub_grid(m, 3, 0), 0, 1)) == z);
    assert(spec_det(sub_grid(sub_grid(m, 3, 0), 0, 2)) == (SCALE as int));
    assert(x * (SCALE as int) == (SCALE as int) * x);
    assert(tdiv(sub_grid(m, 3, 0)[0][0] * spec_det(sub_grid(sub_grid(m, 3, 0), 0, 0)),
        SCALE as int) == 0);
    assert(tdiv(-1 * sub_grid(m, 3, 0)[0][1] * spec_det(sub_grid(sub_grid(m, 3, 0), 0, 1)),
        SCALE as int) == 0);
    assert(tdiv(sub_grid(m, 3, 0)[0][2] * spec_det(sub_grid(sub_grid(m, 3, 0), 0, 2)),
        SCALE as int) == x);
    assert(spec_det(sub_grid(m, 3, 0)) == x);
    assert(sgn(3int) == -1);
    assert(spec_cofactor(m, 3, 0) == sgn(3int) * spec_det(sub_grid(m, 3, 0)));
    assert(spec_cofactor(m, 3, 0) == -x);
}

#[verifier::rlimit(100)]
proof fn lemma_translation_cof_3_1(x: int, y: int, z: int)
    ensures
        spec_cofactor(translation_grid(x, y, z), 3, 1) == -y,
        spec_det(sub_grid(translation_grid(x, y, z), 3, 1)) == -y,
{
    let m = translation_grid(x, y, z);
    lemma_sign_mul_exact(SCALE as int, x);
    lemma_sign_mul_exact(SCALE as int, -x);
    lemma_sign_mul_exact(SCALE as int, y);
    lemma_sign_mul_exact(SCALE as int, -y);
    lemma_sign_mul_exact(SCALE as int, z);
    lemma_sign_mul_exact(SCALE as int, -z);
    lemma_sign_mul_exact(SCALE as int, SCALE as int);
    lemma_sign_mul_exact(SCALE as int, -(SCALE as int));
    lemma_sign_mul_exact(SCALE as int, 0);
    assert(sub_grid(m, 3, 1)[0][0] == (SCALE as int));
    assert(sub_grid(m, 3, 1)[0][1] == 0);
    assert(sub_grid(m, 3, 1)[0][2] == x);
    assert(sub_grid(m, 3, 1)[1][0] == 0);
    assert(sub_grid(m, 3, 1)[1][1] == 0);
    assert(sub_grid(m, 3, 1)[1][2] == y);
    assert(sub_grid(m, 3, 1)[2][0] == 0);
    assert(sub_grid(m, 3, 1)[2][1] == (SCALE as int));
    assert(sub_grid(m, 3, 1)[2][2] == z);
    lemma_det3_cells(sub_grid(m, 3, 1));
    assert(spec_det(sub_grid(sub_grid(m, 3, 1), 0, 0)) == -y);
    assert(spec_det(sub_grid(sub_grid(m, 3, 1), 0, 1)) == 0);
    assert(spec_det(sub_grid(sub_grid(m, 3, 1), 0, 2)) == 0);
    assert(tdiv(sub_grid(m, 3, 1)[0][0] * spec_det(sub_grid(sub_grid(m, 3, 1), 0, 0)),
        SCALE as int) == -y);
    assert(tdiv(-1 * sub_grid(m, 3, 1)[0][1] * spec_det(sub_grid(sub_grid(m, 3, 1), 0, 1)),
        SCALE as int) == 0);
    assert(sub_grid(m, 3, 1)[0][2] * spec_det(sub_grid(sub_grid(m, 3, 1), 0, 2)) == 0)
        by (nonlinear_arith)
        requires
            spec_det(sub_grid(sub_grid(m, 3, 1), 0, 2)) == 0,
    ;
    assert(tdiv(0, SCALE as int) == 0);
    assert(tdiv(sub_grid(m, 3, 1)[0][2] * spec_det(sub_grid(sub_grid(m, 3, 1), 0, 2)),
        SCALE as int) == 0);
    assert(spec_det(sub_grid(m, 3, 1)) == -y);
    assert(sgn(4int) == 1);
    assert(spec_cofactor(m, 3, 1) == sgn(4int) * spec_det(sub_grid(m, 3, 1)));
    assert(spec_cofactor(m, 3, 1) == -y);
}

#[verifier::rlimit(100)]
proof fn lemma_translation_cof_3_2(x: int, y: int, z: int)
    ensures
        spec_cofactor(translation_grid(x, y, z), 3, 2) == -z,
        spec_det(sub_grid(translation_grid(x, y, z), 3, 2)) == z,
{
    let m = translation_grid(x, y, z);
    lemma_sign_mul_exact(SCALE as int, x);
    lemma_sign_mul_exact(SCALE as int, -x);
    lemma_sign_mul_exact(SCALE as int, y);
    lemma_sign_mul_exact(SCALE as int, -y);
    lemma_sign_mul_exact(SCALE as int, z);
    lemma_sign_mul_exact(SCALE as int, -z);
    lemma_sign_mul_exact(SCALE as int, SCALE as int);
    lemma_sign_mul_exact(SCALE as int, -(SCALE as int));
    lemma_sign_mul_exact(SCALE as int, 0);
    assert(sub_grid(m, 3, 2)[0][0] == (SCALE as int));
    assert(sub_grid(m, 3, 2)[0][1] == 0);
    assert(sub_grid(m, 3, 2)[0][2] == x);
    assert(sub_grid(m, 3, 2)[1][0] == 0);
    assert(sub_grid(m, 3, 2)[1][1] == (SCALE as int));
    assert(sub_grid(m, 3, 2)[1][2] == y);
    assert(sub_grid(m, 3, 2)[2][0] == 0);
    assert(sub_grid(m, 3, 2)[2][1] == 0);
    assert(sub_grid(m, 3, 2)[2][2] == z);
    lemma_det3_cells(sub_grid(m, 3, 2));
    assert(spec_det(sub_grid(sub_grid(m, 3, 2), 0, 0)) == z);
    assert(spec_det(sub_grid(sub_grid(m, 3, 2), 0, 1)) == 0);
    assert(spec_det(sub_grid(sub_grid(m, 3, 2), 0, 2)) == 0);
    assert(tdiv(sub_grid(m, 3, 2)[0][0] * spec_det(sub_grid(sub_grid(m, 3, 2), 0, 0)),
        SCALE as int) == z);
    assert(tdiv(-1 * sub_grid(m, 3, 2)[0][1] * spec_det(sub_grid(sub_grid(m, 3, 2), 0, 1)),
        SCALE as int) == 0);
    assert(sub_grid(m, 3, 2)[0][2] * spec_det(sub_grid(sub_grid(m, 3, 2), 0, 2)) == 0)
        by (nonlinear_arith)
        requires
            spec_det(sub_grid(sub_grid(m, 3, 2), 0, 2)) == 0,
    ;
    assert(tdiv(0, SCALE as int) == 0);
    assert(tdiv(sub_grid(m, 3, 2)[0][2] * spec_det(sub_grid(sub_grid(m, 3, 2), 0, 2)),
        SCALE as int) == 0);
    assert(spec_det(sub_grid(m, 3, 2)) == z);
    assert(sgn(5int) == -1);
    assert(spec_cofactor(m, 3, 2) == sgn(5int) * spec_det(sub_grid(m, 3, 2)));
    assert(spec_cofactor(m, 3, 2) == -z);
}

#[verifier::rlimit(100)]
proof fn lemma_translation_cof_3_3(x: int, y: int, z: int)
    ensures
        spec_cofactor(translation_grid(x, y, z), 3, 3) == (SCALE as int),
        spec_det(sub_grid(translation_grid(x, y, z), 3, 3)) == (SCALE as int),
{
    let m = translation_grid(x, y, z);
    lemma_sign_mul_exact(SCALE as int, x);
    lemma_sign_mul_exact(SCALE as int, -x);
    lemma_sign_mul_exact(SCALE as int, y);
    lemma_sign_mul_exact(SCALE as int, -y);
    lemma_sign_mul_exact(SCALE as int, z);
    lemma_sign_mul_exact(SCALE as int, -z);
    lemma_sign_mul_exact(SCALE as int, SCALE as int);
    lemma_sign_mul_exact(SCALE as int, -(SCALE as int));
    lemma_sign_mul_exact(SCALE as int, 0);
    assert(sub_grid(m, 3, 3)[0][0] == (SCALE as int));
    assert(sub_grid(m, 3, 3)[0][1] == 0);
    assert(sub_grid(m, 3, 3)[0][2] == 0);
    assert(sub_grid(m, 3, 3)[1][0] == 0);
    assert(sub_grid(m, 3, 3)[1][1] == (SCALE as int));
    assert(sub_grid(m, 3, 3)[1][2] == 0);
    assert(sub_grid(m, 3, 3)[2][0] == 0);
    assert(sub_grid(m, 3, 3)[2][1] == 0);
    assert(sub_grid(m, 3, 3)[2][2] == (SCALE as int));
    lemma_det3_cells(sub_grid(m, 3, 3));
    assert(spec_det(sub_grid(sub_grid(m, 3, 3), 0, 0)) == (SCALE as int));
    assert(spec_det(sub_grid(sub_grid(m, 3, 3), 0, 1)) == 0);
    assert(spec_det(sub_grid(sub_grid(m, 3, 3), 0, 2)) == 0);
    assert(spec_det(sub_grid(m, 3, 3)) == (SCALE as int));
    assert(sgn(6int) == 1);
}

/// The inverse of a translation is the opposite translation, cell for cell.
#[verifier::rlimit(100)]
pub proof fn lemma_translation_inverse(x: int, y: int, z: int)
    ensures
        forall|i: int, j: int|
            0 <= i < 4 && 0 <= j < 4 ==> spec_inverse_cell(translation_grid(x, y, z), i, j)
                == translation_grid(-x, -y, -z)[i][j],
{
    let m = translation_grid(x, y, z);
    let w = translation_grid(-x, -y, -z);
    lemma_translation_det(x, y, z);
    lemma_translation_products(x, y, z);
    assert forall|i: int, j: int|
        0 <= i < 4 && 0 <= j < 4 implies spec_inverse_cell(m, i, j) == w[i][j] by {
        lemma_sign_mul_exact(SCALE as int, x);
        lemma_sign_mul_exact(SCALE as int, -x);
        lemma_sign_mul_exact(SCALE as int, y);
        lemma_sign_mul_exact(SCALE as int, -y);
        lemma_sign_mul_exact(SCALE as int, z);
        lemma_sign_mul_exact(SCALE as int, -z);
        lemma_sign_mul_exact(SCALE as int, SCALE as int);
        lemma_sign_mul_exact(SCALE as int, -(SCALE as int));
        lemma_sign_mul_exact(SCALE as int, 0);
        if j == 0 {
            if i == 0 {
                lemma_translation_cof_0_0(x, y, z);
                assert(spec_inverse_cell(m, 0, 0) == (SCALE as int));
            } else if i == 1 {
                lemma_translation_cof_0_1(x, y, z);
                assert(spec_inverse_cell(m, 1, 0) == 0);
            } else if i == 2 {
                lemma_translation_cof_0_2(x, y, z);
                assert(spec_inverse_cell(m, 2, 0) == 0);
            } else if i == 3 {
                lemma_translation_cof_0_3(x, y, z);
                assert(spec_inverse_cell(m, 3, 0) == 0);
            }
        } else if j == 1 {
            if i == 0 {
                lemma_translation_cof_1_0(x, y, z);
                assert(spec_inverse_cell(m, 0, 1) == 0);
            } else if i == 1 {
                lemma_translation_cof_1_1(x, y, z);
                assert(spec_inverse_cell(m, 1, 1) == (SCALE as int));
            } else if i == 2 {
                lemma_translation_cof_1_2(x, y, z);
                assert(spec_inverse_cell(m, 2, 1) == 0);
            } else if i == 3 {
                lemma_translation_cof_1_3(x, y, z);
                assert(spec_inverse_cell(m, 3, 1) == 0);
            }
        } else if j == 2 {
            if i == 0 {
                lemma_translation_cof_2_0(x, y, z);
                assert(spec_inverse_cell(m, 0, 2) == 0);
            } else if i == 1 {
                lemma_translation_cof_2_1(x, y, z);
                assert(spec_inverse_cell(m, 1, 2) == 0);
            } else if i == 2 {
                lemma_translation_cof_2_2(x, y, z);
                assert(spec_inverse_cell(m, 2, 2) == (SCALE as int));
            } else if i == 3 {
                lemma_translation_cof_2_3(x, y, z);
                assert(spec_inverse_cell(m, 3, 2) == 0);
            }
        } else if j == 3 {
            if i == 0 {
                lemma_translation_cof_3_0(x, y, z);
                assert(spec_inverse_cell(m, 0, 3) == -x);
            } else if i == 1 {
                lemma_translation_cof_3_1(x, y, z);
                assert(spec_inverse_cell(m, 1, 3) == -y);
            } else if i == 2 {
                lemma_translation_cof_3_2(x, y, z);
                assert(spec_inverse_cell(m, 2, 3) == -z);
            } else if i == 3 {
                lemma_translation_cof_3_3(x, y, z);
                assert(spec_inverse_cell(m, 3, 3) == (SCALE as int));
            }
        }
    }
}

/// A translation grid applied to a column `(vx, vy, vz, vw)` shifts each
/// spatial component by the translation scaled by `vw`, and keeps `vw`: in
/// particular a direction (`vw` zero) passes through unchanged.
pub proof fn lemma_translation_apply(x: int, y: int, z: int, vx: int, vy: int, vz: int, vw: int)
    ensures
        dot_trunc(translation_grid(x, y, z)[0], seq![vx, vy, vz, vw], 4) == vx + tdiv(
            x * vw,
            SCALE as int,
        ),
        dot_trunc(translation_grid(x, y, z)[1], seq![vx, vy, vz, vw], 4) == vy + tdiv(
            y * vw,
            SCALE as int,
        ),
        dot_trunc(translation_grid(x, y, z)[2], seq![vx, vy, vz, vw], 4) == vz + tdiv(
            z * vw,
            SCALE as int,
        ),
        dot_trunc(translation_grid(x, y, z)[3], seq![vx, vy, vz, vw], 4) == tdiv(
            (SCALE as int) * vw,
            SCALE as int,
        ),
{
    let m = translation_grid(x, y, z);
    let v = seq![vx, vy, vz, vw];
    reveal_with_fuel(crate::matrix::dot_trunc, 6);
    lemma_sign_mul_exact(SCALE as int, vx);
    lemma_sign_mul_exact(SCALE as int, vy);
    lemma_sign_mul_exact(SCALE as int, vz);
    lemma_sign_mul_exact(SCALE as int, 0);
    assert forall|i: int| 0 <= i < 4 implies dot_trunc(m[i], v, 1) == tdiv(
        m[i][0] * vx,
        SCALE as int,
    ) by {
        assert(dot_trunc(m[i], v, 0) == 0);
    }
    assert forall|i: int| 0 <= i < 4 implies dot_trunc(m[i], v, 4) == tdiv(m[i][0] * vx, SCALE as int)
        + tdiv(m[i][1] * vy, SCALE as int) + tdiv(m[i][2] * vz, SCALE as int) + tdiv(
        m[i][3] * vw,
        SCALE as int,
    ) by {}
}

/// Multiplying a translation by its inverse gives the identity, exactly:
/// every row-by-column product lands on one or zero.
pub proof fn lemma_translation_times_inverse(x: int, y: int, z: int)
    ensures
        forall|i: int, j: int|
            0 <= i < 4 && 0 <= j < 4 ==> dot_trunc(
                translation_grid(x, y, z)[i],
                col_seq(inverse_grid(translation_grid(x, y, z)), j),
                4,
            ) == if i == j {
                SCALE as int
            } else {
                0
            },
{
    let m = translation_grid(x, y, z);
    let w = translation_grid(-x, -y, -z);
    lemma_translation_inverse(x, y, z);
    assert forall|i: int, j: int|
        0 <= i < 4 && 0 <= j < 4 implies dot_trunc(m[i], col_seq(inverse_grid(m), j), 4) == (if i
        == j {
        SCALE as int
    } else {
        0
    }) by {
        let col = col_seq(inverse_grid(m), j);
        assert(col =~= seq![w[0][j], w[1][j], w[2][j], w[3][j]]);
        lemma_translation_apply(x, y, z, w[0][j], w[1][j], w[2][j], w[3][j]);
        lemma_translation_products(x, y, z);
        if j == 3 {
            assert(w[3][3] == SCALE as int);
        } else {
            assert(w[3][j] == 0);
            lemma_sign_mul_exact(SCALE as int, 0);
        }
    }
}

/// Taking the inverse of a translation twice gives back the original
/// matrix, cell for cell (exactly, so within any tolerance).
pub proof fn lemma_translation_inverse_involution(x: int, y: int, z: int)
    ensures
        forall|i: int, j: int|
            0 <= i < 4 && 0 <= j < 4 ==> spec_inverse_cell(
                inverse_grid(translation_grid(x, y, z)),
                i,
                j,
            ) == translation_grid(x, y, z)[i][j],
{
    lemma_translation_inverse(x, y, z);
    lemma_translation_inverse(-x, -y, -z);
    assert(inverse_grid(translation_grid(x, y, z)) =~~= translation_grid(-x, -y, -z));
}

/// Round trip: a translation applied to a point and undone by the
/// translation's inverse returns the point, exactly.
pub proof fn lemma_translation_round_trip(x: int, y: int, z: int, px: int, py: int, pz: int)
    ensures
        apply_point(
            inverse_grid(translation_grid(x, y, z)),
            apply_point(translation_grid(x, y, z), px, py, pz, 0),
            apply_point(translation_grid(x, y, z), px, py, pz, 1),
            apply_point(translation_grid(x, y, z), px, py, pz, 2),
            0,
        ) == px,
        apply_point(
            inverse_grid(translation_grid(x, y, z)),
            apply_point(translation_grid(x, y, z), px, py, pz, 0),
            apply_point(translation_grid(x, y, z), px, py, pz, 1),
            apply_point(translation_grid(x, y, z), px, py, pz, 2),
            1,
        ) == py,
        apply_point(
            inverse_grid(translation_grid(x, y, z)),
            apply_point(translation_grid(x, y, z), px, py, pz, 0),
            apply_point(translation_grid(x, y, z), px, py, pz, 1),
            apply_point(translation_grid(x, y, z), px, py, pz, 2),
            2,
        ) == pz,
{
    let m = translation_grid(x, y, z);
    let w = translation_grid(-x, -y, -z);
    lemma_translation_inverse(x, y, z);
    assert(inverse_grid(m) =~~= w);
    lemma_translation_products(x, y, z);
    lemma_translation_apply(x, y, z, px, py, pz, SCALE as int);
    let qx = apply_point(m, px, py, pz, 0);
    let qy = apply_point(m, px, py, pz, 1);
    let qz = apply_point(m, px, py, pz, 2);
    assert(qx == px + x && qy == py + y && qz == pz + z);
    lemma_translation_apply(-x, -y, -z, qx, qy, qz, SCALE as int);
}

/// Component `x` of a vector after normalization.
pub open spec fn normalized_x(v: Vector) -> int {
    tdiv(v.x.raw * SCALE, spec_norm_div(v))
}

/// Component `y` of a vector after normalization.
pub open spec fn normalized_y(v: Vector) -> int {
    tdiv(v.y.raw * SCALE, spec_norm_div(v))
}

/// Component `z` of a vector after normalization.
pub open spec fn normalized_z(v: Vector) -> int {
    tdiv(v.z.raw * SCALE, spec_norm_div(v))
}

/// The squared length of a vector's normalized form, on the grid.
pub open spec fn normalized_sq_len(v: Vector) -> int {
    tdiv(normalized_x(v) * normalized_x(v), SCALE as int) + tdiv(
        normalized_y(v) * normalized_y(v),
        SCALE as int,
    ) + tdiv(normalized_z(v) * normalized_z(v), SCALE as int)
}

/// One truncated square read back: `sc` times the truncated value brackets
/// the true square.
proof fn lemma_sq_brackets(x: int, sc: int)
    requires
        sc >= 1,
    ensures
        x * x >= 0,
        sc * tdiv(x * x, sc) <= x * x,
        x * x < sc * tdiv(x * x, sc) + sc,
        tdiv(x * x, sc) >= 0,
{
    assert(x * x >= 0) by (nonlinear_arith);
    vstd::arithmetic::div_mod::lemma_fundamental_div_mod(x * x, sc);
    vstd::arithmetic::div_mod::lemma_mod_bound(x * x, sc);
    vstd::arithmetic::div_mod::lemma_div_basics_4(x * x, sc);
}

/// Normalizing a vector of at least one unit of squared length gives a unit
/// vector: the magnitude of the result differs from one by at most ten grid
/// steps, far inside the crate's tolerance. (Below one unit the grid is too
/// coarse and the law does not hold: it is stated for the inputs it fits.)
pub proof fn lemma_normalize_unit_magnitude(v: Vector)
    requires
        abs_int(v.x.raw as int) <= 10_000_000_000_000,
        abs_int(v.y.raw as int) <= 10_000_000_000_000,
        abs_int(v.z.raw as int) <= 10_000_000_000_000,
        spec_dot(v, v) >= SCALE,
    ensures
        abs_int(sqrt_floor(normalized_sq_len(v) * SCALE) - SCALE) <= 10,
        abs_int(sqrt_floor(normalized_sq_len(v) * SCALE) - SCALE) <= crate::scalar::EPSILON_RAW,
{
    let sc = SCALE as int;
    let vx = v.x.raw as int;
    let vy = v.y.raw as int;
    let vz = v.z.raw as int;
    let q = spec_dot(v, v);
    // the squared length is between one and three times ten to the eighteen
    crate::matrix::lemma_mul_fits(vx, vx, 10_000_000_000_000, 10_000_000_000_000);
    crate::matrix::lemma_mul_fits(vy, vy, 10_000_000_000_000, 10_000_000_000_000);
    crate::matrix::lemma_mul_fits(vz, vz, 10_000_000_000_000, 10_000_000_000_000);
    crate::matrix::lemma_tdiv_cap(vx * vx, sc, 100_000_000_000_000_000_000_000_000);
    crate::matrix::lemma_tdiv_cap(vy * vy, sc, 100_000_000_000_000_000_000_000_000);
    crate::matrix::lemma_tdiv_cap(vz * vz, sc, 100_000_000_000_000_000_000_000_000);
    assert(sc <= q <= 3_000_000_000_000_000_000);
    // the magnitude is the floor square root of the scaled squared length
    crate::scalar::lemma_sqrt_exists(q * sc);
    let m = sqrt_floor(q * sc);
    assert(m >= sc && m <= q && m * m <= q * sc && q * sc < (m + 1) * (m + 1))
        by (nonlinear_arith)
        requires
            crate::scalar::is_sqrt_floor(q * sc, m) && sc == 100_000_000 && sc <= q <= 3_000_000_000_000_000_000,
    ;
    assert(spec_norm_div(v) == m);
    let nx = normalized_x(v);
    let ny = normalized_y(v);
    let nz = normalized_z(v);
    // each normalized component is the scaled component divided by the
    // magnitude, rounded toward zero
    crate::matrix::lemma_abs_mul(vx, sc);
    crate::matrix::lemma_abs_mul(vy, sc);
    crate::matrix::lemma_abs_mul(vz, sc);
    let fx = abs_int(vx) * sc;
    let fy = abs_int(vy) * sc;
    let fz = abs_int(vz) * sc;
    crate::matrix::lemma_tdiv_abs(vx * sc, m);
    crate::matrix::lemma_tdiv_abs(vy * sc, m);
    crate::matrix::lemma_tdiv_abs(vz * sc, m);
    let kx = abs_int(nx);
    let ky = abs_int(ny);
    let kz = abs_int(nz);
    assert(kx == fx / m && ky == fy / m && kz == fz / m);
    vstd::arithmetic::div_mod::lemma_fundamental_div_mod(fx, m);
    vstd::arithmetic::div_mod::lemma_fundamental_div_mod(fy, m);
    vstd::arithmetic::div_mod::lemma_fundamental_div_mod(fz, m);
    vstd::arithmetic::div_mod::lemma_mod_bound(fx, m);
    vstd::arithmetic::div_mod::lemma_mod_bound(fy, m);
    vstd::arithmetic::div_mod::lemma_mod_bound(fz, m);
    assert(m * kx <= fx && fx < m * kx + m);
    assert(m * ky <= fy && fy < m * ky + m);
    assert(m * kz <= fz && fz < m * kz + m);
    // the squares of the components bracket the squares of their quotients
    assert(kx * kx * (m * m) <= fx * fx && fx * fx < (kx + 1) * (kx + 1) * (m * m))
        by (nonlinear_arith)
        requires
            m >= 1 && kx >= 0 && m * kx <= fx && fx < m * kx + m,
    ;
    assert(ky * ky * (m * m) <= fy * fy && fy * fy < (ky + 1) * (ky + 1) * (m * m))
        by (nonlinear_arith)
        requires
            m >= 1 && ky >= 0 && m * ky <= fy && fy < m * ky + m,
    ;
    assert(kz * kz * (m * m) <= fz * fz && fz * fz < (kz + 1) * (kz + 1) * (m * m))
        by (nonlinear_arith)
        requires
            m >= 1 && kz >= 0 && m * kz <= fz && fz < m * kz + m,
    ;
    // the world squares sum to the squared length up to one step each
    lemma_sq_brackets(vx, sc);
    lemma_sq_brackets(vy, sc);
    lemma_sq_brackets(vz, sc);
    let sumv = vx * vx + vy * vy + vz * vz;
    assert(sc * q <= sumv && sumv < sc * (q + 3)) by {
        assert(sc * (q + 3) == sc * q + 3 * sc) by (nonlinear_arith);
    }
    assert(fx * fx == (vx * vx) * (sc * sc)) by (nonlinear_arith)
        requires
            fx == abs_int(vx) * sc && (abs_int(vx) == vx || abs_int(vx) == -vx),
    ;
    assert(fy * fy == (vy * vy) * (sc * sc)) by (nonlinear_arith)
        requires
            fy == abs_int(vy) * sc && (abs_int(vy) == vy || abs_int(vy) == -vy),
    ;
    assert(fz * fz == (vz * vz) * (sc * sc)) by (nonlinear_arith)
        requires
            fz == abs_int(vz) * sc && (abs_int(vz) == vz || abs_int(vz) == -vz),
    ;
    let bigk = kx * kx + ky * ky + kz * kz;
    // upper bound on the sum of squared quotients
    assert(bigk * (m * m) <= sumv * (sc * sc)) by (nonlinear_arith)
        requires
            kx * kx * (m * m) <= fx * fx && ky * ky * (m * m) <= fy * fy && kz * kz * (m * m)
                <= fz * fz && fx * fx == (vx * vx) * (sc * sc) && fy * fy == (vy * vy) * (sc * sc)
                && fz * fz == (vz * vz) * (sc * sc) && sumv == vx * vx + vy * vy + vz * vz && bigk
                == kx * kx + ky * ky + kz * kz,
    ;
    assert(m * m > q * sc - 2 * m - 1) by (nonlinear_arith)
        requires
            q * sc < (m + 1) * (m + 1),
    ;
    assert(bigk >= 0 && kx + ky + kz >= 0) by (nonlinear_arith)
        requires
            bigk == kx * kx + ky * ky + kz * kz && kx >= 0 && ky >= 0 && kz >= 0,
    ;
    assert(bigk <= sc * sc + 6 * sc) by (nonlinear_arith)
        requires
            bigk * (m * m) <= sumv * (sc * sc) && sumv < sc * (q + 3) && m * m > q * sc - 2 * m - 1
                && sc <= m <= q && sc == 100_000_000 && q >= sc && bigk >= 0,
    ;
    // lower bound on the sum of squared quotients
    assert(kx <= sc + 3 && ky <= sc + 3 && kz <= sc + 3) by (nonlinear_arith)
        requires
            bigk <= sc * sc + 6 * sc && bigk == kx * kx + ky * ky + kz * kz && kx >= 0 && ky >= 0
                && kz >= 0 && sc == 100_000_000,
    ;
    assert(sumv * (sc * sc) < (bigk + 2 * (kx + ky + kz) + 3) * (m * m)) by (nonlinear_arith)
        requires
            fx * fx < (kx + 1) * (kx + 1) * (m * m) && fy * fy < (ky + 1) * (ky + 1) * (m * m)
                && fz * fz < (kz + 1) * (kz + 1) * (m * m) && fx * fx == (vx * vx) * (sc * sc)
                && fy * fy == (vy * vy) * (sc * sc) && fz * fz == (vz * vz) * (sc * sc) && sumv
                == vx * vx + vy * vy + vz * vz && bigk == kx * kx + ky * ky + kz * kz,
    ;
    assert(bigk >= sc * sc - 6 * sc - 21) by (nonlinear_arith)
        requires
            sumv * (sc * sc) < (bigk + 2 * (kx + ky + kz) + 3) * (m * m) && sc * q <= sumv && m * m
                <= q * sc && kx + ky + kz <= 3 * sc + 9 && sc == 100_000_000 && q >= sc && m >= sc,
    ;
    // read the sum back through the grid
    let d = normalized_sq_len(v);
    lemma_sq_brackets(nx, sc);
    lemma_sq_brackets(ny, sc);
    lemma_sq_brackets(nz, sc);
    assert(nx * nx == kx * kx && ny * ny == ky * ky && nz * nz == kz * kz) by (nonlinear_arith)
        requires
            kx == abs_int(nx) && ky == abs_int(ny) && kz == abs_int(nz),
    ;
    assert(sc * d <= bigk && bigk < sc * (d + 3)) by {
        assert(sc * (d + 3) == sc * d + 3 * sc) by (nonlinear_arith);
    }
    assert(sc - 10 <= d <= sc + 6) by (nonlinear_arith)
        requires
            sc * d <= bigk && bigk < sc * (d + 3) && sc * sc - 6 * sc - 21 <= bigk <= sc * sc + 6
                * sc && sc == 100_000_000,
    ;
    // and once more through the final square root
    crate::scalar::lemma_sqrt_exists(d * sc);
    let mag = sqrt_floor(d * sc);
    assert(sc - 10 <= mag <= sc + 3) by (nonlinear_arith)
        requires
            crate::scalar::is_sqrt_floor(d * sc, mag) && sc - 10 <= d <= sc + 6 && sc
                == 100_000_000,
    ;
}

/// Normalizing the zero vector returns it unchanged instead of dividing by
/// zero: the divisor falls back to one and every component stays zero.
pub proof fn lemma_normalize_zero(v: Vector)
    requires
        v.x.raw == 0,
        v.y.raw == 0,
        v.z.raw == 0,
    ensures
        tdiv(v.x.raw * SCALE, spec_norm_div(v)) == v.x.raw,
        tdiv(v.y.raw * SCALE, spec_norm_div(v)) == v.y.raw,
        tdiv(v.z.raw * SCALE, spec_norm_div(v)) == v.z.raw,
{
    assert(spec_dot(v, v) == 0) by {
        lemma_sign_mul_exact(SCALE as int, 0);
        assert(tdiv(0, SCALE as int) == 0);
    }
    assert(is_sqrt_floor(0, 0)) by (nonlinear_arith);
    lemma_sqrt_floor_unique(0 * (SCALE as int), 0);
    assert(spec_norm_div(v) == SCALE as int);
    lemma_sign_mul_exact(SCALE as int, 0);
}

} // verus!
