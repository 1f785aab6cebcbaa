use vstd::prelude::*;
use crate::canvas::Canvas;
use crate::matrix::{Matrix, CELL_LIMIT, lemma_dot_trunc_bound, lemma_tdiv_cap};
use crate::point::Point;
use crate::scalar::{Scalar, SCALE, abs_int};
use crate::utils::paint_square;

verus! {

/// The cosine and sine of `i` twelfths of a full turn, on the grid.
fn tick_cos_sin(i: usize) -> (cs: (Scalar, Scalar))
    requires
        i < 12,
    ensures
        abs_int(cs.0.raw as int) <= SCALE,
        abs_int(cs.1.raw as int) <= SCALE,
{
    if i == 0 {
        (Scalar { raw: 100_000_000 }, Scalar { raw: 0 })
    } else if i == 1 {
        (Scalar { raw: 86_602_540 }, Scalar { raw: 50_000_000 })
    } else if i == 2 {
        (Scalar { raw: 50_000_000 }, Scalar { raw: 86_602_540 })
    } else if i == 3 {
        (Scalar { raw: 0 }, Scalar { raw: 100_000_000 })
    } else if i == 4 {
        (Scalar { raw: -50_000_000 }, Scalar { raw: 86_602_540 })
    } else if i == 5 {
        (Scalar { raw: -86_602_540 }, Scalar { raw: 50_000_000 })
    } else if i == 6 {
        (Scalar { raw: -100_000_000 }, Scalar { raw: 0 })
    } else if i == 7 {
        (Scalar { raw: -86_602_540 }, Scalar { raw: -50_000_000 })
    } else if i == 8 {
        (Scalar { raw: -50_000_000 }, Scalar { raw: -86_602_540 })
    } else if i == 9 {
        (Scalar { raw: 0 }, Scalar { raw: -100_000_000 })
    } else if i == 10 {
        (Scalar { raw: 50_000_000 }, Scalar { raw: -86_602_540 })
    } else {
        (Scalar { raw: 86_602_540 }, Scalar { raw: -50_000_000 })
    }
}

/// Paints the twelve hour marks of a clock face: each mark is the point
/// `(200, 0, 0)` rotated about Z by `i` twelfths of a turn and translated to
/// the canvas centre.
pub fn clock_drawing() -> (canvas: Canvas)
    ensures
        canvas.wf(),
        canvas.width == 1000,
        canvas.height == 1000,
{
    let mut canvas = Canvas::new(1000, 1000);
    let mut i: usize = 0;
    while i < 12
        invariant
            canvas.wf(),
            canvas.width == 1000,
            canvas.height == 1000,
            i <= 12,
        decreases 12 - i,
    {
        let p = Point::new(Scalar::from_int(200), Scalar { raw: 0 }, Scalar { raw: 0 });
        let (cos_t, sin_t) = tick_cos_sin(i);
        let rotation = Matrix::rotate_z_3d(cos_t, sin_t);
        let translation = Matrix::translation_3d(
            Scalar::from_int(500),
            Scalar::from_int(500),
            Scalar { raw: 0 },
        );
        proof {
            assert forall|r: int, c: int|
                0 <= r < rotation.grid().len() && 0 <= c < rotation.grid()[r].len()
                implies -(CELL_LIMIT as int) <= #[trigger] rotation.grid()[r][c] <= (
            CELL_LIMIT as int) by {
                assert(rotation.grid()[r][c] == rotation.at(r, c));
            }
            assert forall|r: int, c: int|
                0 <= r < translation.grid().len() && 0 <= c < translation.grid()[r].len()
                implies -(CELL_LIMIT as int) <= #[trigger] translation.grid()[r][c] <= (
            CELL_LIMIT as int) by {
                assert(translation.grid()[r][c] == translation.at(r, c));
            }
        }
        let m = translation.mul(&rotation);
        proof {
            assert forall|r: int, c: int|
                0 <= r < m.grid().len() && 0 <= c < m.grid()[r].len() implies -(
            200_000_000_000 as int) <= #[trigger] m.grid()[r][c] <= (200_000_000_000 as int) by {
                assert(m.grid()[r][c] == m.at(r, c));
                assert forall|t: int|
                    0 <= t < 4 implies abs_int(
                    #[trigger] translation.grid()[r][t],
                ) <= 50_000_000_000 as int by {
                    assert(translation.grid()[r][t] == translation.at(r, t));
                }
                assert forall|t: int|
                    0 <= t < 4 implies abs_int(
                    #[trigger] crate::matrix::col_seq(rotation.grid(), c)[t],
                ) <= (SCALE as int) by {
                    assert(crate::matrix::col_seq(rotation.grid(), c)[t] == rotation.at(t, c));
                }
                lemma_dot_trunc_bound(
                    translation.grid()[r],
                    crate::matrix::col_seq(rotation.grid(), c),
                    4,
                    50_000_000_000 as int,
                    SCALE as int,
                );
            }
        }
        let new_point = m.mul_point(&p);
        proof {
            assert forall|t: int|
                0 <= t < 4 implies abs_int(#[trigger] m.grid()[0][t]) <= (
            200_000_000_000 as int) by {
                assert(m.grid()[0][t] == m.at(0, t));
            }
            assert forall|t: int|
                0 <= t < 4 implies abs_int(#[trigger] m.grid()[1][t]) <= (
            200_000_000_000 as int) by {
                assert(m.grid()[1][t] == m.at(1, t));
            }
            assert forall|t: int|
                0 <= t < 4 implies abs_int(
                #[trigger] crate::matrix::point_col(p)[t],
            ) <= 20_000_000_000 as int by {}
            lemma_dot_trunc_bound(
                m.grid()[0],
                crate::matrix::point_col(p),
                4,
                200_000_000_000 as int,
                20_000_000_000 as int,
            );
            lemma_dot_trunc_bound(
                m.grid()[1],
                crate::matrix::point_col(p),
                4,
                200_000_000_000 as int,
                20_000_000_000 as int,
            );
            lemma_tdiv_cap(new_point.x.raw as int, SCALE as int, 160_000_000_000_000 as int);
            lemma_tdiv_cap(new_point.y.raw as int, SCALE as int, 160_000_000_000_000 as int);
        }
        let px = new_point.x.trunc_units();
        let py = new_point.y.trunc_units();
        paint_square(&mut canvas, px as i32, py as i32, 5);
        i = i + 1;
    }
    canvas
}

} // verus!
