use vstd::prelude::*;
use rand::Rng;
use crate::canvas::Canvas;
use crate::color::Color;
use crate::scalar::{Scalar, SCALE};

verus! {

/// Relies on rand::thread_rng and Rng::gen_range: a draw from the half-open
/// range `0..SCALE`, which is never empty, so the call does not panic;
/// nothing more is assumed of which value comes back.
#[verifier::external_body]
fn random_unit_raw() -> (r: i128)
    ensures
        0 <= r < SCALE,
{
    rand::thread_rng().gen_range(0..SCALE)
}

/// A color whose channels are drawn uniformly from `[0, 1)`.
pub fn get_random_color() -> (c: Color)
    ensures
        0 <= c.r.raw < SCALE,
        0 <= c.g.raw < SCALE,
        0 <= c.b.raw < SCALE,
{
    Color::new(
        Scalar { raw: random_unit_raw() },
        Scalar { raw: random_unit_raw() },
        Scalar { raw: random_unit_raw() },
    )
}

/// Paints a square of side `2 * size + 1` centred at `(x, y)` in one random
/// color; coordinates that leave the canvas are clamped to its edge, as
/// `write_pixel` does (a negative coordinate lands on the far edge).
pub fn paint_square(canvas: &mut Canvas, x: i32, y: i32, size: i32)
    requires
        old(canvas).wf(),
        -1_000_000_000 <= x <= 1_000_000_000,
        -1_000_000_000 <= y <= 1_000_000_000,
        0 <= size <= 100_000,
    ensures
        final(canvas).wf(),
        final(canvas).width == old(canvas).width,
        final(canvas).height == old(canvas).height,
        exists|c: Color|
            #![trigger c.r.raw]
            0 <= c.r.raw < SCALE && 0 <= c.g.raw < SCALE && 0 <= c.b.raw < SCALE && (forall|
                px: int,
                py: int,
            |
                0 <= px < old(canvas).width && 0 <= py < old(canvas).height ==> final(
                    canvas).pixel_at(px, py) == old(canvas).pixel_at(px, py) || final(
                    canvas).pixel_at(px, py) == c) && (forall|px: int, py: int|
                x - size <= px < x + size + 1 && y - size <= py < y + size + 1 && 0 <= px < old(
                    canvas).width && 0 <= py < old(canvas).height ==> final(canvas).pixel_at(
                    px, py) == c),
{
    let initial_pos_x = x - size;
    let initial_pos_y = y - size;
    let final_pos_x = initial_pos_x + (2 * size + 1);
    let final_pos_y = initial_pos_y + (2 * size + 1);

    let color = get_random_color();
    let mut row_index = initial_pos_y;
    while row_index < final_pos_y
        invariant
            canvas.wf(),
            canvas.width == old(canvas).width,
            canvas.height == old(canvas).height,
            initial_pos_y <= row_index,
            -1_000_000_000 <= x <= 1_000_000_000,
            -1_000_000_000 <= y <= 1_000_000_000,
            0 <= size <= 100_000,
            initial_pos_x == x - size,
            final_pos_x == x + size + 1,
            final_pos_y == y + size + 1,
            initial_pos_y == y - size,
            0 <= color.r.raw < SCALE && 0 <= color.g.raw < SCALE && 0 <= color.b.raw < SCALE,
            forall|px: int, py: int|
                0 <= px < canvas.width && 0 <= py < canvas.height ==> canvas.pixel_at(px, py)
                    == old(canvas).pixel_at(px, py) || canvas.pixel_at(px, py) == color,
            forall|px: int, py: int|
                initial_pos_x <= px < final_pos_x && initial_pos_y <= py < row_index && 0 <= px
                    < canvas.width && 0 <= py < canvas.height ==> canvas.pixel_at(px, py) == color,
        decreases final_pos_y - row_index,
    {
        let mut col_index = initial_pos_x;
        while col_index < final_pos_x
            invariant
                canvas.wf(),
                canvas.width == old(canvas).width,
                canvas.height == old(canvas).height,
                initial_pos_x <= col_index,
                -1_000_000_000 <= x <= 1_000_000_000,
                -1_000_000_000 <= y <= 1_000_000_000,
                0 <= size <= 100_000,
                initial_pos_x == x - size,
                final_pos_x == x + size + 1,
                initial_pos_y == y - size,
                initial_pos_y <= row_index < final_pos_y,
                final_pos_y == y + size + 1,
                0 <= color.r.raw < SCALE && 0 <= color.g.raw < SCALE && 0 <= color.b.raw < SCALE,
                forall|px: int, py: int|
                    0 <= px < canvas.width && 0 <= py < canvas.height ==> canvas.pixel_at(px, py)
                        == old(canvas).pixel_at(px, py) || canvas.pixel_at(px, py) == color,
                forall|px: int, py: int|
                    initial_pos_x <= px < final_pos_x && initial_pos_y <= py < row_index && 0 <= px
                        < canvas.width && 0 <= py < canvas.height ==> canvas.pixel_at(px, py)
                        == color,
                forall|px: int|
                    initial_pos_x <= px < col_index && 0 <= px < canvas.width && 0 <= row_index
                        < canvas.height ==> canvas.pixel_at(px, row_index as int) == color,
            decreases final_pos_x - col_index,
        {
            let cx: usize = if col_index < 0 {
                usize::MAX
            } else {
                col_index as usize
            };
            let cy: usize = if row_index < 0 {
                usize::MAX
            } else {
                row_index as usize
            };
            canvas.write_pixel(&color, cx, cy);
            col_index = col_index + 1;
        }
        row_index = row_index + 1;
    }
}

} // verus!
