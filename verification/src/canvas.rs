use vstd::prelude::*;
use crate::color::Color;
use crate::scalar::Scalar;

verus! {

/// Where a coordinate lands after the canvas clamps it to its edge.
pub open spec fn clamp_idx(v: int, hi: int) -> int {
    if v > hi {
        hi
    } else {
        v
    }
}

/// A pixel grid. Unlike the math kernel, which treats malformed shapes as
/// contract violations, the canvas silently clamps out-of-range coordinates
/// to its edge: pixel positions arrive from rounded arithmetic and noisy
/// values are tolerated by design.
#[derive(Debug)]
pub struct Canvas {
    pub width: u16,
    pub height: u16,
    pub pixels: Vec<Vec<Color>>,
}

impl Canvas {
    /// The stated dimensions describe the pixel grid, and both are positive.
    pub open spec fn wf(self) -> bool {
        &&& self.pixels@.len() == self.height
        &&& forall|i: int|
            0 <= i < self.pixels@.len() ==> (#[trigger] self.pixels@[i])@.len() == self.width
        &&& self.width >= 1
        &&& self.height >= 1
    }

    pub open spec fn pixel_at(self, x: int, y: int) -> Color {
        self.pixels@[y]@[x]
    }

    /// A canvas of the given size, all pixels black.
    pub fn new(w: u16, h: u16) -> (c: Canvas)
        requires
            w >= 1,
            h >= 1,
        ensures
            c.wf(),
            c.width == w,
            c.height == h,
            forall|x: int, y: int|
                0 <= x < w && 0 <= y < h ==> (#[trigger] c.pixel_at(x, y)).r.raw == 0
                    && c.pixel_at(x, y).g.raw == 0 && c.pixel_at(x, y).b.raw == 0,
    {
        let mut rows: Vec<Vec<Color>> = Vec::new();
        let mut i: usize = 0;
        let hh = h as usize;
        let ww = w as usize;
        while i < hh
            invariant
                hh == h,
                ww == w,
                i <= hh,
                rows@.len() == i,
                forall|r: int| 0 <= r < i ==> (#[trigger] rows@[r])@.len() == ww,
                forall|r: int, c: int|
                    0 <= r < i && 0 <= c < ww ==> (#[trigger] rows@[r]@[c]).r.raw == 0
                        && rows@[r]@[c].g.raw == 0 && rows@[r]@[c].b.raw == 0,
            decreases hh - i,
        {
            let mut row: Vec<Color> = Vec::new();
            let mut j: usize = 0;
            while j < ww
                invariant
                    j <= ww,
                    row@.len() == j,
                    forall|c: int|
                        0 <= c < j ==> (#[trigger] row@[c]).r.raw == 0 && row@[c].g.raw == 0
                            && row@[c].b.raw == 0,
                decreases ww - j,
            {
                row.push(Color::new(Scalar { raw: 0 }, Scalar { raw: 0 }, Scalar { raw: 0 }));
                j = j + 1;
            }
            rows.push(row);
            i = i + 1;
        }
        Canvas { width: w, height: h, pixels: rows }
    }

    /// Writes the color at `(x, y)`, clamping each coordinate to the canvas.
    pub fn write_pixel(&mut self, color: &Color, x: usize, y: usize)
        requires
            old(self).wf(),
        ensures
            final(self).wf(),
            final(self).width == old(self).width,
            final(self).height == old(self).height,
            final(self).pixel_at(
                clamp_idx(x as int, old(self).width - 1),
                clamp_idx(y as int, old(self).height - 1),
            ) == *color,
            forall|px: int, py: int|
                0 <= px < old(self).width && 0 <= py < old(self).height && !(px == clamp_idx(
                    x as int,
                    old(self).width - 1,
                ) && py == clamp_idx(y as int, old(self).height - 1)) ==> final(self).pixel_at(
                    px,
                    py,
                ) == old(self).pixel_at(px, py),
    {
        let w_hi = (self.width - 1) as usize;
        let h_hi = (self.height - 1) as usize;
        let x_coord = if x > w_hi {
            w_hi
        } else {
            x
        };
        let y_coord = if y > h_hi {
            h_hi
        } else {
            y
        };
        let mut row = self.pixels.remove(y_coord);
        row.set(x_coord, *color);
        self.pixels.insert(y_coord, row);
    }

    /// Reads the pixel at `(x, y)`, clamping each coordinate to the canvas.
    pub fn get_pixel(&self, x: usize, y: usize) -> (c: Color)
        requires
            self.wf(),
        ensures
            c == self.pixel_at(
                clamp_idx(x as int, self.width - 1),
                clamp_idx(y as int, self.height - 1),
            ),
    {
        let w_hi = (self.width - 1) as usize;
        let h_hi = (self.height - 1) as usize;
        let x_coord = if x > w_hi {
            w_hi
        } else {
            x
        };
        let y_coord = if y > h_hi {
            h_hi
        } else {
            y
        };
        self.pixels[y_coord][x_coord]
    }
}

} // verus!
