//! The 64-by-32 monochrome framebuffer, with toroidal sprite drawing.

use vstd::prelude::*;

verus! {

/// Columns of the pixel grid.
pub const DISPLAY_WIDTH: usize = 64;

/// Rows of the pixel grid.
pub const DISPLAY_HEIGHT: usize = 32;

/// The pixel grid, stored row-major: the pixel at column `x`, row `y` is
/// `pixels[y * 64 + x]`.
pub struct Display {
    pub pixels: Vec<bool>,
}

/// The grid with every pixel off.
pub open spec fn blank_grid() -> Seq<bool> {
    Seq::new(2048, |i: int| false)
}

/// Whether bit `j` of a sprite row byte is set, counting the most significant
/// bit as column 0.
pub open spec fn sprite_bit(b: u8, j: int) -> bool {
    (b >> ((7 - j) as u8)) & 1 == 1
}

/// The grid after the first `j` bits of sprite row byte `b` have been drawn by
/// exclusive or at row `y`, starting at column `x0` and wrapping modulo the
/// width.
pub open spec fn row_after(pix: Seq<bool>, b: u8, x0: int, y: int, j: int) -> Seq<bool>
    decreases j,
{
    if j <= 0 {
        pix
    } else {
        let prev = row_after(pix, b, x0, y, j - 1);
        let idx = y * 64 + (x0 + (j - 1)) % 64;
        prev.update(idx, prev[idx] != sprite_bit(b, j - 1))
    }
}

/// Whether drawing the first `j` bits of sprite row byte `b` turned some pixel
/// from on to off.
pub open spec fn row_collision(pix: Seq<bool>, b: u8, x0: int, y: int, j: int) -> bool
    decreases j,
{
    if j <= 0 {
        false
    } else {
        let prev = row_after(pix, b, x0, y, j - 1);
        let idx = y * 64 + (x0 + (j - 1)) % 64;
        row_collision(pix, b, x0, y, j - 1) || (prev[idx] && sprite_bit(b, j - 1))
    }
}

/// The grid after the first `r` rows of `sprite` have been drawn at column
/// `x0`, row `y0`, rows wrapping modulo the height.
pub open spec fn grid_after(pix: Seq<bool>, sprite: Seq<u8>, x0: int, y0: int, r: int) -> Seq<bool>
    decreases r,
{
    if r <= 0 {
        pix
    } else {
        row_after(grid_after(pix, sprite, x0, y0, r - 1), sprite[r - 1], x0, (y0 + (r - 1)) % 32, 8)
    }
}

/// Whether drawing the first `r` rows of `sprite` turned some pixel from on to
/// off.
pub open spec fn grid_collision(pix: Seq<bool>, sprite: Seq<u8>, x0: int, y0: int, r: int) -> bool
    decreases r,
{
    if r <= 0 {
        false
    } else {
        grid_collision(pix, sprite, x0, y0, r - 1) || row_collision(
            grid_after(pix, sprite, x0, y0, r - 1),
            sprite[r - 1],
            x0,
            (y0 + (r - 1)) % 32,
            8,
        )
    }
}

impl Display {
    /// The grid always holds exactly 64 * 32 pixels.
    pub open spec fn wf(self) -> bool {
        self.pixels@.len() == 2048
    }

    /// The pixel at column `x`, row `y`.
    pub open spec fn spec_pixel(self, x: int, y: int) -> bool {
        self.pixels@[y * 64 + x]
    }

    /// A cleared display.
    pub fn new() -> (r: Display)
        ensures
            r.wf(),
            r.pixels@ == blank_grid(),
    {
        let pixels: Vec<bool> = vec![false; 2048];
        proof {
            assert(pixels@ =~= blank_grid());
        }
        Display { pixels }
    }

    /// Turns the pixel at `(x, y)` on.
    pub fn set(&mut self, x: usize, y: usize)
        requires
            old(self).wf(),
            x < 64,
            y < 32,
        ensures
            final(self).wf(),
            final(self).pixels@ == old(self).pixels@.update(y * 64 + x, true),
    {
        self.pixels.set(y * 64 + x, true);
    }

    /// Turns the pixel at `(x, y)` off.
    pub fn unset(&mut self, x: usize, y: usize)
        requires
            old(self).wf(),
            x < 64,
            y < 32,
        ensures
            final(self).wf(),
            final(self).pixels@ == old(self).pixels@.update(y * 64 + x, false),
    {
        self.pixels.set(y * 64 + x, false);
    }

    /// Inverts the pixel at `(x, y)`.
    pub fn toggle(&mut self, x: usize, y: usize)
        requires
            old(self).wf(),
            x < 64,
            y < 32,
        ensures
            final(self).wf(),
            final(self).pixels@ == old(self).pixels@.update(
                y * 64 + x,
                !old(self).pixels@[y * 64 + x],
            ),
    {
        let idx = y * 64 + x;
        let cur = self.pixels[idx];
        self.pixels.set(idx, !cur);
    }

    /// Clears the whole grid.
    pub fn clear(&mut self)
        ensures
            final(self).wf(),
            final(self).pixels@ == blank_grid(),
    {
        let pixels: Vec<bool> = vec![false; 2048];
        proof {
            assert(pixels@ =~= blank_grid());
        }
        self.pixels = pixels;
    }

    /// Composes `bit` onto the pixel at `(x, y)` by exclusive or and reports
    /// whether the pixel went from on to off.
    pub fn xor_set(&mut self, x: usize, y: usize, bit: bool) -> (collision: bool)
        requires
            old(self).wf(),
            x < 64,
            y < 32,
        ensures
            final(self).wf(),
            final(self).pixels@ == old(self).pixels@.update(
                y * 64 + x,
                old(self).pixels@[y * 64 + x] != bit,
            ),
            collision == (old(self).pixels@[y * 64 + x] && bit),
    {
        let idx = y * 64 + x;
        let cur = self.pixels[idx];
        self.pixels.set(idx, cur != bit);
        cur && bit
    }

    /// Draws an 8-pixel-wide sprite, one byte per row, at column `x % 64`, row
    /// `y % 32`, composing each sprite pixel by exclusive or and wrapping off
    /// either edge to the opposite one. Returns whether any pixel went from on
    /// to off.
    pub fn render_sprite(&mut self, x: usize, y: usize, sprite: Vec<u8>) -> (collision: bool)
        requires
            old(self).wf(),
            sprite@.len() <= 4096,
        ensures
            final(self).wf(),
            final(self).pixels@ == grid_after(
                old(self).pixels@,
                sprite@,
                (x as int) % 64,
                (y as int) % 32,
                sprite@.len() as int,
            ),
            collision == grid_collision(
                old(self).pixels@,
                sprite@,
                (x as int) % 64,
                (y as int) % 32,
                sprite@.len() as int,
            ),
    {
        let ghost pix0 = self.pixels@;
        let x0 = x % 64;
        let y0 = y % 32;
        let mut collision = false;
        let mut r: usize = 0;
        while r < sprite.len()
            invariant
                x0 == (x as int) % 64,
                y0 == (y as int) % 32,
                x0 < 64,
                y0 < 32,
                r <= sprite@.len(),
                sprite@.len() <= 4096,
                self.wf(),
                self.pixels@ == grid_after(pix0, sprite@, x0 as int, y0 as int, r as int),
                collision == grid_collision(pix0, sprite@, x0 as int, y0 as int, r as int),
            decreases sprite@.len() - r,
        {
            let ghost row_start = self.pixels@;
            let row_y = (y0 + r) % 32;
            let byte = sprite[r];
            let mut j: usize = 0;
            while j < 8
                invariant
                    x0 < 64,
                    row_y < 32,
                    row_y == (y0 + r) % 32,
                    j <= 8,
                    byte == sprite@[r as int],
                    r < sprite@.len(),
                    self.wf(),
                    self.pixels@ == row_after(row_start, byte, x0 as int, row_y as int, j as int),
                    collision == (grid_collision(pix0, sprite@, x0 as int, y0 as int, r as int)
                        || row_collision(row_start, byte, x0 as int, row_y as int, j as int)),
                decreases 8 - j,
            {
                let sh: u8 = (7 - j) as u8;
                let bit = ((byte >> sh) & 1) == 1;
                proof {
                    assert(bit == sprite_bit(byte, j as int));
                }
                let px = (x0 + j) % 64;
                let c = self.xor_set(px, row_y, bit);
                collision = collision || c;
                j += 1;
            }
            r += 1;
            proof {
                assert(self.pixels@ == grid_after(pix0, sprite@, x0 as int, y0 as int, r as int));
            }
        }
        collision
    }
}

/// An implementation of `Default` that starts cleared, like `new`.
impl Default for Display {
    fn default() -> (r: Display)
        ensures
            r.wf(),
            r.pixels@ == blank_grid(),
    {
        Display::new()
    }
}

} // verus!
