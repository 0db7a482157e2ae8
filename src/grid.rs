//! The pixel grid of a render: its dimensions and the row-major order in
//! which pixels are visited (top to bottom, left to right within a row).
use vstd::prelude::*;

verus! {

/// The dimensions of a rendered image, in pixels.
#[derive(Clone, Copy, Debug, PartialEq, Eq, Structural)]
pub struct PixelGrid {
    pub width: u32,
    pub height: u32,
}

/// Position of pixel `(x, y)` in row-major order on a grid `width` wide.
pub open spec fn row_major_index(width: nat, x: nat, y: nat) -> nat {
    y * width + x
}

impl PixelGrid {
    /// At least one row, and the byte count of an RGB buffer of this size
    /// fits in one allocation.
    pub open spec fn wf(self) -> bool {
        &&& self.height >= 1
        &&& 3 * (self.width as nat) * (self.height as nat) <= isize::MAX as nat
    }

    pub open spec fn count(self) -> nat {
        (self.width as nat) * (self.height as nat)
    }

    /// Column of the pixel at row-major position `k`.
    pub open spec fn column_of(self, k: nat) -> nat {
        k % (self.width as nat)
    }

    /// Row of the pixel at row-major position `k`.
    pub open spec fn row_of(self, k: nat) -> nat {
        k / (self.width as nat)
    }

    /// A grid `width` pixels wide whose height is `raw_height`, raised to one
    /// where it came out as zero (a wide aspect ratio on a narrow image).
    pub fn new(width: u32, raw_height: u32) -> (r: PixelGrid)
        requires
            3 * (width as nat) * (if raw_height == 0 { 1nat } else { raw_height as nat })
                <= isize::MAX as nat,
        ensures
            r.wf(),
            r.width == width,
            r.height == if raw_height == 0 { 1 } else { raw_height },
    {
        let height: u32 = if raw_height == 0 { 1 } else { raw_height };
        PixelGrid { width, height }
    }

    /// The number of pixels.
    pub fn pixel_count(&self) -> (r: usize)
        requires
            self.wf(),
        ensures
            r as nat == self.count(),
    {
        proof {
            lemma_count_fits(*self);
        }
        (self.width as usize) * (self.height as usize)
    }

    /// Row-major position of pixel `(x, y)`.
    pub fn index_of(&self, x: u32, y: u32) -> (r: usize)
        requires
            self.wf(),
            x < self.width,
            y < self.height,
        ensures
            r as nat == row_major_index(self.width as nat, x as nat, y as nat),
            r < self.count(),
    {
        proof {
            lemma_index_in_grid(self.width as nat, self.height as nat, x as nat, y as nat);
            lemma_count_fits(*self);
        }
        (y as usize) * (self.width as usize) + (x as usize)
    }

    /// The pixel `(x, y)` at row-major position `k`.
    pub fn coords_of(&self, k: usize) -> (r: (u32, u32))
        requires
            self.wf(),
            k < self.count(),
        ensures
            r.0 as nat == self.column_of(k as nat),
            r.1 as nat == self.row_of(k as nat),
            r.0 < self.width,
            r.1 < self.height,
            row_major_index(self.width as nat, r.0 as nat, r.1 as nat) == k,
    {
        proof {
            lemma_coords_in_grid(*self, k as nat);
        }
        let w = self.width as usize;
        ((k % w) as u32, (k / w) as u32)
    }
}

/// A well-formed grid's pixel count, and its RGB byte count, fit in one
/// allocation.
pub proof fn lemma_count_fits(g: PixelGrid)
    requires
        g.wf(),
    ensures
        g.count() <= isize::MAX,
        3 * g.count() <= isize::MAX,
{
    let w = g.width as nat;
    let h = g.height as nat;
    assert(3 * w * h == 3 * (w * h)) by (nonlinear_arith);
}

proof fn lemma_index_in_grid(w: nat, h: nat, x: nat, y: nat)
    requires
        x < w,
        y < h,
    ensures
        row_major_index(w, x, y) < w * h,
{
    assert(y * w + x < w * h) by (nonlinear_arith)
        requires
            x < w,
            y < h,
    ;
}

proof fn lemma_coords_in_grid(g: PixelGrid, k: nat)
    requires
        g.wf(),
        k < g.count(),
    ensures
        g.column_of(k) < g.width,
        g.row_of(k) < g.height,
        k == row_major_index(g.width as nat, g.column_of(k), g.row_of(k)),
{
    let w = g.width as nat;
    let h = g.height as nat;
    assert(w > 0) by (nonlinear_arith)
        requires
            k < w * h,
    ;
    vstd::arithmetic::div_mod::lemma_fundamental_div_mod(k as int, w as int);
    let q = k / w;
    let r = k % w;
    assert(q < h) by (nonlinear_arith)
        requires
            k == w * q + r,
            0 <= r,
            k < w * h,
    ;
}

/// Visiting pixels in row-major order reaches every pixel exactly once:
/// position and coordinates convert into each other both ways.
pub proof fn lemma_row_major_round_trip(g: PixelGrid, x: nat, y: nat)
    requires
        g.wf(),
        x < g.width,
        y < g.height,
    ensures
        row_major_index(g.width as nat, x, y) < g.count(),
        g.column_of(row_major_index(g.width as nat, x, y)) == x,
        g.row_of(row_major_index(g.width as nat, x, y)) == y,
{
    let w = g.width as nat;
    lemma_index_in_grid(w, g.height as nat, x, y);
    vstd::arithmetic::div_mod::lemma_fundamental_div_mod_converse(
        (y * w + x) as int, w as int, y as int, x as int);
}

} // verus!
