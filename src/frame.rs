//! The frame buffer of a render: an `image::RgbImage` filled one pixel at a
//! time, in row-major order.
use vstd::prelude::*;

use crate::grid::{row_major_index, PixelGrid};

verus! {

/// An RGB image of the `image` crate. Verus sees it only through
/// `canvas_pixels` and `canvas_dims`, and changes it only through the
/// wrappers below.
#[verifier::external_body]
pub struct Canvas {
    pub image: image::RgbImage,
}

/// The pixels of an RGB image, as byte triples in row-major order.
pub uninterp spec fn canvas_pixels(c: Canvas) -> Seq<[u8; 3]>;

/// The width and height an RGB image was made with.
pub uninterp spec fn canvas_dims(c: Canvas) -> (u32, u32);

/// The contents of a freshly made image: `count` black pixels.
pub open spec fn black_pixels(count: nat) -> Seq<[u8; 3]> {
    Seq::new(count, |i: int| [0u8, 0u8, 0u8])
}

/// Relies on `image::ImageBuffer::new`: a buffer of the given dimensions
/// whose samples are all zero. It panics when the byte count overflows
/// `usize` or exceeds what one `Vec` can hold (`isize::MAX` bytes), which
/// `requires` rules out.
#[verifier::external_body]
fn blank_canvas(width: u32, height: u32) -> (r: Canvas)
    requires
        3 * (width as nat) * (height as nat) <= isize::MAX as nat,
    ensures
        canvas_dims(r) == (width, height),
        canvas_pixels(r) == black_pixels((width as nat) * (height as nat)),
{
    Canvas { image: image::RgbImage::new(width, height) }
}

/// Relies on `image::ImageBuffer::put_pixel`: it replaces the pixel at
/// row-major position `y * width + x` and leaves the rest. It panics outside
/// the image, which `requires` rules out.
#[verifier::external_body]
fn set_pixel(img: &mut Canvas, x: u32, y: u32, rgb: [u8; 3])
    requires
        x < canvas_dims(*old(img)).0,
        y < canvas_dims(*old(img)).1,
    ensures
        canvas_dims(*final(img)) == canvas_dims(*old(img)),
        canvas_pixels(*final(img)) == canvas_pixels(*old(img)).update(
            row_major_index(canvas_dims(*old(img)).0 as nat, x as nat, y as nat) as int,
            rgb,
        ),
{
    img.image.put_pixel(x, y, image::Rgb(rgb))
}

/// An image under construction, with a cursor on the next pixel to write.
pub struct Frame {
    grid: PixelGrid,
    canvas: Canvas,
    next: usize,
}

impl Frame {
    pub closed spec fn grid(&self) -> PixelGrid {
        self.grid
    }

    /// What the image holds so far, in row-major order.
    pub closed spec fn pixels(&self) -> Seq<[u8; 3]> {
        canvas_pixels(self.canvas)
    }

    /// Row-major position of the next pixel to write.
    pub closed spec fn cursor(&self) -> nat {
        self.next as nat
    }

    /// The image has the dimensions of the grid.
    pub closed spec fn canvas_matches_grid(&self) -> bool {
        canvas_dims(self.canvas) == (self.grid.width, self.grid.height)
    }

    pub open spec fn wf(&self) -> bool {
        &&& self.grid().wf()
        &&& self.canvas_matches_grid()
        &&& self.pixels().len() == self.grid().count()
        &&& self.cursor() <= self.grid().count()
    }

    /// A black image the size of `grid`, with the cursor on pixel `(0, 0)`.
    pub fn new(grid: PixelGrid) -> (r: Frame)
        requires
            grid.wf(),
        ensures
            r.wf(),
            r.grid() == grid,
            r.cursor() == 0,
            r.pixels() == black_pixels(grid.count()),
    {
        let canvas = blank_canvas(grid.width, grid.height);
        Frame { grid, canvas, next: 0 }
    }

    pub fn grid_of(&self) -> (r: PixelGrid)
        ensures
            r == self.grid(),
    {
        self.grid
    }

    /// Whether every pixel has been written.
    pub fn is_complete(&self) -> (r: bool)
        requires
            self.wf(),
        ensures
            r == (self.cursor() == self.grid().count()),
    {
        self.next == self.grid.pixel_count()
    }

    /// The coordinates `(x, y)` of the next pixel to write, or `None` once
    /// the image is complete.
    pub fn next_pixel(&self) -> (r: Option<(u32, u32)>)
        requires
            self.wf(),
        ensures
            r.is_some() == (self.cursor() < self.grid().count()),
            r matches Some(p) ==> {
                &&& p.0 as nat == self.grid().column_of(self.cursor())
                &&& p.1 as nat == self.grid().row_of(self.cursor())
            },
    {
        if self.next < self.grid.pixel_count() {
            Some(self.grid.coords_of(self.next))
        } else {
            None
        }
    }

    /// Writes `rgb` at the cursor and moves the cursor to the next pixel.
    pub fn write_next(&mut self, rgb: [u8; 3])
        requires
            old(self).wf(),
            old(self).cursor() < old(self).grid().count(),
        ensures
            final(self).wf(),
            final(self).grid() == old(self).grid(),
            final(self).cursor() == old(self).cursor() + 1,
            final(self).pixels() == old(self).pixels().update(old(self).cursor() as int, rgb),
    {
        let (x, y) = self.grid.coords_of(self.next);
        proof {
            crate::grid::lemma_count_fits(self.grid);
        }
        set_pixel(&mut self.canvas, x, y, rgb);
        self.next = self.next + 1;
    }

    /// The image, with its pixels as written.
    pub fn into_canvas(self) -> (r: Canvas)
        requires
            self.wf(),
        ensures
            canvas_dims(r) == (self.grid().width, self.grid().height),
            canvas_pixels(r) == self.pixels(),
    {
        self.canvas
    }
}

/// An image the size of `grid` whose pixels, in row-major order, are
/// `colors`.
pub fn canvas_from_pixels(grid: PixelGrid, colors: &Vec<[u8; 3]>) -> (r: Canvas)
    requires
        grid.wf(),
        colors@.len() == grid.count(),
    ensures
        canvas_dims(r) == (grid.width, grid.height),
        canvas_pixels(r) == colors@,
{
    let mut frame = Frame::new(grid);
    let n = grid.pixel_count();
    let mut k: usize = 0;
    while k < n
        invariant
            frame.wf(),
            frame.grid() == grid,
            n == grid.count(),
            colors@.len() == n,
            frame.cursor() == k,
            k <= n,
            forall|i: int| 0 <= i < k ==> frame.pixels()[i] == colors@[i],
        decreases n - k,
    {
        frame.write_next(colors[k]);
        k = k + 1;
    }
    let r = frame.into_canvas();
    assert(canvas_pixels(r) =~= colors@);
    r
}

} // verus!
