//! The plain-text pixel map (`P3`) encoding of a rendered image: a header
//! `P3\n<width> <height>\n255\n`, then one `<r> <g> <b>\n` line per pixel in
//! row-major order, every number in decimal.
use vstd::prelude::*;

use crate::grid::PixelGrid;

verus! {

pub open spec fn ascii_digit(d: nat) -> u8 {
    (48 + d) as u8
}

/// The decimal digits of `n`, most significant first, as ASCII bytes.
pub open spec fn decimal(n: nat) -> Seq<u8>
    decreases n,
{
    if n < 10 {
        seq![ascii_digit(n)]
    } else {
        decimal(n / 10).push(ascii_digit(n % 10))
    }
}

/// The header of a `width` by `height` pixel map with 255 as its largest
/// channel value.
pub open spec fn ppm_header(width: nat, height: nat) -> Seq<u8> {
    seq![80u8, 51u8, 10u8] + decimal(width) + seq![32u8] + decimal(height) + seq![10u8]
        + seq![50u8, 53u8, 53u8, 10u8]
}

/// The line of one pixel: its three channels, separated by spaces.
pub open spec fn ppm_pixel_line(p: [u8; 3]) -> Seq<u8> {
    decimal(p[0] as nat) + seq![32u8] + decimal(p[1] as nat) + seq![32u8] + decimal(p[2] as nat)
        + seq![10u8]
}

/// The lines of `pixels`, in order.
pub open spec fn ppm_pixel_lines(pixels: Seq<[u8; 3]>) -> Seq<u8>
    decreases pixels.len(),
{
    if pixels.len() == 0 {
        Seq::empty()
    } else {
        ppm_pixel_lines(pixels.drop_last()) + ppm_pixel_line(pixels.last())
    }
}

/// The whole pixel map of a `width` by `height` image.
pub open spec fn ppm(width: nat, height: nat, pixels: Seq<[u8; 3]>) -> Seq<u8> {
    ppm_header(width, height) + ppm_pixel_lines(pixels)
}

/// Appends the decimal digits of `n` to `out`.
fn push_decimal(out: &mut Vec<u8>, n: u32)
    ensures
        final(out)@ == old(out)@ + decimal(n as nat),
    decreases n,
{
    if n >= 10 {
        push_decimal(out, n / 10);
    }
    out.push(48 + (n % 10) as u8);
    proof {
        assert(final(out)@ =~= old(out)@ + decimal(n as nat));
    }
}

/// Appends the line of pixel `p` to `out`.
pub fn push_pixel_line(out: &mut Vec<u8>, p: [u8; 3])
    ensures
        final(out)@ == old(out)@ + ppm_pixel_line(p),
{
    push_decimal(out, p[0] as u32);
    out.push(32);
    push_decimal(out, p[1] as u32);
    out.push(32);
    push_decimal(out, p[2] as u32);
    out.push(10);
    proof {
        assert(final(out)@ =~= old(out)@ + ppm_pixel_line(p));
    }
}

/// The header of a pixel map the size of `grid`.
pub fn ppm_header_bytes(grid: PixelGrid) -> (r: Vec<u8>)
    ensures
        r@ == ppm_header(grid.width as nat, grid.height as nat),
{
    let mut out: Vec<u8> = Vec::new();
    out.push(80);
    out.push(51);
    out.push(10);
    push_decimal(&mut out, grid.width);
    out.push(32);
    push_decimal(&mut out, grid.height);
    out.push(10);
    out.push(50);
    out.push(53);
    out.push(53);
    out.push(10);
    proof {
        assert(out@ =~= ppm_header(grid.width as nat, grid.height as nat));
    }
    out
}

/// The pixel map of an image the size of `grid` whose pixels, in row-major
/// order, are `pixels`.
pub fn encode_ppm(grid: PixelGrid, pixels: &Vec<[u8; 3]>) -> (r: Vec<u8>)
    requires
        pixels@.len() == grid.count(),
    ensures
        r@ == ppm(grid.width as nat, grid.height as nat, pixels@),
{
    let mut out = ppm_header_bytes(grid);
    let ghost header = out@;
    let mut k: usize = 0;
    while k < pixels.len()
        invariant
            k <= pixels@.len(),
            header == ppm_header(grid.width as nat, grid.height as nat),
            out@ == header + ppm_pixel_lines(pixels@.subrange(0, k as int)),
        decreases pixels@.len() - k,
    {
        push_pixel_line(&mut out, pixels[k]);
        proof {
            let done = pixels@.subrange(0, k as int + 1);
            assert(done.drop_last() =~= pixels@.subrange(0, k as int));
            assert(out@ =~= header + ppm_pixel_lines(done));
        }
        k = k + 1;
    }
    assert(pixels@.subrange(0, pixels@.len() as int) =~= pixels@);
    out
}

} // verus!
