//! Pictures stored row by row, four bytes per pixel.

use vstd::prelude::*;

verus! {

/// A picture given pixel by pixel: `pixel(row, col)` is four bytes.
pub open spec fn raster(width: nat, height: nat, pixel: spec_fn(int, int) -> Seq<u8>) -> Seq<u8> {
    Seq::new(
        width * height * 4,
        |i: int| pixel((i / 4) / (width as int), (i / 4) % (width as int))[i % 4],
    )
}

/// A picture has four bytes for each pixel and no others.
pub proof fn raster_length(width: nat, height: nat, pixel: spec_fn(int, int) -> Seq<u8>)
    ensures
        raster(width, height, pixel).len() == width * height * 4,
{
}

/// Where a pixel lies.
pub proof fn pixel_position(width: nat, height: nat, row: int, col: int)
    requires
        0 <= row < height,
        0 <= col < width,
    ensures
        0 <= row * width,
        (row * width + col) * 4 + 4 <= width * height * 4,
        (row * width + col) / (width as int) == row,
        (row * width + col) % (width as int) == col,
{
    assert(0 <= row * width && row * width + width <= width * height) by (nonlinear_arith)
        requires
            0 <= row <= height - 1,
            width >= 0,
    ;
    vstd::arithmetic::div_mod::lemma_fundamental_div_mod_converse(
        row * width + col,
        width as int,
        row,
        col,
    );
}

/// The four bytes of the pixel in row `row` and column `col`.
pub proof fn raster_pixel(
    width: nat,
    height: nat,
    pixel: spec_fn(int, int) -> Seq<u8>,
    row: int,
    col: int,
)
    requires
        0 <= row < height,
        0 <= col < width,
    ensures
        ({
            let at = (row * width + col) * 4;
            let whole = raster(width, height, pixel);
            &&& 0 <= at
            &&& at + 4 <= whole.len()
            &&& whole[at] == pixel(row, col)[0]
            &&& whole[at + 1] == pixel(row, col)[1]
            &&& whole[at + 2] == pixel(row, col)[2]
            &&& whole[at + 3] == pixel(row, col)[3]
        }),
{
    pixel_position(width, height, row, col);
    let p = row * width + col;
    assert((p * 4) / 4 == p && (p * 4 + 1) / 4 == p && (p * 4 + 2) / 4 == p && (p * 4 + 3) / 4 == p);
}

/// The part of a picture that shows one pixel.
pub proof fn raster_part(
    width: nat,
    height: nat,
    pixel: spec_fn(int, int) -> Seq<u8>,
    row: int,
    col: int,
    at: int,
)
    requires
        0 <= row < height,
        0 <= col < width,
        pixel(row, col).len() == 4,
        at == (row * width + col) * 4,
    ensures
        0 <= at,
        at + 4 <= raster(width, height, pixel).len(),
        raster(width, height, pixel).subrange(at, at + 4) == pixel(row, col),
{
    raster_pixel(width, height, pixel, row, col);
    assert(raster(width, height, pixel).subrange(at, at + 4) =~= pixel(row, col));
}

/// Appending a pixel to all that precede it.
pub proof fn raster_grows(
    width: nat,
    height: nat,
    pixel: spec_fn(int, int) -> Seq<u8>,
    row: int,
    col: int,
    before: Seq<u8>,
)
    requires
        0 <= row < height,
        0 <= col < width,
        pixel(row, col).len() == 4,
        before.len() == (row * width + col) * 4,
        before.len() <= raster(width, height, pixel).len(),
        before == raster(width, height, pixel).take(before.len() as int),
    ensures
        before.len() + 4 <= raster(width, height, pixel).len(),
        before + pixel(row, col) == raster(width, height, pixel).take((before.len() + 4) as int),
{
    raster_pixel(width, height, pixel, row, col);
    let whole = raster(width, height, pixel);
    assert(before + pixel(row, col) =~= whole.take((before.len() + 4) as int));
}

/// Appends a pixel.
pub fn push_pixel(rgba: &mut Vec<u8>, r: u8, g: u8, b: u8)
    ensures
        final(rgba)@ == old(rgba)@ + seq![r, g, b, 255u8],
{
    rgba.push(r);
    rgba.push(g);
    rgba.push(b);
    rgba.push(255);
    assert(rgba@ =~= old(rgba)@ + seq![r, g, b, 255u8]);
}

} // verus!
