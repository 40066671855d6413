//! Conversion of planar YUV 4:2:0 pictures to RGBA.
//!
//! The colour coefficients are single-precision numbers and every product and sum is rounded to
//! single precision, so intermediate values are carried as integers counting units of 2^-25 and
//! rounded with [`crate::single::round`].

use vstd::arithmetic::power2::{lemma2_to64, pow2};
use vstd::prelude::*;

use crate::raster::{push_pixel, raster, raster_grows, raster_part};
use crate::single::{
    is_nearest_single_to, nearest, round, rounding_error, rounding_is_bounded, rounding_is_symmetric,
    scaled_significand_is_fixed, spacing_bounds,
};

verus! {

/// Number of units in one intensity level.
pub const ONE: i64 = 0x200_0000;

/// Weight of V in red, 1.402 in single precision.
pub const RED_V: i64 = 47043312;

/// Weight of U in green, 0.344 in single precision.
pub const GREEN_U: i64 = 11542725;

/// Weight of V in green, 0.714 in single precision.
pub const GREEN_V: i64 = 23957864;

/// Weight of U in blue, 1.772 in single precision.
pub const BLUE_U: i64 = 59458452;

/// Stands for a sample that lies outside its plane.
pub const MISSING_SAMPLE: u8 = 128;

/// The whole intensity levels in `x`, limited to what a byte holds.
pub open spec fn level(x: int) -> u8 {
    if x <= 0 {
        0
    } else if x >= 255 * ONE {
        255
    } else {
        (x / (ONE as int)) as u8
    }
}

/// Red intensity of a pixel.
pub open spec fn red(y: u8, v: u8) -> u8 {
    level(nearest(y * ONE + nearest(RED_V * (v - 128))))
}

/// Green intensity of a pixel.
pub open spec fn green(y: u8, u: u8, v: u8) -> u8 {
    level(nearest(nearest(y * ONE - nearest(GREEN_U * (u - 128))) - nearest(GREEN_V * (v - 128))))
}

/// Blue intensity of a pixel.
pub open spec fn blue(y: u8, u: u8) -> u8 {
    level(nearest(y * ONE + nearest(BLUE_U * (u - 128))))
}

/// The four bytes of an opaque pixel.
pub open spec fn pixel(y: u8, u: u8, v: u8) -> Seq<u8> {
    seq![red(y, v), green(y, u, v), blue(y, u), 255u8]
}

/// The sample at position `i` of a plane.
pub open spec fn sample(plane: Seq<u8>, i: int) -> u8 {
    if i < plane.len() {
        plane[i]
    } else {
        MISSING_SAMPLE
    }
}

/// The pixel in row `row` and column `col`; two by two pixels share one pair of chroma samples.
pub open spec fn pixel_at(
    y_plane: Seq<u8>,
    u_plane: Seq<u8>,
    v_plane: Seq<u8>,
    y_stride: int,
    uv_stride: int,
    row: int,
    col: int,
) -> Seq<u8> {
    let chroma = (row / 2) * uv_stride + col / 2;
    pixel(
        sample(y_plane, row * y_stride + col),
        sample(u_plane, chroma),
        sample(v_plane, chroma),
    )
}

/// The whole picture, row by row, four bytes per pixel.
pub open spec fn picture(
    y_plane: Seq<u8>,
    u_plane: Seq<u8>,
    v_plane: Seq<u8>,
    width: nat,
    height: nat,
    y_stride: int,
    uv_stride: int,
) -> Seq<u8> {
    raster(
        width,
        height,
        |row: int, col: int|
            pixel_at(y_plane, u_plane, v_plane, y_stride, uv_stride, row, col),
    )
}

/// The size of the result and all positions in the planes can be computed in 32 bits.
pub open spec fn addressable(width: u32, height: u32, y_stride: u32, uv_stride: u32) -> bool {
    &&& width * height * 4 <= u32::MAX
    &&& width > 0 && height > 0 ==> {
        &&& (height - 1) * y_stride + (width - 1) <= u32::MAX
        &&& ((height - 1) / 2) * uv_stride + (width - 1) / 2 <= u32::MAX
    }
}

/// Computes the whole intensity levels in `x`.
fn to_level(x: i64) -> (r: u8)
    ensures
        r == level(x as int),
{
    if x <= 0 {
        0
    } else if x >= 255 * ONE {
        255
    } else {
        (x / ONE) as u8
    }
}

/// Looks up a sample of a plane.
fn sample_at(plane: &[u8], i: usize) -> (r: u8)
    ensures
        r == sample(plane@, i as int),
{
    if i < plane.len() {
        plane[i]
    } else {
        MISSING_SAMPLE
    }
}

/// Converts one pixel.
pub fn convert_pixel(y: u8, u: u8, v: u8) -> (r: (u8, u8, u8))
    ensures
        r == (red(y, v), green(y, u, v), blue(y, u)),
{
    let luma: i64 = y as i64 * ONE;
    let du: i64 = u as i64 - 128;
    let dv: i64 = v as i64 - 128;
    proof {
        rounding_is_bounded(RED_V * dv);
        rounding_is_bounded(GREEN_U * du);
        rounding_is_bounded(GREEN_V * dv);
        rounding_is_bounded(BLUE_U * du);
        rounding_is_bounded(luma - nearest(GREEN_U * du));
    }
    let r: i64 = round(luma + round(RED_V * dv));
    let g: i64 = round(round(luma - round(GREEN_U * du)) - round(GREEN_V * dv));
    let b: i64 = round(luma + round(BLUE_U * du));
    (to_level(r), to_level(g), to_level(b))
}

/// Converts a YUV_420_888 picture to RGBA.
///
/// A sample that its plane does not reach counts as 128.
pub fn yuv420_to_rgba(
    y_plane: &[u8],
    u_plane: &[u8],
    v_plane: &[u8],
    width: u32,
    height: u32,
    y_stride: u32,
    uv_stride: u32,
) -> (rgba: Vec<u8>)
    requires
        addressable(width, height, y_stride, uv_stride),
    ensures
        rgba@ == picture(
            y_plane@,
            u_plane@,
            v_plane@,
            width as nat,
            height as nat,
            y_stride as int,
            uv_stride as int,
        ),
{
    let ghost pixels = |row: int, col: int|
        pixel_at(y_plane@, u_plane@, v_plane@, y_stride as int, uv_stride as int, row, col);
    let ghost whole = raster(width as nat, height as nat, pixels);
    let mut rgba: Vec<u8> = Vec::with_capacity((width * height * 4) as usize);
    let mut row: u32 = 0;
    while row < height
        invariant
            row <= height,
            addressable(width, height, y_stride, uv_stride),
            pixels == (|row: int, col: int|
                pixel_at(y_plane@, u_plane@, v_plane@, y_stride as int, uv_stride as int, row, col)),
            whole == raster(width as nat, height as nat, pixels),
            rgba@.len() == row * width * 4,
            rgba@.len() <= whole.len(),
            rgba@ == whole.take(rgba@.len() as int),
        decreases height - row,
    {
        let mut col: u32 = 0;
        while col < width
            invariant
                row < height,
                col <= width,
                addressable(width, height, y_stride, uv_stride),
                pixels == (|row: int, col: int|
                    pixel_at(
                        y_plane@,
                        u_plane@,
                        v_plane@,
                        y_stride as int,
                        uv_stride as int,
                        row,
                        col,
                    )),
                whole == raster(width as nat, height as nat, pixels),
                rgba@.len() == (row * width + col) * 4,
                rgba@.len() <= whole.len(),
                rgba@ == whole.take(rgba@.len() as int),
            decreases width - col,
        {
            let (r, g, b) = pixel_from_planes(
                y_plane,
                u_plane,
                v_plane,
                width,
                height,
                y_stride,
                uv_stride,
                row,
                col,
            );
            proof {
                assert(pixels(row as int, col as int) == seq![r, g, b, 255u8]);
                raster_grows(width as nat, height as nat, pixels, row as int, col as int, rgba@);
            }
            push_pixel(&mut rgba, r, g, b);
            col = col + 1;
        }
        assert((row + 1) * width * 4 == (row * width + width) * 4) by (nonlinear_arith);
        row = row + 1;
    }
    assert(rgba@.len() == whole.len()) by {
        assert(height * width == width * height) by (nonlinear_arith);
    }
    assert(rgba@ =~= whole);
    rgba
}

/// Converts the pixel in row `row` and column `col`.
fn pixel_from_planes(
    y_plane: &[u8],
    u_plane: &[u8],
    v_plane: &[u8],
    width: u32,
    height: u32,
    y_stride: u32,
    uv_stride: u32,
    row: u32,
    col: u32,
) -> (r: (u8, u8, u8))
    requires
        addressable(width, height, y_stride, uv_stride),
        row < height,
        col < width,
    ensures
        pixel_at(
            y_plane@,
            u_plane@,
            v_plane@,
            y_stride as int,
            uv_stride as int,
            row as int,
            col as int,
        ) == seq![r.0, r.1, r.2, 255u8],
{
    proof {
        lemma_positions(width, height, y_stride, uv_stride, row, col);
    }
    let y: u8 = sample_at(y_plane, (row * y_stride + col) as usize);
    let chroma: usize = ((row / 2) * uv_stride + col / 2) as usize;
    let u: u8 = sample_at(u_plane, chroma);
    let v: u8 = sample_at(v_plane, chroma);
    convert_pixel(y, u, v)
}

/// Positions of one pixel of an addressable picture.
proof fn lemma_positions(
    width: u32,
    height: u32,
    y_stride: u32,
    uv_stride: u32,
    row: u32,
    col: u32,
)
    requires
        addressable(width, height, y_stride, uv_stride),
        row < height,
        col < width,
    ensures
        row * y_stride + col <= u32::MAX,
        0 <= row * y_stride <= u32::MAX,
        (row / 2) * uv_stride + col / 2 <= u32::MAX,
        0 <= (row / 2) * uv_stride <= u32::MAX,
{
    assert(0 <= row * y_stride <= (height - 1) * y_stride) by (nonlinear_arith)
        requires
            0 <= row <= height - 1,
            0 <= y_stride,
    ;
    let half: int = (row / 2) as int;
    let most: int = (height - 1) / 2;
    assert(0 <= half * uv_stride <= most * uv_stride) by (nonlinear_arith)
        requires
            0 <= half <= most,
            0 <= uv_stride,
    ;
}

/// A picture has four bytes for each pixel, row by row, and every pixel is opaque.
pub proof fn picture_shows_every_pixel(
    y_plane: Seq<u8>,
    u_plane: Seq<u8>,
    v_plane: Seq<u8>,
    width: nat,
    height: nat,
    y_stride: int,
    uv_stride: int,
    row: int,
    col: int,
)
    requires
        0 <= row < height,
        0 <= col < width,
    ensures
        ({
            let whole = picture(y_plane, u_plane, v_plane, width, height, y_stride, uv_stride);
            let at = (row * width + col) * 4;
            &&& whole.len() == width * height * 4
            &&& 0 <= at && at + 4 <= whole.len()
            &&& whole.subrange(at, at + 4) == pixel_at(
                y_plane,
                u_plane,
                v_plane,
                y_stride,
                uv_stride,
                row,
                col,
            )
            &&& whole[at + 3] == 255
        }),
{
    let pixels = |row: int, col: int|
        pixel_at(y_plane, u_plane, v_plane, y_stride, uv_stride, row, col);
    let at = (row * width + col) * 4;
    raster_part(width, height, pixels, row, col, at);
    let part = raster(width, height, pixels).subrange(at, at + 4);
    assert(part[3] == pixels(row, col)[3]);
}

/// With neutral chroma every pixel is gray and as bright as its luma sample.
pub proof fn neutral_chroma_is_gray(y: u8)
    ensures
        pixel(y, 128, 128) == seq![y, y, y, 255u8],
{
    lemma2_to64();
    rounding_is_bounded(0);
    assert(pow2(25) == ONE);
    scaled_significand_is_fixed(0, 0);
    scaled_significand_is_fixed(y as nat, 25);
    assert(nearest(y * ONE) == y * ONE);
    assert(nearest(0) == 0);
    assert(pixel(y, 128, 128) =~= seq![y, y, y, 255u8]);
}

/// A whole number of levels, limited to what a byte holds.
pub open spec fn clamped(x: int) -> u8 {
    if x <= 0 {
        0
    } else if x >= 255 {
        255
    } else {
        x as u8
    }
}

/// Rounding moves a number of the size that occurs here by at most 1024 units.
proof fn lemma_small_error(x: int)
    requires
        -0x4_0000_0000 <= x <= 0x4_0000_0000,
    ensures
        -1024 <= nearest(x) - x <= 1024,
{
    let a = if x < 0 {
        (-x) as nat
    } else {
        x as nat
    };
    spacing_bounds(a);
    rounding_error(a);
}

/// Units that are close to `thousandths` thousandths of a level, but not too close to a whole
/// level, have as many whole levels.
proof fn lemma_levels(units: int, thousandths: int)
    requires
        -10_000_000 <= 1000 * units - ONE * thousandths <= 10_000_000,
        thousandths % 1000 != 0,
    ensures
        level(units) == clamped(thousandths / 1000),
{
    let q = thousandths / 1000;
    let rest = thousandths % 1000;
    let over = units - ONE * q;
    assert(1 <= rest <= 999);
    assert(1000 * over == 1000 * units - ONE * thousandths + ONE * rest);
    assert(0 < over < ONE);
    vstd::arithmetic::div_mod::lemma_fundamental_div_mod_converse(
        units,
        ONE as int,
        q,
        units - ONE * q,
    );
}

/// Red is the luma plus 1.402 times the difference of V from 128, without the fraction and limited
/// to a byte: no rounding error shows.
pub proof fn red_is_exact(y: u8, v: u8)
    ensures
        red(y, v) == clamped((1000 * y + 1402 * (v - 128)) / 1000),
        ({
            let thousandths = 1000 * y + 1402 * (v - 128);
            &&& thousandths < 0 ==> red(y, v) == 0
            &&& thousandths >= 255_000 ==> red(y, v) == 255
            &&& 0 <= thousandths < 255_000 ==> 1000 * red(y, v) <= thousandths < 1000 * (red(y, v)
                + 1)
        }),
{
    if v == 128 {
        neutral_chroma_is_gray(y);
        assert(red(y, 128) == pixel(y, 128, 128)[0]);
    } else {
        let product = nearest(RED_V * (v - 128));
        lemma_small_error(RED_V * (v - 128));
        lemma_small_error(y * ONE + product);
        lemma_levels(nearest(y * ONE + product), 1000 * y + 1402 * (v - 128));
    }
}

/// Blue is the luma plus 1.772 times the difference of U from 128, without the fraction and limited
/// to a byte: no rounding error shows.
pub proof fn blue_is_exact(y: u8, u: u8)
    ensures
        blue(y, u) == clamped((1000 * y + 1772 * (u - 128)) / 1000),
        ({
            let thousandths = 1000 * y + 1772 * (u - 128);
            &&& thousandths < 0 ==> blue(y, u) == 0
            &&& thousandths >= 255_000 ==> blue(y, u) == 255
            &&& 0 <= thousandths < 255_000 ==> 1000 * blue(y, u) <= thousandths < 1000 * (blue(y, u)
                + 1)
        }),
{
    if u == 128 {
        neutral_chroma_is_gray(y);
        assert(blue(y, 128) == pixel(y, 128, 128)[2]);
    } else {
        let product = nearest(BLUE_U * (u - 128));
        lemma_small_error(BLUE_U * (u - 128));
        lemma_small_error(y * ONE + product);
        lemma_levels(nearest(y * ONE + product), 1000 * y + 1772 * (u - 128));
    }
}

/// Green is the luma less 0.344 times the difference of U and 0.714 times that of V from 128,
/// without the fraction and limited to a byte.  Where this is a whole number, rounding errors can
/// make it the next lower one.
pub proof fn green_is_nearly_exact(y: u8, u: u8, v: u8)
    ensures
        ({
            let exact = 1000 * y - 344 * (u - 128) - 714 * (v - 128);
            ||| green(y, u, v) == clamped(exact / 1000)
            ||| exact % 1000 == 0 && green(y, u, v) == clamped(exact / 1000 - 1)
        }),
{
    let exact = 1000 * y - 344 * (u - 128) - 714 * (v - 128);
    let from_u = nearest(GREEN_U * (u - 128));
    let from_v = nearest(GREEN_V * (v - 128));
    let partial = nearest(y * ONE - from_u);
    let units = nearest(partial - from_v);
    lemma_small_error(GREEN_U * (u - 128));
    lemma_small_error(GREEN_V * (v - 128));
    lemma_small_error(y * ONE - from_u);
    lemma_small_error(partial - from_v);
    if exact % 1000 != 0 {
        lemma_levels(units, exact);
    } else {
        let q = exact / 1000;
        assert(exact == 1000 * q);
        assert(ONE * (q - 1) < units < ONE * (q + 1));
        let whole = if units < ONE * q {
            q - 1
        } else {
            q
        };
        vstd::arithmetic::div_mod::lemma_fundamental_div_mod_converse(
            units,
            ONE as int,
            whole,
            units - ONE * whole,
        );
    }
}

/// Green is computed in single precision: the two products are rounded, and so is each of the two
/// differences.  A level is 2^25 units, of which 0.344 is 11542725 and 0.714 is 23957864.
pub proof fn green_is_rounded_step_by_step(
    y: u8,
    u: u8,
    v: u8,
    from_u: int,
    from_v: int,
    partial: int,
    units: int,
)
    requires
        is_nearest_single_to(11542725 * (u - 128), from_u),
        is_nearest_single_to(23957864 * (v - 128), from_v),
        is_nearest_single_to(y * 0x200_0000 - from_u, partial),
        is_nearest_single_to(partial - from_v, units),
    ensures
        units <= 0 ==> green(y, u, v) == 0,
        units >= 255 * 0x200_0000 ==> green(y, u, v) == 255,
        0 < units < 255 * 0x200_0000 ==> green(y, u, v) * 0x200_0000 <= units < (green(y, u, v) + 1)
            * 0x200_0000,
{
    rounding_is_symmetric(11542725 * (u - 128), from_u);
    rounding_is_symmetric(23957864 * (v - 128), from_v);
    rounding_is_symmetric(y * 0x200_0000 - from_u, partial);
    rounding_is_symmetric(partial - from_v, units);
}

/// The pixel in row `row` and column `col` takes its luma from that row and column of the first
/// plane, its chroma from half the row and half the column of the others, and 128 from beyond the
/// end of a plane.
pub proof fn pixels_come_from_their_places(
    y_plane: Seq<u8>,
    u_plane: Seq<u8>,
    v_plane: Seq<u8>,
    width: nat,
    height: nat,
    y_stride: int,
    uv_stride: int,
    row: int,
    col: int,
    y: u8,
    u: u8,
    v: u8,
)
    requires
        0 <= row < height,
        0 <= col < width,
        y == if row * y_stride + col < y_plane.len() {
            y_plane[row * y_stride + col]
        } else {
            128
        },
        u == if (row / 2) * uv_stride + col / 2 < u_plane.len() {
            u_plane[(row / 2) * uv_stride + col / 2]
        } else {
            128
        },
        v == if (row / 2) * uv_stride + col / 2 < v_plane.len() {
            v_plane[(row / 2) * uv_stride + col / 2]
        } else {
            128
        },
    ensures
        ({
            let whole = picture(y_plane, u_plane, v_plane, width, height, y_stride, uv_stride);
            let at = (row * width + col) * 4;
            &&& whole.len() == width * height * 4
            &&& 0 <= at && at + 4 <= whole.len()
            &&& whole.subrange(at, at + 4) == seq![red(y, v), green(y, u, v), blue(y, u), 255u8]
        }),
{
    picture_shows_every_pixel(
        y_plane,
        u_plane,
        v_plane,
        width,
        height,
        y_stride,
        uv_stride,
        row,
        col,
    );
}

/// The picture has no other bytes than those of its pixels.
pub proof fn pictures_are_as_large_as_they_say(
    y_plane: Seq<u8>,
    u_plane: Seq<u8>,
    v_plane: Seq<u8>,
    width: nat,
    height: nat,
    y_stride: int,
    uv_stride: int,
)
    ensures
        picture(y_plane, u_plane, v_plane, width, height, y_stride, uv_stride).len() == width * height
            * 4,
{
}

} // verus!
