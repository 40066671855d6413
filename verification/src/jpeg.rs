//! JPEG pictures of RGBA frames.

use vstd::prelude::*;

use crate::text::decimal;

verus! {

/// The bytes of a picture without its alpha channel.
pub open spec fn without_alpha(rgba: Seq<u8>, pixels: nat) -> Seq<u8> {
    Seq::new(pixels * 3, |i: int| rgba[(i / 3) * 4 + i % 3])
}

/// A buffer of `len` bytes holds a picture of this size, four bytes per pixel; the width alone
/// must not overflow an index either.
pub open spec fn holds_picture(width: u32, height: u32, len: nat) -> bool {
    &&& 4 * width <= usize::MAX
    &&& 4 * width * height <= len
}

/// The file format records sides from one to 65535 pixels.
pub open spec fn side_fits(side: u32) -> bool {
    1 <= side <= 65535
}

/// What the encoder says of a picture whose size the format cannot record.
pub open spec fn size_complaint(width: u32, height: u32) -> Seq<char> {
    "Format error encoding Jpeg:\nInvalid image size ("@ + decimal(width as nat) + " x "@ + decimal(
        height as nat,
    ) + ") to encode as JPEG: width and height must be >= 1 and <= 65535"@
}

/// The JPEG file that `image::codecs::jpeg::JpegEncoder` makes of an RGB picture.
pub uninterp spec fn jpeg_file(rgb: Seq<u8>, width: u32, height: u32, quality: u8) -> Seq<u8>;

/// Takes the alpha channel away with `image::RgbaImage::from_raw` and
/// `image::DynamicImage::to_rgb8`.
///
/// Claimed of them: `from_raw` accepts a buffer that is long enough for the picture, where it
/// checks `4 * width` and the whole size for overflow, and ignores what the buffer holds beyond it;
/// `to_rgb8` copies red, green and blue of every pixel as they are.
#[verifier::external_body]
pub(crate) fn to_rgb(width: u32, height: u32, rgba: Vec<u8>) -> (r: Option<Vec<u8>>)
    ensures
        r is Some <==> holds_picture(width, height, rgba@.len()),
        r is Some ==> r->0@ == without_alpha(rgba@, width as nat * height as nat),
{
    let image = image::RgbaImage::from_raw(width, height, rgba)?;
    Some(image::DynamicImage::ImageRgba8(image).to_rgb8().into_raw())
}

/// Encodes an RGB picture with `image::codecs::jpeg::JpegEncoder`: `new_with_quality` and `encode`
/// for three bytes per pixel, into memory.
///
/// Claimed of it: it fails only for a side that the format cannot record, with the given text, as
/// memory takes every write; otherwise the file is a function of the picture, its size and the
/// quality.  It panics when the buffer does not have the length of the picture, and
/// when the bytes of one row cannot be counted.
#[verifier::external_body]
pub(crate) fn encode(
    width: u32,
    height: u32,
    rgb: &[u8],
    quality: u8,
) -> (r: Result<Vec<u8>, String>)
    requires
        3 * width <= usize::MAX,
        rgb@.len() == width * height * 3,
    ensures
        r is Ok == (side_fits(width) && side_fits(height)),
        r is Ok ==> r->Ok_0@ == jpeg_file(rgb@, width, height, quality),
        r is Err ==> r->Err_0@ == size_complaint(width, height),
{
    let mut file = std::io::Cursor::new(Vec::new());
    image::codecs::jpeg::JpegEncoder::new_with_quality(&mut file, quality)
        .encode(rgb, width, height, image::ExtendedColorType::Rgb8)
        .map_err(|error| error.to_string())?;
    Ok(file.into_inner())
}

} // verus!
