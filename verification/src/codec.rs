//! The calls into the `image` crate: resampling and JPEG encoding. Verus
//! takes the contracts in this file on trust; each says what the crate's
//! source shows of the function it wraps.

use vstd::prelude::*;

verus! {

/// `image::ImageError`, carried through as an opaque value.
#[verifier::external_type_specification]
#[verifier::external_body]
pub struct ExImageError(image::ImageError);

/// The JPEG byte stream that the `image` crate's encoder writes for an RGB
/// buffer of the given dimensions.
pub uninterp spec fn jpeg_stream(data: Seq<u8>, width: nat, height: nat) -> Seq<u8>;

/// The longest side that an image is resampled to. The resampler places its
/// pixels in `f32`, which holds every coordinate up to here exactly.
pub const MAX_SIDE: usize = 0x80_0000;

/// `image::imageops::resize` with the Lanczos3 filter, on an RGB buffer.
///
/// Trusted: the result holds three bytes for each pixel of the new
/// dimensions, and when the new dimensions equal the old ones the crate
/// copies the image instead of resampling it. Nothing is claimed of the
/// resampled values themselves: they come out of floating-point arithmetic
/// whose sine is only as exact as the platform makes it.
#[verifier::external_body]
pub(crate) fn resample(
    data: &Vec<u8>,
    width: u32,
    height: u32,
    new_width: u32,
    new_height: u32,
) -> (out: Vec<u8>)
    requires
        data@.len() == 3 * (width * height),
        width <= new_width,
        height <= new_height,
        new_width <= MAX_SIDE,
        new_height <= MAX_SIDE,
        4 * (new_width * new_height) <= usize::MAX,
    ensures
        out@.len() == 3 * (new_width * new_height),
        new_width == width && new_height == height ==> out@ == data@,
{
    let base = image::ImageBuffer::<image::Rgb<u8>, &[u8]>::from_raw(width, height, data.as_slice())
        .expect("the buffer holds every pixel");
    image::imageops::resize(&base, new_width, new_height, image::imageops::FilterType::Lanczos3)
        .into_raw()
}

/// `ImageBuffer::write_to` with `ImageFormat::Jpeg`, into a buffer in memory.
///
/// Trusted: a stream that comes back is the encoder's stream for this image.
/// The encoder refuses an image with a side of zero or of more than 65535
/// pixels and takes every other: its only other failures are those of the
/// sink, and the sink here is a buffer in memory.
#[verifier::external_body]
pub(crate) fn jpeg_write(data: &Vec<u8>, width: u32, height: u32) -> (out: Result<
    Vec<u8>,
    image::ImageError,
>)
    requires
        data@.len() == 3 * (width * height),
    ensures
        out is Ok ==> out->Ok_0@ == jpeg_stream(data@, width as nat, height as nat),
        width == 0 || height == 0 || width > 65535 || height > 65535 ==> out is Err,
        1 <= width <= 65535 && 1 <= height <= 65535 ==> out is Ok,
{
    let mut sink = std::io::Cursor::new(Vec::new());
    let written = image::ImageBuffer::<image::Rgb<u8>, &[u8]>::from_raw(
        width,
        height,
        data.as_slice(),
    ).expect("the buffer holds every pixel").write_to(&mut sink, image::ImageFormat::Jpeg);
    match written {
        Ok(()) => Ok(sink.into_inner()),
        Err(e) => Err(e),
    }
}

} // verus!
