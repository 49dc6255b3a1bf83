//! The `image` crate at the edge of the engine: reading an encoded image
//! into pixels, scaling pixels, and writing pixels out in a format.

use crate::ops::OutputFormat;
use crate::ops::SampleFilter;
use crate::raw::bytes_content;
use bytes::Bytes;
use image::ImageError;
use vstd::prelude::*;

verus! {

/// `image::ImageError`, declared so that a wrapper can hand it back.
#[verifier::external_type_specification]
#[verifier::external_body]
pub struct ExImageError(ImageError);

/// What the `image` crate reads out of `data` when no side of the image may
/// be longer than `max_side`: width, height and RGBA bytes, or `None` where
/// it reports an error. One name for the whole chain of calls that reads an
/// image: the format guessed, `image::io::Reader::decode`, and
/// `DynamicImage::into_rgba8`. PNG and JPEG are read in integer arithmetic;
/// the JPEG decoder is built with `platform_independent`, which leaves out
/// the code that differs from one processor to the next.
pub uninterp spec fn decoded(data: Seq<u8>, max_side: u32) -> Option<(u32, u32, Seq<u8>)>;

/// The RGBA bytes that `image::imageops::resize` gives for an image of
/// `width` by `height` pixels scaled to `new_width` by `new_height`, for an
/// interpolation that is plain arithmetic. Of the other interpolations the
/// name says nothing.
pub uninterp spec fn resized(
    width: u32,
    height: u32,
    pixels: Seq<u8>,
    new_width: u32,
    new_height: u32,
    filter: SampleFilter,
) -> Seq<u8>;

/// What `image::write_buffer_with_format` writes for an RGBA image of
/// `width` by `height` pixels; `None` where it reports an error.
pub uninterp spec fn encoded(width: u32, height: u32, pixels: Seq<u8>, format: OutputFormat)
    -> Option<Seq<u8>>;

/// `image::io::Reader::decode` on bytes in memory, with the format guessed
/// from the data and the reader's limits on width and height set to
/// `max_side`; then `DynamicImage::into_rgba8` and the buffer's width,
/// height and bytes. The bound keeps the RGBA buffer of any image that
/// passes the limits within what the machine can address. Nothing is
/// claimed of the size of what comes back: the caller checks it.
#[verifier::external_body]
pub(crate) fn decode(raw: &Bytes, max_side: u32) -> (image: Result<
    (u32, u32, Vec<u8>),
    ImageError,
>)
    requires
        4 * (max_side * max_side) <= isize::MAX,
    ensures
        match image {
            Ok((width, height, pixels)) => decoded(bytes_content(*raw), max_side) == Some(
                (width, height, pixels@),
            ),
            Err(_) => decoded(bytes_content(*raw), max_side) is None,
        },
{
    let mut reader = image::io::Reader::new(std::io::Cursor::new(&raw[..])).with_guessed_format()?;
    let mut limits = image::io::Limits::default();
    limits.max_image_width = Some(max_side);
    limits.max_image_height = Some(max_side);
    reader.limits(limits);
    let rgba = reader.decode()?.into_rgba8();
    Ok((rgba.width(), rgba.height(), rgba.into_raw()))
}

/// `image::imageops::resize` on an RGBA buffer. The result has four bytes
/// for each pixel of the new size: the function allocates exactly that.
/// Its pixels are named for the interpolations that are plain arithmetic
/// and for no other. The bounds keep the two buffers that the function
/// allocates, one of floats of the old width and the new height and one of
/// bytes of the new size, within what the machine can address, and the
/// source non-empty, as its sampling loops need.
#[verifier::external_body]
pub(crate) fn resize(
    width: u32,
    height: u32,
    pixels: Vec<u8>,
    new_width: u32,
    new_height: u32,
    filter: SampleFilter,
) -> (scaled: Vec<u8>)
    requires
        1 <= width,
        1 <= height,
        1 <= new_width,
        1 <= new_height,
        pixels@.len() == width * height * 4,
        16 * (width * new_height) <= isize::MAX,
        4 * (new_width * new_height) <= isize::MAX,
    ensures
        scaled@.len() == new_width * new_height * 4,
        filter.plain() ==> scaled@ == resized(
            width,
            height,
            pixels@,
            new_width,
            new_height,
            filter,
        ),
{
    let kernel = match filter {
        SampleFilter::Nearest => image::imageops::FilterType::Nearest,
        SampleFilter::Triangle => image::imageops::FilterType::Triangle,
        SampleFilter::CatmullRom => image::imageops::FilterType::CatmullRom,
        SampleFilter::Gaussian => image::imageops::FilterType::Gaussian,
        SampleFilter::Lanczos3 => image::imageops::FilterType::Lanczos3,
    };
    let source = image::RgbaImage::from_raw(width, height, pixels).unwrap();
    image::imageops::resize(&source, new_width, new_height, kernel).into_raw()
}

/// `image::write_buffer_with_format` into a buffer in memory, for RGBA
/// pixels. The length of `pixels` must match the size, or the encoders
/// panic. A size that a format cannot hold is an error of the encoder.
#[verifier::external_body]
pub(crate) fn encode(width: u32, height: u32, pixels: &Vec<u8>, format: OutputFormat) -> (out:
    Result<Vec<u8>, ImageError>)
    requires
        1 <= width,
        1 <= height,
        pixels@.len() == width * height * 4,
    ensures
        match out {
            Ok(bytes) => encoded(width, height, pixels@, format) == Some(bytes@),
            Err(_) => encoded(width, height, pixels@, format) is None,
        },
{
    let target = match format {
        OutputFormat::Jpeg(quality) => image::ImageOutputFormat::Jpeg(quality),
        OutputFormat::Png => image::ImageOutputFormat::Png,
    };
    let mut out = std::io::Cursor::new(Vec::new());
    image::write_buffer_with_format(&mut out, pixels, width, height, image::ColorType::Rgba8, target)?;
    Ok(out.into_inner())
}

} // verus!
