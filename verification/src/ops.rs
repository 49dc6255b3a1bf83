//! The operations that a request can ask for, as they come out of the
//! decoder of the path segment: plain values, applied strictly in order.

use vstd::prelude::*;

verus! {

/// How `Resize` interpolates.
#[derive(Clone, Copy, Debug, PartialEq, Eq, Structural)]
pub enum SampleFilter {
    Nearest,
    Triangle,
    CatmullRom,
    Gaussian,
    Lanczos3,
}

impl SampleFilter {
    /// Whether the interpolation is plain arithmetic, so that its result is
    /// the same wherever it is computed. The other kernels call `sin`, `exp`
    /// or `powi`, whose last digit is the machine's.
    pub open spec fn plain(self) -> bool {
        self is Nearest || self is Triangle
    }
}

/// Scale the image to exactly `width` by `height` pixels.
#[derive(Clone, Copy, Debug, PartialEq, Eq, Structural)]
pub struct Resize {
    pub width: u32,
    pub height: u32,
    pub filter: SampleFilter,
}

/// Keep the rectangle from `(x1, y1)` up to, not including, `(x2, y2)`,
/// clipped to the image.
#[derive(Clone, Copy, Debug, PartialEq, Eq, Structural)]
pub struct Crop {
    pub x1: u32,
    pub y1: u32,
    pub x2: u32,
    pub y2: u32,
}

/// Mirror the image left to right.
#[derive(Clone, Copy, Debug, PartialEq, Eq, Structural)]
pub struct Fliph {}

/// Mirror the image top to bottom.
#[derive(Clone, Copy, Debug, PartialEq, Eq, Structural)]
pub struct Flipv {}

/// Stretch (`amount` above zero) or flatten (below zero) the distance of
/// each colour value from the middle grey, in percent.
#[derive(Clone, Copy, Debug, PartialEq, Eq, Structural)]
pub struct Contrast {
    pub amount: i32,
}

/// A preset tint.
#[derive(Clone, Copy, Debug, PartialEq, Eq, Structural)]
pub enum Filter {
    /// Leaves the image as it is.
    Unspecified,
    Oceanic,
    Islands,
    Marine,
}

/// An image to lay over another: RGBA bytes, row by row from the top.
#[derive(Debug, PartialEq, Eq)]
pub struct Stamp {
    pub width: u32,
    pub height: u32,
    pub pixels: Vec<u8>,
}

impl Clone for Stamp {
    fn clone(&self) -> (copy: Stamp)
        ensures
            copy.width == self.width,
            copy.height == self.height,
            copy.pixels@ == self.pixels@,
    {
        Stamp { width: self.width, height: self.height, pixels: self.pixels.clone() }
    }
}

/// Lay `stamp` over the image with its top left corner at `(x, y)`. What
/// falls outside the image is left out.
#[derive(Debug, PartialEq, Eq)]
pub struct Watermark {
    pub x: u32,
    pub y: u32,
    pub stamp: Stamp,
}

/// One operation of a request.
#[derive(Debug, PartialEq, Eq)]
pub enum Spec {
    Resize(Resize),
    Crop(Crop),
    Flipv(Flipv),
    Fliph(Fliph),
    Contrast(Contrast),
    Filter(Filter),
    Watermark(Watermark),
    /// An operation that the decoder met and this library does not know.
    /// No image admits it.
    Unknown,
}

/// The format in which a result is written.
#[derive(Clone, Copy, Debug, PartialEq, Eq, Structural)]
pub enum OutputFormat {
    /// JPEG at the given quality, which the encoder brings into 1..=100.
    Jpeg(u8),
    /// PNG, which loses nothing.
    Png,
}

impl OutputFormat {
    /// The format of a response when the request names none.
    pub open spec fn standard() -> OutputFormat {
        OutputFormat::Jpeg(85)
    }

    /// The media type that announces this format.
    pub open spec fn media_type(self) -> Seq<char> {
        match self {
            OutputFormat::Jpeg(_) => "image/jpeg"@,
            OutputFormat::Png => "image/png"@,
        }
    }

    /// The media type that announces this format.
    pub fn content_type(self) -> (text: &'static str)
        ensures
            text@ == self.media_type(),
    {
        match self {
            OutputFormat::Jpeg(_) => "image/jpeg",
            OutputFormat::Png => "image/png",
        }
    }
}

} // verus!
