//! An engine that keeps the image as RGBA bytes, does the pixel-moving
//! operations itself and leaves decoding, scaling and encoding to the
//! `image` crate.

use crate::codec::decode;
use crate::codec::decoded;
use crate::codec::encode;
use crate::codec::resize;
use crate::engine::Engine;
use crate::engine::SpecTransform;
use crate::error::Error;
use crate::ops::Contrast;
use crate::ops::Crop;
use crate::ops::Filter;
use crate::ops::Fliph;
use crate::ops::Flipv;
use crate::ops::OutputFormat;
use crate::ops::Resize;
use crate::ops::Spec;
use crate::ops::Stamp;
use crate::ops::Watermark;
use crate::picture::admits;
use crate::picture::admitted;
use crate::picture::blended;
use crate::picture::contrasted;
use crate::picture::contrasted_value;
use crate::picture::cropped;
use crate::picture::filtered;
use crate::picture::flipped_h;
use crate::picture::flipped_v;
use crate::picture::lemma_admitted_take;
use crate::picture::four_each;
use crate::picture::leads;
use crate::picture::lemma_empty_passes_through;
use crate::picture::lemma_leads_push;
use crate::picture::lemma_leads_shape;
use crate::picture::makes;
use crate::picture::side_limit;
use crate::picture::picture_of;
use crate::picture::stamp_wf;
use crate::picture::stamped;
use crate::picture::validate;
use crate::picture::tint;
use crate::picture::Picture;
use crate::raw::bytes_content;
use bytes::Bytes;
use vstd::prelude::*;

verus! {

/// The engine: an image of `width` by `height` pixels, four bytes each.
pub struct Photon {
    width: u32,
    height: u32,
    pixels: Vec<u8>,
}

impl View for Photon {
    type V = Picture;

    closed spec fn view(&self) -> Picture {
        Picture { width: self.width as nat, height: self.height as nat, pixels: self.pixels@ }
    }
}

/// A colour value under a stamp's.
fn blend(under: u8, over: u8, alpha: u8) -> (r: u8)
    ensures
        r == blended(under, over, alpha),
{
    assert(over * alpha + under * (255 - alpha) <= 255 * 255) by (nonlinear_arith)
        requires
            0 <= over <= 255,
            0 <= under <= 255,
            0 <= alpha <= 255,
    ;
    let mixed: u32 = (over as u32) * (alpha as u32) + (under as u32) * (255 - alpha as u32);
    (mixed / 255) as u8
}

/// A pixel inside an image has its bytes inside the image's buffer.
proof fn lemma_pixel_inside(x: int, y: int, width: int, height: int)
    requires
        0 <= x < width,
        0 <= y < height,
    ensures
        0 <= y * width + x < width * height,
        0 <= y * width <= width * height,
{
    assert(y * width + x < width * height) by (nonlinear_arith)
        requires
            0 <= x < width,
            0 <= y < height,
    ;
    assert(0 <= y * width <= width * height) by (nonlinear_arith)
        requires
            0 <= width,
            0 <= y < height,
    ;
}

/// A rectangle inside an image has no more pixels than the image.
proof fn lemma_smaller_area(width: int, height: int, full_width: int, full_height: int)
    requires
        0 <= width <= full_width,
        0 <= height <= full_height,
    ensures
        0 <= width * height <= full_width * full_height,
{
    assert(0 <= width * height <= full_width * full_height) by (nonlinear_arith)
        requires
            0 <= width <= full_width,
            0 <= height <= full_height,
    ;
}

/// The row and the column of the `p`-th pixel of an image.
proof fn lemma_row_column(p: int, width: int, height: int)
    requires
        0 <= p < width * height,
        0 < width,
    ensures
        0 <= p / width < height,
        0 <= p % width < width,
{
    vstd::arithmetic::div_mod::lemma_fundamental_div_mod(p, width);
    vstd::arithmetic::div_mod::lemma_mod_bound(p, width);
    assert(0 <= p / width < height) by (nonlinear_arith)
        requires
            0 <= p < width * height,
            0 < width,
            p == width * (p / width) + p % width,
            0 <= p % width < width,
    ;
}

/// A colour value after `Contrast`.
fn contrast_value(v: u8, amount: i32) -> (r: u8)
    ensures
        r == contrasted_value(v, amount),
{
    let scale: u64 = if amount <= -100 {
        0
    } else {
        (100 + amount as i64) as u64
    };
    if v >= 128 {
        assert((v - 128) * scale <= 127 * 0x1_0000_0000) by (nonlinear_arith)
            requires
                0 <= v - 128 <= 127,
                0 <= scale <= 0x1_0000_0000,
        ;
        let d: u64 = ((v - 128) as u64 * scale) / 100;
        if d > 127 {
            255
        } else {
            128 + d as u8
        }
    } else {
        assert((128 - v) * scale <= 128 * 0x1_0000_0000) by (nonlinear_arith)
            requires
                0 <= 128 - v <= 128,
                0 <= scale <= 0x1_0000_0000,
        ;
        let d: u64 = ((128 - v) as u64 * scale) / 100;
        if d > 128 {
            0
        } else {
            128 - d as u8
        }
    }
}

/// What a preset adds to a channel.
fn tint_value(filter: Filter, c: usize) -> (add: u8)
    ensures
        add == tint(filter, c as int),
{
    match filter {
        Filter::Unspecified => 0,
        Filter::Oceanic => if c == 1 {
            9
        } else if c == 2 {
            173
        } else {
            0
        },
        Filter::Islands => if c == 1 {
            24
        } else if c == 2 {
            95
        } else {
            0
        },
        Filter::Marine => if c == 1 {
            14
        } else if c == 2 {
            119
        } else {
            0
        },
    }
}

impl Photon {
    /// An engine for the given RGBA bytes, if they make an image: no side
    /// empty, four bytes for each pixel.
    pub fn from_rgba(width: u32, height: u32, pixels: Vec<u8>) -> (made: Result<Photon, Error>)
        ensures
            made is Ok <==> picture_of(width, height, pixels@).wf(),
            match made {
                Ok(engine) => engine@ == picture_of(width, height, pixels@),
                Err(e) => e == Error::ImageDecode,
            },
    {
        if width < 1 || height < 1 || !four_each(pixels.len(), width, height) {
            return Err(Error::ImageDecode);
        }
        Ok(Photon { width, height, pixels })
    }

    /// An engine for an encoded image. The bytes are decoded by the
    /// `image` crate, which is told to refuse an image with a side beyond
    /// `side_limit()`; what it makes of them must have four bytes for each
    /// pixel.
    pub fn from_bytes(raw: Bytes) -> (made: Result<Photon, Error>)
        ensures
            made is Ok <==> (decoded(bytes_content(raw), side_limit()) matches Some((w, h, p))
                && picture_of(w, h, p).wf()),
            match made {
                Ok(engine) => decoded(bytes_content(raw), side_limit()) matches Some((w, h, p))
                    && engine@ == picture_of(w, h, p),
                Err(e) => e == Error::ImageDecode,
            },
    {
        match decode(&raw, side_limit()) {
            Ok((width, height, pixels)) => Photon::from_rgba(width, height, pixels),
            Err(_) => Err(Error::ImageDecode),
        }
    }

    /// The width of the image in pixels.
    pub fn width(&self) -> (width: u32)
        ensures
            width == self@.width,
    {
        self.width
    }

    /// The height of the image in pixels.
    pub fn height(&self) -> (height: u32)
        ensures
            height == self@.height,
    {
        self.height
    }

    /// The RGBA bytes of the image.
    pub fn pixels(&self) -> (pixels: &Vec<u8>)
        ensures
            pixels@ == self@.pixels,
    {
        &self.pixels
    }

    /// The image as a stamp to lay over others.
    pub fn into_stamp(self) -> (stamp: Stamp)
        requires
            self@.wf(),
        ensures
            stamp_wf(stamp),
            stamp.width == self@.width,
            stamp.height == self@.height,
            stamp.pixels@ == self@.pixels,
    {
        Stamp { width: self.width, height: self.height, pixels: self.pixels }
    }

    /// Appends the four bytes of the pixel `from` to `out`.
    fn pick(&self, from: usize, out: &mut Vec<u8>)
        requires
            4 * from + 4 <= self.pixels.len(),
        ensures
            final(out)@ == old(out)@ + self.pixels@.subrange(4 * from, 4 * from + 4),
    {
        let base: usize = 4 * from;
        out.push(self.pixels[base]);
        out.push(self.pixels[base + 1]);
        out.push(self.pixels[base + 2]);
        out.push(self.pixels[base + 3]);
        assert(out@ =~= old(out)@ + self.pixels@.subrange(4 * from, 4 * from + 4));
    }

    /// Applies one operation that the image admits.
    fn perform(&mut self, op: &Spec)
        requires
            old(self)@.wf(),
            admits(old(self)@.width, old(self)@.height, *op),
        ensures
            final(self)@.wf(),
            makes(old(self)@, *op, final(self)@),
    {
        match op {
            Spec::Resize(r) => self.transform(r),
            Spec::Crop(c) => self.transform(c),
            Spec::Flipv(f) => self.transform(f),
            Spec::Fliph(f) => self.transform(f),
            Spec::Contrast(c) => self.transform(c),
            Spec::Filter(f) => self.transform(f),
            Spec::Watermark(w) => self.transform(w),
            Spec::Unknown => {},
        }
    }
}

impl<'a> SpecTransform<&'a Resize> for Photon {
    open spec fn accepts(&self, op: &'a Resize) -> bool {
        self@.wf() && admits(self@.width, self@.height, Spec::Resize(*op))
    }

    open spec fn yields(&self, op: &'a Resize, after: Photon) -> bool {
        after@.wf() && makes(self@, Spec::Resize(*op), after@)
    }

    fn transform(&mut self, op: &'a Resize) {
        let mut pixels: Vec<u8> = Vec::new();
        std::mem::swap(&mut pixels, &mut self.pixels);
        let scaled = resize(self.width, self.height, pixels, op.width, op.height, op.filter);
        self.width = op.width;
        self.height = op.height;
        self.pixels = scaled;
    }
}

impl<'a> SpecTransform<&'a Crop> for Photon {
    open spec fn accepts(&self, op: &'a Crop) -> bool {
        self@.wf() && admits(self@.width, self@.height, Spec::Crop(*op))
    }

    open spec fn yields(&self, op: &'a Crop, after: Photon) -> bool {
        after@.wf() && after@ == cropped(self@, *op)
    }

    fn transform(&mut self, op: &'a Crop) {
        let x2: u32 = if op.x2 <= self.width {
            op.x2
        } else {
            self.width
        };
        let y2: u32 = if op.y2 <= self.height {
            op.y2
        } else {
            self.height
        };
        let width: u32 = x2 - op.x1;
        let height: u32 = y2 - op.y1;
        let ghost target = cropped(self@, *op);
        let total: usize = self.pixels.len();
        proof {
            lemma_smaller_area(
                width as int,
                height as int,
                self.width as int,
                self.height as int,
            );
        }
        let count: usize = (width as usize) * (height as usize);
        let mut out: Vec<u8> = Vec::new();
        let mut p: usize = 0;
        while p < count
            invariant
                self@.wf(),
                *self == *old(self),
                total == self.pixels@.len(),
                0 <= p <= count,
                count == width * height,
                0 < width == target.width,
                0 < height == target.height,
                op.x1 + width <= self.width,
                op.y1 + height <= self.height,
                target == cropped(self@, *op),
                out@.len() == 4 * p,
                forall|k: int| 0 <= k < 4 * p ==> out@[k] == #[trigger] target.pixels[k],
            decreases count - p,
        {
            proof {
                lemma_row_column(p as int, width as int, height as int);
            }
            let y: usize = p / (width as usize);
            let x: usize = p % (width as usize);
            proof {
                lemma_pixel_inside(
                    op.x1 + x,
                    op.y1 + y,
                    self.width as int,
                    self.height as int,
                );
                assert(target.pixels.len() == width * height * 4);
            }
            let from: usize = (op.y1 as usize + y) * (self.width as usize) + op.x1 as usize + x;
            self.pick(from, &mut out);
            p += 1;
        }
        proof {
            assert(out@ =~= target.pixels);
        }
        self.width = width;
        self.height = height;
        self.pixels = out;
    }
}

impl<'a> SpecTransform<&'a Fliph> for Photon {
    open spec fn accepts(&self, op: &'a Fliph) -> bool {
        self@.wf()
    }

    open spec fn yields(&self, op: &'a Fliph, after: Photon) -> bool {
        after@.wf() && after@ == flipped_h(self@)
    }

    fn transform(&mut self, op: &'a Fliph) {
        let width: usize = self.width as usize;
        let ghost target = flipped_h(self@);
        let count: usize = self.pixels.len() / 4;
        let mut out: Vec<u8> = Vec::new();
        let mut p: usize = 0;
        while p < count
            invariant
                self@.wf(),
                *self == *old(self),
                0 <= p <= count,
                count == self.width * self.height,
                width == self.width,
                target == flipped_h(self@),
                out@.len() == 4 * p,
                forall|k: int| 0 <= k < 4 * p ==> out@[k] == #[trigger] target.pixels[k],
            decreases count - p,
        {
            proof {
                lemma_row_column(p as int, self.width as int, self.height as int);
            }
            let y: usize = p / width;
            let x: usize = p % width;
            proof {
                lemma_pixel_inside(
                    self.width - 1 - x,
                    y as int,
                    self.width as int,
                    self.height as int,
                );
            }
            let from: usize = y * width + (width - 1 - x);
            self.pick(from, &mut out);
            p += 1;
        }
        proof {
            assert(out@ =~= target.pixels);
        }
        self.pixels = out;
    }
}

impl<'a> SpecTransform<&'a Flipv> for Photon {
    open spec fn accepts(&self, op: &'a Flipv) -> bool {
        self@.wf()
    }

    open spec fn yields(&self, op: &'a Flipv, after: Photon) -> bool {
        after@.wf() && after@ == flipped_v(self@)
    }

    fn transform(&mut self, op: &'a Flipv) {
        let width: usize = self.width as usize;
        let height: usize = self.height as usize;
        let ghost target = flipped_v(self@);
        let count: usize = self.pixels.len() / 4;
        let mut out: Vec<u8> = Vec::new();
        let mut p: usize = 0;
        while p < count
            invariant
                self@.wf(),
                *self == *old(self),
                0 <= p <= count,
                count == self.width * self.height,
                width == self.width,
                height == self.height,
                target == flipped_v(self@),
                out@.len() == 4 * p,
                forall|k: int| 0 <= k < 4 * p ==> out@[k] == #[trigger] target.pixels[k],
            decreases count - p,
        {
            proof {
                lemma_row_column(p as int, self.width as int, self.height as int);
            }
            let y: usize = p / width;
            let x: usize = p % width;
            proof {
                lemma_pixel_inside(
                    x as int,
                    self.height - 1 - y,
                    self.width as int,
                    self.height as int,
                );
            }
            let from: usize = (height - 1 - y) * width + x;
            self.pick(from, &mut out);
            p += 1;
        }
        proof {
            assert(out@ =~= target.pixels);
        }
        self.pixels = out;
    }
}

impl<'a> SpecTransform<&'a Contrast> for Photon {
    open spec fn accepts(&self, op: &'a Contrast) -> bool {
        self@.wf()
    }

    open spec fn yields(&self, op: &'a Contrast, after: Photon) -> bool {
        after@.wf() && after@ == contrasted(self@, *op)
    }

    fn transform(&mut self, op: &'a Contrast) {
        let ghost target = contrasted(self@, *op);
        let count: usize = self.pixels.len();
        let mut k: usize = 0;
        while k < count
            invariant
                0 <= k <= count,
                count == self.pixels@.len(),
                self.width == old(self).width,
                self.height == old(self).height,
                self.pixels@.len() == old(self).pixels@.len(),
                target == contrasted(old(self)@, *op),
                forall|j: int| 0 <= j < k ==> self.pixels@[j] == #[trigger] target.pixels[j],
                forall|j: int| k <= j < count ==> self.pixels@[j] == #[trigger] old(self).pixels@[j],
            decreases count - k,
        {
            if k % 4 != 3 {
                let v: u8 = contrast_value(self.pixels[k], op.amount);
                self.pixels.set(k, v);
            }
            k += 1;
        }
        proof {
            assert(self.pixels@ =~= target.pixels);
        }
    }
}

impl<'a> SpecTransform<&'a Filter> for Photon {
    open spec fn accepts(&self, op: &'a Filter) -> bool {
        self@.wf()
    }

    open spec fn yields(&self, op: &'a Filter, after: Photon) -> bool {
        after@.wf() && after@ == filtered(self@, *op)
    }

    fn transform(&mut self, op: &'a Filter) {
        let ghost target = filtered(self@, *op);
        let count: usize = self.pixels.len();
        let mut k: usize = 0;
        while k < count
            invariant
                0 <= k <= count,
                count == self.pixels@.len(),
                self.width == old(self).width,
                self.height == old(self).height,
                self.pixels@.len() == old(self).pixels@.len(),
                target == filtered(old(self)@, *op),
                forall|j: int| 0 <= j < k ==> self.pixels@[j] == #[trigger] target.pixels[j],
                forall|j: int| k <= j < count ==> self.pixels@[j] == #[trigger] old(self).pixels@[j],
            decreases count - k,
        {
            let sum: u16 = self.pixels[k] as u16 + tint_value(*op, k % 4) as u16;
            let v: u8 = if sum > 255 {
                255
            } else {
                sum as u8
            };
            self.pixels.set(k, v);
            k += 1;
        }
        proof {
            assert(self.pixels@ =~= target.pixels);
        }
    }
}

impl<'a> SpecTransform<&'a Watermark> for Photon {
    open spec fn accepts(&self, op: &'a Watermark) -> bool {
        self@.wf() && stamp_wf(op.stamp)
    }

    open spec fn yields(&self, op: &'a Watermark, after: Photon) -> bool {
        after@.wf() && after@ == stamped(self@, *op)
    }

    fn transform(&mut self, op: &'a Watermark) {
        let ghost target = stamped(self@, *op);
        let width: usize = self.width as usize;
        let count: usize = self.pixels.len();
        let mut k: usize = 0;
        while k < count
            invariant
                0 <= k <= count,
                count == self.pixels@.len(),
                count == self.width * self.height * 4,
                0 < width == self.width,
                0 < self.height,
                stamp_wf(op.stamp),
                self.width == old(self).width,
                self.height == old(self).height,
                self.pixels@.len() == old(self).pixels@.len(),
                target == stamped(old(self)@, *op),
                forall|j: int| 0 <= j < k ==> self.pixels@[j] == #[trigger] target.pixels[j],
                forall|j: int| k <= j < count ==> self.pixels@[j] == #[trigger] old(self).pixels@[j],
            decreases count - k,
        {
            if k % 4 != 3 {
                proof {
                    lemma_row_column((k / 4) as int, self.width as int, self.height as int);
                }
                let x: usize = (k / 4) % width;
                let y: usize = (k / 4) / width;
                if x >= op.x as usize && x - (op.x as usize) < op.stamp.width as usize && y
                    >= op.y as usize && y - (op.y as usize) < op.stamp.height as usize {
                    let stamp_len: usize = op.stamp.pixels.len();
                    proof {
                        lemma_pixel_inside(
                            x - op.x,
                            y - op.y,
                            op.stamp.width as int,
                            op.stamp.height as int,
                        );
                    }
                    let from: usize = 4 * ((y - op.y as usize) * (op.stamp.width as usize) + (x
                        - op.x as usize));
                    let v: u8 = blend(
                        self.pixels[k],
                        op.stamp.pixels[from + k % 4],
                        op.stamp.pixels[from + 3],
                    );
                    self.pixels.set(k, v);
                }
            }
            k += 1;
        }
        proof {
            assert(self.pixels@ =~= target.pixels);
        }
    }
}

impl Engine for Photon {
    open spec fn wf(&self) -> bool {
        self@.wf()
    }

    open spec fn picture(&self) -> Picture {
        self@
    }

    fn apply(&mut self, specs: &[Spec]) -> (done: Result<(), Error>) {
        match validate(self.width, self.height, specs) {
            Err(e) => Err(e),
            Ok(_) => {
                let mut i: usize = 0;
                proof {
                    assert(specs@.take(0) =~= Seq::<Spec>::empty());
                    lemma_empty_passes_through(self@, self@);
                }
                while i < specs.len()
                    invariant
                        0 <= i <= specs.len(),
                        self.wf(),
                        admitted(old(self)@.width, old(self)@.height, specs@),
                        leads(old(self)@, specs@.take(i as int), self@),
                    decreases specs.len() - i,
                {
                    let ghost before = self@;
                    proof {
                        lemma_admitted_take(
                            old(self)@.width,
                            old(self)@.height,
                            specs@,
                            i + 1,
                        );
                        lemma_leads_shape(old(self)@, specs@.take(i as int), before);
                        assert(specs@.take(i + 1).drop_last() =~= specs@.take(i as int));
                        assert(specs@.take(i + 1).last() == specs@[i as int]);
                    }
                    self.perform(&specs[i]);
                    proof {
                        lemma_leads_push(
                            old(self)@,
                            specs@.take(i as int),
                            before,
                            specs@[i as int],
                            self@,
                        );
                        assert(specs@.take(i as int).push(specs@[i as int]) =~= specs@.take(
                            i + 1,
                        ));
                    }
                    i += 1;
                }
                assert(specs@.take(i as int) =~= specs@);
                Ok(())
            },
        }
    }

    fn generate(self, format: OutputFormat) -> (out: Result<Vec<u8>, Error>) {
        match encode(self.width, self.height, &self.pixels, format) {
            Ok(bytes) => Ok(bytes),
            Err(_) => Err(Error::Encode),
        }
    }
}

} // verus!
