//! What an image is, and what each operation makes of it.
//!
//! An image is a grid of pixels, row by row from the top, each pixel four
//! bytes: red, green, blue, alpha. The meaning of every operation is given
//! here once, for every engine, and so is the check of a list of operations
//! against the size of an image.
//!
//! Every operation but one has a single result, given by `step`. A resize
//! whose interpolation calls `sin`, `exp` or `powi` has a result that may
//! differ in its last digit from machine to machine: of it only the size
//! is fixed. `makes` and `leads` say which images an operation and a list
//! of operations can give; for a list of exact operations that is the one
//! image `applied`.

use crate::codec::encoded;
use crate::codec::resized;
use crate::error::Error;
use crate::ops::Contrast;
use crate::ops::Crop;
use crate::ops::Filter;
use crate::ops::OutputFormat;
use crate::ops::Resize;
use crate::ops::Spec;
use crate::ops::Stamp;
use crate::ops::Watermark;
use vstd::prelude::*;

verus! {

/// Whether a buffer of `bytes` bytes is within what this machine can
/// address: the one limit on the size of an image.
pub open spec fn addressable(bytes: int) -> bool {
    bytes <= isize::MAX
}

/// An image as a mathematical value.
pub struct Picture {
    pub width: nat,
    pub height: nat,
    pub pixels: Seq<u8>,
}

impl Picture {
    /// The image has at least one pixel and four bytes for each pixel.
    pub open spec fn wf(self) -> bool {
        &&& 1 <= self.width <= u32::MAX
        &&& 1 <= self.height <= u32::MAX
        &&& self.pixels.len() == self.width * self.height * 4
    }

    /// Channel `c` of the pixel in column `x` of row `y`.
    pub open spec fn at(self, x: int, y: int, c: int) -> u8 {
        self.pixels[4 * (y * self.width + x) + c]
    }
}

/// The longest side that an image may have when it is read: the longest at
/// which a square image still has an addressable RGBA buffer.
pub open spec fn spec_side_limit() -> u32 {
    if isize::MAX >= 0x7FFF_FFFF_FFFF_FFFF {
        1_518_500_249
    } else {
        23_170
    }
}

/// The longest side that an image may have when it is read.
#[verifier::when_used_as_spec(spec_side_limit)]
pub fn side_limit() -> (limit: u32)
    ensures
        limit == spec_side_limit(),
        addressable(4 * (limit * limit)),
{
    if isize::MAX as u128 >= 0x7FFF_FFFF_FFFF_FFFF {
        1_518_500_249
    } else {
        23_170
    }
}

/// The image of `width` by `height` pixels with the bytes `pixels`.
pub open spec fn picture_of(width: u32, height: u32, pixels: Seq<u8>) -> Picture {
    Picture { width: width as nat, height: height as nat, pixels }
}

/// The smaller of a coordinate and a side.
pub open spec fn clip(coordinate: u32, side: nat) -> nat {
    if coordinate <= side {
        coordinate as nat
    } else {
        side
    }
}

/// A value brought into the range of a byte.
pub open spec fn clamp_byte(v: int) -> u8 {
    if v < 0 {
        0
    } else if v > 255 {
        255
    } else {
        v as u8
    }
}

/// The rectangle of `op`, clipped to `pic`. Pixel `(x, y)` of the result is
/// pixel `(x1 + x, y1 + y)` of `pic`.
pub open spec fn cropped(pic: Picture, op: Crop) -> Picture {
    let width = (clip(op.x2, pic.width) - op.x1) as nat;
    let height = (clip(op.y2, pic.height) - op.y1) as nat;
    Picture {
        width,
        height,
        pixels: Seq::new(
            width * height * 4,
            |k: int|
                pic.pixels[4 * ((op.y1 + (k / 4) / (width as int)) * pic.width + op.x1 + (k / 4) % (
                width as int)) + k % 4],
        ),
    }
}

/// `pic` mirrored left to right: pixel `(x, y)` of the result is pixel
/// `(width - 1 - x, y)` of `pic`.
pub open spec fn flipped_h(pic: Picture) -> Picture {
    Picture {
        width: pic.width,
        height: pic.height,
        pixels: Seq::new(
            pic.pixels.len(),
            |k: int|
                pic.pixels[4 * (((k / 4) / (pic.width as int)) * pic.width + (pic.width - 1 - (k
                    / 4) % (pic.width as int))) + k % 4],
        ),
    }
}

/// `pic` mirrored top to bottom: pixel `(x, y)` of the result is pixel
/// `(x, height - 1 - y)` of `pic`.
pub open spec fn flipped_v(pic: Picture) -> Picture {
    Picture {
        width: pic.width,
        height: pic.height,
        pixels: Seq::new(
            pic.pixels.len(),
            |k: int|
                pic.pixels[4 * ((pic.height - 1 - (k / 4) / (pic.width as int)) * pic.width + (k
                    / 4) % (pic.width as int)) + k % 4],
        ),
    }
}

/// A colour value after `Contrast`: its distance from 128 is scaled by
/// `(100 + amount) / 100`, rounded towards 128, and the result is brought
/// back into the range of a byte. At `amount` of -100 or less every value
/// becomes 128.
pub open spec fn contrasted_value(v: u8, amount: i32) -> u8 {
    let scale: int = if amount <= -100 {
        0
    } else {
        100 + amount
    };
    if v >= 128 {
        clamp_byte(128 + ((v - 128) * scale) / 100)
    } else {
        clamp_byte(128 - ((128 - v) * scale) / 100)
    }
}

/// What a preset adds to the channel `c` (0 red, 1 green, 2 blue).
pub open spec fn tint(filter: Filter, c: int) -> int {
    match filter {
        Filter::Unspecified => 0,
        Filter::Oceanic => if c == 1 {
            9
        } else if c == 2 {
            173
        } else {
            0
        },
        Filter::Islands => if c == 1 {
            24
        } else if c == 2 {
            95
        } else {
            0
        },
        Filter::Marine => if c == 1 {
            14
        } else if c == 2 {
            119
        } else {
            0
        },
    }
}

/// `pic` with `Contrast` applied to each colour value; alpha stays.
pub open spec fn contrasted(pic: Picture, op: Contrast) -> Picture {
    Picture {
        width: pic.width,
        height: pic.height,
        pixels: Seq::new(
            pic.pixels.len(),
            |k: int|
                if k % 4 == 3 {
                    pic.pixels[k]
                } else {
                    contrasted_value(pic.pixels[k], op.amount)
                },
        ),
    }
}

/// `pic` with the tint of a preset added to each colour value, stopping at
/// 255; alpha stays.
pub open spec fn filtered(pic: Picture, filter: Filter) -> Picture {
    Picture {
        width: pic.width,
        height: pic.height,
        pixels: Seq::new(
            pic.pixels.len(),
            |k: int| clamp_byte(pic.pixels[k] + tint(filter, k % 4)),
        ),
    }
}

/// Whether a stamp has at least one pixel and four bytes for each pixel.
pub open spec fn stamp_wf(stamp: Stamp) -> bool {
    &&& 1 <= stamp.width
    &&& 1 <= stamp.height
    &&& stamp.pixels@.len() == stamp.width * stamp.height * 4
}

/// A colour value `under` a stamp's value `over` whose pixel has the alpha
/// `alpha`: the two mixed in the ratio `alpha` to `255 - alpha`, rounded
/// down.
pub open spec fn blended(under: u8, over: u8, alpha: u8) -> u8 {
    ((over * alpha + under * (255 - alpha)) / 255) as u8
}

/// `pic` with the stamp of `op` laid over it. Where pixel `(x, y)` of the
/// image lies under pixel `(x - op.x, y - op.y)` of the stamp, each colour
/// value is blended with the stamp's; alpha stays, and so does every pixel
/// that the stamp does not cover.
pub open spec fn stamped(pic: Picture, op: Watermark) -> Picture {
    Picture {
        width: pic.width,
        height: pic.height,
        pixels: Seq::new(
            pic.pixels.len(),
            |k: int|
                {
                    let x = (k / 4) % (pic.width as int);
                    let y = (k / 4) / (pic.width as int);
                    if k % 4 != 3 && op.x <= x < op.x + op.stamp.width && op.y <= y < op.y
                        + op.stamp.height {
                        let from = 4 * ((y - op.y) * op.stamp.width + (x - op.x));
                        blended(
                            pic.pixels[k],
                            op.stamp.pixels@[from + k % 4],
                            op.stamp.pixels@[from + 3],
                        )
                    } else {
                        pic.pixels[k]
                    }
                },
        ),
    }
}

/// `pic` scaled to the size that `op` names, where the interpolation that
/// it names is plain arithmetic. The pixel values are those that the
/// `image` crate computes.
pub open spec fn rescaled(pic: Picture, op: Resize) -> Picture {
    Picture {
        width: op.width as nat,
        height: op.height as nat,
        pixels: resized(
            pic.width as u32,
            pic.height as u32,
            pic.pixels,
            op.width,
            op.height,
            op.filter,
        ),
    }
}

/// What `pic` is written as in `format`, if the encoder accepts it.
pub open spec fn encoding(pic: Picture, format: OutputFormat) -> Option<Seq<u8>> {
    encoded(pic.width as u32, pic.height as u32, pic.pixels, format)
}

/// Whether an image of `width` by `height` pixels admits `op`. A resize
/// must name a size of at least one pixel, and the machine must be able to
/// address what scaling takes: four floats for each pixel of the old width
/// and the new height, and four bytes for each pixel of the new size. A
/// crop must leave at least one pixel after clipping; a watermark must
/// bring a well-formed stamp; an unknown operation is never admitted.
pub open spec fn admits(width: nat, height: nat, op: Spec) -> bool {
    match op {
        Spec::Resize(r) => {
            &&& 1 <= r.width
            &&& 1 <= r.height
            &&& addressable(16 * (width * r.height))
            &&& addressable(4 * (r.width * r.height))
        },
        Spec::Crop(c) => c.x1 < clip(c.x2, width) && c.y1 < clip(c.y2, height),
        Spec::Flipv(_) => true,
        Spec::Fliph(_) => true,
        Spec::Contrast(_) => true,
        Spec::Filter(_) => true,
        Spec::Watermark(w) => stamp_wf(w.stamp),
        Spec::Unknown => false,
    }
}

/// The size of the image that `op` makes of one of `width` by `height`
/// pixels.
pub open spec fn next_shape(width: nat, height: nat, op: Spec) -> (nat, nat) {
    match op {
        Spec::Resize(r) => (r.width as nat, r.height as nat),
        Spec::Crop(c) => (
            (clip(c.x2, width) - c.x1) as nat,
            (clip(c.y2, height) - c.y1) as nat,
        ),
        _ => (width, height),
    }
}

/// The size of the image that the operations of `specs`, applied from left
/// to right, make of one of `width` by `height` pixels.
pub open spec fn final_shape(width: nat, height: nat, specs: Seq<Spec>) -> (nat, nat)
    decreases specs.len(),
{
    if specs.len() == 0 {
        (width, height)
    } else {
        let before = final_shape(width, height, specs.drop_last());
        next_shape(before.0, before.1, specs.last())
    }
}

/// Whether every operation of `specs` is admitted by the image that the
/// operations before it make of one of `width` by `height` pixels. Whether
/// an operation is admitted depends on the size of the image alone.
pub open spec fn admitted(width: nat, height: nat, specs: Seq<Spec>) -> bool
    decreases specs.len(),
{
    specs.len() == 0 || {
        let before = final_shape(width, height, specs.drop_last());
        admitted(width, height, specs.drop_last()) && admits(before.0, before.1, specs.last())
    }
}

/// Whether the operation at `index` is the first of `specs` that is not
/// admitted.
pub open spec fn refused_at(width: nat, height: nat, specs: Seq<Spec>, index: int) -> bool {
    &&& 0 <= index < specs.len()
    &&& admitted(width, height, specs.take(index))
    &&& {
        let before = final_shape(width, height, specs.take(index));
        !admits(before.0, before.1, specs[index])
    }
}

/// The product of two sides.
pub(crate) fn product(a: u32, b: u32) -> (p: u128)
    ensures
        p == a * b,
        p <= 0xFFFF_FFFE_0000_0001,
{
    assert(a * b <= 0xFFFF_FFFF * 0xFFFF_FFFF) by (nonlinear_arith)
        requires
            0 <= a <= 0xFFFF_FFFF,
            0 <= b <= 0xFFFF_FFFF,
    ;
    (a as u128) * (b as u128)
}

/// Whether `len` bytes are four for each pixel of a `width` by `height`
/// image.
pub(crate) fn four_each(len: usize, width: u32, height: u32) -> (ok: bool)
    ensures
        ok == (len == width * height * 4),
{
    len as u128 == product(width, height) * 4
}

/// Whether an image of `width` by `height` pixels admits `op`.
pub fn fits(width: u32, height: u32, op: &Spec) -> (ok: bool)
    ensures
        ok == admits(width as nat, height as nat, *op),
{
    match op {
        Spec::Resize(r) => {
            r.width >= 1 && r.height >= 1 && 16 * product(width, r.height) <= isize::MAX as u128
                && 4 * product(r.width, r.height) <= isize::MAX as u128
        },
        Spec::Crop(c) => {
            let x2: u32 = if c.x2 <= width {
                c.x2
            } else {
                width
            };
            let y2: u32 = if c.y2 <= height {
                c.y2
            } else {
                height
            };
            c.x1 < x2 && c.y1 < y2
        },
        Spec::Flipv(_) => true,
        Spec::Fliph(_) => true,
        Spec::Contrast(_) => true,
        Spec::Filter(_) => true,
        Spec::Watermark(w) => {
            1 <= w.stamp.width && 1 <= w.stamp.height && four_each(
                w.stamp.pixels.len(),
                w.stamp.width,
                w.stamp.height,
            )
        },
        Spec::Unknown => false,
    }
}

/// Checks a list of operations against the size of an image, without
/// touching a pixel: the size that the operations lead to, or the first
/// operation that is not admitted.
pub fn validate(width: u32, height: u32, specs: &[Spec]) -> (checked: Result<(u32, u32), Error>)
    ensures
        checked is Ok <==> admitted(width as nat, height as nat, specs@),
        match checked {
            Ok((w, h)) => final_shape(width as nat, height as nat, specs@) == (w as nat, h as nat),
            Err(e) => e matches Error::Operation { index } && refused_at(
                width as nat,
                height as nat,
                specs@,
                index as int,
            ),
        },
{
    let mut w: u32 = width;
    let mut h: u32 = height;
    let mut i: usize = 0;
    assert(specs@.take(0) =~= Seq::<Spec>::empty());
    while i < specs.len()
        invariant
            0 <= i <= specs.len(),
            admitted(width as nat, height as nat, specs@.take(i as int)),
            final_shape(width as nat, height as nat, specs@.take(i as int)) == (w as nat, h as nat),
        decreases specs.len() - i,
    {
        let op = &specs[i];
        if !fits(w, h, op) {
            proof {
                lemma_refused_not_admitted(width as nat, height as nat, specs@, i as int);
            }
            return Err(Error::Operation { index: i });
        }
        proof {
            assert(specs@.take(i + 1).drop_last() =~= specs@.take(i as int));
            assert(specs@.take(i + 1).last() == specs@[i as int]);
        }
        match op {
            Spec::Resize(r) => {
                w = r.width;
                h = r.height;
            },
            Spec::Crop(c) => {
                let x2: u32 = if c.x2 <= w {
                    c.x2
                } else {
                    w
                };
                let y2: u32 = if c.y2 <= h {
                    c.y2
                } else {
                    h
                };
                w = x2 - c.x1;
                h = y2 - c.y1;
            },
            _ => {},
        }
        i += 1;
    }
    assert(specs@.take(i as int) =~= specs@);
    Ok((w, h))
}

/// The image that `op` makes of `pic`, for an operation with one result
/// only.
pub open spec fn step(pic: Picture, op: Spec) -> Picture {
    match op {
        Spec::Resize(r) => rescaled(pic, r),
        Spec::Crop(c) => cropped(pic, c),
        Spec::Flipv(_) => flipped_v(pic),
        Spec::Fliph(_) => flipped_h(pic),
        Spec::Contrast(c) => contrasted(pic, c),
        Spec::Filter(f) => filtered(pic, f),
        Spec::Watermark(w) => stamped(pic, w),
        Spec::Unknown => pic,
    }
}

/// Whether `op` has one result only, the same on every machine: every
/// operation but a resize whose interpolation is not plain arithmetic.
pub open spec fn exact(op: Spec) -> bool {
    match op {
        Spec::Resize(r) => r.filter.plain(),
        _ => true,
    }
}

/// Whether `after` is an image that `op` can make of `before`. An exact
/// operation makes `step(before, op)` and nothing else. Every resize gives
/// the size that was named and four bytes for each pixel; of a resize that
/// is not exact no more than this is fixed.
pub open spec fn makes(before: Picture, op: Spec, after: Picture) -> bool {
    &&& exact(op) ==> after == step(before, op)
    &&& op matches Spec::Resize(r) ==> {
        &&& after.width == r.width
        &&& after.height == r.height
        &&& after.pixels.len() == r.width * r.height * 4
    }
}

/// Whether `trail` holds the images that the operations of `specs` make
/// one after the other: `pic` first, then after each operation an image
/// that it can make of the one before.
pub open spec fn follows(pic: Picture, specs: Seq<Spec>, trail: Seq<Picture>) -> bool {
    &&& trail.len() == specs.len() + 1
    &&& trail[0] == pic
    &&& forall|i: int|
        0 <= i < specs.len() ==> makes(#[trigger] trail[i], specs[i], trail[i + 1])
}

/// Whether `after` is an image that the operations of `specs`, applied
/// from left to right, can make of `pic`.
pub open spec fn leads(pic: Picture, specs: Seq<Spec>, after: Picture) -> bool {
    exists|trail: Seq<Picture>| #[trigger]
        follows(pic, specs, trail) && trail[specs.len() as int] == after
}

/// The image that the operations of `specs`, applied from left to right,
/// make of `pic`, where each of them is exact.
pub open spec fn applied(pic: Picture, specs: Seq<Spec>) -> Picture
    decreases specs.len(),
{
    if specs.len() == 0 {
        pic
    } else {
        step(applied(pic, specs.drop_last()), specs.last())
    }
}

/// Along a trail the sizes are those that the operations make of the size
/// of the source.
proof fn lemma_trail_shape(pic: Picture, specs: Seq<Spec>, trail: Seq<Picture>, n: int)
    requires
        follows(pic, specs, trail),
        0 <= n <= specs.len(),
    ensures
        (trail[n].width, trail[n].height) == final_shape(pic.width, pic.height, specs.take(n)),
    decreases n,
{
    if n > 0 {
        lemma_trail_shape(pic, specs, trail, n - 1);
        assert(specs.take(n).drop_last() =~= specs.take(n - 1));
        assert(specs.take(n).last() == specs[n - 1]);
        assert(makes(trail[n - 1], specs[n - 1], trail[n]));
    } else {
        assert(specs.take(0) =~= Seq::<Spec>::empty());
    }
}

/// Along a trail of exact operations each image is the one that `applied`
/// names.
proof fn lemma_trail_exact(pic: Picture, specs: Seq<Spec>, trail: Seq<Picture>, n: int)
    requires
        follows(pic, specs, trail),
        forall|i: int| 0 <= i < specs.len() ==> exact(#[trigger] specs[i]),
        0 <= n <= specs.len(),
    ensures
        trail[n] == applied(pic, specs.take(n)),
    decreases n,
{
    if n > 0 {
        lemma_trail_exact(pic, specs, trail, n - 1);
        assert(specs.take(n).drop_last() =~= specs.take(n - 1));
        assert(specs.take(n).last() == specs[n - 1]);
        assert(makes(trail[n - 1], specs[n - 1], trail[n]));
        assert(exact(specs[n - 1]));
    } else {
        assert(specs.take(0) =~= Seq::<Spec>::empty());
    }
}

/// The size of whatever the operations make of an image is what they make
/// of its size.
pub proof fn lemma_leads_shape(pic: Picture, specs: Seq<Spec>, after: Picture)
    requires
        leads(pic, specs, after),
    ensures
        (after.width, after.height) == final_shape(pic.width, pic.height, specs),
{
    let trail = choose|trail: Seq<Picture>| #[trigger]
        follows(pic, specs, trail) && trail[specs.len() as int] == after;
    lemma_trail_shape(pic, specs, trail, specs.len() as int);
    assert(specs.take(specs.len() as int) =~= specs);
}

/// One more operation: where the operations of `specs` lead from `pic` to
/// `mid` and `op` makes `after` of `mid`, the list with `op` at its end
/// leads from `pic` to `after`.
pub proof fn lemma_leads_push(
    pic: Picture,
    specs: Seq<Spec>,
    mid: Picture,
    op: Spec,
    after: Picture,
)
    requires
        leads(pic, specs, mid),
        makes(mid, op, after),
    ensures
        leads(pic, specs.push(op), after),
{
    let trail = choose|trail: Seq<Picture>| #[trigger]
        follows(pic, specs, trail) && trail[specs.len() as int] == mid;
    let longer = trail.push(after);
    let more = specs.push(op);
    assert forall|i: int| 0 <= i < more.len() implies makes(
        #[trigger] longer[i],
        more[i],
        longer[i + 1],
    ) by {
        if i < specs.len() {
            assert(makes(trail[i], specs[i], trail[i + 1]));
        }
    }
    assert(follows(pic, more, longer) && longer[more.len() as int] == after);
}

/// A list of exact operations has one result only, `applied`.
pub proof fn lemma_exact_leads(pic: Picture, specs: Seq<Spec>, after: Picture)
    requires
        forall|i: int| 0 <= i < specs.len() ==> exact(#[trigger] specs[i]),
        leads(pic, specs, after),
    ensures
        after == applied(pic, specs),
{
    let trail = choose|trail: Seq<Picture>| #[trigger]
        follows(pic, specs, trail) && trail[specs.len() as int] == after;
    lemma_trail_exact(pic, specs, trail, specs.len() as int);
    assert(specs.take(specs.len() as int) =~= specs);
}

/// Where a list of operations is admitted, so is each of its beginnings.
pub proof fn lemma_admitted_take(width: nat, height: nat, specs: Seq<Spec>, n: int)
    requires
        admitted(width, height, specs),
        0 <= n <= specs.len(),
    ensures
        admitted(width, height, specs.take(n)),
    decreases specs.len(),
{
    if n == specs.len() {
        assert(specs.take(n) =~= specs);
    } else {
        lemma_admitted_take(width, height, specs.drop_last(), n);
        assert(specs.drop_last().take(n) =~= specs.take(n));
    }
}

/// A list of operations with a first refused operation is not admitted,
/// and has one such operation only.
pub proof fn lemma_refused_not_admitted(width: nat, height: nat, specs: Seq<Spec>, index: int)
    requires
        refused_at(width, height, specs, index),
    ensures
        !admitted(width, height, specs),
        forall|other: int| refused_at(width, height, specs, other) ==> other == index,
{
    if admitted(width, height, specs) {
        lemma_admitted_take(width, height, specs, index + 1);
        assert(specs.take(index + 1).drop_last() =~= specs.take(index));
    }
    assert forall|other: int| refused_at(width, height, specs, other) implies other == index by {
        if other < index {
            lemma_admitted_take(width, height, specs.take(index), other + 1);
            assert(specs.take(index).take(other + 1) =~= specs.take(other + 1));
            assert(specs.take(other + 1).drop_last() =~= specs.take(other));
        } else if index < other {
            lemma_admitted_take(width, height, specs.take(other), index + 1);
            assert(specs.take(other).take(index + 1) =~= specs.take(index + 1));
            assert(specs.take(index + 1).drop_last() =~= specs.take(index));
        }
    }
}

/// With no operations the image stays as it is, and that is always
/// admitted: an empty request passes the source through.
pub proof fn lemma_empty_passes_through(pic: Picture, after: Picture)
    ensures
        admitted(pic.width, pic.height, Seq::<Spec>::empty()),
        leads(pic, Seq::<Spec>::empty(), after) <==> after == pic,
{
    let none = Seq::<Spec>::empty();
    if after == pic {
        let trail = seq![pic];
        assert(follows(pic, none, trail) && trail[none.len() as int] == after);
    }
}

/// An admitted resize gives an image of exactly the size that it names,
/// whatever the source was, whatever the operations before it made of it,
/// and whatever the interpolation.
pub proof fn lemma_resize_sets_shape(pic: Picture, before: Seq<Spec>, op: Resize, after: Picture)
    requires
        leads(pic, before.push(Spec::Resize(op)), after),
    ensures
        after.width == op.width,
        after.height == op.height,
        after.pixels.len() == op.width * op.height * 4,
{
    let specs = before.push(Spec::Resize(op));
    let trail = choose|trail: Seq<Picture>| #[trigger]
        follows(pic, specs, trail) && trail[specs.len() as int] == after;
    let last = before.len() as int;
    assert(specs[last] == Spec::Resize(op));
    assert(makes(trail[last], specs[last], trail[last + 1]));
}

/// Applying one list of operations and then another is applying the two
/// lists joined: the order of the operations is all that matters.
pub proof fn lemma_leads_concat(
    pic: Picture,
    first: Seq<Spec>,
    mid: Picture,
    second: Seq<Spec>,
    after: Picture,
)
    requires
        leads(pic, first, mid),
        leads(mid, second, after),
    ensures
        leads(pic, first + second, after),
{
    let head = choose|trail: Seq<Picture>| #[trigger]
        follows(pic, first, trail) && trail[first.len() as int] == mid;
    let tail = choose|trail: Seq<Picture>| #[trigger]
        follows(mid, second, trail) && trail[second.len() as int] == after;
    let whole = head + tail.drop_first();
    let specs = first + second;
    assert forall|i: int| 0 <= i < specs.len() implies makes(
        #[trigger] whole[i],
        specs[i],
        whole[i + 1],
    ) by {
        if i < first.len() {
            assert(makes(head[i], first[i], head[i + 1]));
            if i + 1 == first.len() {
                assert(whole[i + 1] == head[i + 1]);
            }
        } else {
            let j = i - first.len();
            assert(makes(tail[j], second[j], tail[j + 1]));
            if j == 0 {
                assert(whole[i] == head[first.len() as int]);
            } else {
                assert(whole[i] == tail[j]);
            }
            assert(whole[i + 1] == tail[j + 1]);
        }
    }
    assert(follows(pic, specs, whole) && whole[specs.len() as int] == after);
}

/// Where the bytes of the pixel in column `x` of row `y` stand in an image
/// of the given size, and that the place leads back to the pixel.
proof fn lemma_place(x: int, y: int, c: int, width: int, height: int)
    requires
        0 <= x < width,
        0 <= y < height,
        0 <= c < 4,
    ensures
        0 <= 4 * (y * width + x) + c < width * height * 4,
        (4 * (y * width + x) + c) % 4 == c,
        ((4 * (y * width + x) + c) / 4) % width == x,
        ((4 * (y * width + x) + c) / 4) / width == y,
{
    assert(0 <= y * width + x < width * height) by (nonlinear_arith)
        requires
            0 <= x < width,
            0 <= y < height,
    ;
    vstd::arithmetic::div_mod::lemma_fundamental_div_mod_converse(y * width + x, width, y, x);
}

/// Cropping in coordinates: pixel `(x, y)` of the result is pixel
/// `(x1 + x, y1 + y)` of the source.
pub proof fn lemma_cropped_pixel(pic: Picture, op: Crop, x: int, y: int, c: int)
    requires
        pic.wf(),
        admits(pic.width, pic.height, Spec::Crop(op)),
        0 <= x < cropped(pic, op).width,
        0 <= y < cropped(pic, op).height,
        0 <= c < 4,
    ensures
        cropped(pic, op).width == clip(op.x2, pic.width) - op.x1,
        cropped(pic, op).height == clip(op.y2, pic.height) - op.y1,
        cropped(pic, op).pixels.len() == cropped(pic, op).width * cropped(pic, op).height * 4,
        cropped(pic, op).at(x, y, c) == pic.at(op.x1 + x, op.y1 + y, c),
{
    let out = cropped(pic, op);
    lemma_place(x, y, c, out.width as int, out.height as int);
}

/// Mirroring left to right in coordinates: pixel `(x, y)` of the result is
/// pixel `(width - 1 - x, y)` of the source.
pub proof fn lemma_flipped_h_pixel(pic: Picture, x: int, y: int, c: int)
    requires
        pic.wf(),
        0 <= x < pic.width,
        0 <= y < pic.height,
        0 <= c < 4,
    ensures
        flipped_h(pic).at(x, y, c) == pic.at(pic.width - 1 - x, y, c),
{
    lemma_place(x, y, c, pic.width as int, pic.height as int);
}

/// Mirroring top to bottom in coordinates: pixel `(x, y)` of the result is
/// pixel `(x, height - 1 - y)` of the source.
pub proof fn lemma_flipped_v_pixel(pic: Picture, x: int, y: int, c: int)
    requires
        pic.wf(),
        0 <= x < pic.width,
        0 <= y < pic.height,
        0 <= c < 4,
    ensures
        flipped_v(pic).at(x, y, c) == pic.at(x, pic.height - 1 - y, c),
{
    lemma_place(x, y, c, pic.width as int, pic.height as int);
}

/// A watermark in coordinates: a colour value of a pixel under the stamp is
/// blended with the stamp's value at the same place, counted from the
/// stamp's corner; every other value stays.
pub proof fn lemma_stamped_pixel(pic: Picture, op: Watermark, x: int, y: int, c: int)
    requires
        pic.wf(),
        0 <= x < pic.width,
        0 <= y < pic.height,
        0 <= c < 4,
    ensures
        stamped(pic, op).at(x, y, c) == if c < 3 && op.x <= x < op.x + op.stamp.width && op.y
            <= y < op.y + op.stamp.height {
            blended(
                pic.at(x, y, c),
                op.stamp.pixels@[4 * ((y - op.y) * op.stamp.width + (x - op.x)) + c],
                op.stamp.pixels@[4 * ((y - op.y) * op.stamp.width + (x - op.x)) + 3],
            )
        } else {
            pic.at(x, y, c)
        },
{
    lemma_place(x, y, c, pic.width as int, pic.height as int);
}

} // verus!
