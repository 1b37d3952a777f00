//! The output raster: `width` by `height` pixels of three 8-bit channels,
//! row-major, kept in an `image::ImageBuffer`.

use image::ImageBuffer;
use image::Rgb;
use vstd::prelude::*;

verus! {

/// An RGB image of 8-bit channels. The pixels live in an
/// `image::ImageBuffer<Rgb<u8>, Vec<u8>>`, of which Verus sees nothing: what
/// the buffer holds is named by `raster_size` and `raster_samples`, and all
/// that is known of those two is what the private functions below say of the
/// `image` methods they call. None of that is proved.
#[verifier::external_body]
pub struct Raster {
    buffer: ImageBuffer<Rgb<u8>, Vec<u8>>,
}

/// Width and height of the buffer, in pixels.
pub uninterp spec fn raster_size(raster: Raster) -> (u32, u32);

/// The buffer's samples in storage order: row after row from the top, pixel
/// after pixel from the left, red, green, blue.
pub uninterp spec fn raster_samples(raster: Raster) -> Seq<u8>;

/// Whether a raster of this size can be held in memory: its samples can be
/// counted in a `usize` and allocated in one vector.
pub open spec fn fits(width: u32, height: u32) -> bool {
    3 * width <= usize::MAX && 3 * width * height <= isize::MAX
}

/// A raster as a mathematical value.
pub struct RasterView {
    pub width: nat,
    pub height: nat,
    pub samples: Seq<u8>,
}

impl RasterView {
    /// There are exactly three samples for each pixel.
    pub open spec fn wf(self) -> bool {
        self.samples.len() == 3 * self.width * self.height
    }

    /// Where the red sample of pixel `(x, y)` stands among the samples.
    pub open spec fn offset(self, x: int, y: int) -> int {
        3 * (y * self.width + x)
    }

    /// The three channels of pixel `(x, y)`.
    pub open spec fn pixel(self, x: int, y: int) -> Seq<u8> {
        self.samples.subrange(self.offset(x, y), self.offset(x, y) + 3)
    }

    /// The raster with pixel `(x, y)` replaced by `rgb`.
    pub open spec fn with_pixel(self, x: int, y: int, rgb: Seq<u8>) -> RasterView {
        RasterView {
            samples: self.samples.update(self.offset(x, y), rgb[0]).update(
                self.offset(x, y) + 1,
                rgb[1],
            ).update(self.offset(x, y) + 2, rgb[2]),
            ..self
        }
    }
}

impl View for Raster {
    type V = RasterView;

    open spec fn view(&self) -> RasterView {
        RasterView {
            width: raster_size(*self).0 as nat,
            height: raster_size(*self).1 as nat,
            samples: raster_samples(*self),
        }
    }
}

/// `ImageBuffer::new`: a buffer of the given size with every sample zero.
/// The call multiplies 3 by the width and then by the height and panics when
/// either product overflows `usize`; the vector it then allocates panics
/// beyond `isize::MAX` bytes. The precondition rules all of that out.
#[verifier::external_body]
fn blank(width: u32, height: u32) -> (raster: Raster)
    requires
        fits(width, height),
    ensures
        raster_size(raster) == (width, height),
        raster_samples(raster).len() == 3 * width * height,
        forall|i: int|
            0 <= i < raster_samples(raster).len() ==> #[trigger] raster_samples(raster)[i] == 0,
{
    Raster { buffer: ImageBuffer::new(width, height) }
}

/// `ImageBuffer::dimensions`: width and height.
#[verifier::external_body]
fn size(raster: &Raster) -> (dimensions: (u32, u32))
    ensures
        dimensions == raster_size(*raster),
{
    raster.buffer.dimensions()
}

/// `ImageBuffer::put_pixel`: overwrites the three samples of one pixel and
/// nothing else. The call panics outside the image, which the precondition
/// rules out.
#[verifier::external_body]
fn put(raster: &mut Raster, x: u32, y: u32, rgb: [u8; 3])
    requires
        x < raster_size(*old(raster)).0,
        y < raster_size(*old(raster)).1,
    ensures
        raster_size(*final(raster)) == raster_size(*old(raster)),
        raster_samples(*final(raster)) == raster_samples(*old(raster)).update(
            3 * (y * raster_size(*old(raster)).0 + x),
            rgb[0],
        ).update(3 * (y * raster_size(*old(raster)).0 + x) + 1, rgb[1]).update(
            3 * (y * raster_size(*old(raster)).0 + x) + 2,
            rgb[2],
        ),
{
    raster.buffer.put_pixel(x, y, Rgb(rgb))
}

/// `ImageBuffer::get_pixel`: the three samples of one pixel. The call panics
/// outside the image, which the precondition rules out.
#[verifier::external_body]
fn get(raster: &Raster, x: u32, y: u32) -> (rgb: [u8; 3])
    requires
        x < raster_size(*raster).0,
        y < raster_size(*raster).1,
    ensures
        rgb[0] == raster_samples(*raster)[3 * (y * raster_size(*raster).0 + x)],
        rgb[1] == raster_samples(*raster)[3 * (y * raster_size(*raster).0 + x) + 1],
        rgb[2] == raster_samples(*raster)[3 * (y * raster_size(*raster).0 + x) + 2],
{
    raster.buffer.get_pixel(x, y).0
}

/// `ImageBuffer::into_raw`: the samples, in storage order.
#[verifier::external_body]
fn samples(raster: Raster) -> (raw: Vec<u8>)
    ensures
        raw@ == raster_samples(raster),
{
    raster.buffer.into_raw()
}

/// Pixels of one row follow each other, and rows do not overlap: two pixels
/// of a raster share their place only when they are the same pixel.
pub proof fn lemma_offsets_differ(width: nat, x: int, y: int, u: int, v: int)
    requires
        0 <= x < width,
        0 <= u < width,
        0 <= y,
        0 <= v,
        (x, y) != (u, v),
    ensures
        y * width + x != v * width + u,
{
    if y < v {
        assert((y + 1) * width <= v * width) by (nonlinear_arith)
            requires
                y + 1 <= v,
        ;
        assert((y + 1) * width == y * width + width) by (nonlinear_arith);
    } else if v < y {
        assert((v + 1) * width <= y * width) by (nonlinear_arith)
            requires
                v + 1 <= y,
        ;
        assert((v + 1) * width == v * width + width) by (nonlinear_arith);
    }
}

/// Every pixel of a well-formed raster has its three samples inside the
/// sample sequence.
pub proof fn lemma_pixel_in_range(raster: RasterView, x: int, y: int)
    requires
        raster.wf(),
        0 <= x < raster.width,
        0 <= y < raster.height,
    ensures
        0 <= raster.offset(x, y),
        raster.offset(x, y) + 3 <= raster.samples.len(),
{
    let w = raster.width as int;
    let h = raster.height as int;
    assert((y + 1) * w <= h * w) by (nonlinear_arith)
        requires
            y + 1 <= h,
            0 <= w,
    ;
    assert((y + 1) * w == y * w + w) by (nonlinear_arith);
    assert(0 <= y * w) by (nonlinear_arith)
        requires
            0 <= y,
            0 <= w,
    ;
    assert(3 * w * h == 3 * (h * w)) by (nonlinear_arith);
}

impl Raster {
    /// Whether a raster of this size can be held in memory.
    pub fn can_hold(width: u32, height: u32) -> (ok: bool)
        ensures
            ok == fits(width, height),
    {
        let row: u128 = 3 * (width as u128);
        assert(row * height <= 0x3_0000_0000 * 0x1_0000_0000) by (nonlinear_arith)
            requires
                row <= 0x3_0000_0000,
                height <= 0x1_0000_0000,
        ;
        let all: u128 = row * (height as u128);
        row <= usize::MAX as u128 && all <= isize::MAX as u128
    }

    /// A black raster of the given size.
    pub fn new(width: u32, height: u32) -> (raster: Raster)
        requires
            fits(width, height),
        ensures
            raster@.wf(),
            raster@.width == width,
            raster@.height == height,
            forall|i: int| 0 <= i < raster@.samples.len() ==> raster@.samples[i] == 0,
    {
        blank(width, height)
    }

    /// The width in pixels.
    pub fn width(&self) -> (width: u32)
        ensures
            width == self@.width,
    {
        size(self).0
    }

    /// The height in pixels.
    pub fn height(&self) -> (height: u32)
        ensures
            height == self@.height,
    {
        size(self).1
    }

    /// The colour of pixel `(x, y)`, or `None` outside the raster.
    pub fn pixel(&self, x: u32, y: u32) -> (found: Option<[u8; 3]>)
        requires
            self@.wf(),
        ensures
            found matches Some(rgb) ==> x < self@.width && y < self@.height && rgb@
                == self@.pixel(x as int, y as int),
            found is None ==> x >= self@.width || y >= self@.height,
    {
        let (width, height) = size(self);
        if x < width && y < height {
            let rgb = get(self, x, y);
            proof {
                lemma_pixel_in_range(self@, x as int, y as int);
                assert(rgb@ =~= self@.pixel(x as int, y as int));
            }
            Some(rgb)
        } else {
            None
        }
    }

    /// Overwrites pixel `(x, y)` and leaves every other pixel as it was.
    pub fn set_pixel(&mut self, x: u32, y: u32, rgb: [u8; 3])
        requires
            old(self)@.wf(),
            x < old(self)@.width,
            y < old(self)@.height,
        ensures
            final(self)@ == old(self)@.with_pixel(x as int, y as int, rgb@),
            final(self)@.wf(),
            final(self)@.pixel(x as int, y as int) == rgb@,
            forall|u: int, v: int|
                0 <= u < old(self)@.width && 0 <= v < old(self)@.height && (u, v) != (
                    x as int,
                    y as int,
                ) ==> #[trigger] final(self)@.pixel(u, v) == old(self)@.pixel(u, v),
    {
        put(self, x, y, rgb);
        proof {
            let before = old(self)@;
            let after = self@;
            lemma_pixel_in_range(before, x as int, y as int);
            assert(after.samples =~= before.with_pixel(x as int, y as int, rgb@).samples);
            assert(after.pixel(x as int, y as int) =~= rgb@);
            assert forall|u: int, v: int|
                0 <= u < before.width && 0 <= v < before.height && (u, v) != (
                    x as int,
                    y as int,
                ) implies #[trigger] after.pixel(u, v) == before.pixel(u, v) by {
                lemma_offsets_differ(before.width, x as int, y as int, u, v);
                lemma_pixel_in_range(before, u, v);
                assert(after.pixel(u, v) =~= before.pixel(u, v));
            }
        }
    }

    /// Gives up the raster for its samples: three for each pixel, row after
    /// row from the top, pixel after pixel from the left, red, green, blue.
    pub fn into_raw(self) -> (raw: Vec<u8>)
        ensures
            raw@ == self@.samples,
    {
        samples(self)
    }
}

} // verus!
