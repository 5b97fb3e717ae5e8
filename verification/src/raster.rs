//! The pixel buffer: a flat, row-major grid of 4-channel 8-bit colors.
//!
//! Pixel `(x, y)` occupies the four bytes starting at offset
//! `(y * width + x) * 4`, channels in R, G, B, A order. Reads are
//! precondition-guarded (an out-of-range read is excluded by `requires`,
//! mirroring the unchecked read path), while writes are bounds-checked and
//! silently dropped when out of range.

use vstd::prelude::*;

verus! {

/// A 4-channel 8-bit color: red, green, blue, alpha. No invariant beyond
/// each channel's own `[0, 255]` range.
#[derive(Clone, Copy, Debug, PartialEq, Eq, Structural)]
pub struct Rgba {
    pub r: u8,
    pub g: u8,
    pub b: u8,
    pub a: u8,
}

impl Rgba {
    pub fn new(r: u8, g: u8, b: u8, a: u8) -> (c: Rgba)
        ensures
            c == (Rgba { r, g, b, a }),
    {
        Rgba { r, g, b, a }
    }
}

/// Byte offset of pixel `(x, y)` in a buffer `width` pixels wide.
pub open spec fn pixel_offset(width: int, x: int, y: int) -> int {
    (y * width + x) * 4
}

/// The color stored at pixel `(x, y)` of a raw byte sequence.
pub open spec fn pixel_at(data: Seq<u8>, width: int, x: int, y: int) -> Rgba {
    Rgba {
        r: data[pixel_offset(width, x, y)],
        g: data[pixel_offset(width, x, y) + 1],
        b: data[pixel_offset(width, x, y) + 2],
        a: data[pixel_offset(width, x, y) + 3],
    }
}

/// The byte sequence after writing color `c` at pixel `(x, y)`.
pub open spec fn store_pixel(data: Seq<u8>, width: int, x: int, y: int, c: Rgba) -> Seq<u8> {
    data.update(pixel_offset(width, x, y), c.r)
        .update(pixel_offset(width, x, y) + 1, c.g)
        .update(pixel_offset(width, x, y) + 2, c.b)
        .update(pixel_offset(width, x, y) + 3, c.a)
}

/// An in-bounds pixel's four bytes lie inside a `width * height * 4`-byte
/// buffer.
pub proof fn lemma_pixel_offset_in_bounds(width: int, height: int, x: int, y: int)
    requires
        0 <= x < width,
        0 <= y < height,
    ensures
        0 <= pixel_offset(width, x, y),
        pixel_offset(width, x, y) + 4 <= width * height * 4,
{
    assert(0 <= y * width + x && (y * width + x) + 1 <= width * height) by (nonlinear_arith)
        requires
            0 <= x < width,
            0 <= y < height,
    ;
}

/// Two distinct in-bounds pixels occupy disjoint 4-byte ranges.
pub proof fn lemma_pixel_offset_disjoint(width: int, x1: int, y1: int, x2: int, y2: int)
    requires
        0 <= x1 < width,
        0 <= y1,
        0 <= x2 < width,
        0 <= y2,
        !(x1 == x2 && y1 == y2),
    ensures
        pixel_offset(width, x1, y1) + 4 <= pixel_offset(width, x2, y2) || pixel_offset(
            width,
            x2,
            y2,
        ) + 4 <= pixel_offset(width, x1, y1),
{
    assert((y1 * width + x1) + 1 <= y2 * width + x2 || (y2 * width + x2) + 1 <= y1 * width
        + x1) by (nonlinear_arith)
        requires
            0 <= x1 < width,
            0 <= y1,
            0 <= x2 < width,
            0 <= y2,
            !(x1 == x2 && y1 == y2),
    ;
}

/// Law: writing a color at an in-bounds pixel and then reading that pixel
/// back returns exactly that color, byte for byte.
pub proof fn lemma_write_then_read(
    data: Seq<u8>,
    width: int,
    height: int,
    x: int,
    y: int,
    c: Rgba,
)
    requires
        data.len() == width * height * 4,
        0 <= x < width,
        0 <= y < height,
    ensures
        pixel_at(store_pixel(data, width, x, y, c), width, x, y) == c,
{
    lemma_pixel_offset_in_bounds(width, height, x, y);
}

/// Law: writing a color at one in-bounds pixel leaves the stored color of
/// every other in-bounds pixel unchanged.
pub proof fn lemma_write_preserves_others(
    data: Seq<u8>,
    width: int,
    height: int,
    x: int,
    y: int,
    c: Rgba,
    ox: int,
    oy: int,
)
    requires
        data.len() == width * height * 4,
        0 <= x < width,
        0 <= y < height,
        0 <= ox < width,
        0 <= oy < height,
        !(ox == x && oy == y),
    ensures
        pixel_at(store_pixel(data, width, x, y, c), width, ox, oy) == pixel_at(
            data,
            width,
            ox,
            oy,
        ),
{
    lemma_pixel_offset_in_bounds(width, height, x, y);
    lemma_pixel_offset_in_bounds(width, height, ox, oy);
    lemma_pixel_offset_disjoint(width, x, y, ox, oy);
}

/// Law: along a row the next pixel's byte offset is exactly 4 further, and
/// the pixel one row down is exactly `width * 4` further.
pub proof fn lemma_pixel_offset_adjacent(width: int, x: int, y: int)
    ensures
        pixel_offset(width, x + 1, y) == pixel_offset(width, x, y) + 4,
        pixel_offset(width, x, y + 1) == pixel_offset(width, x, y) + width * 4,
{
    assert((y * width + (x + 1)) * 4 == (y * width + x) * 4 + 4 && ((y + 1) * width + x) * 4 == (y
        * width + x) * 4 + width * 4) by (nonlinear_arith);
}

/// A row-major in-memory image: `width * height` pixels of 4 bytes each.
pub struct Image {
    width: usize,
    height: usize,
    data: Vec<u8>,
}

impl Image {
    pub const BYTES_PER_PIXEL: usize = 4;

    /// The buffer's width in pixels.
    pub closed spec fn spec_width(self) -> int {
        self.width as int
    }

    /// The buffer's height in pixels.
    pub closed spec fn spec_height(self) -> int {
        self.height as int
    }

    /// The buffer's raw bytes, row-major, top-to-bottom, R,G,B,A per pixel.
    pub closed spec fn bytes(self) -> Seq<u8> {
        self.data@
    }

    /// Well-formedness: the byte store is exactly `width * height * 4` long.
    /// Established at construction and never broken: the buffer is never
    /// resized.
    pub open spec fn wf(self) -> bool {
        self.bytes().len() == self.spec_width() * self.spec_height() * 4
    }

    /// The color stored at pixel `(x, y)`.
    pub open spec fn spec_pixel(self, x: int, y: int) -> Rgba {
        pixel_at(self.bytes(), self.spec_width(), x, y)
    }

    /// Allocates a zero-initialized buffer: every byte 0, so every pixel is
    /// transparent black. The caller rules out a byte length that would
    /// overflow the addressable size.
    pub fn new(width: usize, height: usize) -> (img: Image)
        requires
            width * height * 4 <= usize::MAX,
        ensures
            img.wf(),
            img.spec_width() == width,
            img.spec_height() == height,
            forall|i: int| 0 <= i < img.bytes().len() ==> img.bytes()[i] == 0u8,
            forall|x: int, y: int|
                0 <= x < width && 0 <= y < height ==> #[trigger] img.spec_pixel(x, y) == (Rgba {
                    r: 0u8,
                    g: 0u8,
                    b: 0u8,
                    a: 0u8,
                }),
    {
        proof {
            assert((width * height) * 4 == width * height * 4) by (nonlinear_arith);
        }
        let len: usize = width * height * Self::BYTES_PER_PIXEL;
        let mut data: Vec<u8> = Vec::new();
        while data.len() < len
            invariant
                data.len() <= len,
                forall|i: int| 0 <= i < data@.len() ==> data@[i] == 0u8,
            decreases len - data.len(),
        {
            data.push(0u8);
        }
        let img = Image { width, height, data };
        proof {
            assert forall|x: int, y: int| 0 <= x < width && 0 <= y < height implies #[trigger] img
                .spec_pixel(x, y) == (Rgba { r: 0u8, g: 0u8, b: 0u8, a: 0u8 }) by {
                lemma_pixel_offset_in_bounds(width as int, height as int, x, y);
            }
        }
        img
    }

    /// Byte offset of in-bounds pixel `(x, y)`: `(y * width + x) * 4`.
    fn pixel_index(&self, x: usize, y: usize) -> (index: usize)
        requires
            self.wf(),
            x < self.spec_width(),
            y < self.spec_height(),
        ensures
            index == pixel_offset(self.spec_width(), x as int, y as int),
            index + 4 <= self.bytes().len(),
    {
        proof {
            lemma_pixel_offset_in_bounds(self.spec_width(), self.spec_height(), x as int, y as int);
            vstd::std_specs::vec::axiom_spec_len(&self.data);
            assert(self.bytes().len() <= usize::MAX);
            assert(y * self.spec_width() + x <= pixel_offset(self.spec_width(), x as int, y as int));
        }
        (y * self.width + x) * Self::BYTES_PER_PIXEL
    }

    /// Returns the stored color at `(x, y)`. The read path is unchecked:
    /// out-of-range coordinates are excluded by precondition rather than
    /// tested at run time.
    pub fn get_pixel(&self, x: usize, y: usize) -> (c: Rgba)
        requires
            self.wf(),
            x < self.spec_width(),
            y < self.spec_height(),
        ensures
            c == self.spec_pixel(x as int, y as int),
    {
        let index = self.pixel_index(x, y);

        let r = self.data[index + 0];
        let g = self.data[index + 1];
        let b = self.data[index + 2];
        let a = self.data[index + 3];
        Rgba::new(r, g, b, a)
    }

    /// Writes `color` at `(x, y)` if both coordinates are in bounds;
    /// otherwise the call is a silent no-op and the stored bytes are left
    /// completely unchanged.
    pub fn set_pixel(&mut self, x: usize, y: usize, color: Rgba)
        requires
            old(self).wf(),
        ensures
            final(self).wf(),
            final(self).spec_width() == old(self).spec_width(),
            final(self).spec_height() == old(self).spec_height(),
            x < old(self).spec_width() && y < old(self).spec_height() ==> final(self).bytes()
                == store_pixel(
                old(self).bytes(),
                old(self).spec_width(),
                x as int,
                y as int,
                color,
            ),
            x < old(self).spec_width() && y < old(self).spec_height() ==> final(self).spec_pixel(
                x as int,
                y as int,
            ) == color,
            !(x < old(self).spec_width() && y < old(self).spec_height()) ==> final(self).bytes()
                == old(self).bytes(),
    {
        if x >= self.width || y >= self.height {
            return;
        }
        proof {
            lemma_write_then_read(
                self.bytes(),
                self.spec_width(),
                self.spec_height(),
                x as int,
                y as int,
                color,
            );
        }

        let index = self.pixel_index(x, y);

        self.data[index + 0] = color.r;
        self.data[index + 1] = color.g;
        self.data[index + 2] = color.b;
        self.data[index + 3] = color.a;
    }

    /// The buffer's width in pixels.
    pub fn width(&self) -> (w: usize)
        ensures
            w == self.spec_width(),
    {
        self.width
    }

    /// The buffer's height in pixels.
    pub fn height(&self) -> (h: usize)
        ensures
            h == self.spec_height(),
    {
        self.height
    }

    /// The raw byte store, for handing the finished buffer to an encoder.
    pub fn data(&self) -> (d: &Vec<u8>)
        ensures
            d@ == self.bytes(),
    {
        &self.data
    }
}

} // verus!
