//! Pixels in row-major order: colors, blending, and where a pixel stands.

use vstd::arithmetic::div_mod::{lemma_fundamental_div_mod, lemma_fundamental_div_mod_converse};
use vstd::prelude::*;

verus! {

/// A color with premultiplied alpha.
#[derive(Clone, Copy, Debug, PartialEq, Eq, Structural)]
pub struct Rgba {
    pub r: u8,
    pub g: u8,
    pub b: u8,
    pub a: u8,
}

impl Rgba {
    /// Opaque white, which modulates nothing.
    pub open spec fn white_spec() -> Rgba {
        Rgba { r: 255, g: 255, b: 255, a: 255 }
    }

    /// Opaque white, which modulates nothing.
    pub fn white() -> (color: Rgba)
        ensures
            color == Rgba::white_spec(),
    {
        Rgba { r: 255, g: 255, b: 255, a: 255 }
    }

    /// This color through another, channel by channel.
    pub open spec fn times(self, other: Rgba) -> Rgba {
        Rgba {
            r: scaled(self.r, other.r),
            g: scaled(self.g, other.g),
            b: scaled(self.b, other.b),
            a: scaled(self.a, other.a),
        }
    }

    /// This color through another, channel by channel.
    pub fn modulate(self, other: Rgba) -> (color: Rgba)
        ensures
            color == self.times(other),
    {
        Rgba {
            r: scale(self.r, other.r),
            g: scale(self.g, other.g),
            b: scale(self.b, other.b),
            a: scale(self.a, other.a),
        }
    }

    /// This color laid over another.
    pub open spec fn over(self, below: Rgba) -> Rgba {
        Rgba {
            r: covered(self.r, below.r, self.a),
            g: covered(self.g, below.g, self.a),
            b: covered(self.b, below.b, self.a),
            a: covered(self.a, below.a, self.a),
        }
    }

    /// This color laid over another: a fully opaque one replaces it, any other
    /// is added to what shows through.
    pub fn blend_over(self, below: Rgba) -> (color: Rgba)
        ensures
            color == self.over(below),
    {
        if self.a == 255 {
            proof {
                law_opaque_covers(self, below);
            }
            return self;
        }
        Rgba {
            r: cover(self.r, below.r, self.a),
            g: cover(self.g, below.g, self.a),
            b: cover(self.b, below.b, self.a),
            a: cover(self.a, below.a, self.a),
        }
    }
}

/// One channel scaled by another, as shares of 255, rounded down.
pub open spec fn scaled(channel: u8, factor: u8) -> u8 {
    (channel * factor / 255) as u8
}

fn scale(channel: u8, factor: u8) -> (result: u8)
    ensures
        result == scaled(channel, factor),
{
    assert(0 <= channel * factor <= 255 * 255) by (nonlinear_arith)
        requires
            0 <= channel <= 255,
            0 <= factor <= 255,
    ;
    let product: u16 = channel as u16 * factor as u16;
    (product / 255) as u8
}

/// One channel over another that shows through an alpha, at most 255.
pub open spec fn covered(above: u8, below: u8, alpha: u8) -> u8 {
    let sum = above + scaled(below, (255 - alpha) as u8);
    if sum < 255 {
        sum as u8
    } else {
        255
    }
}

fn cover(above: u8, below: u8, alpha: u8) -> (result: u8)
    ensures
        result == covered(above, below, alpha),
{
    let sum: u16 = above as u16 + scale(below, 255 - alpha) as u16;
    if sum < 255 {
        sum as u8
    } else {
        255
    }
}

/// A fully opaque color covers whatever is below it.
pub proof fn law_opaque_covers(above: Rgba, below: Rgba)
    requires
        above.a == 255,
    ensures
        above.over(below) == above,
{
    assert(scaled(below.r, 0) == 0 && scaled(below.g, 0) == 0);
    assert(scaled(below.b, 0) == 0 && scaled(below.a, 0) == 0);
}

/// A fully transparent color (premultiplied, so black) leaves what is below it.
pub proof fn law_transparent_leaves(below: Rgba)
    ensures
        (Rgba { r: 0, g: 0, b: 0, a: 0 }).over(below) == below,
{
    assert(scaled(below.r, 255) == below.r);
    assert(scaled(below.g, 255) == below.g);
    assert(scaled(below.b, 255) == below.b);
    assert(scaled(below.a, 255) == below.a);
}

/// White modulates nothing, and modulation never brightens.
pub proof fn law_modulation(color: Rgba, other: Rgba)
    ensures
        color.times(Rgba::white_spec()) == color,
        color.times(other).r <= color.r && color.times(other).r <= other.r,
        color.times(other).g <= color.g && color.times(other).g <= other.g,
        color.times(other).b <= color.b && color.times(other).b <= other.b,
        color.times(other).a <= color.a && color.times(other).a <= other.a,
{
    lemma_scaled_bounds(color.r, other.r);
    lemma_scaled_bounds(color.g, other.g);
    lemma_scaled_bounds(color.b, other.b);
    lemma_scaled_bounds(color.a, other.a);
    assert(scaled(color.r, 255) == color.r);
    assert(scaled(color.g, 255) == color.g);
    assert(scaled(color.b, 255) == color.b);
    assert(scaled(color.a, 255) == color.a);
}

proof fn lemma_scaled_bounds(channel: u8, factor: u8)
    ensures
        scaled(channel, factor) <= channel,
        scaled(channel, factor) <= factor,
{
    assert(0 <= channel * factor && channel * factor <= 255 * channel && channel * factor <= 255
        * factor) by (nonlinear_arith)
        requires
            0 <= channel <= 255,
            0 <= factor <= 255,
    ;
}

/// An opaque background stays opaque whatever is laid over it.
pub proof fn law_opaque_background_stays(above: Rgba, below: Rgba)
    requires
        below.a == 255,
    ensures
        above.over(below).a == 255,
{
    assert(scaled(255, (255 - above.a) as u8) == 255 - above.a);
}

/// Where the pixel of a column and row stands in row-major order, and that it
/// can be told from there.
pub proof fn lemma_cell(x: int, y: int, width: int, height: int)
    requires
        0 <= x < width,
        0 <= y < height,
    ensures
        0 <= y * width + x < width * height,
        (y * width + x) / width == y,
        (y * width + x) % width == x,
{
    assert(0 <= y * width && y * width + x < width * height) by (nonlinear_arith)
        requires
            0 <= x < width,
            0 <= y < height,
    ;
    lemma_fundamental_div_mod_converse(y * width + x, width, y, x);
}

/// The column and row of a pixel in row-major order.
pub proof fn lemma_cell_of(i: int, width: int, height: int)
    requires
        0 < width,
        0 <= i < width * height,
    ensures
        0 <= i % width < width,
        0 <= i / width < height,
        i == (i / width) * width + i % width,
{
    lemma_fundamental_div_mod(i, width);
    let row = i / width;
    assert(row * width == width * row) by (nonlinear_arith);
    assert(0 <= i / width) by (nonlinear_arith)
        requires
            0 <= i,
            0 < width,
    ;
    assert(row < height) by (nonlinear_arith)
        requires
            width * row <= i,
            i < width * height,
            0 < width,
    ;
}

/// The four bytes of a pixel, in the order of the buffer.
#[derive(Clone, Copy, Debug, PartialEq, Eq, Structural)]
pub struct Quad {
    pub c0: u8,
    pub c1: u8,
    pub c2: u8,
    pub c3: u8,
}

/// The pixel of a column and row in a buffer of four bytes per pixel.
pub open spec fn pixel_at(bytes: Seq<u8>, width: int, x: int, y: int) -> Quad {
    let k = (y * width + x) * 4;
    Quad { c0: bytes[k], c1: bytes[k + 1], c2: bytes[k + 2], c3: bytes[k + 3] }
}

/// The four bytes from an offset on with the first and third exchanged: from blue,
/// green, red to red, green, blue, or back.
pub open spec fn swapped_at(bytes: Seq<u8>, offset: int) -> Quad {
    Quad {
        c0: bytes[offset + 2],
        c1: bytes[offset + 1],
        c2: bytes[offset],
        c3: bytes[offset + 3],
    }
}

/// Different pixels have different places.
pub proof fn lemma_cells_differ(x: int, y: int, u: int, v: int, width: int, height: int)
    requires
        0 <= x < width,
        0 <= y < height,
        0 <= u < width,
        0 <= v < height,
        !(x == u && y == v),
    ensures
        y * width + x != v * width + u,
{
    lemma_cell(x, y, width, height);
    lemma_cell(u, v, width, height);
}

/// Set one pixel of a buffer, and no other.
pub fn put_pixel(bytes: &mut Vec<u8>, width: usize, height: usize, x: usize, y: usize, pixel: Quad)
    requires
        old(bytes)@.len() == width * height * 4,
        x < width,
        y < height,
    ensures
        final(bytes)@.len() == old(bytes)@.len(),
        forall|u: int, v: int|
            0 <= u < width && 0 <= v < height ==> #[trigger] pixel_at(
                final(bytes)@,
                width as int,
                u,
                v,
            ) == if u == x && v == y {
                pixel
            } else {
                pixel_at(old(bytes)@, width as int, u, v)
            },
{
    proof {
        lemma_cell(x as int, y as int, width as int, height as int);
        assert((y * width + x) * 4 + 3 < bytes.len());
    }
    let k: usize = (y * width + x) * 4;
    bytes.set(k, pixel.c0);
    bytes.set(k + 1, pixel.c1);
    bytes.set(k + 2, pixel.c2);
    bytes.set(k + 3, pixel.c3);
    assert forall|u: int, v: int| 0 <= u < width && 0 <= v < height implies #[trigger] pixel_at(
        bytes@,
        width as int,
        u,
        v,
    ) == if u == x && v == y {
        pixel
    } else {
        pixel_at(old(bytes)@, width as int, u, v)
    } by {
        lemma_cell(u, v, width as int, height as int);
        if !(u == x && v == y) {
            lemma_cells_differ(u, v, x as int, y as int, width as int, height as int);
        }
    }
}

/// Exchanging red and blue twice gives back the pixel.
pub proof fn law_swap_twice(bytes: Seq<u8>, offset: int)
    ensures
        ({
            let once = swapped_at(bytes, offset);
            let again = swapped_at(seq![once.c0, once.c1, once.c2, once.c3], 0);
            again == Quad {
                c0: bytes[offset],
                c1: bytes[offset + 1],
                c2: bytes[offset + 2],
                c3: bytes[offset + 3],
            }
        }),
{
}

/// A channel scaled by another is the largest whole number that 255 times over does not
/// exceed their product, and it is the same either way round.
pub proof fn law_scaling(channel: u8, factor: u8)
    ensures
        255 * scaled(channel, factor) <= channel * factor,
        channel * factor < 255 * scaled(channel, factor) + 255,
        scaled(channel, factor) == scaled(factor, channel),
{
    lemma_scaled_bounds(channel, factor);
    assert(channel * factor == factor * channel) by (nonlinear_arith);
    assert(0 <= channel * factor <= 255 * 255) by (nonlinear_arith)
        requires
            0 <= channel <= 255,
            0 <= factor <= 255,
    ;
}

/// Colors mix channel by channel: through another color each channel is scaled by its own
/// counterpart, and over another each is added to what the alpha lets through of its own
/// counterpart, at most to full.
pub proof fn law_channels_do_not_mix(above: Rgba, below: Rgba)
    ensures
        ({
            let through = above.times(below);
            &&& through.r == scaled(above.r, below.r)
            &&& through.g == scaled(above.g, below.g)
            &&& through.b == scaled(above.b, below.b)
            &&& through.a == scaled(above.a, below.a)
        }),
        ({
            let mixed = above.over(below);
            let open = (255 - above.a) as u8;
            let full = |sum: int| if sum > 255 {
                255
            } else {
                sum
            };
            &&& mixed.r == full(above.r + scaled(below.r, open))
            &&& mixed.g == full(above.g + scaled(below.g, open))
            &&& mixed.b == full(above.b + scaled(below.b, open))
            &&& mixed.a == full(above.a + scaled(below.a, open))
        }),
{
}

/// Pixels stand in rows from left to right, row after row, each in four bytes: the first
/// pixel at the start, the next column four bytes on, the next row four bytes on for each
/// column.
pub proof fn law_pixels_stand_in_rows(bytes: Seq<u8>, width: int, x: int, y: int)
    ensures
        ({
            let pixel = pixel_at(bytes, width, x, y);
            let start = 4 * width * y + 4 * x;
            &&& pixel.c0 == bytes[start]
            &&& pixel.c1 == bytes[start + 1]
            &&& pixel.c2 == bytes[start + 2]
            &&& pixel.c3 == bytes[start + 3]
        }),
{
    assert((y * width + x) * 4 == 4 * width * y + 4 * x) by (nonlinear_arith);
}

/// A pixel whose first and third bytes are exchanged has the others in place.
pub proof fn law_swap_exchanges_two(bytes: Seq<u8>, offset: int)
    ensures
        swapped_at(bytes, offset).c0 == bytes[offset + 2],
        swapped_at(bytes, offset).c1 == bytes[offset + 1],
        swapped_at(bytes, offset).c2 == bytes[offset],
        swapped_at(bytes, offset).c3 == bytes[offset + 3],
{
}

} // verus!
