//! The desktop scaled to a panel: nearest neighbours, turned upside down, with
//! opaque red, green, blue from the display's blue, green, red.

use crate::pixels::{pixel_at, put_pixel, Quad};
use crate::scalar::Scalar;
use vstd::arithmetic::div_mod::{lemma_fundamental_div_mod, lemma_mod_bound};
use vstd::prelude::*;

verus! {

/// A captured picture of the display.
#[derive(Clone, Debug)]
pub struct FrameData {
    pub data: Vec<u8>,
    pub width: usize,
    pub height: usize,
    /// Bytes from one row to the next.
    pub pitch: usize,
    pub bytes_per_pixel: usize,
}

impl FrameData {
    /// Offsets into the picture can be counted.
    pub open spec fn countable(self, target_width: int, target_height: int) -> bool {
        &&& self.height * self.pitch + self.width * self.bytes_per_pixel <= usize::MAX - 4
        &&& self.height * target_height <= usize::MAX
        &&& self.width * target_width <= usize::MAX
    }
}

/// The source row or column that a target row or column shows.
pub open spec fn source_line(line: int, source: int, target: int) -> int {
    line * source / target
}

/// The byte that a target pixel is read from.
pub open spec fn source_offset(
    frame: FrameData,
    target_width: int,
    target_height: int,
    x: int,
    y: int,
) -> int {
    source_line(target_height - 1 - y, frame.height as int, target_height) * frame.pitch
        + source_line(x, frame.width as int, target_width) * frame.bytes_per_pixel
}

/// The pixel that the picture gives a target pixel.
pub open spec fn shown_pixel(
    frame: FrameData,
    target_width: int,
    target_height: int,
    x: int,
    y: int,
) -> Option<Quad> {
    let k = source_offset(frame, target_width, target_height, x, y);
    if k + 3 < frame.data@.len() {
        Some(
            Quad { c0: frame.data@[k + 2], c1: frame.data@[k + 1], c2: frame.data@[k], c3: 255 },
        )
    } else {
        None
    }
}

proof fn lemma_source_line(line: int, source: int, target: int)
    requires
        0 <= line < target,
        0 <= source,
    ensures
        0 <= source_line(line, source, target) <= source,
        source > 0 ==> source_line(line, source, target) < source,
        0 <= line * source <= target * source,
{
    assert(0 <= line * source <= target * source) by (nonlinear_arith)
        requires
            0 <= line < target,
            0 <= source,
    ;
    assert(0 <= line * source / target <= source) by (nonlinear_arith)
        requires
            0 <= line * source <= target * source,
            0 < target,
    ;
    if source > 0 {
        assert(line * source < target * source) by (nonlinear_arith)
            requires
                0 <= line < target,
                0 < source,
        ;
        assert(line * source / target < source) by (nonlinear_arith)
            requires
                0 <= line * source < target * source,
                0 < target,
        ;
    }
}

/// The desktop as a panel shows it.
pub struct ScreenCapture {
    width: u32,
    height: u32,
    pixel_buffer: Vec<u8>,
    frame_count: u64,
}

impl ScreenCapture {
    /// The panel's width.
    pub closed spec fn columns(self) -> int {
        self.width as int
    }

    /// The panel's height.
    pub closed spec fn rows(self) -> int {
        self.height as int
    }

    /// The panel's RGBA bytes.
    pub closed spec fn bytes(self) -> Seq<u8> {
        self.pixel_buffer@
    }

    /// How many pictures were shown.
    pub closed spec fn frames(self) -> int {
        self.frame_count as int
    }

    /// There are four bytes for each pixel.
    pub closed spec fn wf(self) -> bool {
        self.pixel_buffer@.len() == self.width * self.height * 4
    }

    /// A capture for panels of this size, all zero at first.
    pub fn new(width: u32, height: u32) -> (capture: Self)
        requires
            width * height * 4 <= u32::MAX,
        ensures
            capture.wf(),
            capture.columns() == width,
            capture.rows() == height,
            capture.bytes() == Seq::new((width * height * 4) as nat, |i: int| 0u8),
            capture.frames() == 0,
    {
        assert(width * height <= width * height * 4) by (nonlinear_arith)
            requires
                width >= 0,
                height >= 0,
        ;
        let area: u32 = width * height;
        let length: usize = (area * 4) as usize;
        let pixel_buffer: Vec<u8> = vec![0u8; length];
        let capture = ScreenCapture { width, height, pixel_buffer, frame_count: 0 };
        assert(capture.bytes() =~= Seq::new((width * height * 4) as nat, |i: int| 0u8));
        capture
    }

    /// Show a captured picture. A pixel that the picture does not reach stays as
    /// it was. Returns the panel's pixels.
    pub fn capture(&mut self, frame: &FrameData) -> (pixels: &[u8])
        requires
            old(self).wf(),
            old(self).frames() < u64::MAX,
            frame.countable(old(self).columns(), old(self).rows()),
        ensures
            final(self).wf(),
            final(self).columns() == old(self).columns(),
            final(self).rows() == old(self).rows(),
            final(self).frames() == old(self).frames() + 1,
            pixels@ == final(self).bytes(),
            forall|x: int, y: int|
                0 <= x < old(self).columns() && 0 <= y < old(self).rows() ==> #[trigger] pixel_at(
                    final(self).bytes(),
                    old(self).columns(),
                    x,
                    y,
                ) == match shown_pixel(*frame, old(self).columns(), old(self).rows(), x, y) {
                    Some(pixel) => pixel,
                    None => pixel_at(old(self).bytes(), old(self).columns(), x, y),
                },
    {
        let width: usize = self.width as usize;
        let height: usize = self.height as usize;
        let ghost before = self.pixel_buffer@;
        let mut y: usize = 0;
        while y < height
            invariant
                y <= height,
                width == self.width,
                height == self.height,
                self.frame_count < u64::MAX,
                self.frame_count == old(self).frame_count,
                self.width == old(self).width,
                self.height == old(self).height,
                self.pixel_buffer@.len() == width * height * 4,
                before.len() == width * height * 4,
                frame.countable(width as int, height as int),
                forall|u: int, v: int|
                    0 <= u < width && 0 <= v < height ==> #[trigger] pixel_at(
                        self.pixel_buffer@,
                        width as int,
                        u,
                        v,
                    ) == if v < y {
                        match shown_pixel(*frame, width as int, height as int, u, v) {
                            Some(pixel) => pixel,
                            None => pixel_at(before, width as int, u, v),
                        }
                    } else {
                        pixel_at(before, width as int, u, v)
                    },
            decreases height - y,
        {
            let ghost mid = self.pixel_buffer@;
            self.capture_row(frame, y);
            assert forall|u: int, v: int| 0 <= u < width && 0 <= v < height implies
                #[trigger] pixel_at(self.pixel_buffer@, width as int, u, v) == if v < y + 1 {
                match shown_pixel(*frame, width as int, height as int, u, v) {
                    Some(pixel) => pixel,
                    None => pixel_at(before, width as int, u, v),
                }
            } else {
                pixel_at(before, width as int, u, v)
            } by {
                assert(pixel_at(mid, width as int, u, v) == if v < y {
                    match shown_pixel(*frame, width as int, height as int, u, v) {
                        Some(pixel) => pixel,
                        None => pixel_at(before, width as int, u, v),
                    }
                } else {
                    pixel_at(before, width as int, u, v)
                });
                assert(pixel_at(self.bytes(), width as int, u, v) == pixel_at(
                    self.pixel_buffer@,
                    width as int,
                    u,
                    v,
                ));
            }
            y += 1;
        }
        self.frame_count = self.frame_count + 1;
        self.pixel_buffer.as_slice()
    }

    fn capture_row(&mut self, frame: &FrameData, y: usize)
        requires
            old(self).wf(),
            y < old(self).rows(),
            frame.countable(old(self).columns(), old(self).rows()),
        ensures
            final(self).wf(),
            final(self).columns() == old(self).columns(),
            final(self).rows() == old(self).rows(),
            final(self).frames() == old(self).frames(),
            forall|u: int, v: int|
                0 <= u < old(self).columns() && 0 <= v < old(self).rows() ==> #[trigger] pixel_at(
                    final(self).bytes(),
                    old(self).columns(),
                    u,
                    v,
                ) == if v == y {
                    match shown_pixel(*frame, old(self).columns(), old(self).rows(), u, v) {
                        Some(pixel) => pixel,
                        None => pixel_at(old(self).bytes(), old(self).columns(), u, v),
                    }
                } else {
                    pixel_at(old(self).bytes(), old(self).columns(), u, v)
                },
    {
        let width: usize = self.width as usize;
        let height: usize = self.height as usize;
        let ghost before = self.pixel_buffer@;
        proof {
            lemma_source_line(height - 1 - y, frame.height as int, height as int);
            let row = source_line(height - 1 - y, frame.height as int, height as int);
            assert(0 <= row * frame.pitch <= frame.height * frame.pitch) by (nonlinear_arith)
                requires
                    0 <= row <= frame.height,
                    0 <= frame.pitch,
            ;
            assert(0 <= frame.width * frame.bytes_per_pixel) by (nonlinear_arith)
                requires
                    frame.width >= 0,
                    frame.bytes_per_pixel >= 0,
            ;
            assert((height - 1 - y) * frame.height <= frame.height * height) by (nonlinear_arith)
                requires
                    (height - 1 - y) * frame.height <= height * frame.height,
            ;
        }
        let row: usize = (height - 1 - y) * frame.height / height;
        let src_row: usize = row * frame.pitch;
        let mut x: usize = 0;
        while x < width
            invariant
                x <= width,
                y < height,
                width == self.width,
                height == self.height,
                self.frame_count == old(self).frame_count,
                self.width == old(self).width,
                self.height == old(self).height,
                self.pixel_buffer@.len() == width * height * 4,
                src_row == source_line(height - 1 - y, frame.height as int, height as int)
                    * frame.pitch,
                src_row <= frame.height * frame.pitch,
                frame.countable(width as int, height as int),
                forall|u: int, v: int|
                    0 <= u < width && 0 <= v < height ==> #[trigger] pixel_at(
                        self.pixel_buffer@,
                        width as int,
                        u,
                        v,
                    ) == if v == y && u < x {
                        match shown_pixel(*frame, width as int, height as int, u, v) {
                            Some(pixel) => pixel,
                            None => pixel_at(before, width as int, u, v),
                        }
                    } else {
                        pixel_at(before, width as int, u, v)
                    },
            decreases width - x,
        {
            proof {
                lemma_source_line(x as int, frame.width as int, width as int);
                let column = source_line(x as int, frame.width as int, width as int);
                assert(0 <= column * frame.bytes_per_pixel <= frame.width * frame.bytes_per_pixel)
                    by (nonlinear_arith)
                    requires
                        0 <= column <= frame.width,
                        0 <= frame.bytes_per_pixel,
                ;
                assert(x * frame.width <= frame.width * width) by (nonlinear_arith)
                    requires
                        x * frame.width <= width * frame.width,
                ;
            }
            let column: usize = x * frame.width / width;
            let offset: usize = src_row + column * frame.bytes_per_pixel;
            assert(offset == source_offset(*frame, width as int, height as int, x as int, y as int));
            if offset + 3 < frame.data.len() {
                let pixel = Quad {
                    c0: frame.data[offset + 2],
                    c1: frame.data[offset + 1],
                    c2: frame.data[offset],
                    c3: 255,
                };
                put_pixel(&mut self.pixel_buffer, width, height, x, y, pixel);
            }
            x += 1;
        }
    }
}

/// The pixel of a screen this many pixels long that is at a share of it. What lies beyond
/// the pixels that can be counted is the last of them.
pub fn screen_pixel(share: Scalar, extent: u32) -> (pixel: i32)
    ensures
        pixel == share.times(Scalar::of_count(extent as int)).truncated(),
{
    share.product(Scalar::from_count(extent as u128)).to_i32()
}

/// A coordinate of the screen in the units of absolute mouse input, which span
/// the screen from 0 to 65535. The fraction of a unit is dropped.
pub fn absolute_coordinate(position: i32, screen: i32) -> (absolute: i32)
    requires
        0 < screen,
        -(i32::MAX / 65535) <= position <= i32::MAX / 65535,
    ensures
        absolute == if position >= 0 {
            position * 65535 / screen as int
        } else {
            -(-position * 65535 / screen as int)
        },
        0 <= position <= screen ==> 0 <= absolute <= 65535,
        0 <= position ==> absolute * screen <= position * 65535 < absolute * screen + screen,
        position <= 0 ==> absolute * screen - screen < position * 65535 <= absolute * screen,
{
    let magnitude: i32 = if position >= 0 {
        position
    } else {
        -position
    };
    assert(0 <= magnitude * 65535 / screen as int <= magnitude * 65535) by (nonlinear_arith)
        requires
            0 <= magnitude,
            0 < screen,
    ;
    if magnitude <= screen {
        assert(magnitude * 65535 / screen as int <= 65535) by (nonlinear_arith)
            requires
                0 <= magnitude <= screen,
                0 < screen,
        ;
    }
    proof {
        let exact = magnitude * 65535;
        let share = exact / screen as int;
        lemma_fundamental_div_mod(exact as int, screen as int);
        lemma_mod_bound(exact as int, screen as int);
        assert(screen * share == share * screen && (-share) * screen == -(share * screen))
            by (nonlinear_arith);
    }
    let distance: i32 = magnitude * 65535 / screen;
    if position >= 0 {
        distance
    } else {
        -distance
    }
}

/// A picture of the panel's own size is shown pixel for pixel, its last row on
/// top.
pub proof fn law_same_size_flips(frame: FrameData, x: int, y: int)
    requires
        frame.width > 0,
        frame.height > 0,
        frame.bytes_per_pixel == 4,
        0 <= x < frame.width,
        0 <= y < frame.height,
    ensures
        source_offset(frame, frame.width as int, frame.height as int, x, y) == (frame.height - 1
            - y) * frame.pitch + x * 4,
{
    let width = frame.width as int;
    let height = frame.height as int;
    let line = height - 1 - y;
    vstd::arithmetic::div_mod::lemma_div_multiples_vanish(line, height);
    vstd::arithmetic::div_mod::lemma_div_multiples_vanish(x, width);
    assert(line * height == height * line) by (nonlinear_arith);
    assert(x * width == width * x) by (nonlinear_arith);
}

/// Every row and column shown lies in the picture.
pub proof fn law_source_is_inside(line: int, source: int, target: int)
    requires
        0 <= line < target,
        0 < source,
    ensures
        0 <= source_line(line, source, target) < source,
{
    lemma_source_line(line, source, target);
}

/// The whole picture is shown, whatever its size and the panel's: across, the pixel at `x`
/// shows the column that lies as far into the picture as `x` lies into the panel, and down,
/// the picture is upside down. The three colors of the source pixel come in the opposite
/// order, and the pixel is opaque; where the picture's bytes end there is nothing to show.
pub proof fn law_whole_picture_is_shown(
    frame: FrameData,
    width: int,
    height: int,
    x: int,
    y: int,
    column: int,
    row: int,
)
    requires
        0 <= x < width,
        0 <= y < height,
        column * width <= x * frame.width < (column + 1) * width,
        row * height <= (height - 1 - y) * frame.height < (row + 1) * height,
    ensures
        ({
            let k = row * frame.pitch + column * frame.bytes_per_pixel;
            let data = frame.data@;
            let shown = shown_pixel(frame, width, height, x, y);
            &&& k + 3 < data.len() ==> shown is Some && shown->0.c0 == data[k + 2] && shown->0.c1
                == data[k + 1] && shown->0.c2 == data[k] && shown->0.c3 == 255
            &&& k + 3 >= data.len() ==> shown is None
        }),
{
    lemma_line_is(x, frame.width as int, width, column);
    lemma_line_is(height - 1 - y, frame.height as int, height, row);
}

proof fn lemma_line_is(line: int, source: int, target: int, at: int)
    requires
        0 < target,
        at * target <= line * source < (at + 1) * target,
    ensures
        source_line(line, source, target) == at,
{
    let n = line * source;
    let rest = n - at * target;
    assert((at + 1) * target == at * target + target) by (nonlinear_arith);
    assert(at * target == target * at) by (nonlinear_arith);
    vstd::arithmetic::div_mod::lemma_fundamental_div_mod_converse(n, target, at, rest);
}

/// Every pixel of the panel shows some pixel of the picture, the first the first and the
/// last one of the last: no part of the picture is cut off at either side.
pub proof fn law_lines_span_the_picture(line: int, source: int, target: int)
    requires
        0 <= line < target,
        0 < source,
    ensures
        ({
            let at = source_line(line, source, target);
            &&& 0 <= at < source
            &&& at * target <= line * source < (at + 1) * target
            &&& line == 0 ==> at == 0
            &&& line == target - 1 && source >= target ==> (source - at) * target <= source
                + target - 1
        }),
{
    let n = line * source;
    let at = source_line(line, source, target);
    lemma_source_line(line, source, target);
    vstd::arithmetic::div_mod::lemma_fundamental_div_mod(n, target);
    assert(target * at == at * target) by (nonlinear_arith);
    assert((at + 1) * target == at * target + target) by (nonlinear_arith);
    assert((source - at) * target == source * target - at * target) by (nonlinear_arith);
    assert((target - 1) * source == source * target - source) by (nonlinear_arith);
    if line == 0 {
        assert(n == 0) by (nonlinear_arith)
            requires
                n == line * source,
                line == 0,
        ;
    }
}

} // verus!
