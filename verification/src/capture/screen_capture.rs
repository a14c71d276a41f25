//! The captured screen: its latest frame, rows without padding, and the mouse
//! cursor drawn into it.

use crate::pixels::{pixel_at, put_pixel, Quad};
use vstd::prelude::*;

verus! {

/// How far the lines of the cursor reach from its center.
pub const CURSOR_RADIUS: i64 = 5;

/// A captured frame: raw BGRA pixels, tightly packed (4 bytes per pixel).
#[derive(Clone, Debug)]
pub struct CaptureFrame {
    pub data: Vec<u8>,
    pub width: u32,
    pub height: u32,
}

impl CaptureFrame {
    /// There are four bytes for each pixel.
    pub open spec fn wf(self) -> bool {
        self.data@.len() == self.width * self.height * 4
    }
}

/// The screen size where the platform tells none.
pub fn default_screen_size() -> (size: (u32, u32))
    ensures
        size == (1920u32, 1080u32),
{
    (1920, 1080)
}

/// 33 ms, the nanoseconds between frames at about 30 per second.
pub const FRAME_INTERVAL: u64 = 33_000_000;

/// How asking for the next frame went.
#[derive(Clone, Copy, Debug, PartialEq, Eq, Structural)]
pub enum CaptureOutcome {
    /// There is one.
    Frame,
    /// Nothing changed on the screen.
    NoFrame,
    /// The screen could not be captured this time.
    Failed,
    /// The platform captures no screens.
    Unsupported,
    /// The screen cannot be captured any more.
    Gone,
}

/// What the capture does next.
#[derive(Clone, Copy, Debug, PartialEq, Eq, Structural)]
pub enum CaptureStep {
    /// Wait for this many nanoseconds, then ask for the next frame.
    Wait(u64),
    /// Stop capturing.
    Stop,
}

/// What the capture does next, this many nanoseconds after it asked for the frame: after
/// a frame the rest of the interval goes by, and a short pause otherwise.
pub fn capture_step(outcome: CaptureOutcome, elapsed: u128) -> (step: CaptureStep)
    ensures
        step == match outcome {
            CaptureOutcome::Frame => CaptureStep::Wait(
                if elapsed < FRAME_INTERVAL {
                    (FRAME_INTERVAL - elapsed) as u64
                } else {
                    0
                },
            ),
            CaptureOutcome::NoFrame => CaptureStep::Wait(5_000_000),
            CaptureOutcome::Failed => CaptureStep::Wait(50_000_000),
            CaptureOutcome::Unsupported => CaptureStep::Wait(100_000_000),
            CaptureOutcome::Gone => CaptureStep::Stop,
        },
        outcome is Frame ==> step == CaptureStep::Wait(
            if elapsed < 33_000_000 {
                (33_000_000 - elapsed) as u64
            } else {
                0
            },
        ),
{
    match outcome {
        CaptureOutcome::Frame => if elapsed < FRAME_INTERVAL as u128 {
            CaptureStep::Wait(FRAME_INTERVAL - elapsed as u64)
        } else {
            CaptureStep::Wait(0)
        },
        CaptureOutcome::NoFrame => CaptureStep::Wait(5_000_000),
        CaptureOutcome::Failed => CaptureStep::Wait(50_000_000),
        CaptureOutcome::Unsupported => CaptureStep::Wait(100_000_000),
        CaptureOutcome::Gone => CaptureStep::Stop,
    }
}

/// The captured screen.
pub struct ScreenCapture {
    screen_width: u32,
    screen_height: u32,
    latest_frame: Option<CaptureFrame>,
}

impl ScreenCapture {
    /// The screen's width and height.
    pub closed spec fn size(self) -> (u32, u32) {
        (self.screen_width, self.screen_height)
    }

    /// The latest frame, if any came.
    pub closed spec fn latest(self) -> Option<CaptureFrame> {
        self.latest_frame
    }

    /// A capture of a screen of this size, without a frame yet.
    pub fn new(screen_width: u32, screen_height: u32) -> (capture: Self)
        ensures
            capture.size() == (screen_width, screen_height),
            capture.latest() is None,
    {
        ScreenCapture { screen_width, screen_height, latest_frame: None }
    }

    /// Take over the frames that arrived, in order, and return the latest one
    /// there is, be it an earlier one.
    pub fn try_get_frame(&mut self, arrived: Vec<CaptureFrame>) -> (frame: Option<&CaptureFrame>)
        ensures
            final(self).size() == old(self).size(),
            final(self).latest() == if arrived@.len() > 0 {
                Some(arrived@.last())
            } else {
                old(self).latest()
            },
            match frame {
                Some(latest) => final(self).latest() == Some(*latest),
                None => final(self).latest() is None,
            },
    {
        let mut arrived = arrived;
        if let Some(frame) = arrived.pop() {
            self.latest_frame = Some(frame);
        }
        match &self.latest_frame {
            Some(frame) => Some(frame),
            None => None,
        }
    }

    /// Native screen width in pixels.
    pub fn screen_width(&self) -> (width: u32)
        ensures
            width == self.size().0,
    {
        self.screen_width
    }

    /// Native screen height in pixels.
    pub fn screen_height(&self) -> (height: u32)
        ensures
            height == self.size().1,
    {
        self.screen_height
    }
}

/// Copy rows that lie `pitch` bytes apart to a tightly packed frame.
pub fn pack_rows(mapped: &[u8], pitch: usize, width: u32, height: u32) -> (frame: CaptureFrame)
    requires
        width * height * 4 <= u32::MAX,
        width * 4 <= pitch,
        height * pitch <= mapped@.len(),
    ensures
        frame.wf(),
        frame.width == width,
        frame.height == height,
        forall|x: int, y: int|
            0 <= x < width && 0 <= y < height ==> #[trigger] pixel_at(
                frame.data@,
                width as int,
                x,
                y,
            ) == (Quad {
                c0: mapped@[y * pitch + x * 4],
                c1: mapped@[y * pitch + x * 4 + 1],
                c2: mapped@[y * pitch + x * 4 + 2],
                c3: mapped@[y * pitch + x * 4 + 3],
            }),
{
    assert(width * height <= width * height * 4) by (nonlinear_arith)
        requires
            width >= 0,
            height >= 0,
    ;
    let area: u32 = width * height;
    let length: usize = (area * 4) as usize;
    let mut data: Vec<u8> = vec![0u8; length];
    let columns: usize = width as usize;
    let rows: usize = height as usize;
    let mut y: usize = 0;
    while y < rows
        invariant
            y <= rows,
            columns == width,
            rows == height,
            data@.len() == columns * rows * 4,
            columns * 4 <= pitch,
            rows * pitch <= mapped@.len(),
            forall|u: int, v: int|
                0 <= u < columns && 0 <= v < y ==> #[trigger] pixel_at(data@, columns as int, u, v)
                    == (Quad {
                    c0: mapped@[v * pitch + u * 4],
                    c1: mapped@[v * pitch + u * 4 + 1],
                    c2: mapped@[v * pitch + u * 4 + 2],
                    c3: mapped@[v * pitch + u * 4 + 3],
                }),
        decreases rows - y,
    {
        assert(y * pitch + pitch <= rows * pitch) by (nonlinear_arith)
            requires
                y + 1 <= rows,
                pitch >= 0,
        ;
        assert(y * pitch + pitch <= mapped.len());
        let src_row: usize = y * pitch;
        let mut x: usize = 0;
        while x < columns
            invariant
                x <= columns,
                y < rows,
                data@.len() == columns * rows * 4,
                columns * 4 <= pitch,
                src_row == y * pitch,
                src_row + pitch <= mapped.len(),
                forall|u: int, v: int|
                    0 <= u < columns && 0 <= v <= y && (v < y || u < x) ==> #[trigger] pixel_at(
                        data@,
                        columns as int,
                        u,
                        v,
                    ) == (Quad {
                        c0: mapped@[v * pitch + u * 4],
                        c1: mapped@[v * pitch + u * 4 + 1],
                        c2: mapped@[v * pitch + u * 4 + 2],
                        c3: mapped@[v * pitch + u * 4 + 3],
                    }),
            decreases columns - x,
        {
            let offset: usize = src_row + x * 4;
            let pixel = Quad {
                c0: mapped[offset],
                c1: mapped[offset + 1],
                c2: mapped[offset + 2],
                c3: mapped[offset + 3],
            };
            put_pixel(&mut data, columns, rows, x, y, pixel);
            x += 1;
        }
        y += 1;
    }
    CaptureFrame { data, width, height }
}

/// A distance without its sign.
pub open spec fn size_of(offset: int) -> int {
    if offset < 0 {
        -offset
    } else {
        offset
    }
}

/// Whether an offset from the cursor's center lies on its crosshair: two lines
/// three pixels wide.
pub open spec fn on_crosshair(dx: int, dy: int) -> bool {
    &&& size_of(dx) <= CURSOR_RADIUS
    &&& size_of(dy) <= CURSOR_RADIUS
    &&& size_of(dx) <= 1 || size_of(dy) <= 1
}

/// Whether an offset from the cursor's center lies on the outline around the
/// crosshair, one pixel wide.
pub open spec fn on_outline(dx: int, dy: int) -> bool {
    &&& size_of(dx) <= CURSOR_RADIUS + 1
    &&& size_of(dy) <= CURSOR_RADIUS + 1
    &&& size_of(dx) <= 2 || size_of(dy) <= 2
    &&& !(size_of(dx) <= 1 && size_of(dy) <= CURSOR_RADIUS)
    &&& !(size_of(dy) <= 1 && size_of(dx) <= CURSOR_RADIUS)
}

/// The pixel of the cursor at an offset from its center: the crosshair white, its
/// outline black, both opaque.
pub open spec fn cursor_pixel(dx: int, dy: int) -> Option<Quad> {
    if on_crosshair(dx, dy) {
        Some(Quad { c0: 255, c1: 255, c2: 255, c3: 255 })
    } else if on_outline(dx, dy) {
        Some(Quad { c0: 0, c1: 0, c2: 0, c3: 255 })
    } else {
        None
    }
}

fn abs_offset(offset: i64) -> (size: i64)
    requires
        -100 <= offset <= 100,
    ensures
        size == size_of(offset as int),
{
    if offset < 0 {
        -offset
    } else {
        offset
    }
}

fn cursor_mark(dx: i64, dy: i64) -> (pixel: Option<Quad>)
    requires
        -100 <= dx <= 100,
        -100 <= dy <= 100,
    ensures
        pixel == cursor_pixel(dx as int, dy as int),
{
    let x = abs_offset(dx);
    let y = abs_offset(dy);
    if x <= CURSOR_RADIUS && y <= CURSOR_RADIUS && (x <= 1 || y <= 1) {
        return Some(Quad { c0: 255, c1: 255, c2: 255, c3: 255 });
    }
    let reaches = x <= CURSOR_RADIUS + 1 && y <= CURSOR_RADIUS + 1 && (x <= 2 || y <= 2);
    let inner = (x <= 1 && y <= CURSOR_RADIUS) || (y <= 1 && x <= CURSOR_RADIUS);
    if reaches && !inner {
        Some(Quad { c0: 0, c1: 0, c2: 0, c3: 255 })
    } else {
        None
    }
}

/// Draw the mouse cursor, centered at a point that may lie outside, into a frame.
pub fn draw_cursor_into_buffer(frame: &mut CaptureFrame, cx: i32, cy: i32)
    requires
        old(frame).wf(),
    ensures
        final(frame).wf(),
        final(frame).width == old(frame).width,
        final(frame).height == old(frame).height,
        forall|x: int, y: int|
            0 <= x < old(frame).width && 0 <= y < old(frame).height ==> #[trigger] pixel_at(
                final(frame).data@,
                old(frame).width as int,
                x,
                y,
            ) == match cursor_pixel(x - cx, y - cy) {
                Some(pixel) => pixel,
                None => pixel_at(old(frame).data@, old(frame).width as int, x, y),
            },
{
    let width: usize = frame.width as usize;
    let height: usize = frame.height as usize;
    let ghost before = frame.data@;
    let reach: i64 = CURSOR_RADIUS + 1;
    let mut dy: i64 = -reach;
    while dy <= reach
        invariant
            reach == 6,
            -reach <= dy <= reach + 1,
            width == frame.width,
            height == frame.height,
            frame.width == old(frame).width,
            frame.height == old(frame).height,
            frame.data@.len() == width * height * 4,
            forall|x: int, y: int|
                0 <= x < width && 0 <= y < height ==> #[trigger] pixel_at(
                    frame.data@,
                    width as int,
                    x,
                    y,
                ) == if y - cy < dy {
                    match cursor_pixel(x - cx, y - cy) {
                        Some(pixel) => pixel,
                        None => pixel_at(before, width as int, x, y),
                    }
                } else {
                    pixel_at(before, width as int, x, y)
                },
        decreases reach + 1 - dy,
    {
        let mut dx: i64 = -reach;
        while dx <= reach
            invariant
                reach == 6,
                -reach <= dy <= reach,
                -reach <= dx <= reach + 1,
                width == frame.width,
                height == frame.height,
                frame.width == old(frame).width,
                frame.height == old(frame).height,
                frame.data@.len() == width * height * 4,
                forall|x: int, y: int|
                    0 <= x < width && 0 <= y < height ==> #[trigger] pixel_at(
                        frame.data@,
                        width as int,
                        x,
                        y,
                    ) == if y - cy < dy || (y - cy == dy && x - cx < dx) {
                        match cursor_pixel(x - cx, y - cy) {
                            Some(pixel) => pixel,
                            None => pixel_at(before, width as int, x, y),
                        }
                    } else {
                        pixel_at(before, width as int, x, y)
                    },
            decreases reach + 1 - dx,
        {
            let px: i64 = cx as i64 + dx;
            let py: i64 = cy as i64 + dy;
            if let Some(pixel) = cursor_mark(dx, dy) {
                if px >= 0 && py >= 0 && px < frame.width as i64 && py < frame.height as i64 {
                    put_pixel(&mut frame.data, width, height, px as usize, py as usize, pixel);
                }
            }
            dx += 1;
        }
        dy += 1;
    }
}

/// The crosshair and its outline do not overlap, and the cursor reaches no farther
/// than its outline.
pub proof fn law_cursor_shape(dx: int, dy: int)
    ensures
        !(on_crosshair(dx, dy) && on_outline(dx, dy)),
        cursor_pixel(dx, dy) is Some ==> size_of(dx) <= 6 && size_of(dy) <= 6,
        cursor_pixel(dx, dy) == cursor_pixel(-dx, dy),
        cursor_pixel(dx, dy) == cursor_pixel(dy, dx),
        cursor_pixel(0, 0) == Some(Quad { c0: 255, c1: 255, c2: 255, c3: 255 }),
{
}

/// Whether the cursor is white at an offset from its center.
pub open spec fn is_white(dx: int, dy: int) -> bool {
    cursor_pixel(dx, dy) == Some(Quad { c0: 255, c1: 255, c2: 255, c3: 255 })
}

/// The cursor is a white cross of two bars, each eleven pixels long and three wide, through
/// its center.
pub proof fn law_cursor_is_a_cross(dx: int, dy: int)
    ensures
        is_white(dx, dy) <==> (-5 <= dx <= 5 && -1 <= dy <= 1) || (-1 <= dx <= 1 && -5 <= dy <= 5),
{
}

/// The black of the cursor is what touches its white, sideways or at a corner, and nothing
/// else is painted.
pub proof fn law_cursor_has_an_outline(dx: int, dy: int)
    ensures
        ({
            let touches = exists|x: int, y: int|
                -1 <= x - dx <= 1 && -1 <= y - dy <= 1 && #[trigger] is_white(x, y);
            let black = cursor_pixel(dx, dy) == Some(Quad { c0: 0, c1: 0, c2: 0, c3: 255 });
            &&& black <==> touches && !is_white(dx, dy)
            &&& cursor_pixel(dx, dy) is Some <==> touches
        }),
{
    let nearer = |d: int| if d > 0 {
        d - 1
    } else if d < 0 {
        d + 1
    } else {
        0
    };
    if on_crosshair(dx, dy) || on_outline(dx, dy) {
        assert(is_white(nearer(dx), nearer(dy)));
    }
}

} // verus!
