//! What a window that shows rendered images decides: its surface format, its images,
//! and when they have to be made anew.

use crate::text::chars_of;
use vstd::prelude::*;
use vstd::string::*;

verus! {

/// The message that closes a window.
pub const WM_CLOSE: u32 = 0x0010;

/// The message that a window was destroyed.
pub const WM_DESTROY: u32 = 0x0002;

/// The message that ends the message loop.
pub const WM_QUIT: u32 = 0x0012;

/// Blue, green, red, alpha in sRGB, as the graphics API numbers it.
pub const FORMAT_BGRA_SRGB: u32 = 50;

/// Red, green, blue, alpha in sRGB, as the graphics API numbers it.
pub const FORMAT_RGBA_SRGB: u32 = 43;

/// The nonlinear sRGB color space, as the graphics API numbers it.
pub const COLOR_SPACE_SRGB: u32 = 0;

/// The UTF-16 code units of a character: a pair of surrogates beyond the basic plane.
pub open spec fn utf16_units(c: char) -> Seq<u16> {
    let code = c as int;
    if code < 0x1_0000 {
        seq![code as u16]
    } else {
        seq![
            (0xD800 + (code - 0x1_0000) / 0x400) as u16,
            (0xDC00 + (code - 0x1_0000) % 0x400) as u16,
        ]
    }
}

/// A text in UTF-16.
pub open spec fn utf16(text: Seq<char>) -> Seq<u16>
    decreases text.len(),
{
    if text.len() == 0 {
        Seq::empty()
    } else {
        utf16(text.drop_last()) + utf16_units(text.last())
    }
}

fn push_units(units: &mut Vec<u16>, c: char)
    ensures
        final(units)@ == old(units)@ + utf16_units(c),
{
    let code: u32 = c as u32;
    if code < 0x1_0000 {
        units.push(code as u16);
    } else {
        let rest: u32 = code - 0x1_0000;
        units.push((0xD800 + rest / 0x400) as u16);
        units.push((0xDC00 + rest % 0x400) as u16);
    }
    assert(units@ =~= old(units)@ + utf16_units(c));
}

/// Encode a text as null-terminated UTF-16.
pub fn wide(s: &str) -> (units: Vec<u16>)
    ensures
        units@ == utf16(s@).push(0),
{
    let chars = chars_of(s);
    let mut units: Vec<u16> = Vec::new();
    let mut i: usize = 0;
    while i < chars.len()
        invariant
            i <= chars.len(),
            units@ == utf16(chars@.take(i as int)),
        decreases chars.len() - i,
    {
        let ghost next = chars@.take(i + 1);
        assert(next.drop_last() =~= chars@.take(i as int));
        assert(next.last() == chars@[i as int]);
        push_units(&mut units, chars[i]);
        i += 1;
    }
    assert(chars@.take(i as int) =~= chars@);
    units.push(0);
    units
}

/// What a window does about a message.
#[derive(Clone, Copy, Debug, PartialEq, Eq, Structural)]
pub enum WindowReply {
    /// Destroy the window.
    Destroy,
    /// End the message loop.
    Quit,
    /// What windows do by default.
    Default,
}

/// What a window does about a message.
pub fn window_reply(message: u32) -> (reply: WindowReply)
    ensures
        reply == if message == WM_CLOSE {
            WindowReply::Destroy
        } else if message == WM_DESTROY {
            WindowReply::Quit
        } else {
            WindowReply::Default
        },
        reply is Destroy <==> message == 0x10,
        reply is Quit <==> message == 2,
{
    if message == WM_CLOSE {
        WindowReply::Destroy
    } else if message == WM_DESTROY {
        WindowReply::Quit
    } else {
        WindowReply::Default
    }
}

/// A format that a surface offers, as the graphics API numbers it.
#[derive(Clone, Copy, Debug, PartialEq, Eq, Structural)]
pub struct SurfaceFormat {
    pub format: u32,
    pub color_space: u32,
}

/// How well a format fits: best of all BGRA in the sRGB color space, then RGBA, then
/// any other.
pub open spec fn format_class(format: SurfaceFormat) -> int {
    if format.format == FORMAT_BGRA_SRGB && format.color_space == COLOR_SPACE_SRGB {
        0
    } else if format.format == FORMAT_RGBA_SRGB {
        1
    } else {
        2
    }
}

/// Whether the format at a place is chosen: none fits better, and of those that fit as
/// well it is the first. Of formats that do not fit the first of all is taken.
pub open spec fn is_chosen_format(formats: Seq<SurfaceFormat>, i: int) -> bool {
    &&& 0 <= i < formats.len()
    &&& forall|k: int|
        0 <= k < formats.len() ==> format_class(formats[i]) <= format_class(#[trigger] formats[k])
    &&& forall|k: int|
        0 <= k < i ==> format_class(formats[i]) < format_class(#[trigger] formats[k])
}

fn rank_format(format: SurfaceFormat) -> (class: u8)
    ensures
        class == format_class(format),
{
    if format.format == FORMAT_BGRA_SRGB && format.color_space == COLOR_SPACE_SRGB {
        0
    } else if format.format == FORMAT_RGBA_SRGB {
        1
    } else {
        2
    }
}

/// The surface format to use.
pub fn choose_surface_format(formats: &Vec<SurfaceFormat>) -> (chosen: SurfaceFormat)
    requires
        formats@.len() > 0,
    ensures
        exists|i: int| #[trigger] is_chosen_format(formats@, i) && chosen == formats@[i],
{
    let mut best: usize = 0;
    let mut i: usize = 1;
    while i < formats.len()
        invariant
            1 <= i <= formats.len(),
            best < i,
            forall|k: int|
                0 <= k < i ==> format_class(formats@[best as int]) <= format_class(
                    #[trigger] formats@[k],
                ),
            forall|k: int|
                0 <= k < best ==> format_class(formats@[best as int]) < format_class(
                    #[trigger] formats@[k],
                ),
        decreases formats.len() - i,
    {
        if rank_format(formats[i]) < rank_format(formats[best]) {
            best = i;
        }
        i += 1;
    }
    assert(is_chosen_format(formats@, best as int));
    formats[best]
}

/// How images are handed to the screen.
#[derive(Clone, Copy, Debug, PartialEq, Eq, Structural)]
pub enum PresentMode {
    Immediate,
    Mailbox,
    Fifo,
    FifoRelaxed,
}

fn has_mode(modes: &Vec<PresentMode>, mode: PresentMode) -> (answer: bool)
    ensures
        answer == modes@.contains(mode),
{
    let mut i: usize = 0;
    while i < modes.len()
        invariant
            i <= modes.len(),
            forall|k: int| 0 <= k < i ==> modes@[k] != mode,
        decreases modes.len() - i,
    {
        if modes[i] == mode {
            assert(modes@[i as int] == mode);
            return true;
        }
        i += 1;
    }
    false
}

/// How images are handed to the screen: by mailbox if offered, else immediately if
/// offered, else in turn.
pub fn choose_present_mode(modes: &Vec<PresentMode>) -> (mode: PresentMode)
    ensures
        mode == if modes@.contains(PresentMode::Mailbox) {
            PresentMode::Mailbox
        } else if modes@.contains(PresentMode::Immediate) {
            PresentMode::Immediate
        } else {
            PresentMode::Fifo
        },
{
    if has_mode(modes, PresentMode::Mailbox) {
        PresentMode::Mailbox
    } else if has_mode(modes, PresentMode::Immediate) {
        PresentMode::Immediate
    } else {
        PresentMode::Fifo
    }
}

/// The size of an image.
#[derive(Clone, Copy, Debug, PartialEq, Eq, Structural)]
pub struct Extent {
    pub width: u32,
    pub height: u32,
}

/// What a surface says of its images. A width of `u32::MAX` means that the window
/// decides, and a maximum of zero that there is none.
#[derive(Clone, Copy, Debug, PartialEq, Eq, Structural)]
pub struct SurfaceLimits {
    pub current: Extent,
    pub min_image_count: u32,
    pub max_image_count: u32,
}

/// The size of the window where nothing else tells it.
pub open spec fn default_extent() -> Extent {
    Extent { width: 1280, height: 720 }
}

/// The size of the images: the surface's, or a fallback where the window decides.
pub fn choose_extent(limits: SurfaceLimits, fallback: Extent) -> (extent: Extent)
    ensures
        extent == if limits.current.width != u32::MAX {
            limits.current
        } else {
            fallback
        },
{
    if limits.current.width != u32::MAX {
        limits.current
    } else {
        fallback
    }
}

/// The number of images: one more than the least, within the most.
pub open spec fn image_count_of(limits: SurfaceLimits) -> int {
    if limits.max_image_count > 0 && limits.max_image_count < limits.min_image_count + 1 {
        limits.max_image_count as int
    } else {
        limits.min_image_count + 1
    }
}

/// The number of images.
pub fn choose_image_count(limits: SurfaceLimits) -> (count: u32)
    requires
        limits.min_image_count < u32::MAX,
    ensures
        count == image_count_of(limits),
{
    let wanted: u32 = limits.min_image_count + 1;
    if limits.max_image_count > 0 && limits.max_image_count < wanted {
        limits.max_image_count
    } else {
        wanted
    }
}

/// How getting the next image went.
#[derive(Clone, Copy, Debug, PartialEq, Eq, Structural)]
pub enum Acquired {
    /// There is one; it may no longer fit the surface well.
    Image { suboptimal: bool },
    /// The images no longer fit the surface.
    OutOfDate,
    Failed,
}

/// How handing an image to the screen went.
#[derive(Clone, Copy, Debug, PartialEq, Eq, Structural)]
pub enum Presented {
    Done,
    /// The images fit the surface badly or no longer.
    OutOfDate,
    Failed,
}

/// What to do once the next image was asked for.
#[derive(Clone, Copy, Debug, PartialEq, Eq, Structural)]
pub enum AcquireStep {
    /// Draw to it; afterwards make the images anew if `recreate_after`.
    Draw { recreate_after: bool },
    /// Make the images anew and skip this frame.
    Recreate,
    /// Give up this frame with an error.
    Fail,
}

/// What to do once the next image was asked for.
pub fn after_acquire(acquired: Acquired) -> (step: AcquireStep)
    ensures
        step == match acquired {
            Acquired::Image { suboptimal } => AcquireStep::Draw { recreate_after: suboptimal },
            Acquired::OutOfDate => AcquireStep::Recreate,
            Acquired::Failed => AcquireStep::Fail,
        },
{
    match acquired {
        Acquired::Image { suboptimal } => AcquireStep::Draw { recreate_after: suboptimal },
        Acquired::OutOfDate => AcquireStep::Recreate,
        Acquired::Failed => AcquireStep::Fail,
    }
}

/// Whether the images are made anew once one was handed to the screen; a failure to
/// hand it over does not by itself ask for that.
pub fn recreate_after_present(presented: Presented, suboptimal: bool) -> (recreate: bool)
    ensures
        recreate == (presented is OutOfDate || suboptimal),
{
    match presented {
        Presented::OutOfDate => true,
        _ => suboptimal,
    }
}

/// The mirror window on the desktop.
#[derive(Clone, Copy, Debug, PartialEq, Eq, Structural)]
pub struct MirrorWindow {
    pub extent: Extent,
    pub should_close: bool,
}

impl MirrorWindow {
    /// An open window.
    pub fn new(limits: SurfaceLimits) -> (window: MirrorWindow)
        ensures
            !window.should_close,
            window.extent == if limits.current.width != u32::MAX {
                limits.current
            } else {
                default_extent()
            },
    {
        let fallback = Extent { width: 1280, height: 720 };
        MirrorWindow { extent: choose_extent(limits, fallback), should_close: false }
    }

    /// Take one message from the queue. Returns whether it goes to the window;
    /// otherwise the window was closed.
    pub fn handle_message(&mut self, message: u32) -> (dispatch: bool)
        ensures
            dispatch == (message != WM_QUIT),
            dispatch <==> message != 0x12,
            *final(self) == (MirrorWindow {
                should_close: old(self).should_close || message == WM_QUIT,
                ..*old(self)
            }),
    {
        if message == WM_QUIT {
            self.should_close = true;
            false
        } else {
            true
        }
    }

    /// Whether the window was closed.
    pub fn is_closed(&self) -> (closed: bool)
        ensures
            closed == self.should_close,
    {
        self.should_close
    }

    /// Whether there is a window to show images in.
    pub fn shows_images(&self) -> (answer: bool)
        ensures
            answer == (!self.should_close && self.extent.width != 0),
    {
        !self.should_close && self.extent.width != 0
    }

    /// The size to make the images anew with: the surface's, or the old one where the
    /// window decides. A minimized window keeps its images.
    pub fn recreate_extent(&self, limits: SurfaceLimits) -> (extent: Option<Extent>)
        ensures
            ({
                let next = if limits.current.width != u32::MAX {
                    limits.current
                } else {
                    self.extent
                };
                extent == if next.width == 0 || next.height == 0 {
                    None
                } else {
                    Some(next)
                }
            }),
    {
        let next = choose_extent(limits, self.extent);
        if next.width == 0 || next.height == 0 {
            None
        } else {
            Some(next)
        }
    }

    /// Note the size of images made anew.
    pub fn recreated(&mut self, extent: Extent)
        ensures
            *final(self) == (MirrorWindow { extent, ..*old(self) }),
    {
        self.extent = extent;
    }
}

/// The number of images is at least the least, unless the surface contradicts itself,
/// and within the most.
pub proof fn law_image_count_in_limits(limits: SurfaceLimits)
    ensures
        limits.max_image_count > 0 ==> image_count_of(limits) <= limits.max_image_count,
        limits.max_image_count == 0 || limits.max_image_count >= limits.min_image_count
            ==> image_count_of(limits) >= limits.min_image_count,
{
}

/// Two places cannot both be chosen, so the surface format is determined.
pub proof fn law_chosen_format_is_unique(formats: Seq<SurfaceFormat>, i: int, j: int)
    requires
        is_chosen_format(formats, i),
        is_chosen_format(formats, j),
    ensures
        i == j,
{
    if i < j {
        assert(format_class(formats[j]) < format_class(formats[i]));
    } else if j < i {
        assert(format_class(formats[i]) < format_class(formats[j]));
    }
}

/// In UTF-16 a text has at least one and at most two units for each character.
pub proof fn law_utf16_length(text: Seq<char>)
    ensures
        text.len() <= utf16(text).len() <= 2 * text.len(),
    decreases text.len(),
{
    if text.len() > 0 {
        law_utf16_length(text.drop_last());
    }
}

/// The units of a character give it back: one unit is its code, and of two the first is a
/// high surrogate with the upper ten bits beyond the basic plane, the second a low one with
/// the lower ten.
pub proof fn law_units_give_the_character_back(c: char)
    ensures
        ({
            let units = utf16_units(c);
            &&& units.len() == 1 || units.len() == 2
            &&& units.len() == 1 <==> c as int <= 0xFFFF
            &&& units.len() == 1 ==> units[0] == c as int
            &&& units.len() == 2 ==> {
                &&& 0xD800 <= units[0] <= 0xDBFF
                &&& 0xDC00 <= units[1] <= 0xDFFF
                &&& c as int == 0x1_0000 + 0x400 * (units[0] - 0xD800) + (units[1] - 0xDC00)
            }
        }),
{
}

/// The UTF-16 of two texts put together is that of the first and then that of the second, and
/// that of one character is its units.
pub proof fn law_utf16_goes_by_characters(first: Seq<char>, second: Seq<char>, only: char)
    ensures
        utf16(first + second) == utf16(first) + utf16(second),
        utf16(seq![only]) == utf16_units(only),
        utf16(Seq::empty()).len() == 0,
    decreases second.len(),
{
    reveal_with_fuel(utf16, 2);
    assert(seq![only].drop_last() =~= Seq::<char>::empty());
    assert(utf16(seq![only]) =~= utf16_units(only));
    if second.len() == 0 {
        assert(first + second =~= first);
        assert(utf16(first) + utf16(second) =~= utf16(first));
    } else {
        law_utf16_goes_by_characters(first, second.drop_last(), only);
        assert((first + second).drop_last() =~= first + second.drop_last());
        assert((first + second).last() == second.last());
        assert(utf16(first + second) =~= utf16(first) + utf16(second));
    }
}

/// Whether a format is blue first in sRGB: number 50 in color space 0.
pub open spec fn blue_first(format: SurfaceFormat) -> bool {
    format.format == 50 && format.color_space == 0
}

/// The chosen format is the first one that is blue first in sRGB; if there is none, the first
/// that is red first in sRGB, which is number 43 in any color space; and if there is none
/// either, the first of all.
pub proof fn law_chosen_format_fits(formats: Seq<SurfaceFormat>, i: int, k: int)
    requires
        is_chosen_format(formats, i),
        0 <= k < formats.len(),
    ensures
        blue_first(formats[k]) ==> blue_first(formats[i]) && i <= k,
        formats[k].format == 43 ==> blue_first(formats[i]) || (formats[i].format == 43 && i <= k),
        !blue_first(formats[i]) && formats[i].format != 43 ==> i == 0,
{
    assert(format_class(formats[i]) <= format_class(formats[k]));
    assert(k < i ==> format_class(formats[i]) < format_class(formats[k]));
    if i > 0 {
        assert(format_class(formats[i]) < format_class(formats[0]));
    }
}

/// There is one image more than the least number, but never more than the most where there is
/// a most.
pub proof fn law_one_image_more(limits: SurfaceLimits)
    ensures
        ({
            let most = limits.max_image_count;
            let least = limits.min_image_count;
            &&& most == 0 || least < most ==> image_count_of(limits) == least + 1
            &&& 0 < most <= least ==> image_count_of(limits) == most
        }),
        default_extent().width == 1280 && default_extent().height == 720,
{
}

} // verus!
