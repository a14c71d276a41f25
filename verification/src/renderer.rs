//! What the renderer decides: formats, shader words, attachments, and the data of
//! hands and camera.

use crate::mirror_window::{FORMAT_BGRA_SRGB, FORMAT_RGBA_SRGB};
use crate::scalar::Scalar;
use crate::ui::egui_gpu_renderer::little_endian;
use vstd::prelude::*;

verus! {

/// How many joints of both hands are tracked.
pub const JOINT_COUNT: usize = 52;

/// How many joints of one hand are tracked.
pub const HAND_JOINTS: usize = 26;

/// What the scene shaders are told of the camera.
#[derive(Clone, Copy, Debug)]
pub struct PushConstants {
    /// World position and time (seconds).
    pub cam_pos: [Scalar; 4],
    /// Right vector and eye index.
    pub cam_right: [Scalar; 4],
    /// Up vector.
    pub cam_up: [Scalar; 4],
    /// Forward vector.
    pub cam_fwd: [Scalar; 4],
    /// Tangents of the field of view: left, right, down, up.
    pub fov: [Scalar; 4],
}

/// A format that is preferred over those after it, as the graphics API numbers it.
pub open spec fn first_offered(preferred: Seq<u32>, offered: Seq<u32>) -> Option<u32>
    decreases preferred.len(),
{
    if preferred.len() == 0 {
        None
    } else if offered.contains(preferred[0]) {
        Some(preferred[0])
    } else {
        first_offered(preferred.drop_first(), offered)
    }
}

fn offers(offered: &Vec<u32>, format: u32) -> (answer: bool)
    ensures
        answer == offered@.contains(format),
{
    let mut i: usize = 0;
    while i < offered.len()
        invariant
            i <= offered.len(),
            forall|k: int| 0 <= k < i ==> offered@[k] != format,
        decreases offered.len() - i,
    {
        if offered[i] == format {
            assert(offered@[i as int] == format);
            return true;
        }
        i += 1;
    }
    false
}

/// The first of the preferred formats that is offered.
pub fn choose_format(preferred: &Vec<u32>, offered: &Vec<u32>) -> (format: Option<u32>)
    ensures
        format == first_offered(preferred@, offered@),
{
    let mut i: usize = 0;
    assert(preferred@.skip(0) =~= preferred@);
    while i < preferred.len()
        invariant
            i <= preferred.len(),
            first_offered(preferred@, offered@) == first_offered(
                preferred@.skip(i as int),
                offered@,
            ),
        decreases preferred.len() - i,
    {
        assert(preferred@.skip(i as int)[0] == preferred@[i as int]);
        assert(preferred@.skip(i as int).drop_first() =~= preferred@.skip(i + 1));
        if offers(offered, preferred[i]) {
            return Some(preferred[i]);
        }
        i += 1;
    }
    None
}

/// The formats of a session's images.
#[derive(Clone, Copy, Debug, PartialEq, Eq, Structural)]
pub struct SwapchainFormats {
    pub color: u32,
    /// The depth format, where depth is rendered.
    pub depth: Option<u32>,
}

/// Red, green, blue, alpha, linear, as the graphics API numbers it.
pub const FORMAT_RGBA_UNORM: u32 = 37;

/// Blue, green, red, alpha, linear, as the graphics API numbers it.
pub const FORMAT_BGRA_UNORM: u32 = 44;

/// Depth as a 32-bit float, as the graphics API numbers it.
pub const FORMAT_DEPTH_FLOAT: u32 = 126;

/// Depth in 16 bits, as the graphics API numbers it.
pub const FORMAT_DEPTH_16: u32 = 124;

/// The color formats, the best first: sRGB before linear, red first before blue first.
pub open spec fn color_preference() -> Seq<u32> {
    seq![FORMAT_RGBA_SRGB, FORMAT_BGRA_SRGB, FORMAT_RGBA_UNORM, FORMAT_BGRA_UNORM]
}

/// The depth formats, the best first.
pub open spec fn depth_preference() -> Seq<u32> {
    seq![FORMAT_DEPTH_FLOAT, FORMAT_DEPTH_16]
}

/// The color formats, the best first.
pub fn preferred_color() -> (list: Vec<u32>)
    ensures
        list@ == color_preference(),
{
    let list: Vec<u32> = vec![FORMAT_RGBA_SRGB, FORMAT_BGRA_SRGB, FORMAT_RGBA_UNORM, FORMAT_BGRA_UNORM];
    assert(list@ =~= color_preference());
    list
}

/// The depth formats, the best first.
pub fn preferred_depth() -> (list: Vec<u32>)
    ensures
        list@ == depth_preference(),
{
    let list: Vec<u32> = vec![FORMAT_DEPTH_FLOAT, FORMAT_DEPTH_16];
    assert(list@ =~= depth_preference());
    list
}

/// The color format, and the depth format if depth is enabled: the first preferred
/// ones that are offered. Without a preferred color format the first offered one is
/// used; without a depth format there is no depth.
pub fn choose_formats(offered: &Vec<u32>, depth_enabled: bool) -> (formats: SwapchainFormats)
    requires
        offered@.len() > 0,
    ensures
        formats.color == match first_offered(color_preference(), offered@) {
            Some(format) => format,
            None => offered@[0],
        },
        formats.depth == if depth_enabled {
            first_offered(depth_preference(), offered@)
        } else {
            None
        },
{
    let color = match choose_format(&preferred_color(), offered) {
        Some(format) => format,
        None => offered[0],
    };
    let depth = if depth_enabled {
        choose_format(&preferred_depth(), offered)
    } else {
        None
    };
    SwapchainFormats { color, depth }
}

/// The words of a shader: four bytes each, the lowest first; what is left over is
/// none.
pub open spec fn words_of(bytes: Seq<u8>) -> Seq<u32> {
    Seq::new((bytes.len() / 4) as nat, |i: int| word_at(bytes, 4 * i))
}

/// The word from byte `k` on.
pub open spec fn word_at(bytes: Seq<u8>, k: int) -> u32 {
    (bytes[k] + bytes[k + 1] * 256 + bytes[k + 2] * 65536 + bytes[k + 3] * 16777216) as u32
}

/// The words of a shader module.
pub fn load_spv(bytes: &[u8]) -> (words: Vec<u32>)
    ensures
        words@ == words_of(bytes@),
{
    let count: usize = bytes.len() / 4;
    let mut words: Vec<u32> = Vec::new();
    let mut i: usize = 0;
    while i < count
        invariant
            i <= count,
            4 * count <= bytes.len(),
            count == bytes@.len() / 4,
            words@.len() == i,
            forall|k: int| 0 <= k < i ==> #[trigger] words@[k] == words_of(bytes@)[k],
        decreases count - i,
    {
        let b0: u32 = bytes[4 * i] as u32;
        let b1: u32 = bytes[4 * i + 1] as u32;
        let b2: u32 = bytes[4 * i + 2] as u32;
        let b3: u32 = bytes[4 * i + 3] as u32;
        words.push(b0 + b1 * 256 + b2 * 65536 + b3 * 16777216);
        i += 1;
    }
    assert(words@ =~= words_of(bytes@));
    words
}

/// Which images a framebuffer draws to.
#[derive(Clone, Copy, Debug, PartialEq, Eq, Structural)]
pub struct FramebufferImages {
    pub color: usize,
    pub depth: Option<usize>,
}

/// The images of each framebuffer: each color image with the depth image of the same
/// place, where there is one.
pub fn pair_images(color_count: usize, depth_count: usize, depth_enabled: bool) -> (pairs: Vec<
    FramebufferImages,
>)
    ensures
        pairs@ == Seq::new(
            color_count as nat,
            |i: int|
                FramebufferImages {
                    color: i as usize,
                    depth: if depth_enabled && i < depth_count {
                        Some(i as usize)
                    } else {
                        None
                    },
                },
        ),
{
    let mut pairs: Vec<FramebufferImages> = Vec::new();
    let mut i: usize = 0;
    while i < color_count
        invariant
            i <= color_count,
            pairs@.len() == i,
            forall|k: int|
                0 <= k < i ==> #[trigger] pairs@[k] == (FramebufferImages {
                    color: k as usize,
                    depth: if depth_enabled && k < depth_count {
                        Some(k as usize)
                    } else {
                        None
                    },
                }),
        decreases color_count - i,
    {
        let depth = if depth_enabled && i < depth_count {
            Some(i)
        } else {
            None
        };
        pairs.push(FramebufferImages { color: i, depth });
        i += 1;
    }
    pairs
}

/// A format that is offered is found: if any preferred format is offered, one of
/// them is chosen.
pub proof fn law_preferred_format_is_used(preferred: Seq<u32>, offered: Seq<u32>)
    ensures
        first_offered(preferred, offered) matches Some(format) ==> offered.contains(format)
            && preferred.contains(format),
        first_offered(preferred, offered) is None <==> forall|i: int|
            0 <= i < preferred.len() ==> !offered.contains(#[trigger] preferred[i]),
    decreases preferred.len(),
{
    if preferred.len() > 0 {
        let rest = preferred.drop_first();
        law_preferred_format_is_used(rest, offered);
        assert forall|i: int| 0 <= i < rest.len() implies #[trigger] rest[i] == preferred[i + 1] by {}
        assert(preferred.contains(preferred[0]));
        if let Some(format) = first_offered(rest, offered) {
            let k = rest.index_of(format);
            assert(rest[k] == preferred[k + 1]);
        }
        if first_offered(preferred, offered) is None {
            assert forall|i: int| 0 <= i < preferred.len() implies !offered.contains(
                #[trigger] preferred[i],
            ) by {
                if i > 0 {
                    assert(rest[i - 1] == preferred[i]);
                }
            }
        } else if forall|i: int|
            0 <= i < preferred.len() ==> !offered.contains(#[trigger] preferred[i]) {
            assert(!offered.contains(preferred[0]));
            assert forall|i: int| 0 <= i < rest.len() implies !offered.contains(
                #[trigger] rest[i],
            ) by {
                assert(rest[i] == preferred[i + 1]);
            }
        }
    }
}

/// The format that is used is the first preferred one that is offered: those before it are
/// not.
pub proof fn law_first_preferred_is_used(preferred: Seq<u32>, offered: Seq<u32>, i: int)
    requires
        0 <= i < preferred.len(),
        offered.contains(preferred[i]),
        forall|k: int| 0 <= k < i ==> !offered.contains(#[trigger] preferred[k]),
    ensures
        first_offered(preferred, offered) == Some(preferred[i]),
    decreases i,
{
    if i > 0 {
        let rest = preferred.drop_first();
        assert(rest[i - 1] == preferred[i]);
        assert forall|k: int| 0 <= k < i - 1 implies !offered.contains(#[trigger] rest[k]) by {
            assert(rest[k] == preferred[k + 1]);
        }
        law_first_preferred_is_used(rest, offered, i - 1);
        assert(!offered.contains(preferred[0]));
    }
}

/// The preferred formats by the graphics API's numbers: red first in sRGB, blue first in
/// sRGB, red first, blue first; and for depth 32-bit floats before 16 bits.
pub proof fn law_preferred_formats()
    ensures
        color_preference() == seq![43u32, 50, 37, 44],
        depth_preference() == seq![126u32, 124],
{
}

/// The words of bytes that are the bytes of numbers, the lowest first, are those numbers.
/// Where whole words are put before other bytes, their words come first; fewer than four
/// bytes are no word.
pub proof fn law_words_are_the_numbers(number: u32, first: Seq<u8>, second: Seq<u8>)
    requires
        first.len() % 4 == 0,
    ensures
        words_of(little_endian(number)) == seq![number],
        words_of(first + second) == words_of(first) + words_of(second),
        first.len() < 4 ==> words_of(first).len() == 0,
        second.len() < 4 ==> words_of(second).len() == 0,
{
    assert(words_of(little_endian(number)) =~= seq![number]);
    let both = words_of(first + second);
    assert forall|i: int| 0 <= i < both.len() implies #[trigger] both[i] == (words_of(first)
        + words_of(second))[i] by {}
    assert(both =~= words_of(first) + words_of(second));
}

} // verus!
