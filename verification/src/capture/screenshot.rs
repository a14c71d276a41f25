//! Screenshots: their names and the check of their pixels.

use crate::text::{decimal, numbered, push_decimal};
use std::time::SystemTime;
use vstd::prelude::*;

verus! {

/// `std::time::SystemTime`, a reading of the wall clock.
#[verifier::external_type_specification]
#[verifier::external_body]
pub struct ExSystemTime(SystemTime);

/// Reads the wall clock with `SystemTime::now`. Nothing is claimed of the
/// reading.
#[verifier::external_body]
fn wall_clock() -> (now: SystemTime) {
    SystemTime::now()
}

/// The whole seconds that `SystemTime::duration_since` counts from the Unix
/// epoch to `time`, or `None` for a time before it. Nothing is claimed of the
/// count, which depends on the clock.
#[verifier::external_body]
fn seconds_since_epoch(time: SystemTime) -> (seconds: Option<u64>) {
    match time.duration_since(SystemTime::UNIX_EPOCH) {
        Ok(duration) => Some(duration.as_secs()),
        Err(_) => None,
    }
}

/// A screenshot to be saved under a name.
#[derive(Clone, Debug)]
pub struct ScreenshotResult {
    pub path: String,
    pub width: u32,
    pub height: u32,
}

/// The name of a screenshot taken at this second.
pub open spec fn filename_at(seconds: u64) -> Seq<char> {
    "clearxr_"@ + decimal(seconds as nat) + ".png"@
}

/// The name of a screenshot taken at this second.
pub fn screenshot_filename_at(seconds: u64) -> (name: String)
    ensures
        name@ == filename_at(seconds),
{
    numbered("clearxr_", seconds as u128, ".png")
}

/// Generate a timestamped filename. Before the epoch, the second is 0.
pub fn screenshot_filename() -> (name: String)
    ensures
        exists|seconds: u64| name@ == #[trigger] filename_at(seconds),
{
    let seconds = match seconds_since_epoch(wall_clock()) {
        Some(seconds) => seconds,
        None => 0,
    };
    screenshot_filename_at(seconds)
}

/// The number of bytes of an RGBA image.
pub open spec fn rgba_length(width: u32, height: u32) -> int {
    width * height * 4
}

/// The message for a buffer of the wrong length.
pub open spec fn length_error(length: nat, width: u32, height: u32) -> Seq<char> {
    "Invalid buffer length: expected "@ + decimal(rgba_length(width, height) as nat) + " got "@
        + decimal(length) + " for "@ + decimal(width as nat) + "x"@ + decimal(height as nat)
        + " image"@
}

fn length_message(expected: u128, length: usize, width: u32, height: u32) -> (message: String)
    requires
        expected == rgba_length(width, height),
    ensures
        message@ == length_error(length as nat, width, height),
{
    let mut message = String::new();
    message.push_str("Invalid buffer length: expected ");
    push_decimal(&mut message, expected);
    message.push_str(" got ");
    push_decimal(&mut message, length as u128);
    message.push_str(" for ");
    push_decimal(&mut message, width as u128);
    message.push_str("x");
    push_decimal(&mut message, height as u128);
    message.push_str(" image");
    assert(message@ =~= length_error(length as nat, width, height));
    message
}

/// Check RGBA pixels that are to be saved as a PNG file: they go under a
/// timestamped name if their length fits the image.
pub fn plan_screenshot(pixels: &[u8], width: u32, height: u32) -> (plan: Result<
    ScreenshotResult,
    String,
>)
    ensures
        plan is Ok <==> pixels@.len() == rgba_length(width, height),
        match plan {
            Ok(shot) => shot.width == width && shot.height == height && exists|seconds: u64|
                shot.path@ == #[trigger] filename_at(seconds),
            Err(message) => message@ == length_error(pixels@.len(), width, height),
        },
{
    assert(width * height <= 0xffff_ffff * 0xffff_ffff) by (nonlinear_arith)
        requires
            width <= 0xffff_ffff,
            height <= 0xffff_ffff,
    ;
    let area: u128 = width as u128 * height as u128;
    let expected: u128 = area * 4;
    if pixels.len() as u128 != expected {
        return Err(length_message(expected, pixels.len(), width, height));
    }
    Ok(ScreenshotResult { path: screenshot_filename(), width, height })
}

/// Screenshots of different seconds have different names.
pub proof fn law_names_differ(a: u64, b: u64)
    requires
        filename_at(a) == filename_at(b),
    ensures
        a == b,
{
    let prefix = "clearxr_"@;
    let suffix = ".png"@;
    let left = prefix + decimal(a as nat);
    let right = prefix + decimal(b as nat);
    assert(filename_at(a).take(filename_at(a).len() - suffix.len()) =~= left);
    assert(filename_at(b).take(filename_at(b).len() - suffix.len()) =~= right);
    assert(left.skip(prefix.len() as int) =~= decimal(a as nat));
    assert(right.skip(prefix.len() as int) =~= decimal(b as nat));
    crate::text::law_decimal_tells_numbers_apart(a as nat, b as nat);
}

/// A screenshot's name is the project's name, an underscore and the second, and it ends like
/// a PNG file's.
pub proof fn law_names_tell_the_second(seconds: u64)
    ensures
        ({
            let name = filename_at(seconds);
            let digits = decimal(seconds as nat);
            &&& name.len() == digits.len() + 12
            &&& name.take(8) == seq!['c', 'l', 'e', 'a', 'r', 'x', 'r', '_']
            &&& name.subrange(8, 8 + digits.len() as int) == digits
            &&& name.skip(8 + digits.len() as int) == seq!['.', 'p', 'n', 'g']
        }),
{
    reveal_strlit("clearxr_");
    reveal_strlit(".png");
    let name = filename_at(seconds);
    let digits = decimal(seconds as nat);
    assert(name.take(8) =~= seq!['c', 'l', 'e', 'a', 'r', 'x', 'r', '_']);
    assert(name.subrange(8, 8 + digits.len() as int) =~= digits);
    assert(name.skip(8 + digits.len() as int) =~= seq!['.', 'p', 'n', 'g']);
}

/// An RGBA image has four bytes for each pixel: one more column is four bytes more in each
/// row, one more row four bytes more for each column.
pub proof fn law_four_bytes_a_pixel(width: u32, height: u32)
    ensures
        rgba_length(0, height) == 0,
        rgba_length(width, 0) == 0,
        width < u32::MAX ==> rgba_length((width + 1) as u32, height) == rgba_length(width, height)
            + 4 * height,
        height < u32::MAX ==> rgba_length(width, (height + 1) as u32) == rgba_length(width, height)
            + 4 * width,
{
    assert((width + 1) * height * 4 == width * height * 4 + 4 * height) by (nonlinear_arith);
    assert(width * (height + 1) * 4 == width * height * 4 + 4 * width) by (nonlinear_arith);
}

/// The message names the length that was wanted, the one that came, and the size, in that
/// order.
pub proof fn law_message_names_the_lengths(length: nat, width: u32, height: u32)
    ensures
        ({
            let wanted = decimal((4 * width * height) as nat);
            let size = decimal(width as nat) + "x"@ + decimal(height as nat);
            length_error(length, width, height) == "Invalid buffer length: expected "@ + wanted
                + " got "@ + decimal(length) + " for "@ + size + " image"@
        }),
{
    assert(4 * width * height == width * height * 4) by (nonlinear_arith);
    let wanted = decimal((4 * width * height) as nat);
    let size = decimal(width as nat) + "x"@ + decimal(height as nat);
    assert(length_error(length, width, height) =~= "Invalid buffer length: expected "@ + wanted
        + " got "@ + decimal(length) + " for "@ + size + " image"@);
}

} // verus!
