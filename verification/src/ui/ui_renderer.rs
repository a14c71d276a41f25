//! The launcher page rendered from HTML: its pixels, its scripts, and when it has
//! to be drawn.

use crate::pixels::{pixel_at, put_pixel, swapped_at, Quad};
use crate::text::{
    blank, joined, law_trimming_takes_the_whitespace_off, same_text, trim, trimmed_end,
    trimmed_start, whitespace,
};
use vstd::prelude::*;

verus! {

/// The pixel that a rendered surface gives a pixel of the page, where the surface
/// reaches it.
pub open spec fn surface_pixel(surface: Seq<u8>, row_bytes: int, x: int, y: int) -> Option<Quad> {
    let k = y * row_bytes + x * 4;
    if k + 3 < surface.len() {
        Some(swapped_at(surface, k))
    } else {
        None
    }
}

/// What a script's result comes to: nothing if the script failed or returned
/// nothing, else the result without surrounding whitespace.
pub open spec fn script_result(result: Option<Seq<char>>) -> Option<Seq<char>> {
    match result {
        Some(text) => {
            let inner = trimmed_end(trimmed_start(text));
            if inner.len() == 0 || inner == "undefined"@ || inner == "null"@ {
                None
            } else {
                Some(inner)
            }
        },
        None => None,
    }
}

/// The script that gives the page its games, from their JSON.
pub fn games_script(json: &str) -> (script: String)
    ensures
        script@ == "window.GAMES = "@ + json@ + "; renderGames();"@,
{
    joined("window.GAMES = ", json, "; renderGames();")
}

/// Evaluate a script's result: `None` if the script failed or returned an empty,
/// undefined or null value.
pub fn evaluate_js(result: Option<String>) -> (value: Option<String>)
    ensures
        ({
            let text = match result {
                Some(text) => Some(text@),
                None => None,
            };
            match (script_result(text), value) {
                (Some(expected), Some(found)) => found@ == expected,
                (None, None) => true,
                _ => false,
            }
        }),
{
    match result {
        None => None,
        Some(text) => {
            let inner = trim(text.as_str());
            if inner.as_str().is_empty() || same_text(inner.as_str(), "undefined") || same_text(
                inner.as_str(),
                "null",
            ) {
                None
            } else {
                Some(inner)
            }
        },
    }
}

/// What loading a page does next.
#[derive(Clone, Copy, Debug, PartialEq, Eq, Structural)]
pub enum LoadStep {
    /// The page is there.
    Done,
    /// Let the page load, then wait for this many milliseconds.
    Pump(u64),
    /// Loading took too long.
    TimedOut,
}

/// What loading a page does next. `waited` is how many whole seconds went by once the
/// page was let load at least once: with more than five it has timed out, even if it is
/// there by now.
pub fn load_step(done: bool, waited: Option<u64>) -> (step: LoadStep)
    ensures
        step == if waited matches Some(seconds) && seconds > 5 {
            LoadStep::TimedOut
        } else if done {
            LoadStep::Done
        } else {
            LoadStep::Pump(5)
        },
{
    if let Some(seconds) = waited {
        if seconds > 5 {
            return LoadStep::TimedOut;
        }
    }
    if done {
        LoadStep::Done
    } else {
        LoadStep::Pump(5)
    }
}

/// The page's pixels and whether they are out of date.
pub struct UiRenderer {
    width: u32,
    height: u32,
    pixels: Vec<u8>,
    dirty: bool,
}

impl UiRenderer {
    /// The page's width.
    pub closed spec fn columns(self) -> int {
        self.width as int
    }

    /// The page's height.
    pub closed spec fn rows(self) -> int {
        self.height as int
    }

    /// The page's RGBA bytes.
    pub closed spec fn bytes(self) -> Seq<u8> {
        self.pixels@
    }

    /// Whether something changed since the page was drawn.
    pub closed spec fn is_dirty(self) -> bool {
        self.dirty
    }

    /// There are four bytes for each pixel.
    pub closed spec fn wf(self) -> bool {
        self.pixels@.len() == self.width * self.height * 4
    }

    /// A page of this size that has yet to be drawn.
    pub fn new(width: u32, height: u32) -> (ui: Self)
        requires
            width * height * 4 <= u32::MAX,
        ensures
            ui.wf(),
            ui.columns() == width,
            ui.rows() == height,
            ui.bytes() == Seq::new((width * height * 4) as nat, |i: int| 0u8),
            ui.is_dirty(),
    {
        assert(width * height <= width * height * 4) by (nonlinear_arith)
            requires
                width >= 0,
                height >= 0,
        ;
        let area: u32 = width * height;
        let length: usize = (area * 4) as usize;
        let pixels: Vec<u8> = vec![0u8; length];
        let ui = UiRenderer { width, height, pixels, dirty: true };
        assert(ui.bytes() =~= Seq::new((width * height * 4) as nat, |i: int| 0u8));
        ui
    }

    /// Note that the page was loaded, given games, or sent mouse input.
    pub fn touch(&mut self)
        requires
            old(self).wf(),
        ensures
            final(self).wf(),
            final(self).is_dirty(),
            final(self).columns() == old(self).columns(),
            final(self).rows() == old(self).rows(),
            final(self).bytes() == old(self).bytes(),
    {
        self.dirty = true;
    }

    /// Whether the page has to be drawn.
    pub fn needs_render(&self, needs_paint: bool) -> (answer: bool)
        ensures
            answer == (self.is_dirty() || needs_paint),
    {
        self.dirty || needs_paint
    }

    /// Take over a drawn surface, if there is one: every pixel that the surface
    /// reaches, from blue, green, red to red, green, blue; rows may be padded.
    /// The page is up to date afterwards. Returns its pixels.
    pub fn update(&mut self, surface: Option<(&[u8], usize)>) -> (pixels: &[u8])
        requires
            old(self).wf(),
            surface matches Some((_, row_bytes)) ==> old(self).rows() * row_bytes
                + old(self).columns() * 4 <= usize::MAX - 4,
        ensures
            final(self).wf(),
            !final(self).is_dirty(),
            final(self).columns() == old(self).columns(),
            final(self).rows() == old(self).rows(),
            pixels@ == final(self).bytes(),
            match surface {
                None => final(self).bytes() == old(self).bytes(),
                Some((source, row_bytes)) => forall|x: int, y: int|
                    0 <= x < old(self).columns() && 0 <= y < old(self).rows()
                        ==> #[trigger] pixel_at(final(self).bytes(), old(self).columns(), x, y)
                        == match surface_pixel(source@, row_bytes as int, x, y) {
                        Some(pixel) => pixel,
                        None => pixel_at(old(self).bytes(), old(self).columns(), x, y),
                    },
            },
    {
        let ghost before = self.pixels@;
        let width: usize = self.width as usize;
        let height: usize = self.height as usize;
        if let Some((source, row_bytes)) = surface {
            let mut y: usize = 0;
            while y < height
                invariant
                    y <= height,
                    width == self.width,
                    height == self.height,
                    self.width == old(self).width,
                    self.height == old(self).height,
                    self.pixels@.len() == width * height * 4,
                    height * row_bytes + width * 4 <= usize::MAX - 4,
                    forall|u: int, v: int|
                        0 <= u < width && 0 <= v < height ==> #[trigger] pixel_at(
                            self.pixels@,
                            width as int,
                            u,
                            v,
                        ) == if v < y {
                            match surface_pixel(source@, row_bytes as int, u, v) {
                                Some(pixel) => pixel,
                                None => pixel_at(before, width as int, u, v),
                            }
                        } else {
                            pixel_at(before, width as int, u, v)
                        },
                decreases height - y,
            {
                assert(y * row_bytes <= height * row_bytes) by (nonlinear_arith)
                    requires
                        y <= height,
                        row_bytes >= 0,
                ;
                let src_row: usize = y * row_bytes;
                let mut x: usize = 0;
                while x < width
                    invariant
                        x <= width,
                        y < height,
                        width == self.width,
                        height == self.height,
                        self.width == old(self).width,
                        self.height == old(self).height,
                        self.pixels@.len() == width * height * 4,
                        src_row == y * row_bytes,
                        src_row + width * 4 <= usize::MAX - 4,
                        forall|u: int, v: int|
                            0 <= u < width && 0 <= v < height ==> #[trigger] pixel_at(
                                self.pixels@,
                                width as int,
                                u,
                                v,
                            ) == if v < y || (v == y && u < x) {
                                match surface_pixel(source@, row_bytes as int, u, v) {
                                    Some(pixel) => pixel,
                                    None => pixel_at(before, width as int, u, v),
                                }
                            } else {
                                pixel_at(before, width as int, u, v)
                            },
                    decreases width - x,
                {
                    let offset: usize = src_row + x * 4;
                    if offset + 3 < source.len() {
                        let pixel = Quad {
                            c0: source[offset + 2],
                            c1: source[offset + 1],
                            c2: source[offset],
                            c3: source[offset + 3],
                        };
                        put_pixel(&mut self.pixels, width, height, x, y, pixel);
                    }
                    x += 1;
                }
                y += 1;
            }
        }
        self.dirty = false;
        self.pixels.as_slice()
    }
}

/// Failed scripts and empty results come to nothing, and what a script does come to
/// is never empty, undefined or null.
pub proof fn law_empty_results_are_nothing(result: Option<Seq<char>>)
    ensures
        script_result(None) is None,
        script_result(Some(Seq::empty())) is None,
        script_result(result) matches Some(text) ==> text.len() > 0 && text != "undefined"@ && text
            != "null"@,
{
}

/// A page's pixel is that of the surface at the same column and row, where the rows of the
/// surface are that many bytes apart, with red and blue exchanged. Where the surface ends
/// before the pixel does, there is none.
pub proof fn law_surface_gives_its_pixels(surface: Seq<u8>, row_bytes: int, x: int, y: int)
    ensures
        ({
            let start = row_bytes * y + 4 * x;
            let pixel = surface_pixel(surface, row_bytes, x, y);
            &&& pixel is Some <==> start + 4 <= surface.len()
            &&& pixel is Some ==> pixel->0.c0 == surface[start + 2]
            &&& pixel is Some ==> pixel->0.c1 == surface[start + 1]
            &&& pixel is Some ==> pixel->0.c2 == surface[start]
            &&& pixel is Some ==> pixel->0.c3 == surface[start + 3]
        }),
{
    assert(row_bytes * y == y * row_bytes) by (nonlinear_arith);
}

/// What a script comes to is the text between the whitespace around it, unless there is none
/// or it says that there is no value.
pub proof fn law_results_are_trimmed(lead: Seq<char>, inner: Seq<char>, tail: Seq<char>)
    requires
        blank(lead),
        blank(tail),
        inner.len() > 0 ==> !whitespace(inner[0]) && !whitespace(inner.last()),
    ensures
        ({
            let undefined = seq!['u', 'n', 'd', 'e', 'f', 'i', 'n', 'e', 'd'];
            let null = seq!['n', 'u', 'l', 'l'];
            let nothing = inner.len() == 0 || inner == undefined || inner == null;
            let result = script_result(Some(lead + inner + tail));
            &&& nothing ==> result is None
            &&& !nothing ==> result == Some(inner)
        }),
{
    law_trimming_takes_the_whitespace_off(lead, inner, tail);
    reveal_strlit("undefined");
    reveal_strlit("null");
    assert("undefined"@ =~= seq!['u', 'n', 'd', 'e', 'f', 'i', 'n', 'e', 'd']);
    assert("null"@ =~= seq!['n', 'u', 'l', 'l']);
}

} // verus!
