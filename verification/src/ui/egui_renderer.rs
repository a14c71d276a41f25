//! A panel interface drawn into an RGBA pixel buffer: its textures, and the
//! fragments of its triangles.

use super::egui_panel_renderer::{pointer_events, PanelInput, UiEvent};
use super::texture_table::{TextureId, TextureTable};
use crate::pixels::{lemma_cell, lemma_cell_of, Rgba};
use crate::scalar::Scalar;
use crate::shell::interaction::Uv;
use vstd::prelude::*;

verus! {

/// An RGBA premultiplied texture.
#[derive(Clone, Debug)]
pub struct TextureImage {
    pub width: usize,
    pub height: usize,
    /// Row-major RGBA premultiplied pixels.
    pub pixels: Vec<Rgba>,
}

/// What a texture shows.
#[verifier::ext_equal]
pub ghost struct TextureView {
    pub width: int,
    pub height: int,
    pub pixels: Seq<Rgba>,
}

impl View for TextureImage {
    type V = TextureView;

    open spec fn view(&self) -> TextureView {
        TextureView {
            width: self.width as int,
            height: self.height as int,
            pixels: self.pixels@,
        }
    }
}

/// The smaller of an index and the last index of a length.
pub open spec fn clamped(index: int, length: int) -> int {
    if index < length - 1 {
        index
    } else {
        length - 1
    }
}

impl TextureImage {
    /// There is a pixel for each column and row.
    pub open spec fn wf(self) -> bool {
        self.pixels@.len() == self.width * self.height
    }

    /// The pixel at a column and row.
    pub open spec fn at(self, x: int, y: int) -> Rgba {
        self.pixels@[y * self.width + x]
    }

    /// The pixel nearest to a column and row, beyond the edge that on it.
    pub open spec fn nearest(self, x: int, y: int) -> Rgba {
        self.at(clamped(x, self.width as int), clamped(y, self.height as int))
    }

    /// Nearest-neighbour sample at a column and row.
    pub fn sample(&self, x: usize, y: usize) -> (color: Rgba)
        requires
            self.wf(),
            self.width > 0,
            self.height > 0,
        ensures
            color == self.nearest(x as int, y as int),
    {
        let column: usize = if x < self.width - 1 {
            x
        } else {
            self.width - 1
        };
        let row: usize = if y < self.height - 1 {
            y
        } else {
            self.height - 1
        };
        proof {
            lemma_cell(column as int, row as int, self.width as int, self.height as int);
            assert(row * self.width + column < self.pixels.len());
        }
        self.pixels[row * self.width + column]
    }
}

/// A new picture for a texture, or for a part of it.
#[derive(Clone, Debug)]
pub struct ImageDelta {
    pub image: TextureImage,
    /// Where a part begins (column, row); a whole picture has none.
    pub pos: Option<(usize, usize)>,
}

/// Whether a pixel of a texture lies in the part that a picture covers.
pub open spec fn patch_covers(x: int, y: int, pos: (usize, usize), part: TextureView) -> bool {
    pos.0 <= x < pos.0 + part.width && pos.1 <= y < pos.1 + part.height
}

/// The texture with a part replaced; what sticks out of the texture is left out.
pub open spec fn patched(
    before: TextureView,
    pos: (usize, usize),
    part: TextureView,
) -> TextureView {
    TextureView {
        pixels: Seq::new(
            before.pixels.len(),
            |i: int|
                {
                    let x = i % before.width;
                    let y = i / before.width;
                    if patch_covers(x, y, pos, part) {
                        part.pixels[(y - pos.1) * part.width + (x - pos.0)]
                    } else {
                        before.pixels[i]
                    }
                },
        ),
        ..before
    }
}

impl TextureImage {
    /// Replace one row of a part, from column `left` of the texture on.
    fn patch_row(&mut self, left: usize, row: usize, part: &TextureImage, part_row: usize)
        requires
            old(self).wf(),
            part.wf(),
            row < old(self).height,
            part_row < part.height,
        ensures
            final(self).wf(),
            final(self).width == old(self).width,
            final(self).height == old(self).height,
            forall|x: int, y: int|
                0 <= x < old(self).width && 0 <= y < old(self).height ==> #[trigger] final(self).at(
                    x,
                    y,
                ) == if y == row && left <= x < left + part.width {
                    part.at(x - left, part_row as int)
                } else {
                    old(self).at(x, y)
                },
    {
        let width = self.width;
        let height = self.height;
        let ghost before = *self;
        let count: usize = if left >= width {
            0
        } else if part.width < width - left {
            part.width
        } else {
            width - left
        };
        let mut column: usize = 0;
        while column < count
            invariant
                column <= count,
                count <= part.width,
                count == 0 || left + count <= width,
                row < height,
                part_row < part.height,
                part.wf(),
                before.wf(),
                before.width == width,
                before.height == height,
                self.width == width,
                self.height == height,
                self.wf(),
                forall|x: int, y: int|
                    0 <= x < width && 0 <= y < height ==> #[trigger] self.at(x, y) == if y == row
                        && left <= x < left + column {
                        part.at(x - left, part_row as int)
                    } else {
                        before.at(x, y)
                    },
            decreases count - column,
        {
            let ghost mid = *self;
            proof {
                lemma_cell(left + column, row as int, width as int, height as int);
                lemma_cell(column as int, part_row as int, part.width as int, part.height as int);
                assert(row * width + (left + column) < self.pixels.len());
                assert(part_row * part.width + column < part.pixels.len());
            }
            let color = part.pixels[part_row * part.width + column];
            self.pixels.set(row * width + (left + column), color);
            assert forall|x: int, y: int| 0 <= x < width && 0 <= y < height implies
                #[trigger] self.at(x, y) == if y == row && left <= x < left + column + 1 {
                part.at(x - left, part_row as int)
            } else {
                before.at(x, y)
            } by {
                lemma_cell(x, y, width as int, height as int);
                assert(self.at(x, y) == self.pixels@[y * width + x]);
                assert(mid.at(x, y) == mid.pixels@[y * width + x]);
            }
            column += 1;
        }
    }

    /// Replace a part of the texture.
    pub fn patch(&mut self, pos: (usize, usize), part: &TextureImage)
        requires
            old(self).wf(),
            part.wf(),
        ensures
            final(self).wf(),
            final(self)@ == patched(old(self)@, pos, part@),
    {
        let width = self.width;
        let height = self.height;
        let ghost before = *self;
        let (left, top) = pos;
        let count: usize = if top >= height {
            0
        } else if part.height < height - top {
            part.height
        } else {
            height - top
        };
        let mut row: usize = 0;
        while row < count
            invariant
                row <= count,
                count <= part.height,
                count == 0 || top + count <= height,
                part.wf(),
                before.width == width,
                before.height == height,
                self.width == width,
                self.height == height,
                self.wf(),
                forall|x: int, y: int|
                    0 <= x < width && 0 <= y < height ==> #[trigger] self.at(x, y) == if top <= y
                        < top + row && left <= x < left + part.width {
                        part.at(x - left, y - top)
                    } else {
                        before.at(x, y)
                    },
            decreases count - row,
        {
            let ghost mid = *self;
            self.patch_row(left, top + row, part, row);
            assert forall|x: int, y: int| 0 <= x < width && 0 <= y < height implies
                #[trigger] self.at(x, y) == if top <= y < top + row + 1 && left <= x < left
                + part.width {
                part.at(x - left, y - top)
            } else {
                before.at(x, y)
            } by {
                assert(mid.at(x, y) == if top <= y < top + row && left <= x < left + part.width {
                    part.at(x - left, y - top)
                } else {
                    before.at(x, y)
                });
            }
            row += 1;
        }
        let ghost expected = patched(before@, pos, part@);
        assert forall|i: int| 0 <= i < self.pixels@.len() implies #[trigger] self.pixels@[i]
            == expected.pixels[i] by {
            if width > 0 {
                lemma_cell_of(i, width as int, height as int);
                let x = i % (width as int);
                let y = i / (width as int);
                assert(self.at(x, y) == self.pixels@[i]);
                assert(before.at(x, y) == before.pixels@[i]);
            } else {
                assert(width * height == 0) by (nonlinear_arith)
                    requires
                        width == 0,
                ;
            }
        }
        assert(self@ =~= expected);
    }
}

/// The textures of an interface, each under its own name.
#[derive(Clone, Debug)]
pub struct TextureStore {
    table: TextureTable<TextureImage>,
}

impl TextureStore {
    /// No name occurs twice, and every texture has all its pixels.
    pub closed spec fn wf(self) -> bool {
        &&& self.table.wf()
        &&& forall|id: TextureId|
            self.table@.dom().contains(id) ==> (#[trigger] self.table@[id]).wf()
    }

    /// What the names lead to.
    pub closed spec fn view(self) -> Map<TextureId, TextureView> {
        self.table@.map_values(|image: TextureImage| image@)
    }

    /// No textures.
    pub fn new() -> (store: TextureStore)
        ensures
            store.wf(),
            store@ == Map::<TextureId, TextureView>::empty(),
    {
        let store = TextureStore { table: TextureTable::new() };
        assert(store@ =~= Map::<TextureId, TextureView>::empty());
        store
    }

    /// The texture of this name, if there is one.
    pub fn get(&self, id: TextureId) -> (texture: Option<&TextureImage>)
        requires
            self.wf(),
        ensures
            match texture {
                Some(image) => self@.dom().contains(id) && image@ == self@[id] && image.wf(),
                None => !self@.dom().contains(id),
            },
    {
        self.table.get(id)
    }

    /// Put a texture under a name, in place of an earlier one.
    fn insert(&mut self, id: TextureId, image: TextureImage)
        requires
            old(self).wf(),
            image.wf(),
        ensures
            final(self).wf(),
            final(self)@ == old(self)@.insert(id, image@),
    {
        let ghost before = *self;
        self.table.insert(id, image);
        assert(self@ =~= before@.insert(id, image@));
    }

    /// Give up the texture of a name, if there is one.
    fn remove(&mut self, id: TextureId)
        requires
            old(self).wf(),
        ensures
            final(self).wf(),
            final(self)@ == old(self)@.remove(id),
    {
        let ghost before = *self;
        self.table.remove(id);
        assert(self@ =~= before@.remove(id));
    }

    /// Apply a new picture: a whole one replaces the texture, a part is patched
    /// into it, and a part of a texture that does not exist is left out.
    pub fn apply_image_delta(&mut self, id: TextureId, delta: &ImageDelta)
        requires
            old(self).wf(),
            delta.image.wf(),
        ensures
            final(self).wf(),
            final(self)@ == after_delta(old(self)@, id, *delta),
    {
        match delta.pos {
            None => {
                let image = TextureImage {
                    width: delta.image.width,
                    height: delta.image.height,
                    pixels: copy_pixels(&delta.image.pixels),
                };
                self.insert(id, image);
            },
            Some(pos) => {
                if let Some(current) = self.get(id) {
                    let mut image = TextureImage {
                        width: current.width,
                        height: current.height,
                        pixels: copy_pixels(&current.pixels),
                    };
                    image.patch(pos, &delta.image);
                    self.insert(id, image);
                }
            },
        }
    }

    /// Apply all new pictures in order, then give up the textures to be freed.
    pub fn apply_textures_delta(
        &mut self,
        set: &Vec<(TextureId, ImageDelta)>,
        free: &Vec<TextureId>,
    )
        requires
            old(self).wf(),
            forall|i: int| 0 <= i < set@.len() ==> (#[trigger] set@[i]).1.image.wf(),
        ensures
            final(self).wf(),
            final(self)@ == after_frees(after_sets(old(self)@, set@), free@),
    {
        let ghost start = self@;
        let mut i: usize = 0;
        while i < set.len()
            invariant
                i <= set.len(),
                self.wf(),
                forall|k: int| 0 <= k < set@.len() ==> (#[trigger] set@[k]).1.image.wf(),
                self@ == after_sets(start, set@.take(i as int)),
            decreases set.len() - i,
        {
            let ghost next = set@.take(i + 1);
            assert(next.drop_last() =~= set@.take(i as int));
            assert(next.last() == set@[i as int]);
            let entry = &set[i];
            self.apply_image_delta(entry.0, &entry.1);
            i += 1;
        }
        assert(set@.take(i as int) =~= set@);
        let ghost filled = self@;
        let mut k: usize = 0;
        while k < free.len()
            invariant
                k <= free.len(),
                self.wf(),
                self@ == after_frees(filled, free@.take(k as int)),
            decreases free.len() - k,
        {
            let ghost next = free@.take(k + 1);
            assert(next.drop_last() =~= free@.take(k as int));
            assert(next.last() == free@[k as int]);
            self.remove(free[k]);
            k += 1;
        }
        assert(free@.take(k as int) =~= free@);
    }
}

/// The textures after a new picture.
pub open spec fn after_delta(
    textures: Map<TextureId, TextureView>,
    id: TextureId,
    delta: ImageDelta,
) -> Map<TextureId, TextureView> {
    match delta.pos {
        None => textures.insert(id, delta.image@),
        Some(pos) => if textures.dom().contains(id) {
            textures.insert(id, patched(textures[id], pos, delta.image@))
        } else {
            textures
        },
    }
}

/// The textures after all new pictures, in order.
pub open spec fn after_sets(
    textures: Map<TextureId, TextureView>,
    set: Seq<(TextureId, ImageDelta)>,
) -> Map<TextureId, TextureView>
    decreases set.len(),
{
    if set.len() == 0 {
        textures
    } else {
        after_delta(after_sets(textures, set.drop_last()), set.last().0, set.last().1)
    }
}

/// The textures without those to be freed.
pub open spec fn after_frees(
    textures: Map<TextureId, TextureView>,
    free: Seq<TextureId>,
) -> Map<TextureId, TextureView>
    decreases free.len(),
{
    if free.len() == 0 {
        textures
    } else {
        after_frees(textures, free.drop_last()).remove(free.last())
    }
}

fn copy_pixels(pixels: &Vec<Rgba>) -> (copy: Vec<Rgba>)
    ensures
        copy@ == pixels@,
{
    let mut copy: Vec<Rgba> = Vec::new();
    let mut i: usize = 0;
    while i < pixels.len()
        invariant
            i <= pixels.len(),
            copy@ == pixels@.take(i as int),
        decreases pixels.len() - i,
    {
        copy.push(pixels[i]);
        assert(pixels@.take(i + 1) =~= pixels@.take(i as int).push(pixels@[i as int]));
        i += 1;
    }
    assert(pixels@.take(i as int) =~= pixels@);
    copy
}

/// A rectangle of pixels: from (`x0`, `y0`) up to, not including, (`x1`, `y1`).
#[derive(Clone, Copy, Debug, PartialEq, Eq, Structural)]
pub struct PixelRect {
    pub x0: i32,
    pub y0: i32,
    pub x1: i32,
    pub y1: i32,
}

/// The larger of two numbers.
pub open spec fn larger(a: i32, b: i32) -> i32 {
    if a < b {
        b
    } else {
        a
    }
}

/// The smaller of two numbers.
pub open spec fn smaller(a: i32, b: i32) -> i32 {
    if a < b {
        a
    } else {
        b
    }
}

impl PixelRect {
    /// The pixels in both rectangles.
    pub open spec fn meet(self, other: PixelRect) -> PixelRect {
        PixelRect {
            x0: larger(self.x0, other.x0),
            y0: larger(self.y0, other.y0),
            x1: smaller(self.x1, other.x1),
            y1: smaller(self.y1, other.y1),
        }
    }

    /// Whether a pixel lies in the rectangle.
    pub open spec fn contains(self, x: int, y: int) -> bool {
        self.x0 <= x < self.x1 && self.y0 <= y < self.y1
    }

    /// The pixels in both rectangles.
    pub fn intersect(self, other: PixelRect) -> (both: PixelRect)
        ensures
            both == self.meet(other),
    {
        PixelRect {
            x0: if self.x0 < other.x0 {
                other.x0
            } else {
                self.x0
            },
            y0: if self.y0 < other.y0 {
                other.y0
            } else {
                self.y0
            },
            x1: if self.x1 < other.x1 {
                self.x1
            } else {
                other.x1
            },
            y1: if self.y1 < other.y1 {
                self.y1
            } else {
                other.y1
            },
        }
    }
}

/// A pixel that a triangle covers: where it is, the interpolated vertex color,
/// and the texel it shows.
#[derive(Clone, Copy, Debug, PartialEq, Eq, Structural)]
pub struct Fragment {
    pub x: u32,
    pub y: u32,
    pub color: Rgba,
    pub texel_x: usize,
    pub texel_y: usize,
}

/// The color stored from byte `k` on.
pub open spec fn color_at(pixels: Seq<u8>, k: int) -> Rgba {
    Rgba { r: pixels[k], g: pixels[k + 1], b: pixels[k + 2], a: pixels[k + 3] }
}

/// The bytes with a color stored from byte `k` on.
pub open spec fn with_color(pixels: Seq<u8>, k: int, color: Rgba) -> Seq<u8> {
    pixels.update(k, color.r).update(k + 1, color.g).update(k + 2, color.b).update(k + 3, color.a)
}

/// The color that a texture gives a fragment; without a texture that is white.
pub open spec fn texel_of(texture: Option<TextureView>, fragment: Fragment) -> Rgba {
    match texture {
        Some(view) => {
            let x = clamped(fragment.texel_x as int, view.width);
            let y = clamped(fragment.texel_y as int, view.height);
            view.pixels[y * view.width + x]
        },
        None => Rgba::white_spec(),
    }
}

/// The bytes after one fragment: its color through the texture, laid over what
/// was there, unless it is fully transparent.
pub open spec fn after_fragment(
    pixels: Seq<u8>,
    width: int,
    texture: Option<TextureView>,
    fragment: Fragment,
) -> Seq<u8> {
    let shaded = fragment.color.times(texel_of(texture, fragment));
    let k = (fragment.y * width + fragment.x) * 4;
    if shaded.a == 0 {
        pixels
    } else {
        with_color(pixels, k, shaded.over(color_at(pixels, k)))
    }
}

/// The bytes after all fragments, in order.
pub open spec fn after_fragments(
    pixels: Seq<u8>,
    width: int,
    texture: Option<TextureView>,
    fragments: Seq<Fragment>,
) -> Seq<u8>
    decreases fragments.len(),
{
    if fragments.len() == 0 {
        pixels
    } else {
        after_fragment(
            after_fragments(pixels, width, texture, fragments.drop_last()),
            width,
            texture,
            fragments.last(),
        )
    }
}

/// A cleared buffer: every pixel the dark, opaque background.
pub open spec fn cleared(length: nat) -> Seq<u8> {
    Seq::new(
        length,
        |i: int|
            if i % 4 == 0 {
                10u8
            } else if i % 4 == 1 {
                10u8
            } else if i % 4 == 2 {
                20u8
            } else {
                255u8
            },
    )
}

/// The corners of the triangles that indices name, three at a time; what is left
/// over names none.
pub open spec fn triangles_of(indices: Seq<u32>) -> Seq<(u32, u32, u32)> {
    Seq::new(
        (indices.len() / 3) as nat,
        |i: int| (indices[3 * i], indices[3 * i + 1], indices[3 * i + 2]),
    )
}

/// The corners of the triangles that indices name.
pub fn triangles(indices: &Vec<u32>) -> (corners: Vec<(u32, u32, u32)>)
    ensures
        corners@ == triangles_of(indices@),
{
    let count: usize = indices.len() / 3;
    let mut corners: Vec<(u32, u32, u32)> = Vec::new();
    let mut i: usize = 0;
    while i < count
        invariant
            i <= count,
            3 * count <= indices.len(),
            corners@.len() == i,
            count == indices@.len() / 3,
            forall|k: int| 0 <= k < i ==> #[trigger] corners@[k] == triangles_of(indices@)[k],
        decreases count - i,
    {
        corners.push((indices[3 * i], indices[3 * i + 1], indices[3 * i + 2]));
        i += 1;
    }
    assert(corners@ =~= triangles_of(indices@));
    corners
}

/// Whether a primitive is drawn: a mesh with vertices and indices.
pub fn draws_mesh(is_mesh: bool, vertices: usize, indices: usize) -> (answer: bool)
    ensures
        answer == (is_mesh && vertices > 0 && indices > 0),
{
    is_mesh && vertices > 0 && indices > 0
}

/// Draws a panel interface into an RGBA pixel buffer.
pub struct EguiRenderer {
    width: u32,
    height: u32,
    pixels: Vec<u8>,
    textures: TextureStore,
    input: PanelInput,
}

impl EguiRenderer {
    /// The width in pixels.
    pub closed spec fn columns(self) -> int {
        self.width as int
    }

    /// The height in pixels.
    pub closed spec fn rows(self) -> int {
        self.height as int
    }

    /// The RGBA bytes, row-major, top to bottom.
    pub closed spec fn bytes(self) -> Seq<u8> {
        self.pixels@
    }

    /// The textures by name.
    pub closed spec fn texture_map(self) -> Map<TextureId, TextureView> {
        self.textures@
    }

    /// What is remembered of the input.
    pub closed spec fn input_state(self) -> PanelInput {
        self.input
    }

    /// There are four bytes for each pixel, and the textures are in order.
    pub closed spec fn wf(self) -> bool {
        &&& self.pixels@.len() == self.width * self.height * 4
        &&& self.textures.wf()
        &&& self.width <= i32::MAX
        &&& self.height <= i32::MAX
    }

    /// Whether nothing but the pixels differs.
    pub open spec fn same_but_pixels(self, other: EguiRenderer) -> bool {
        &&& self.columns() == other.columns()
        &&& self.rows() == other.rows()
        &&& self.texture_map() == other.texture_map()
        &&& self.input_state() == other.input_state()
    }

    /// Create a new renderer targeting the given pixel dimensions.
    pub fn new(width: u32, height: u32) -> (renderer: Self)
        requires
            width * height * 4 <= u32::MAX,
            width <= i32::MAX,
            height <= i32::MAX,
        ensures
            renderer.wf(),
            renderer.columns() == width,
            renderer.rows() == height,
            renderer.bytes() == Seq::new((width * height * 4) as nat, |i: int| 0u8),
            renderer.texture_map() == Map::<TextureId, TextureView>::empty(),
            renderer.input_state() == (PanelInput {
                pointer_pos: None,
                has_rendered: false,
                prev_button_pressed: false,
                prev_secondary_pressed: false,
            }),
    {
        assert(width * height <= width * height * 4) by (nonlinear_arith)
            requires
                width >= 0,
                height >= 0,
        ;
        let area: u32 = width * height;
        let length: usize = (area * 4) as usize;
        let pixels: Vec<u8> = vec![0u8; length];
        let renderer = EguiRenderer {
            width,
            height,
            pixels,
            textures: TextureStore::new(),
            input: PanelInput::new(),
        };
        assert(renderer.bytes() =~= Seq::new((width * height * 4) as nat, |i: int| 0u8));
        renderer
    }

    /// Width in pixels.
    pub fn width(&self) -> (width: u32)
        ensures
            width == self.columns(),
    {
        self.width
    }

    /// Height in pixels.
    pub fn height(&self) -> (height: u32)
        ensures
            height == self.rows(),
    {
        self.height
    }

    /// The RGBA pixel buffer, row-major, top-to-bottom.
    pub fn pixels(&self) -> (bytes: &[u8])
        ensures
            bytes@ == self.bytes(),
    {
        self.pixels.as_slice()
    }

    /// Force the next frame to be drawn, even if nothing needs it.
    pub fn force_repaint(&mut self)
        requires
            old(self).wf(),
        ensures
            final(self).wf(),
            final(self).bytes() == old(self).bytes(),
            final(self).columns() == old(self).columns(),
            final(self).rows() == old(self).rows(),
            final(self).texture_map() == old(self).texture_map(),
            final(self).input_state() == (PanelInput {
                has_rendered: false,
                ..old(self).input_state()
            }),
    {
        self.input.force_repaint();
    }

    /// The pointer is at this point of the panel.
    pub fn pointer_move(&mut self, u: Scalar, v: Scalar)
        requires
            old(self).wf(),
        ensures
            final(self).wf(),
            final(self).bytes() == old(self).bytes(),
            final(self).columns() == old(self).columns(),
            final(self).rows() == old(self).rows(),
            final(self).texture_map() == old(self).texture_map(),
            final(self).input_state() == (PanelInput {
                pointer_pos: Some(
                    (Uv { u, v }).scaled(old(self).columns(), old(self).rows()),
                ),
                ..old(self).input_state()
            }),
    {
        self.input.pointer_move(Uv { u, v }, self.width, self.height);
    }

    /// Clear pointer (controller not pointing at this panel).
    pub fn pointer_leave(&mut self)
        requires
            old(self).wf(),
        ensures
            final(self).wf(),
            final(self).bytes() == old(self).bytes(),
            final(self).columns() == old(self).columns(),
            final(self).rows() == old(self).rows(),
            final(self).texture_map() == old(self).texture_map(),
            final(self).input_state() == (PanelInput {
                pointer_pos: None,
                ..old(self).input_state()
            }),
    {
        self.input.pointer_leave();
    }

    /// The input events of a frame; a click is a press and a release at once.
    pub fn frame_events(&self, click: bool) -> (events: Vec<UiEvent>)
        ensures
            events@ == match self.input_state().pointer_pos {
                Some(at) => pointer_events(at, click, (false, false), (false, false)),
                None => Seq::empty(),
            },
    {
        let mut input = PanelInput::new();
        input.pointer_pos = self.input.pointer_pos;
        let none: Vec<String> = Vec::new();
        let events = input.build_events(click, false, false, Scalar { bits: 0 }, &none);
        assert(events@ =~= match self.input_state().pointer_pos {
            Some(at) => pointer_events(at, click, (false, false), (false, false)),
            None => Seq::empty(),
        });
        events
    }

    /// Take over texture changes, and tell whether the frame is to be drawn: not
    /// when nothing needs it and an earlier frame was drawn.
    pub fn begin_draw(
        &mut self,
        set: &Vec<(TextureId, ImageDelta)>,
        free: &Vec<TextureId>,
        needs_repaint: bool,
    ) -> (draw: bool)
        requires
            old(self).wf(),
            forall|i: int| 0 <= i < set@.len() ==> (#[trigger] set@[i]).1.image.wf(),
        ensures
            final(self).wf(),
            final(self).columns() == old(self).columns(),
            final(self).rows() == old(self).rows(),
            final(self).texture_map() == after_frees(
                after_sets(old(self).texture_map(), set@),
                free@,
            ),
            draw == !old(self).input_state().skips(needs_repaint),
            final(self).bytes() == if draw {
                cleared(old(self).bytes().len())
            } else {
                old(self).bytes()
            },
            final(self).input_state() == (PanelInput {
                has_rendered: old(self).input_state().has_rendered || draw,
                ..old(self).input_state()
            }),
    {
        self.textures.apply_textures_delta(set, free);
        if self.input.skip_paint(needs_repaint) {
            return false;
        }
        self.clear();
        self.input.painted(true);
        true
    }

    /// Clear to the dark background.
    fn clear(&mut self)
        requires
            old(self).wf(),
        ensures
            final(self).wf(),
            final(self).bytes() == cleared(old(self).bytes().len()),
            final(self).same_but_pixels(*old(self)),
    {
        let length = self.pixels.len();
        let ghost before = *self;
        let mut i: usize = 0;
        while i < length
            invariant
                i <= length,
                length == self.pixels@.len(),
                length == before.pixels@.len(),
                self.width == before.width,
                self.height == before.height,
                self.textures == before.textures,
                self.input == before.input,
                forall|k: int| 0 <= k < i ==> #[trigger] self.pixels@[k] == cleared(length as nat)[k],
            decreases length - i,
        {
            let value: u8 = match i % 4 {
                0 => 10,
                1 => 10,
                2 => 20,
                _ => 255,
            };
            self.pixels.set(i, value);
            i += 1;
        }
        assert(self.pixels@ =~= cleared(length as nat));
    }

    /// Everything that fits in the buffer.
    pub open spec fn whole(self) -> PixelRect {
        PixelRect { x0: 0, y0: 0, x1: self.columns() as i32, y1: self.rows() as i32 }
    }

    /// The pixels that a triangle can cover: its bounds within the clip rectangle
    /// and the buffer, if there are any.
    pub fn triangle_area(&self, bounds: PixelRect, clip: PixelRect) -> (area: Option<PixelRect>)
        requires
            self.wf(),
        ensures
            ({
                let visible = bounds.meet(clip.meet(self.whole()));
                area == if visible.x0 < visible.x1 && visible.y0 < visible.y1 {
                    Some(visible)
                } else {
                    None
                }
            }),
    {
        let whole = PixelRect { x0: 0, y0: 0, x1: self.width as i32, y1: self.height as i32 };
        let visible = bounds.intersect(clip.intersect(whole));
        if visible.x0 >= visible.x1 || visible.y0 >= visible.y1 {
            None
        } else {
            Some(visible)
        }
    }

    /// The texture of a name, if there is one.
    pub open spec fn texture_named(self, id: TextureId) -> Option<TextureView> {
        if self.texture_map().dom().contains(id) {
            Some(self.texture_map()[id])
        } else {
            None
        }
    }

    /// Paint the fragments of a triangle, in order, through a texture.
    pub fn render_triangle(&mut self, texture: TextureId, fragments: &Vec<Fragment>)
        requires
            old(self).wf(),
            forall|i: int|
                0 <= i < fragments@.len() ==> (#[trigger] fragments@[i]).x < old(self).columns()
                    && fragments@[i].y < old(self).rows(),
            old(self).texture_named(texture) matches Some(view) ==> view.width > 0 && view.height
                > 0,
        ensures
            final(self).wf(),
            final(self).same_but_pixels(*old(self)),
            final(self).bytes() == after_fragments(
                old(self).bytes(),
                old(self).columns(),
                old(self).texture_named(texture),
                fragments@,
            ),
    {
        let ghost before = *self;
        let ghost named = self.texture_named(texture);
        let mut i: usize = 0;
        while i < fragments.len()
            invariant
                i <= fragments.len(),
                self.wf(),
                self.same_but_pixels(before),
                named == before.texture_named(texture),
                named matches Some(view) ==> view.width > 0 && view.height > 0,
                forall|k: int|
                    0 <= k < fragments@.len() ==> (#[trigger] fragments@[k]).x < before.columns()
                        && fragments@[k].y < before.rows(),
                self.bytes() == after_fragments(
                    before.bytes(),
                    before.columns(),
                    named,
                    fragments@.take(i as int),
                ),
            decreases fragments.len() - i,
        {
            let ghost next = fragments@.take(i + 1);
            assert(next.drop_last() =~= fragments@.take(i as int));
            assert(next.last() == fragments@[i as int]);
            let fragment = fragments[i];
            let texel = match self.textures.get(texture) {
                Some(image) => image.sample(fragment.texel_x, fragment.texel_y),
                None => Rgba::white(),
            };
            assert(texel == texel_of(named, fragment));
            self.paint(fragment, texel);
            i += 1;
        }
        assert(fragments@.take(i as int) =~= fragments@);
    }

    fn paint(&mut self, fragment: Fragment, texel: Rgba)
        requires
            old(self).wf(),
            fragment.x < old(self).columns(),
            fragment.y < old(self).rows(),
        ensures
            final(self).wf(),
            final(self).same_but_pixels(*old(self)),
            ({
                let shaded = fragment.color.times(texel);
                let k = (fragment.y * old(self).columns() + fragment.x) * 4;
                final(self).bytes() == if shaded.a == 0 {
                    old(self).bytes()
                } else {
                    with_color(old(self).bytes(), k, shaded.over(color_at(old(self).bytes(), k)))
                }
            }),
    {
        let shaded = fragment.color.modulate(texel);
        if shaded.a == 0 {
            return;
        }
        proof {
            lemma_cell(
                fragment.x as int,
                fragment.y as int,
                self.width as int,
                self.height as int,
            );
            assert((fragment.y * self.width + fragment.x) * 4 + 3 < self.pixels.len());
        }
        let row: usize = fragment.y as usize * self.width as usize;
        let k: usize = (row + fragment.x as usize) * 4;
        let below = Rgba {
            r: self.pixels[k],
            g: self.pixels[k + 1],
            b: self.pixels[k + 2],
            a: self.pixels[k + 3],
        };
        let color = shaded.blend_over(below);
        self.pixels.set(k, color.r);
        self.pixels.set(k + 1, color.g);
        self.pixels.set(k + 2, color.b);
        self.pixels.set(k + 3, color.a);
    }
}

/// A triangle is painted within the buffer and its clip rectangle: every pixel of
/// the area it can cover lies in both.
pub proof fn law_area_is_clipped(
    renderer: EguiRenderer,
    bounds: PixelRect,
    clip: PixelRect,
    x: int,
    y: int,
)
    requires
        0 <= renderer.columns() <= i32::MAX,
        0 <= renderer.rows() <= i32::MAX,
    ensures
        bounds.meet(clip.meet(renderer.whole())).contains(x, y) <==> bounds.contains(x, y)
            && clip.contains(x, y) && 0 <= x < renderer.columns() && 0 <= y < renderer.rows(),
{
}

/// Painting a fragment touches no pixel but its own.
pub proof fn law_fragment_touches_one_pixel(
    pixels: Seq<u8>,
    width: int,
    texture: Option<TextureView>,
    fragment: Fragment,
    i: int,
)
    requires
        0 <= i < pixels.len(),
        0 <= (fragment.y * width + fragment.x) * 4,
        (fragment.y * width + fragment.x) * 4 + 4 <= pixels.len(),
        !((fragment.y * width + fragment.x) * 4 <= i < (fragment.y * width + fragment.x) * 4 + 4),
    ensures
        after_fragment(pixels, width, texture, fragment)[i] == pixels[i],
{
}

/// Painting keeps the number of bytes.
pub proof fn law_painting_keeps_length(
    pixels: Seq<u8>,
    width: int,
    height: int,
    texture: Option<TextureView>,
    fragments: Seq<Fragment>,
)
    requires
        pixels.len() == width * height * 4,
        forall|i: int|
            0 <= i < fragments.len() ==> (#[trigger] fragments[i]).x < width && fragments[i].y
                < height,
    ensures
        after_fragments(pixels, width, texture, fragments).len() == pixels.len(),
    decreases fragments.len(),
{
    if fragments.len() > 0 {
        let rest = fragments.drop_last();
        let last = fragments.last();
        assert forall|i: int| 0 <= i < rest.len() implies (#[trigger] rest[i]).x < width
            && rest[i].y < height by {
            assert(rest[i] == fragments[i]);
        }
        law_painting_keeps_length(pixels, width, height, texture, rest);
        assert(fragments[fragments.len() - 1] == last);
        lemma_cell(last.x as int, last.y as int, width, height);
    }
}

/// Patching never changes the size of a texture.
pub proof fn law_patch_keeps_size(before: TextureView, pos: (usize, usize), part: TextureView)
    ensures
        patched(before, pos, part).width == before.width,
        patched(before, pos, part).height == before.height,
        patched(before, pos, part).pixels.len() == before.pixels.len(),
{
}

/// A part as large as the texture, put at its corner, replaces all of it.
pub proof fn law_full_patch_replaces(before: TextureView, part: TextureView)
    requires
        0 < before.width,
        before.pixels.len() == before.width * before.height,
        part.width == before.width,
        part.height == before.height,
        part.pixels.len() == before.pixels.len(),
    ensures
        patched(before, (0, 0), part).pixels == part.pixels,
{
    let after = patched(before, (0, 0), part);
    assert forall|i: int| 0 <= i < after.pixels.len() implies #[trigger] after.pixels[i]
        == part.pixels[i] by {
        lemma_cell_of(i, before.width, before.height);
    }
    assert(after.pixels =~= part.pixels);
}

/// A freed texture is gone, whatever was set before.
pub proof fn law_freed_textures_are_gone(
    textures: Map<TextureId, TextureView>,
    free: Seq<TextureId>,
    i: int,
)
    requires
        0 <= i < free.len(),
    ensures
        !after_frees(textures, free).dom().contains(free[i]),
    decreases free.len(),
{
    if i < free.len() - 1 {
        law_freed_textures_are_gone(textures, free.drop_last(), i);
        assert(free.drop_last()[i] == free[i]);
    }
}

/// A sample within a texture is the pixel there, row by row from the top; one beyond the
/// right or the lower edge is that of the edge.
pub proof fn law_samples_stay_in_the_picture(texture: TextureImage, x: int, y: int)
    requires
        texture.width > 0,
        texture.height > 0,
        0 <= x,
        0 <= y,
    ensures
        x < texture.width && y < texture.height ==> texture.nearest(x, y)
            == texture.pixels@[texture.width * y + x],
        x >= texture.width ==> texture.nearest(x, y) == texture.nearest(texture.width - 1, y),
        y >= texture.height ==> texture.nearest(x, y) == texture.nearest(x, texture.height - 1),
{
    assert(texture.width * y == y * texture.width) by (nonlinear_arith);
}

/// What a texture shows after a part of it was replaced, pixel by pixel: the part from its
/// own corner on where it reaches, and what was there anywhere else.
pub proof fn law_patches_show_the_part(
    before: TextureView,
    pos: (usize, usize),
    part: TextureView,
    x: int,
    y: int,
)
    requires
        before.pixels.len() == before.width * before.height,
        0 <= x < before.width,
        0 <= y < before.height,
    ensures
        ({
            let (column, row) = (x - pos.0, y - pos.1);
            let shown = patched(before, pos, part).pixels[before.width * y + x];
            let inside = 0 <= column < part.width && 0 <= row < part.height;
            &&& inside ==> shown == part.pixels[part.width * row + column]
            &&& !inside ==> shown == before.pixels[before.width * y + x]
        }),
{
    lemma_cell(x, y, before.width, before.height);
    assert(before.width * y == y * before.width) by (nonlinear_arith);
    let (column, row) = (x - pos.0, y - pos.1);
    assert(part.width * row == row * part.width) by (nonlinear_arith);
}

/// A new picture changes its own texture only: a whole one is what is shown then, a part goes
/// into the texture that is there, and where there is none nothing changes.
pub proof fn law_pictures_go_to_their_texture(
    textures: Map<TextureId, TextureView>,
    id: TextureId,
    delta: ImageDelta,
    other: TextureId,
)
    ensures
        ({
            let after = after_delta(textures, id, delta);
            &&& other != id ==> after.dom().contains(other) == textures.dom().contains(other)
            &&& other != id ==> after[other] == textures[other]
            &&& delta.pos is None ==> after.dom().contains(id) && after[id] == delta.image@
            &&& delta.pos is Some && textures.dom().contains(id) ==> after.dom().contains(id)
                && after[id] == patched(textures[id], delta.pos->0, delta.image@)
            &&& delta.pos is Some && !textures.dom().contains(id) ==> !after.dom().contains(id)
        }),
{
}

/// New pictures come in order: those of two lists one after the other are those of the first
/// and, on what they leave, those of the second. A list of one is that picture.
pub proof fn law_pictures_come_in_order(
    textures: Map<TextureId, TextureView>,
    first: Seq<(TextureId, ImageDelta)>,
    second: Seq<(TextureId, ImageDelta)>,
    only: (TextureId, ImageDelta),
)
    ensures
        after_sets(textures, first + second) == after_sets(after_sets(textures, first), second),
        after_sets(textures, seq![only]) == after_delta(textures, only.0, only.1),
        after_sets(textures, Seq::empty()) == textures,
    decreases second.len(),
{
    reveal_with_fuel(after_sets, 2);
    assert(seq![only].drop_last() =~= Seq::<(TextureId, ImageDelta)>::empty());
    if second.len() == 0 {
        assert(first + second =~= first);
    } else {
        law_pictures_come_in_order(textures, first, second.drop_last(), only);
        assert((first + second).drop_last() =~= first + second.drop_last());
        assert((first + second).last() == second.last());
    }
}

/// After textures were freed, those that are left are all the others, as they were.
pub proof fn law_other_textures_stay(
    textures: Map<TextureId, TextureView>,
    free: Seq<TextureId>,
    id: TextureId,
)
    ensures
        after_frees(textures, free).dom().contains(id) <==> textures.dom().contains(id)
            && !free.contains(id),
        !free.contains(id) ==> after_frees(textures, free)[id] == textures[id],
    decreases free.len(),
{
    if free.len() > 0 {
        let rest = free.drop_last();
        law_other_textures_stay(textures, rest, id);
        assert(free =~= rest.push(free.last()));
        assert(free.contains(id) <==> rest.contains(id) || free.last() == id) by {
            if free.contains(id) {
                let i = choose|i: int| 0 <= i < free.len() && free[i] == id;
                if i < rest.len() {
                    assert(rest[i] == id);
                }
            }
            if rest.contains(id) {
                let i = choose|i: int| 0 <= i < rest.len() && rest[i] == id;
                assert(free[i] == id);
            }
            if free.last() == id {
                assert(free[free.len() - 1] == id);
            }
        }
    }
}

/// A rectangle holds the pixels from its upper left corner up to, but without, its lower
/// right one; two rectangles share what each of them holds.
pub proof fn law_rectangles_share_pixels(a: PixelRect, b: PixelRect, x: int, y: int)
    ensures
        a.contains(x, y) <==> a.x0 <= x && x < a.x1 && a.y0 <= y && y < a.y1,
        a.meet(b).contains(x, y) <==> a.contains(x, y) && b.contains(x, y),
        a.meet(b).x0 == a.x0 || a.meet(b).x0 == b.x0,
        a.meet(b).y0 == a.y0 || a.meet(b).y0 == b.y0,
        a.meet(b).x1 == a.x1 || a.meet(b).x1 == b.x1,
        a.meet(b).y1 == a.y1 || a.meet(b).y1 == b.y1,
        a.meet(b) == b.meet(a),
{
}

/// What a fragment leaves in the four bytes of its pixel: its color through its texel, over
/// what was there; where nothing of it is left, what was there. Its texel is the texture's
/// pixel it names, beyond the edge that on it, and white without a texture.
pub proof fn law_fragments_color_their_pixel(
    pixels: Seq<u8>,
    width: int,
    texture: Option<TextureView>,
    fragment: Fragment,
)
    requires
        0 <= 4 * (width * fragment.y + fragment.x),
        4 * (width * fragment.y + fragment.x) + 4 <= pixels.len(),
        texture is Some ==> fragment.texel_x < texture->0.width && fragment.texel_y
            < texture->0.height,
    ensures
        ({
            let texel = match texture {
                Some(view) => view.pixels[view.width * fragment.texel_y + fragment.texel_x],
                None => Rgba { r: 255, g: 255, b: 255, a: 255 },
            };
            let k = 4 * (width * fragment.y + fragment.x);
            let below = Rgba { r: pixels[k], g: pixels[k + 1], b: pixels[k + 2], a: pixels[k + 3] };
            let light = fragment.color.times(texel);
            let mixed = light.over(below);
            let after = after_fragment(pixels, width, texture, fragment);
            &&& light.a == 0 ==> after == pixels
            &&& light.a != 0 ==> after[k] == mixed.r && after[k + 1] == mixed.g && after[k + 2]
                == mixed.b && after[k + 3] == mixed.a
            &&& after.len() == pixels.len()
        }),
{
    assert(width * fragment.y == fragment.y * width) by (nonlinear_arith);
    if let Some(view) = texture {
        assert(view.width * fragment.texel_y == fragment.texel_y * view.width) by (nonlinear_arith);
    }
}

/// A texel beyond the right or the lower edge of a texture is that of the edge.
pub proof fn law_texels_stay_in_the_picture(view: TextureView, fragment: Fragment)
    requires
        0 < view.width <= usize::MAX,
        0 < view.height <= usize::MAX,
    ensures
        fragment.texel_x >= view.width ==> texel_of(Some(view), fragment) == texel_of(
            Some(view),
            Fragment { texel_x: (view.width - 1) as usize, ..fragment },
        ),
        fragment.texel_y >= view.height ==> texel_of(Some(view), fragment) == texel_of(
            Some(view),
            Fragment { texel_y: (view.height - 1) as usize, ..fragment },
        ),
{
}

/// Fragments are painted in order: those of two lists one after the other are those of the
/// first and, over them, those of the second. A list of one is that fragment.
pub proof fn law_fragments_come_in_order(
    pixels: Seq<u8>,
    width: int,
    texture: Option<TextureView>,
    first: Seq<Fragment>,
    second: Seq<Fragment>,
    only: Fragment,
)
    ensures
        after_fragments(pixels, width, texture, first + second) == after_fragments(
            after_fragments(pixels, width, texture, first),
            width,
            texture,
            second,
        ),
        after_fragments(pixels, width, texture, seq![only]) == after_fragment(
            pixels,
            width,
            texture,
            only,
        ),
        after_fragments(pixels, width, texture, Seq::empty()) == pixels,
    decreases second.len(),
{
    reveal_with_fuel(after_fragments, 2);
    assert(seq![only].drop_last() =~= Seq::<Fragment>::empty());
    if second.len() == 0 {
        assert(first + second =~= first);
    } else {
        law_fragments_come_in_order(pixels, width, texture, first, second.drop_last(), only);
        assert((first + second).drop_last() =~= first + second.drop_last());
        assert((first + second).last() == second.last());
    }
}

/// Every pixel of a cleared buffer is the same very dark blue.
pub proof fn law_cleared_is_dark(length: nat, pixel: int)
    requires
        0 <= 4 * pixel,
        4 * pixel + 4 <= length,
    ensures
        cleared(length).len() == length,
        color_at(cleared(length), 4 * pixel) == (Rgba { r: 10, g: 10, b: 20, a: 255 }),
{
}

/// The corners of the triangles, put end to end, are the indices in their order; at most two
/// of them are left over.
pub proof fn law_triangles_take_three(indices: Seq<u32>, i: int)
    requires
        0 <= i < triangles_of(indices).len(),
    ensures
        indices.len() - 2 <= 3 * triangles_of(indices).len() <= indices.len(),
        triangles_of(indices)[i].0 == indices[i + i + i],
        triangles_of(indices)[i].1 == indices[i + i + i + 1],
        triangles_of(indices)[i].2 == indices[i + i + i + 2],
{
}

} // verus!
