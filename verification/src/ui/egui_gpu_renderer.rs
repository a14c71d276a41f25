//! A panel interface drawn on the GPU: how its meshes are packed into buffers,
//! which draws are recorded, and which textures are made.

use super::egui_renderer::PixelRect;
use super::texture_table::{TextureId, TextureTable};
use crate::pixels::Rgba;
use crate::scalar::Scalar;
use vstd::arithmetic::power2::{lemma_pow2_pos, lemma_pow2_unfold, pow2};
use vstd::prelude::*;

verus! {

/// Bytes per vertex: position, texture coordinates and color.
pub const VERTEX_SIZE: usize = 20;

/// A vertex of a mesh.
#[derive(Clone, Copy, Debug, PartialEq, Eq, Structural)]
pub struct GpuVertex {
    pub x: Scalar,
    pub y: Scalar,
    pub u: Scalar,
    pub v: Scalar,
    pub color: Rgba,
}

/// Something to draw, within a clip rectangle. Only meshes are drawn.
#[derive(Clone, Debug)]
pub struct GpuPrimitive {
    pub clip: PixelRect,
    pub is_mesh: bool,
    pub texture: TextureId,
    pub vertices: Vec<GpuVertex>,
    pub indices: Vec<u32>,
}

impl GpuPrimitive {
    /// Whether there is anything to draw.
    pub open spec fn drawn(self) -> bool {
        self.is_mesh && self.vertices@.len() > 0 && self.indices@.len() > 0
    }
}

/// One indexed draw.
#[derive(Clone, Copy, Debug, PartialEq, Eq, Structural)]
pub struct DrawCall {
    pub clip: PixelRect,
    pub texture: TextureId,
    pub vertex_offset: i32,
    pub index_offset: u32,
    pub index_count: u32,
}

/// The bytes of a number, the lowest first.
pub open spec fn little_endian(bits: u32) -> Seq<u8> {
    seq![
        (bits % 256) as u8,
        (bits / 256 % 256) as u8,
        (bits / 65536 % 256) as u8,
        (bits / 16777216) as u8,
    ]
}

/// The bytes of a vertex.
pub open spec fn vertex_bytes(vertex: GpuVertex) -> Seq<u8> {
    little_endian(vertex.x.bits) + little_endian(vertex.y.bits) + little_endian(vertex.u.bits)
        + little_endian(vertex.v.bits) + seq![
        vertex.color.r,
        vertex.color.g,
        vertex.color.b,
        vertex.color.a,
    ]
}

/// The bytes of vertices, one after the other.
pub open spec fn mesh_bytes(vertices: Seq<GpuVertex>) -> Seq<u8>
    decreases vertices.len(),
{
    if vertices.len() == 0 {
        Seq::empty()
    } else {
        mesh_bytes(vertices.drop_last()) + vertex_bytes(vertices.last())
    }
}

/// All vertices, indices and draws of an interface.
pub ghost struct DrawListView {
    pub bytes: Seq<u8>,
    pub vertices: int,
    pub indices: Seq<u32>,
    pub calls: Seq<DrawCall>,
}

/// What primitives are packed into: the meshes one after the other, each with a
/// draw that says where its vertices and indices begin.
pub open spec fn packed(primitives: Seq<GpuPrimitive>) -> DrawListView
    decreases primitives.len(),
{
    if primitives.len() == 0 {
        DrawListView { bytes: Seq::empty(), vertices: 0, indices: Seq::empty(), calls: Seq::empty() }
    } else {
        let before = packed(primitives.drop_last());
        let last = primitives.last();
        if last.drawn() {
            DrawListView {
                bytes: before.bytes + mesh_bytes(last.vertices@),
                vertices: before.vertices + last.vertices@.len(),
                indices: before.indices + last.indices@,
                calls: before.calls.push(
                    DrawCall {
                        clip: last.clip,
                        texture: last.texture,
                        vertex_offset: before.vertices as i32,
                        index_offset: before.indices.len() as u32,
                        index_count: last.indices@.len() as u32,
                    },
                ),
            }
        } else {
            before
        }
    }
}

/// The vertex bytes, indices and draws of an interface.
#[derive(Clone, Debug)]
pub struct DrawList {
    pub bytes: Vec<u8>,
    pub indices: Vec<u32>,
    pub calls: Vec<DrawCall>,
}

fn push_little_endian(bytes: &mut Vec<u8>, bits: u32)
    ensures
        final(bytes)@ == old(bytes)@ + little_endian(bits),
{
    bytes.push((bits % 256) as u8);
    bytes.push((bits / 256 % 256) as u8);
    bytes.push((bits / 65536 % 256) as u8);
    bytes.push((bits / 16777216) as u8);
    assert(bytes@ =~= old(bytes)@ + little_endian(bits));
}

fn push_vertex(bytes: &mut Vec<u8>, vertex: &GpuVertex)
    ensures
        final(bytes)@ == old(bytes)@ + vertex_bytes(*vertex),
{
    push_little_endian(bytes, vertex.x.bits);
    push_little_endian(bytes, vertex.y.bits);
    push_little_endian(bytes, vertex.u.bits);
    push_little_endian(bytes, vertex.v.bits);
    bytes.push(vertex.color.r);
    bytes.push(vertex.color.g);
    bytes.push(vertex.color.b);
    bytes.push(vertex.color.a);
    assert(bytes@ =~= old(bytes)@ + vertex_bytes(*vertex));
}

fn push_mesh(bytes: &mut Vec<u8>, vertices: &Vec<GpuVertex>)
    ensures
        final(bytes)@ == old(bytes)@ + mesh_bytes(vertices@),
{
    let ghost before = bytes@;
    let mut i: usize = 0;
    assert(before + mesh_bytes(vertices@.take(0)) =~= before);
    while i < vertices.len()
        invariant
            i <= vertices.len(),
            bytes@ == before + mesh_bytes(vertices@.take(i as int)),
        decreases vertices.len() - i,
    {
        let ghost next = vertices@.take(i + 1);
        assert(next.drop_last() =~= vertices@.take(i as int));
        assert(next.last() == vertices@[i as int]);
        push_vertex(bytes, &vertices[i]);
        assert(bytes@ =~= before + mesh_bytes(next));
        i += 1;
    }
    assert(vertices@.take(i as int) =~= vertices@);
}

fn push_indices(all: &mut Vec<u32>, indices: &Vec<u32>)
    ensures
        final(all)@ == old(all)@ + indices@,
{
    let ghost before = all@;
    let mut i: usize = 0;
    assert(before + indices@.take(0) =~= before);
    while i < indices.len()
        invariant
            i <= indices.len(),
            all@ == before + indices@.take(i as int),
        decreases indices.len() - i,
    {
        all.push(indices[i]);
        assert(indices@.take(i + 1) =~= indices@.take(i as int).push(indices@[i as int]));
        assert(all@ =~= before + indices@.take(i + 1));
        i += 1;
    }
    assert(indices@.take(i as int) =~= indices@);
}

proof fn lemma_mesh_length(vertices: Seq<GpuVertex>)
    ensures
        mesh_bytes(vertices).len() == VERTEX_SIZE * vertices.len(),
    decreases vertices.len(),
{
    if vertices.len() > 0 {
        lemma_mesh_length(vertices.drop_last());
    }
}

proof fn lemma_packed_monotone(primitives: Seq<GpuPrimitive>, count: int)
    requires
        0 <= count <= primitives.len(),
    ensures
        0 <= packed(primitives.take(count)).vertices <= packed(primitives).vertices,
        packed(primitives.take(count)).indices.len() <= packed(primitives).indices.len(),
        packed(primitives).bytes.len() == VERTEX_SIZE * packed(primitives).vertices,
    decreases primitives.len(),
{
    if primitives.len() > 0 {
        let rest = primitives.drop_last();
        lemma_mesh_length(primitives.last().vertices@);
        if count < primitives.len() {
            lemma_packed_monotone(rest, count);
            assert(rest.take(count) =~= primitives.take(count));
        } else {
            lemma_packed_monotone(rest, count - 1);
            assert(rest.take(count - 1) =~= rest);
            assert(primitives.take(count) =~= primitives);
        }
    } else {
        assert(primitives.take(count) =~= primitives);
    }
}

/// Pack the meshes of an interface for the GPU. Everything that is no mesh, or
/// an empty one, is left out.
pub fn pack_primitives(primitives: &Vec<GpuPrimitive>) -> (list: DrawList)
    requires
        packed(primitives@).vertices <= i32::MAX,
        packed(primitives@).indices.len() <= u32::MAX,
    ensures
        list.bytes@ == packed(primitives@).bytes,
        list.indices@ == packed(primitives@).indices,
        list.calls@ == packed(primitives@).calls,
{
    let mut bytes: Vec<u8> = Vec::new();
    let mut indices: Vec<u32> = Vec::new();
    let mut calls: Vec<DrawCall> = Vec::new();
    let mut i: usize = 0;
    while i < primitives.len()
        invariant
            i <= primitives.len(),
            packed(primitives@).vertices <= i32::MAX,
            packed(primitives@).indices.len() <= u32::MAX,
            bytes@ == packed(primitives@.take(i as int)).bytes,
            indices@ == packed(primitives@.take(i as int)).indices,
            calls@ == packed(primitives@.take(i as int)).calls,
        decreases primitives.len() - i,
    {
        let ghost seen = primitives@.take(i as int);
        let ghost next = primitives@.take(i + 1);
        proof {
            assert(next.drop_last() =~= seen);
            assert(next.last() == primitives@[i as int]);
            lemma_packed_monotone(primitives@, i as int);
            lemma_packed_monotone(primitives@, i + 1);
            lemma_packed_monotone(seen, i as int);
        }
        let primitive = &primitives[i];
        if primitive.is_mesh && primitive.vertices.len() > 0 && primitive.indices.len() > 0 {
            let vertex_offset: i32 = (bytes.len() / VERTEX_SIZE) as i32;
            let index_offset: u32 = indices.len() as u32;
            push_mesh(&mut bytes, &primitive.vertices);
            push_indices(&mut indices, &primitive.indices);
            calls.push(
                DrawCall {
                    clip: primitive.clip,
                    texture: primitive.texture,
                    vertex_offset,
                    index_offset,
                    index_count: primitive.indices.len() as u32,
                },
            );
        }
        i += 1;
    }
    assert(primitives@.take(i as int) =~= primitives@);
    DrawList { bytes, indices, calls }
}

/// The smallest of `from`, twice that, four times that and so on that is at least
/// `needed`.
pub open spec fn doubled_to(needed: nat, from: nat) -> nat
    decreases 2 * needed - from,
{
    if from >= needed || from == 0 {
        from
    } else {
        doubled_to(needed, 2 * from)
    }
}

/// The capacity of a vertex or index buffer that has to hold `needed` bytes: as
/// it is if that is enough, else the next power of two.
pub open spec fn grown(needed: nat, capacity: nat) -> nat {
    if needed > capacity {
        doubled_to(needed, 1)
    } else {
        capacity
    }
}

/// The capacity of a vertex or index buffer that has to hold `needed` bytes.
pub fn grow_capacity(needed: usize, capacity: usize) -> (new_capacity: usize)
    requires
        needed <= usize::MAX / 2,
    ensures
        new_capacity == grown(needed as nat, capacity as nat),
        new_capacity >= needed,
{
    if needed <= capacity {
        return capacity;
    }
    let mut power: usize = 1;
    while power < needed
        invariant
            power >= 1,
            needed <= usize::MAX / 2,
            doubled_to(needed as nat, 1) == doubled_to(needed as nat, power as nat),
        decreases 2 * needed - power,
    {
        power = power * 2;
    }
    power
}

/// The capacity of the staging buffer that has to hold `needed` bytes: it grows
/// to exactly what is needed.
pub fn grow_staging(needed: usize, capacity: usize) -> (new_capacity: usize)
    ensures
        new_capacity == if needed > capacity {
            needed
        } else {
            capacity
        },
{
    if needed > capacity {
        needed
    } else {
        capacity
    }
}

/// The rectangle that a draw is limited to.
#[derive(Clone, Copy, Debug, PartialEq, Eq, Structural)]
pub struct Scissor {
    pub x: i32,
    pub y: i32,
    pub width: u32,
    pub height: u32,
}

/// The length from `start` (or zero, if that is more) to `end`, or zero.
pub open spec fn extent(start: int, end: int) -> int {
    let from = if start < 0 {
        0
    } else {
        start
    };
    if end < from {
        0
    } else {
        end - from
    }
}

/// The scissor of a clip rectangle: from its corner within the target, no wider
/// or higher than the target. A clip rectangle with nothing to show has none.
pub open spec fn scissor_of(clip: PixelRect, width: u32, height: u32) -> Option<Scissor> {
    let w = extent(clip.x0 as int, clip.x1 as int);
    let h = extent(clip.y0 as int, clip.y1 as int);
    if w == 0 || h == 0 {
        None
    } else {
        Some(
            Scissor {
                x: if clip.x0 < 0 {
                    0
                } else {
                    clip.x0
                },
                y: if clip.y0 < 0 {
                    0
                } else {
                    clip.y0
                },
                width: if w < width {
                    w as u32
                } else {
                    width
                },
                height: if h < height {
                    h as u32
                } else {
                    height
                },
            },
        )
    }
}

fn measure(start: i32, end: i32) -> (length: u32)
    ensures
        length == extent(start as int, end as int),
{
    let from: i32 = if start < 0 {
        0
    } else {
        start
    };
    if end < from {
        0
    } else {
        (end - from) as u32
    }
}

/// The scissor of a clip rectangle on a target.
pub fn scissor(clip: PixelRect, width: u32, height: u32) -> (scissor: Option<Scissor>)
    ensures
        scissor == scissor_of(clip, width, height),
{
    let w = measure(clip.x0, clip.x1);
    let h = measure(clip.y0, clip.y1);
    if w == 0 || h == 0 {
        return None;
    }
    Some(
        Scissor {
            x: if clip.x0 < 0 {
                0
            } else {
                clip.x0
            },
            y: if clip.y0 < 0 {
                0
            } else {
                clip.y0
            },
            width: if w < width {
                w
            } else {
                width
            },
            height: if h < height {
                h
            } else {
                height
            },
        },
    )
}

/// One recorded command of an interface.
#[derive(Clone, Copy, Debug, PartialEq, Eq, Structural)]
pub enum DrawStep {
    /// Bind the descriptor set of a texture.
    Bind(TextureId),
    /// Draw within a scissor.
    Draw { scissor: Scissor, call: DrawCall },
}

/// The commands recorded so far, and the texture that is bound.
pub ghost struct Recording {
    pub steps: Seq<DrawStep>,
    pub bound: Option<TextureId>,
}

impl Recording {
    /// After one more draw: its texture is bound unless it is already; a draw whose
    /// texture cannot be bound, or with nothing to show, is left out.
    pub open spec fn after(
        self,
        call: DrawCall,
        known: bool,
        width: u32,
        height: u32,
    ) -> Recording {
        if self.bound != Some(call.texture) && !known {
            self
        } else {
            let ready = if self.bound == Some(call.texture) {
                self
            } else {
                Recording {
                    steps: self.steps.push(DrawStep::Bind(call.texture)),
                    bound: Some(call.texture),
                }
            };
            match scissor_of(call.clip, width, height) {
                Some(scissor) => Recording {
                    steps: ready.steps.push(DrawStep::Draw { scissor, call }),
                    ..ready
                },
                None => ready,
            }
        }
    }
}

/// The commands of all draws, in order.
pub open spec fn recorded(
    calls: Seq<DrawCall>,
    textures: Map<TextureId, GpuTexture>,
    width: u32,
    height: u32,
) -> Recording
    decreases calls.len(),
{
    if calls.len() == 0 {
        Recording { steps: Seq::empty(), bound: None }
    } else {
        recorded(calls.drop_last(), textures, width, height).after(
            calls.last(),
            can_bind(textures, calls.last().texture),
            width,
            height,
        )
    }
}

/// A texture on the GPU.
#[derive(Clone, Copy, Debug, PartialEq, Eq, Structural)]
pub struct GpuTexture {
    pub width: u32,
    pub height: u32,
    /// Whether something was uploaded, so that the image has a layout.
    pub initialized: bool,
    /// Whether it has a descriptor set, so that draws can bind it.
    pub bindable: bool,
}

/// How making a texture on the GPU went.
#[derive(Clone, Copy, Debug, PartialEq, Eq, Structural)]
pub enum TextureMade {
    /// There is no image.
    Failed,
    /// There is an image, without a descriptor set.
    ImageOnly,
    /// There is an image with its descriptor set.
    Bindable,
}

/// Whether draws can bind the texture of a name.
pub open spec fn can_bind(textures: Map<TextureId, GpuTexture>, id: TextureId) -> bool {
    textures.dom().contains(id) && textures[id].bindable
}

/// What a new picture asks of the GPU.
#[derive(Clone, Copy, Debug, PartialEq, Eq, Structural)]
pub enum TexturePlan {
    /// A part of a texture that does not exist: nothing.
    Skip,
    /// Make the texture, after destroying an old one, and upload all of it.
    Create { destroy_old: bool },
    /// Upload a part at this offset; the image has a layout or not yet.
    Update { x: u32, y: u32, initialized: bool },
}

/// What a new picture asks of the GPU, by the texture there is.
pub open spec fn texture_plan(
    existing: Option<GpuTexture>,
    pos: Option<(u32, u32)>,
) -> TexturePlan {
    match (pos, existing) {
        (Some(_), None) => TexturePlan::Skip,
        (Some(at), Some(texture)) => TexturePlan::Update {
            x: at.0,
            y: at.1,
            initialized: texture.initialized,
        },
        (None, _) => TexturePlan::Create { destroy_old: existing is Some },
    }
}

/// What is kept of an interface on the GPU.
pub struct EguiGpuRenderer {
    width: u32,
    height: u32,
    textures: TextureTable<GpuTexture>,
}

impl EguiGpuRenderer {
    /// The target's width.
    pub closed spec fn target_width(self) -> u32 {
        self.width
    }

    /// The target's height.
    pub closed spec fn target_height(self) -> u32 {
        self.height
    }

    /// The textures by name.
    pub closed spec fn texture_map(self) -> Map<TextureId, GpuTexture> {
        self.textures@
    }

    /// The textures are in order.
    pub closed spec fn wf(self) -> bool {
        self.textures.wf()
    }

    /// The texture of a name, if there is one.
    pub open spec fn texture_named(self, id: TextureId) -> Option<GpuTexture> {
        if self.texture_map().dom().contains(id) {
            Some(self.texture_map()[id])
        } else {
            None
        }
    }

    /// A renderer for panels of this size, without textures.
    pub fn new(width: u32, height: u32) -> (renderer: Self)
        ensures
            renderer.wf(),
            renderer.target_width() == width,
            renderer.target_height() == height,
            renderer.texture_map() == Map::<TextureId, GpuTexture>::empty(),
    {
        EguiGpuRenderer { width, height, textures: TextureTable::new() }
    }

    /// Width in pixels.
    pub fn width(&self) -> (width: u32)
        ensures
            width == self.target_width(),
    {
        self.width
    }

    /// Height in pixels.
    pub fn height(&self) -> (height: u32)
        ensures
            height == self.target_height(),
    {
        self.height
    }

    /// Begin to apply a new picture, whole or in part (`pos`). A whole picture gives up
    /// the texture there was; `texture_made` and `texture_uploaded` take what comes of
    /// the plan.
    pub fn apply_image_delta(&mut self, id: TextureId, pos: Option<(u32, u32)>) -> (plan:
        TexturePlan)
        requires
            old(self).wf(),
        ensures
            final(self).wf(),
            final(self).target_width() == old(self).target_width(),
            final(self).target_height() == old(self).target_height(),
            plan == texture_plan(old(self).texture_named(id), pos),
            final(self).texture_map() == if plan is Create {
                old(self).texture_map().remove(id)
            } else {
                old(self).texture_map()
            },
    {
        match pos {
            None => {
                let destroy_old = self.textures.remove(id);
                TexturePlan::Create { destroy_old }
            },
            Some(at) => match self.textures.get(id) {
                None => TexturePlan::Skip,
                Some(texture) => TexturePlan::Update {
                    x: at.0,
                    y: at.1,
                    initialized: texture.initialized,
                },
            },
        }
    }

    /// Note how making the texture of a name went, of this size. Nothing was uploaded to
    /// it yet.
    pub fn texture_made(&mut self, id: TextureId, width: u32, height: u32, made: TextureMade)
        requires
            old(self).wf(),
        ensures
            final(self).wf(),
            final(self).target_width() == old(self).target_width(),
            final(self).target_height() == old(self).target_height(),
            final(self).texture_map() == if made is Failed {
                old(self).texture_map()
            } else {
                old(self).texture_map().insert(
                    id,
                    GpuTexture { width, height, initialized: false, bindable: made is Bindable },
                )
            },
    {
        let bindable = match made {
            TextureMade::Failed => {
                return;
            },
            TextureMade::ImageOnly => false,
            TextureMade::Bindable => true,
        };
        self.textures.insert(id, GpuTexture { width, height, initialized: false, bindable });
    }

    /// Note how uploading to the texture of a name went: it has a layout once an upload
    /// succeeded.
    pub fn texture_uploaded(&mut self, id: TextureId, success: bool)
        requires
            old(self).wf(),
        ensures
            final(self).wf(),
            final(self).target_width() == old(self).target_width(),
            final(self).target_height() == old(self).target_height(),
            final(self).texture_map() == match old(self).texture_named(id) {
                Some(texture) if success => old(self).texture_map().insert(
                    id,
                    GpuTexture { initialized: true, ..texture },
                ),
                _ => old(self).texture_map(),
            },
    {
        if !success {
            return;
        }
        let existing: Option<GpuTexture> = match self.textures.get(id) {
            Some(texture) => Some(*texture),
            None => None,
        };
        if let Some(texture) = existing {
            let GpuTexture { width, height, bindable, .. } = texture;
            self.textures.insert(id, GpuTexture { width, height, initialized: true, bindable });
        }
    }

    /// Give up a texture. Returns whether there is one to destroy.
    pub fn free_texture(&mut self, id: TextureId) -> (destroy: bool)
        requires
            old(self).wf(),
        ensures
            final(self).wf(),
            final(self).target_width() == old(self).target_width(),
            final(self).target_height() == old(self).target_height(),
            final(self).texture_map() == old(self).texture_map().remove(id),
            destroy == old(self).texture_map().dom().contains(id),
    {
        self.textures.remove(id)
    }

    /// The commands to record for these draws, in order.
    pub fn record_draws(&self, calls: &Vec<DrawCall>) -> (steps: Vec<DrawStep>)
        requires
            self.wf(),
        ensures
            steps@ == recorded(
                calls@,
                self.texture_map(),
                self.target_width(),
                self.target_height(),
            ).steps,
    {
        let mut steps: Vec<DrawStep> = Vec::new();
        let mut bound: Option<TextureId> = None;
        let mut i: usize = 0;
        while i < calls.len()
            invariant
                self.wf(),
                i <= calls.len(),
                steps@ == recorded(
                    calls@.take(i as int),
                    self.texture_map(),
                    self.target_width(),
                    self.target_height(),
                ).steps,
                bound == recorded(
                    calls@.take(i as int),
                    self.texture_map(),
                    self.target_width(),
                    self.target_height(),
                ).bound,
            decreases calls.len() - i,
        {
            let ghost next = calls@.take(i + 1);
            assert(next.drop_last() =~= calls@.take(i as int));
            assert(next.last() == calls@[i as int]);
            let call = calls[i];
            let same = match bound {
                Some(texture) => texture == call.texture,
                None => false,
            };
            let mut ready = same;
            let known = match self.textures.get(call.texture) {
                Some(texture) => texture.bindable,
                None => false,
            };
            if !same && known {
                steps.push(DrawStep::Bind(call.texture));
                bound = Some(call.texture);
                ready = true;
            }
            if ready {
                if let Some(scissor) = scissor(call.clip, self.width, self.height) {
                    steps.push(DrawStep::Draw { scissor, call });
                }
            }
            i += 1;
        }
        assert(calls@.take(i as int) =~= calls@);
        steps
    }
}

/// How many of the primitives are meshes that show something.
pub open spec fn drawn_count(primitives: Seq<GpuPrimitive>) -> int
    decreases primitives.len(),
{
    if primitives.len() == 0 {
        0
    } else if primitives.last().drawn() {
        drawn_count(primitives.drop_last()) + 1
    } else {
        drawn_count(primitives.drop_last())
    }
}

/// Packing puts twenty bytes for each vertex, and as many draws as there are
/// meshes that show something.
pub proof fn law_packed_sizes(primitives: Seq<GpuPrimitive>)
    ensures
        packed(primitives).bytes.len() == VERTEX_SIZE * packed(primitives).vertices,
        packed(primitives).calls.len() == drawn_count(primitives),
    decreases primitives.len(),
{
    lemma_packed_monotone(primitives, primitives.len() as int);
    if primitives.len() > 0 {
        law_packed_sizes(primitives.drop_last());
    }
}

/// The draws of an interface share the index buffer without gaps: each begins
/// where the one before it ends, and the last ends with the buffer.
pub proof fn law_draws_tile_indices(primitives: Seq<GpuPrimitive>, i: int)
    requires
        packed(primitives).indices.len() <= u32::MAX,
        0 <= i < packed(primitives).calls.len(),
    ensures
        ({
            let calls = packed(primitives).calls;
            let end = calls[i].index_offset + calls[i].index_count;
            &&& i + 1 < calls.len() ==> end == calls[i + 1].index_offset
            &&& i + 1 == calls.len() ==> end == packed(primitives).indices.len()
        }),
    decreases primitives.len(),
{
    let rest = primitives.drop_last();
    lemma_packed_monotone(primitives, primitives.len() - 1);
    assert(primitives.take(primitives.len() - 1) =~= rest);
    if i < packed(rest).calls.len() {
        law_draws_tile_indices(rest, i);
    }
}

proof fn lemma_doubled(needed: nat, exponent: nat)
    ensures
        exists|k: nat| doubled_to(needed, pow2(exponent)) == #[trigger] pow2(k),
        doubled_to(needed, pow2(exponent)) >= needed,
        pow2(exponent) < needed ==> doubled_to(needed, pow2(exponent)) < 2 * needed,
    decreases 2 * needed - pow2(exponent),
{
    lemma_pow2_pos(exponent);
    if pow2(exponent) >= needed {
        assert(doubled_to(needed, pow2(exponent)) == pow2(exponent));
    } else {
        lemma_pow2_unfold(exponent + 1);
        lemma_doubled(needed, exponent + 1);
        assert(pow2(exponent + 1) == 2 * pow2(exponent));
    }
}

/// A buffer that grows becomes large enough, to a power of two, and less than
/// twice what is needed; one that is large enough stays.
pub proof fn law_growth(needed: nat, capacity: nat)
    ensures
        grown(needed, capacity) >= needed,
        needed <= capacity ==> grown(needed, capacity) == capacity,
        needed > capacity ==> (exists|k: nat| grown(needed, capacity) == #[trigger] pow2(k)),
        needed > capacity && needed > 1 ==> grown(needed, capacity) < 2 * needed,
{
    vstd::arithmetic::power2::lemma2_to64();
    lemma_doubled(needed, 0);
}

/// A scissor begins within the target's coordinates and is never empty on a
/// target that is not.
pub proof fn law_scissor_is_not_empty(clip: PixelRect, width: u32, height: u32)
    requires
        width > 0,
        height > 0,
    ensures
        scissor_of(clip, width, height) matches Some(s) ==> s.x >= 0 && s.y >= 0 && 0 < s.width
            <= width && 0 < s.height <= height,
        scissor_of(clip, width, height) is None <==> clip.x1 <= 0 || clip.x1 <= clip.x0 || clip.y1
            <= 0 || clip.y1 <= clip.y0,
{
}

/// The texture that is bound once these commands are done: that of the last bind.
pub open spec fn bound_after(steps: Seq<DrawStep>) -> Option<TextureId>
    decreases steps.len(),
{
    if steps.len() == 0 {
        None
    } else {
        match steps.last() {
            DrawStep::Bind(texture) => Some(texture),
            DrawStep::Draw { .. } => bound_after(steps.drop_last()),
        }
    }
}

/// Every draw shows its own texture: when it is recorded, that texture is the one
/// bound last. Only textures that can be bound are.
pub proof fn law_draws_show_their_texture(
    calls: Seq<DrawCall>,
    textures: Map<TextureId, GpuTexture>,
    width: u32,
    height: u32,
)
    ensures
        ({
            let recording = recorded(calls, textures, width, height);
            &&& recording.bound == bound_after(recording.steps)
            &&& recording.bound matches Some(texture) ==> can_bind(textures, texture)
            &&& forall|i: int|
                0 <= i < recording.steps.len() ==> match #[trigger] recording.steps[i] {
                    DrawStep::Bind(texture) => can_bind(textures, texture),
                    DrawStep::Draw { call, .. } => bound_after(recording.steps.take(i)) == Some(
                        call.texture,
                    ),
                }
        }),
    decreases calls.len(),
{
    if calls.len() > 0 {
        let rest = calls.drop_last();
        law_draws_show_their_texture(rest, textures, width, height);
        let before = recorded(rest, textures, width, height);
        let after = recorded(calls, textures, width, height);
        let call = calls.last();
        let bound = before.steps.push(DrawStep::Bind(call.texture));
        assert(bound.drop_last() =~= before.steps);
        assert(bound_after(bound) == Some(call.texture));
        let count = after.steps.len() as int;
        if count > 0 && after.steps.last() is Draw {
            let ready = after.steps.drop_last();
            if count > before.steps.len() {
                assert(ready =~= before.steps || ready =~= bound);
            }
        }
        assert forall|i: int| 0 <= i < count implies match #[trigger] after.steps[i] {
            DrawStep::Bind(texture) => can_bind(textures, texture),
            DrawStep::Draw { call, .. } => bound_after(after.steps.take(i)) == Some(call.texture),
        } by {
            if i < before.steps.len() {
                assert(after.steps[i] == before.steps[i]);
                assert(after.steps.take(i) =~= before.steps.take(i));
            } else if after.steps[i] is Draw {
                assert(i == count - 1);
                assert(after.steps.take(i) =~= after.steps.drop_last());
            }
        }
    }
}

/// No draw shows a texture that could not be made: while it cannot be bound, no command
/// names it.
pub proof fn law_missing_textures_are_not_drawn(
    calls: Seq<DrawCall>,
    textures: Map<TextureId, GpuTexture>,
    width: u32,
    height: u32,
    id: TextureId,
)
    requires
        !can_bind(textures, id),
    ensures
        ({
            let recording = recorded(calls, textures, width, height);
            &&& recording.bound != Some(id)
            &&& forall|i: int|
                0 <= i < recording.steps.len() ==> match #[trigger] recording.steps[i] {
                    DrawStep::Bind(texture) => texture != id,
                    DrawStep::Draw { call, .. } => call.texture != id,
                }
        }),
    decreases calls.len(),
{
    if calls.len() > 0 {
        law_missing_textures_are_not_drawn(calls.drop_last(), textures, width, height, id);
    }
}

/// The four bytes of a number give it back, the lowest first.
pub proof fn law_bytes_give_the_number_back(bits: u32)
    ensures
        ({
            let bytes = little_endian(bits);
            &&& bytes.len() == 4
            &&& bits == bytes[0] + 0x100 * bytes[1] + 0x1_0000 * bytes[2] + 0x100_0000 * bytes[3]
        }),
{
}

/// A vertex takes twenty bytes: four each for its place across and down, four each for its
/// place in the texture, and one each for red, green, blue and alpha.
pub proof fn law_vertex_layout(vertex: GpuVertex)
    ensures
        ({
            let bytes = vertex_bytes(vertex);
            &&& bytes.len() == 20
            &&& bytes.subrange(0, 4) == little_endian(vertex.x.bits)
            &&& bytes.subrange(4, 8) == little_endian(vertex.y.bits)
            &&& bytes.subrange(8, 12) == little_endian(vertex.u.bits)
            &&& bytes.subrange(12, 16) == little_endian(vertex.v.bits)
            &&& bytes[16] == vertex.color.r
            &&& bytes[17] == vertex.color.g
            &&& bytes[18] == vertex.color.b
            &&& bytes[19] == vertex.color.a
        }),
{
    let bytes = vertex_bytes(vertex);
    assert(bytes.subrange(0, 4) =~= little_endian(vertex.x.bits));
    assert(bytes.subrange(4, 8) =~= little_endian(vertex.y.bits));
    assert(bytes.subrange(8, 12) =~= little_endian(vertex.u.bits));
    assert(bytes.subrange(12, 16) =~= little_endian(vertex.v.bits));
}

/// Vertices stand one after the other: the bytes of two lists put together are those of the
/// first and then those of the second, and those of one vertex are its own.
pub proof fn law_vertices_stand_in_order(
    first: Seq<GpuVertex>,
    second: Seq<GpuVertex>,
    only: GpuVertex,
)
    ensures
        mesh_bytes(first + second) == mesh_bytes(first) + mesh_bytes(second),
        mesh_bytes(seq![only]) == vertex_bytes(only),
        mesh_bytes(Seq::empty()).len() == 0,
    decreases second.len(),
{
    reveal_with_fuel(mesh_bytes, 2);
    assert(seq![only].drop_last() =~= Seq::<GpuVertex>::empty());
    assert(mesh_bytes(seq![only]) =~= vertex_bytes(only));
    if second.len() == 0 {
        assert(first + second =~= first);
        assert(mesh_bytes(first) + mesh_bytes(second) =~= mesh_bytes(first));
    } else {
        law_vertices_stand_in_order(first, second.drop_last(), only);
        assert((first + second).drop_last() =~= first + second.drop_last());
        assert((first + second).last() == second.last());
        assert(mesh_bytes(first + second) =~= mesh_bytes(first) + mesh_bytes(second));
    }
}

/// The meshes of two interfaces put together share the buffers: the bytes and the indices of
/// the first come before those of the second, and the first one's draws stay as they are.
pub proof fn law_meshes_share_the_buffers(first: Seq<GpuPrimitive>, second: Seq<GpuPrimitive>)
    ensures
        ({
            let both = packed(first + second);
            let (a, b) = (packed(first), packed(second));
            &&& both.bytes == a.bytes + b.bytes
            &&& both.indices == a.indices + b.indices
            &&& both.vertices == a.vertices + b.vertices
            &&& both.calls.len() == a.calls.len() + b.calls.len()
            &&& both.calls.take(a.calls.len() as int) == a.calls
        }),
    decreases second.len(),
{
    let (a, b) = (packed(first), packed(second));
    if second.len() == 0 {
        assert(first + second =~= first);
        assert(a.bytes + b.bytes =~= a.bytes);
        assert(a.indices + b.indices =~= a.indices);
        assert(a.calls.take(a.calls.len() as int) =~= a.calls);
    } else {
        let rest = second.drop_last();
        law_meshes_share_the_buffers(first, rest);
        assert((first + second).drop_last() =~= first + rest);
        assert((first + second).last() == second.last());
        let both = packed(first + second);
        assert(both.bytes =~= a.bytes + b.bytes);
        assert(both.indices =~= a.indices + b.indices);
        assert(both.calls.take(a.calls.len() as int) =~= packed(first + rest).calls.take(
            a.calls.len() as int,
        ));
    }
}

/// One more mesh is one more draw, with the mesh's own clip rectangle and texture, over its
/// own indices: they start where the ones before it end, and they count from the vertex
/// after those before it. What is no mesh, or lacks vertices or indices, adds nothing.
pub proof fn law_meshes_are_drawn_as_they_come(before: Seq<GpuPrimitive>, mesh: GpuPrimitive)
    requires
        packed(before).vertices <= i32::MAX,
        packed(before.push(mesh)).indices.len() <= u32::MAX,
    ensures
        ({
            let (a, b) = (packed(before), packed(before.push(mesh)));
            let shows = mesh.is_mesh && mesh.vertices@.len() > 0 && mesh.indices@.len() > 0;
            let call = b.calls.last();
            &&& !shows ==> b == a
            &&& shows ==> {
                &&& b.bytes == a.bytes + mesh_bytes(mesh.vertices@)
                &&& b.indices == a.indices + mesh.indices@
                &&& b.vertices == a.vertices + mesh.vertices@.len()
                &&& b.calls.len() == a.calls.len() + 1
                &&& call.clip == mesh.clip
                &&& call.texture == mesh.texture
                &&& call.vertex_offset == a.vertices
                &&& call.index_offset == a.indices.len()
                &&& call.index_count == mesh.indices@.len()
            }
        }),
        packed(Seq::empty()).vertices == 0,
        packed(Seq::empty()).calls.len() == 0,
{
    assert(before.push(mesh).drop_last() =~= before);
    lemma_packed_monotone(before, before.len() as int);
    assert(before.take(before.len() as int) =~= before);
    lemma_packed_nonnegative(before);
}

proof fn lemma_packed_nonnegative(primitives: Seq<GpuPrimitive>)
    ensures
        0 <= packed(primitives).vertices,
    decreases primitives.len(),
{
    if primitives.len() > 0 {
        lemma_packed_nonnegative(primitives.drop_last());
    }
}

/// A buffer that grows becomes the least power of two that is enough: half of it would not
/// be.
pub proof fn law_growth_is_least(needed: nat, capacity: nat)
    requires
        needed > capacity,
    ensures
        grown(needed, capacity) == 1 || grown(needed, capacity) < 2 * needed,
        needed == 1 ==> grown(needed, capacity) == 1,
{
    law_growth(needed, capacity);
}

/// A scissor starts at the clip rectangle's corner, moved into the target where it is to the
/// left of it or above. It ends where the rectangle does, or is as wide and as high as the
/// target.
pub proof fn law_scissors_follow_the_clip(clip: PixelRect, width: u32, height: u32)
    ensures
        scissor_of(clip, width, height) matches Some(s) ==> {
            &&& s.x == clip.x0 || (s.x == 0 && clip.x0 < 0)
            &&& s.x >= 0
            &&& s.y == clip.y0 || (s.y == 0 && clip.y0 < 0)
            &&& s.y >= 0
            &&& s.x + s.width == clip.x1 || (s.width == width && s.x + width < clip.x1)
            &&& s.y + s.height == clip.y1 || (s.height == height && s.y + height < clip.y1)
        },
{
}

/// What one more draw adds to the commands: a bind of its texture unless that is bound, and
/// the draw itself if its clip rectangle shows anything. A draw of a texture that is not
/// there or has no descriptor set adds nothing, unless it is bound. At first, nothing is
/// bound.
pub proof fn law_draws_come_in_order(
    calls: Seq<DrawCall>,
    call: DrawCall,
    textures: Map<TextureId, GpuTexture>,
    width: u32,
    height: u32,
)
    ensures
        ({
            let a = recorded(calls, textures, width, height);
            let b = recorded(calls.push(call), textures, width, height);
            let bound = a.bound == Some(call.texture);
            let ready = textures.dom().contains(call.texture) && textures[call.texture].bindable;
            let scissor = scissor_of(call.clip, width, height);
            let binds = if bound {
                Seq::empty()
            } else {
                seq![DrawStep::Bind(call.texture)]
            };
            let draws = match scissor {
                Some(scissor) => seq![DrawStep::Draw { scissor, call }],
                None => Seq::empty(),
            };
            &&& !bound && !ready ==> b == a
            &&& bound || ready ==> b.steps == a.steps + binds + draws
            &&& bound || ready ==> b.bound == Some(call.texture)
        }),
        recorded(Seq::empty(), textures, width, height).steps.len() == 0,
        recorded(Seq::empty(), textures, width, height).bound is None,
{
    assert(calls.push(call).drop_last() =~= calls);
    let a = recorded(calls, textures, width, height);
    let b = recorded(calls.push(call), textures, width, height);
    let bound = a.bound == Some(call.texture);
    let binds = if bound {
        Seq::empty()
    } else {
        seq![DrawStep::Bind(call.texture)]
    };
    let draws = match scissor_of(call.clip, width, height) {
        Some(scissor) => seq![DrawStep::Draw { scissor, call }],
        None => Seq::empty(),
    };
    if bound || can_bind(textures, call.texture) {
        assert(b.steps =~= a.steps + binds + draws);
    }
}

/// A picture of a whole texture makes it anew, and destroys the old one if there is one. A
/// part goes to its own place in the texture there is, which has a layout or not, and nowhere
/// if there is none.
pub proof fn law_pictures_ask_for_textures(existing: Option<GpuTexture>, at: (u32, u32))
    ensures
        texture_plan(existing, None) == (TexturePlan::Create { destroy_old: existing is Some }),
        existing is None ==> texture_plan(existing, Some(at)) is Skip,
        existing is Some ==> texture_plan(existing, Some(at)) == (TexturePlan::Update {
            x: at.0,
            y: at.1,
            initialized: existing->0.initialized,
        }),
{
}

} // verus!
