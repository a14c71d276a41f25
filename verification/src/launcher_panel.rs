//! A textured panel in space: its pixels on their way to the GPU, and what its
//! shaders are told.

use crate::geometry::{Vec3, MINUS_ONE_BITS, ONE_BITS};
use crate::input::RayHit;
use crate::panel::{PanelAnchor, PanelTransform, EYE_HEIGHT, PANEL_DEPTH, PANEL_OPACITY};
use crate::renderer::PushConstants;
use crate::scalar::Scalar;
use crate::shell::interaction::Uv;
use crate::text::{decimal, push_decimal};
use vstd::prelude::*;

verus! {

/// What the panel shaders are told: the camera, with the panel's size beside its
/// axes, and the panel's place.
#[derive(Clone, Copy, Debug)]
pub struct PanelPushConstants {
    pub cam_pos: [Scalar; 4],
    pub cam_right: [Scalar; 4],
    pub cam_up: [Scalar; 4],
    pub cam_fwd: [Scalar; 4],
    pub fov: [Scalar; 4],
    /// World position and opacity.
    pub panel_center: [Scalar; 4],
    /// Right axis and the dot's column (-1 = no dot).
    pub panel_right: [Scalar; 4],
    /// Up axis and the dot's row (-1 = no dot).
    pub panel_up: [Scalar; 4],
}

/// The layout that an image is in before an upload.
#[derive(Clone, Copy, Debug, PartialEq, Eq, Structural)]
pub enum OldLayout {
    Undefined,
    ShaderReadOnly,
}

/// A textured panel.
#[derive(Clone, Copy, Debug, PartialEq, Eq, Structural)]
pub struct LauncherPanel {
    pub tex_width: u32,
    pub tex_height: u32,
    pub center: Vec3,
    pub width: Scalar,
    pub height: Scalar,
    pub opacity: Scalar,
    /// Panel right axis in world space (default: +X)
    pub right_dir: Vec3,
    /// Panel up axis in world space (default: +Y)
    pub up_dir: Vec3,
    /// Has the texture been uploaded at least once?
    pub texture_initialized: bool,
    /// Has new pixel data been staged but not yet uploaded to the GPU?
    pub upload_pending: bool,
    /// Pointer dot UV position on this panel (None = no dot).
    pub dot_uv: Option<Uv>,
}

/// The message for pixels of the wrong length.
pub open spec fn size_mismatch(got: nat, expected: nat) -> Seq<char> {
    "Panel pixel data size mismatch: got "@ + decimal(got) + ", expected "@ + decimal(expected)
}

fn mismatch_message(got: usize, expected: usize) -> (message: String)
    ensures
        message@ == size_mismatch(got as nat, expected as nat),
{
    let mut message = String::new();
    message.push_str("Panel pixel data size mismatch: got ");
    push_decimal(&mut message, got as u128);
    message.push_str(", expected ");
    push_decimal(&mut message, expected as u128);
    assert(message@ =~= size_mismatch(got as nat, expected as nat));
    message
}

impl LauncherPanel {
    /// The number of bytes of the texture can be counted.
    pub open spec fn wf(self) -> bool {
        self.tex_width * self.tex_height * 4 <= u32::MAX
    }

    /// The number of bytes of the texture.
    pub open spec fn texture_bytes(self) -> int {
        self.tex_width * self.tex_height * 4
    }

    /// A panel with a texture of this size, in front of the user at eye height,
    /// with nothing uploaded yet.
    pub fn new(tex_width: u32, tex_height: u32) -> (panel: Self)
        requires
            tex_width * tex_height * 4 <= u32::MAX,
        ensures
            panel.wf(),
            panel == (LauncherPanel {
                tex_width,
                tex_height,
                center: Vec3::of_bits(0, EYE_HEIGHT, PANEL_DEPTH),
                width: Scalar { bits: EYE_HEIGHT },
                height: Scalar { bits: ONE_BITS },
                opacity: Scalar { bits: PANEL_OPACITY },
                right_dir: Vec3::of_bits(ONE_BITS, 0, 0),
                up_dir: Vec3::of_bits(0, ONE_BITS, 0),
                texture_initialized: false,
                upload_pending: false,
                dot_uv: None,
            }),
    {
        LauncherPanel {
            tex_width,
            tex_height,
            center: Vec3::from_bits(0, EYE_HEIGHT, PANEL_DEPTH),
            width: Scalar { bits: EYE_HEIGHT },
            height: Scalar { bits: ONE_BITS },
            opacity: Scalar { bits: PANEL_OPACITY },
            right_dir: Vec3::from_bits(ONE_BITS, 0, 0),
            up_dir: Vec3::from_bits(0, ONE_BITS, 0),
            texture_initialized: false,
            upload_pending: false,
            dot_uv: None,
        }
    }

    /// The panel as rays are tested against it: fixed in the world.
    pub open spec fn in_world(self) -> PanelTransform {
        PanelTransform {
            center: self.center,
            right_dir: self.right_dir,
            up_dir: self.up_dir,
            width: self.width,
            height: self.height,
            opacity: self.opacity,
            anchor: PanelAnchor::World,
            grabbable: false,
        }
    }

    /// The panel as rays are tested against it.
    pub fn transform(&self) -> (panel: PanelTransform)
        ensures
            panel == self.in_world(),
    {
        PanelTransform {
            center: self.center,
            right_dir: self.right_dir,
            up_dir: self.up_dir,
            width: self.width,
            height: self.height,
            opacity: self.opacity,
            anchor: PanelAnchor::World,
            grabbable: false,
        }
    }

    /// Where a ray hits the panel, or `None` if it misses. Where the camera is does not
    /// matter.
    pub fn hit_test(&self, ray_origin: Vec3, ray_dir: Vec3, _cam_pos: Vec3) -> (hit: Option<RayHit>)
        ensures
            hit == self.in_world().hit_by(ray_origin, ray_dir),
    {
        self.transform().hit_test(ray_origin, ray_dir)
    }

    /// How many bytes the staging buffer holds.
    pub fn staging_size(&self) -> (size: usize)
        requires
            self.wf(),
        ensures
            size == self.texture_bytes(),
    {
        assert(self.tex_width * self.tex_height <= self.tex_width * self.tex_height * 4)
            by (nonlinear_arith)
            requires
                self.tex_width >= 0,
                self.tex_height >= 0,
        ;
        let area: u32 = self.tex_width * self.tex_height;
        (area * 4) as usize
    }

    fn check_length(&self, pixels: &[u8]) -> (checked: Result<(), String>)
        requires
            self.wf(),
        ensures
            checked is Ok <==> pixels@.len() == self.texture_bytes(),
            checked matches Err(message) ==> message@ == size_mismatch(
                pixels@.len(),
                self.texture_bytes() as nat,
            ),
    {
        let expected = self.staging_size();
        if pixels.len() != expected {
            Err(mismatch_message(pixels.len(), expected))
        } else {
            Ok(())
        }
    }

    /// Stage pixels of the texture's size for a later upload.
    pub fn stage_pixels(&mut self, pixels: &[u8]) -> (staged: Result<(), String>)
        requires
            old(self).wf(),
        ensures
            staged is Ok <==> pixels@.len() == old(self).texture_bytes(),
            match staged {
                Ok(_) => *final(self) == (LauncherPanel { upload_pending: true, ..*old(self) }),
                Err(message) => message@ == size_mismatch(
                    pixels@.len(),
                    old(self).texture_bytes() as nat,
                ) && *final(self) == *old(self),
            },
    {
        match self.check_length(pixels) {
            Ok(()) => {
                self.upload_pending = true;
                Ok(())
            },
            Err(message) => Err(message),
        }
    }

    /// The layout that the image is in before an upload.
    pub open spec fn layout(self) -> OldLayout {
        if self.texture_initialized {
            OldLayout::ShaderReadOnly
        } else {
            OldLayout::Undefined
        }
    }

    /// Record a pending upload: returns the layout to begin from, or `None` where
    /// nothing is pending.
    pub fn record_upload(&mut self) -> (upload: Option<OldLayout>)
        ensures
            upload == if old(self).upload_pending {
                Some(old(self).layout())
            } else {
                None
            },
            *final(self) == if old(self).upload_pending {
                LauncherPanel { texture_initialized: true, upload_pending: false, ..*old(self) }
            } else {
                *old(self)
            },
    {
        if !self.upload_pending {
            return None;
        }
        let layout = if self.texture_initialized {
            OldLayout::ShaderReadOnly
        } else {
            OldLayout::Undefined
        };
        self.texture_initialized = true;
        self.upload_pending = false;
        Some(layout)
    }

    /// Begin an immediate upload of pixels of the texture's size: returns the
    /// layout to begin from.
    pub fn upload_pixels(&self, pixels: &[u8]) -> (upload: Result<OldLayout, String>)
        requires
            self.wf(),
        ensures
            upload is Ok <==> pixels@.len() == self.texture_bytes(),
            match upload {
                Ok(layout) => layout == self.layout(),
                Err(message) => message@ == size_mismatch(
                    pixels@.len(),
                    self.texture_bytes() as nat,
                ),
            },
    {
        match self.check_length(pixels) {
            Ok(()) => if self.texture_initialized {
                Ok(OldLayout::ShaderReadOnly)
            } else {
                Ok(OldLayout::Undefined)
            },
            Err(message) => Err(message),
        }
    }

    /// Note that an immediate upload is done.
    pub fn upload_done(&mut self)
        ensures
            *final(self) == (LauncherPanel { texture_initialized: true, ..*old(self) }),
    {
        self.texture_initialized = true;
    }

    /// What the shaders are told to draw the panel, or `None` where nothing was
    /// uploaded yet.
    pub fn record_draw(&self, scene: &PushConstants) -> (push: Option<PanelPushConstants>)
        ensures
            push is Some <==> self.texture_initialized,
            push matches Some(p) ==> {
                let dot = match self.dot_uv {
                    Some(uv) => uv,
                    None => Uv {
                        u: Scalar { bits: MINUS_ONE_BITS },
                        v: Scalar { bits: MINUS_ONE_BITS },
                    },
                };
                &&& p.cam_pos@ == scene.cam_pos@
                &&& p.cam_right@ == scene.cam_right@.update(3, self.width)
                &&& p.cam_up@ == scene.cam_up@.update(3, self.height)
                &&& p.cam_fwd@ == scene.cam_fwd@
                &&& p.fov@ == scene.fov@
                &&& p.panel_center@ == seq![
                    self.center.x,
                    self.center.y,
                    self.center.z,
                    self.opacity,
                ]
                &&& p.panel_right@ == seq![
                    self.right_dir.x,
                    self.right_dir.y,
                    self.right_dir.z,
                    dot.u,
                ]
                &&& p.panel_up@ == seq![self.up_dir.x, self.up_dir.y, self.up_dir.z, dot.v]
            },
            push is Some && self.dot_uv is None ==> push->0.panel_right@[3].bits == 0xbf80_0000
                && push->0.panel_up@[3].bits == 0xbf80_0000,
    {
        if !self.texture_initialized {
            return None;
        }
        let none = Scalar { bits: MINUS_ONE_BITS };
        let (dot_u, dot_v) = match self.dot_uv {
            Some(uv) => (uv.u, uv.v),
            None => (none, none),
        };
        let right = scene.cam_right;
        let up = scene.cam_up;
        let cam_right = [right[0], right[1], right[2], self.width];
        let cam_up = [up[0], up[1], up[2], self.height];
        let panel_center = [self.center.x, self.center.y, self.center.z, self.opacity];
        let panel_right = [self.right_dir.x, self.right_dir.y, self.right_dir.z, dot_u];
        let panel_up = [self.up_dir.x, self.up_dir.y, self.up_dir.z, dot_v];
        assert(cam_right@ =~= scene.cam_right@.update(3, self.width));
        assert(cam_up@ =~= scene.cam_up@.update(3, self.height));
        Some(
            PanelPushConstants {
                cam_pos: scene.cam_pos,
                cam_right,
                cam_up,
                cam_fwd: scene.cam_fwd,
                fov: scene.fov,
                panel_center,
                panel_right,
                panel_up,
            },
        )
    }
}

/// Rays are tested against a panel where it is, at its size and with its directions, as one
/// that stands in the world and that no grip takes.
pub proof fn law_rays_meet_the_panel_itself(panel: LauncherPanel)
    ensures
        ({
            let tested = panel.in_world();
            &&& tested.center == panel.center
            &&& tested.right_dir == panel.right_dir
            &&& tested.up_dir == panel.up_dir
            &&& tested.width == panel.width
            &&& tested.height == panel.height
            &&& tested.opacity == panel.opacity
            &&& tested.anchor is World
            &&& !tested.grabbable
        }),
{
}

/// A texture has four bytes for each pixel, and its image has a layout once something was
/// uploaded.
pub proof fn law_textures(panel: LauncherPanel)
    ensures
        panel.texture_bytes() == 4 * (panel.tex_width * panel.tex_height),
        panel.wf() <==> panel.texture_bytes() <= 0xffff_ffff,
        panel.layout() is ShaderReadOnly <==> panel.texture_initialized,
{
}

/// The message for pixels of the wrong length names the length that came before the one that
/// was wanted.
pub proof fn law_mismatch_names_both(got: nat, expected: nat)
    ensures
        size_mismatch(got, expected) == "Panel pixel data size mismatch: got "@ + decimal(got)
            + ", expected "@ + decimal(expected),
{
}

} // verus!
