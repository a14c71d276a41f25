//! Formats, devices, panels, textures, meshes and sound.

use clearxr_space::audio::{frame_samples, frame_total, SamplePair};
use clearxr_space::launcher_panel::{LauncherPanel, OldLayout};
use clearxr_space::pixels::{put_pixel, Quad, Rgba};
use clearxr_space::renderer::{
    choose_format, choose_formats, load_spv, pair_images, preferred_color, preferred_depth,
    PushConstants,
};
use clearxr_space::scalar::Scalar;
use clearxr_space::shell::interaction::Uv;
use clearxr_space::ui::egui_gpu_renderer::{
    grow_capacity, grow_staging, pack_primitives, scissor, DrawStep, EguiGpuRenderer, GpuPrimitive,
    GpuVertex, Scissor, TextureMade, TexturePlan, VERTEX_SIZE,
};
use clearxr_space::ui::egui_panel_renderer::{
    FramebufferPlan, FramebufferSlot, PanelInput, PointerButton, UiEvent,
};
use clearxr_space::ui::egui_renderer::{PixelRect, TextureImage};
use clearxr_space::ui::texture_table::TextureId;
use clearxr_space::ui::ui_renderer::{
    evaluate_js, games_script, load_step, LoadStep, UiRenderer,
};
use clearxr_space::vk_backend::{
    add_missing, choose_device, device_extensions, find_memory_type, graphics_queue_family,
    instance_extensions, split_names,
};

fn s(value: f32) -> Scalar {
    Scalar::from_bits(value.to_bits())
}

fn num(value: Scalar) -> f32 {
    f32::from_bits(value.to_bits())
}

// ---- Numbers ----

#[test]
fn scalars_compare_as_numbers() {
    let values = [f32::NEG_INFINITY, -2.5, -0.0, 0.0, 1e-40, 0.3, 1.0, 1e30, f32::INFINITY, f32::NAN];
    for a in values {
        for b in values {
            assert_eq!(s(a).less(s(b)), a < b, "{} < {}", a, b);
            assert_eq!(s(a).greater(s(b)), a > b, "{} > {}", a, b);
            assert_eq!(s(a).reaches(s(b)), a >= b, "{} >= {}", a, b);
            assert_eq!(s(a).equals(s(b)), a == b, "{} == {}", a, b);
        }
        assert_eq!(s(a).nan(), a.is_nan());
        assert_eq!(s(a).abs().to_bits(), a.abs().to_bits());
        if !a.is_nan() {
            assert_eq!(s(a).half().to_bits(), (a / 2.0).to_bits(), "half of {}", a);
        }
    }
    // Halves of the smallest numbers are rounded to even.
    for bits in [1u32, 2, 3, 5, 0x0080_0001, 0x0080_0003, 0x00ff_ffff, 0x0100_0001] {
        let value = f32::from_bits(bits);
        assert_eq!(s(value).half().to_bits(), (value / 2.0).to_bits(), "half of {:x}", bits);
    }
}

// ---- Colors ----

#[test]
fn colors_are_mixed() {
    let half = Rgba { r: 128, g: 64, b: 0, a: 128 };
    assert_eq!(half.modulate(Rgba::white()), half);
    let below = Rgba { r: 10, g: 10, b: 20, a: 255 };
    let opaque = Rgba { r: 1, g: 2, b: 3, a: 255 };
    assert_eq!(opaque.blend_over(below), opaque);
    let none = Rgba { r: 0, g: 0, b: 0, a: 0 };
    assert_eq!(none.blend_over(below), below);
    assert_eq!(half.blend_over(below).a, 255);
}

#[test]
fn one_pixel_is_put() {
    let mut bytes = vec![0u8; 16];
    put_pixel(&mut bytes, 2, 2, 1, 0, Quad { c0: 1, c1: 2, c2: 3, c3: 4 });
    assert_eq!(&bytes[4..8], &[1, 2, 3, 4]);
    assert_eq!(bytes.iter().filter(|b| **b != 0).count(), 4);
}

// ---- Devices ----

#[test]
fn memory_types_are_filtered() {
    assert_eq!(find_memory_type(0b110, 0b10, &vec![0b10, 0b01, 0b11]), Some(2));
    assert_eq!(find_memory_type(0b001, 0b10, &vec![0b10, 0b10]), Some(0));
    assert_eq!(find_memory_type(0b010, 0b100, &vec![0b111, 0b011]), None);
}

#[test]
fn devices_and_queues_are_chosen() {
    assert_eq!(graphics_queue_family(&vec![2, 4, 3]), Ok(2));
    assert_eq!(
        graphics_queue_family(&vec![2, 4]),
        Err("No graphics queue family found".to_string())
    );
    assert_eq!(choose_device(&vec![false, true, true]), Ok(1));
    assert_eq!(choose_device(&vec![false, false]), Ok(0));
    assert_eq!(choose_device(&vec![]), Err("No Vulkan physical devices found".to_string()));
}

#[test]
fn extension_names_are_split_and_added() {
    assert_eq!(split_names(" VK_a  VK_b\n"), vec!["VK_a", "VK_b"]);
    let mut names = vec!["VK_a".to_string()];
    add_missing(&mut names, "VK_a");
    add_missing(&mut names, "VK_b");
    assert_eq!(names, vec!["VK_a", "VK_b"]);
    let instance = instance_extensions("VK_x");
    assert_eq!(instance[0], "VK_x");
    assert!(instance.contains(&"VK_KHR_surface".to_string()));
    assert!(device_extensions("").contains(&"VK_KHR_swapchain".to_string()));
}

#[test]
fn formats_follow_the_preference() {
    assert_eq!(choose_format(&vec![9, 3, 2], &vec![1, 2, 3]), Some(3));
    assert_eq!(choose_format(&vec![9], &vec![1, 2, 3]), None);
    let raw = |format: ash::vk::Format| format.as_raw() as u32;
    assert_eq!(
        preferred_color(),
        vec![
            raw(ash::vk::Format::R8G8B8A8_SRGB),
            raw(ash::vk::Format::B8G8R8A8_SRGB),
            raw(ash::vk::Format::R8G8B8A8_UNORM),
            raw(ash::vk::Format::B8G8R8A8_UNORM),
        ]
    );
    assert_eq!(
        preferred_depth(),
        vec![raw(ash::vk::Format::D32_SFLOAT), raw(ash::vk::Format::D16_UNORM)]
    );
    let formats = choose_formats(&vec![124, 44, 50], true);
    assert_eq!(formats.color, 50);
    assert_eq!(formats.depth, Some(124));
    let formats = choose_formats(&vec![7, 8], true);
    assert_eq!(formats.color, 7);
    assert_eq!(formats.depth, None);
    assert_eq!(choose_formats(&vec![43, 126], false).depth, None);
}

#[test]
fn shader_words_are_little_endian() {
    assert_eq!(load_spv(&[0x03, 0x02, 0x23, 0x07, 1, 0, 0, 0, 9]), vec![0x0723_0203, 1]);
    assert!(load_spv(&[1, 2, 3]).is_empty());
}

#[test]
fn images_are_paired() {
    let pairs = pair_images(3, 2, true);
    assert_eq!(pairs.len(), 3);
    assert_eq!((pairs[1].color, pairs[1].depth), (1, Some(1)));
    assert_eq!(pairs[2].depth, None);
    assert_eq!(pair_images(1, 1, false)[0].depth, None);
}

// ---- Panels ----

#[test]
fn a_panel_is_drawn_once_uploaded() {
    let mut panel = LauncherPanel::new(2, 1);
    assert_eq!(panel.staging_size(), 8);
    let scene = PushConstants {
        cam_pos: [s(1.0), s(2.0), s(3.0), s(4.0)],
        cam_right: [s(5.0), s(6.0), s(7.0), s(8.0)],
        cam_up: [s(9.0), s(10.0), s(11.0), s(12.0)],
        cam_fwd: [s(13.0), s(14.0), s(15.0), s(16.0)],
        fov: [s(17.0), s(18.0), s(19.0), s(20.0)],
    };
    assert!(panel.record_draw(&scene).is_none());
    assert_eq!(panel.record_upload(), None);
    assert_eq!(
        panel.stage_pixels(&[0; 4]).unwrap_err(),
        panel.upload_pixels(&[0; 4]).unwrap_err()
    );
    assert!(panel.stage_pixels(&[0; 8]).is_ok());
    assert_eq!(panel.record_upload(), Some(OldLayout::Undefined));
    assert_eq!(panel.record_upload(), None);
    assert_eq!(panel.upload_pixels(&[0; 8]), Ok(OldLayout::ShaderReadOnly));
    let push = panel.record_draw(&scene).unwrap();
    assert_eq!(push.cam_pos, scene.cam_pos);
    assert_eq!(push.cam_right, [s(5.0), s(6.0), s(7.0), s(1.6)]);
    assert_eq!(push.cam_up, [s(9.0), s(10.0), s(11.0), s(1.0)]);
    assert_eq!(push.panel_center, [s(0.0), s(1.6), s(-2.5), s(0.95)]);
    assert_eq!(push.panel_right, [s(1.0), s(0.0), s(0.0), s(-1.0)]);
    panel.dot_uv = Some(Uv { u: s(0.25), v: s(0.75) });
    let push = panel.record_draw(&scene).unwrap();
    assert_eq!(num(push.panel_right[3]), 0.25);
    assert_eq!(num(push.panel_up[3]), 0.75);
}

#[test]
fn an_immediate_upload_counts() {
    let mut panel = LauncherPanel::new(1, 1);
    assert_eq!(panel.upload_pixels(&[0; 4]), Ok(OldLayout::Undefined));
    panel.upload_done();
    assert!(panel.texture_initialized && !panel.upload_pending);
}

// ---- Interfaces ----

#[test]
fn test_vertex_size_matches_epaint() {
    assert_eq!(std::mem::size_of::<epaint::Vertex>(), VERTEX_SIZE);
}

#[test]
fn buttons_are_told_when_they_change() {
    let mut input = PanelInput::new();
    let at = Uv { u: s(10.0), v: s(20.0) };
    assert!(input.build_events(true, false, false, s(0.0), &vec![]).is_empty());
    input.pointer_move(Uv { u: s(0.25), v: s(0.5) }, 40, 40);
    let events = input.build_events(true, true, false, s(0.02), &vec!["a".to_string()]);
    assert_eq!(events.len(), 6);
    assert!(matches!(events[0], UiEvent::PointerMoved(p) if p == at));
    assert!(matches!(
        events[1],
        UiEvent::PointerButton { button: PointerButton::Primary, pressed: true, .. }
    ));
    assert!(matches!(
        events[2],
        UiEvent::PointerButton { button: PointerButton::Primary, pressed: false, .. }
    ));
    assert!(matches!(
        events[3],
        UiEvent::PointerButton { button: PointerButton::Primary, pressed: true, .. }
    ));
    assert!(matches!(events[4], UiEvent::Scroll(_)));
    assert!(matches!(&events[5], UiEvent::Text(t) if t == "a"));
    let held = input.build_events(false, true, false, s(0.005), &vec![]);
    assert_eq!(held.len(), 1);
    let backspace = input.build_events(false, true, true, s(0.0), &vec!["\u{8}".to_string()]);
    assert_eq!(backspace.len(), 4);
    assert!(matches!(backspace[2], UiEvent::Backspace { pressed: true }));
    input.pointer_leave();
    assert!(input.build_events(false, false, false, s(0.0), &vec![]).is_empty());
}

#[test]
fn the_first_frame_is_always_painted() {
    let mut input = PanelInput::new();
    assert!(!input.skip_paint(false));
    assert!(!input.painted(false));
    assert!(!input.skip_paint(false));
    assert!(input.painted(true));
    assert!(input.skip_paint(false));
    assert!(!input.skip_paint(true));
    input.force_repaint();
    assert!(!input.skip_paint(false));
}

#[test]
fn a_framebuffer_is_made_per_image() {
    let mut slot = FramebufferSlot { target: None };
    assert_eq!(slot.ensure(5), FramebufferPlan::Make { destroy_old: false });
    slot.made(5);
    assert_eq!(slot.ensure(5), FramebufferPlan::Keep);
    assert_eq!(slot.ensure(6), FramebufferPlan::Make { destroy_old: true });
}

fn rect(x0: i32, y0: i32, x1: i32, y1: i32) -> PixelRect {
    PixelRect { x0, y0, x1, y1 }
}

fn triangle(texture: TextureId, count: usize) -> GpuPrimitive {
    let vertex = GpuVertex {
        x: s(1.0),
        y: s(2.0),
        u: s(0.0),
        v: s(0.5),
        color: Rgba { r: 1, g: 2, b: 3, a: 4 },
    };
    GpuPrimitive {
        clip: rect(0, 0, 8, 8),
        is_mesh: true,
        texture,
        vertices: vec![vertex; count],
        indices: vec![0, 1, 2],
    }
}

#[test]
fn meshes_are_packed_one_after_the_other() {
    let font = TextureId::Managed(0);
    let mut callback = triangle(font, 3);
    callback.is_mesh = false;
    let mut empty = triangle(font, 3);
    empty.indices = vec![];
    let list = pack_primitives(&vec![triangle(font, 3), callback, empty, triangle(font, 4)]);
    assert_eq!(list.bytes.len(), 7 * VERTEX_SIZE);
    assert_eq!(&list.bytes[0..4], &1.0f32.to_le_bytes());
    assert_eq!(&list.bytes[4..8], &2.0f32.to_le_bytes());
    assert_eq!(&list.bytes[12..16], &0.5f32.to_le_bytes());
    assert_eq!(&list.bytes[16..20], &[1, 2, 3, 4]);
    assert_eq!(list.indices, vec![0, 1, 2, 0, 1, 2]);
    assert_eq!(list.calls.len(), 2);
    assert_eq!(list.calls[1].vertex_offset, 3);
    assert_eq!(list.calls[1].index_offset, 3);
    assert_eq!(list.calls[1].index_count, 3);
}

#[test]
fn buffers_grow_by_powers_of_two() {
    assert_eq!(grow_capacity(5, 4), 8);
    assert_eq!(grow_capacity(8, 4), 8);
    assert_eq!(grow_capacity(3, 4), 4);
    assert_eq!(grow_staging(5, 4), 5);
    assert_eq!(grow_staging(3, 4), 4);
}

#[test]
fn scissors_stay_on_the_target() {
    assert_eq!(
        scissor(rect(-5, 2, 3, 100), 10, 10),
        Some(Scissor { x: 0, y: 2, width: 3, height: 10 })
    );
    assert_eq!(scissor(rect(5, 0, 5, 10), 10, 10), None);
    assert_eq!(scissor(rect(-5, -5, -1, 10), 10, 10), None);
}

#[test]
fn textures_are_made_before_they_are_updated() {
    let mut renderer = EguiGpuRenderer::new(10, 20);
    assert_eq!((renderer.width(), renderer.height()), (10, 20));
    let id = TextureId::Managed(1);
    assert_eq!(renderer.apply_image_delta(id, Some((1, 2))), TexturePlan::Skip);
    assert_eq!(
        renderer.apply_image_delta(id, None),
        TexturePlan::Create { destroy_old: false }
    );
    renderer.texture_made(id, 4, 4, TextureMade::Bindable);
    renderer.texture_uploaded(id, true);
    assert_eq!(
        renderer.apply_image_delta(id, Some((1, 2))),
        TexturePlan::Update { x: 1, y: 2, initialized: true }
    );
    assert_eq!(
        renderer.apply_image_delta(id, None),
        TexturePlan::Create { destroy_old: true }
    );
    renderer.texture_made(id, 8, 8, TextureMade::Bindable);
    let calls = pack_primitives(&vec![
        triangle(TextureId::User(9), 3),
        triangle(id, 3),
        triangle(id, 3),
    ])
    .calls;
    let steps = renderer.record_draws(&calls);
    assert_eq!(steps.len(), 3);
    assert_eq!(steps[0], DrawStep::Bind(id));
    assert!(matches!(steps[1], DrawStep::Draw { call, .. } if call == calls[1]));
    assert!(matches!(steps[2], DrawStep::Draw { call, .. } if call == calls[2]));
    assert!(renderer.free_texture(id));
    assert!(!renderer.free_texture(id));
    assert!(renderer.record_draws(&calls).is_empty());
}

#[test]
fn textures_that_failed_are_not_drawn() {
    let mut renderer = EguiGpuRenderer::new(10, 20);
    let id = TextureId::Managed(1);
    let calls = pack_primitives(&vec![triangle(id, 3)]).calls;
    renderer.apply_image_delta(id, None);
    renderer.texture_made(id, 4, 4, TextureMade::Failed);
    assert!(renderer.record_draws(&calls).is_empty());
    assert_eq!(renderer.apply_image_delta(id, Some((0, 0))), TexturePlan::Skip);

    // An image without a descriptor set can be updated, but not drawn.
    renderer.apply_image_delta(id, None);
    renderer.texture_made(id, 4, 4, TextureMade::ImageOnly);
    assert!(renderer.record_draws(&calls).is_empty());
    assert_eq!(
        renderer.apply_image_delta(id, Some((0, 0))),
        TexturePlan::Update { x: 0, y: 0, initialized: false }
    );

    // A failed upload leaves the image without a layout.
    assert_eq!(
        renderer.apply_image_delta(id, None),
        TexturePlan::Create { destroy_old: true }
    );
    renderer.texture_made(id, 4, 4, TextureMade::Bindable);
    renderer.texture_uploaded(id, false);
    assert_eq!(
        renderer.apply_image_delta(id, Some((0, 0))),
        TexturePlan::Update { x: 0, y: 0, initialized: false }
    );
    assert_eq!(renderer.record_draws(&calls).len(), 2);
    renderer.texture_uploaded(id, true);
    assert_eq!(
        renderer.apply_image_delta(id, Some((0, 0))),
        TexturePlan::Update { x: 0, y: 0, initialized: true }
    );

    // A picture that could not be made anew takes the old texture with it.
    renderer.apply_image_delta(id, None);
    renderer.texture_made(id, 4, 4, TextureMade::Failed);
    assert!(renderer.record_draws(&calls).is_empty());
    assert!(!renderer.free_texture(id));
}

#[test]
fn a_part_of_a_texture_is_replaced() {
    let color = |r: u8| Rgba { r, g: 0, b: 0, a: 255 };
    let mut texture = TextureImage { width: 2, height: 2, pixels: vec![color(0); 4] };
    let part = TextureImage { width: 2, height: 1, pixels: vec![color(1), color(2)] };
    texture.patch((1, 1), &part);
    assert_eq!(texture.pixels, vec![color(0), color(0), color(0), color(1)]);
    assert_eq!(texture.sample(9, 9), color(1));
}

#[test]
fn a_page_takes_over_its_surface() {
    let mut page = UiRenderer::new(1, 2);
    assert!(page.needs_render(false));
    assert_eq!(page.update(None), &[0; 8]);
    assert!(!page.needs_render(false));
    assert!(page.needs_render(true));
    page.touch();
    assert!(page.needs_render(false));
    let surface = [1u8, 2, 3, 4, 9, 9, 9, 9, 5, 6, 7, 8];
    assert_eq!(page.update(Some((&surface, 8))), &[3, 2, 1, 4, 7, 6, 5, 8]);
}

#[test]
fn scripts_and_their_results() {
    assert_eq!(games_script("[]"), "window.GAMES = []; renderGames();");
    assert_eq!(evaluate_js(None), None);
    assert_eq!(evaluate_js(Some(" \t\n".to_string())), None);
    assert_eq!(evaluate_js(Some("undefined".to_string())), None);
    assert_eq!(evaluate_js(Some(" null ".to_string())), None);
    assert_eq!(evaluate_js(Some("\u{a0}440 ".to_string())), Some("440".to_string()));
}

// ---- Sound ----

#[test]
fn playback_loops() {
    assert_eq!(frame_total(7, 2), Ok(3));
    assert_eq!(frame_total(0, 2), Err("WAV file is empty".to_string()));
    assert_eq!(
        frame_samples(2, 3, 2, 3),
        vec![
            SamplePair { current: 4, next: 0 },
            SamplePair { current: 5, next: 1 },
            SamplePair { current: 4, next: 0 }
        ]
    );
    assert_eq!(frame_samples(0, 3, 1, 1), vec![SamplePair { current: 0, next: 1 }]);
}

#[test]
fn a_page_loads_within_five_seconds_or_not_at_all() {
    assert_eq!(load_step(false, None), LoadStep::Pump(5));
    assert_eq!(load_step(true, None), LoadStep::Done);
    assert_eq!(load_step(false, Some(5)), LoadStep::Pump(5));
    assert_eq!(load_step(true, Some(5)), LoadStep::Done);
    assert_eq!(load_step(false, Some(6)), LoadStep::TimedOut);
    assert_eq!(load_step(true, Some(6)), LoadStep::TimedOut);
}
