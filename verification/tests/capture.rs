//! Screenshots, captured frames and the pointer drawn into them.

use clearxr_space::capture::screen_capture::{
    capture_step, default_screen_size, draw_cursor_into_buffer, pack_rows, CaptureFrame,
    CaptureOutcome, CaptureStep, ScreenCapture,
};
use clearxr_space::capture::screenshot::{
    plan_screenshot, screenshot_filename, screenshot_filename_at,
};
use clearxr_space::scalar::Scalar;
use clearxr_space::screen_capture::{
    absolute_coordinate, screen_pixel, FrameData, ScreenCapture as ScaledCapture,
};

#[test]
fn screenshot_filename_contains_timestamp() {
    let name = screenshot_filename();
    assert!(name.starts_with("clearxr_"));
    assert!(name.ends_with(".png"));
    let seconds: u64 = name["clearxr_".len()..name.len() - ".png".len()].parse().unwrap();
    assert!(seconds > 1_600_000_000);
}

#[test]
fn screenshot_names_go_by_the_second() {
    assert_eq!(screenshot_filename_at(0), "clearxr_0.png");
    assert_eq!(screenshot_filename_at(1700000009), "clearxr_1700000009.png");
    assert_ne!(screenshot_filename_at(12), screenshot_filename_at(13));
}

#[test]
fn save_screenshot_small_image() {
    let width = 4u32;
    let height = 4u32;
    let pixels = vec![0xFFu8; (width * height * 4) as usize]; // white image

    let result = plan_screenshot(&pixels, width, height);
    assert!(result.is_ok(), "Failed: {:?}", result.err());

    let info = result.unwrap();
    assert_eq!(info.width, width);
    assert_eq!(info.height, height);
    assert!(info.path.starts_with("clearxr_"));
}

#[test]
fn save_screenshot_wrong_size_fails() {
    // 2x2 image but only 4 bytes (should be 16)
    let result = plan_screenshot(&[0u8; 4], 2, 2);
    assert!(result.is_err());
    assert_eq!(
        result.unwrap_err(),
        "Invalid buffer length: expected 16 got 4 for 2x2 image"
    );
}

fn frame(width: u32, height: u32, value: u8) -> CaptureFrame {
    CaptureFrame { data: vec![value; (width * height * 4) as usize], width, height }
}

#[test]
fn the_latest_frame_stays_until_another_comes() {
    let (width, height) = default_screen_size();
    assert_eq!((width, height), (1920, 1080));
    let mut capture = ScreenCapture::new(width, height);
    assert_eq!(capture.screen_width(), 1920);
    assert_eq!(capture.screen_height(), 1080);
    assert!(capture.try_get_frame(vec![]).is_none());
    assert_eq!(capture.try_get_frame(vec![frame(1, 1, 1), frame(1, 1, 2)]).unwrap().data[0], 2);
    assert_eq!(capture.try_get_frame(vec![]).unwrap().data[0], 2);
    assert_eq!(capture.try_get_frame(vec![frame(1, 1, 3)]).unwrap().data[0], 3);
}

#[test]
fn padded_rows_are_packed() {
    // Two rows of one pixel, eight bytes apart.
    let mapped = [1u8, 2, 3, 4, 99, 99, 99, 99, 5, 6, 7, 8, 99, 99, 99, 99];
    let packed = pack_rows(&mapped, 8, 1, 2);
    assert_eq!(packed.data, vec![1, 2, 3, 4, 5, 6, 7, 8]);
    assert_eq!((packed.width, packed.height), (1, 2));
}

fn pixel(frame: &CaptureFrame, x: u32, y: u32) -> [u8; 4] {
    let k = ((y * frame.width + x) * 4) as usize;
    [frame.data[k], frame.data[k + 1], frame.data[k + 2], frame.data[k + 3]]
}

#[test]
fn the_cursor_is_a_white_cross_with_a_black_rim() {
    let mut picture = frame(20, 20, 7);
    draw_cursor_into_buffer(&mut picture, 10, 10);
    assert_eq!(pixel(&picture, 10, 10), [255, 255, 255, 255]);
    assert_eq!(pixel(&picture, 15, 10), [255, 255, 255, 255]);
    assert_eq!(pixel(&picture, 11, 5), [255, 255, 255, 255]);
    assert_eq!(pixel(&picture, 16, 10), [0, 0, 0, 255]);
    assert_eq!(pixel(&picture, 12, 12), [0, 0, 0, 255]);
    assert_eq!(pixel(&picture, 13, 13), [7, 7, 7, 7]);
    assert_eq!(pixel(&picture, 17, 10), [7, 7, 7, 7]);
}

#[test]
fn a_cursor_at_the_edge_is_cut_off() {
    let mut picture = frame(4, 4, 0);
    draw_cursor_into_buffer(&mut picture, 0, 0);
    assert_eq!(pixel(&picture, 0, 0), [255, 255, 255, 255]);
    let mut far = frame(4, 4, 0);
    draw_cursor_into_buffer(&mut far, i32::MIN, i32::MAX);
    assert_eq!(far.data, frame(4, 4, 0).data);
}

#[test]
fn a_picture_is_flipped_and_its_colors_swapped() {
    let picture = FrameData {
        data: vec![1, 2, 3, 4, 5, 6, 7, 8],
        width: 1,
        height: 2,
        pitch: 4,
        bytes_per_pixel: 4,
    };
    let mut capture = ScaledCapture::new(1, 2);
    assert_eq!(capture.capture(&picture), &[7, 6, 5, 255, 3, 2, 1, 255]);
}

#[test]
fn a_picture_is_scaled_to_the_panel() {
    // One row of two pixels, shown on a row of four.
    let picture = FrameData {
        data: vec![10, 20, 30, 0, 40, 50, 60, 0],
        width: 2,
        height: 1,
        pitch: 8,
        bytes_per_pixel: 4,
    };
    let mut capture = ScaledCapture::new(4, 1);
    let pixels = capture.capture(&picture);
    assert_eq!(&pixels[0..4], &[30, 20, 10, 255]);
    assert_eq!(&pixels[4..8], &[30, 20, 10, 255]);
    assert_eq!(&pixels[8..12], &[60, 50, 40, 255]);
    assert_eq!(&pixels[12..16], &[60, 50, 40, 255]);
}

#[test]
fn a_picture_that_is_cut_off_leaves_the_rest() {
    let picture = FrameData { data: vec![1, 2, 3, 4], width: 1, height: 2, pitch: 4, bytes_per_pixel: 4 };
    let mut capture = ScaledCapture::new(1, 2);
    assert_eq!(capture.capture(&picture), &[0, 0, 0, 0, 3, 2, 1, 255]);
}

#[test]
fn absolute_coordinates_span_the_screen() {
    assert_eq!(absolute_coordinate(0, 1920), 0);
    assert_eq!(absolute_coordinate(1920, 1920), 65535);
    assert_eq!(absolute_coordinate(960, 1920), 32767);
    assert_eq!(absolute_coordinate(-1, 1920), -34);
    assert_eq!(absolute_coordinate(3840, 1920), 131070);
}

#[test]
fn frames_keep_their_interval() {
    let wait = |outcome: CaptureOutcome, elapsed: u128| capture_step(outcome, elapsed);
    assert_eq!(wait(CaptureOutcome::Frame, 0), CaptureStep::Wait(33_000_000));
    assert_eq!(wait(CaptureOutcome::Frame, 8_000_000), CaptureStep::Wait(25_000_000));
    assert_eq!(wait(CaptureOutcome::Frame, 33_000_000), CaptureStep::Wait(0));
    assert_eq!(wait(CaptureOutcome::Frame, 90_000_000), CaptureStep::Wait(0));
}

#[test]
fn without_a_frame_capture_waits_or_stops() {
    for elapsed in [0, 40_000_000] {
        let step = |outcome: CaptureOutcome| capture_step(outcome, elapsed);
        assert_eq!(step(CaptureOutcome::NoFrame), CaptureStep::Wait(5_000_000));
        assert_eq!(step(CaptureOutcome::Failed), CaptureStep::Wait(50_000_000));
        assert_eq!(step(CaptureOutcome::Unsupported), CaptureStep::Wait(100_000_000));
        assert_eq!(step(CaptureOutcome::Gone), CaptureStep::Stop);
    }
}

#[test]
fn shares_of_the_screen_are_pixels() {
    let pixel = |share: f32, extent: u32| screen_pixel(Scalar::from_bits(share.to_bits()), extent);
    assert_eq!(pixel(0.0, 1920), 0);
    assert_eq!(pixel(0.5, 1920), 960);
    assert_eq!(pixel(0.9999, 1080), 1079);
    assert_eq!(pixel(1.0, 1080), 1080);
    let shares = [
        0.1, 0.333, -0.25, 1.7, 1e-9, -1e-9, 1e5, 3e7, -3e7, 1.1e6, -1.1e6, 0.0, -0.0, 1e-45, 2e38,
        f32::INFINITY, f32::NEG_INFINITY, f32::NAN,
    ];
    for share in shares {
        for extent in [0, 1, 2, 333, 1080, 1920, 16_777_217, u32::MAX] {
            assert_eq!(pixel(share, extent), (share * extent as f32) as i32);
        }
    }
}
