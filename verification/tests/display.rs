use rust_dos::display::{display_size, fit_scale, letterbox, logical_to_frame, window_size, window_to_frame};

#[test]
fn aspect_correction_stretches_to_4_3() {
    assert_eq!(display_size(640, 400, false), (640, 400));
    assert_eq!(display_size(640, 400, true), (640, 480));
    assert_eq!(display_size(640, 350, true), (640, 480));
    assert_eq!(display_size(640, 480, true), (640, 480));
    assert_eq!(display_size(1024, 768, true), (1024, 768));
    // Taller than 4:3 widens instead.
    assert_eq!(display_size(640, 512, true), (683, 512));
}

#[test]
fn mouse_positions_map_to_frame_pixels() {
    // 640x400 shown as 640x480.
    assert_eq!(logical_to_frame(479, 480, 400), 399);
    assert_eq!(logical_to_frame(240, 480, 400), 200);
    assert_eq!(logical_to_frame(0, 480, 400), 0);
    // The black bars of fullscreen.
    assert_eq!(logical_to_frame(-3, 480, 400), -3);
    assert_eq!(logical_to_frame(490, 480, 400), 408);
}

#[test]
fn letterbox_as_sdl_does() {
    // 4:3 in 16:9 has bars left and right.
    assert_eq!(letterbox((1920, 1080), (640, 480)), (240, 0, 1440, 1080));
    // 16:10 in 4:3 has them above and below.
    assert_eq!(letterbox((1024, 768), (640, 400)), (0, 64, 1024, 640));
    assert_eq!(letterbox((1280, 800), (640, 400)), (0, 0, 1280, 800));
}

#[test]
fn window_positions_map_to_frame_pixels_without_a_shader() {
    // A 640x400 frame at 2x, as SDL's renderer maps it.
    for x in [0, 1, 639, 1278, 1279] {
        assert_eq!(
            window_to_frame((x, x / 2), (1280, 800), (1280, 800), (640, 400), (640, 400)),
            (logical_to_frame(x, 1280, 640), x / 4)
        );
    }
    // The bars of fullscreen are outside the frame.
    let full = |pos| window_to_frame(pos, (1920, 1080), (1920, 1080), (640, 480), (640, 400));
    assert_eq!(full((100, 540)).0, -62);
    assert_eq!(full((1900, 540)).0, 738);
    assert_eq!(full((960, 1079)), (320, 399));
    // A high-DPI window has twice the pixels in its drawable.
    assert_eq!(window_to_frame((320, 200), (640, 400), (1280, 800), (640, 400), (640, 400)), (320, 200));
}

#[test]
fn windows_fit_the_desktop() {
    assert_eq!(window_size((640, 400), true, 2), (1280, 960));
    assert_eq!(window_size((640, 400), false, 0), (640, 400));
    assert_eq!(window_size((0x8000, 3), false, 0x1_FFFF), (0xFFFF_8000, 0x5_FFFD));
    assert_eq!(display_size(u32::MAX, u32::MAX, false), (u32::MAX, u32::MAX));
    assert_eq!(fit_scale((640, 480), None, 5), 5);
    assert_eq!(fit_scale((640, 480), Some((1920, 1080)), 5), 2);
    assert_eq!(fit_scale((640, 480), Some((320, 200)), 5), 1);
    assert_eq!(fit_scale((640, 480), None, 0), 1);
}

#[test]
fn positions_far_outside_keep_their_low_bits() {
    assert_eq!(logical_to_frame(i32::MAX, 1, 4), -4);
    assert_eq!(logical_to_frame(i32::MIN, 0, 1), i32::MIN);
    assert_eq!(logical_to_frame(i32::MIN, 1, 3), i32::MIN);
    assert_eq!(logical_to_frame(i32::MIN, 1, u32::MAX), i32::MIN);
    assert_eq!(logical_to_frame(0x4000_0000, 1, 2), i32::MIN);
}
