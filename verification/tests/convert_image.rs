use info_display::convert_image::{
    adjust_brightness_rgb, pack_gray_levels, rgb_bytes_to_rgba, swap_rgb,
};

#[test]
fn swap_exchanges_first_and_third_channel() {
    assert_eq!(swap_rgb(&vec![1, 2, 3, 4, 5, 6], 2, 1), vec![3, 2, 1, 6, 5, 4]);
}

#[test]
fn swap_of_nothing_is_nothing() {
    assert_eq!(swap_rgb(&Vec::new(), 0, 0), Vec::<u8>::new());
}

#[test]
fn swap_ignores_the_dimensions() {
    assert_eq!(swap_rgb(&vec![9, 8, 7], u32::MAX, u32::MAX), vec![7, 8, 9]);
}

#[test]
fn swap_twice_gives_the_buffer_back() {
    let frame: Vec<u8> = (0..=254u8).collect();
    assert_eq!(swap_rgb(&swap_rgb(&frame, 85, 1), 85, 1), frame);
}

#[test]
fn full_brightness_only_swaps() {
    assert_eq!(adjust_brightness_rgb(&vec![10, 20, 30, 255, 0, 1], 100), vec![30, 20, 10, 1, 0, 255]);
}

#[test]
fn half_brightness_halves_and_rounds_down() {
    assert_eq!(adjust_brightness_rgb(&vec![200, 3, 255], 50), vec![127, 1, 100]);
}

#[test]
fn zero_brightness_is_black() {
    assert_eq!(adjust_brightness_rgb(&vec![200, 3, 255], 0), vec![0, 0, 0]);
}

#[test]
fn brightness_above_full_is_capped() {
    assert_eq!(adjust_brightness_rgb(&vec![100, 128, 255], 200), vec![255, 255, 200]);
    assert_eq!(adjust_brightness_rgb(&vec![1, 0, 255], u16::MAX), vec![255, 0, 255]);
}

#[test]
fn lowest_setting_dims_to_a_fifth() {
    assert_eq!(adjust_brightness_rgb(&vec![255, 100, 4], 20), vec![0, 20, 51]);
}

#[test]
fn preview_pixels_get_an_opaque_fourth_channel() {
    assert_eq!(rgb_bytes_to_rgba(&vec![1, 2, 3, 4, 5, 6]), vec![3, 2, 1, 255, 6, 5, 4, 255]);
    assert_eq!(rgb_bytes_to_rgba(&Vec::new()), Vec::<u8>::new());
}

#[test]
fn gray_levels_go_two_to_a_byte() {
    assert_eq!(pack_gray_levels(&vec![1, 2, 15, 0, 0, 15, 15, 15]), vec![0x12, 0xf0, 0x0f, 0xff]);
    assert_eq!(pack_gray_levels(&Vec::new()), Vec::<u8>::new());
}

#[test]
fn gray_frame_of_primary_display_is_half_a_byte_a_pixel() {
    let levels = vec![5u8; 256 * 64];
    let packed = pack_gray_levels(&levels);
    assert_eq!(packed.len(), 256 * 64 / 2);
    assert!(packed.iter().all(|byte| *byte == 0x55));
}
