use info_display::codec::{
    encode_frame, COMPANION_HEIGHT, COMPANION_WIDTH, WEBP_MAX_DIMENSION,
};
use info_display::device::ImageFormat;

#[test]
fn companion_display_is_320_by_170() {
    assert_eq!(COMPANION_WIDTH, 320);
    assert_eq!(COMPANION_HEIGHT, 170);
}

#[test]
fn raw_frame_goes_as_it_is() {
    let frame = vec![1u8, 2, 3, 4, 5];
    assert_eq!(encode_frame(&frame, ImageFormat::Raw, 320, 170), Some(frame.clone()));
    assert_eq!(encode_frame(&Vec::new(), ImageFormat::Raw, 0, 0), Some(Vec::new()));
}

#[test]
fn webp_frame_is_a_riff_container() {
    let frame = vec![10u8, 20, 30, 40, 50, 60];
    let payload = encode_frame(&frame, ImageFormat::WebP, 2, 1).unwrap();
    assert_ne!(payload, frame);
    assert_eq!(&payload[0..4], b"RIFF");
    assert_eq!(&payload[8..12], b"WEBP");
}

#[test]
fn webp_frame_decodes_to_the_swapped_pixels() {
    let frame = vec![10u8, 20, 30, 40, 50, 60, 70, 80, 90, 100, 110, 120];
    let payload = encode_frame(&frame, ImageFormat::WebP, 2, 2).unwrap();
    let decoded = image::load_from_memory(&payload).unwrap().to_rgb8();
    assert_eq!(decoded.width(), 2);
    assert_eq!(decoded.height(), 2);
    assert_eq!(decoded.into_raw(), vec![30u8, 20, 10, 60, 50, 40, 90, 80, 70, 120, 110, 100]);
}

#[test]
fn webp_encoding_is_repeatable() {
    let frame: Vec<u8> = (0..48u8).collect();
    assert_eq!(
        encode_frame(&frame, ImageFormat::WebP, 4, 4),
        encode_frame(&frame, ImageFormat::WebP, 4, 4)
    );
}

#[test]
fn webp_frame_of_wrong_size_is_refused() {
    assert_eq!(encode_frame(&vec![0u8; 5], ImageFormat::WebP, 2, 1), None);
    assert_eq!(encode_frame(&vec![0u8; 6], ImageFormat::WebP, 1, 1), None);
    assert_eq!(encode_frame(&vec![0u8; 9], ImageFormat::WebP, 2, 1), None);
    assert_eq!(encode_frame(&Vec::new(), ImageFormat::WebP, 320, 170), None);
}

#[test]
fn webp_frame_without_pixels_is_refused() {
    assert_eq!(encode_frame(&Vec::new(), ImageFormat::WebP, 0, 0), None);
    assert_eq!(encode_frame(&Vec::new(), ImageFormat::WebP, 0, 5), None);
}

#[test]
fn webp_frame_of_huge_dimensions_is_refused() {
    assert_eq!(encode_frame(&vec![0u8; 12], ImageFormat::WebP, u32::MAX, u32::MAX), None);
    assert_eq!(encode_frame(&vec![0u8; 3 * 16385], ImageFormat::WebP, 16385, 1), None);
}

#[test]
fn webp_frame_of_companion_size_is_encoded() {
    let frame = vec![128u8; 320 * 170 * 3];
    let payload = encode_frame(&frame, ImageFormat::WebP, COMPANION_WIDTH, COMPANION_HEIGHT);
    let payload = payload.unwrap();
    assert!(payload.len() < frame.len());
    let decoded = image::load_from_memory(&payload).unwrap().to_rgb8();
    assert_eq!(decoded.into_raw(), frame);
}

#[test]
fn webp_frame_of_the_largest_width_is_encoded() {
    assert_eq!(WEBP_MAX_DIMENSION, 16384);
    let frame = vec![7u8; 3 * 16384];
    assert!(encode_frame(&frame, ImageFormat::WebP, 16384, 1).is_some());
    assert!(encode_frame(&frame, ImageFormat::WebP, 1, 16384).is_some());
}

#[test]
fn webp_frame_of_one_pixel_is_encoded() {
    let payload = encode_frame(&vec![1u8, 2, 3], ImageFormat::WebP, 1, 1).unwrap();
    let decoded = image::load_from_memory(&payload).unwrap().to_rgb8();
    assert_eq!(decoded.into_raw(), vec![3u8, 2, 1]);
}
