use info_display::checksum::checksum;
use info_display::packet::{frame, unframe, HEADER_LEN};

#[test]
fn checksum_of_check_string() {
    assert_eq!(checksum(b"123456789"), 0xcbf4_3926);
}

#[test]
fn checksum_of_nothing_is_zero() {
    assert_eq!(checksum(b""), 0);
}

#[test]
fn frame_lays_out_length_checksum_payload() {
    let envelope = frame(b"123456789");
    assert_eq!(envelope.len(), HEADER_LEN + 9);
    assert_eq!(&envelope[0..8], &[9, 0, 0, 0, 0, 0, 0, 0]);
    assert_eq!(&envelope[8..12], &[0x26, 0x39, 0xf4, 0xcb]);
    assert_eq!(&envelope[12..], b"123456789");
}

#[test]
fn frame_of_empty_payload_is_header_only() {
    assert_eq!(frame(b""), vec![0u8; 12]);
}

#[test]
fn unframe_gives_payload_back() {
    let payload: Vec<u8> = (0..=255u8).collect();
    assert_eq!(unframe(&frame(&payload)), Some(payload));
}

#[test]
fn unframe_refuses_short_input() {
    assert_eq!(unframe(&[0u8; 11]), None);
}

#[test]
fn unframe_refuses_wrong_length() {
    let mut envelope = frame(b"abc");
    envelope.push(0);
    assert_eq!(unframe(&envelope), None);
}

#[test]
fn unframe_refuses_damaged_payload() {
    let mut envelope = frame(b"abc");
    envelope[12] ^= 1;
    assert_eq!(unframe(&envelope), None);
}

#[test]
fn embedded_checksum_matches_recomputed_one() {
    let payload = b"rotating info screens";
    let envelope = frame(payload);
    let embedded = u32::from_le_bytes([envelope[8], envelope[9], envelope[10], envelope[11]]);
    assert_eq!(embedded, checksum(&envelope[12..]));
}
