use info_display::transport::{
    matches_signature, next_candidate, split_chunks, PortInfo, UsbId, CHUNK_SIZE, PORT_TIMEOUT_MS,
};

fn payload_of(len: usize) -> Vec<u8> {
    (0..len).map(|i| (i % 251) as u8).collect()
}

fn check_chunks(len: usize) {
    let payload = payload_of(len);
    let chunks = split_chunks(&payload);
    assert_eq!(chunks.len(), (len + 63) / 64);
    for chunk in &chunks {
        assert!(!chunk.is_empty());
        assert!(chunk.len() <= CHUNK_SIZE);
    }
    assert_eq!(chunks.concat(), payload);
}

fn usb(name: &str, vid: u16, pid: u16) -> PortInfo {
    PortInfo { name: String::from(name), usb: Some(UsbId { vid, pid }) }
}

fn other(name: &str) -> PortInfo {
    PortInfo { name: String::from(name), usb: None }
}

#[test]
fn constants_match_the_link() {
    assert_eq!(CHUNK_SIZE, 64);
    assert_eq!(PORT_TIMEOUT_MS, 1000);
}

#[test]
fn empty_payload_takes_no_write() {
    assert_eq!(split_chunks(&[]), Vec::<Vec<u8>>::new());
}

#[test]
fn one_byte_takes_one_write() {
    assert_eq!(split_chunks(&[7]), vec![vec![7u8]]);
}

#[test]
fn sixty_four_bytes_take_one_write() {
    let payload = payload_of(64);
    assert_eq!(split_chunks(&payload), vec![payload.clone()]);
}

#[test]
fn sixty_five_bytes_take_two_writes() {
    let payload = payload_of(65);
    let chunks = split_chunks(&payload);
    assert_eq!(chunks.len(), 2);
    assert_eq!(chunks[0], payload[..64].to_vec());
    assert_eq!(chunks[1], vec![payload[64]]);
}

#[test]
fn chunks_cover_payloads_of_many_sizes() {
    for len in [0usize, 1, 2, 63, 64, 65, 127, 128, 129, 1000, 4096] {
        check_chunks(len);
    }
}

#[test]
fn chunks_cover_a_primary_frame() {
    check_chunks(256 * 64 / 2);
}

#[test]
fn chunks_cover_a_companion_frame() {
    check_chunks(320 * 170 * 3);
    assert_eq!(split_chunks(&payload_of(320 * 170 * 3)).len(), 2550);
}

#[test]
fn signature_of_primary_device_matches() {
    assert!(matches_signature("16c00483", UsbId { vid: 0x16c0, pid: 0x0483 }));
}

#[test]
fn signature_of_companion_device_matches() {
    assert!(matches_signature("303a1001", UsbId { vid: 0x303a, pid: 0x1001 }));
}

#[test]
fn signature_pads_with_zeros() {
    assert!(matches_signature("0001000a", UsbId { vid: 1, pid: 10 }));
    assert!(matches_signature("00000000", UsbId { vid: 0, pid: 0 }));
    assert!(matches_signature("ffffffff", UsbId { vid: 0xffff, pid: 0xffff }));
}

#[test]
fn signature_is_lower_case() {
    assert!(!matches_signature("16C00483", UsbId { vid: 0x16c0, pid: 0x0483 }));
    assert!(matches_signature("abcdef09", UsbId { vid: 0xabcd, pid: 0xef09 }));
    assert!(!matches_signature("ABCDEF09", UsbId { vid: 0xabcd, pid: 0xef09 }));
}

#[test]
fn signature_of_other_device_does_not_match() {
    assert!(!matches_signature("16c00483", UsbId { vid: 0x16c0, pid: 0x0484 }));
    assert!(!matches_signature("16c00483", UsbId { vid: 0x0483, pid: 0x16c0 }));
}

#[test]
fn signature_of_wrong_length_does_not_match() {
    assert!(!matches_signature("", UsbId { vid: 0, pid: 0 }));
    assert!(!matches_signature("16c0048", UsbId { vid: 0x16c0, pid: 0x0483 }));
    assert!(!matches_signature("16c004830", UsbId { vid: 0x16c0, pid: 0x0483 }));
}

#[test]
fn signature_with_wide_characters_does_not_match() {
    assert!(!matches_signature("16c0048\u{00e9}", UsbId { vid: 0x16c0, pid: 0x0483 }));
}

#[test]
fn candidate_is_first_matching_usb_port() {
    let ports = vec![
        other("/dev/ttyS0"),
        usb("/dev/ttyACM0", 0x303a, 0x1001),
        usb("/dev/ttyACM1", 0x16c0, 0x0483),
        usb("/dev/ttyACM2", 0x16c0, 0x0483),
    ];
    assert_eq!(next_candidate("16c00483", &ports, 0), Some(2));
    assert_eq!(next_candidate("16c00483", &ports, 2), Some(2));
    assert_eq!(next_candidate("16c00483", &ports, 3), Some(3));
    assert_eq!(next_candidate("16c00483", &ports, 4), None);
    assert_eq!(next_candidate("303a1001", &ports, 0), Some(1));
    assert_eq!(next_candidate("303a1001", &ports, 2), None);
}

#[test]
fn candidate_is_none_without_ports() {
    assert_eq!(next_candidate("16c00483", &Vec::new(), 0), None);
}

#[test]
fn candidate_search_may_start_past_the_end() {
    let ports = vec![usb("/dev/ttyACM0", 0x16c0, 0x0483)];
    assert_eq!(next_candidate("16c00483", &ports, 7), None);
}

#[test]
fn candidate_is_never_a_port_that_is_not_usb() {
    let ports = vec![other("16c00483")];
    assert_eq!(next_candidate("16c00483", &ports, 0), None);
}
