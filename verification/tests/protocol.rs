use corsair_elite_display::device::{
    find_device_paths, is_supported_device_path, animation_segment, brightness_packet, crc32, frame_packet, frame_packets, hardware_mode_packet_1,
    hardware_mode_packet_2, rotation_packet,
};
use corsair_elite_display::restore;

#[test]
fn image_packet_has_the_observed_corsair_header_and_padding() {
    let packet = frame_packet(&[0xff, 0xd8, 0xff], 7, true);
    assert_eq!(&packet[..8], &[0x02, 0x05, 0x40, 0x01, 7, 0, 3, 0]);
    assert_eq!(&packet[8..11], &[0xff, 0xd8, 0xff]);
    assert!(packet[11..].iter().all(|byte| *byte == 0));
}

#[test]
fn hardware_mode_packets_match_openlinkhub_protocol() {
    let p1 = hardware_mode_packet_1();
    assert_eq!(&p1[..4], &[0x03, 0x1e, 0x00, 0x01]);
    assert!(p1[4..].iter().all(|byte| *byte == 0));

    let p2 = hardware_mode_packet_2();
    assert_eq!(&p2[..4], &[0x03, 0x1d, 0x00, 0x01]);
    assert!(p2[4..].iter().all(|byte| *byte == 0));
}

#[test]
fn hardware_mode_packets_match_openlinkhub() {
    assert_eq!(&restore::hardware_mode_packet_1()[..4], &[0x03, 0x1e, 0x01, 0x01]);
    assert_eq!(&restore::hardware_mode_packet_2()[..4], &[0x03, 0x1d, 0x00, 0x01]);
}

#[test]
fn frame_packets_split_and_reassemble() {
    let data: Vec<u8> = (0..2500u32).map(|i| (i % 251) as u8).collect();
    let packets = frame_packets(&data);
    assert_eq!(packets.len(), 3);
    let mut joined = Vec::new();
    for (n, p) in packets.iter().enumerate() {
        assert_eq!(&p[..3], &[0x02, 0x05, 0x40]);
        assert_eq!(p[3], if n == 2 { 1 } else { 0 });
        assert_eq!(u16::from_le_bytes([p[4], p[5]]) as usize, n);
        let len = u16::from_le_bytes([p[6], p[7]]) as usize;
        joined.extend_from_slice(&p[8..8 + len]);
        assert!(p[8 + len..].iter().all(|b| *b == 0));
    }
    assert_eq!(joined, data);
    assert_eq!(u16::from_le_bytes([packets[2][6], packets[2][7]]), 2500 - 2 * 1016);
}

#[test]
fn frame_of_exactly_one_chunk_is_a_single_final_packet() {
    let data = vec![7u8; 1016];
    let packets = frame_packets(&data);
    assert_eq!(packets.len(), 1);
    assert_eq!(packets[0][3], 1);
    assert_eq!(&packets[0][6..8], &[0xf8, 0x03]);
}

#[test]
fn empty_frame_sends_no_packet() {
    assert!(frame_packets(&[]).is_empty());
}

#[test]
fn crc32_matches_the_standard_check_value() {
    assert_eq!(crc32(b"123456789"), 0xCBF4_3926);
    assert_eq!(crc32(&[]), 0);
}

#[test]
fn brightness_levels_follow_the_firmware_steps() {
    let raw = |p: u8| brightness_packet(p)[2];
    assert_eq!(raw(0), 0x00);
    assert_eq!(raw(1), 0x01);
    assert_eq!(raw(16), 0x01);
    assert_eq!(raw(17), 0x04);
    assert_eq!(raw(49), 0x04);
    assert_eq!(raw(50), 0x10);
    assert_eq!(raw(83), 0x10);
    assert_eq!(raw(84), 0x40);
    assert_eq!(raw(255), 0x40);
    let p = brightness_packet(50);
    assert_eq!(&p[..4], &[0x03, 0x0b, 0x10, 0x01]);
    assert!(p[4..].iter().all(|b| *b == 0));
}

#[test]
fn rotation_packets_and_unsupported_angles() {
    let p = rotation_packet(270).unwrap();
    assert_eq!(&p[..4], &[0x03, 0x0c, 0x03, 0x00]);
    assert_eq!(rotation_packet(90).unwrap()[2], 0x01);
    let err = rotation_packet(45).unwrap_err();
    assert_eq!(err.message(), "Unsupported rotation angle: 45");
}

#[test]
fn animation_segment_has_the_container_header() {
    let jpeg = [0xff, 0xd8, 0xaa, 0xff, 0xd9];
    let seg = animation_segment(&jpeg);
    assert_eq!(&seg[..13], &[1, 0xe0, 0x01, 0xe0, 0x01, 33, 0, 1, 0, 5, 0, 0, 0]);
    assert_eq!(&seg[13..], &jpeg);
}

#[test]
fn supported_lcd_interfaces_are_recognised_in_any_case() {
    let paths = vec![
        "\\\\?\\hid#vid_1b1c&pid_0c39&mi_00#7&abc".to_string(),
        "\\\\?\\HID#VID_046D&PID_C52B#1".to_string(),
        "\\\\?\\HID#VID_1B1C&PID_0C4E#2".to_string(),
        "\\\\?\\HID#VID_1B1C&PID_1B2E#3".to_string(),
    ];
    assert!(is_supported_device_path(&paths[0]));
    assert!(!is_supported_device_path(&paths[3]));
    assert_eq!(find_device_paths(&paths), vec![paths[0].clone(), paths[2].clone()]);
    assert_eq!(restore::restore_candidates(&paths), vec![paths[0].clone(), paths[2].clone()]);
}

#[test]
fn part_numbers_wrap_after_65535() {
    let data = vec![1u8; 65536 * 1016 + 10];
    let packets = frame_packets(&data);
    assert_eq!(packets.len(), 65537);
    assert_eq!(&packets[65535][4..6], &[0xff, 0xff]);
    assert_eq!(&packets[65536][4..6], &[0x00, 0x00]);
    assert_eq!(&packets[65536][6..8], &[10, 0]);
}
