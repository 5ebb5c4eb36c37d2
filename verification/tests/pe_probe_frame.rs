use corsair_elite_display::frame::{brightness_lut, convert_capture, cursor_position};
use corsair_elite_display::pe::{
    build_report, collect_ascii_strings, collect_utf16_ascii_strings, hex_dump, parse_pe, read_c_string, read_u16,
    read_u32, rva_to_offset, section_for_rva, PeError,
};
use corsair_elite_display::probe::{hex, parse_event};

fn put16(b: &mut [u8], at: usize, v: u16) {
    b[at..at + 2].copy_from_slice(&v.to_le_bytes());
}

fn put32(b: &mut [u8], at: usize, v: u32) {
    b[at..at + 4].copy_from_slice(&v.to_le_bytes());
}

/// A small PE32+ image: one `.edata` section at RVA 0x1000 (file 0x200)
/// exporting `zeta_get_image` and `alpha`.
fn sample_pe() -> Vec<u8> {
    let mut b = vec![0u8; 0x400];
    b[0] = b'M';
    b[1] = b'Z';
    put32(&mut b, 0x3c, 0x40);
    b[0x40..0x44].copy_from_slice(b"PE\0\0");
    put16(&mut b, 0x46, 1);
    put16(&mut b, 0x54, 0xf0);
    put16(&mut b, 0x58, 0x20b);
    put32(&mut b, 0x58 + 112, 0x1000);
    put32(&mut b, 0x58 + 116, 0x100);
    let s = 0x58 + 0xf0;
    b[s..s + 6].copy_from_slice(b".edata");
    put32(&mut b, s + 8, 0x200);
    put32(&mut b, s + 12, 0x1000);
    put32(&mut b, s + 16, 0x200);
    put32(&mut b, s + 20, 0x200);
    let e = 0x200;
    put32(&mut b, e + 16, 1);
    put32(&mut b, e + 20, 2);
    put32(&mut b, e + 24, 2);
    put32(&mut b, e + 28, 0x1040);
    put32(&mut b, e + 32, 0x1050);
    put32(&mut b, e + 36, 0x1060);
    put32(&mut b, 0x240, 0x1100);
    put32(&mut b, 0x244, 0x1180);
    put32(&mut b, 0x250, 0x1070);
    put32(&mut b, 0x254, 0x1090);
    put16(&mut b, 0x260, 0);
    put16(&mut b, 0x262, 1);
    b[0x270..0x270 + 14].copy_from_slice(b"zeta_get_image");
    b[0x290..0x295].copy_from_slice(b"alpha");
    b
}

#[test]
fn pe_sections_and_exports_are_read() {
    let bytes = sample_pe();
    let image = parse_pe(&bytes).unwrap();
    assert_eq!(image.sections.len(), 1);
    let s = &image.sections[0];
    assert_eq!(s.name, ".edata");
    assert_eq!((s.virtual_address, s.virtual_size, s.raw_offset, s.raw_size), (0x1000, 0x200, 0x200, 0x200));
    let exports: Vec<(&str, u32, u16)> = image.exports.iter().map(|e| (e.name.as_str(), e.rva, e.ordinal)).collect();
    assert_eq!(exports, vec![("alpha", 0x1180, 2), ("zeta_get_image", 0x1100, 1)]);
    assert_eq!(rva_to_offset(0x1100, &image.sections), Some(0x300));
    assert_eq!(rva_to_offset(0x1400, &image.sections), None);
    assert!(section_for_rva(0x11ff, &image.sections).is_some());
    assert!(section_for_rva(0x0fff, &image.sections).is_none());
}

#[test]
fn pe_errors_name_the_problem() {
    assert!(matches!(parse_pe(b"XX"), Err(PeError::NotPe)));
    let mut b = sample_pe();
    b[0x41] = b'X';
    assert!(matches!(parse_pe(&b), Err(PeError::NoSignature)));
    let mut b = sample_pe();
    put16(&mut b, 0x58, 0x107);
    let err = parse_pe(&b).err().unwrap();
    assert_eq!(err, PeError::UnsupportedMagic(0x107));
    assert_eq!(err.message(), "Unsupported PE optional-header magic 0x0107");
    let mut b = sample_pe();
    put32(&mut b, 0x58 + 112, 0x9000);
    let err = parse_pe(&b).err().unwrap();
    assert_eq!(err.message(), "Could not map export RVA 0x00009000");
    let mut b = sample_pe();
    put16(&mut b, 0x46, 40);
    assert_eq!(parse_pe(&b).err(), Some(PeError::ReadPastEnd(0x400)));
    let mut t = sample_pe();
    t.truncate(0x14c);
    assert!(matches!(parse_pe(&t), Err(PeError::SectionTableTruncated)));
    assert_eq!(read_u32(&b, 0x3fe).err().unwrap().message(), "PE read past end at 0x3fe");
    assert_eq!(read_u16(&b, 0x3c), Ok(0x40));
    assert_eq!(read_c_string(&b, 0x400).err().unwrap().message(), "string offset 0x400 is outside file");
    assert_eq!(read_c_string(&sample_pe(), 0x290), Ok("alpha".to_string()));
    let mut b = sample_pe();
    put32(&mut b, 0x200 + 28, 0x9000);
    assert!(matches!(parse_pe(&b), Err(PeError::UnmappedFunctionTable)));
}

#[test]
fn pe_without_exports_has_none() {
    let mut b = sample_pe();
    put32(&mut b, 0x58 + 112, 0);
    let image = parse_pe(&b).unwrap();
    assert!(image.exports.is_empty());
}

#[test]
fn embedded_strings_are_found() {
    let mut bytes = b"\x01get_screen\x00abc\x00read".to_vec();
    bytes.extend_from_slice(&[0, 0]);
    for c in b"flashy" {
        bytes.push(*c);
        bytes.push(0);
    }
    let ascii = collect_ascii_strings(&bytes);
    assert_eq!(ascii, vec!["ASCII @ 0x00000001: get_screen".to_string(), "ASCII @ 0x00000010: read".to_string()]);
    let utf16 = collect_utf16_ascii_strings(&bytes);
    assert!(utf16.contains(&"UTF16 @ 0x00000016: flashy".to_string()), "{utf16:?}");
}

#[test]
fn hex_dump_lines() {
    let bytes: Vec<u8> = (0..20u8).collect();
    assert_eq!(
        hex_dump(&bytes, 2, 18),
        "00000002: 02 03 04 05 06 07 08 09 0a 0b 0c 0d 0e 0f 10 11\n00000012: 12 13\n"
    );
    assert_eq!(hex_dump(&bytes, 30, 4), "");
}

#[test]
fn report_lists_sections_exports_and_code() {
    let bytes = sample_pe();
    let report = build_report("C:\\x\\iD.dll", &bytes).unwrap();
    assert!(report.starts_with("Corsair Elite Display - read-only iCUE flash-read reverse-engineering probe\n"));
    assert!(report.contains("DLL: C:\\x\\iD.dll\nSize: 1024 bytes\n"));
    assert!(report.contains("  .edata   RVA=0x00001000 virtual=0x200 raw_off=0x00000200 raw_size=0x200\n"));
    assert!(report.contains("  ordinal=2 RVA=0x00001180 alpha\n"));
    assert!(report.contains("Interesting exports:\n  RVA=0x00001100 section=.edata zeta_get_image\n"));
    assert!(report.contains("\n== zeta_get_image @ RVA 0x00001100 ==\n00000300: 00 00"));
    assert!(build_report("x", b"MZ").is_err());
}

#[test]
fn probe_formats_events() {
    assert_eq!(hex(&[0x01, 0xab, 0xff]), "01 ab ff");
    assert_eq!(hex(&[]), "");
    let mut event = [0u8; 512];
    event[0] = 0x2a;
    event[1] = 3;
    event[5] = 0xde;
    event[6] = 0xad;
    event[7] = 0x01;
    assert_eq!(parse_event(&event), "event_type=0x2a declared_payload=3 payload_preview[3]=de ad 01");
    event[1] = 0xff;
    event[2] = 0xff;
    let text = parse_event(&event);
    assert!(text.starts_with("event_type=0x2a declared_payload=65535 payload_preview[96]=de ad 01 00"), "{text}");
}

#[test]
fn capture_conversion_swaps_channels_rotates_and_dims() {
    let mut bgra = vec![0u8; 480 * 480 * 4];
    // Top-left pixel: blue 10, green 20, red 30.
    bgra[0] = 10;
    bgra[1] = 20;
    bgra[2] = 30;
    let rgb = convert_capture(&bgra, 100, 0);
    assert_eq!(&rgb[..3], &[30, 20, 10]);
    let dim = convert_capture(&bgra, 50, 0);
    assert_eq!(&dim[..3], &[15, 10, 5]);
    // Rotated by 90 degrees the top-left source pixel lands at the top right.
    let rot = convert_capture(&bgra, 100, 90);
    assert_eq!(&rot[479 * 3..480 * 3], &[30, 20, 10]);
    let rot180 = convert_capture(&bgra, 100, 180);
    let last = (480 * 480 - 1) * 3;
    assert_eq!(&rot180[last..last + 3], &[30, 20, 10]);
    let over = convert_capture(&bgra, 150, 0);
    assert_eq!(&over[..3], &[0, 0, 0]);
    let lut = brightness_lut(25);
    assert_eq!((lut[0], lut[100], lut[255]), (0, 25, 63));
}

#[test]
fn cursor_is_mapped_into_the_lcd_picture() {
    assert_eq!(cursor_position(960, 960, 0, 0, 480, 480, 100, 200, 2, 3), Some((48, 97)));
    assert_eq!(cursor_position(960, 960, 0, 0, 480, 480, 960, 0, 0, 0), None);
    assert_eq!(cursor_position(960, 960, 0, 0, 480, 480, -1, 0, 0, 0), None);
}
