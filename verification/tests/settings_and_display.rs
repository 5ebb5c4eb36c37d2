use corsair_elite_display::pe::looks_interesting;
use corsair_elite_display::settings::{Settings, ViewMode};
use corsair_elite_display::virtual_display::generate_corsair_edid;

#[test]
fn interesting_name_filter_finds_media_operations() {
    assert!(looks_interesting("iD_USB_update_hardware_mode_background_cc021"));
    assert!(looks_interesting("get_screen_config"));
    assert!(!looks_interesting("close_device"));
}

#[test]
fn default_state_is_off() {
    let settings = Settings::default();
    assert_eq!(settings.streaming, false);
}

#[test]
fn parses_streaming_flag_correctly() {
    let test_cases = [
        ("streaming=true", true),
        ("streaming=1", true),
        ("streaming=on", true),
        ("streaming=false", false),
        ("streaming=0", false),
        ("streaming=off", false),
    ];

    for (line, expected) in test_cases {
        let s = Settings::parse(line);
        assert_eq!(s.streaming, expected, "Failed for {line}");
    }
}

#[test]
fn test_edid_checksum() {
    let edid = generate_corsair_edid("Corsair LCD");
    let sum: u32 = edid.iter().map(|&b| b as u32).sum();
    assert_eq!(sum % 256, 0);
    assert_eq!(&edid[72..77], &[0x00, 0x00, 0x00, 0xFC, 0x00]);
    assert_eq!(&edid[77..88], b"Corsair LCD");
}

#[test]
fn settings_round_trip_through_the_ini_text() {
    let mut s = Settings::default();
    s.monitor = String::from("\\\\.\\DISPLAY7");
    s.fps = 15;
    s.quality = 85;
    s.brightness = 25;
    s.rotation = 180;
    s.view_mode = ViewMode::Zoom16x9;
    s.show_mouse = false;
    s.streaming = true;
    let text = s.to_ini();
    let back = Settings::parse(&text);
    assert_eq!(back.monitor, s.monitor);
    assert_eq!(back.fps, 15);
    assert_eq!(back.quality, 85);
    assert_eq!(back.brightness, 25);
    assert_eq!(back.rotation, 180);
    assert_eq!(back.view_mode, ViewMode::Zoom16x9);
    assert_eq!(back.show_mouse, false);
    assert_eq!(back.streaming, true);
}

#[test]
fn settings_parse_clamps_and_ignores_garbage() {
    let s = Settings::parse("fps=500\nquality=5\nbrightness=abc\nnonsense\n");
    assert_eq!(s.fps, 30);
    assert_eq!(s.quality, 35);
    assert_eq!(s.brightness, 100);
}

#[test]
fn frame_rates_above_the_panel_limit_do_not_survive_a_reload() {
    let mut s = Settings::default();
    s.fps = 45;
    assert_eq!(Settings::parse(&s.to_ini()).fps, 30);
}

#[test]
fn the_cursor_is_left_out_unless_asked_for() {
    assert!(!Settings::default().show_mouse);
    assert!(!Settings::parse("fps=30\n").show_mouse);
    assert!(Settings::parse("show_mouse=true\n").show_mouse);
    assert!(!Settings::parse("show_mouse= false \n").show_mouse);
}
