use corsair_elite_display::settings::{Settings, ViewMode};
use corsair_elite_display::stream::{
    coarse_sleep_ns, device_error, effective_fps, lcd_monitor, pace, render_config, select_monitor, sort_monitors,
    MonitorInfo, RenderConfig, RunStep, StreamState, FRESH_FRAMES,
};

fn monitor(name: &str, left: i32, w: i32, h: i32, primary: bool) -> MonitorInfo {
    MonitorInfo::new(name.to_string(), left, 0, left + w, h, primary)
}

#[test]
fn labels_name_the_lcd_and_other_displays() {
    let lcd = monitor("\\\\.\\DISPLAY3", 1920, 480, 480, false);
    assert_eq!(lcd.label, "Corsair Elite LCD (480x480)");
    let main = monitor("\\\\.\\DISPLAY1", 0, 1920, 1080, true);
    assert_eq!(main.label, "\\\\.\\DISPLAY1 - 1920x1080 (Primary)");
    let side = monitor("\\\\.\\DISPLAY2", -1280, 1280, 1024, false);
    assert_eq!(side.label, "\\\\.\\DISPLAY2 - 1280x1024");
    assert_eq!(side.width(), 1280);
    assert_eq!(side.height(), 1024);
    let odd = MonitorInfo::new("X".to_string(), 10, 10, 0, 0, false);
    assert_eq!(odd.label, "X - -10x-10");
}

#[test]
fn lcd_sized_displays_come_first_then_primary() {
    let list = vec![
        monitor("A", 0, 1920, 1080, false),
        monitor("B", 0, 1920, 1080, true),
        monitor("C", 0, 480, 480, false),
        monitor("D", 0, 480, 480, true),
        monitor("E", 0, 480, 480, false),
    ];
    let sorted = sort_monitors(list);
    let names: Vec<&str> = sorted.iter().map(|m| m.device_name.as_str()).collect();
    assert_eq!(names, vec!["D", "C", "E", "B", "A"]);
}

#[test]
fn the_configured_lcd_is_preferred() {
    let list = vec![
        monitor("P", 0, 480, 480, true),
        monitor("X", 0, 480, 480, false),
        monitor("Y", 0, 480, 480, false),
        monitor("Z", 0, 800, 600, false),
    ];
    assert_eq!(select_monitor(&list, &"Y".to_string()), Some(2));
    assert_eq!(select_monitor(&list, &"Z".to_string()), Some(1));
    assert_eq!(select_monitor(&list, &"P".to_string()), Some(1));
    assert_eq!(lcd_monitor(&list), Some(1));
    let only_primary = vec![monitor("P", 0, 480, 480, true), monitor("Q", 0, 640, 480, false)];
    assert_eq!(select_monitor(&only_primary, &String::new()), Some(0));
    assert_eq!(lcd_monitor(&only_primary), None);
    let none = vec![monitor("Q", 0, 640, 480, false)];
    assert_eq!(select_monitor(&none, &"Q".to_string()), None);
}

#[test]
fn device_errors_are_recognised_by_their_text() {
    assert!(device_error("WriteFile failed with error 31"));
    assert!(device_error("no device answered"));
    assert!(!device_error("JPEG encoding failed"));
    assert!(!device_error("Device lost"));
}

#[test]
fn frame_rate_is_capped_at_the_panel_limit() {
    assert_eq!(effective_fps(0), 1);
    assert_eq!(effective_fps(15), 15);
    assert_eq!(effective_fps(60), 30);
}

fn config() -> RenderConfig {
    render_config(&Settings::default())
}

#[test]
fn fresh_frames_are_sent_even_when_unchanged() {
    let mut state = StreamState::new(true);
    assert_eq!(state.begin_cycle(true), RunStep::Running);
    assert!(!state.apply_config(config()));
    let pixels = vec![9u8; 12];
    for _ in 0..FRESH_FRAMES {
        assert!(state.frame_due(&pixels, false));
        state.frame_sent(&pixels);
    }
    assert!(!state.frame_due(&pixels, false));
    assert!(state.frame_due(&pixels, true));
    let other = vec![8u8; 12];
    assert!(state.frame_due(&other, false));
}

#[test]
fn switching_off_and_on_forgets_and_renews() {
    let mut state = StreamState::new(true);
    let pixels = vec![1u8; 4];
    for _ in 0..FRESH_FRAMES {
        state.frame_due(&pixels, false);
    }
    state.frame_sent(&pixels);
    assert!(!state.frame_due(&pixels, false));
    assert_eq!(state.begin_cycle(false), RunStep::Off);
    assert!(state.previous.is_empty());
    assert_eq!(state.begin_cycle(true), RunStep::Resumed);
    assert_eq!(state.fresh_frames, FRESH_FRAMES);
    assert!(state.frame_due(&pixels, false));
}

#[test]
fn changed_settings_invalidate_the_last_frame() {
    let mut state = StreamState::new(true);
    state.frame_sent(&[1, 2, 3]);
    let mut s = Settings::default();
    s.brightness = 50;
    assert!(state.apply_config(render_config(&s)));
    assert!(state.previous.is_empty());
    state.frame_sent(&[1, 2, 3]);
    s.view_mode = ViewMode::Zoom4x3;
    assert!(!state.apply_config(render_config(&s)));
    assert!(state.previous.is_empty());
    state.frame_sent(&[1, 2, 3]);
    assert!(!state.apply_config(render_config(&s)));
    assert_eq!(state.previous, vec![1, 2, 3]);
}

#[test]
fn failures_forget_the_frame_and_name_device_loss() {
    let mut state = StreamState::new(true);
    state.frame_sent(&[5]);
    assert!(state.frame_failed("WriteFile failed with error 22", 0));
    assert!(state.previous.is_empty());
    state.frame_sent(&[5]);
    assert!(!state.frame_failed("JPEG encoding failed: x", 0));
    assert!(state.previous.is_empty());
    state.connected();
    assert_eq!(state.fresh_frames, FRESH_FRAMES);
}

#[test]
fn reconnects_wait_two_seconds_after_a_failed_open_and_one_after_a_device_error() {
    let mut state = StreamState::new(true);
    assert!(state.connect_due(false, 0));
    assert!(!state.connect_due(true, 0));
    state.open_failed(5_000);
    assert!(!state.connect_due(false, 6_999));
    assert!(state.connect_due(false, 7_000));
    assert!(state.frame_failed("no device answered", 10_000));
    assert!(!state.connect_due(false, 10_999));
    assert!(state.connect_due(false, 11_000));
    assert!(!state.frame_failed("JPEG encoding failed", 20_000));
    assert_eq!(state.next_connect_ms, 11_000);
}

#[test]
fn pacing_waits_for_the_deadline_and_drops_timing_debt() {
    let period = 33_333_333;
    assert_eq!(pace(1_000, 5_000, period), (4_000, 5_000 + period));
    assert_eq!(pace(5_000, 5_000, period), (0, 5_000 + period));
    assert_eq!(pace(900_000_000, 5_000, period), (0, 900_000_000 + period));
    let (wait, next) = pace(2_000, 40_000_000, period);
    assert_eq!(next, 2_000 + wait + period);
}

#[test]
fn sleeping_stops_half_a_millisecond_before_the_deadline() {
    assert_eq!(coarse_sleep_ns(2_000_000), 1_500_000);
    assert_eq!(coarse_sleep_ns(500_000), 0);
    assert_eq!(coarse_sleep_ns(100), 0);
}

#[test]
fn a_monitor_without_area_has_no_surface() {
    assert_eq!(monitor("A", 0, 480, 480, false).surface(), Some((480, 480)));
    assert_eq!(MonitorInfo::new("B".to_string(), 10, 0, 10, 480, false).surface(), None);
    assert_eq!(MonitorInfo::new("C".to_string(), 10, 10, 0, 0, false).surface(), None);
    let wide = MonitorInfo::new("D".to_string(), i32::MIN, 0, i32::MAX, 1, false);
    assert_eq!(wide.width(), -1);
    assert_eq!(wide.surface(), None);
}
