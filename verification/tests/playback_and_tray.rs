use corsair_elite_display::playback::{
    AnimationPlayback, AnimationStep, StaticPlayback, OPEN_RETRY_MS, SEND_RETRY_MS, STATIC_ATTEMPTS,
    STATIC_RETRY_MS,
};
use corsair_elite_display::settings::{Settings, ViewMode};
use corsair_elite_display::stream::MonitorInfo;
use corsair_elite_display::tray::{
    activation_result, adopt_lcd_monitor, apply_command, menu_command, toggle_step, tray_menu, turned_off,
    MenuCommand, MenuEffect, ToggleStep,
};

#[test]
fn a_static_picture_stops_at_the_first_success() {
    let mut p = StaticPlayback::new();
    assert!(p.wants_attempt(false));
    assert_eq!(p.record(Err("busy".to_string())), Some(STATIC_RETRY_MS));
    assert!(p.wants_attempt(false));
    assert_eq!(p.record(Ok(())), None);
    assert!(!p.wants_attempt(false));
    assert_eq!(p.failure(), None);
}

#[test]
fn a_static_picture_reports_the_last_error_after_all_attempts() {
    let mut p = StaticPlayback::new();
    let mut n = 0;
    while p.wants_attempt(false) {
        n += 1;
        p.record(Err(format!("error {n}")));
    }
    assert_eq!(n, STATIC_ATTEMPTS);
    assert_eq!(p.failure(), Some("error 30".to_string()));
}

#[test]
fn a_stopped_static_picture_reports_nothing() {
    let mut p = StaticPlayback::new();
    assert!(p.wants_attempt(false));
    p.record(Err("x".to_string()));
    assert!(!p.wants_attempt(true));
    assert_eq!(p.failure(), None);
}

#[test]
fn an_animation_cycles_and_reconnects() {
    let mut a = AnimationPlayback::new(3);
    assert_eq!(a.next_step(), AnimationStep::Open);
    assert_eq!(a.opened(Err("gone".to_string())), Some(OPEN_RETRY_MS));
    assert_eq!(a.next_step(), AnimationStep::Open);
    assert_eq!(a.opened(Ok(())), None);
    let mut shown = Vec::new();
    for _ in 0..4 {
        match a.next_step() {
            AnimationStep::Send(i) => {
                shown.push(i);
                assert_eq!(a.sent(Ok(()), 40), 40);
            }
            AnimationStep::Open => panic!("connected"),
        }
    }
    assert_eq!(shown, vec![0, 1, 2, 0]);
    assert_eq!(a.sent(Err("WriteFile failed".to_string()), 40), SEND_RETRY_MS);
    assert_eq!(a.next_step(), AnimationStep::Open);
    assert_eq!(a.index, 1);
    assert_eq!(a.failure(false), Some("WriteFile failed".to_string()));
    assert_eq!(a.failure(true), None);
}

#[test]
fn menu_ids_decode_to_commands() {
    assert_eq!(menu_command(200), MenuCommand::Toggle);
    assert_eq!(menu_command(201), MenuCommand::Startup);
    assert_eq!(menu_command(202), MenuCommand::Exit);
    assert_eq!(menu_command(203), MenuCommand::ShowMouse);
    assert_eq!(menu_command(301), MenuCommand::Fps(30));
    assert_eq!(menu_command(403), MenuCommand::Quality(85));
    assert_eq!(menu_command(500), MenuCommand::Brightness(25));
    assert_eq!(menu_command(602), MenuCommand::Rotation(180));
    assert_eq!(menu_command(251), MenuCommand::View(ViewMode::Zoom4x3));
    assert_eq!(menu_command(304), MenuCommand::Nothing);
    assert_eq!(menu_command(0), MenuCommand::Nothing);
}

#[test]
fn commands_change_one_setting() {
    let mut s = Settings::default();
    assert_eq!(apply_command(&mut s, MenuCommand::Fps(45)), MenuEffect::Apply);
    assert_eq!(s.fps, 45);
    assert_eq!(apply_command(&mut s, MenuCommand::ShowMouse), MenuEffect::Apply);
    assert!(s.show_mouse);
    assert_eq!(apply_command(&mut s, MenuCommand::Rotation(90)), MenuEffect::Apply);
    assert_eq!(s.rotation, 90);
    assert_eq!(apply_command(&mut s, MenuCommand::Exit), MenuEffect::Exit);
    assert_eq!(apply_command(&mut s, MenuCommand::Toggle), MenuEffect::Toggle);
    assert_eq!(apply_command(&mut s, MenuCommand::Nothing), MenuEffect::Nothing);
    assert_eq!(s.quality, 65);
}

#[test]
fn the_menu_ticks_the_current_choices() {
    let mut s = Settings::default();
    s.quality = 75;
    s.rotation = 270;
    let menu = tray_menu(&s, true);
    assert_eq!(menu.toggle.label, "On/Off");
    assert!(!menu.toggle.checked);
    assert!(!menu.show_mouse.checked);
    let fps: Vec<(usize, &str, bool)> =
        menu.frame_rate.iter().map(|m| (m.id, m.label.as_str(), m.checked)).collect();
    assert_eq!(
        fps,
        vec![(300, "15 FPS", false), (301, "30 FPS", true), (302, "45 FPS", false), (303, "60 FPS", false)]
    );
    assert_eq!(menu.quality[2].label, "75%");
    assert!(menu.quality[2].checked);
    assert_eq!(menu.brightness[3].label, "100%");
    assert!(menu.brightness[3].checked);
    assert_eq!(menu.rotation[3].label, "270°");
    assert!(menu.rotation[3].checked);
    assert_eq!(menu.view[0].label, "Native");
    assert_eq!(menu.view[0].id, 250);
    assert!(menu.startup.checked);
    assert_eq!(menu.exit.id, 202);
    assert_eq!(menu.exit.label, "Exit");
}

#[test]
fn toggling_and_activation() {
    assert_eq!(toggle_step(true), ToggleStep::TurnOff);
    assert_eq!(toggle_step(false), ToggleStep::Activate);
    let mut s = Settings::default();
    assert_eq!(activation_result(&mut s, Ok(())), None);
    assert!(s.streaming);
    turned_off(&mut s);
    assert!(!s.streaming);
    s.streaming = true;
    assert_eq!(activation_result(&mut s, Err("no screen".to_string())), Some("no screen".to_string()));
    assert!(!s.streaming);
}

#[test]
fn a_display_change_adopts_the_lcd() {
    let mut s = Settings::default();
    let monitors = vec![
        MonitorInfo::new("MAIN".to_string(), 0, 0, 1920, 1080, true),
        MonitorInfo::new("LCD".to_string(), 1920, 0, 2400, 480, false),
    ];
    assert!(adopt_lcd_monitor(&mut s, &monitors));
    assert_eq!(s.monitor, "LCD");
    let mut t = Settings::default();
    assert!(!adopt_lcd_monitor(&mut t, &monitors[..1].iter().map(|m| MonitorInfo::new(m.device_name.clone(), m.left, m.top, m.right, m.bottom, m.primary)).collect()));
    assert_eq!(t.monitor, "");
}
