//! The notification-area menu: its entries, what each command does to the
//! settings, and switching streaming on and off.

use vstd::prelude::*;
use crate::settings::{view_mode_label, Settings, SettingsView, ViewMode};
use crate::stream::{first_match, lcd_monitor, MonitorInfo};
use crate::text::{decimal, push_decimal, push_str, string_of};

verus! {

pub const MENU_TOGGLE: usize = 200;
pub const MENU_STARTUP: usize = 201;
pub const MENU_EXIT: usize = 202;
pub const MENU_SHOW_MOUSE: usize = 203;
pub const MENU_VIEW_BASE: usize = 250;
pub const MENU_FPS_BASE: usize = 300;
pub const MENU_QUALITY_BASE: usize = 400;
pub const MENU_BRIGHTNESS_BASE: usize = 500;
pub const MENU_ROTATION_BASE: usize = 600;

/// The frame rates offered.
pub open spec fn fps_choices() -> Seq<u32> {
    seq![15u32, 30, 45, 60]
}

/// The JPEG qualities offered.
pub open spec fn quality_choices() -> Seq<u8> {
    seq![55u8, 65, 75, 85]
}

/// The brightness levels offered.
pub open spec fn brightness_choices() -> Seq<u8> {
    seq![25u8, 50, 75, 100]
}

/// The rotations offered.
pub open spec fn rotation_choices() -> Seq<u16> {
    seq![0u16, 90, 180, 270]
}

/// The view modes offered.
pub open spec fn view_choices() -> Seq<ViewMode> {
    seq![ViewMode::Native, ViewMode::Zoom4x3, ViewMode::Zoom16x10, ViewMode::Zoom16x9]
}

fn fps_choice(i: usize) -> (v: u32)
    requires
        i < 4,
    ensures
        v == fps_choices()[i as int],
{
    if i == 0 { 15 } else if i == 1 { 30 } else if i == 2 { 45 } else { 60 }
}

fn quality_choice(i: usize) -> (v: u8)
    requires
        i < 4,
    ensures
        v == quality_choices()[i as int],
{
    if i == 0 { 55 } else if i == 1 { 65 } else if i == 2 { 75 } else { 85 }
}

fn brightness_choice(i: usize) -> (v: u8)
    requires
        i < 4,
    ensures
        v == brightness_choices()[i as int],
{
    if i == 0 { 25 } else if i == 1 { 50 } else if i == 2 { 75 } else { 100 }
}

fn rotation_choice(i: usize) -> (v: u16)
    requires
        i < 4,
    ensures
        v == rotation_choices()[i as int],
{
    if i == 0 { 0 } else if i == 1 { 90 } else if i == 2 { 180 } else { 270 }
}

fn view_choice(i: usize) -> (v: ViewMode)
    requires
        i < 4,
    ensures
        v == view_choices()[i as int],
{
    if i == 0 {
        ViewMode::Native
    } else if i == 1 {
        ViewMode::Zoom4x3
    } else if i == 2 {
        ViewMode::Zoom16x10
    } else {
        ViewMode::Zoom16x9
    }
}

// ---------------------------------------------------------------------
// Commands

/// What a menu command asks for.
#[derive(Clone, Copy, Debug, PartialEq, Eq, Structural)]
pub enum MenuCommand {
    Toggle,
    ShowMouse,
    Startup,
    Exit,
    Fps(u32),
    Quality(u8),
    Brightness(u8),
    Rotation(u16),
    View(ViewMode),
    /// The menu was dismissed or the id is unknown.
    Nothing,
}

/// The command behind a menu id: the four fixed entries, then each choice
/// submenu by its base id and the choice's position.
pub open spec fn command_for(id: int) -> MenuCommand {
    if id == MENU_TOGGLE {
        MenuCommand::Toggle
    } else if id == MENU_SHOW_MOUSE {
        MenuCommand::ShowMouse
    } else if id == MENU_STARTUP {
        MenuCommand::Startup
    } else if id == MENU_EXIT {
        MenuCommand::Exit
    } else if MENU_FPS_BASE <= id < MENU_FPS_BASE + 4 {
        MenuCommand::Fps(fps_choices()[id - MENU_FPS_BASE])
    } else if MENU_QUALITY_BASE <= id < MENU_QUALITY_BASE + 4 {
        MenuCommand::Quality(quality_choices()[id - MENU_QUALITY_BASE])
    } else if MENU_BRIGHTNESS_BASE <= id < MENU_BRIGHTNESS_BASE + 4 {
        MenuCommand::Brightness(brightness_choices()[id - MENU_BRIGHTNESS_BASE])
    } else if MENU_ROTATION_BASE <= id < MENU_ROTATION_BASE + 4 {
        MenuCommand::Rotation(rotation_choices()[id - MENU_ROTATION_BASE])
    } else if MENU_VIEW_BASE <= id < MENU_VIEW_BASE + 4 {
        MenuCommand::View(view_choices()[id - MENU_VIEW_BASE])
    } else {
        MenuCommand::Nothing
    }
}

/// Decodes the id the menu returned.
pub fn menu_command(id: usize) -> (c: MenuCommand)
    ensures
        c == command_for(id as int),
{
    if id == MENU_TOGGLE {
        MenuCommand::Toggle
    } else if id == MENU_SHOW_MOUSE {
        MenuCommand::ShowMouse
    } else if id == MENU_STARTUP {
        MenuCommand::Startup
    } else if id == MENU_EXIT {
        MenuCommand::Exit
    } else if MENU_FPS_BASE <= id && id < MENU_FPS_BASE + 4 {
        MenuCommand::Fps(fps_choice(id - MENU_FPS_BASE))
    } else if MENU_QUALITY_BASE <= id && id < MENU_QUALITY_BASE + 4 {
        MenuCommand::Quality(quality_choice(id - MENU_QUALITY_BASE))
    } else if MENU_BRIGHTNESS_BASE <= id && id < MENU_BRIGHTNESS_BASE + 4 {
        MenuCommand::Brightness(brightness_choice(id - MENU_BRIGHTNESS_BASE))
    } else if MENU_ROTATION_BASE <= id && id < MENU_ROTATION_BASE + 4 {
        MenuCommand::Rotation(rotation_choice(id - MENU_ROTATION_BASE))
    } else if MENU_VIEW_BASE <= id && id < MENU_VIEW_BASE + 4 {
        MenuCommand::View(view_choice(id - MENU_VIEW_BASE))
    } else {
        MenuCommand::Nothing
    }
}

/// What is left to do after a command has been applied to the settings.
#[derive(Clone, Copy, Debug, PartialEq, Eq, Structural)]
pub enum MenuEffect {
    /// Switch streaming on or off (see `toggle_step`).
    Toggle,
    /// Flip the start-with-Windows registration.
    Startup,
    /// Close the application.
    Exit,
    /// The settings changed: hand them to the worker and save them.
    Apply,
    /// Nothing.
    Nothing,
}

/// The settings after a command: setting commands change their one
/// setting (the mouse entry flips it); the others change nothing.
pub open spec fn applied(s: SettingsView, command: MenuCommand) -> SettingsView {
    match command {
        MenuCommand::ShowMouse => SettingsView { show_mouse: !s.show_mouse, ..s },
        MenuCommand::Fps(v) => SettingsView { fps: v, ..s },
        MenuCommand::Quality(v) => SettingsView { quality: v, ..s },
        MenuCommand::Brightness(v) => SettingsView { brightness: v, ..s },
        MenuCommand::Rotation(v) => SettingsView { rotation: v, ..s },
        MenuCommand::View(v) => SettingsView { view_mode: v, ..s },
        _ => s,
    }
}

/// Applies a menu command to the settings (see `applied`) and says what
/// remains to do.
pub fn apply_command(settings: &mut Settings, command: MenuCommand) -> (e: MenuEffect)
    ensures
        e == (match command {
            MenuCommand::Toggle => MenuEffect::Toggle,
            MenuCommand::Startup => MenuEffect::Startup,
            MenuCommand::Exit => MenuEffect::Exit,
            MenuCommand::Nothing => MenuEffect::Nothing,
            _ => MenuEffect::Apply,
        }),
        final(settings)@ == applied(old(settings)@, command),
{
    match command {
        MenuCommand::Toggle => MenuEffect::Toggle,
        MenuCommand::Startup => MenuEffect::Startup,
        MenuCommand::Exit => MenuEffect::Exit,
        MenuCommand::Nothing => MenuEffect::Nothing,
        MenuCommand::ShowMouse => {
            settings.show_mouse = !settings.show_mouse;
            MenuEffect::Apply
        },
        MenuCommand::Fps(v) => {
            settings.fps = v;
            MenuEffect::Apply
        },
        MenuCommand::Quality(v) => {
            settings.quality = v;
            MenuEffect::Apply
        },
        MenuCommand::Brightness(v) => {
            settings.brightness = v;
            MenuEffect::Apply
        },
        MenuCommand::Rotation(v) => {
            settings.rotation = v;
            MenuEffect::Apply
        },
        MenuCommand::View(v) => {
            settings.view_mode = v;
            MenuEffect::Apply
        },
    }
}

/// Menu law: choosing the `i`-th entry of a choice submenu makes it the one
/// ticked entry of that submenu the next time the menu is shown (each entry
/// returns the id whose command sets exactly its own value).
pub proof fn lemma_choice_ticks(s: SettingsView, i: int, j: int)
    requires
        0 <= i < 4,
        0 <= j < 4,
    ensures
        (applied(s, command_for(MENU_FPS_BASE + i)).fps == fps_choices()[j]) <==> i == j,
        (applied(s, command_for(MENU_QUALITY_BASE + i)).quality == quality_choices()[j]) <==> i == j,
        (applied(s, command_for(MENU_BRIGHTNESS_BASE + i)).brightness == brightness_choices()[j]) <==> i == j,
        (applied(s, command_for(MENU_ROTATION_BASE + i)).rotation == rotation_choices()[j]) <==> i == j,
        (applied(s, command_for(MENU_VIEW_BASE + i)).view_mode == view_choices()[j]) <==> i == j,
{
}

/// Menu law: the mouse entry flips the setting, so choosing it twice
/// leaves the settings as they were; the other entries are idempotent.
pub proof fn lemma_commands_repeat(s: SettingsView, id: int)
    ensures
        command_for(id) == MenuCommand::ShowMouse ==> applied(applied(s, command_for(id)), command_for(id)) == s,
        command_for(id) != MenuCommand::ShowMouse ==> applied(applied(s, command_for(id)), command_for(id))
            == applied(s, command_for(id)),
{
}

// ---------------------------------------------------------------------
// The menu

/// One menu entry: the id it returns, its text and whether it is ticked.
pub struct MenuItem {
    pub id: usize,
    pub label: String,
    pub checked: bool,
}

pub open spec fn item_is(m: MenuItem, id: int, label: Seq<char>, checked: bool) -> bool {
    m.id == id && m.label@ == label && m.checked == checked
}

pub open spec fn fps_menu(items: Seq<MenuItem>, current: u32) -> bool {
    &&& items.len() == 4
    &&& forall|i: int| 0 <= i < 4 ==> item_is(#[trigger] items[i], MENU_FPS_BASE + i, decimal(fps_choices()[i] as nat) + " FPS"@, current == fps_choices()[i])
}

pub open spec fn quality_menu(items: Seq<MenuItem>, current: u8) -> bool {
    &&& items.len() == 4
    &&& forall|i: int| 0 <= i < 4 ==> item_is(#[trigger] items[i], MENU_QUALITY_BASE + i, decimal(quality_choices()[i] as nat) + "%"@, current == quality_choices()[i])
}

pub open spec fn brightness_menu(items: Seq<MenuItem>, current: u8) -> bool {
    &&& items.len() == 4
    &&& forall|i: int| 0 <= i < 4 ==> item_is(#[trigger] items[i], MENU_BRIGHTNESS_BASE + i, decimal(brightness_choices()[i] as nat) + "%"@, current == brightness_choices()[i])
}

pub open spec fn rotation_menu(items: Seq<MenuItem>, current: u16) -> bool {
    &&& items.len() == 4
    &&& forall|i: int| 0 <= i < 4 ==> item_is(#[trigger] items[i], MENU_ROTATION_BASE + i, decimal(rotation_choices()[i] as nat) + "\u{b0}"@, current == rotation_choices()[i])
}

pub open spec fn view_menu(items: Seq<MenuItem>, current: ViewMode) -> bool {
    &&& items.len() == 4
    &&& forall|i: int| 0 <= i < 4 ==> item_is(#[trigger] items[i], MENU_VIEW_BASE + i, view_mode_label(view_choices()[i]), current == view_choices()[i])
}

/// The tray menu, entry by entry. Shown top to bottom: the on/off and
/// mouse entries, a separator, the five choice submenus (frame rate,
/// quality, brightness, rotation, view), a separator, the startup entry, a
/// separator and the exit entry.
pub struct TrayMenu {
    pub toggle: MenuItem,
    pub show_mouse: MenuItem,
    pub frame_rate: Vec<MenuItem>,
    pub quality: Vec<MenuItem>,
    pub brightness: Vec<MenuItem>,
    pub rotation: Vec<MenuItem>,
    pub view: Vec<MenuItem>,
    pub startup: MenuItem,
    pub exit: MenuItem,
}

fn item(id: usize, label: &Vec<char>, checked: bool) -> (m: MenuItem)
    ensures
        item_is(m, id as int, label@, checked),
{
    MenuItem { id, label: string_of(label), checked }
}

fn literal_item(id: usize, label: &str, checked: bool) -> (m: MenuItem)
    ensures
        item_is(m, id as int, label@, checked),
{
    let mut v: Vec<char> = Vec::new();
    push_str(&mut v, label);
    assert(v@ =~= label@);
    item(id, &v, checked)
}

fn number_label(value: u64, suffix: &str) -> (v: Vec<char>)
    ensures
        v@ == decimal(value as nat) + suffix@,
{
    let mut v: Vec<char> = Vec::new();
    push_decimal(&mut v, value);
    push_str(&mut v, suffix);
    assert(v@ =~= decimal(value as nat) + suffix@);
    v
}

/// The frame-rate submenu: "15 FPS" and so on, the current rate ticked.
pub fn frame_rate_items(current: u32) -> (r: Vec<MenuItem>)
    ensures
        fps_menu(r@, current),
{
    let mut r: Vec<MenuItem> = Vec::new();
    for i in 0..4usize
        invariant
            r@.len() == i,
            forall|k: int|
                0 <= k < i ==> item_is(
                    #[trigger] r@[k],
                    MENU_FPS_BASE + k,
                    decimal(fps_choices()[k] as nat) + " FPS"@,
                    current == fps_choices()[k],
                ),
    {
        let v = fps_choice(i);
        let label = number_label(v as u64, " FPS");
        r.push(item(MENU_FPS_BASE + i, &label, current == v));
    }
    r
}

/// The quality submenu: "55%" and so on, the current quality ticked.
pub fn quality_items(current: u8) -> (r: Vec<MenuItem>)
    ensures
        quality_menu(r@, current),
{
    let mut r: Vec<MenuItem> = Vec::new();
    for i in 0..4usize
        invariant
            r@.len() == i,
            forall|k: int|
                0 <= k < i ==> item_is(
                    #[trigger] r@[k],
                    MENU_QUALITY_BASE + k,
                    decimal(quality_choices()[k] as nat) + "%"@,
                    current == quality_choices()[k],
                ),
    {
        let v = quality_choice(i);
        let label = number_label(v as u64, "%");
        r.push(item(MENU_QUALITY_BASE + i, &label, current == v));
    }
    r
}

/// The brightness submenu: "25%" and so on, the current level ticked.
pub fn brightness_items(current: u8) -> (r: Vec<MenuItem>)
    ensures
        brightness_menu(r@, current),
{
    let mut r: Vec<MenuItem> = Vec::new();
    for i in 0..4usize
        invariant
            r@.len() == i,
            forall|k: int|
                0 <= k < i ==> item_is(
                    #[trigger] r@[k],
                    MENU_BRIGHTNESS_BASE + k,
                    decimal(brightness_choices()[k] as nat) + "%"@,
                    current == brightness_choices()[k],
                ),
    {
        let v = brightness_choice(i);
        let label = number_label(v as u64, "%");
        r.push(item(MENU_BRIGHTNESS_BASE + i, &label, current == v));
    }
    r
}

/// The rotation submenu: "0°" and so on, the current rotation ticked.
pub fn rotation_items(current: u16) -> (r: Vec<MenuItem>)
    ensures
        rotation_menu(r@, current),
{
    let mut r: Vec<MenuItem> = Vec::new();
    for i in 0..4usize
        invariant
            r@.len() == i,
            forall|k: int|
                0 <= k < i ==> item_is(
                    #[trigger] r@[k],
                    MENU_ROTATION_BASE + k,
                    decimal(rotation_choices()[k] as nat) + "\u{b0}"@,
                    current == rotation_choices()[k],
                ),
    {
        let v = rotation_choice(i);
        let label = number_label(v as u64, "\u{b0}");
        r.push(item(MENU_ROTATION_BASE + i, &label, current == v));
    }
    r
}

/// The view submenu: the view modes by label, the current one ticked.
pub fn view_items(current: ViewMode) -> (r: Vec<MenuItem>)
    ensures
        view_menu(r@, current),
{
    let mut r: Vec<MenuItem> = Vec::new();
    for i in 0..4usize
        invariant
            r@.len() == i,
            forall|k: int|
                0 <= k < i ==> item_is(
                    #[trigger] r@[k],
                    MENU_VIEW_BASE + k,
                    view_mode_label(view_choices()[k]),
                    current == view_choices()[k],
                ),
    {
        let v = view_choice(i);
        r.push(literal_item(MENU_VIEW_BASE + i, v.label(), current == v));
    }
    r
}

/// The menu for the current settings and startup registration.
pub fn tray_menu(settings: &Settings, startup_enabled: bool) -> (m: TrayMenu)
    ensures
        item_is(m.toggle, MENU_TOGGLE as int, "On/Off"@, settings.streaming),
        item_is(m.show_mouse, MENU_SHOW_MOUSE as int, "Show mouse"@, settings.show_mouse),
        fps_menu(m.frame_rate@, settings.fps),
        quality_menu(m.quality@, settings.quality),
        brightness_menu(m.brightness@, settings.brightness),
        rotation_menu(m.rotation@, settings.rotation),
        view_menu(m.view@, settings.view_mode),
        item_is(m.startup, MENU_STARTUP as int, "Start with Windows"@, startup_enabled),
        item_is(m.exit, MENU_EXIT as int, "Exit"@, false),
{
    TrayMenu {
        toggle: literal_item(MENU_TOGGLE, "On/Off", settings.streaming),
        show_mouse: literal_item(MENU_SHOW_MOUSE, "Show mouse", settings.show_mouse),
        frame_rate: frame_rate_items(settings.fps),
        quality: quality_items(settings.quality),
        brightness: brightness_items(settings.brightness),
        rotation: rotation_items(settings.rotation),
        view: view_items(settings.view_mode),
        startup: literal_item(MENU_STARTUP, "Start with Windows", startup_enabled),
        exit: literal_item(MENU_EXIT, "Exit", false),
    }
}

// ---------------------------------------------------------------------
// Switching streaming on and off

/// What clicking the tray icon (or the on/off entry) does.
#[derive(Clone, Copy, Debug, PartialEq, Eq, Structural)]
pub enum ToggleStep {
    /// Streaming is on: stop the worker, remove the virtual display, save.
    TurnOff,
    /// Streaming is off: bring up the virtual display first.
    Activate,
}

/// The step a toggle takes from the current state.
pub fn toggle_step(streaming: bool) -> (t: ToggleStep)
    ensures
        t == (if streaming { ToggleStep::TurnOff } else { ToggleStep::Activate }),
{
    if streaming {
        ToggleStep::TurnOff
    } else {
        ToggleStep::Activate
    }
}

/// Streaming was switched off.
pub fn turned_off(settings: &mut Settings)
    ensures
        final(settings)@ == (crate::settings::SettingsView { streaming: false, ..old(settings)@ }),
{
    settings.streaming = false;
}

/// The outcome of bringing up the virtual display, when toggling on or at
/// startup with streaming saved as on: streaming is on exactly when it came
/// up; otherwise its error is returned to be shown.
pub fn activation_result(settings: &mut Settings, result: Result<(), String>) -> (error: Option<
    String,
>)
    ensures
        final(settings)@ == (crate::settings::SettingsView {
            streaming: result is Ok,
            ..old(settings)@
        }),
        match result {
            Ok(()) => error is None,
            Err(e) => error matches Some(shown) && shown@ == e@,
        },
{
    match result {
        Ok(()) => {
            settings.streaming = true;
            None
        },
        Err(e) => {
            settings.streaming = false;
            Some(e)
        },
    }
}

/// After a display change: the first non-primary 480x480 display becomes
/// the configured monitor. Returns whether one was found (the settings are
/// then applied and saved).
pub fn adopt_lcd_monitor(settings: &mut Settings, monitors: &Vec<MonitorInfo>) -> (found: bool)
    ensures
        found == (exists|k: int| 0 <= k < monitors@.len() && crate::stream::matches_tier(
            #[trigger] monitors@[k],
            1,
            Seq::empty(),
        )),
        found ==> exists|k: usize|
            #[trigger] first_match(monitors@, 1, Seq::empty(), Some(k)) && final(settings)@ == (
            crate::settings::SettingsView { monitor: monitors@[k as int].device_name@, ..old(settings)@ }),
        !found ==> final(settings)@ == old(settings)@,
{
    match lcd_monitor(monitors) {
        Some(i) => {
            settings.monitor = monitors[i].device_name.clone();
            assert(first_match(monitors@, 1, Seq::empty(), Some(i)));
            true
        },
        None => false,
    }
}

} // verus!
