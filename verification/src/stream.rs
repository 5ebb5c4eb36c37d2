//! Monitors seen by the capture worker, which one is streamed, and the
//! decisions the streaming worker takes on every cycle.

use vstd::prelude::*;
use crate::settings::{default_settings, Settings, SettingsView, ViewMode};
use crate::text::{contains, contains_seq, push_signed, push_str, signed_decimal, string_of};

verus! {

// ---------------------------------------------------------------------
// Monitors

/// A display as Windows reports it: device name, a label for the user, its
/// desktop rectangle and whether it is the primary display.
pub struct MonitorInfo {
    pub device_name: String,
    pub label: String,
    pub left: i32,
    pub top: i32,
    pub right: i32,
    pub bottom: i32,
    pub primary: bool,
}

/// The label of a monitor: the LCD's own virtual display (480x480, not
/// primary) is named after the cooler; any other one shows its device name,
/// size and whether it is primary.
pub open spec fn monitor_label(name: Seq<char>, width: int, height: int, primary: bool) -> Seq<char> {
    if width == 480 && height == 480 && !primary {
        "Corsair Elite LCD ("@ + signed_decimal(width) + "x"@ + signed_decimal(height) + ")"@
    } else {
        name + " - "@ + signed_decimal(width) + "x"@ + signed_decimal(height) + (if primary {
            " (Primary)"@
        } else {
            ""@
        })
    }
}

/// `a - b` as 32-bit subtraction computes it, wrapping around on overflow.
pub open spec fn wrapping_diff(a: i32, b: i32) -> int {
    ((a - b) as i32) as int
}

impl MonitorInfo {
    pub open spec fn width_spec(&self) -> int {
        wrapping_diff(self.right, self.left)
    }

    pub open spec fn height_spec(&self) -> int {
        wrapping_diff(self.bottom, self.top)
    }

    /// The monitor has the LCD's 480x480 size.
    pub open spec fn lcd_sized(&self) -> bool {
        self.width_spec() == 480 && self.height_spec() == 480
    }

    /// Width in pixels: `right - left` in 32-bit arithmetic.
    pub fn width(&self) -> (w: i32)
        ensures
            w == self.width_spec(),
    {
        ((self.right as i64) - (self.left as i64)) as i32
    }

    /// Height in pixels: `bottom - top` in 32-bit arithmetic.
    pub fn height(&self) -> (h: i32)
        ensures
            h == self.height_spec(),
    {
        ((self.bottom as i64) - (self.top as i64)) as i32
    }

    fn is_lcd_sized(&self) -> (r: bool)
        ensures
            r == self.lcd_sized(),
    {
        self.width() == 480 && self.height() == 480
    }

    /// The size of the monitor's desktop surface, when it has one: both
    /// width and height positive. Without one nothing can be captured.
    pub fn surface(&self) -> (r: Option<(i32, i32)>)
        ensures
            r == (if self.width_spec() > 0 && self.height_spec() > 0 {
                Some((self.width_spec() as i32, self.height_spec() as i32))
            } else {
                None
            }),
    {
        let w = self.width();
        let h = self.height();
        if w > 0 && h > 0 { Some((w, h)) } else { None }
    }

    /// A monitor from what Windows reports of it; the label is derived.
    pub fn new(device_name: String, left: i32, top: i32, right: i32, bottom: i32, primary: bool) -> (m:
        MonitorInfo)
        ensures
            m.device_name@ == device_name@,
            m.left == left && m.top == top && m.right == right && m.bottom == bottom,
            m.primary == primary,
            m.label@ == monitor_label(device_name@, wrapping_diff(right, left), wrapping_diff(bottom, top), primary),
    {
        let width: i64 = (((right as i64) - (left as i64)) as i32) as i64;
        let height: i64 = (((bottom as i64) - (top as i64)) as i32) as i64;
        let mut v: Vec<char> = Vec::new();
        if width == 480 && height == 480 && !primary {
            push_str(&mut v, "Corsair Elite LCD (");
            push_signed(&mut v, width);
            push_str(&mut v, "x");
            push_signed(&mut v, height);
            push_str(&mut v, ")");
        } else {
            push_str(&mut v, device_name.as_str());
            push_str(&mut v, " - ");
            push_signed(&mut v, width);
            push_str(&mut v, "x");
            push_signed(&mut v, height);
            if primary {
                push_str(&mut v, " (Primary)");
            } else {
                push_str(&mut v, "");
            }
        }
        let label = string_of(&v);
        MonitorInfo { device_name, label, left, top, right, bottom, primary }
    }
}

fn copy_monitor(m: &MonitorInfo) -> (r: MonitorInfo)
    ensures
        r == *m,
{
    MonitorInfo {
        device_name: m.device_name.clone(),
        label: m.label.clone(),
        left: m.left,
        top: m.top,
        right: m.right,
        bottom: m.bottom,
        primary: m.primary,
    }
}

/// Where a monitor goes in the list: 480x480 displays first, and within
/// each size class the primary display first.
pub open spec fn monitor_rank(m: MonitorInfo) -> int {
    (if m.lcd_sized() { 0int } else { 2int }) + (if m.primary { 0int } else { 1int })
}

/// The monitors of rank `r`, in their original order.
pub open spec fn ranked(s: Seq<MonitorInfo>, r: int) -> Seq<MonitorInfo>
    decreases s.len(),
{
    if s.len() == 0 {
        Seq::empty()
    } else if monitor_rank(s.last()) == r {
        ranked(s.drop_last(), r).push(s.last())
    } else {
        ranked(s.drop_last(), r)
    }
}

/// The monitor list in the order the capture worker considers it: stably
/// sorted by rank.
pub open spec fn monitor_order(s: Seq<MonitorInfo>) -> Seq<MonitorInfo> {
    ranked(s, 0) + ranked(s, 1) + ranked(s, 2) + ranked(s, 3)
}

fn rank_of(m: &MonitorInfo) -> (r: u8)
    ensures
        r == monitor_rank(*m),
{
    let size: u8 = if m.is_lcd_sized() { 0 } else { 2 };
    let primary: u8 = if m.primary { 0 } else { 1 };
    size + primary
}

fn push_ranked(out: &mut Vec<MonitorInfo>, s: &Vec<MonitorInfo>, rank: u8)
    ensures
        final(out)@ == old(out)@ + ranked(s@, rank as int),
{
    let ghost start = out@;
    for i in 0..s.len()
        invariant
            out@ == start + ranked(s@.take(i as int), rank as int),
    {
        assert(s@.take(i as int + 1).drop_last() =~= s@.take(i as int));
        assert(s@.take(i as int + 1).last() == s@[i as int]);
        if rank_of(&s[i]) == rank {
            let m = copy_monitor(&s[i]);
            out.push(m);
            assert(out@ =~= start + ranked(s@.take(i as int + 1), rank as int));
        }
    }
    assert(s@.take(s@.len() as int) =~= s@);
}

/// Orders the monitors as the capture worker considers them (see
/// `monitor_order`).
pub fn sort_monitors(monitors: Vec<MonitorInfo>) -> (r: Vec<MonitorInfo>)
    ensures
        r@ == monitor_order(monitors@),
{
    let mut out: Vec<MonitorInfo> = Vec::new();
    push_ranked(&mut out, &monitors, 0);
    push_ranked(&mut out, &monitors, 1);
    push_ranked(&mut out, &monitors, 2);
    push_ranked(&mut out, &monitors, 3);
    assert(out@ =~= monitor_order(monitors@));
    out
}

proof fn lemma_ranked_props(s: Seq<MonitorInfo>, r: int)
    ensures
        forall|i: int| 0 <= i < ranked(s, r).len() ==> monitor_rank(#[trigger] ranked(s, r)[i]) == r,
        ranked(ranked(s, r), r) == ranked(s, r),
        forall|q: int| q != r ==> #[trigger] ranked(ranked(s, r), q) == Seq::<MonitorInfo>::empty(),
    decreases s.len(),
{
    if s.len() > 0 {
        lemma_ranked_props(s.drop_last(), r);
        let t = ranked(s.drop_last(), r);
        if monitor_rank(s.last()) == r {
            assert(ranked(s, r).drop_last() =~= t);
            assert forall|q: int| q != r implies #[trigger] ranked(ranked(s, r), q) == Seq::<
                MonitorInfo,
            >::empty() by {
                assert(ranked(ranked(s, r), q) == ranked(t, q));
            }
        }
    }
}

proof fn lemma_ranked_add(a: Seq<MonitorInfo>, b: Seq<MonitorInfo>, r: int)
    ensures
        ranked(a + b, r) == ranked(a, r) + ranked(b, r),
    decreases b.len(),
{
    if b.len() == 0 {
        assert(a + b =~= a);
        assert(ranked(a, r) + ranked(b, r) =~= ranked(a, r));
    } else {
        lemma_ranked_add(a, b.drop_last(), r);
        assert((a + b).drop_last() =~= a + b.drop_last());
        assert((a + b).last() == b.last());
        if monitor_rank(b.last()) == r {
            assert(ranked(a, r) + ranked(b, r) =~= (ranked(a, r) + ranked(b.drop_last(), r)).push(
                b.last(),
            ));
        }
    }
}

proof fn lemma_ranked_len(s: Seq<MonitorInfo>)
    ensures
        ranked(s, 0).len() + ranked(s, 1).len() + ranked(s, 2).len() + ranked(s, 3).len() == s.len(),
    decreases s.len(),
{
    if s.len() > 0 {
        lemma_ranked_len(s.drop_last());
    }
}

/// Ordering law: the ordered list holds exactly the monitors of the original
/// list (as many, and, rank by rank, the same ones in the same order), and
/// their ranks never decrease along it.
pub proof fn lemma_monitor_order(s: Seq<MonitorInfo>)
    ensures
        monitor_order(s).len() == s.len(),
        forall|r: int| 0 <= r < 4 ==> #[trigger] ranked(monitor_order(s), r) == ranked(s, r),
        forall|i: int, j: int|
            0 <= i < j < s.len() ==> monitor_rank(#[trigger] monitor_order(s)[i]) <= monitor_rank(
                #[trigger] monitor_order(s)[j],
            ),
{
    let a = ranked(s, 0);
    let b = ranked(s, 1);
    let c = ranked(s, 2);
    let d = ranked(s, 3);
    lemma_ranked_len(s);
    lemma_ranked_props(s, 0);
    lemma_ranked_props(s, 1);
    lemma_ranked_props(s, 2);
    lemma_ranked_props(s, 3);
    assert forall|r: int| 0 <= r < 4 implies #[trigger] ranked(monitor_order(s), r) == ranked(s, r) by {
        lemma_ranked_add(a, b, r);
        lemma_ranked_add(a + b, c, r);
        lemma_ranked_add(a + b + c, d, r);
        assert(ranked(a, r) + ranked(b, r) + ranked(c, r) + ranked(d, r) =~= ranked(s, r)) by {
            if r == 0 {
                assert(ranked(a, 0) + ranked(b, 0) + ranked(c, 0) + ranked(d, 0) =~= a);
            } else if r == 1 {
                assert(ranked(a, 1) + ranked(b, 1) + ranked(c, 1) + ranked(d, 1) =~= b);
            } else if r == 2 {
                assert(ranked(a, 2) + ranked(b, 2) + ranked(c, 2) + ranked(d, 2) =~= c);
            } else {
                assert(ranked(a, 3) + ranked(b, 3) + ranked(c, 3) + ranked(d, 3) =~= d);
            }
        }
    }
    let o = monitor_order(s);
    assert forall|i: int| 0 <= i < o.len() implies #[trigger] monitor_rank(o[i]) == (if i < a.len() {
        0int
    } else if i < a.len() + b.len() {
        1int
    } else if i < a.len() + b.len() + c.len() {
        2int
    } else {
        3int
    }) by {
        if i < a.len() {
            assert(o[i] == a[i]);
        } else if i < a.len() + b.len() {
            assert(o[i] == b[i - a.len()]);
        } else if i < a.len() + b.len() + c.len() {
            assert(o[i] == c[i - a.len() - b.len()]);
        } else {
            assert(o[i] == d[i - a.len() - b.len() - c.len()]);
        }
    }
}

/// Which monitors qualify at a preference tier: all of them must be
/// 480x480; tiers 0 and 1 also exclude the primary display, and tier 0
/// asks for the configured device name.
pub open spec fn matches_tier(m: MonitorInfo, tier: int, wanted: Seq<char>) -> bool {
    &&& m.lcd_sized()
    &&& (tier <= 1 ==> !m.primary)
    &&& (tier == 0 ==> m.device_name@ == wanted)
}

/// `r` is the first monitor of `s` that qualifies at `tier`, or `None` when
/// none does.
pub open spec fn first_match(s: Seq<MonitorInfo>, tier: int, wanted: Seq<char>, r: Option<usize>) -> bool {
    match r {
        Some(i) => i < s.len() && matches_tier(s[i as int], tier, wanted) && forall|k: int|
            0 <= k < i ==> !matches_tier(#[trigger] s[k], tier, wanted),
        None => forall|k: int| 0 <= k < s.len() ==> !matches_tier(#[trigger] s[k], tier, wanted),
    }
}

pub open spec fn any_match(s: Seq<MonitorInfo>, tier: int, wanted: Seq<char>) -> bool {
    exists|k: int| 0 <= k < s.len() && matches_tier(#[trigger] s[k], tier, wanted)
}

fn find_in_tier(monitors: &Vec<MonitorInfo>, tier: u8, wanted: &String) -> (r: Option<usize>)
    requires
        tier <= 2,
    ensures
        first_match(monitors@, tier as int, wanted@, r),
{
    for i in 0..monitors.len()
        invariant
            tier <= 2,
            forall|k: int| 0 <= k < i ==> !matches_tier(#[trigger] monitors@[k], tier as int, wanted@),
    {
        let m = &monitors[i];
        let fits = m.is_lcd_sized() && (tier == 2 || !m.primary) && (tier != 0 || m.device_name
            == *wanted);
        if fits {
            return Some(i);
        }
    }
    None
}

/// The monitor the worker streams: the configured one when it is a
/// non-primary 480x480 display, else the first non-primary 480x480 display,
/// else the first 480x480 display; `None` when there is none.
pub fn select_monitor(monitors: &Vec<MonitorInfo>, wanted: &String) -> (r: Option<usize>)
    ensures
        if any_match(monitors@, 0, wanted@) {
            first_match(monitors@, 0, wanted@, r)
        } else if any_match(monitors@, 1, wanted@) {
            first_match(monitors@, 1, wanted@, r)
        } else {
            first_match(monitors@, 2, wanted@, r)
        },
{
    let first = find_in_tier(monitors, 0, wanted);
    if first.is_some() {
        return first;
    }
    let second = find_in_tier(monitors, 1, wanted);
    if second.is_some() {
        return second;
    }
    find_in_tier(monitors, 2, wanted)
}

/// The display the tray adopts as the LCD after a display change: the first
/// non-primary 480x480 one.
pub fn lcd_monitor(monitors: &Vec<MonitorInfo>) -> (r: Option<usize>)
    ensures
        first_match(monitors@, 1, Seq::empty(), r),
{
    let none = String::new();
    find_in_tier(monitors, 1, &none)
}

// ---------------------------------------------------------------------
// The streaming worker

/// The settings that shape a frame; when one changes, the next frame is
/// sent even if the desktop did not change.
#[derive(Clone, Copy, Debug, PartialEq, Eq, Structural)]
pub struct RenderConfig {
    pub brightness: u8,
    pub rotation: u16,
    pub view_mode: ViewMode,
    pub show_mouse: bool,
    pub quality: u8,
}

pub open spec fn render_of(s: SettingsView) -> RenderConfig {
    RenderConfig {
        brightness: s.brightness,
        rotation: s.rotation,
        view_mode: s.view_mode,
        show_mouse: s.show_mouse,
        quality: s.quality,
    }
}

/// The frame-shaping part of the settings.
pub fn render_config(s: &Settings) -> (c: RenderConfig)
    ensures
        c == render_of(s@),
{
    RenderConfig {
        brightness: s.brightness,
        rotation: s.rotation,
        view_mode: s.view_mode,
        show_mouse: s.show_mouse,
        quality: s.quality,
    }
}

/// Frames sent unconditionally after (re)connecting or resuming, so the
/// LCD never keeps showing a stale picture.
pub const FRESH_FRAMES: u32 = 30;

/// What the worker does at the start of a cycle.
#[derive(Clone, Copy, Debug, PartialEq, Eq, Structural)]
pub enum RunStep {
    /// Streaming is off: release the device, reset the capture source,
    /// report "Off" and wait.
    Off,
    /// Streaming was just switched on: reset the capture source and report
    /// that the second screen is resuming.
    Resumed,
    /// Streaming goes on.
    Running,
}

/// Whether an error text names a device failure, after which the device is
/// reopened.
pub open spec fn is_device_error(message: Seq<char>) -> bool {
    contains_seq(message, "WriteFile"@) || contains_seq(message, "device"@)
}

/// Whether a failure drops the device connection (see `is_device_error`).
pub fn device_error(message: &str) -> (r: bool)
    ensures
        r == is_device_error(message@),
{
    let m = crate::text::chars_of(message);
    let write_file = crate::text::chars_of("WriteFile");
    let device = crate::text::chars_of("device");
    contains(&m, &write_file) || contains(&m, &device)
}

/// The frame rate the worker paces itself to: the setting, within 1..=30
/// (the LCD shows at most 30 frames a second).
pub fn effective_fps(fps: u32) -> (r: u32)
    ensures
        r == (if fps < 1 { 1 } else if fps > 30 { 30 } else { fps }),
{
    if fps < 1 {
        1
    } else if fps > 30 {
        30
    } else {
        fps
    }
}

/// Frame pacing, with times in nanoseconds from one origin: the wait before
/// the next frame and the deadline after it. A frame that is due (or late)
/// goes at once and the schedule restarts one period from now, so time lost
/// is never made up with a burst of frames; an early one waits for its
/// deadline and the schedule keeps its rhythm.
pub open spec fn pace_spec(now: int, next: int, target: int) -> (int, int) {
    if now >= next { (0, now + target) } else { (next - now, next + target) }
}

/// One step of frame pacing (see `pace_spec`): how long to wait, and the
/// deadline of the frame after this one, which always lies one period after
/// the moment this frame goes.
pub fn pace(now_ns: u64, next_ns: u64, target_ns: u64) -> (r: (u64, u64))
    requires
        now_ns + target_ns <= u64::MAX,
        next_ns + target_ns <= u64::MAX,
    ensures
        now_ns >= next_ns ==> r == (0u64, (now_ns + target_ns) as u64),
        now_ns < next_ns ==> r == ((next_ns - now_ns) as u64, (next_ns + target_ns) as u64),
        (r.0 as int, r.1 as int) == pace_spec(now_ns as int, next_ns as int, target_ns as int),
        r.1 == now_ns + r.0 + target_ns,
{
    if now_ns >= next_ns {
        (0, now_ns + target_ns)
    } else {
        (next_ns - now_ns, next_ns + target_ns)
    }
}

/// Rate law: when each pacing step starts no earlier than the previous
/// frame went, consecutive frames go at least one period apart, so the
/// worker never exceeds its frame rate.
pub proof fn lemma_pace_spacing(now1: int, next1: int, now2: int, target: int)
    requires
        target >= 0,
        now2 >= now1 + pace_spec(now1, next1, target).0,
    ensures
        now2 + pace_spec(now2, pace_spec(now1, next1, target).1, target).0
            >= now1 + pace_spec(now1, next1, target).0 + target,
{
}

/// Debt law: however late a frame is, it goes at once and the next one is
/// due exactly one period later.
pub proof fn lemma_pace_drops_debt(now: int, next: int, target: int)
    requires
        now >= next,
    ensures
        pace_spec(now, next, target) == (0int, now + target),
{
}

/// How close to a deadline the worker stops sleeping and spins: 0.5 ms.
pub const SPIN_WINDOW_NS: u64 = 500000;

/// How long to sleep of a wait before spinning out the rest: all but the
/// spin window, or nothing when the wait is within it.
pub fn coarse_sleep_ns(wait_ns: u64) -> (r: u64)
    ensures
        r == (if wait_ns > SPIN_WINDOW_NS { wait_ns - SPIN_WINDOW_NS } else { 0 }),
{
    if wait_ns > SPIN_WINDOW_NS { wait_ns - SPIN_WINDOW_NS } else { 0 }
}

/// Delay before opening the device again after opening it failed.
pub const RETRY_OPEN_MS: u64 = 2000;
/// Delay before reopening the device after a device error.
pub const RETRY_DEVICE_ERROR_MS: u64 = 1000;

fn bytes_equal(a: &[u8], b: &[u8]) -> (r: bool)
    ensures
        r == (a@ == b@),
{
    if a.len() != b.len() {
        return false;
    }
    for i in 0..a.len()
        invariant
            a@.len() == b@.len(),
            forall|k: int| 0 <= k < i ==> a@[k] == b@[k],
    {
        if a[i] != b[i] {
            return false;
        }
    }
    assert(a@ =~= b@);
    true
}

/// The streaming worker's memory between cycles.
pub struct StreamState {
    /// Whether streaming was on in the previous cycle.
    pub was_running: bool,
    /// How many more frames are sent even when unchanged.
    pub fresh_frames: u32,
    /// The last frame sent, or nothing when the next one must be sent.
    pub previous: Vec<u8>,
    /// The frame-shaping settings the last frames were made with.
    pub last_config: RenderConfig,
    /// When (in milliseconds on the worker's clock) the device may next be
    /// opened.
    pub next_connect_ms: u64,
}

impl StreamState {
    /// The state a worker starts in.
    pub fn new(running: bool) -> (s: StreamState)
        ensures
            s.was_running == running,
            s.fresh_frames == FRESH_FRAMES,
            s.previous@.len() == 0,
            s.last_config == render_of(default_settings()),
            s.next_connect_ms == 0,
    {
        StreamState {
            was_running: running,
            fresh_frames: FRESH_FRAMES,
            previous: Vec::new(),
            last_config: RenderConfig {
                brightness: 100,
                rotation: 0,
                view_mode: ViewMode::Native,
                show_mouse: false,
                quality: 65,
            },
            next_connect_ms: 0,
        }
    }

    /// Start of a cycle, with whether streaming is on now. A switch either
    /// way forgets the last frame; switching on also renews the fresh
    /// frames; while off nothing is remembered.
    pub fn begin_cycle(&mut self, is_running: bool) -> (step: RunStep)
        ensures
            step == (if !is_running {
                RunStep::Off
            } else if !old(self).was_running {
                RunStep::Resumed
            } else {
                RunStep::Running
            }),
            final(self).was_running == is_running,
            final(self).fresh_frames == (if is_running && !old(self).was_running {
                FRESH_FRAMES
            } else {
                old(self).fresh_frames
            }),
            final(self).previous@ == (if is_running && old(self).was_running {
                old(self).previous@
            } else {
                Seq::<u8>::empty()
            }),
            final(self).last_config == old(self).last_config,
            final(self).next_connect_ms == old(self).next_connect_ms,
    {
        let mut step = RunStep::Running;
        if is_running != self.was_running {
            self.was_running = is_running;
            self.previous = Vec::new();
            if is_running {
                self.fresh_frames = FRESH_FRAMES;
                step = RunStep::Resumed;
            }
        }
        if !is_running {
            self.previous = Vec::new();
            step = RunStep::Off;
        }
        step
    }

    /// The device was (re)opened: the next frames are sent fresh.
    pub fn connected(&mut self)
        ensures
            final(self).previous@.len() == 0,
            final(self).fresh_frames == FRESH_FRAMES,
            final(self).was_running == old(self).was_running,
            final(self).last_config == old(self).last_config,
            final(self).next_connect_ms == old(self).next_connect_ms,
    {
        self.previous = Vec::new();
        self.fresh_frames = FRESH_FRAMES;
    }

    /// Takes the current settings. Returns whether the brightness changed
    /// (the device is told so); any change of a frame-shaping setting
    /// forgets the last frame.
    pub fn apply_config(&mut self, config: RenderConfig) -> (set_brightness: bool)
        ensures
            set_brightness == (config.brightness != old(self).last_config.brightness),
            final(self).last_config == config,
            final(self).previous@ == (if config != old(self).last_config {
                Seq::<u8>::empty()
            } else {
                old(self).previous@
            }),
            final(self).fresh_frames == old(self).fresh_frames,
            final(self).was_running == old(self).was_running,
            final(self).next_connect_ms == old(self).next_connect_ms,
    {
        let set_brightness = config.brightness != self.last_config.brightness;
        if config != self.last_config {
            self.previous = Vec::new();
            self.last_config = config;
        }
        set_brightness
    }

    /// No 480x480 display is there to stream: the last frame is forgotten.
    pub fn no_monitor(&mut self)
        ensures
            final(self).previous@.len() == 0,
            final(self).fresh_frames == old(self).fresh_frames,
            final(self).was_running == old(self).was_running,
            final(self).last_config == old(self).last_config,
            final(self).next_connect_ms == old(self).next_connect_ms,
    {
        self.previous = Vec::new();
    }

    /// Whether a captured frame is sent: when nothing was sent since the
    /// last reset, while fresh frames remain, when it differs from the last
    /// frame sent, or when the once-a-second keepalive is due. Uses up one
    /// fresh frame.
    pub fn frame_due(&mut self, pixels: &[u8], keepalive_due: bool) -> (send: bool)
        ensures
            send == (old(self).previous@.len() == 0 || old(self).fresh_frames > 0 || old(
                self,
            ).previous@ != pixels@ || keepalive_due),
            final(self).fresh_frames == (if old(self).fresh_frames > 0 {
                old(self).fresh_frames - 1
            } else {
                0
            }),
            final(self).previous@ == old(self).previous@,
            final(self).was_running == old(self).was_running,
            final(self).last_config == old(self).last_config,
            final(self).next_connect_ms == old(self).next_connect_ms,
    {
        let dirty = self.previous.len() == 0 || self.fresh_frames > 0 || !bytes_equal(
            self.previous.as_slice(),
            pixels,
        );
        if self.fresh_frames > 0 {
            self.fresh_frames = self.fresh_frames - 1;
        }
        dirty || keepalive_due
    }

    /// A frame was sent: it becomes the last frame.
    pub fn frame_sent(&mut self, pixels: &[u8])
        ensures
            final(self).previous@ == pixels@,
            final(self).fresh_frames == old(self).fresh_frames,
            final(self).was_running == old(self).was_running,
            final(self).last_config == old(self).last_config,
            final(self).next_connect_ms == old(self).next_connect_ms,
    {
        self.previous = vstd::slice::slice_to_vec(pixels);
    }

    /// A capture, encoding or send failed at `now_ms`: the last frame is
    /// forgotten, and the result says whether the device must be reopened,
    /// which is then tried again 1 s later.
    pub fn frame_failed(&mut self, message: &str, now_ms: u64) -> (drop_device: bool)
        requires
            now_ms + RETRY_DEVICE_ERROR_MS <= u64::MAX,
        ensures
            drop_device == is_device_error(message@),
            final(self).previous@.len() == 0,
            final(self).fresh_frames == old(self).fresh_frames,
            final(self).was_running == old(self).was_running,
            final(self).last_config == old(self).last_config,
            final(self).next_connect_ms == (if drop_device {
                now_ms + RETRY_DEVICE_ERROR_MS
            } else {
                old(self).next_connect_ms as int
            }),
    {
        self.previous = Vec::new();
        let drop_device = device_error(message);
        if drop_device {
            self.next_connect_ms = now_ms + RETRY_DEVICE_ERROR_MS;
        }
        drop_device
    }

    /// Whether the device is to be opened at `now_ms`: it is not open and
    /// its retry time has come.
    pub fn connect_due(&self, open: bool, now_ms: u64) -> (r: bool)
        ensures
            r == (!open && now_ms >= self.next_connect_ms),
    {
        !open && now_ms >= self.next_connect_ms
    }

    /// Opening the device failed at `now_ms`: it is tried again 2 s later.
    pub fn open_failed(&mut self, now_ms: u64)
        requires
            now_ms + RETRY_OPEN_MS <= u64::MAX,
        ensures
            final(self).next_connect_ms == now_ms + RETRY_OPEN_MS,
            final(self).previous@ == old(self).previous@,
            final(self).fresh_frames == old(self).fresh_frames,
            final(self).was_running == old(self).was_running,
            final(self).last_config == old(self).last_config,
    {
        self.next_connect_ms = now_ms + RETRY_OPEN_MS;
    }
}

} // verus!
