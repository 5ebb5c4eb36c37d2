//! User settings: the view modes, the defaults, the `settings.ini` text the
//! application writes, and how that text is read back.

use vstd::prelude::*;
use crate::text::{
    all_digits, ascii_lower, chars_equal, chars_of, decimal, digits_value, is_digit, is_space,
    parse_unsigned, parse_unsigned_exec, push_all, push_decimal, push_str, slice_chars, string_of,
    to_ascii_lower, trim, trim_chars, trim_end_index, trim_start_index, unsigned_digits,
};

verus! {

/// How the captured desktop is scaled onto the LCD.
#[derive(Clone, Copy, Debug, PartialEq, Eq, Structural)]
pub enum ViewMode {
    Native,
    Zoom4x3,
    Zoom16x10,
    Zoom16x9,
}

/// The menu label of a view mode.
pub open spec fn view_mode_label(v: ViewMode) -> Seq<char> {
    match v {
        ViewMode::Native => "Native"@,
        ViewMode::Zoom4x3 => "4:3 zoom"@,
        ViewMode::Zoom16x10 => "16:10 zoom"@,
        ViewMode::Zoom16x9 => "16:9 zoom"@,
    }
}

/// The value stored in `settings.ini` for a view mode.
pub open spec fn view_mode_value(v: ViewMode) -> Seq<char> {
    match v {
        ViewMode::Native => "native"@,
        ViewMode::Zoom4x3 => "4:3"@,
        ViewMode::Zoom16x10 => "16:10"@,
        ViewMode::Zoom16x9 => "16:9"@,
    }
}

/// The view mode a stored value selects: the three zoom ratios by name
/// (after trimming whitespace); anything else is native.
pub open spec fn view_mode_from(value: Seq<char>) -> ViewMode {
    let t = trim(value);
    if t == "4:3"@ {
        ViewMode::Zoom4x3
    } else if t == "16:10"@ {
        ViewMode::Zoom16x10
    } else if t == "16:9"@ {
        ViewMode::Zoom16x9
    } else {
        ViewMode::Native
    }
}

fn chars_are(v: &Vec<char>, lit: &str) -> (r: bool)
    ensures
        r == (v@ == lit@),
{
    let l = chars_of(lit);
    chars_equal(v, &l)
}

impl ViewMode {
    /// Every view mode, in menu order.
    pub fn all() -> (r: [ViewMode; 4])
        ensures
            r@ == seq![ViewMode::Native, ViewMode::Zoom4x3, ViewMode::Zoom16x10, ViewMode::Zoom16x9],
    {
        let r = [ViewMode::Native, ViewMode::Zoom4x3, ViewMode::Zoom16x10, ViewMode::Zoom16x9];
        assert(r@ =~= seq![ViewMode::Native, ViewMode::Zoom4x3, ViewMode::Zoom16x10, ViewMode::Zoom16x9]);
        r
    }

    /// The menu label of this view mode.
    pub fn label(self) -> (s: &'static str)
        ensures
            s@ == view_mode_label(self),
    {
        match self {
            ViewMode::Native => "Native",
            ViewMode::Zoom4x3 => "4:3 zoom",
            ViewMode::Zoom16x10 => "16:10 zoom",
            ViewMode::Zoom16x9 => "16:9 zoom",
        }
    }

    /// The value stored in `settings.ini` for this view mode.
    pub fn setting_value(self) -> (s: &'static str)
        ensures
            s@ == view_mode_value(self),
    {
        match self {
            ViewMode::Native => "native",
            ViewMode::Zoom4x3 => "4:3",
            ViewMode::Zoom16x10 => "16:10",
            ViewMode::Zoom16x9 => "16:9",
        }
    }

    /// The view mode a stored value selects.
    pub fn from_setting(value: &str) -> (v: ViewMode)
        ensures
            v == view_mode_from(value@),
    {
        let chars = chars_of(value);
        let t = trim_chars(&chars);
        if chars_are(&t, "4:3") {
            ViewMode::Zoom4x3
        } else if chars_are(&t, "16:10") {
            ViewMode::Zoom16x10
        } else if chars_are(&t, "16:9") {
            ViewMode::Zoom16x9
        } else {
            ViewMode::Native
        }
    }
}

/// The application's settings.
#[derive(Debug)]
pub struct Settings {
    pub monitor: String,
    pub fps: u32,
    pub quality: u8,
    pub brightness: u8,
    pub rotation: u16,
    pub view_mode: ViewMode,
    pub show_mouse: bool,
    pub streaming: bool,
}

/// The settings as plain values.
pub struct SettingsView {
    pub monitor: Seq<char>,
    pub fps: u32,
    pub quality: u8,
    pub brightness: u8,
    pub rotation: u16,
    pub view_mode: ViewMode,
    pub show_mouse: bool,
    pub streaming: bool,
}

impl View for Settings {
    type V = SettingsView;

    open spec fn view(&self) -> SettingsView {
        SettingsView {
            monitor: self.monitor@,
            fps: self.fps,
            quality: self.quality,
            brightness: self.brightness,
            rotation: self.rotation,
            view_mode: self.view_mode,
            show_mouse: self.show_mouse,
            streaming: self.streaming,
        }
    }
}

/// The settings a fresh installation starts with: no monitor chosen, 30 FPS,
/// quality 65, full brightness, no rotation, native view, cursor not
/// drawn (the capture leaves it out unless "Show mouse" is chosen), off.
pub open spec fn default_settings() -> SettingsView {
    SettingsView {
        monitor: Seq::empty(),
        fps: 30,
        quality: 65,
        brightness: 100,
        rotation: 0,
        view_mode: ViewMode::Native,
        show_mouse: false,
        streaming: false,
    }
}

impl Default for Settings {
    fn default() -> (s: Settings)
        ensures
            s@ == default_settings(),
    {
        Settings {
            monitor: String::new(),
            fps: 30,
            quality: 65,
            brightness: 100,
            rotation: 0,
            view_mode: ViewMode::Native,
            show_mouse: false,
            streaming: false,
        }
    }
}

impl Clone for Settings {
    fn clone(&self) -> (s: Settings)
        ensures
            s@ == self@,
    {
        Settings {
            monitor: self.monitor.clone(),
            fps: self.fps,
            quality: self.quality,
            brightness: self.brightness,
            rotation: self.rotation,
            view_mode: self.view_mode,
            show_mouse: self.show_mouse,
            streaming: self.streaming,
        }
    }
}

// ---------------------------------------------------------------------
// Reading settings.ini

/// Index of the first `c` in `s`, or `s.len()` when there is none.
pub open spec fn first_index_of(s: Seq<char>, c: char) -> int
    decreases s.len(),
{
    if s.len() == 0 {
        0
    } else if s[0] == c {
        0
    } else {
        1 + first_index_of(s.drop_first(), c)
    }
}

proof fn lemma_first_index_of(s: Seq<char>, c: char, i: int)
    requires
        0 <= i <= s.len(),
        forall|k: int| 0 <= k < i ==> #[trigger] s[k] != c,
        i == s.len() || s[i] == c,
    ensures
        first_index_of(s, c) == i,
    decreases i,
{
    if i > 0 {
        let t = s.drop_first();
        assert forall|k: int| 0 <= k < i - 1 implies #[trigger] t[k] != c by {
            assert(t[k] == s[k + 1]);
        }
        if i < s.len() {
            assert(t[i - 1] == s[i]);
        }
        lemma_first_index_of(t, c, i - 1);
    }
}

proof fn lemma_first_index_of_bounds(s: Seq<char>, c: char)
    ensures
        0 <= first_index_of(s, c) <= s.len(),
        first_index_of(s, c) < s.len() ==> s[first_index_of(s, c)] == c,
        forall|k: int| 0 <= k < first_index_of(s, c) ==> #[trigger] s[k] != c,
    decreases s.len(),
{
    if s.len() > 0 && s[0] != c {
        let t = s.drop_first();
        lemma_first_index_of_bounds(t, c);
        assert forall|k: int| 0 <= k < first_index_of(s, c) implies #[trigger] s[k] != c by {
            if k > 0 {
                assert(s[k] == t[k - 1]);
            }
        }
    }
}

fn find_char(s: &Vec<char>, from: usize, c: char) -> (r: usize)
    requires
        from <= s.len(),
    ensures
        from + r == from + first_index_of(s@.subrange(from as int, s@.len() as int), c),
        from + r <= s.len(),
{
    let mut i = from;
    while i < s.len() && s[i] != c
        invariant
            from <= i <= s.len(),
            forall|k: int| from <= k < i ==> #[trigger] s@[k] != c,
        decreases s.len() - i,
    {
        i = i + 1;
    }
    proof {
        let t = s@.subrange(from as int, s@.len() as int);
        assert forall|k: int| 0 <= k < i - from implies #[trigger] t[k] != c by {
            assert(t[k] == s@[from + k]);
        }
        if i < s.len() {
            assert(t[i - from] == s@[i as int]);
        }
        lemma_first_index_of(t, c, i - from);
    }
    i - from
}

/// A line without its line feed: one trailing carriage return removed.
pub open spec fn strip_cr(line: Seq<char>) -> Seq<char> {
    if line.len() > 0 && line.last() == '\r' { line.drop_last() } else { line }
}

/// The lines of `text` as `str::lines` yields them: split after each line
/// feed, dropping the line feed and a carriage return before it; a last
/// line without a line feed is kept as it is; no empty last line.
pub open spec fn lines_spec(text: Seq<char>) -> Seq<Seq<char>>
    decreases text.len(),
{
    if text.len() == 0 {
        Seq::empty()
    } else {
        let i = first_index_of(text, '\n');
        if i >= text.len() {
            seq![text]
        } else {
            if 0 <= i {
                seq![strip_cr(text.subrange(0, i))] + lines_spec(text.subrange(i + 1, text.len() as int))
            } else {
                Seq::empty()
            }
        }
    }
}

/// The key and value of a `key=value` line: split at the first `=`.
pub open spec fn split_key_value(line: Seq<char>) -> Option<(Seq<char>, Seq<char>)> {
    let i = first_index_of(line, '=');
    if 0 <= i < line.len() {
        Some((line.subrange(0, i), line.subrange(i + 1, line.len() as int)))
    } else {
        None
    }
}

/// `x` limited to `lo..=hi` (`Ord::clamp`).
pub open spec fn clamp(x: int, lo: int, hi: int) -> int {
    if x < lo { lo } else if x > hi { hi } else { x }
}

/// A parsed number, or `default` when the text is not a number of that width.
pub open spec fn number_or(value: Seq<char>, max: nat, default: nat) -> nat {
    match parse_unsigned(trim(value), max) {
        Some(n) => n,
        None => default,
    }
}

/// The settings after reading one line of `settings.ini`.
pub open spec fn apply_line(s: SettingsView, line: Seq<char>) -> SettingsView {
    match split_key_value(line) {
        None => s,
        Some((k, value)) => {
            let key = trim(k);
            if key == "monitor"@ {
                SettingsView { monitor: trim(value), ..s }
            } else if key == "fps"@ {
                SettingsView { fps: clamp(number_or(value, 0xffff_ffff, 30) as int, 5, 30) as u32, ..s }
            } else if key == "quality"@ {
                SettingsView { quality: clamp(number_or(value, 0xff, 65) as int, 35, 95) as u8, ..s }
            } else if key == "brightness"@ {
                SettingsView { brightness: clamp(number_or(value, 0xff, 100) as int, 10, 100) as u8, ..s }
            } else if key == "rotation"@ {
                let r = number_or(value, 0xffff, 0);
                SettingsView {
                    rotation: if r == 0 || r == 90 || r == 180 || r == 270 { r as u16 } else { 0u16 },
                    ..s
                }
            } else if key == "view"@ {
                SettingsView { view_mode: view_mode_from(value), ..s }
            } else if key == "show_mouse"@ {
                SettingsView { show_mouse: trim(value) != "false"@, ..s }
            } else if key == "streaming"@ {
                let v = ascii_lower(trim(value));
                SettingsView { streaming: v == "true"@ || v == "1"@ || v == "on"@, ..s }
            } else {
                s
            }
        },
    }
}

/// The settings after reading `lines` in order, starting from `s`.
pub open spec fn apply_lines(s: SettingsView, lines: Seq<Seq<char>>) -> SettingsView
    decreases lines.len(),
{
    if lines.len() == 0 {
        s
    } else {
        apply_lines(apply_line(s, lines[0]), lines.drop_first())
    }
}

/// The settings that `settings.ini` text describes: the defaults, updated
/// by each `key=value` line in turn (later lines win; unknown keys and
/// lines without `=` are ignored; out-of-range numbers are clamped and
/// unreadable ones take the default).
pub open spec fn parse_settings_spec(text: Seq<char>) -> SettingsView {
    apply_lines(default_settings(), lines_spec(text))
}

fn parse_number(value: &Vec<char>, max: u64, default: u64) -> (n: u64)
    requires
        default <= max,
    ensures
        n as nat == number_or(value@, max as nat, default as nat),
        n <= max,
{
    let t = trim_chars(value);
    match parse_unsigned_exec(&t, max) {
        Some(n) => n,
        None => default,
    }
}

fn clamp_u64(x: u64, lo: u64, hi: u64) -> (r: u64)
    requires
        lo <= hi,
    ensures
        r as int == clamp(x as int, lo as int, hi as int),
{
    if x < lo { lo } else if x > hi { hi } else { x }
}

impl Settings {
    fn apply_line_exec(&mut self, line: &Vec<char>)
        ensures
            final(self)@ == apply_line(old(self)@, line@),
    {
        let eq = find_char(line, 0, '=');
        assert(line@.subrange(0, line@.len() as int) =~= line@);
        if eq >= line.len() {
            return;
        }
        proof {
            lemma_first_index_of_bounds(line@, '=');
        }
        let k = slice_chars(line, 0, eq);
        let value = slice_chars(line, eq + 1, line.len());
        let key = trim_chars(&k);
        if chars_are(&key, "monitor") {
            let m = trim_chars(&value);
            self.monitor = string_of(&m);
        } else if chars_are(&key, "fps") {
            let n = parse_number(&value, 0xffff_ffff, 30);
            self.fps = clamp_u64(n, 5, 30) as u32;
        } else if chars_are(&key, "quality") {
            let n = parse_number(&value, 0xff, 65);
            self.quality = clamp_u64(n, 35, 95) as u8;
        } else if chars_are(&key, "brightness") {
            let n = parse_number(&value, 0xff, 100);
            self.brightness = clamp_u64(n, 10, 100) as u8;
        } else if chars_are(&key, "rotation") {
            let n = parse_number(&value, 0xffff, 0);
            self.rotation = if n == 0 || n == 90 || n == 180 || n == 270 { n as u16 } else { 0 };
        } else if chars_are(&key, "view") {
            let s = string_of(&value);
            self.view_mode = ViewMode::from_setting(s.as_str());
        } else if chars_are(&key, "show_mouse") {
            let t = trim_chars(&value);
            self.show_mouse = !chars_are(&t, "false");
        } else if chars_are(&key, "streaming") {
            let t = trim_chars(&value);
            let v = to_ascii_lower(&t);
            self.streaming = chars_are(&v, "true") || chars_are(&v, "1") || chars_are(&v, "on");
        }
    }

    /// The settings that `settings.ini` text describes (what loading the
    /// file gives; a missing or unreadable file gives the defaults).
    pub fn parse(text: &str) -> (s: Settings)
        ensures
            s@ == parse_settings_spec(text@),
    {
        let chars = chars_of(text);
        let mut s = Settings::default();
        let mut start: usize = 0;
        let n = chars.len();
        assert(chars@.subrange(0, n as int) =~= chars@);
        while start < n
            invariant
                n == chars@.len(),
                start <= n,
                parse_settings_spec(chars@) == apply_lines(s@, lines_spec(chars@.subrange(start as int, n as int))),
            decreases n - start,
        {
            let ghost rest = chars@.subrange(start as int, n as int);
            let off = find_char(&chars, start, '\n');
            proof {
                lemma_first_index_of_bounds(rest, '\n');
            }
            let end = start + off;
            let mut line_end = end;
            if end < n && line_end > start && chars[line_end - 1] == '\r' {
                line_end = line_end - 1;
            }
            let line = slice_chars(&chars, start, line_end);
            proof {
                if end < n {
                    assert(rest.subrange(0, off as int) =~= chars@.subrange(start as int, end as int));
                    assert(line@ =~= strip_cr(rest.subrange(0, off as int)));
                    assert(rest.subrange(off + 1, rest.len() as int) =~= chars@.subrange(end + 1, n as int));
                } else {
                    assert(line@ =~= rest);
                    assert(chars@.subrange(n as int, n as int) =~= Seq::<char>::empty());
                }
            }
            let ghost before = s@;
            s.apply_line_exec(&line);
            proof {
                let ls = lines_spec(rest);
                if end < n {
                    let tail = lines_spec(rest.subrange(off + 1, rest.len() as int));
                    assert(ls == seq![line@] + tail);
                    assert((seq![line@] + tail)[0] == line@);
                    assert((seq![line@] + tail).drop_first() =~= tail);
                } else {
                    assert(ls == seq![rest]);
                    assert(seq![rest].drop_first() =~= Seq::<Seq<char>>::empty());
                    assert(lines_spec(Seq::<char>::empty()) =~= Seq::<Seq<char>>::empty());
                }
            }
            if end < n {
                start = end + 1;
            } else {
                start = n;
            }
        }
        s
    }
}

/// Splits text into its lines as `str::lines` does (see `lines_spec`).
pub fn split_lines(chars: &Vec<char>) -> (lines: Vec<Vec<char>>)
    ensures
        lines@.map_values(|l: Vec<char>| l@) == lines_spec(chars@),
{
    let mut lines: Vec<Vec<char>> = Vec::new();
    let mut start: usize = 0;
    let n = chars.len();
    assert(chars@.subrange(0, n as int) =~= chars@);
    assert(lines@.map_values(|l: Vec<char>| l@) + lines_spec(chars@) =~= lines_spec(chars@));
    while start < n
        invariant
            n == chars@.len(),
            start <= n,
            lines@.map_values(|l: Vec<char>| l@) + lines_spec(chars@.subrange(start as int, n as int))
                == lines_spec(chars@),
        decreases n - start,
    {
        let ghost rest = chars@.subrange(start as int, n as int);
        let off = find_char(chars, start, '\n');
        proof {
            lemma_first_index_of_bounds(rest, '\n');
        }
        let end = start + off;
        let mut line_end = end;
        if end < n && line_end > start && chars[line_end - 1] == '\r' {
            line_end = line_end - 1;
        }
        let line = slice_chars(chars, start, line_end);
        proof {
            if end < n {
                assert(rest.subrange(0, off as int) =~= chars@.subrange(start as int, end as int));
                assert(line@ =~= strip_cr(rest.subrange(0, off as int)));
                assert(rest.subrange(off + 1, rest.len() as int) =~= chars@.subrange(end + 1, n as int));
            } else {
                assert(line@ =~= rest);
                assert(chars@.subrange(n as int, n as int) =~= Seq::<char>::empty());
            }
        }
        let ghost before = lines@.map_values(|l: Vec<char>| l@);
        lines.push(line);
        proof {
            assert(lines@.map_values(|l: Vec<char>| l@) =~= before.push(line@));
            let ls = lines_spec(rest);
            if end < n {
                let tail = lines_spec(rest.subrange(off + 1, rest.len() as int));
                assert(ls == seq![line@] + tail);
                assert(before.push(line@) + tail =~= before + (seq![line@] + tail));
            } else {
                assert(ls == seq![rest]);
                assert(lines_spec(Seq::<char>::empty()) =~= Seq::<Seq<char>>::empty());
                assert(before.push(line@) + lines_spec(Seq::<char>::empty()) =~= before + seq![rest]);
            }
        }
        if end < n {
            start = end + 1;
        } else {
            start = n;
        }
    }
    assert(lines_spec(chars@.subrange(n as int, n as int)) =~= Seq::<Seq<char>>::empty()) by {
        assert(chars@.subrange(n as int, n as int) =~= Seq::<char>::empty());
    }
    assert(lines@.map_values(|l: Vec<char>| l@) + Seq::<Seq<char>>::empty() =~= lines@.map_values(|l: Vec<char>| l@));
    lines
}

// ---------------------------------------------------------------------
// Writing settings.ini

/// `true` or `false`, as `format!("{}", b)`.
pub open spec fn bool_text(b: bool) -> Seq<char> {
    if b { "true"@ } else { "false"@ }
}

/// The text of `settings.ini` for `s`: one `key=value` line per setting,
/// each ended by a line feed.
pub open spec fn settings_text(s: SettingsView) -> Seq<char> {
    joined(settings_lines(s))
}

fn push_line(v: &mut Vec<char>, key: &str, value: &str)
    ensures
        final(v)@ == old(v)@ + (key@ + "="@ + value@) + "\n"@,
{
    push_str(v, key);
    push_str(v, "=");
    push_str(v, value);
    push_str(v, "\n");
    assert(final(v)@ =~= old(v)@ + (key@ + "="@ + value@) + "\n"@);
}

fn push_number_line(v: &mut Vec<char>, key: &str, n: u64)
    ensures
        final(v)@ == old(v)@ + (key@ + "="@ + decimal(n as nat)) + "\n"@,
{
    push_str(v, key);
    push_str(v, "=");
    push_decimal(v, n);
    push_str(v, "\n");
    assert(final(v)@ =~= old(v)@ + (key@ + "="@ + decimal(n as nat)) + "\n"@);
}

impl Settings {
    /// The `settings.ini` text that saving these settings writes.
    pub fn to_ini(&self) -> (text: String)
        ensures
            text@ == settings_text(self@),
    {
        let ghost ls = settings_lines(self@);
        let mut v: Vec<char> = Vec::new();
        proof {
            assert(joined(ls.take(0)) =~= v@) by {
                assert(ls.take(0) =~= Seq::<Seq<char>>::empty());
            }
        }
        push_line(&mut v, "monitor", self.monitor.as_str());
        proof { lemma_joined_take(ls, 0); }
        push_number_line(&mut v, "fps", self.fps as u64);
        proof { lemma_joined_take(ls, 1); }
        push_number_line(&mut v, "quality", self.quality as u64);
        proof { lemma_joined_take(ls, 2); }
        push_number_line(&mut v, "brightness", self.brightness as u64);
        proof { lemma_joined_take(ls, 3); }
        push_number_line(&mut v, "rotation", self.rotation as u64);
        proof { lemma_joined_take(ls, 4); }
        push_line(&mut v, "view", self.view_mode.setting_value());
        proof { lemma_joined_take(ls, 5); }
        let b1 = if self.show_mouse { "true" } else { "false" };
        push_line(&mut v, "show_mouse", b1);
        proof { lemma_joined_take(ls, 6); }
        let b2 = if self.streaming { "true" } else { "false" };
        push_line(&mut v, "streaming", b2);
        proof {
            lemma_joined_take(ls, 7);
            assert(ls.take(8) =~= ls);
        }
        string_of(&v)
    }
}


// ---------------------------------------------------------------------
// Reading back what was written

/// Settings that `settings.ini` can hold as written: numbers inside the
/// ranges that reading enforces, and a monitor name on one line without
/// surrounding whitespace.
pub open spec fn storable(s: SettingsView) -> bool {
    &&& 5 <= s.fps <= 30
    &&& 35 <= s.quality <= 95
    &&& 10 <= s.brightness <= 100
    &&& (s.rotation == 0 || s.rotation == 90 || s.rotation == 180 || s.rotation == 270)
    &&& forall|i: int| 0 <= i < s.monitor.len() ==> #[trigger] s.monitor[i] != '\n'
    &&& trim(s.monitor) == s.monitor
}

/// Lines joined with a line feed after each.
pub open spec fn joined(ls: Seq<Seq<char>>) -> Seq<char>
    decreases ls.len(),
{
    if ls.len() == 0 {
        Seq::empty()
    } else {
        ls[0] + "\n"@ + joined(ls.drop_first())
    }
}

/// A line that reads back unchanged: no line feed, not ending in a carriage return.
pub open spec fn plain_line(l: Seq<char>) -> bool {
    (forall|i: int| 0 <= i < l.len() ==> #[trigger] l[i] != '\n') && !(l.len() > 0 && l.last() == '\r')
}

proof fn lemma_joined_push(ls: Seq<Seq<char>>, l: Seq<char>)
    ensures
        joined(ls.push(l)) == joined(ls) + l + "\n"@,
    decreases ls.len(),
{
    if ls.len() == 0 {
        assert(ls.push(l).drop_first() =~= Seq::<Seq<char>>::empty());
        assert(ls.push(l)[0] == l);
        assert(joined(Seq::<Seq<char>>::empty()) == Seq::<char>::empty());
        assert(joined(ls.push(l)) == l + "\n"@ + joined(ls.push(l).drop_first()));
        assert(joined(ls.push(l)) =~= joined(ls) + l + "\n"@);
    } else {
        lemma_joined_push(ls.drop_first(), l);
        assert(ls.push(l).drop_first() =~= ls.drop_first().push(l));
        assert(ls.push(l)[0] == ls[0]);
        assert(joined(ls.push(l)) == ls[0] + "\n"@ + joined(ls.drop_first().push(l)));
        assert(joined(ls) == ls[0] + "\n"@ + joined(ls.drop_first()));
        assert(joined(ls.push(l)) =~= joined(ls) + l + "\n"@);
    }
}

proof fn lemma_joined_take(ls: Seq<Seq<char>>, k: int)
    requires
        0 <= k < ls.len(),
    ensures
        joined(ls.take(k + 1)) == joined(ls.take(k)) + ls[k] + "\n"@,
{
    assert(ls.take(k + 1) =~= ls.take(k).push(ls[k]));
    lemma_joined_push(ls.take(k), ls[k]);
}

proof fn lemma_lines_joined(ls: Seq<Seq<char>>)
    requires
        forall|i: int| 0 <= i < ls.len() ==> plain_line(#[trigger] ls[i]),
    ensures
        lines_spec(joined(ls)) == ls,
    decreases ls.len(),
{
    reveal_strlit("\n");
    if ls.len() == 0 {
        assert(lines_spec(Seq::<char>::empty()) =~= ls);
    } else {
        let a = ls[0];
        let r = joined(ls.drop_first());
        let text = a + "\n"@ + r;
        assert(plain_line(a));
        assert forall|k: int| 0 <= k < a.len() implies #[trigger] text[k] != '\n' by {
            assert(text[k] == a[k]);
        }
        assert(text[a.len() as int] == '\n');
        lemma_first_index_of(text, '\n', a.len() as int);
        assert(text.subrange(0, a.len() as int) =~= a);
        assert(text.subrange(a.len() as int + 1, text.len() as int) =~= r);
        assert forall|i: int| 0 <= i < ls.drop_first().len() implies plain_line(#[trigger] ls.drop_first()[i]) by {
            assert(ls.drop_first()[i] == ls[i + 1]);
        }
        lemma_lines_joined(ls.drop_first());
        assert(lines_spec(text) =~= seq![a] + ls.drop_first());
        assert(seq![a] + ls.drop_first() =~= ls);
    }
}

proof fn lemma_trim_identity(s: Seq<char>)
    requires
        s.len() == 0 || (!is_space(s[0]) && !is_space(s.last())),
    ensures
        trim(s) == s,
{
    assert(trim_start_index(s) == 0);
    assert(s.subrange(0, s.len() as int) =~= s);
    assert(trim_end_index(s) == s.len());
    assert(s.subrange(0, s.len() as int) =~= s);
}

proof fn lemma_digit_char(d: nat)
    requires
        d < 10,
    ensures
        is_digit(crate::text::digit_char(d)),
        crate::text::digit_value(crate::text::digit_char(d)) == d,
        !is_space(crate::text::digit_char(d)),
        crate::text::digit_char(d) != '+',
{
}

proof fn lemma_decimal_digits(n: nat)
    ensures
        decimal(n).len() > 0,
        all_digits(decimal(n)),
        digits_value(decimal(n)) == n,
    decreases n,
{
    if n < 10 {
        lemma_digit_char(n);
        assert(decimal(n) == seq![crate::text::digit_char(n)]);
        assert(decimal(n).drop_last() =~= Seq::<char>::empty());
        assert(decimal(n).last() == crate::text::digit_char(n));
        assert(digits_value(decimal(n)) == digits_value(decimal(n).drop_last()) * 10 + crate::text::digit_value(decimal(n).last()));
    } else {
        lemma_decimal_digits(n / 10);
        lemma_digit_char(n % 10);
        let d = decimal(n);
        assert(d.drop_last() =~= decimal(n / 10));
        assert(d.last() == crate::text::digit_char(n % 10));
        assert(digits_value(d) == digits_value(decimal(n / 10)) * 10 + crate::text::digit_value(d.last()));
        assert((n / 10) * 10 + n % 10 == n);
        assert forall|i: int| 0 <= i < d.len() implies is_digit(#[trigger] d[i]) by {
            if i < d.len() - 1 {
                assert(d[i] == decimal(n / 10)[i]);
            }
        }
    }
}

proof fn lemma_decimal_reads_back(n: nat, max: nat, default: nat)
    requires
        n <= max,
    ensures
        number_or(decimal(n), max, default) == n,
{
    lemma_decimal_digits(n);
    let d = decimal(n);
    assert(is_digit(d[0]));
    assert(is_digit(d.last()));
    lemma_trim_identity(d);
    assert(unsigned_digits(d) == d);
}

proof fn lemma_key_value_line(key: Seq<char>, value: Seq<char>)
    requires
        forall|i: int| 0 <= i < key.len() ==> #[trigger] key[i] != '=',
    ensures
        split_key_value(key + "="@ + value) == Some((key, value)),
{
    reveal_strlit("=");
    let line = key + "="@ + value;
    assert forall|k: int| 0 <= k < key.len() implies #[trigger] line[k] != '=' by {
        assert(line[k] == key[k]);
    }
    assert(line[key.len() as int] == '=');
    lemma_first_index_of(line, '=', key.len() as int);
    assert(line.subrange(0, key.len() as int) =~= key);
    assert(line.subrange(key.len() as int + 1, line.len() as int) =~= value);
}

/// The eight lines of the settings text.
pub open spec fn settings_lines(s: SettingsView) -> Seq<Seq<char>> {
    seq![
        "monitor"@ + "="@ + s.monitor,
        "fps"@ + "="@ + decimal(s.fps as nat),
        "quality"@ + "="@ + decimal(s.quality as nat),
        "brightness"@ + "="@ + decimal(s.brightness as nat),
        "rotation"@ + "="@ + decimal(s.rotation as nat),
        "view"@ + "="@ + view_mode_value(s.view_mode),
        "show_mouse"@ + "="@ + bool_text(s.show_mouse),
        "streaming"@ + "="@ + bool_text(s.streaming),
    ]
}

proof fn lemma_reveal_settings_literals()
    ensures
        "monitor"@ =~= seq!['m', 'o', 'n', 'i', 't', 'o', 'r'],
        "fps"@ =~= seq!['f', 'p', 's'],
        "quality"@ =~= seq!['q', 'u', 'a', 'l', 'i', 't', 'y'],
        "brightness"@ =~= seq!['b', 'r', 'i', 'g', 'h', 't', 'n', 'e', 's', 's'],
        "rotation"@ =~= seq!['r', 'o', 't', 'a', 't', 'i', 'o', 'n'],
        "view"@ =~= seq!['v', 'i', 'e', 'w'],
        "show_mouse"@ =~= seq!['s', 'h', 'o', 'w', '_', 'm', 'o', 'u', 's', 'e'],
        "streaming"@ =~= seq!['s', 't', 'r', 'e', 'a', 'm', 'i', 'n', 'g'],
        "="@ =~= seq!['='],
        "\n"@ =~= seq!['\n'],
        "true"@ =~= seq!['t', 'r', 'u', 'e'],
        "false"@ =~= seq!['f', 'a', 'l', 's', 'e'],
        "1"@ =~= seq!['1'],
        "on"@ =~= seq!['o', 'n'],
        "native"@ =~= seq!['n', 'a', 't', 'i', 'v', 'e'],
        "4:3"@ =~= seq!['4', ':', '3'],
        "16:10"@ =~= seq!['1', '6', ':', '1', '0'],
        "16:9"@ =~= seq!['1', '6', ':', '9'],
        "monitor="@ =~= seq!['m', 'o', 'n', 'i', 't', 'o', 'r', '='],
        "fps="@ =~= seq!['f', 'p', 's', '='],
        "quality="@ =~= seq!['q', 'u', 'a', 'l', 'i', 't', 'y', '='],
        "brightness="@ =~= seq!['b', 'r', 'i', 'g', 'h', 't', 'n', 'e', 's', 's', '='],
        "rotation="@ =~= seq!['r', 'o', 't', 'a', 't', 'i', 'o', 'n', '='],
        "view="@ =~= seq!['v', 'i', 'e', 'w', '='],
        "show_mouse="@ =~= seq!['s', 'h', 'o', 'w', '_', 'm', 'o', 'u', 's', 'e', '='],
        "streaming="@ =~= seq!['s', 't', 'r', 'e', 'a', 'm', 'i', 'n', 'g', '='],
{
    reveal_strlit("monitor");
    reveal_strlit("fps");
    reveal_strlit("quality");
    reveal_strlit("brightness");
    reveal_strlit("rotation");
    reveal_strlit("view");
    reveal_strlit("show_mouse");
    reveal_strlit("streaming");
    reveal_strlit("=");
    reveal_strlit("\n");
    reveal_strlit("true");
    reveal_strlit("false");
    reveal_strlit("1");
    reveal_strlit("on");
    reveal_strlit("native");
    reveal_strlit("4:3");
    reveal_strlit("16:10");
    reveal_strlit("16:9");
    reveal_strlit("monitor=");
    reveal_strlit("fps=");
    reveal_strlit("quality=");
    reveal_strlit("brightness=");
    reveal_strlit("rotation=");
    reveal_strlit("view=");
    reveal_strlit("show_mouse=");
    reveal_strlit("streaming=");
}

proof fn lemma_view_mode_reads_back(v: ViewMode)
    ensures
        view_mode_from(view_mode_value(v)) == v,
{
    lemma_reveal_settings_literals();
    let t = view_mode_value(v);
    lemma_trim_identity(t);
}

proof fn lemma_bool_reads_back(b: bool)
    ensures
        (trim(bool_text(b)) != "false"@) == b,
        ({
            let v = ascii_lower(trim(bool_text(b)));
            v == "true"@ || v == "1"@ || v == "on"@
        }) == b,
{
    lemma_reveal_settings_literals();
    let t = bool_text(b);
    lemma_trim_identity(t);
    assert(ascii_lower(t) =~= t);
    if !b {
        assert(t != "true"@ && t != "1"@ && t != "on"@) by {
            assert(t.len() == 5);
        }
    } else {
        assert(t != "false"@) by {
            assert(t.len() == 4);
        }
    }
}

proof fn lemma_plain_line(key: Seq<char>, value: Seq<char>)
    requires
        forall|i: int| 0 <= i < key.len() ==> #[trigger] key[i] != '\n',
        forall|i: int| 0 <= i < value.len() ==> #[trigger] value[i] != '\n',
        value.len() > 0 ==> !is_space(value.last()),
    ensures
        plain_line(key + "="@ + value),
{
    reveal_strlit("=");
    let l = key + "="@ + value;
    assert forall|i: int| 0 <= i < l.len() implies #[trigger] l[i] != '\n' by {
        if i < key.len() {
            assert(l[i] == key[i]);
        } else if i > key.len() {
            assert(l[i] == value[i - key.len() - 1]);
        }
    }
    if value.len() > 0 {
        assert(l.last() == value.last());
    }
}

proof fn lemma_decimal_plain(n: nat)
    ensures
        forall|i: int| 0 <= i < decimal(n).len() ==> #[trigger] decimal(n)[i] != '\n',
        !is_space(decimal(n).last()),
{
    lemma_decimal_digits(n);
    assert forall|i: int| 0 <= i < decimal(n).len() implies #[trigger] decimal(n)[i] != '\n' by {
        assert(is_digit(decimal(n)[i]));
    }
    assert(is_digit(decimal(n).last()));
}

proof fn lemma_apply_lines_step(st: SettingsView, ls: Seq<Seq<char>>)
    requires
        ls.len() > 0,
    ensures
        apply_lines(st, ls) == apply_lines(apply_line(st, ls[0]), ls.drop_first()),
{
}

proof fn lemma_line_sets(st: SettingsView, key: Seq<char>, value: Seq<char>)
    requires
        forall|i: int| 0 <= i < key.len() ==> #[trigger] key[i] != '=',
        key.len() > 0,
        !is_space(key[0]),
        !is_space(key.last()),
    ensures
        apply_line(st, key + "="@ + value) == apply_line_kv(st, key, value),
{
    lemma_key_value_line(key, value);
    lemma_trim_identity(key);
}

/// Reading one `key=value` line whose key is already trimmed.
pub open spec fn apply_line_kv(st: SettingsView, key: Seq<char>, value: Seq<char>) -> SettingsView {
    if key == "monitor"@ {
        SettingsView { monitor: trim(value), ..st }
    } else if key == "fps"@ {
        SettingsView { fps: clamp(number_or(value, 0xffff_ffff, 30) as int, 5, 30) as u32, ..st }
    } else if key == "quality"@ {
        SettingsView { quality: clamp(number_or(value, 0xff, 65) as int, 35, 95) as u8, ..st }
    } else if key == "brightness"@ {
        SettingsView { brightness: clamp(number_or(value, 0xff, 100) as int, 10, 100) as u8, ..st }
    } else if key == "rotation"@ {
        let r = number_or(value, 0xffff, 0);
        SettingsView {
            rotation: if r == 0 || r == 90 || r == 180 || r == 270 { r as u16 } else { 0u16 },
            ..st
        }
    } else if key == "view"@ {
        SettingsView { view_mode: view_mode_from(value), ..st }
    } else if key == "show_mouse"@ {
        SettingsView { show_mouse: trim(value) != "false"@, ..st }
    } else if key == "streaming"@ {
        let v = ascii_lower(trim(value));
        SettingsView { streaming: v == "true"@ || v == "1"@ || v == "on"@, ..st }
    } else {
        st
    }
}

proof fn lemma_lines_read_back(s: SettingsView)
    requires
        storable(s),
    ensures
        lines_spec(settings_text(s)) == settings_lines(s),
{
    lemma_reveal_settings_literals();
    let ls = settings_lines(s);
    assert(settings_text(s) =~= joined(ls)) by {
        reveal_with_fuel(joined, 9);
    }
    lemma_decimal_plain(s.fps as nat);
    lemma_decimal_plain(s.quality as nat);
    lemma_decimal_plain(s.brightness as nat);
    lemma_decimal_plain(s.rotation as nat);
    if s.monitor.len() > 0 {
        lemma_trim_keeps_last(s.monitor);
    }
    lemma_plain_line("monitor"@, s.monitor);
    lemma_plain_line("fps"@, decimal(s.fps as nat));
    lemma_plain_line("quality"@, decimal(s.quality as nat));
    lemma_plain_line("brightness"@, decimal(s.brightness as nat));
    lemma_plain_line("rotation"@, decimal(s.rotation as nat));
    lemma_plain_line("view"@, view_mode_value(s.view_mode));
    lemma_plain_line("show_mouse"@, bool_text(s.show_mouse));
    lemma_plain_line("streaming"@, bool_text(s.streaming));
    assert forall|i: int| 0 <= i < ls.len() implies plain_line(#[trigger] ls[i]) by {}
    lemma_lines_joined(ls);
}

/// Read-back law: saving settings and loading the saved text gives back
/// the same settings, for every value `settings.ini` can hold as written.
#[verifier::rlimit(40)]
pub proof fn lemma_settings_roundtrip(s: SettingsView)
    requires
        storable(s),
    ensures
        parse_settings_spec(settings_text(s)) == s,
{
    lemma_reveal_settings_literals();
    lemma_lines_read_back(s);
    let ls = settings_lines(s);
    let s0 = default_settings();
    lemma_line_sets(s0, "monitor"@, s.monitor);
    let s1 = SettingsView { monitor: s.monitor, ..s0 };
    lemma_apply_lines_step(s0, ls);
    let l1 = ls.drop_first();
    assert(l1 =~= ls.subrange(1, 8));
    lemma_line_sets(s1, "fps"@, decimal(s.fps as nat));
    lemma_decimal_reads_back(s.fps as nat, 0xffff_ffff, 30);
    let s2 = SettingsView { fps: s.fps, ..s1 };
    lemma_apply_lines_step(s1, l1);
    let l2 = l1.drop_first();
    assert(l2 =~= ls.subrange(2, 8));
    lemma_line_sets(s2, "quality"@, decimal(s.quality as nat));
    lemma_decimal_reads_back(s.quality as nat, 0xff, 65);
    let s3 = SettingsView { quality: s.quality, ..s2 };
    lemma_apply_lines_step(s2, l2);
    let l3 = l2.drop_first();
    assert(l3 =~= ls.subrange(3, 8));
    lemma_line_sets(s3, "brightness"@, decimal(s.brightness as nat));
    lemma_decimal_reads_back(s.brightness as nat, 0xff, 100);
    let s4 = SettingsView { brightness: s.brightness, ..s3 };
    lemma_apply_lines_step(s3, l3);
    let l4 = l3.drop_first();
    assert(l4 =~= ls.subrange(4, 8));
    lemma_line_sets(s4, "rotation"@, decimal(s.rotation as nat));
    lemma_decimal_reads_back(s.rotation as nat, 0xffff, 0);
    let s5 = SettingsView { rotation: s.rotation, ..s4 };
    lemma_apply_lines_step(s4, l4);
    let l5 = l4.drop_first();
    assert(l5 =~= ls.subrange(5, 8));
    lemma_line_sets(s5, "view"@, view_mode_value(s.view_mode));
    lemma_view_mode_reads_back(s.view_mode);
    let s6 = SettingsView { view_mode: s.view_mode, ..s5 };
    lemma_apply_lines_step(s5, l5);
    let l6 = l5.drop_first();
    assert(l6 =~= ls.subrange(6, 8));
    lemma_line_sets(s6, "show_mouse"@, bool_text(s.show_mouse));
    lemma_bool_reads_back(s.show_mouse);
    let s7 = SettingsView { show_mouse: s.show_mouse, ..s6 };
    lemma_apply_lines_step(s6, l6);
    let l7 = l6.drop_first();
    assert(l7 =~= ls.subrange(7, 8));
    lemma_line_sets(s7, "streaming"@, bool_text(s.streaming));
    lemma_bool_reads_back(s.streaming);
    let s8 = SettingsView { streaming: s.streaming, ..s7 };
    lemma_apply_lines_step(s7, l7);
    let l8 = l7.drop_first();
    assert(l8 =~= Seq::<Seq<char>>::empty());
    assert(s8 == s);
}

proof fn lemma_trim_keeps_last(m: Seq<char>)
    requires
        m.len() > 0,
        trim(m) == m,
    ensures
        !is_space(m.last()),
{
    let st = trim_start_index(m);
    lemma_trim_start_bound(m);
    let t = m.subrange(st, m.len() as int);
    lemma_trim_end_bound(t);
    let e = trim_end_index(t);
    if is_space(m.last()) {
        if st == m.len() {
            assert(trim(m).len() == 0);
        } else {
            assert(t.last() == m.last());
            assert(e <= t.len() - 1);
            assert(trim(m).len() == e);
            assert(trim(m).len() < m.len());
        }
    }
}

proof fn lemma_trim_start_bound(s: Seq<char>)
    ensures
        0 <= trim_start_index(s) <= s.len(),
    decreases s.len(),
{
    if s.len() > 0 && is_space(s[0]) {
        lemma_trim_start_bound(s.drop_first());
    }
}

proof fn lemma_trim_end_bound(s: Seq<char>)
    ensures
        0 <= trim_end_index(s) <= s.len(),
        s.len() > 0 && is_space(s.last()) ==> trim_end_index(s) < s.len(),
    decreases s.len(),
{
    if s.len() > 0 && is_space(s.last()) {
        lemma_trim_end_bound(s.drop_last());
    }
}

// ---------------------------------------------------------------------
// Starting with Windows

/// The per-user registry key that lists programs started at sign-in.
pub const RUN_KEY: &'static str = "Software\\Microsoft\\Windows\\CurrentVersion\\Run";
/// The value under that key that starts this application.
pub const RUN_VALUE: &'static str = "CorsairEliteDisplay";

/// The command registered to start at sign-in: the quoted executable path,
/// started in the background.
pub fn startup_command(exe: &str) -> (s: String)
    ensures
        s@ == "\""@ + exe@ + "\" --background"@,
{
    let mut v: Vec<char> = Vec::new();
    push_str(&mut v, "\"");
    push_str(&mut v, exe);
    push_str(&mut v, "\" --background");
    string_of(&v)
}

/// The error when the startup key cannot be opened (registry status).
pub fn startup_key_error(status: u32) -> (s: String)
    ensures
        s@ == "Could not open the Windows startup key ("@ + decimal(status as nat) + ")"@,
{
    let mut v: Vec<char> = Vec::new();
    push_str(&mut v, "Could not open the Windows startup key (");
    push_decimal(&mut v, status as u64);
    push_str(&mut v, ")");
    string_of(&v)
}

/// The outcome of setting (or deleting) the startup value: success, or,
/// when disabling, a value that was not there (status 2); otherwise the
/// registry status is reported.
pub fn startup_outcome(enabled: bool, status: u32) -> (r: Result<(), String>)
    ensures
        r is Ok <==> (status == 0 || (!enabled && status == 2)),
        r matches Err(e) ==> e@ == "Could not update Windows startup ("@ + decimal(status as nat) + ")"@,
{
    if status == 0 || (!enabled && status == 2) {
        Ok(())
    } else {
        let mut v: Vec<char> = Vec::new();
        push_str(&mut v, "Could not update Windows startup (");
        push_decimal(&mut v, status as u64);
        push_str(&mut v, ")");
        Err(string_of(&v))
    }
}

} // verus!
