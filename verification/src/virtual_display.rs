//! The 480x480 virtual monitor: its EDID, the driver settings it needs,
//! and the decisions taken while switching it on and off.

use vstd::prelude::*;
use crate::settings::{lines_spec, split_lines};
use crate::text::{chars_of, contains, contains_seq, push_str, slice_chars, starts_with, starts_with_seq, string_of, trim, trim_chars};
use vstd::string::StringSliceAdditionalSpecFns;

verus! {

/// The fixed bytes of the virtual monitor's EDID: header, vendor "COR",
/// product 0x0C39, serial 1, week 1 of 2024, EDID 1.3, a 7x7 cm digital RGB
/// panel, colour characteristics, unused standard timings, the 480x480
/// detailed timing, the name / range-limit / serial descriptors, and no
/// extensions. The name field (bytes 77..90) and the checksum are zero here.
pub open spec fn edid_template() -> Seq<u8> {
    seq![
        0x00u8, 0xFF, 0xFF, 0xFF, 0xFF, 0xFF, 0xFF, 0x00, 0x0D, 0xE2, 0x39, 0x0C, 0x01, 0x00, 0x00, 0x00,
        0x01, 0x22, 0x01, 0x03, 0x80, 0x07, 0x07, 0x78, 0x02, 0xEE, 0x91, 0xA3, 0x54, 0x4C, 0x99, 0x26,
        0x0F, 0x50, 0x54, 0x00, 0x00, 0x00, 0x01, 0x01, 0x01, 0x01, 0x01, 0x01, 0x01, 0x01, 0x01, 0x01,
        0x01, 0x01, 0x01, 0x01, 0x01, 0x01, 0x40, 0x06, 0xE0, 0x28, 0x10, 0xE0, 0x21, 0x10, 0x10, 0x10,
        0x33, 0x00, 0x46, 0x46, 0x00, 0x00, 0x00, 0x1E, 0x00, 0x00, 0x00, 0xFC, 0x00, 0x00, 0x00, 0x00,
        0x00, 0x00, 0x00, 0x00, 0x00, 0x00, 0x00, 0x00, 0x00, 0x00, 0x00, 0x00, 0x00, 0xFD, 0x00, 0x18,
        0x41, 0x0F, 0x50, 0x0A, 0x00, 0x0A, 0x20, 0x20, 0x20, 0x20, 0x20, 0x20, 0x00, 0x00, 0x00, 0xFF,
        0x00, 0x30, 0x43, 0x33, 0x39, 0x30, 0x30, 0x30, 0x31, 0x0A, 0x20, 0x20, 0x20, 0x20, 0x00, 0x00,
    ]
}

/// The 13-byte monitor-name field: the first (up to) 13 bytes of the name,
/// then, when shorter, a line feed and space padding.
pub open spec fn edid_name_field(name: Seq<u8>) -> Seq<u8> {
    let n = if name.len() < 13 { name.len() as int } else { 13int };
    Seq::new(13, |j: int| if j < n { name[j] } else if j == n { 0x0Au8 } else { 0x20u8 })
}

/// The first 127 bytes of the EDID for a monitor called `name`.
pub open spec fn edid_body(name: Seq<u8>) -> Seq<u8> {
    Seq::new(127, |i: int| if 77 <= i < 90 { edid_name_field(name)[i - 77] } else { edid_template()[i] })
}

/// The sum of the bytes of `s`.
pub open spec fn byte_sum(s: Seq<u8>) -> int
    decreases s.len(),
{
    if s.len() == 0 { 0 } else { byte_sum(s.drop_last()) + s.last() as int }
}

/// The checksum byte that makes the bytes of `body` plus itself sum to a multiple of 256.
pub open spec fn edid_checksum(body: Seq<u8>) -> u8 {
    ((256 - byte_sum(body) % 256) % 256) as u8
}

/// The EDID for a monitor called `name` (given as its UTF-8 bytes).
pub open spec fn edid_spec(name: Seq<u8>) -> Seq<u8> {
    edid_body(name).push(edid_checksum(edid_body(name)))
}

/// Builds the 128-byte EDID of the Corsair virtual monitor, named `name`.
pub fn generate_corsair_edid(name: &str) -> (edid: [u8; 128])
    ensures
        edid@ == edid_spec(name.spec_bytes()),
{
    let mut edid: [u8; 128] = [
        // Header; vendor "COR"; product 0x0C39; serial 1
        0x00, 0xFF, 0xFF, 0xFF, 0xFF, 0xFF, 0xFF, 0x00, 0x0D, 0xE2, 0x39, 0x0C, 0x01, 0x00, 0x00, 0x00,
        // Week 1 of 2024; EDID 1.3; digital, 7x7 cm, gamma 2.2, RGB 4:4:4; colour characteristics
        0x01, 0x22, 0x01, 0x03, 0x80, 0x07, 0x07, 0x78, 0x02, 0xEE, 0x91, 0xA3, 0x54, 0x4C, 0x99, 0x26,
        // Established timings none; standard timings unused
        0x0F, 0x50, 0x54, 0x00, 0x00, 0x00, 0x01, 0x01, 0x01, 0x01, 0x01, 0x01, 0x01, 0x01, 0x01, 0x01,
        // Standard timings unused; detailed timing 480x480 (h blank 40, v blank 33)
        0x01, 0x01, 0x01, 0x01, 0x01, 0x01, 0x40, 0x06, 0xE0, 0x28, 0x10, 0xE0, 0x21, 0x10, 0x10, 0x10,
        // Sync 3/3; image 70x70 mm; separate sync; name descriptor tag
        0x33, 0x00, 0x46, 0x46, 0x00, 0x00, 0x00, 0x1E, 0x00, 0x00, 0x00, 0xFC, 0x00, 0x00, 0x00, 0x00,
        // Name field (filled below); range-limit descriptor tag; 24..65 Hz vertical
        0x00, 0x00, 0x00, 0x00, 0x00, 0x00, 0x00, 0x00, 0x00, 0x00, 0x00, 0x00, 0x00, 0xFD, 0x00, 0x18,
        // 15..80 kHz horizontal, 100 MHz clock; serial descriptor tag
        0x41, 0x0F, 0x50, 0x0A, 0x00, 0x0A, 0x20, 0x20, 0x20, 0x20, 0x20, 0x20, 0x00, 0x00, 0x00, 0xFF,
        // Serial "0C390001\n"; no extensions; checksum (filled below)
        0x00, 0x30, 0x43, 0x33, 0x39, 0x30, 0x30, 0x30, 0x31, 0x0A, 0x20, 0x20, 0x20, 0x20, 0x00, 0x00,
    ];
    assert(edid@ =~= edid_template());
    let name_bytes = name.as_bytes();
    let name_len = if name_bytes.len() < 13 { name_bytes.len() } else { 13 };
    for j in 0..13usize
        invariant
            edid@.len() == 128,
            name_len <= 13,
            name_len == (if name_bytes@.len() < 13 { name_bytes@.len() as int } else { 13int }),
            forall|k: int| 0 <= k < 77 ==> edid@[k] == edid_template()[k],
            forall|k: int| 90 <= k < 128 ==> edid@[k] == edid_template()[k],
            forall|k: int| 0 <= k < j ==> edid@[77 + k] == edid_name_field(name_bytes@)[k],
    {
        let b: u8 = if j < name_len {
            name_bytes[j]
        } else if j == name_len {
            0x0A
        } else {
            0x20
        };
        edid[77 + j] = b;
    }
    let ghost body = edid@.take(127);
    assert(body =~= edid_body(name.spec_bytes()));
    let mut sum: u32 = 0;
    for i in 0..127usize
        invariant
            edid@.len() == 128,
            body == edid@.take(127),
            sum as int == byte_sum(body.take(i as int)),
            sum <= i * 255,
    {
        assert(body.take(i + 1).drop_last() =~= body.take(i as int));
        sum = sum + edid[i] as u32;
    }
    assert(body.take(127) =~= body);
    edid[127] = ((256 - (sum % 256)) % 256) as u8;
    assert(edid@ =~= edid_spec(name.spec_bytes()));
    edid
}

proof fn lemma_byte_sum_push(s: Seq<u8>, b: u8)
    ensures
        byte_sum(s.push(b)) == byte_sum(s) + b,
{
    assert(s.push(b).drop_last() =~= s);
}

/// Checksum law: the bytes of every generated EDID sum to a multiple of 256.
pub proof fn lemma_edid_checksum(name: Seq<u8>)
    ensures
        edid_spec(name).len() == 128,
        byte_sum(edid_spec(name)) % 256 == 0,
{
    let body = edid_body(name);
    lemma_byte_sum_push(body, edid_checksum(body));
    let s = byte_sum(body);
    assert(s >= 0) by {
        lemma_byte_sum_nonneg(body);
    }
    assert((s + (256 - s % 256) % 256) % 256 == 0) by (nonlinear_arith)
        requires
            s >= 0,
    {}
}

proof fn lemma_byte_sum_nonneg(s: Seq<u8>)
    ensures
        byte_sum(s) >= 0,
    decreases s.len(),
{
    if s.len() > 0 {
        lemma_byte_sum_nonneg(s.drop_last());
    }
}

/// Timing law: every generated EDID has the fixed EDID header
/// `00 FF FF FF FF FF FF 00`, and its first detailed timing descriptor
/// (bytes 54..72) advertises a 480x480 mode: horizontal active pixels are
/// byte 56 plus the high nibble of byte 58 times 256, vertical active lines
/// byte 59 plus the high nibble of byte 61 times 256, and both are 480.
pub proof fn lemma_edid_mode_480(name: Seq<u8>)
    ensures
        edid_spec(name).subrange(0, 8) == seq![0x00u8, 0xFF, 0xFF, 0xFF, 0xFF, 0xFF, 0xFF, 0x00],
        edid_spec(name)[56] as int + (edid_spec(name)[58] as int / 16) * 256 == 480,
        edid_spec(name)[59] as int + (edid_spec(name)[61] as int / 16) * 256 == 480,
{
    assert(edid_spec(name).subrange(0, 8) =~= seq![0x00u8, 0xFF, 0xFF, 0xFF, 0xFF, 0xFF, 0xFF, 0x00]);
}

/// Identity law: every generated EDID identifies the monitor as Corsair's:
/// manufacturer id 0x0DE2 (big-endian), product code 0x0C39 and serial number 1 (little-endian), made in
/// week 1 of 2024 (1990 + 34), EDID version 1.3, a digital input on a 7x7 cm
/// panel, no extension blocks; the detailed timing has a 16 MHz pixel
/// clock (units of 10 kHz), 40 pixels of horizontal and 33 lines of vertical
/// blanking, and a 70x70 mm image; descriptors follow at bytes 72 (monitor
/// name, tag FC), 90 (range limits, tag FD) and 108 (serial text, tag FF,
/// holding `0C390001` and a line feed).
pub proof fn lemma_edid_identity(name: Seq<u8>)
    ensures
        ({
            let e = edid_spec(name);
            &&& e[8] as int * 256 + e[9] as int == 0x0DE2
            &&& e[10] as int + e[11] as int * 256 == 0x0C39
            &&& e[12] as int + e[13] as int * 256 + e[14] as int * 65536 + e[15] as int * 16777216 == 1
            &&& e[16] == 1u8 && 1990 + e[17] as int == 2024
            &&& e[18] == 1u8 && e[19] == 3u8
            &&& e[20] >= 0x80u8 && e[21] == 7u8 && e[22] == 7u8
            &&& e[126] == 0u8
            &&& e[54] as int + e[55] as int * 256 == 1600
            &&& e[57] as int + (e[58] as int % 16) * 256 == 40
            &&& e[60] as int + (e[61] as int % 16) * 256 == 33
            &&& e[66] as int + (e[68] as int / 16) * 256 == 70
            &&& e[67] as int + (e[68] as int % 16) * 256 == 70
            &&& e.subrange(72, 77) == seq![0x00u8, 0x00, 0x00, 0xFC, 0x00]
            &&& e.subrange(90, 95) == seq![0x00u8, 0x00, 0x00, 0xFD, 0x00]
            &&& e.subrange(108, 113) == seq![0x00u8, 0x00, 0x00, 0xFF, 0x00]
            &&& e.subrange(113, 122) == seq![0x30u8, 0x43, 0x33, 0x39, 0x30, 0x30, 0x30, 0x31, 0x0A]
        }),
{
    let e = edid_spec(name);
    assert(e.subrange(72, 77) =~= seq![0x00u8, 0x00, 0x00, 0xFC, 0x00]);
    assert(e.subrange(90, 95) =~= seq![0x00u8, 0x00, 0x00, 0xFD, 0x00]);
    assert(e.subrange(108, 113) =~= seq![0x00u8, 0x00, 0x00, 0xFF, 0x00]);
    assert(e.subrange(113, 122) =~= seq![0x30u8, 0x43, 0x33, 0x39, 0x30, 0x30, 0x30, 0x31, 0x0A]);
}

/// Name law: a monitor name of at most 13 bytes stands verbatim at bytes
/// 77.. of the EDID, right after the name descriptor's tag `00 00 00 FC 00`.
pub proof fn lemma_edid_name(name: Seq<u8>)
    requires
        name.len() <= 13,
    ensures
        edid_spec(name).subrange(72, 77) == seq![0x00u8, 0x00, 0x00, 0xFC, 0x00],
        edid_spec(name).subrange(77, 77 + name.len() as int) == name,
{
    assert(edid_spec(name).subrange(72, 77) =~= seq![0x00u8, 0x00, 0x00, 0xFC, 0x00]);
    assert(edid_spec(name).subrange(77, 77 + name.len() as int) =~= name);
}


/// The virtual-display driver settings: one 480x480 monitor at 30 Hz using
/// the custom EDID.
pub const VDD_SETTINGS_XML: &'static str = "<?xml version=\"1.0\" encoding=\"utf-8\"?>
<vdd_settings>
  <monitors><count>1</count></monitors>
  <gpu><friendlyname>default</friendlyname></gpu>
  <global><g_refresh_rate>30</g_refresh_rate></global>
  <resolutions>
    <resolution><width>480</width><height>480</height><refresh_rate>30</refresh_rate></resolution>
  </resolutions>
  <options>
    <CustomEdid>true</CustomEdid><PreventSpoof>false</PreventSpoof>
    <EdidCeaOverride>false</EdidCeaOverride><HardwareCursor>true</HardwareCursor>
    <SDR10bit>false</SDR10bit><HDRPlus>false</HDRPlus>
    <logging>false</logging><debuglogging>false</debuglogging>
  </options>
</vdd_settings>
";

/// Driver settings text enables the custom EDID and a 480-pixel-wide mode.
pub open spec fn settings_xml_ready(text: Seq<char>) -> bool {
    contains_seq(text, "<CustomEdid>true</CustomEdid>"@) && contains_seq(text, "<width>480</width>"@)
}

/// Whether existing driver settings already configure the 480x480 monitor.
pub fn vdd_settings_ready(text: &str) -> (r: bool)
    ensures
        r == settings_xml_ready(text@),
{
    let chars = chars_of(text);
    let custom = chars_of("<CustomEdid>true</CustomEdid>");
    let width = chars_of("<width>480</width>");
    contains(&chars, &custom) && contains(&chars, &width)
}

/// Whether the EDID file must be (re)written: it could not be read, or it
/// differs from the EDID the monitor needs.
pub fn edid_needs_write(existing: Option<&[u8]>, expected: &[u8; 128]) -> (r: bool)
    ensures
        r == match existing {
            None => true,
            Some(bytes) => bytes@ != expected@,
        },
{
    match existing {
        None => true,
        Some(bytes) => {
            assert(expected@.len() == 128);
            if bytes.len() != 128 {
                return true;
            }
            for i in 0..128usize
                invariant
                    bytes@.len() == 128,
                    expected@.len() == 128,
                    existing == Some(bytes),
                    forall|k: int| 0 <= k < i ==> bytes@[k] == expected@[k],
            {
                if bytes[i] != expected[i] {
                    assert(bytes@[i as int] != expected@[i as int]);
                    return true;
                }
            }
            assert(bytes@ =~= expected@);
            false
        }
    }
}

/// Whether the driver settings file must be (re)written: it could not be
/// read, or it does not configure the 480x480 monitor.
pub fn settings_need_write(existing: Option<&str>) -> (r: bool)
    ensures
        r == match existing {
            None => true,
            Some(text) => !settings_xml_ready(text@),
        },
{
    match existing {
        None => true,
        Some(text) => !vdd_settings_ready(text),
    }
}

/// `DISPLAY_DEVICE_ATTACHED_TO_DESKTOP`: the display is part of the desktop.
pub const ATTACHED_TO_DESKTOP: u32 = 1;

/// A display device is the virtual monitor, attached to the desktop: its
/// device id, in ASCII lower case, names the `mttvdd` driver.
pub open spec fn is_attached_vdd(device_id: Seq<char>, state_flags: u32) -> bool {
    contains_seq(crate::text::ascii_lower(device_id), "mttvdd"@) && state_flags & ATTACHED_TO_DESKTOP != 0
}

/// Whether a display device (its zero-terminated UTF-16 id and state flags)
/// is the attached virtual monitor.
pub fn vdd_attached(device_id: &[u16], state_flags: u32) -> (r: bool)
    ensures
        r == is_attached_vdd(
            crate::text::utf16_lossy(device_id@.take(crate::text::wide_len(device_id@))),
            state_flags,
        ),
{
    let id = crate::text::from_wide(device_id);
    let chars = chars_of(id.as_str());
    let lower = crate::text::to_ascii_lower(&chars);
    let tag = chars_of("mttvdd");
    contains(&lower, &tag) && state_flags & ATTACHED_TO_DESKTOP != 0
}

/// A display device belongs to the virtual-display driver: its id, in
/// ASCII lower case, names `mttvdd`.
pub fn vdd_device(device_id: &[u16]) -> (r: bool)
    ensures
        r == contains_seq(
            crate::text::ascii_lower(crate::text::utf16_lossy(device_id@.take(crate::text::wide_len(device_id@)))),
            "mttvdd"@,
        ),
{
    let id = crate::text::from_wide(device_id);
    let chars = chars_of(id.as_str());
    let lower = crate::text::to_ascii_lower(&chars);
    let tag = chars_of("mttvdd");
    contains(&lower, &tag)
}

/// A line of the display-device listing that names the virtual-display
/// driver.
pub open spec fn names_vdd(line: Seq<char>) -> bool {
    contains_seq(line, "Virtual Display Driver"@) || contains_seq(line, "MikeTheTech"@)
        || contains_seq(line, "MttVDD"@)
}

/// Reading the display-device listing line by line: the instance ids to
/// restart so far, and the id of the device being described.
pub open spec fn restart_scan(lines: Seq<Seq<char>>) -> (Seq<Seq<char>>, Seq<char>)
    decreases lines.len(),
{
    if lines.len() == 0 {
        (Seq::empty(), Seq::empty())
    } else {
        let (ids, current) = restart_scan(lines.drop_last());
        let t = trim(lines.last());
        if starts_with_seq(t, "Instance ID:"@) {
            (ids, trim(t.subrange(12, t.len() as int)))
        } else if names_vdd(t) && current.len() > 0 {
            (ids.push(current), current)
        } else {
            (ids, current)
        }
    }
}

/// The devices restarted to reload the driver's settings: each device of
/// the display-class listing whose description names the driver (once per
/// such line), then `Root\MttVDD` itself.
pub open spec fn restart_targets(listing: Seq<char>) -> Seq<Seq<char>> {
    restart_scan(lines_spec(listing)).0.push("Root\\MttVDD"@)
}

/// The instance ids to restart, from the display-class device listing that
/// `pnputil /enum-devices /class Display` printed (decoded lossily).
pub fn devices_to_restart(stdout: &[u8]) -> (ids: Vec<String>)
    ensures
        ids@.map_values(|s: String| s@) == restart_targets(crate::text::utf8_lossy(stdout@)),
{
    let text = crate::text::lossy_string(stdout);
    let chars = chars_of(text.as_str());
    let lines = split_lines(&chars);
    let ghost views = lines@.map_values(|l: Vec<char>| l@);
    let prefix = chars_of("Instance ID:");
    let tag1 = chars_of("Virtual Display Driver");
    let tag2 = chars_of("MikeTheTech");
    let tag3 = chars_of("MttVDD");
    proof {
        reveal_strlit("Instance ID:");
    }
    let mut ids: Vec<String> = Vec::new();
    let mut current: Vec<char> = Vec::new();
    for i in 0..lines.len()
        invariant
            views == lines@.map_values(|l: Vec<char>| l@),
            prefix@ == "Instance ID:"@,
            prefix@.len() == 12,
            tag1@ == "Virtual Display Driver"@,
            tag2@ == "MikeTheTech"@,
            tag3@ == "MttVDD"@,
            ids@.map_values(|s: String| s@) == restart_scan(views.take(i as int)).0,
            current@ == restart_scan(views.take(i as int)).1,
    {
        proof {
            assert(views.take(i as int + 1).drop_last() =~= views.take(i as int));
            assert(views.take(i as int + 1).last() == lines@[i as int]@);
        }
        let t = trim_chars(&lines[i]);
        if starts_with(&t, &prefix) {
            let rest = slice_chars(&t, 12, t.len());
            current = trim_chars(&rest);
        } else if (contains(&t, &tag1) || contains(&t, &tag2) || contains(&t, &tag3)) && current.len() > 0 {
            let ghost before = ids@.map_values(|s: String| s@);
            let id = string_of(&current);
            ids.push(id);
            assert(ids@.map_values(|s: String| s@) =~= before.push(current@));
        }
    }
    assert(views.take(lines@.len() as int) =~= views);
    let ghost before = ids@.map_values(|s: String| s@);
    ids.push(String::from_str("Root\\MttVDD"));
    assert(ids@.map_values(|s: String| s@) =~= before.push("Root\\MttVDD"@));
    ids
}

/// The Windows display layouts the app switches between.
#[derive(Clone, Copy, Debug, PartialEq, Eq)]
pub enum DisplayLayout {
    /// Extend the desktop onto the virtual monitor.
    Extend,
    /// Show only the internal (primary) display.
    Internal,
}

impl DisplayLayout {
    /// The `DisplaySwitch.exe` argument for this layout.
    pub fn argument(self) -> (s: &'static str)
        ensures
            self == DisplayLayout::Extend ==> s@ == "/extend"@,
            self == DisplayLayout::Internal ==> s@ == "/internal"@,
    {
        match self {
            DisplayLayout::Extend => "/extend",
            DisplayLayout::Internal => "/internal",
        }
    }
}

/// Why switching the virtual monitor on failed.
#[derive(Debug, PartialEq, Eq)]
pub enum ActivateError {
    /// Windows could not change the display layout (its text).
    Switch(String),
    /// The driver is missing and the app is not elevated to install it.
    NotInstalled,
    /// The monitor never appeared.
    Unavailable,
}

/// What to do next while switching the virtual monitor on.
#[derive(Debug, PartialEq, Eq)]
pub enum ActivateStep {
    /// Run `DisplaySwitch` with this layout and report its outcome.
    Switch(DisplayLayout),
    /// Wait 100 ms, then check again whether the monitor is attached.
    WaitAndCheck,
    /// The monitor is attached: let the desktop compose for 200 ms; done.
    Settle,
    /// Check whether the driver is installed and the app elevated.
    CheckDriver,
    /// Finished.
    Done(Result<(), ActivateError>),
}

/// Number of attachment checks after extending the desktop.
pub const ATTACH_CHECKS: u32 = 30;

/// The virtual monitor's on/off decisions.
pub struct VirtualDisplayManager;

impl VirtualDisplayManager {
    /// Whether the virtual monitor is ready: the driver is installed, the
    /// EDID file exists, and the settings file configures the monitor.
    pub fn is_ready(driver_installed: bool, edid_present: bool, settings_text: Option<&str>) -> (r: bool)
        ensures
            r == (driver_installed && edid_present && match settings_text {
                Some(t) => settings_xml_ready(t@),
                None => false,
            }),
    {
        if !driver_installed || !edid_present {
            return false;
        }
        match settings_text {
            Some(t) => vdd_settings_ready(t),
            None => false,
        }
    }

    /// Switching off: show only the internal display when the virtual monitor is attached.
    pub fn deactivate(monitor_attached: bool) -> (r: Option<DisplayLayout>)
        ensures
            monitor_attached ==> r == Some(DisplayLayout::Internal),
            !monitor_attached ==> r is None,
    {
        if monitor_attached {
            Some(DisplayLayout::Internal)
        } else {
            None
        }
    }

    /// After configuring: fail with its error; otherwise restart the driver
    /// when elevated (`Some(true)`), or finish (`Some(false)`).
    pub fn configure_and_restart(configured: Result<(), String>, is_admin: bool) -> (r: Result<bool, String>)
        ensures
            match configured {
                Err(e) => r == Err::<bool, String>(e),
                Ok(()) => r == Ok::<bool, String>(is_admin),
            },
    {
        match configured {
            Err(e) => Err(e),
            Ok(()) => Ok(is_admin),
        }
    }

    /// First step of switching on: nothing to do when the monitor is
    /// already attached, else extend the desktop.
    pub fn activate(monitor_attached: bool) -> (step: ActivateStep)
        ensures
            monitor_attached ==> step == ActivateStep::Done(Ok(())),
            !monitor_attached ==> step == ActivateStep::Switch(DisplayLayout::Extend),
    {
        if monitor_attached {
            ActivateStep::Done(Ok(()))
        } else {
            ActivateStep::Switch(DisplayLayout::Extend)
        }
    }

    /// After `DisplaySwitch /extend`: fail with its error, else check attachment.
    pub fn after_switch(result: Result<(), String>) -> (step: ActivateStep)
        ensures
            match result {
                Err(e) => step == ActivateStep::Done(Err(ActivateError::Switch(e))),
                Ok(()) => step == ActivateStep::WaitAndCheck,
            },
    {
        match result {
            Err(e) => ActivateStep::Done(Err(ActivateError::Switch(e))),
            Ok(()) => ActivateStep::WaitAndCheck,
        }
    }

    /// After the `checks`-th attachment check (counting from 1): settle when
    /// attached, check again while fewer than 30 checks were made, else
    /// inspect the driver.
    pub fn after_check(checks: u32, attached: bool) -> (step: ActivateStep)
        ensures
            attached ==> step == ActivateStep::Settle,
            !attached && checks < ATTACH_CHECKS ==> step == ActivateStep::WaitAndCheck,
            !attached && checks >= ATTACH_CHECKS ==> step == ActivateStep::CheckDriver,
    {
        if attached {
            ActivateStep::Settle
        } else if checks < ATTACH_CHECKS {
            ActivateStep::WaitAndCheck
        } else {
            ActivateStep::CheckDriver
        }
    }

    /// The error when the monitor never appeared.
    pub fn after_driver_check(driver_installed: bool, is_admin: bool) -> (e: ActivateError)
        ensures
            !driver_installed && !is_admin ==> e == ActivateError::NotInstalled,
            driver_installed || is_admin ==> e == ActivateError::Unavailable,
    {
        if !driver_installed && !is_admin {
            ActivateError::NotInstalled
        } else {
            ActivateError::Unavailable
        }
    }
}

impl ActivateError {
    /// The error text.
    pub fn message(&self) -> (s: String)
        ensures
            s@ == (match self {
                ActivateError::Switch(e) => e@,
                ActivateError::NotInstalled => "Virtual Screen is not installed.\n\nPlease run Corsair Elite Display as Administrator to install and configure it."@,
                ActivateError::Unavailable => "The Corsair Virtual Screen is not available. Please verify the display driver is installed."@,
            }),
    {
        match self {
            ActivateError::Switch(e) => e.clone(),
            ActivateError::NotInstalled => String::from_str(
                "Virtual Screen is not installed.\n\nPlease run Corsair Elite Display as Administrator to install and configure it.",
            ),
            ActivateError::Unavailable => String::from_str(
                "The Corsair Virtual Screen is not available. Please verify the display driver is installed.",
            ),
        }
    }
}

/// The error when `DisplaySwitch` ran but reported failure.
pub open spec fn layout_refused_text() -> Seq<char> {
    "Windows could not change the display layout"@
}

/// The outcome of running `DisplaySwitch`: its exit status decides.
pub fn switch_outcome(success: bool) -> (r: Result<(), String>)
    ensures
        r is Ok <==> success,
        r matches Err(e) ==> e@ == layout_refused_text(),
{
    if success {
        Ok(())
    } else {
        Err(String::from_str("Windows could not change the display layout"))
    }
}

/// A file of the driver configuration.
#[derive(Clone, Copy, Debug, PartialEq, Eq, Structural)]
pub enum ConfigFile {
    /// The `C:\VirtualDisplayDriver` folder.
    Folder,
    /// `user_edid.bin`.
    Edid,
    /// `vdd_settings.xml`.
    Settings,
}

pub open spec fn configure_failure_text(file: ConfigFile, is_admin: bool, error: Seq<char>) -> Seq<char> {
    if !is_admin {
        match file {
            ConfigFile::Folder => "Administrator privileges are required to configure the Virtual Screen.\n\nPlease run Corsair Elite Display as Administrator."@,
            ConfigFile::Edid => "Administrator privileges are required to configure the Virtual Screen EDID.\n\nPlease run Corsair Elite Display as Administrator."@,
            ConfigFile::Settings => "Administrator privileges are required to configure Virtual Screen settings.\n\nPlease run Corsair Elite Display as Administrator."@,
        }
    } else {
        match file {
            ConfigFile::Folder => "Could not create C:\\VirtualDisplayDriver folder: "@ + error,
            ConfigFile::Edid => "Could not write user_edid.bin: "@ + error,
            ConfigFile::Settings => "Could not write vdd_settings.xml: "@ + error,
        }
    }
}

/// The error when a configuration file could not be written: without
/// elevation the user is asked to run the app as administrator; elevated,
/// the file-system error is reported.
pub fn configure_failure(file: ConfigFile, is_admin: bool, error: &str) -> (s: String)
    ensures
        s@ == configure_failure_text(file, is_admin, error@),
{
    if !is_admin {
        match file {
            ConfigFile::Folder => String::from_str(
                "Administrator privileges are required to configure the Virtual Screen.\n\nPlease run Corsair Elite Display as Administrator.",
            ),
            ConfigFile::Edid => String::from_str(
                "Administrator privileges are required to configure the Virtual Screen EDID.\n\nPlease run Corsair Elite Display as Administrator.",
            ),
            ConfigFile::Settings => String::from_str(
                "Administrator privileges are required to configure Virtual Screen settings.\n\nPlease run Corsair Elite Display as Administrator.",
            ),
        }
    } else {
        let mut v: Vec<char> = Vec::new();
        match file {
            ConfigFile::Folder => push_str(&mut v, "Could not create C:\\VirtualDisplayDriver folder: "),
            ConfigFile::Edid => push_str(&mut v, "Could not write user_edid.bin: "),
            ConfigFile::Settings => push_str(&mut v, "Could not write vdd_settings.xml: "),
        }
        push_str(&mut v, error);
        string_of(&v)
    }
}

/// With the driver missing: without elevation, the error telling the user
/// to run the app as administrator once; elevated, `None` (install it).
pub fn driver_missing(is_admin: bool) -> (r: Option<String>)
    ensures
        r is Some <==> !is_admin,
        r matches Some(e) ==> e@ == "The Corsair Virtual Screen driver is not installed.\n\nAdministrator privileges are required to install it.\nPlease right-click Corsair Elite Display and choose 'Run as administrator' once."@,
{
    if is_admin {
        None
    } else {
        Some(String::from_str(
            "The Corsair Virtual Screen driver is not installed.\n\nAdministrator privileges are required to install it.\nPlease right-click Corsair Elite Display and choose 'Run as administrator' once.",
        ))
    }
}

/// Why an operation on the driver failed.
#[derive(Clone, Copy, Debug, PartialEq, Eq, Structural)]
pub enum DriverError {
    /// Installing needs elevation.
    InstallNeedsAdmin,
    /// Restarting the device needs elevation.
    RestartNeedsAdmin,
    /// The user cancelled the elevation prompt.
    ElevationCancelled,
    /// Elevation failed with this Windows error.
    ElevationFailed(u32),
    /// The device did not appear after installing.
    NotDetected,
    /// The device was still there after uninstalling.
    StillDetected,
}

pub open spec fn driver_error_text(e: DriverError) -> Seq<char> {
    match e {
        DriverError::InstallNeedsAdmin => "Administrator privileges are required to install the Virtual Screen driver.\n\nPlease run the application as Administrator."@,
        DriverError::RestartNeedsAdmin => "Administrator privileges are required to restart the Virtual Display device.\n\nPlease run Corsair Elite Display as Administrator."@,
        DriverError::ElevationCancelled => "Administrator permissions were not granted (UAC prompt was cancelled)."@,
        DriverError::ElevationFailed(code) => "Failed to request administrator privileges (Windows error "@
            + crate::text::decimal(code as nat) + ")."@,
        DriverError::NotDetected => "The driver installation completed, but the Virtual Display device was not detected by Windows."@,
        DriverError::StillDetected => "The driver uninstallation completed, but the Virtual Display device is still detected."@,
    }
}

impl DriverError {
    /// The error text.
    pub fn message(&self) -> (s: String)
        ensures
            s@ == driver_error_text(*self),
    {
        match *self {
            DriverError::InstallNeedsAdmin => String::from_str(
                "Administrator privileges are required to install the Virtual Screen driver.\n\nPlease run the application as Administrator.",
            ),
            DriverError::RestartNeedsAdmin => String::from_str(
                "Administrator privileges are required to restart the Virtual Display device.\n\nPlease run Corsair Elite Display as Administrator.",
            ),
            DriverError::ElevationCancelled => String::from_str(
                "Administrator permissions were not granted (UAC prompt was cancelled).",
            ),
            DriverError::ElevationFailed(code) => {
                let mut v: Vec<char> = Vec::new();
                push_str(&mut v, "Failed to request administrator privileges (Windows error ");
                crate::text::push_decimal(&mut v, code as u64);
                push_str(&mut v, ").");
                string_of(&v)
            },
            DriverError::NotDetected => String::from_str(
                "The driver installation completed, but the Virtual Display device was not detected by Windows.",
            ),
            DriverError::StillDetected => String::from_str(
                "The driver uninstallation completed, but the Virtual Display device is still detected.",
            ),
        }
    }
}

/// Windows' error for a cancelled elevation prompt.
pub const ERROR_CANCELLED: u32 = 1223;

/// The error for a failed elevation request.
pub fn elevation_failure(code: u32) -> (e: DriverError)
    ensures
        e == (if code == ERROR_CANCELLED {
            DriverError::ElevationCancelled
        } else {
            DriverError::ElevationFailed(code)
        }),
{
    if code == ERROR_CANCELLED {
        DriverError::ElevationCancelled
    } else {
        DriverError::ElevationFailed(code)
    }
}

/// The error when `pnputil` failed to add the driver: its output, standard
/// output first (each decoded lossily).
pub fn pnputil_failure(stdout: &[u8], stderr: &[u8]) -> (s: String)
    ensures
        s@ == "Driver installation failed:\n"@ + crate::text::utf8_lossy(stdout@) + crate::text::utf8_lossy(stderr@),
{
    let out = crate::text::lossy_string(stdout);
    let err = crate::text::lossy_string(stderr);
    let mut v: Vec<char> = Vec::new();
    push_str(&mut v, "Driver installation failed:\n");
    push_str(&mut v, out.as_str());
    push_str(&mut v, err.as_str());
    string_of(&v)
}

/// Checks for the device after an install (it must appear) or an uninstall
/// (it must vanish), 200 ms apart.
pub const INSTALL_CHECKS: u32 = 30;
pub const UNINSTALL_CHECKS: u32 = 25;

/// After the checks: the install's outcome by whether the device is there.
pub fn install_outcome(installed: bool) -> (r: Result<(), DriverError>)
    ensures
        r == (if installed { Ok(()) } else { Err(DriverError::NotDetected) }),
{
    if installed { Ok(()) } else { Err(DriverError::NotDetected) }
}

/// After the checks: the uninstall's outcome by whether the device is gone.
pub fn uninstall_outcome(installed: bool) -> (r: Result<(), DriverError>)
    ensures
        r == (if installed { Err(DriverError::StillDetected) } else { Ok(()) }),
{
    if installed { Err(DriverError::StillDetected) } else { Ok(()) }
}

} // verus!
