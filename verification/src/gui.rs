//! What the dashboard and the tray display, as plain functions over plain
//! data: the mapping from daemon state to labels, colours and slider bounds,
//! the requests the UI sends, and the tray's own state.

use vstd::prelude::*;

use crate::battery::{cm_from_sysfs_spec, cm_label, BatteryStats, ChargeMode};
use crate::detect::{ov, Capabilities};
use crate::firmware_attrs::{attr_views, AttrInfo, AttrInfoView};
use crate::profile::{from_sysfs_spec, hex_of, label_of, led_of, PowerProfile};
use crate::sysfs::strings;
use crate::text::{cat, chars_of, dec, dec_string, owned, str_eq};

verus! {

pub const BUS_NAME: &'static str = "org.legiontoolkit.Daemon";

pub const OBJECT_PATH: &'static str = "/org/legiontoolkit/Daemon";

pub const IFACE: &'static str = "org.legiontoolkit.Daemon1";

/// Abstract-namespace socket name whose bind marks a running instance.
pub const SOCKET_NAME: &'static str = "legion-toolkit.lock";

/// Slider bounds and value for one power limit.
#[derive(Debug, Clone, Copy, PartialEq, Eq, Default, Structural)]
pub struct SliderBounds {
    pub value: i32,
    pub min: i32,
    pub max: i32,
}

/// `x as i32`: the `u32` read as two's complement.
pub open spec fn wrap_i32(x: u32) -> int {
    if x <= i32::MAX {
        x as int
    } else {
        x - 0x1_0000_0000
    }
}

/// The slider's (min, max) for an attribute: the firmware's range, or,
/// when the firmware's maximum is not above its minimum, a range one step
/// wide starting at the minimum (ending at it when the minimum is already
/// `i32::MAX`), so the slider never has zero width.
pub open spec fn slider_range(a: AttrInfoView) -> (int, int) {
    let min = wrap_i32(a.min);
    if a.max > a.min {
        (min, wrap_i32(a.max))
    } else if min == i32::MAX {
        (i32::MAX - 1, i32::MAX as int)
    } else {
        (min, min + 1)
    }
}

/// `Ord::clamp`.
pub open spec fn clamp(v: int, lo: int, hi: int) -> int {
    if v < lo {
        lo
    } else if v > hi {
        hi
    } else {
        v
    }
}

/// Distinct `u32`s read as distinct `i32`s.
proof fn lemma_wrap_injective(x: u32, y: u32)
    requires
        x != y,
    ensures
        wrap_i32(x) != wrap_i32(y),
{
}

fn as_i32(x: u32) -> (r: i32)
    ensures
        r == wrap_i32(x),
{
    let r = x as i32;
    assert(x <= 0x7fff_ffffu32 ==> r as u32 == x && r >= 0) by (bit_vector)
        requires
            r == x as i32,
    ;
    assert(x > 0x7fff_ffffu32 ==> r < 0 && (r as i64) == (x as i64) - 0x1_0000_0000i64) by (bit_vector)
        requires
            r == x as i32,
    ;
    r
}

impl SliderBounds {
    /// Derive the slider from a firmware attribute, clamping a nonsensical
    /// firmware range rather than letting the UI divide by zero.
    pub fn from_attr(a: &AttrInfo) -> (r: SliderBounds)
        requires
            slider_range(a@).0 <= slider_range(a@).1,
        ensures
            r.min < r.max,
            r.min <= r.value <= r.max,
            r.min == slider_range(a@).0,
            r.max == slider_range(a@).1,
            r.value == clamp(wrap_i32(a.current), slider_range(a@).0, slider_range(a@).1),
    {
        let lo = as_i32(a.min);
        let (min, max) = if a.max > a.min {
            (lo, as_i32(a.max))
        } else if lo == i32::MAX {
            (i32::MAX - 1, i32::MAX)
        } else {
            (lo, lo + 1)
        };
        proof {
            if a.max > a.min {
                lemma_wrap_injective(a.min, a.max);
            }
        }
        let v = as_i32(a.current);
        let value = if v < min {
            min
        } else if v > max {
            max
        } else {
            v
        };
        SliderBounds { value, min, max }
    }

    /// Look up one attribute by short key in the daemon's `GetPpt` list; a
    /// zeroed slider when there is none.
    pub fn find(attrs: &Vec<AttrInfo>, key: &str) -> (r: SliderBounds)
        requires
            key_usable(attr_views(attrs@), key@),
        ensures
            match first_with_key(attr_views(attrs@), key@) {
                Some(a) => r.min == slider_range(a).0 && r.max == slider_range(a).1 && r.value
                    == clamp(wrap_i32(a.current), slider_range(a).0, slider_range(a).1),
                None => r == SliderBounds { value: 0, min: 0, max: 0 },
            },
    {
        let ghost vs = attr_views(attrs@);
        let mut i: usize = 0;
        assert(vs.skip(0) =~= vs);
        while i < attrs.len()
            invariant
                i <= attrs@.len() == vs.len(),
                vs == attr_views(attrs@),
                key_usable(vs, key@),
                first_with_key(vs, key@) == first_with_key(vs.skip(i as int), key@),
            decreases attrs.len() - i,
        {
            proof {
                let t = vs.skip(i as int);
                assert(t[0] == attrs@[i as int]@);
                assert(t.drop_first() =~= vs.skip(i + 1));
            }
            if str_eq(attrs[i].key.as_str(), key) {
                return SliderBounds::from_attr(&attrs[i]);
            }
            i = i + 1;
        }
        SliderBounds { value: 0, min: 0, max: 0 }
    }
}

/// The slider range of the first attribute with key `key`, if there is
/// one, is usable: its minimum is not above its maximum.
pub open spec fn key_usable(vs: Seq<AttrInfoView>, key: Seq<char>) -> bool {
    match first_with_key(vs, key) {
        Some(a) => slider_range(a).0 <= slider_range(a).1,
        None => true,
    }
}

/// Can a slider be derived from `a` (`from_attr`'s precondition)?
pub fn slider_usable(a: &AttrInfo) -> (r: bool)
    ensures
        r == (slider_range(a@).0 <= slider_range(a@).1),
{
    if a.max > a.min {
        as_i32(a.min) <= as_i32(a.max)
    } else {
        true
    }
}

/// Can the slider of `key` be derived from `attrs` (`find`'s
/// precondition)?
pub fn range_usable(attrs: &Vec<AttrInfo>, key: &str) -> (r: bool)
    ensures
        r == key_usable(attr_views(attrs@), key@),
{
    let ghost vs = attr_views(attrs@);
    let mut i: usize = 0;
    assert(vs.skip(0) =~= vs);
    while i < attrs.len()
        invariant
            i <= attrs@.len() == vs.len(),
            vs == attr_views(attrs@),
            first_with_key(vs, key@) == first_with_key(vs.skip(i as int), key@),
        decreases attrs.len() - i,
    {
        proof {
            let t = vs.skip(i as int);
            assert(t[0] == attrs@[i as int]@);
            assert(t.drop_first() =~= vs.skip(i + 1));
        }
        if str_eq(attrs[i].key.as_str(), key) {
            return slider_usable(&attrs[i]);
        }
        i = i + 1;
    }
    true
}

/// Can the dashboard be derived from a snapshot with power limits `ppt`
/// (`DashboardView::from_snapshot`'s precondition)?
pub fn sliders_usable(ppt: &Vec<AttrInfo>) -> (r: bool)
    ensures
        r == ranges_usable(attr_views(ppt@)),
{
    range_usable(ppt, "spl") && range_usable(ppt, "sppt") && range_usable(ppt, "fppt")
}

/// The first attribute with key `key`.
pub open spec fn first_with_key(vs: Seq<AttrInfoView>, key: Seq<char>) -> Option<AttrInfoView>
    decreases vs.len(),
{
    if vs.len() == 0 {
        None
    } else if vs[0].key == key {
        Some(vs[0])
    } else {
        first_with_key(vs.drop_first(), key)
    }
}

/// The colour shown for a profile token that names no profile.
pub open spec fn neutral_hex() -> Seq<char> {
    "#99a0b0"@
}

/// What `profile_color` gives.
pub open spec fn profile_color_spec(profile: Seq<char>) -> Seq<char> {
    match from_sysfs_spec(profile) {
        Ok(p) => hex_of(led_of(p)),
        Err(_) => neutral_hex(),
    }
}

/// The colour of the power-button LED for a profile, as `#rrggbb`.
pub fn profile_color(profile: &str) -> (r: String)
    ensures
        r@ == profile_color_spec(profile@),
{
    match PowerProfile::from_sysfs(profile) {
        Ok(p) => owned(p.led_color().hex()),
        Err(_) => owned("#99a0b0"),
    }
}

/// The value of a hexadecimal digit.
pub open spec fn hex_digit(c: char) -> Option<u8> {
    if '0' <= c && c <= '9' {
        Some(((c as u32) - 48) as u8)
    } else if 'a' <= c && c <= 'f' {
        Some(((c as u32) - 87) as u8)
    } else if 'A' <= c && c <= 'F' {
        Some(((c as u32) - 55) as u8)
    } else {
        None
    }
}

/// `u8::from_str_radix(s, 16)` for a two-character `s`: an optional `+`,
/// then hexadecimal digits.
pub open spec fn hex_pair(a: char, b: char) -> Option<u8> {
    if a == '+' {
        hex_digit(b)
    } else {
        match (hex_digit(a), hex_digit(b)) {
            (Some(x), Some(y)) => Some((x * 16 + y) as u8),
            _ => None,
        }
    }
}

/// What `parse_hex` gives: `#` and three two-character components.
pub open spec fn parse_hex_spec(hex: Seq<char>) -> Option<(u8, u8, u8)> {
    if hex.len() == 7 && hex[0] == '#' {
        match (hex_pair(hex[1], hex[2]), hex_pair(hex[3], hex[4]), hex_pair(hex[5], hex[6])) {
            (Some(r), Some(g), Some(b)) => Some((r, g, b)),
            _ => None,
        }
    } else {
        None
    }
}

fn digit16(c: char) -> (r: Option<u8>)
    ensures
        r == hex_digit(c),
{
    if '0' <= c && c <= '9' {
        Some(((c as u32) - 48) as u8)
    } else if 'a' <= c && c <= 'f' {
        Some(((c as u32) - 87) as u8)
    } else if 'A' <= c && c <= 'F' {
        Some(((c as u32) - 55) as u8)
    } else {
        None
    }
}

fn pair16(a: char, b: char) -> (r: Option<u8>)
    ensures
        r == hex_pair(a, b),
{
    if a == '+' {
        digit16(b)
    } else {
        match (digit16(a), digit16(b)) {
            (Some(x), Some(y)) => Some(x * 16 + y),
            _ => None,
        }
    }
}

/// Parse `#rrggbb`. Returns `None` for anything else rather than panicking on
/// a malformed colour constant.
pub fn parse_hex(hex: &str) -> (r: Option<(u8, u8, u8)>)
    ensures
        r == parse_hex_spec(hex@),
{
    let v = chars_of(hex);
    if v.len() != 7 || v[0] != '#' {
        return None;
    }
    match (pair16(v[1], v[2]), pair16(v[3], v[4]), pair16(v[5], v[6])) {
        (Some(r), Some(g), Some(b)) => Some((r, g, b)),
        _ => None,
    }
}

/// What `profile_rgb` gives.
pub open spec fn profile_rgb_spec(profile: Seq<char>) -> (u8, u8, u8) {
    match parse_hex_spec(profile_color_spec(profile)) {
        Some(c) => c,
        None => (0x99, 0xa0, 0xb0),
    }
}

/// The same colour as RGB components, for Slint's `brush` properties.
pub fn profile_rgb(profile: &str) -> (r: (u8, u8, u8))
    ensures
        r == profile_rgb_spec(profile@),
{
    let c = profile_color(profile);
    match parse_hex(c.as_str()) {
        Some(t) => t,
        None => (0x99, 0xa0, 0xb0),
    }
}

/// What `profile_label` gives.
pub open spec fn profile_label_spec(profile: Seq<char>) -> Seq<char> {
    match from_sysfs_spec(profile) {
        Ok(p) => label_of(p),
        Err(_) => profile,
    }
}

/// Human label for a kernel profile token.
pub fn profile_label(profile: &str) -> (r: String)
    ensures
        r@ == profile_label_spec(profile@),
{
    match PowerProfile::from_sysfs(profile) {
        Ok(p) => owned(p.label()),
        Err(_) => owned(profile),
    }
}

/// Labels for a whole choice list, preserving order.
pub fn profile_labels(choices: &Vec<String>) -> (r: Vec<String>)
    ensures
        r@.len() == choices@.len(),
        forall|i: int| 0 <= i < r@.len() ==> #[trigger] r@[i]@ == profile_label_spec(choices@[i]@),
{
    let mut out: Vec<String> = Vec::new();
    let mut i: usize = 0;
    while i < choices.len()
        invariant
            i <= choices@.len(),
            out@.len() == i,
            forall|k: int| 0 <= k < i ==> #[trigger] out@[k]@ == profile_label_spec(choices@[k]@),
        decreases choices.len() - i,
    {
        out.push(profile_label(choices[i].as_str()));
        i = i + 1;
    }
    out
}

/// The icon of a profile token.
pub open spec fn tray_icon_spec(profile: Seq<char>) -> Seq<char> {
    match from_sysfs_spec(profile) {
        Ok(PowerProfile::Quiet) => "legion-toolkit-quiet"@,
        Ok(PowerProfile::Balanced) => "legion-toolkit-balanced"@,
        Ok(PowerProfile::Performance) => "legion-toolkit-performance"@,
        Ok(PowerProfile::Extreme) => "legion-toolkit-extreme"@,
        Ok(PowerProfile::Custom) => "legion-toolkit-custom"@,
        Err(_) => "legion-toolkit"@,
    }
}

/// The tray icon name for a profile — one pre-rendered PNG per LED colour.
pub fn tray_icon_name(profile: &str) -> (r: String)
    ensures
        r@ == tray_icon_spec(profile@),
{
    match PowerProfile::from_sysfs(profile) {
        Ok(PowerProfile::Quiet) => owned("legion-toolkit-quiet"),
        Ok(PowerProfile::Balanced) => owned("legion-toolkit-balanced"),
        Ok(PowerProfile::Performance) => owned("legion-toolkit-performance"),
        Ok(PowerProfile::Extreme) => owned("legion-toolkit-extreme"),
        Ok(PowerProfile::Custom) => owned("legion-toolkit-custom"),
        Err(_) => owned("legion-toolkit"),
    }
}

/// What `battery_label` gives.
pub open spec fn battery_label_spec(mode: Seq<char>) -> Seq<char> {
    match cm_from_sysfs_spec(mode) {
        Ok(m) => cm_label(m),
        Err(_) => mode,
    }
}

/// Label for a kernel charge-type token.
pub fn battery_label(mode: &str) -> (r: String)
    ensures
        r@ == battery_label_spec(mode@),
{
    match ChargeMode::from_sysfs(mode) {
        Ok(m) => owned(m.label()),
        Err(_) => owned(mode),
    }
}

/// What `battery_hint` gives.
pub open spec fn battery_hint_spec(mode: Seq<char>) -> Seq<char> {
    match cm_from_sysfs_spec(mode) {
        Ok(ChargeMode::Standard) => "Charge to 100%"@,
        Ok(ChargeMode::Fast) => "Charge faster, warmer battery"@,
        Ok(ChargeMode::LongLife) => "Stop around 60–80% to extend battery life"@,
        Err(_) => seq![],
    }
}

/// One-line explanation of what a charge mode does.
pub fn battery_hint(mode: &str) -> (r: String)
    ensures
        r@ == battery_hint_spec(mode@),
{
    match ChargeMode::from_sysfs(mode) {
        Ok(ChargeMode::Standard) => owned("Charge to 100%"),
        Ok(ChargeMode::Fast) => owned("Charge faster, warmer battery"),
        Ok(ChargeMode::LongLife) => owned("Stop around 60–80% to extend battery life"),
        Err(_) => String::new(),
    }
}

/// Labels and hints for a charge-type choice list.
pub fn battery_labels(choices: &Vec<String>) -> (r: (Vec<String>, Vec<String>))
    ensures
        r.0@.len() == choices@.len(),
        r.1@.len() == choices@.len(),
        forall|i: int| 0 <= i < choices@.len() ==> #[trigger] r.0@[i]@ == battery_label_spec(choices@[i]@),
        forall|i: int| 0 <= i < choices@.len() ==> #[trigger] r.1@[i]@ == battery_hint_spec(choices@[i]@),
{
    let mut labels: Vec<String> = Vec::new();
    let mut hints: Vec<String> = Vec::new();
    let mut i: usize = 0;
    while i < choices.len()
        invariant
            i <= choices@.len(),
            labels@.len() == i,
            hints@.len() == i,
            forall|k: int| 0 <= k < i ==> #[trigger] labels@[k]@ == battery_label_spec(choices@[k]@),
            forall|k: int| 0 <= k < i ==> #[trigger] hints@[k]@ == battery_hint_spec(choices@[k]@),
        decreases choices.len() - i,
    {
        labels.push(battery_label(choices[i].as_str()));
        hints.push(battery_hint(choices[i].as_str()));
        i = i + 1;
    }
    (labels, hints)
}

/// What `format_fan` gives.
pub open spec fn format_fan_spec(rpm: Option<u32>) -> Seq<char> {
    match rpm {
        Some(r) => dec(r as nat) + " RPM"@,
        None => "No fan sensor (kernel too old)"@,
    }
}

/// Format fan speed.
///
/// `None` is the *expected* state on this machine — kernel 7.0 exposes no fan
/// hwmon for it, and upstream's `lenovo-wmi-other` fan sensors are newer than
/// that. So the text names the reason rather than showing a dash or "0 RPM",
/// both of which read as a fault.
pub fn format_fan(rpm: Option<u32>) -> (r: String)
    ensures
        r@ == format_fan_spec(rpm),
{
    match rpm {
        Some(r) => cat(dec_string(r as u64).as_str(), " RPM"),
        None => owned("No fan sensor (kernel too old)"),
    }
}

/// What `ac_text` gives.
pub open spec fn ac_text_spec(ac: Option<bool>) -> Seq<char> {
    match ac {
        Some(true) => "Plugged in"@,
        Some(false) => "On battery"@,
        None => "—"@,
    }
}

/// "Plugged in" / "On battery".
pub fn ac_text(stats: &BatteryStats) -> (r: String)
    ensures
        r@ == ac_text_spec(stats.ac_online),
{
    match stats.ac_online {
        Some(true) => owned("Plugged in"),
        Some(false) => owned("On battery"),
        None => owned("—"),
    }
}

/// What `kernel_note` gives.
pub open spec fn kernel_note_spec(fan_rpm: bool) -> Seq<char> {
    if fan_rpm {
        "Fan speed comes from the kernel's hwmon sensors."@
    } else {
        "This kernel exposes no fan sensor for this model, so fan speed cannot be shown. Fan curves have no upstream interface and are not offered."@
    }
}

/// A note explaining the cooling section, tailored to what the kernel exposes.
pub fn kernel_note(caps: &Capabilities) -> (r: String)
    ensures
        r@ == kernel_note_spec(caps.fan_rpm),
{
    if caps.fan_rpm {
        owned("Fan speed comes from the kernel's hwmon sensors.")
    } else {
        owned(
            "This kernel exposes no fan sensor for this model, so fan speed cannot be shown. Fan curves have no upstream interface and are not offered.",
        )
    }
}

/// What `or_dash` gives.
pub open spec fn or_dash_spec(s: Option<Seq<char>>) -> Seq<char> {
    match s {
        Some(v) => if v.len() > 0 {
            v
        } else {
            "—"@
        },
        None => "—"@,
    }
}

/// Blank fields read as broken; an em dash reads as "nothing here".
pub fn or_dash(s: Option<&str>) -> (r: String)
    ensures
        r@ == or_dash_spec(match s {
            Some(v) => Some(v@),
            None => None,
        }),
{
    match s {
        Some(v) => {
            let c = chars_of(v);
            if c.len() > 0 {
                owned(v)
            } else {
                owned("—")
            }
        },
        None => owned("—"),
    }
}

/// A snapshot of everything the UI displays, fetched in one pass.
#[derive(Debug, Clone, Default)]
pub struct Snapshot {
    pub profile: String,
    pub profile_choices: Vec<String>,
    pub battery_mode: String,
    pub fn_lock: bool,
    pub camera: bool,
    pub usb_charging: bool,
    pub backlight: u32,
    pub boost: bool,
    pub capabilities: Capabilities,
    pub ppt: Vec<AttrInfo>,
    pub daemon_version: String,
}

/// A request from the UI to the daemon.
#[derive(Debug, Clone)]
pub enum Request {
    SetProfile(String),
    SetBatteryMode(String),
    SetPpt(String, u32),
    SetFnLock(bool),
    SetCameraPower(bool),
    SetUsbCharging(bool),
    SetKbdBacklight(u32),
    SetCpuBoost(bool),
    Refresh,
}

/// Something the UI needs to react to.
#[derive(Debug, Clone)]
pub enum Event {
    /// Fresh state.
    Snapshot(Box<Snapshot>),
    /// A user-facing message for the toast.
    Toast(String),
    /// The daemon vanished (or never appeared).
    Disconnected(String),
}

/// What the toast says for a D-Bus method error with error name `name` and
/// detail text `detail`.
pub open spec fn toast_spec(name: Seq<char>, detail: Option<Seq<char>>) -> Seq<char> {
    if name == "org.legiontoolkit.Error.CustomModeRequired"@ {
        "Switch to Custom mode first"@
    } else if name == "org.legiontoolkit.Error.NotAuthorized"@ {
        "Not authorized — an active local session is required"@
    } else if name == "org.legiontoolkit.Error.NotSupported"@ {
        "Not supported on this machine"@
    } else {
        match detail {
            Some(d) => d,
            None => name,
        }
    }
}

/// Turn a D-Bus method error into the sentence shown in the toast.
pub fn describe_method_error(name: &str, detail: Option<&str>) -> (r: String)
    ensures
        r@ == toast_spec(name@, match detail {
            Some(d) => Some(d@),
            None => None,
        }),
{
    if str_eq(name, "org.legiontoolkit.Error.CustomModeRequired") {
        owned("Switch to Custom mode first")
    } else if str_eq(name, "org.legiontoolkit.Error.NotAuthorized") {
        owned("Not authorized — an active local session is required")
    } else if str_eq(name, "org.legiontoolkit.Error.NotSupported") {
        owned("Not supported on this machine")
    } else {
        match detail {
            Some(d) => owned(d),
            None => owned(name),
        }
    }
}

/// What the tray needs to render itself.
#[derive(Debug, Clone, Default, PartialEq, Eq)]
pub struct TrayState {
    pub profile: String,
    pub profile_choices: Vec<String>,
    pub battery_mode: String,
    pub battery_choices: Vec<String>,
    pub fn_lock: bool,
    pub camera: bool,
    pub has_fn_lock: bool,
    pub has_camera: bool,
}

/// A copy of a list of strings.
pub fn copy_strings(v: &Vec<String>) -> (r: Vec<String>)
    ensures
        strings(r@) == strings(v@),
{
    let mut out: Vec<String> = Vec::new();
    let mut i: usize = 0;
    while i < v.len()
        invariant
            i <= v@.len(),
            out@.len() == i,
            forall|k: int| 0 <= k < i ==> #[trigger] out@[k]@ == v@[k]@,
        decreases v.len() - i,
    {
        out.push(owned(v[i].as_str()));
        i = i + 1;
    }
    assert(strings(out@) =~= strings(v@));
    out
}

/// What the tooltip says for a profile token.
pub open spec fn tooltip_spec(profile: Seq<char>) -> Seq<char> {
    if profile.len() == 0 {
        "Legion Toolkit"@
    } else {
        "Legion Toolkit — "@ + profile_label_spec(profile)
    }
}

impl TrayState {
    /// The tray's view of a daemon snapshot.
    pub fn from_snapshot(s: &Snapshot) -> (r: TrayState)
        ensures
            r.profile@ == s.profile@,
            strings(r.profile_choices@) == strings(s.profile_choices@),
            r.battery_mode@ == s.battery_mode@,
            strings(r.battery_choices@) == strings(s.capabilities.charge_type_choices@),
            r.fn_lock == s.fn_lock,
            r.camera == s.camera,
            r.has_fn_lock == s.capabilities.fn_lock,
            r.has_camera == s.capabilities.camera_power,
    {
        TrayState {
            profile: owned(s.profile.as_str()),
            profile_choices: copy_strings(&s.profile_choices),
            battery_mode: owned(s.battery_mode.as_str()),
            battery_choices: copy_strings(&s.capabilities.charge_type_choices),
            fn_lock: s.fn_lock,
            camera: s.camera,
            has_fn_lock: s.capabilities.fn_lock,
            has_camera: s.capabilities.camera_power,
        }
    }

    /// "Legion Toolkit — <profile label>", or just the name without a profile.
    pub fn tooltip(&self) -> (r: String)
        ensures
            r@ == tooltip_spec(self.profile@),
    {
        let c = chars_of(self.profile.as_str());
        if c.len() == 0 {
            owned("Legion Toolkit")
        } else {
            cat("Legion Toolkit — ", profile_label(self.profile.as_str()).as_str())
        }
    }
}

/// The slider's value always lies within the slider's range, and the range
/// is never empty: its maximum is above its minimum, so the UI never
/// divides by zero.
pub proof fn lemma_slider_value_in_range(a: AttrInfoView)
    requires
        slider_range(a).0 <= slider_range(a).1,
    ensures
        slider_range(a).0 < slider_range(a).1,
        slider_range(a).0 <= clamp(wrap_i32(a.current), slider_range(a).0, slider_range(a).1)
            <= slider_range(a).1,
{
    if a.max > a.min {
        lemma_wrap_injective(a.min, a.max);
    }
}

/// Every profile's LED colour is a well-formed `#rrggbb`, so `profile_rgb`
/// decodes it rather than falling back.
pub proof fn lemma_led_colors_parse(p: PowerProfile)
    ensures
        parse_hex_spec(hex_of(led_of(p))) is Some,
{
    reveal_strlit("#3b82f6");
    reveal_strlit("#e5e7eb");
    reveal_strlit("#ef4444");
    reveal_strlit("#a855f7");
}

/// The slider of the power limit `key` in a snapshot.
pub open spec fn slider_of(ppt: Seq<AttrInfoView>, key: Seq<char>) -> SliderBounds {
    match first_with_key(ppt, key) {
        Some(a) => SliderBounds {
            value: clamp(wrap_i32(a.current), slider_range(a).0, slider_range(a).1) as i32,
            min: slider_range(a).0 as i32,
            max: slider_range(a).1 as i32,
        },
        None => SliderBounds { value: 0, min: 0, max: 0 },
    }
}

/// The three sliders' ranges are usable: for each of `spl`, `sppt` and
/// `fppt`, the first attribute with that key, if any, has its minimum not
/// above its maximum.
pub open spec fn ranges_usable(ppt: Seq<AttrInfoView>) -> bool {
    &&& key_usable(ppt, "spl"@)
    &&& key_usable(ppt, "sppt"@)
    &&& key_usable(ppt, "fppt"@)
}

/// What the dashboard window shows for a daemon snapshot.
#[derive(Debug)]
pub struct DashboardView {
    pub daemon_version: String,
    pub machine: String,
    pub family: String,
    pub profile_driver: String,
    pub profile_supported: bool,
    /// Kernel tokens, compared on selection.
    pub profile_choices: Vec<String>,
    /// What the choices are shown as.
    pub profile_labels: Vec<String>,
    pub current_profile: String,
    pub current_profile_label: String,
    /// The power-button LED colour of the active profile.
    pub profile_color: (u8, u8, u8),
    /// Power limits only apply in Custom mode.
    pub custom_active: bool,
    pub battery_supported: bool,
    pub battery_mode: String,
    pub battery_choices: Vec<String>,
    pub battery_labels: Vec<String>,
    pub battery_hints: Vec<String>,
    pub ppt_supported: bool,
    pub spl: SliderBounds,
    pub sppt: SliderBounds,
    pub fppt: SliderBounds,
    pub has_fn_lock: bool,
    pub has_camera: bool,
    pub has_usb_charging: bool,
    pub has_backlight: bool,
    pub has_boost: bool,
    pub fn_lock: bool,
    pub camera: bool,
    pub usb_charging: bool,
    pub boost: bool,
    pub backlight: i32,
    pub backlight_max: i32,
    pub kernel_note: String,
}

impl DashboardView {
    /// The window's contents for a snapshot: each switch hidden when the
    /// machine lacks the attribute, selections compared by kernel token and
    /// shown by label.
    pub fn from_snapshot(snap: &Snapshot) -> (r: DashboardView)
        requires
            ranges_usable(attr_views(snap.ppt@)),
        ensures
            r.daemon_version@ == or_dash_spec(Some(snap.daemon_version@)),
            r.machine@ == or_dash_spec(ov(snap.capabilities.product_name)),
            r.family@ == or_dash_spec(ov(snap.capabilities.product_family)),
            r.profile_driver@ == or_dash_spec(ov(snap.capabilities.platform_profile_driver)),
            r.profile_supported == snap.capabilities.platform_profile,
            strings(r.profile_choices@) == strings(snap.profile_choices@),
            strings(r.profile_labels@) == strings(snap.profile_choices@).map_values(
                |c: Seq<char>| profile_label_spec(c),
            ),
            r.current_profile@ == snap.profile@,
            r.current_profile_label@ == profile_label_spec(snap.profile@),
            r.profile_color == profile_rgb_spec(snap.profile@),
            r.custom_active == (snap.profile@ == "custom"@),
            r.battery_supported == snap.capabilities.charge_types,
            r.battery_mode@ == snap.battery_mode@,
            strings(r.battery_choices@) == strings(snap.capabilities.charge_type_choices@),
            strings(r.battery_labels@) == strings(snap.capabilities.charge_type_choices@).map_values(
                |c: Seq<char>| battery_label_spec(c),
            ),
            strings(r.battery_hints@) == strings(snap.capabilities.charge_type_choices@).map_values(
                |c: Seq<char>| battery_hint_spec(c),
            ),
            r.ppt_supported == snap.capabilities.ppt,
            r.spl == slider_of(attr_views(snap.ppt@), "spl"@),
            r.sppt == slider_of(attr_views(snap.ppt@), "sppt"@),
            r.fppt == slider_of(attr_views(snap.ppt@), "fppt"@),
            r.has_fn_lock == snap.capabilities.fn_lock,
            r.has_camera == snap.capabilities.camera_power,
            r.has_usb_charging == snap.capabilities.usb_charging,
            r.has_backlight == snap.capabilities.kbd_backlight,
            r.has_boost == snap.capabilities.cpu_boost,
            r.fn_lock == snap.fn_lock,
            r.camera == snap.camera,
            r.usb_charging == snap.usb_charging,
            r.boost == snap.boost,
            r.backlight == wrap_i32(snap.backlight),
            r.backlight_max == wrap_i32(match snap.capabilities.kbd_backlight_max {
                Some(m) => m,
                None => 2u32,
            }),
            r.kernel_note@ == kernel_note_spec(snap.capabilities.fan_rpm),
    {
        let caps = &snap.capabilities;
        let labels = profile_labels(&snap.profile_choices);
        let (blabels, bhints) = battery_labels(&caps.charge_type_choices);
        let spl = SliderBounds::find(&snap.ppt, "spl");
        let sppt = SliderBounds::find(&snap.ppt, "sppt");
        let fppt = SliderBounds::find(&snap.ppt, "fppt");
        let bmax = match caps.kbd_backlight_max {
            Some(m) => m,
            None => 2,
        };
        let r = DashboardView {
            daemon_version: or_dash(Some(snap.daemon_version.as_str())),
            machine: or_dash(match &caps.product_name {
                Some(n) => Some(n.as_str()),
                None => None,
            }),
            family: or_dash(match &caps.product_family {
                Some(n) => Some(n.as_str()),
                None => None,
            }),
            profile_driver: or_dash(match &caps.platform_profile_driver {
                Some(n) => Some(n.as_str()),
                None => None,
            }),
            profile_supported: caps.platform_profile,
            profile_choices: copy_strings(&snap.profile_choices),
            profile_labels: labels,
            current_profile: owned(snap.profile.as_str()),
            current_profile_label: profile_label(snap.profile.as_str()),
            profile_color: profile_rgb(snap.profile.as_str()),
            custom_active: str_eq(snap.profile.as_str(), "custom"),
            battery_supported: caps.charge_types,
            battery_mode: owned(snap.battery_mode.as_str()),
            battery_choices: copy_strings(&caps.charge_type_choices),
            battery_labels: blabels,
            battery_hints: bhints,
            ppt_supported: caps.ppt,
            spl,
            sppt,
            fppt,
            has_fn_lock: caps.fn_lock,
            has_camera: caps.camera_power,
            has_usb_charging: caps.usb_charging,
            has_backlight: caps.kbd_backlight,
            has_boost: caps.cpu_boost,
            fn_lock: snap.fn_lock,
            camera: snap.camera,
            usb_charging: snap.usb_charging,
            boost: snap.boost,
            backlight: as_i32(snap.backlight),
            backlight_max: as_i32(bmax),
            kernel_note: kernel_note(caps),
        };
        proof {
            assert(strings(r.profile_labels@) =~= strings(snap.profile_choices@).map_values(
                |c: Seq<char>| profile_label_spec(c),
            ));
            assert(strings(r.battery_labels@) =~= strings(snap.capabilities.charge_type_choices@).map_values(
                |c: Seq<char>| battery_label_spec(c),
            ));
            assert(strings(r.battery_hints@) =~= strings(snap.capabilities.charge_type_choices@).map_values(
                |c: Seq<char>| battery_hint_spec(c),
            ));
        }
        r
    }
}

impl Request {
    /// The backlight request for a slider level; a negative level asks for 0.
    pub fn kbd_backlight_from_ui(level: i32) -> (r: Request)
        ensures
            r == Request::SetKbdBacklight(if level < 0 {
                0u32
            } else {
                level as u32
            }),
    {
        Request::SetKbdBacklight(if level < 0 {
            0
        } else {
            level as u32
        })
    }

    /// The power-limit request for a slider value; a negative value asks
    /// for 0.
    pub fn ppt_from_ui(attr: &str, watts: i32) -> (r: Request)
        ensures
            r matches Request::SetPpt(a, w) && a@ == attr@ && w == if watts < 0 {
                0u32
            } else {
                watts as u32
            },
    {
        Request::SetPpt(owned(attr), if watts < 0 {
            0
        } else {
            watts as u32
        })
    }
}

} // verus!
