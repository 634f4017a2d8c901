//! The decisions of the command-line client: how arguments are parsed,
//! which daemon member a command maps to, and the messages it prints.

use vstd::prelude::*;

use crate::battery::{cm_from_sysfs_spec, cm_label, cm_sysfs, ChargeMode};
use crate::error::{message_spec, HwError, HwErrorView};
use crate::firmware_attrs::{attr_views, ppt_dir, ppt_key, ppt_parse, range_msg, AttrInfo, AttrInfoView, PptAttr};
use crate::ideapad::Toggle;
use crate::profile::{from_sysfs_spec, label_of, sysfs_name, PowerProfile};
use crate::text::{
    cat, dec, dec_string, debug_quoted, is_ws, lemma_trim_plain, lower, lowered, owned, str_debug, str_eq, trim,
    trimmed,
};

verus! {

/// Printed once when falling back, so the user knows why a write may fail.
pub const FALLBACK_HINT: &'static str = "legiond not running — using direct sysfs (systemctl enable --now legiond)";

/// Why `profile --watch` cannot run without the daemon.
pub const WATCH_NEEDS_DAEMON: &'static str = "--watch needs the daemon: start it with 'systemctl enable --now legiond'";

/// Which bus to look for the daemon on.
#[derive(Debug, Clone, Copy, PartialEq, Eq, Structural)]
pub enum BusKind {
    System,
    Session,
}

/// What the CLI prints for a direct-sysfs failure.
pub open spec fn describe_hw_spec(e: HwErrorView) -> Seq<char> {
    match e {
        HwErrorView::PermissionDenied => "permission denied — start the daemon (systemctl enable --now legiond) or run as root"@,
        HwErrorView::Busy => "switch to the Custom profile first: legion-ctl profile custom"@,
        HwErrorView::NotSupported => "not supported on this machine"@,
        other => message_spec(other),
    }
}

/// Turn a direct-sysfs failure into the message the user sees, with the
/// actionable cases spelled out.
pub fn describe_hw_error(e: &HwError) -> (r: String)
    ensures
        r@ == describe_hw_spec(e@),
{
    match e {
        HwError::PermissionDenied => owned(
            "permission denied — start the daemon (systemctl enable --now legiond) or run as root",
        ),
        HwError::Busy => owned("switch to the Custom profile first: legion-ctl profile custom"),
        HwError::NotSupported => owned("not supported on this machine"),
        other => other.message(),
    }
}

/// What the CLI prints for a D-Bus method error with error name `name` and
/// detail text `detail` (empty when the error carried none).
pub open spec fn describe_method_spec(name: Seq<char>, detail: Seq<char>) -> Seq<char> {
    if name == "org.legiontoolkit.Error.CustomModeRequired"@ {
        "switch to the Custom profile first: legion-ctl profile custom"@
    } else if name == "org.legiontoolkit.Error.NotAuthorized"@ {
        "not authorized: "@ + detail
    } else if name == "org.legiontoolkit.Error.NotSupported"@ {
        "not supported on this machine: "@ + detail
    } else if detail.len() == 0 {
        name
    } else {
        detail
    }
}

/// Turn a D-Bus method error into the message the user sees.
pub fn describe_method_error(name: &str, detail: &str) -> (r: String)
    ensures
        r@ == describe_method_spec(name@, detail@),
{
    proof {
        reveal_strlit("");
        assert(detail@.len() == 0 ==> detail@ =~= ""@);
    }
    if str_eq(name, "org.legiontoolkit.Error.CustomModeRequired") {
        owned("switch to the Custom profile first: legion-ctl profile custom")
    } else if str_eq(name, "org.legiontoolkit.Error.NotAuthorized") {
        cat("not authorized: ", detail)
    } else if str_eq(name, "org.legiontoolkit.Error.NotSupported") {
        cat("not supported on this machine: ", detail)
    } else if str_eq(detail, "") {
        proof {
            reveal_strlit("");
        }
        owned(name)
    } else {
        owned(detail)
    }
}

/// The words read as "on".
pub open spec fn on_word(t: Seq<char>) -> bool {
    t == "on"@ || t == "true"@ || t == "1"@ || t == "yes"@ || t == "enable"@ || t == "enabled"@
}

/// The words read as "off".
pub open spec fn off_word(t: Seq<char>) -> bool {
    t == "off"@ || t == "false"@ || t == "0"@ || t == "no"@ || t == "disable"@ || t == "disabled"@
}

/// What `parse_on_off` gives.
pub open spec fn parse_on_off_spec(s: Seq<char>) -> Result<bool, Seq<char>> {
    let t = lower(trim(s));
    if on_word(t) {
        Ok(true)
    } else if off_word(t) {
        Ok(false)
    } else {
        Err("expected 'on' or 'off', got "@ + str_debug(t))
    }
}

/// Parse an on/off argument.
pub fn parse_on_off(s: &str) -> (r: Result<bool, String>)
    ensures
        match r {
            Ok(b) => parse_on_off_spec(s@) == Ok::<bool, Seq<char>>(b),
            Err(m) => parse_on_off_spec(s@) == Err::<bool, Seq<char>>(m@),
        },
{
    let t0 = trimmed(s);
    let t = lowered(t0.as_str());
    let w = t.as_str();
    if str_eq(w, "on") || str_eq(w, "true") || str_eq(w, "1") || str_eq(w, "yes") || str_eq(w, "enable")
        || str_eq(w, "enabled") {
        Ok(true)
    } else if str_eq(w, "off") || str_eq(w, "false") || str_eq(w, "0") || str_eq(w, "no") || str_eq(
        w,
        "disable",
    ) || str_eq(w, "disabled") {
        Ok(false)
    } else {
        let q = debug_quoted(w);
        Err(cat("expected 'on' or 'off', got ", q.as_str()))
    }
}

/// `on` or `off`.
pub fn show_on_off(v: bool) -> (r: &'static str)
    ensures
        r@ == (if v {
            "on"@
        } else {
            "off"@
        }),
{
    if v {
        "on"
    } else {
        "off"
    }
}

/// The boolean switches the CLI exposes.
#[derive(Debug, Clone, Copy, PartialEq, Eq, Structural)]
pub enum ToggleKind {
    FnLock,
    Camera,
    UsbCharging,
    Boost,
}

impl ToggleKind {
    /// The subcommand name.
    pub fn cli_name(self) -> (r: &'static str)
        ensures
            r@ == match self {
                ToggleKind::FnLock => "fnlock"@,
                ToggleKind::Camera => "camera"@,
                ToggleKind::UsbCharging => "usb-charging"@,
                ToggleKind::Boost => "boost"@,
            },
    {
        match self {
            ToggleKind::FnLock => "fnlock",
            ToggleKind::Camera => "camera",
            ToggleKind::UsbCharging => "usb-charging",
            ToggleKind::Boost => "boost",
        }
    }

    /// The daemon property holding the switch.
    pub fn dbus_property(self) -> (r: &'static str)
        ensures
            r@ == match self {
                ToggleKind::FnLock => "FnLock"@,
                ToggleKind::Camera => "CameraPower"@,
                ToggleKind::UsbCharging => "UsbCharging"@,
                ToggleKind::Boost => "CpuBoost"@,
            },
    {
        match self {
            ToggleKind::FnLock => "FnLock",
            ToggleKind::Camera => "CameraPower",
            ToggleKind::UsbCharging => "UsbCharging",
            ToggleKind::Boost => "CpuBoost",
        }
    }

    /// The daemon method setting the switch.
    pub fn dbus_method(self) -> (r: &'static str)
        ensures
            r@ == match self {
                ToggleKind::FnLock => "SetFnLock"@,
                ToggleKind::Camera => "SetCameraPower"@,
                ToggleKind::UsbCharging => "SetUsbCharging"@,
                ToggleKind::Boost => "SetCpuBoost"@,
            },
    {
        match self {
            ToggleKind::FnLock => "SetFnLock",
            ToggleKind::Camera => "SetCameraPower",
            ToggleKind::UsbCharging => "SetUsbCharging",
            ToggleKind::Boost => "SetCpuBoost",
        }
    }

    /// The ideapad attribute behind the switch; boost is not one.
    pub fn hw_toggle(self) -> (r: Option<Toggle>)
        ensures
            r == match self {
                ToggleKind::FnLock => Some(Toggle::FnLock),
                ToggleKind::Camera => Some(Toggle::CameraPower),
                ToggleKind::UsbCharging => Some(Toggle::UsbCharging),
                ToggleKind::Boost => None::<Toggle>,
            },
    {
        match self {
            ToggleKind::FnLock => Some(Toggle::FnLock),
            ToggleKind::Camera => Some(Toggle::CameraPower),
            ToggleKind::UsbCharging => Some(Toggle::UsbCharging),
            ToggleKind::Boost => None,
        }
    }
}

/// The short key a power-limit argument resolves to: the key of a known
/// attribute, else the argument itself.
pub open spec fn ppt_key_of(attr: Seq<char>) -> Seq<char> {
    match ppt_parse(attr) {
        Some(a) => ppt_key(a),
        None => attr,
    }
}

/// The firmware directory a power-limit argument resolves to.
pub open spec fn ppt_dir_of(attr: Seq<char>) -> Seq<char> {
    match ppt_parse(attr) {
        Some(a) => ppt_dir(a),
        None => attr,
    }
}

/// Accept both the short key and the raw firmware directory name.
pub fn resolve_ppt_key(attr: &str) -> (r: String)
    ensures
        r@ == ppt_key_of(attr@),
{
    match PptAttr::from_key(attr) {
        Ok(a) => owned(a.key()),
        Err(_) => owned(attr),
    }
}

/// The firmware directory for a power-limit argument.
pub fn resolve_ppt_dir(attr: &str) -> (r: String)
    ensures
        r@ == ppt_dir_of(attr@),
{
    match PptAttr::from_key(attr) {
        Ok(a) => owned(a.dir_name()),
        Err(_) => owned(attr),
    }
}

/// The keys of a list of attributes joined by `, `.
pub open spec fn joined_keys(vs: Seq<AttrInfoView>) -> Seq<char>
    decreases vs.len(),
{
    if vs.len() == 0 {
        seq![]
    } else if vs.len() == 1 {
        vs[0].key
    } else {
        joined_keys(vs.drop_last()) + ", "@ + vs.last().key
    }
}

/// The first attribute whose key is `key`.
pub open spec fn find_key(vs: Seq<AttrInfoView>, key: Seq<char>) -> Option<AttrInfoView>
    decreases vs.len(),
{
    if vs.len() == 0 {
        None
    } else if vs[0].key == key {
        Some(vs[0])
    } else {
        find_key(vs.drop_first(), key)
    }
}

/// What `select_ppt` gives.
pub open spec fn select_ppt_spec(all: Seq<AttrInfoView>, attr: Seq<char>) -> Result<AttrInfoView, Seq<char>> {
    match find_key(all, ppt_key_of(attr)) {
        Some(a) => Ok(a),
        None => Err("unknown power limit "@ + str_debug(attr) + " (known: "@ + joined_keys(all) + ")"@),
    }
}

/// Pick the power limit a `ppt` command names from the list read.
pub fn select_ppt(all: &Vec<AttrInfo>, attr: &str) -> (r: Result<AttrInfo, String>)
    ensures
        match r {
            Ok(a) => select_ppt_spec(attr_views(all@), attr@) == Ok::<AttrInfoView, Seq<char>>(a@),
            Err(m) => select_ppt_spec(attr_views(all@), attr@) == Err::<AttrInfoView, Seq<char>>(m@),
        },
{
    let key = resolve_ppt_key(attr);
    let ghost vs = attr_views(all@);
    let mut i: usize = 0;
    assert(vs.skip(0) =~= vs);
    while i < all.len()
        invariant
            i <= all@.len() == vs.len(),
            vs == attr_views(all@),
            key@ == ppt_key_of(attr@),
            find_key(vs, key@) == find_key(vs.skip(i as int), key@),
        decreases all.len() - i,
    {
        proof {
            let t = vs.skip(i as int);
            assert(t[0] == all@[i as int]@);
            assert(t.drop_first() =~= vs.skip(i + 1));
        }
        if str_eq(all[i].key.as_str(), key.as_str()) {
            return Ok(all[i].copy());
        }
        i = i + 1;
    }
    proof {
        assert(vs.skip(i as int) =~= Seq::<AttrInfoView>::empty());
    }
    let mut known = String::new();
    let mut k: usize = 0;
    while k < all.len()
        invariant
            k <= all@.len() == vs.len(),
            vs == attr_views(all@),
            known@ == joined_keys(vs.take(k as int)),
        decreases all.len() - k,
    {
        proof {
            assert(vs.take(k + 1).drop_last() =~= vs.take(k as int));
            assert(vs.take(k + 1).last() == all@[k as int]@);
        }
        if k > 0 {
            known = cat(known.as_str(), ", ");
        }
        known = cat(known.as_str(), all[k].key.as_str());
        k = k + 1;
    }
    assert(vs.take(vs.len() as int) =~= vs);
    let q = debug_quoted(attr);
    let a = cat("unknown power limit ", q.as_str());
    let b = cat(a.as_str(), " (known: ");
    let c = cat(b.as_str(), known.as_str());
    Err(cat(c.as_str(), ")"))
}

/// The message for a power limit outside its range.
pub fn ppt_range_message(info: &AttrInfo, watts: u32) -> (r: String)
    ensures
        r@ == range_msg(watts, info@),
{
    let a = cat(dec_string(watts as u64).as_str(), " W is out of range for ");
    let b = cat(a.as_str(), info.key.as_str());
    let c = cat(b.as_str(), ": ");
    let d = cat(c.as_str(), dec_string(info.min as u64).as_str());
    let e = cat(d.as_str(), "–");
    let f = cat(e.as_str(), dec_string(info.max as u64).as_str());
    cat(f.as_str(), " W")
}

/// The message for a backlight level above the maximum.
pub open spec fn backlight_range_spec(level: u32, max: u32) -> Seq<char> {
    "backlight level "@ + dec(level as nat) + " is out of range: 0–"@ + dec(max as nat)
}

/// Check a backlight level against the maximum, as the CLI does before
/// dispatching.
pub fn check_backlight(level: u32, max: u32) -> (r: Result<(), String>)
    ensures
        match r {
            Ok(()) => level <= max,
            Err(m) => level > max && m@ == backlight_range_spec(level, max),
        },
{
    if level > max {
        let a = cat("backlight level ", dec_string(level as u64).as_str());
        let b = cat(a.as_str(), " is out of range: 0–");
        return Err(cat(b.as_str(), dec_string(max as u64).as_str()));
    }
    Ok(())
}

/// The label shown after a profile token: its friendly name, or `unknown`.
pub open spec fn profile_tag(current: Seq<char>) -> Seq<char> {
    match from_sysfs_spec(current) {
        Ok(p) => label_of(p),
        Err(_) => "unknown"@,
    }
}

/// `profile: <token> (<label>)`.
pub fn profile_line(current: &str) -> (r: String)
    ensures
        r@ == "profile: "@ + current@ + " ("@ + profile_tag(current@) + ")"@,
{
    let label = match PowerProfile::from_sysfs(current) {
        Ok(p) => p.label(),
        Err(_) => "unknown",
    };
    let a = cat("profile: ", current);
    let b = cat(a.as_str(), " (");
    let c = cat(b.as_str(), label);
    cat(c.as_str(), ")")
}

/// The label shown after a charge-type token: its GUI label, or `unknown`.
pub open spec fn battery_tag(current: Seq<char>) -> Seq<char> {
    match cm_from_sysfs_spec(current) {
        Ok(m) => cm_label(m),
        Err(_) => "unknown"@,
    }
}

/// `battery: <token> (<label>)`.
pub fn battery_line(current: &str) -> (r: String)
    ensures
        r@ == "battery: "@ + current@ + " ("@ + battery_tag(current@) + ")"@,
{
    let label = match ChargeMode::from_sysfs(current) {
        Ok(m) => m.label(),
        Err(_) => "unknown",
    };
    let a = cat("battery: ", current);
    let b = cat(a.as_str(), " (");
    let c = cat(b.as_str(), label);
    cat(c.as_str(), ")")
}

/// What `show_on_off` prints, `parse_on_off` reads back.
pub proof fn lemma_on_off_round_trip(b: bool)
    ensures
        parse_on_off_spec(if b {
            "on"@
        } else {
            "off"@
        }) == Ok::<bool, Seq<char>>(b),
{
    reveal_strlit("on");
    reveal_strlit("off");
    reveal_strlit("true");
    reveal_strlit("1");
    reveal_strlit("yes");
    reveal_strlit("enable");
    reveal_strlit("enabled");
    let w = if b {
        "on"@
    } else {
        "off"@
    };
    assert forall|i: int| 0 <= i < w.len() implies !is_ws(#[trigger] w[i]) by {}
    lemma_trim_plain(w);
    assert(lower(w) =~= w);
}

} // verus!
