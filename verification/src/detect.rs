//! One-shot capability probe.
//!
//! [`Capabilities`] is built by probing every path the crate knows about. The
//! daemon builds it at startup and ships it to clients as JSON over D-Bus, so
//! the GUI and CLI can hide what a given machine does not have without ever
//! touching sysfs themselves.
//!
//! Probing must never panic and never refuse: an unrecognised machine simply
//! reports fewer capabilities.

use vstd::prelude::*;

use crate::battery::{self, charge_types_spec, cm_sysfs};
use crate::cpu::{self, boost_file, temp_readable_spec};
use crate::fan::{self, readings_spec};
use crate::firmware_attrs::{self, available_attrs_spec, ppt_dir, PptAttr};
use crate::ideapad::{self, dev_file, fan_mode_file, toggle_attr, Toggle};
use crate::kbd_backlight::{self, led_file};
use crate::profile::{self, choices_spec, device_dir_spec, profile_file_spec, sysfs_name};
use crate::sysfs::{read_parsed_spec, strings, subpath, SysRoot, SysView};
use crate::text::{contains, has_substring, join, lower, lowered, owned, str_eq};

verus! {

pub const DMI: &'static str = "sys/class/dmi/id";

/// What this machine can actually do.
#[derive(Debug, Clone, Default, PartialEq, Eq)]
pub struct Capabilities {
    // Identity
    pub product_family: Option<String>,
    pub product_name: Option<String>,
    /// Machine type, e.g. `82WM`.
    pub board_name: Option<String>,
    /// Does `product_family` look like a Legion machine?
    pub is_legion: bool,
    // Power profile
    pub platform_profile: bool,
    /// Driver behind the platform-profile device, e.g. `lenovo-wmi-gamezone`.
    pub platform_profile_driver: Option<String>,
    /// Profiles the firmware advertises, as kernel strings.
    pub profile_choices: Vec<String>,
    // Firmware attributes (power limits)
    pub firmware_attrs: bool,
    /// Every advertised attribute directory name — not a hardcoded list, so
    /// attributes a newer kernel adds show up here automatically.
    pub firmware_attr_names: Vec<String>,
    pub ppt: bool,
    // Battery
    pub charge_types: bool,
    pub charge_type_choices: Vec<String>,
    pub battery: bool,
    pub ac_adapter: bool,
    // ideapad_laptop toggles
    pub fn_lock: bool,
    pub camera_power: bool,
    pub usb_charging: bool,
    pub conservation_mode: bool,
    pub fan_mode: bool,
    // Misc
    pub kbd_backlight: bool,
    pub kbd_backlight_max: Option<u32>,
    pub cpu_boost: bool,
    pub cpu_temp: bool,
    /// False on kernel 7.0 for the 82WM; true once a fan hwmon appears.
    pub fan_rpm: bool,
}

pub struct CapabilitiesView {
    pub product_family: Option<Seq<char>>,
    pub product_name: Option<Seq<char>>,
    pub board_name: Option<Seq<char>>,
    pub is_legion: bool,
    pub platform_profile: bool,
    pub platform_profile_driver: Option<Seq<char>>,
    pub profile_choices: Seq<Seq<char>>,
    pub firmware_attrs: bool,
    pub firmware_attr_names: Seq<Seq<char>>,
    pub ppt: bool,
    pub charge_types: bool,
    pub charge_type_choices: Seq<Seq<char>>,
    pub battery: bool,
    pub ac_adapter: bool,
    pub fn_lock: bool,
    pub camera_power: bool,
    pub usb_charging: bool,
    pub conservation_mode: bool,
    pub fan_mode: bool,
    pub kbd_backlight: bool,
    pub kbd_backlight_max: Option<u32>,
    pub cpu_boost: bool,
    pub cpu_temp: bool,
    pub fan_rpm: bool,
}

/// `Some(s@)` of an optional string.
pub open spec fn ov(o: Option<String>) -> Option<Seq<char>> {
    match o {
        Some(s) => Some(s@),
        None => None,
    }
}

impl View for Capabilities {
    type V = CapabilitiesView;

    open spec fn view(&self) -> CapabilitiesView {
        CapabilitiesView {
            product_family: ov(self.product_family),
            product_name: ov(self.product_name),
            board_name: ov(self.board_name),
            is_legion: self.is_legion,
            platform_profile: self.platform_profile,
            platform_profile_driver: ov(self.platform_profile_driver),
            profile_choices: strings(self.profile_choices@),
            firmware_attrs: self.firmware_attrs,
            firmware_attr_names: strings(self.firmware_attr_names@),
            ppt: self.ppt,
            charge_types: self.charge_types,
            charge_type_choices: strings(self.charge_type_choices@),
            battery: self.battery,
            ac_adapter: self.ac_adapter,
            fn_lock: self.fn_lock,
            camera_power: self.camera_power,
            usb_charging: self.usb_charging,
            conservation_mode: self.conservation_mode,
            fan_mode: self.fan_mode,
            kbd_backlight: self.kbd_backlight,
            kbd_backlight_max: self.kbd_backlight_max,
            cpu_boost: self.cpu_boost,
            cpu_temp: self.cpu_temp,
            fan_rpm: self.fan_rpm,
        }
    }
}

/// Nothing controllable was found.
pub open spec fn caps_empty(c: CapabilitiesView) -> bool {
    !(c.platform_profile || c.firmware_attrs || c.charge_types || c.fn_lock || c.camera_power
        || c.usb_charging || c.fan_mode || c.kbd_backlight || c.cpu_boost)
}

impl Capabilities {
    /// Nothing controllable was found — the GUI shows the "unsupported
    /// machine" notice rather than an empty dashboard.
    pub fn is_empty(&self) -> (r: bool)
        ensures
            r == caps_empty(self@),
    {
        !(self.platform_profile || self.firmware_attrs || self.charge_types || self.fn_lock
            || self.camera_power || self.usb_charging || self.fan_mode || self.kbd_backlight
            || self.cpu_boost)
    }
}

/// The DMI attribute `a`.
pub open spec fn dmi_file(a: Seq<char>) -> Seq<char> {
    subpath(DMI@, a)
}

/// Does an identity string name a Legion (or LOQ) machine?
pub open spec fn legion_hit(v: Option<Seq<char>>) -> bool {
    match v {
        Some(s) => contains(lower(s), "legion"@) || contains(lower(s), "loq"@),
        None => false,
    }
}

/// What `is_legion` gives.
pub open spec fn is_legion_spec(v: SysView) -> bool {
    legion_hit(v.read_opt(dmi_file("product_family"@))) || legion_hit(
        v.read_opt(dmi_file("product_name"@)),
    )
}

/// DMI identifies a Legion machine exactly when its product family or its
/// product name, lower-cased, contains `legion` or `loq` (LOQ machines are
/// Legions too); the probe reports the same.
pub proof fn lemma_legion_identity(v: SysView)
    ensures
        (forall|s: Seq<char>|
            (v.read_opt(dmi_file("product_family"@)) == Some(s) || v.read_opt(dmi_file("product_name"@))
                == Some(s)) && (#[trigger] contains(lower(s), "legion"@) || contains(lower(s), "loq"@))
                ==> is_legion_spec(v)),
        is_legion_spec(v) ==> exists|s: Seq<char>|
            (v.read_opt(dmi_file("product_family"@)) == Some(s) || v.read_opt(dmi_file("product_name"@))
                == Some(s)) && (#[trigger] contains(lower(s), "legion"@) || contains(lower(s), "loq"@)),
        probe_spec(v).is_legion == is_legion_spec(v),
{
    if is_legion_spec(v) {
        if legion_hit(v.read_opt(dmi_file("product_family"@))) {
            let s = v.read_opt(dmi_file("product_family"@))->Some_0;
            assert(contains(lower(s), "legion"@) || contains(lower(s), "loq"@));
        } else {
            let s = v.read_opt(dmi_file("product_name"@))->Some_0;
            assert(contains(lower(s), "legion"@) || contains(lower(s), "loq"@));
        }
    }
}

fn hit(v: Option<String>) -> (r: bool)
    ensures
        r == legion_hit(ov(v)),
{
    match v {
        Some(s) => {
            let l = lowered(s.as_str());
            has_substring(l.as_str(), "legion") || has_substring(l.as_str(), "loq")
        },
        None => false,
    }
}

/// Does DMI identify this as a Legion machine?
///
/// A mismatch is informational only — callers warn but continue, since any
/// machine exposing the same upstream ABI works fine.
pub fn is_legion(root: &SysRoot) -> (r: bool)
    ensures
        r == is_legion_spec(root@),
{
    hit(root.read_opt(join(DMI, "product_family").as_str())) || hit(
        root.read_opt(join(DMI, "product_name").as_str()),
    )
}

/// The profile choices, as kernel strings, or none when they cannot be read.
pub open spec fn profile_choice_names(v: SysView) -> Seq<Seq<char>> {
    match choices_spec(v) {
        Ok(ps) => ps.map_values(|p: profile::PowerProfile| sysfs_name(p)),
        Err(_) => seq![],
    }
}

/// The charge types, as kernel strings, or none when they cannot be read.
pub open spec fn charge_choice_names(v: SysView) -> Seq<Seq<char>> {
    match charge_types_spec(v) {
        Ok((ms, _)) => ms.map_values(|m: battery::ChargeMode| cm_sysfs(m)),
        Err(_) => seq![],
    }
}

/// Is any of the three power limits among the advertised attributes?
pub open spec fn has_ppt(names: Seq<Seq<char>>) -> bool {
    names.contains(ppt_dir(PptAttr::Spl)) || names.contains(ppt_dir(PptAttr::Sppt)) || names.contains(
        ppt_dir(PptAttr::Fppt),
    )
}

/// `Ok(x)` as `Some(x)`.
pub open spec fn ok_u32(r: Result<u32, crate::error::HwErrorView>) -> Option<u32> {
    match r {
        Ok(x) => Some(x),
        Err(_) => None,
    }
}

/// The driver name read from the platform-profile device.
pub open spec fn driver_spec(v: SysView) -> Option<Seq<char>> {
    match device_dir_spec(v) {
        Some(d) => v.read_opt(subpath(d, "name"@)),
        None => None,
    }
}

/// What `probe` finds.
pub open spec fn probe_spec(v: SysView) -> CapabilitiesView {
    CapabilitiesView {
        product_family: v.read_opt(dmi_file("product_family"@)),
        product_name: v.read_opt(dmi_file("product_name"@)),
        board_name: v.read_opt(dmi_file("board_name"@)),
        is_legion: is_legion_spec(v),
        platform_profile: match profile_file_spec(v) {
            Some(f) => v.has_path(f),
            None => false,
        },
        platform_profile_driver: driver_spec(v),
        profile_choices: profile_choice_names(v),
        firmware_attrs: v.has_path(firmware_attrs::ATTR_DIR@),
        firmware_attr_names: available_attrs_spec(v),
        ppt: has_ppt(available_attrs_spec(v)),
        charge_types: v.has_path(battery::ct_file()),
        charge_type_choices: charge_choice_names(v),
        battery: v.has_path(subpath(battery::BAT@, "capacity"@)),
        ac_adapter: battery::ac_online_spec(v) is Some,
        fn_lock: v.has_path(dev_file(toggle_attr(Toggle::FnLock))),
        camera_power: v.has_path(dev_file(toggle_attr(Toggle::CameraPower))),
        usb_charging: v.has_path(dev_file(toggle_attr(Toggle::UsbCharging))),
        conservation_mode: v.has_path(dev_file(toggle_attr(Toggle::ConservationMode))),
        fan_mode: v.has_path(fan_mode_file()),
        kbd_backlight: v.has_path(led_file("brightness"@)),
        kbd_backlight_max: ok_u32(read_parsed_spec::<u32>(v, led_file("max_brightness"@))),
        cpu_boost: v.has_path(boost_file()),
        cpu_temp: temp_readable_spec(v),
        fan_rpm: readings_spec(v).len() > 0,
    }
}

/// Does `names` hold `wanted`?
fn holds(names: &Vec<String>, wanted: &str) -> (r: bool)
    ensures
        r == strings(names@).contains(wanted@),
{
    let mut i: usize = 0;
    while i < names.len()
        invariant
            i <= names@.len(),
            forall|k: int| 0 <= k < i ==> #[trigger] names@[k]@ != wanted@,
        decreases names.len() - i,
    {
        if str_eq(names[i].as_str(), wanted) {
            assert(strings(names@)[i as int] == wanted@);
            return true;
        }
        i = i + 1;
    }
    proof {
        if strings(names@).contains(wanted@) {
            let k = choose|k: int| 0 <= k < strings(names@).len() && strings(names@)[k] == wanted@;
            assert(names@[k]@ == wanted@);
        }
    }
    false
}

/// Probe every interface once.
pub fn probe(root: &SysRoot) -> (r: Capabilities)
    ensures
        r@ == probe_spec(root@),
{
    let profile_choices: Vec<String> = match profile::choices(root) {
        Ok(ps) => {
            let mut out: Vec<String> = Vec::new();
            let mut i: usize = 0;
            while i < ps.len()
                invariant
                    i <= ps@.len(),
                    out@.len() == i,
                    forall|k: int| 0 <= k < i ==> #[trigger] out@[k]@ == sysfs_name(ps@[k]),
                decreases ps.len() - i,
            {
                out.push(owned(ps[i].as_sysfs()));
                i = i + 1;
            }
            assert(strings(out@) =~= ps@.map_values(|p: profile::PowerProfile| sysfs_name(p)));
            out
        },
        Err(_) => {
            let out: Vec<String> = Vec::new();
            assert(strings(out@) =~= Seq::<Seq<char>>::empty());
            out
        },
    };
    let charge_type_choices: Vec<String> = match battery::charge_types(root) {
        Ok(ct) => {
            let mut out: Vec<String> = Vec::new();
            let mut i: usize = 0;
            while i < ct.available.len()
                invariant
                    i <= ct.available@.len(),
                    out@.len() == i,
                    forall|k: int| 0 <= k < i ==> #[trigger] out@[k]@ == cm_sysfs(ct.available@[k]),
                decreases ct.available.len() - i,
            {
                out.push(owned(ct.available[i].as_sysfs()));
                i = i + 1;
            }
            assert(strings(out@) =~= ct.available@.map_values(|m: battery::ChargeMode| cm_sysfs(m)));
            out
        },
        Err(_) => {
            let out: Vec<String> = Vec::new();
            assert(strings(out@) =~= Seq::<Seq<char>>::empty());
            out
        },
    };
    let firmware_attr_names = firmware_attrs::available_attrs(root);
    assert(strings(firmware_attr_names@) =~= available_attrs_spec(root@));
    let ppt = holds(&firmware_attr_names, PptAttr::Spl.dir_name()) || holds(
        &firmware_attr_names,
        PptAttr::Sppt.dir_name(),
    ) || holds(&firmware_attr_names, PptAttr::Fppt.dir_name());
    let kbd_max = match kbd_backlight::max(root) {
        Ok(m) => Some(m),
        Err(_) => None,
    };
    Capabilities {
        product_family: root.read_opt(join(DMI, "product_family").as_str()),
        product_name: root.read_opt(join(DMI, "product_name").as_str()),
        board_name: root.read_opt(join(DMI, "board_name").as_str()),
        is_legion: is_legion(root),
        platform_profile: profile::available(root),
        platform_profile_driver: profile::driver_name(root),
        profile_choices,
        firmware_attrs: firmware_attrs::available(root),
        firmware_attr_names,
        ppt,
        charge_types: battery::available(root),
        charge_type_choices,
        battery: root.path_exists(join(battery::BAT, "capacity").as_str()),
        ac_adapter: battery::ac_online(root).is_some(),
        fn_lock: ideapad::has(root, Toggle::FnLock),
        camera_power: ideapad::has(root, Toggle::CameraPower),
        usb_charging: ideapad::has(root, Toggle::UsbCharging),
        conservation_mode: ideapad::has(root, Toggle::ConservationMode),
        fan_mode: ideapad::has_fan_mode(root),
        kbd_backlight: kbd_backlight::available(root),
        kbd_backlight_max: kbd_max,
        cpu_boost: cpu::has_boost(root),
        cpu_temp: cpu::temp_available(root),
        fan_rpm: fan::available(root),
    }
}

} // verus!
