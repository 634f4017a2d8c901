//! `ideapad_laptop` platform-device toggles at
//! `/sys/bus/platform/devices/VPC2004:00/`.
//!
//! The 82WM exposes `fn_lock`, `camera_power`, `usb_charging` and `fan_mode`.
//! It does **not** expose `touchpad`, so every accessor here feature-detects
//! and returns `None` for an absent attribute rather than failing — the UI
//! hides what the machine does not have.

use vstd::prelude::*;

use crate::error::{rv, HwError, HwErrorView};
use crate::sysfs::{
    lemma_write_number, lemma_write_reads, read_parsed_opt_spec, read_parsed_spec, subpath, SysRoot, SysView,
};
use crate::text::{cat, dec, dec_string, join};

verus! {

pub const DEV: &'static str = "sys/bus/platform/devices/VPC2004:00";

/// The boolean toggles this driver exposes.
#[derive(Debug, Clone, Copy, PartialEq, Eq, Structural)]
pub enum Toggle {
    FnLock,
    CameraPower,
    UsbCharging,
    /// Deprecated in favour of `charge_types`; read-only here, exposed only so
    /// [`crate::detect`] can report it on older kernels.
    ConservationMode,
}

/// The sysfs attribute of a toggle.
pub open spec fn toggle_attr(t: Toggle) -> Seq<char> {
    match t {
        Toggle::FnLock => "fn_lock"@,
        Toggle::CameraPower => "camera_power"@,
        Toggle::UsbCharging => "usb_charging"@,
        Toggle::ConservationMode => "conservation_mode"@,
    }
}

/// The label of a toggle.
pub open spec fn toggle_label(t: Toggle) -> Seq<char> {
    match t {
        Toggle::FnLock => "Fn Lock"@,
        Toggle::CameraPower => "Camera"@,
        Toggle::UsbCharging => "Always-on USB charging"@,
        Toggle::ConservationMode => "Conservation mode (legacy)"@,
    }
}

/// The file of attribute `a`.
pub open spec fn dev_file(a: Seq<char>) -> Seq<char> {
    subpath(DEV@, a)
}

/// What writing a boolean writes.
pub open spec fn bool_text(on: bool) -> Seq<char> {
    if on {
        "1"@
    } else {
        "0"@
    }
}

impl Toggle {
    pub const ALL: [Toggle; 4] = [
        Toggle::FnLock,
        Toggle::CameraPower,
        Toggle::UsbCharging,
        Toggle::ConservationMode,
    ];

    pub fn attr(self) -> (r: &'static str)
        ensures
            r@ == toggle_attr(self),
    {
        match self {
            Toggle::FnLock => "fn_lock",
            Toggle::CameraPower => "camera_power",
            Toggle::UsbCharging => "usb_charging",
            Toggle::ConservationMode => "conservation_mode",
        }
    }

    pub fn label(self) -> (r: &'static str)
        ensures
            r@ == toggle_label(self),
    {
        match self {
            Toggle::FnLock => "Fn Lock",
            Toggle::CameraPower => "Camera",
            Toggle::UsbCharging => "Always-on USB charging",
            Toggle::ConservationMode => "Conservation mode (legacy)",
        }
    }
}

/// Is this toggle present on this machine?
pub fn has(root: &SysRoot, t: Toggle) -> (r: bool)
    ensures
        r == root@.has_path(dev_file(toggle_attr(t))),
{
    root.path_exists(join(DEV, t.attr()).as_str())
}

/// What `get` gives.
pub open spec fn get_spec(v: SysView, t: Toggle) -> Option<bool> {
    match read_parsed_opt_spec::<u32>(v, dev_file(toggle_attr(t))) {
        Some(x) => Some(x != 0),
        None => None,
    }
}

/// Read a toggle; `None` when the attribute is absent or unreadable.
pub fn get(root: &SysRoot, t: Toggle) -> (r: Option<bool>)
    ensures
        r == get_spec(root@, t),
{
    match root.read_parsed_opt::<u32>(join(DEV, t.attr()).as_str()) {
        Some(v) => Some(v != 0),
        None => None,
    }
}

/// Write a toggle.
pub fn set(root: &mut SysRoot, t: Toggle, on: bool) -> (r: Result<(), HwError>)
    ensures
        rv(r) == old(root)@.write_result(dev_file(toggle_attr(t))),
        final(root)@ == old(root)@.after_write(dev_file(toggle_attr(t)), bool_text(on)),
{
    root.write(
        join(DEV, t.attr()).as_str(),
        if on {
            "1"
        } else {
            "0"
        },
    )
}

/// ideapad fan modes. Value 3 is not a valid setting on this firmware.
#[derive(Debug, Clone, Copy, PartialEq, Eq, Structural)]
pub enum FanMode {
    SuperSilent,
    Standard,
    DustCleaning,
    EfficientThermalDissipation,
}

/// The driver's number for a fan mode.
pub open spec fn fan_value(m: FanMode) -> u32 {
    match m {
        FanMode::SuperSilent => 0,
        FanMode::Standard => 1,
        FanMode::DustCleaning => 2,
        FanMode::EfficientThermalDissipation => 4,
    }
}

/// The label of a fan mode.
pub open spec fn fan_label(m: FanMode) -> Seq<char> {
    match m {
        FanMode::SuperSilent => "Super Silent"@,
        FanMode::Standard => "Standard"@,
        FanMode::DustCleaning => "Dust Cleaning"@,
        FanMode::EfficientThermalDissipation => "Efficient Thermal Dissipation"@,
    }
}

/// What `FanMode::from_value` gives.
pub open spec fn fan_from_value_spec(v: u32) -> Result<FanMode, HwErrorView> {
    if v == 0 {
        Ok(FanMode::SuperSilent)
    } else if v == 1 {
        Ok(FanMode::Standard)
    } else if v == 2 {
        Ok(FanMode::DustCleaning)
    } else if v == 4 {
        Ok(FanMode::EfficientThermalDissipation)
    } else {
        Err(HwErrorView::Parse("invalid fan_mode value "@ + dec(v as nat)))
    }
}

impl FanMode {
    pub const ALL: [FanMode; 4] = [
        FanMode::SuperSilent,
        FanMode::Standard,
        FanMode::DustCleaning,
        FanMode::EfficientThermalDissipation,
    ];

    pub fn value(self) -> (r: u32)
        ensures
            r == fan_value(self),
    {
        match self {
            FanMode::SuperSilent => 0,
            FanMode::Standard => 1,
            FanMode::DustCleaning => 2,
            // 3 is skipped — the firmware rejects it.
            FanMode::EfficientThermalDissipation => 4,
        }
    }

    pub fn label(self) -> (r: &'static str)
        ensures
            r@ == fan_label(self),
    {
        match self {
            FanMode::SuperSilent => "Super Silent",
            FanMode::Standard => "Standard",
            FanMode::DustCleaning => "Dust Cleaning",
            FanMode::EfficientThermalDissipation => "Efficient Thermal Dissipation",
        }
    }

    /// Parse a raw sysfs integer. `3` is explicitly rejected.
    pub fn from_value(v: u32) -> (r: Result<FanMode, HwError>)
        ensures
            rv(r) == fan_from_value_spec(v),
    {
        if v == 0 {
            Ok(FanMode::SuperSilent)
        } else if v == 1 {
            Ok(FanMode::Standard)
        } else if v == 2 {
            Ok(FanMode::DustCleaning)
        } else if v == 4 {
            Ok(FanMode::EfficientThermalDissipation)
        } else {
            let d = dec_string(v as u64);
            Err(HwError::Parse(cat("invalid fan_mode value ", d.as_str())))
        }
    }
}

/// The `fan_mode` attribute.
pub open spec fn fan_mode_file() -> Seq<char> {
    dev_file("fan_mode"@)
}

/// Is `fan_mode` present?
pub fn has_fan_mode(root: &SysRoot) -> (r: bool)
    ensures
        r == root@.has_path(fan_mode_file()),
{
    root.path_exists(join(DEV, "fan_mode").as_str())
}

/// What `get_fan_mode` gives.
pub open spec fn get_fan_mode_spec(v: SysView) -> Result<FanMode, HwErrorView> {
    match read_parsed_spec::<u32>(v, fan_mode_file()) {
        Err(e) => Err(e),
        Ok(x) => fan_from_value_spec(x),
    }
}

/// Read the current fan mode.
pub fn get_fan_mode(root: &SysRoot) -> (r: Result<FanMode, HwError>)
    ensures
        rv(r) == get_fan_mode_spec(root@),
{
    let v = root.read_parsed::<u32>(join(DEV, "fan_mode").as_str())?;
    FanMode::from_value(v)
}

/// Set the fan mode.
pub fn set_fan_mode(root: &mut SysRoot, mode: FanMode) -> (r: Result<(), HwError>)
    ensures
        rv(r) == old(root)@.write_result(fan_mode_file()),
        final(root)@ == old(root)@.after_write(fan_mode_file(), dec(fan_value(mode) as nat)),
{
    let text = dec_string(mode.value() as u64);
    root.write(join(DEV, "fan_mode").as_str(), text.as_str())
}

/// `bool_text` is the decimal numeral of 1 or 0.
pub proof fn lemma_bool_text(on: bool)
    ensures
        bool_text(on) == dec(if on {
            1nat
        } else {
            0nat
        }),
{
    reveal_strlit("1");
    reveal_strlit("0");
    assert(bool_text(on) =~= dec(if on {
        1nat
    } else {
        0nat
    }));
}

/// A toggle that was written reads back as written; a refused write leaves
/// the tree as it was.
pub proof fn lemma_toggle_round_trip(v: SysView, t: Toggle, on: bool)
    ensures
        v.write_result(dev_file(toggle_attr(t))) is Ok ==> get_spec(
            v.after_write(dev_file(toggle_attr(t)), bool_text(on)),
            t,
        ) == Some(on),
        v.write_result(dev_file(toggle_attr(t))) is Err ==> v.after_write(
            dev_file(toggle_attr(t)),
            bool_text(on),
        ) == v,
{
    let p = dev_file(toggle_attr(t));
    lemma_bool_text(on);
    lemma_write_reads(v, p, bool_text(on), p);
    if v.write_result(p) is Ok {
        lemma_write_number(v, p, if on {
            1u32
        } else {
            0u32
        });
    }
}

/// Every fan mode's number decodes to that mode.
pub proof fn lemma_fan_value_round_trip(m: FanMode)
    ensures
        fan_from_value_spec(fan_value(m)) == Ok::<FanMode, HwErrorView>(m),
{
}

/// A fan mode that was set reads back as set; a refused write leaves the
/// tree as it was.
pub proof fn lemma_fan_mode_round_trip(v: SysView, m: FanMode)
    ensures
        v.write_result(fan_mode_file()) is Ok ==> get_fan_mode_spec(
            v.after_write(fan_mode_file(), dec(fan_value(m) as nat)),
        ) == Ok::<FanMode, HwErrorView>(m),
        v.write_result(fan_mode_file()) is Err ==> v.after_write(
            fan_mode_file(),
            dec(fan_value(m) as nat),
        ) == v,
{
    lemma_write_reads(v, fan_mode_file(), dec(fan_value(m) as nat), fan_mode_file());
    if v.write_result(fan_mode_file()) is Ok {
        lemma_write_number(v, fan_mode_file(), fan_value(m));
    }
}

} // verus!
