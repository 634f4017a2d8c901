//! The daemon's decisions: its constants, error mapping, persisted state and
//! the effect of each D-Bus method on an in-memory sysfs tree.

use legion_toolkit::daemon::{
    self, state_path, DaemonError, State, ACTION_ID, BUS_NAME, DEFAULT_STATE_PATH, IFACE_NAME,
    OBJECT_PATH,
};
use legion_toolkit::error::HwError;
use legion_toolkit::ideapad::Toggle;
use legion_toolkit::profile::PowerProfile;
use legion_toolkit::sysfs::SysRoot;

fn write(root: &mut SysRoot, rel: &str, val: &str) {
    root.put_file(rel, &format!("{val}\n"));
}

fn read(root: &SysRoot, rel: &str) -> String {
    root.contents(rel).unwrap().trim().to_string()
}

const PROFILE: &str = "sys/class/platform-profile/platform-profile-0/profile";
const SPL: &str = "sys/class/firmware-attributes/lenovo-wmi-other-0/attributes/ppt_pl1_spl/current_value";

/// The parts of the 82WM tree the daemon's methods touch.
fn tree() -> SysRoot {
    let mut root = SysRoot::at("/tmp/legiond");
    let r = &mut root;
    let pp = "sys/class/platform-profile/platform-profile-0";
    write(r, &format!("{pp}/name"), "lenovo-wmi-gamezone");
    write(r, &format!("{pp}/choices"), "low-power balanced performance max-power custom");
    write(r, &format!("{pp}/profile"), "balanced");
    let fa = "sys/class/firmware-attributes/lenovo-wmi-other-0/attributes";
    for (dir, cur, min, max) in [
        ("ppt_pl1_spl", 70, 50, 115),
        ("ppt_pl2_sppt", 85, 60, 130),
        ("ppt_pl3_fppt", 102, 70, 150),
    ] {
        write(r, &format!("{fa}/{dir}/current_value"), &cur.to_string());
        write(r, &format!("{fa}/{dir}/default_value"), &cur.to_string());
        write(r, &format!("{fa}/{dir}/min_value"), &min.to_string());
        write(r, &format!("{fa}/{dir}/max_value"), &max.to_string());
        write(r, &format!("{fa}/{dir}/scalar_increment"), "1");
    }
    write(r, "sys/class/power_supply/BAT0/charge_types", "Fast Standard [Long_Life]");
    let vpc = "sys/bus/platform/devices/VPC2004:00";
    write(r, &format!("{vpc}/fn_lock"), "0");
    write(r, &format!("{vpc}/camera_power"), "1");
    write(r, &format!("{vpc}/usb_charging"), "0");
    write(r, &format!("{vpc}/fan_mode"), "0");
    write(r, "sys/class/leds/platform::kbd_backlight/brightness", "1");
    write(r, "sys/class/leds/platform::kbd_backlight/max_brightness", "2");
    write(r, "sys/devices/system/cpu/cpufreq/boost", "1");
    root
}

#[test]
fn action_id_matches_the_polkit_policy_file() {
    assert_eq!(ACTION_ID, "org.legiontoolkit.control");
}

#[test]
fn busy_becomes_custom_mode_required() {
    assert!(matches!(
        DaemonError::from_hw(HwError::Busy),
        DaemonError::CustomModeRequired(_)
    ));
}

#[test]
fn parse_becomes_invalid_argument() {
    assert!(matches!(
        DaemonError::from_hw(HwError::Parse("bad".into())),
        DaemonError::InvalidArgument(_)
    ));
}

#[test]
fn not_supported_is_preserved() {
    assert!(matches!(
        DaemonError::from_hw(HwError::NotSupported),
        DaemonError::NotSupported(_)
    ));
}

#[test]
fn names_match_the_documented_api() {
    assert_eq!(BUS_NAME, "org.legiontoolkit.Daemon");
    assert_eq!(OBJECT_PATH, "/org/legiontoolkit/Daemon");
    assert_eq!(IFACE_NAME, "org.legiontoolkit.Daemon1");
}

#[test]
fn state_path_honours_the_override() {
    assert_eq!(state_path(Some("/tmp/x.json".to_string())), "/tmp/x.json");
    assert_eq!(state_path(None), DEFAULT_STATE_PATH);
}

#[test]
fn error_names_are_namespaced() {
    assert_eq!(
        DaemonError::from_hw(HwError::Busy).name(),
        "org.legiontoolkit.Error.CustomModeRequired"
    );
    assert_eq!(
        DaemonError::from_hw(HwError::PermissionDenied).name(),
        "org.legiontoolkit.Error.PermissionDenied"
    );
    assert_eq!(DaemonError::NotAuthorized("x".into()).name(), "org.legiontoolkit.Error.NotAuthorized");
    match DaemonError::from_hw(HwError::NotSupported) {
        DaemonError::NotSupported(m) => assert_eq!(m, "not supported on this machine"),
        other => panic!("unexpected {other:?}"),
    }
}

#[test]
fn new_state_is_empty_and_records_settings() {
    let mut s = State::new();
    assert!(s.is_empty());
    s.record_profile(Some("custom"));
    s.record_battery_mode(Some("Long_Life"));
    assert_eq!(s.profile().as_deref(), Some("custom"));
    assert_eq!(s.battery_mode().as_deref(), Some("Long_Life"));
    assert!(!s.is_empty());
    s.record_profile(None);
    assert_eq!(s.profile(), None);
}

#[test]
fn power_limits_are_kept_sorted_by_key_and_replaced_in_place() {
    let mut s = State::default();
    s.set_ppt("sppt", 100);
    s.set_ppt("spl", 90);
    s.set_ppt("fppt", 120);
    s.set_ppt("spl", 95);
    let e = s.ppt_entries();
    assert_eq!(
        e,
        vec![("fppt".to_string(), 120), ("spl".to_string(), 95), ("sppt".to_string(), 100)]
    );
}

#[test]
fn set_profile_writes_sysfs_and_records_it() {
    let mut root = tree();
    let mut state = State::new();
    assert_eq!(daemon::set_profile(&mut root, &mut state, "Performance").unwrap(), PowerProfile::Performance);
    assert_eq!(read(&root, PROFILE), "performance");
    assert_eq!(daemon::profile_property(&root), "performance");
    assert_eq!(state.profile().as_deref(), Some("performance"));
}

#[test]
fn unknown_profile_is_an_invalid_argument_and_touches_nothing() {
    let mut root = tree();
    let mut state = State::new();
    let err = daemon::set_profile(&mut root, &mut state, "ludicrous").unwrap_err();
    assert!(matches!(err, DaemonError::InvalidArgument(_)));
    assert!(root.writes().is_empty());
    assert!(state.is_empty());
}

#[test]
fn set_ppt_outside_custom_returns_custom_mode_required() {
    let mut root = tree();
    let mut state = State::new();
    match daemon::set_ppt(&mut root, &mut state, "spl", 90) {
        Err(DaemonError::CustomModeRequired(m)) => assert_eq!(
            m,
            "power limits require the Custom profile; current profile is balanced"
        ),
        other => panic!("unexpected {other:?}"),
    }
    assert_eq!(read(&root, SPL), "70");
    assert!(state.ppt_entries().is_empty());
}

#[test]
fn set_ppt_in_custom_writes_and_records() {
    let mut root = tree();
    let mut state = State::new();
    daemon::set_profile(&mut root, &mut state, "custom").unwrap();
    daemon::set_ppt(&mut root, &mut state, "ppt_pl1_spl", 90).unwrap();
    assert_eq!(read(&root, SPL), "90");
    assert_eq!(state.ppt_entries(), vec![("spl".to_string(), 90)]);

    let err = daemon::set_ppt(&mut root, &mut state, "spl", 20).unwrap_err();
    assert!(matches!(err, DaemonError::InvalidArgument(_)));
    assert_eq!(read(&root, SPL), "90");
}

#[test]
fn state_is_reapplied_after_a_restart() {
    let mut root = tree();
    let mut state = State::new();
    daemon::set_profile(&mut root, &mut state, "custom").unwrap();
    daemon::set_battery_mode(&mut root, &mut state, "standard").unwrap();
    daemon::set_ppt(&mut root, &mut state, "spl", 100).unwrap();

    // The firmware forgets everything across a suspend cycle.
    let mut fresh = tree();
    daemon::reapply_state(&mut fresh, &state);
    assert_eq!(read(&fresh, PROFILE), "custom");
    assert_eq!(read(&fresh, "sys/class/power_supply/BAT0/charge_types"), "Standard");
    assert_eq!(read(&fresh, SPL), "100");
}

#[test]
fn toggles_and_properties_round_trip() {
    let mut root = tree();
    daemon::set_toggle(&mut root, Toggle::FnLock, true).unwrap();
    assert!(daemon::toggle_property(&root, Toggle::FnLock));
    daemon::set_kbd_backlight(&mut root, 2).unwrap();
    assert_eq!(daemon::kbd_backlight_property(&root), 2);
    assert!(matches!(
        daemon::set_kbd_backlight(&mut root, 5),
        Err(DaemonError::InvalidArgument(_))
    ));
    daemon::set_cpu_boost(&mut root, false).unwrap();
    assert!(!daemon::cpu_boost_property(&root));
    daemon::set_fan_mode(&mut root, 4).unwrap();
    assert_eq!(read(&root, "sys/bus/platform/devices/VPC2004:00/fan_mode"), "4");
    assert!(matches!(daemon::set_fan_mode(&mut root, 3), Err(DaemonError::InvalidArgument(_))));
    assert_eq!(daemon::battery_mode_property(&root), "Long_Life");
}

#[test]
fn properties_of_an_empty_tree_are_defaults() {
    let root = SysRoot::at("/tmp/nothing");
    assert_eq!(daemon::profile_property(&root), "");
    assert_eq!(daemon::battery_mode_property(&root), "");
    assert!(!daemon::toggle_property(&root, Toggle::CameraPower));
    assert_eq!(daemon::kbd_backlight_property(&root), 0);
    assert!(!daemon::cpu_boost_property(&root));
}

#[test]
fn missing_toggle_is_not_supported() {
    let mut root = SysRoot::at("/tmp/nothing");
    assert!(matches!(
        daemon::set_toggle(&mut root, Toggle::UsbCharging, true),
        Err(DaemonError::NotSupported(_))
    ));
}
