//! What `legion-ctl` decides and prints, independent of its transport.

use legion_toolkit::commands;
use legion_toolkit::ctl::{
    battery_line, check_backlight, describe_hw_error, describe_method_error, parse_on_off,
    ppt_range_message, profile_line, resolve_ppt_dir, resolve_ppt_key, select_ppt, show_on_off,
    ToggleKind, FALLBACK_HINT,
};
use legion_toolkit::error::{HwError, IoFault, IoKind};
use legion_toolkit::status::{status_report, DaemonReadings, StatusLine};
use legion_toolkit::sysfs::SysRoot;
use legion_toolkit::firmware_attrs::AttrInfo;
use legion_toolkit::ideapad::Toggle;
use legion_toolkit::battery::ChargeMode;
use legion_toolkit::profile::PowerProfile;

fn attr(key: &str, current: u32, min: u32, max: u32) -> AttrInfo {
    AttrInfo {
        key: key.into(),
        display_name: key.into(),
        current,
        default: current,
        min,
        max,
        step: 1,
    }
}

#[test]
fn custom_mode_error_becomes_actionable_advice() {
    let msg = describe_method_error("org.legiontoolkit.Error.CustomModeRequired", "nope");
    assert!(msg.contains("profile custom"));
}

#[test]
fn permission_denied_names_the_fix() {
    let msg = describe_hw_error(&HwError::PermissionDenied);
    assert!(msg.contains("legiond") || msg.contains("root"), "{msg}");
}

#[test]
fn busy_maps_to_the_same_advice_in_both_paths() {
    assert!(describe_hw_error(&HwError::Busy).contains("Custom"));
    assert_eq!(
        describe_hw_error(&HwError::Busy),
        describe_method_error("org.legiontoolkit.Error.CustomModeRequired", "")
    );
}

#[test]
fn on_off_parsing_is_forgiving() {
    for s in ["on", "ON", "true", "1", "yes", "enable"] {
        assert!(parse_on_off(s).unwrap(), "{s}");
    }
    for s in ["off", "OFF", "false", "0", "no", "disable"] {
        assert!(!parse_on_off(s).unwrap(), "{s}");
    }
    assert!(parse_on_off("maybe").is_err());
}

#[test]
fn toggle_names_map_to_the_dbus_surface() {
    assert_eq!(ToggleKind::FnLock.dbus_property(), "FnLock");
    assert_eq!(ToggleKind::FnLock.dbus_method(), "SetFnLock");
    assert_eq!(ToggleKind::UsbCharging.dbus_property(), "UsbCharging");
    assert_eq!(ToggleKind::Boost.dbus_method(), "SetCpuBoost");
    assert!(ToggleKind::Boost.hw_toggle().is_none());
}

#[test]
fn invalid_on_off_names_the_choices() {
    let err = parse_on_off("maybe").unwrap_err();
    assert_eq!(err, "expected 'on' or 'off', got \"maybe\"");
    assert!(parse_on_off(show_on_off(true)).unwrap());
    assert!(!parse_on_off(show_on_off(false)).unwrap());
    assert!(parse_on_off("  Enabled ").unwrap());
}

#[test]
fn toggle_kinds_name_their_subcommands_and_attributes() {
    assert_eq!(ToggleKind::Camera.cli_name(), "camera");
    assert_eq!(ToggleKind::UsbCharging.cli_name(), "usb-charging");
    assert_eq!(ToggleKind::Camera.dbus_property(), "CameraPower");
    assert_eq!(ToggleKind::Camera.hw_toggle(), Some(Toggle::CameraPower));
}

#[test]
fn method_errors_keep_their_detail() {
    assert_eq!(
        describe_method_error("org.legiontoolkit.Error.NotAuthorized", "denied"),
        "not authorized: denied"
    );
    assert_eq!(
        describe_method_error("org.legiontoolkit.Error.NotSupported", "no fan"),
        "not supported on this machine: no fan"
    );
    assert_eq!(describe_method_error("org.example.Oops", "detail"), "detail");
    assert_eq!(describe_method_error("org.example.Oops", ""), "org.example.Oops");
    assert_eq!(
        describe_hw_error(&HwError::Parse("x".into())),
        "could not parse sysfs value: x"
    );
}

#[test]
fn ppt_arguments_resolve_to_keys_and_directories() {
    assert_eq!(resolve_ppt_key("ppt_pl1_spl"), "spl");
    assert_eq!(resolve_ppt_key("SPPT"), "sppt");
    assert_eq!(resolve_ppt_key("gpu_nv_ctgp"), "gpu_nv_ctgp");
    assert_eq!(resolve_ppt_dir("fppt"), "ppt_pl3_fppt");
    assert_eq!(resolve_ppt_dir("gpu_nv_ctgp"), "gpu_nv_ctgp");
}

#[test]
fn select_ppt_lists_the_known_keys() {
    let all = vec![attr("spl", 70, 50, 115), attr("sppt", 85, 60, 130), attr("fppt", 102, 70, 150)];
    let err = select_ppt(&all, "gpu").unwrap_err();
    assert_eq!(err, "unknown power limit \"gpu\" (known: spl, sppt, fppt)");
    assert_eq!(select_ppt(&all, "ppt_pl2_sppt").unwrap().current, 85);
}

#[test]
fn range_message_names_the_firmware_range() {
    let msg = ppt_range_message(&attr("spl", 70, 50, 115), 20);
    assert_eq!(msg, "20 W is out of range for spl: 50–115 W");
}

#[test]
fn backlight_is_checked_against_its_maximum() {
    assert_eq!(check_backlight(2, 2), Ok(()));
    assert_eq!(check_backlight(5, 2), Err("backlight level 5 is out of range: 0–2".to_string()));
}

#[test]
fn status_lines_carry_the_friendly_names() {
    assert_eq!(profile_line("balanced"), "profile: balanced (Balanced)");
    assert_eq!(profile_line("ludicrous"), "profile: ludicrous (unknown)");
    assert_eq!(battery_line("Long_Life"), "battery: Long_Life (Conservation)");
    assert!(FALLBACK_HINT.contains("legiond not running"));
}

// ───────────────────── direct-sysfs mode on the 82WM tree ─────────────────────

fn write(root: &mut SysRoot, rel: &str, val: &str) {
    root.put_file(rel, &format!("{val}\n"));
}

fn read(root: &SysRoot, rel: &str) -> String {
    root.contents(rel).unwrap().trim().to_string()
}

/// The live 82WM values.
fn fake_82wm(root: &mut SysRoot) {
    write(root, "sys/class/dmi/id/product_family", "Legion R9000P ARX8");
    write(root, "sys/class/dmi/id/product_name", "82WM");

    let pp = "sys/class/platform-profile/platform-profile-0";
    write(root, &format!("{pp}/name"), "lenovo-wmi-gamezone");
    write(root, &format!("{pp}/choices"), "low-power balanced performance max-power custom");
    write(root, &format!("{pp}/profile"), "balanced");

    let fa = "sys/class/firmware-attributes/lenovo-wmi-other-0/attributes";
    for (dir, cur, def, min, max) in [
        ("ppt_pl1_spl", 70, 70, 50, 115),
        ("ppt_pl2_sppt", 85, 85, 60, 130),
        ("ppt_pl3_fppt", 102, 102, 70, 150),
    ] {
        write(root, &format!("{fa}/{dir}/current_value"), &cur.to_string());
        write(root, &format!("{fa}/{dir}/default_value"), &def.to_string());
        write(root, &format!("{fa}/{dir}/min_value"), &min.to_string());
        write(root, &format!("{fa}/{dir}/max_value"), &max.to_string());
        write(root, &format!("{fa}/{dir}/scalar_increment"), "1");
        write(root, &format!("{fa}/{dir}/display_name"), dir);
    }

    let bat = "sys/class/power_supply/BAT0";
    write(root, &format!("{bat}/charge_types"), "Fast Standard [Long_Life]");
    write(root, &format!("{bat}/capacity"), "78");
    write(root, &format!("{bat}/energy_now"), "62000000");
    write(root, &format!("{bat}/energy_full"), "80000000");
    write(root, &format!("{bat}/energy_full_design"), "99900000");
    write(root, &format!("{bat}/cycle_count"), "42");
    write(root, &format!("{bat}/status"), "Discharging");
    write(root, "sys/class/power_supply/ADP0/type", "Mains");
    write(root, "sys/class/power_supply/ADP0/online", "1");

    let vpc = "sys/bus/platform/devices/VPC2004:00";
    write(root, &format!("{vpc}/fn_lock"), "0");
    write(root, &format!("{vpc}/camera_power"), "1");
    write(root, &format!("{vpc}/usb_charging"), "0");
    write(root, &format!("{vpc}/fan_mode"), "0");

    let led = "sys/class/leds/platform::kbd_backlight";
    write(root, &format!("{led}/brightness"), "1");
    write(root, &format!("{led}/max_brightness"), "2");

    write(root, "sys/devices/system/cpu/cpufreq/boost", "1");
    let c0 = "sys/devices/system/cpu/cpu0/cpufreq";
    write(root, &format!("{c0}/scaling_governor"), "powersave");
    write(root, &format!("{c0}/scaling_cur_freq"), "3593000");
    write(root, "sys/class/hwmon/hwmon1/name", "k10temp");
    write(root, "sys/class/hwmon/hwmon1/temp1_input", "52125");
}

fn fixture() -> SysRoot {
    let mut root = SysRoot::at("/tmp/legion-ctl");
    fake_82wm(&mut root);
    root
}

/// What `legion-ctl status` prints for these lines.
fn render(lines: &[StatusLine]) -> String {
    let mut out = String::new();
    for l in lines {
        let text = match l {
            StatusLine::Text(s) => s.clone(),
            StatusLine::BatteryHealth(full, design) => {
                format!("battery-health: {:.1}%", *full as f64 / *design as f64 * 100.0)
            },
            StatusLine::CpuFreq(khz) => format!("cpu-freq: {:.2} GHz", *khz as f64 / 1_000_000.0),
            StatusLine::CpuTemp(t) => format!("cpu-temp: {:.1} C", t.parse::<f64>().unwrap() / 1000.0),
        };
        out.push_str(&text);
        out.push('\n');
    }
    out
}

fn kind_of(sub: &str) -> ToggleKind {
    match sub {
        "fnlock" => ToggleKind::FnLock,
        "camera" => ToggleKind::Camera,
        "usb-charging" => ToggleKind::UsbCharging,
        _ => ToggleKind::Boost,
    }
}

#[test]
fn status_reports_the_machine_and_is_parseable() {
    let root = fixture();
    let stdout = render(&status_report(&root, None));

    assert!(stdout.contains("profile: balanced"), "{stdout}");
    assert!(stdout.contains("machine: 82WM"), "{stdout}");
    assert!(stdout.contains("daemon: not running"), "{stdout}");
    assert!(stdout.contains("battery-mode: Long_Life"), "{stdout}");
    assert!(stdout.contains("ppt-spl: 70 W"), "{stdout}");
    assert!(stdout.contains("cpu-temp: 52.1 C"), "{stdout}");

    for line in stdout.lines().filter(|l| !l.is_empty()) {
        assert!(line.contains(": "), "unparseable status line: {line:?}");
    }
}

#[test]
fn status_says_so_when_no_fan_sensor_exists() {
    let root = fixture();
    let stdout = render(&status_report(&root, None));
    assert!(stdout.contains("fan-rpm: unavailable"), "{stdout}");
}

#[test]
fn status_on_an_unsupported_machine_says_so() {
    let root = SysRoot::at("/tmp/legion-nothing");
    let stdout = render(&status_report(&root, None));
    assert!(stdout.contains("supported: no"), "{stdout}");
    assert!(stdout.contains("lenovo-wmi-gamezone"), "{stdout}");
}

#[test]
fn status_lists_every_section_in_order() {
    let root = fixture();
    let lines = status_report(&root, None);
    let stdout = render(&lines);
    let expected = "machine: 82WM
family: Legion R9000P ARX8
daemon: not running
profile: balanced (Balanced)
profile-driver: lenovo-wmi-gamezone
profile-choices: low-power balanced performance max-power custom
ppt-spl: 70 W (range 50–115)
ppt-sppt: 85 W (range 60–130)
ppt-fppt: 102 W (range 70–150)
battery-mode: Long_Life (Conservation)
battery-capacity: 78%
battery-status: Discharging
battery-health: 80.1%
battery-cycles: 42
ac: online
fnlock: off
camera: on
usb-charging: off
fan-mode: Super Silent
fan-rpm: unavailable (no fan sensor on this kernel)
backlight: 1 (max 2)
cpu-boost: on
cpu-governor: powersave
cpu-freq: 3.59 GHz
cpu-temp: 52.1 C
";
    assert_eq!(stdout, expected);
}

#[test]
fn status_takes_profile_and_limits_from_the_daemon() {
    let root = fixture();
    let daemon = DaemonReadings { profile: Some("custom".to_string()), ppt: Vec::new() };
    let stdout = render(&status_report(&root, Some(&daemon)));
    assert!(stdout.contains("daemon: running"), "{stdout}");
    assert!(stdout.contains("profile: custom (Custom)"), "{stdout}");
    assert!(!stdout.contains("ppt-spl"), "{stdout}");
}

#[test]
fn profile_reads_and_writes() {
    let mut root = fixture();
    assert_eq!(commands::profile(&mut root, None).unwrap(), "profile: balanced (Balanced)");

    commands::profile(&mut root, Some("performance")).unwrap();
    assert_eq!(read(&root, "sys/class/platform-profile/platform-profile-0/profile"), "performance");

    commands::profile(&mut root, Some("extreme")).unwrap();
    assert_eq!(read(&root, "sys/class/platform-profile/platform-profile-0/profile"), "max-power");
}

#[test]
fn unknown_profile_is_rejected_before_touching_sysfs() {
    let mut root = fixture();
    let err = commands::profile(&mut root, Some("ludicrous")).unwrap_err();
    assert!(err.contains("ludicrous"), "{err}");
    assert_eq!(read(&root, "sys/class/platform-profile/platform-profile-0/profile"), "balanced");
}

#[test]
fn ppt_below_min_names_the_range() {
    let mut root = fixture();
    let err = commands::ppt(&mut root, Some("spl"), Some(20)).unwrap_err();
    assert!(err.contains("50") && err.contains("115"), "{err}");
    assert_eq!(
        read(
            &root,
            "sys/class/firmware-attributes/lenovo-wmi-other-0/attributes/ppt_pl1_spl/current_value"
        ),
        "70"
    );
}

#[test]
fn ppt_lists_all_three_limits() {
    let mut root = fixture();
    let stdout = commands::ppt(&mut root, None, None).unwrap().join("\n");
    assert!(stdout.contains("spl: 70 W"), "{stdout}");
    assert!(stdout.contains("sppt: 85 W"), "{stdout}");
    assert!(stdout.contains("fppt: 102 W"), "{stdout}");
    assert!(stdout.contains("range 50–115"), "{stdout}");
}

#[test]
fn ppt_unknown_attribute_lists_the_known_ones() {
    let mut root = fixture();
    let err = commands::ppt(&mut root, Some("gpu"), None).unwrap_err();
    assert!(err.contains("spl"), "{err}");
}

#[test]
fn ppt_shows_and_sets_one_limit() {
    let mut root = fixture();
    assert_eq!(
        commands::ppt(&mut root, Some("sppt"), None).unwrap(),
        vec!["sppt: 85 W (default 85, range 60–130)".to_string()]
    );
    assert_eq!(
        commands::ppt(&mut root, Some("ppt_pl1_spl"), Some(100)).unwrap(),
        vec!["spl: 100 W".to_string()]
    );
    assert_eq!(
        read(
            &root,
            "sys/class/firmware-attributes/lenovo-wmi-other-0/attributes/ppt_pl1_spl/current_value"
        ),
        "100"
    );
    let mut empty = SysRoot::at("/tmp/legion-nothing");
    assert_eq!(
        commands::ppt(&mut empty, None, None).unwrap_err(),
        "no power-limit attributes on this machine"
    );
}

#[test]
fn battery_mode_round_trips() {
    let mut root = fixture();
    let out = commands::battery(&mut root, None).unwrap();
    assert!(out.contains("Long_Life"), "{out}");

    commands::battery(&mut root, Some("standard")).unwrap();
    assert_eq!(read(&root, "sys/class/power_supply/BAT0/charge_types"), "Standard");

    commands::battery(&mut root, Some("long-life")).unwrap();
    assert_eq!(read(&root, "sys/class/power_supply/BAT0/charge_types"), "Long_Life");
}

#[test]
fn toggles_round_trip() {
    let mut root = fixture();
    for (sub, attr) in [("fnlock", "fn_lock"), ("camera", "camera_power"), ("usb-charging", "usb_charging")] {
        let kind = kind_of(sub);
        commands::toggle(&mut root, kind, Some("on")).unwrap();
        assert_eq!(read(&root, &format!("sys/bus/platform/devices/VPC2004:00/{attr}")), "1");
        let out = commands::toggle(&mut root, kind, None).unwrap();
        assert!(out.contains(": on"), "{out}");

        commands::toggle(&mut root, kind, Some("off")).unwrap();
        assert_eq!(read(&root, &format!("sys/bus/platform/devices/VPC2004:00/{attr}")), "0");
    }
}

#[test]
fn invalid_on_off_is_rejected() {
    let mut root = fixture();
    let err = commands::toggle(&mut root, ToggleKind::FnLock, Some("maybe")).unwrap_err();
    assert!(err.contains("'on' or 'off'"), "{err}");
}

#[test]
fn backlight_respects_max_brightness() {
    let mut root = fixture();
    commands::backlight(&mut root, Some(2)).unwrap();
    assert_eq!(read(&root, "sys/class/leds/platform::kbd_backlight/brightness"), "2");

    let err = commands::backlight(&mut root, Some(5)).unwrap_err();
    assert!(err.contains("0–2"), "{err}");
    assert_eq!(commands::backlight(&mut root, None).unwrap(), "backlight: 2 (max 2)");
}

#[test]
fn cli_boost_round_trips() {
    let mut root = fixture();
    let out = commands::toggle(&mut root, ToggleKind::Boost, None).unwrap();
    assert!(out.contains("boost: on"), "{out}");

    commands::toggle(&mut root, ToggleKind::Boost, Some("off")).unwrap();
    assert_eq!(read(&root, "sys/devices/system/cpu/cpufreq/boost"), "0");
}

#[test]
fn write_to_a_read_only_tree_reports_a_permission_problem() {
    let mut root = fixture();
    let profile = "sys/class/platform-profile/platform-profile-0/profile";
    let contents = root.contents(profile).unwrap();
    root.put_locked(
        profile,
        &contents,
        IoFault {
            kind: IoKind::PermissionDenied,
            raw_os_error: Some(13),
            message: "Permission denied (os error 13)".to_string(),
        },
    );
    let err = commands::profile(&mut root, Some("performance")).unwrap_err();
    assert!(err.contains("permission denied") || err.contains("legiond"), "{err}");
}

#[test]
fn a_switch_the_machine_lacks_is_not_supported() {
    let mut root = SysRoot::at("/tmp/legion-nothing");
    assert_eq!(
        commands::toggle(&mut root, ToggleKind::Camera, None).unwrap_err(),
        "not supported on this machine"
    );
}

#[test]
fn daemon_mode_texts_match_the_direct_ones() {
    assert_eq!(commands::profile_text(PowerProfile::Custom), "profile: custom (Custom)");
    assert_eq!(commands::battery_text(ChargeMode::LongLife), "battery: Long_Life (Conservation)");
    assert_eq!(commands::switch_text(ToggleKind::UsbCharging, true), "usb-charging: on");
    assert_eq!(commands::backlight_text(1, 2), "backlight: 1 (max 2)");
    assert_eq!(commands::backlight_set_text(2), "backlight: 2");
    assert_eq!(commands::ppt_set_text("spl", 90), "spl: 90 W");
    assert_eq!(commands::no_ppt_message(), "no power-limit attributes on this machine");
    assert_eq!(commands::watch_line("balanced"), "profile: balanced");
}

#[test]
fn ppt_plan_refuses_out_of_range_before_any_set() {
    let all = vec![attr("spl", 70, 50, 115)];
    assert_eq!(
        commands::ppt_plan(&all, Some("ppt_pl1_spl"), Some(20)).unwrap_err(),
        "20 W is out of range for spl: 50–115 W"
    );
    match commands::ppt_plan(&all, Some("spl"), Some(90)) {
        Ok(commands::PptPlan::Apply { key, dir, watts }) => {
            assert_eq!(key, "spl");
            assert_eq!(dir, "ppt_pl1_spl");
            assert_eq!(watts, 90);
        },
        other => panic!("expected a limit to set, got {other:?}"),
    }
    match commands::ppt_plan(&all, Some("spl"), None) {
        Ok(commands::PptPlan::Print(lines)) => assert_eq!(lines, vec!["spl: 70 W (default 70, range 50–115)".to_string()]),
        other => panic!("expected the limit shown, got {other:?}"),
    }
    assert_eq!(
        commands::ppt_plan(&Vec::new(), None, None).unwrap_err(),
        "no power-limit attributes on this machine"
    );
}
