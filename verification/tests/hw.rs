//! Hardware-layer behaviour on an in-memory sysfs tree mirroring the live
//! Lenovo Legion R9000P ARX8 (82WM) running kernel 7.0.0-28-generic.
//!
//! Every value here was recorded from the real machine. Attributes the
//! machine genuinely lacks — battery `temp`, `touchpad`, any `fanN_input` —
//! are deliberately absent.

use legion_toolkit::battery::{self, parse_charge_types, ChargeMode};
use legion_toolkit::cpu;
use legion_toolkit::detect;
use legion_toolkit::error::{HwError, IoFault, IoKind};
use legion_toolkit::fan;
use legion_toolkit::firmware_attrs::{self, AttrInfo, PptAttr};
use legion_toolkit::ideapad::{self, FanMode, Toggle};
use legion_toolkit::kbd_backlight;
use legion_toolkit::profile::{self, LedColor, PowerProfile};
use legion_toolkit::profile_watch::{self, ChangeFilter, ProfileWatchFd};
use legion_toolkit::sysfs::{find_hwmon, SysRoot};

/// Write a sysfs-style file, with the trailing newline the kernel emits.
fn write(root: &mut SysRoot, rel: &str, val: &str) {
    root.put_file(rel, &format!("{val}\n"));
}

/// Read a file back without the trailing newline — for asserting on writes.
fn read(root: &SysRoot, rel: &str) -> String {
    root.contents(rel)
        .unwrap_or_else(|| panic!("reading {rel}"))
        .trim()
        .to_string()
}

fn empty() -> SysRoot {
    SysRoot::at("/tmp/legion-empty")
}

/// The full 82WM tree.
fn fake_82wm() -> SysRoot {
    let mut root = SysRoot::at("/tmp/legion-82wm");
    let r = &mut root;

    write(r, "sys/class/dmi/id/product_family", "Legion R9000P ARX8");
    write(r, "sys/class/dmi/id/product_name", "82WM");
    write(r, "sys/class/dmi/id/board_name", "LNVNB161216");

    let pp = "sys/class/platform-profile/platform-profile-0";
    write(r, &format!("{pp}/name"), "lenovo-wmi-gamezone");
    write(r, &format!("{pp}/choices"), "low-power balanced performance max-power custom");
    write(r, &format!("{pp}/profile"), "balanced");

    let fa = "sys/class/firmware-attributes/lenovo-wmi-other-0/attributes";
    for (dir_name, cur, def, min, max) in [
        ("ppt_pl1_spl", 70, 70, 50, 115),
        ("ppt_pl2_sppt", 85, 85, 60, 130),
        ("ppt_pl3_fppt", 102, 102, 70, 150),
    ] {
        write(r, &format!("{fa}/{dir_name}/type"), "integer");
        write(r, &format!("{fa}/{dir_name}/current_value"), &cur.to_string());
        write(r, &format!("{fa}/{dir_name}/default_value"), &def.to_string());
        write(r, &format!("{fa}/{dir_name}/min_value"), &min.to_string());
        write(r, &format!("{fa}/{dir_name}/max_value"), &max.to_string());
        write(r, &format!("{fa}/{dir_name}/scalar_increment"), "1");
        write(r, &format!("{fa}/{dir_name}/display_name"), dir_name);
    }

    let bat = "sys/class/power_supply/BAT0";
    write(r, &format!("{bat}/type"), "Battery");
    write(r, &format!("{bat}/charge_types"), "Fast Standard [Long_Life]");
    write(r, &format!("{bat}/capacity"), "78");
    write(r, &format!("{bat}/energy_now"), "62000000");
    write(r, &format!("{bat}/energy_full"), "80000000");
    write(r, &format!("{bat}/energy_full_design"), "99900000");
    write(r, &format!("{bat}/voltage_now"), "15400000");
    write(r, &format!("{bat}/power_now"), "12000000");
    write(r, &format!("{bat}/cycle_count"), "42");
    write(r, &format!("{bat}/status"), "Discharging");

    write(r, "sys/class/power_supply/ADP0/type", "Mains");
    write(r, "sys/class/power_supply/ADP0/online", "1");

    let vpc = "sys/bus/platform/devices/VPC2004:00";
    write(r, &format!("{vpc}/fn_lock"), "0");
    write(r, &format!("{vpc}/camera_power"), "1");
    write(r, &format!("{vpc}/usb_charging"), "0");
    write(r, &format!("{vpc}/conservation_mode"), "1");
    write(r, &format!("{vpc}/fan_mode"), "0");

    let led = "sys/class/leds/platform::kbd_backlight";
    write(r, &format!("{led}/brightness"), "1");
    write(r, &format!("{led}/max_brightness"), "2");
    write(r, &format!("{led}/brightness_hw_changed"), "0");

    write(r, "sys/devices/system/cpu/cpufreq/boost", "1");
    let c0 = "sys/devices/system/cpu/cpu0/cpufreq";
    write(r, &format!("{c0}/scaling_governor"), "powersave");
    write(r, &format!("{c0}/energy_performance_preference"), "balance_performance");
    write(r, &format!("{c0}/scaling_cur_freq"), "3593000");

    write(r, "sys/class/hwmon/hwmon0/name", "nvme");
    write(r, "sys/class/hwmon/hwmon0/temp1_input", "41850");
    write(r, "sys/class/hwmon/hwmon1/name", "k10temp");
    write(r, "sys/class/hwmon/hwmon1/temp1_input", "52125");
    write(r, "sys/class/hwmon/hwmon1/temp1_label", "Tctl");

    root
}

fn fixture() -> SysRoot {
    fake_82wm()
}

/// The 82WM tree as the capability probe's own tests record it.
fn detect_82wm(root: &mut SysRoot) {
    write(root, "sys/class/dmi/id/product_family", "Legion R9000P ARX8");
    write(root, "sys/class/dmi/id/product_name", "82WM");
    write(root, "sys/class/dmi/id/board_name", "LNVNB161216");

    let pp = "sys/class/platform-profile/platform-profile-0";
    write(root, &format!("{pp}/name"), "lenovo-wmi-gamezone");
    write(root, &format!("{pp}/choices"), "low-power balanced performance max-power custom");
    write(root, &format!("{pp}/profile"), "balanced");

    let fa = "sys/class/firmware-attributes/lenovo-wmi-other-0/attributes";
    for (dir, cur, def, min, max) in [
        ("ppt_pl1_spl", 70, 70, 50, 115),
        ("ppt_pl2_sppt", 85, 85, 60, 130),
        ("ppt_pl3_fppt", 102, 102, 70, 150),
    ] {
        write(root, &format!("{fa}/{dir}/type"), "integer");
        write(root, &format!("{fa}/{dir}/current_value"), &cur.to_string());
        write(root, &format!("{fa}/{dir}/default_value"), &def.to_string());
        write(root, &format!("{fa}/{dir}/min_value"), &min.to_string());
        write(root, &format!("{fa}/{dir}/max_value"), &max.to_string());
        write(root, &format!("{fa}/{dir}/scalar_increment"), "1");
        write(root, &format!("{fa}/{dir}/display_name"), dir);
    }

    let bat = "sys/class/power_supply/BAT0";
    write(root, &format!("{bat}/charge_types"), "Fast Standard [Long_Life]");
    write(root, &format!("{bat}/capacity"), "78");
    write(root, &format!("{bat}/energy_now"), "62000000");
    write(root, &format!("{bat}/energy_full"), "80000000");
    write(root, &format!("{bat}/energy_full_design"), "80000000");
    write(root, &format!("{bat}/voltage_now"), "15400000");
    write(root, &format!("{bat}/power_now"), "12000000");
    write(root, &format!("{bat}/cycle_count"), "42");
    write(root, &format!("{bat}/status"), "Discharging");
    write(root, "sys/class/power_supply/ADP0/type", "Mains");
    write(root, "sys/class/power_supply/ADP0/online", "1");

    let vpc = "sys/bus/platform/devices/VPC2004:00";
    write(root, &format!("{vpc}/fn_lock"), "0");
    write(root, &format!("{vpc}/camera_power"), "1");
    write(root, &format!("{vpc}/usb_charging"), "0");
    write(root, &format!("{vpc}/conservation_mode"), "1");
    write(root, &format!("{vpc}/fan_mode"), "0");

    let led = "sys/class/leds/platform::kbd_backlight";
    write(root, &format!("{led}/brightness"), "1");
    write(root, &format!("{led}/max_brightness"), "2");

    write(root, "sys/devices/system/cpu/cpufreq/boost", "1");
    write(root, "sys/devices/system/cpu/cpu0/cpufreq/scaling_governor", "powersave");
    write(
        root,
        "sys/devices/system/cpu/cpu0/cpufreq/energy_performance_preference",
        "balance_performance",
    );
    write(root, "sys/devices/system/cpu/cpu0/cpufreq/scaling_cur_freq", "3593000");

    write(root, "sys/class/hwmon/hwmon0/name", "nvme");
    write(root, "sys/class/hwmon/hwmon0/temp1_input", "41850");
    write(root, "sys/class/hwmon/hwmon1/name", "k10temp");
    write(root, "sys/class/hwmon/hwmon1/temp1_input", "52125");
}

/// The CPU package temperature in °C, from the sensor file the library picks.
fn temp_celsius(root: &SysRoot) -> Option<f64> {
    let file = cpu::temp_sensor_file(root)?;
    let millidegrees: f64 = root.read(&file).ok()?.parse().ok()?;
    Some(millidegrees / 1000.0)
}

// ───────────────────────────── profile ─────────────────────────────

#[test]
fn kernel_strings_round_trip() {
    for p in PowerProfile::ALL {
        assert_eq!(PowerProfile::from_sysfs(p.as_sysfs()).unwrap(), p);
    }
}

#[test]
fn extreme_is_max_power() {
    assert_eq!(PowerProfile::Extreme.as_sysfs(), "max-power");
    assert_eq!(PowerProfile::from_sysfs("low-power").unwrap(), PowerProfile::Quiet);
}

#[test]
fn user_input_accepts_labels_and_kernel_names() {
    assert_eq!(PowerProfile::from_user("Extreme").unwrap(), PowerProfile::Extreme);
    assert_eq!(PowerProfile::from_user("max-power").unwrap(), PowerProfile::Extreme);
    assert!(PowerProfile::from_user("turbo").is_err());
}

#[test]
fn led_colors_match_lenovo_mapping() {
    assert_eq!(PowerProfile::Quiet.led_color(), LedColor::Blue);
    assert_eq!(PowerProfile::Balanced.led_color(), LedColor::White);
    assert_eq!(PowerProfile::Performance.led_color(), LedColor::Red);
    assert_eq!(PowerProfile::Extreme.led_color(), LedColor::Purple);
    assert_eq!(PowerProfile::Custom.led_color(), LedColor::Purple);
}

#[test]
fn get_maps_low_power_to_quiet() {
    let mut root = fixture();
    write(&mut root, "sys/class/platform-profile/platform-profile-0/profile", "low-power");
    assert_eq!(profile::get(&root).unwrap(), PowerProfile::Quiet);
}

#[test]
fn get_reads_the_live_value() {
    let root = fixture();
    assert_eq!(profile::get(&root).unwrap(), PowerProfile::Balanced);
}

#[test]
fn set_extreme_writes_max_power() {
    let mut root = fixture();
    profile::set(&mut root, PowerProfile::Extreme).unwrap();
    assert_eq!(
        read(&root, "sys/class/platform-profile/platform-profile-0/profile"),
        "max-power"
    );
    assert_eq!(profile::get(&root).unwrap(), PowerProfile::Extreme);
}

#[test]
fn set_custom_round_trips() {
    let mut root = fixture();
    profile::set(&mut root, PowerProfile::Custom).unwrap();
    assert_eq!(profile::get(&root).unwrap(), PowerProfile::Custom);
}

#[test]
fn unknown_value_in_file_is_a_parse_error() {
    let mut root = fixture();
    write(
        &mut root,
        "sys/class/platform-profile/platform-profile-0/profile",
        "ludicrous-speed",
    );
    assert!(matches!(profile::get(&root), Err(HwError::Parse(_))));
}

#[test]
fn profile_missing_file_is_not_supported() {
    let mut root = empty();
    assert!(!profile::available(&root));
    assert!(matches!(profile::get(&root), Err(HwError::NotSupported)));
    assert!(matches!(
        profile::set(&mut root, PowerProfile::Balanced),
        Err(HwError::NotSupported)
    ));
}

#[test]
fn choices_parse_in_kernel_order() {
    let root = fixture();
    let choices = profile::choices(&root).unwrap();
    assert_eq!(
        choices,
        vec![
            PowerProfile::Quiet,
            PowerProfile::Balanced,
            PowerProfile::Performance,
            PowerProfile::Extreme,
            PowerProfile::Custom,
        ]
    );
}

#[test]
fn choices_with_an_unknown_entry_fail_loudly() {
    let mut root = fixture();
    write(
        &mut root,
        "sys/class/platform-profile/platform-profile-0/choices",
        "balanced quantum",
    );
    assert!(matches!(profile::choices(&root), Err(HwError::Parse(_))));
}

#[test]
fn driver_is_lenovo_wmi_gamezone() {
    let root = fixture();
    assert_eq!(profile::driver_name(&root).as_deref(), Some("lenovo-wmi-gamezone"));
}

#[test]
fn led_colors_are_exposed_for_the_tray() {
    let root = fixture();
    let p = profile::get(&root).unwrap();
    assert_eq!(p.led_color(), LedColor::White);
    assert!(LedColor::Blue.hex().starts_with('#'));
}

#[test]
fn device_is_discovered_by_name_not_by_index() {
    let mut root = empty();

    let lll = "sys/class/platform-profile/platform-profile-0";
    write(&mut root, &format!("{lll}/name"), "lenovo-legion");
    write(&mut root, &format!("{lll}/choices"), "low-power balanced performance custom");
    write(&mut root, &format!("{lll}/profile"), "balanced");

    let gz = "sys/class/platform-profile/platform-profile-1";
    write(&mut root, &format!("{gz}/name"), "lenovo-wmi-gamezone");
    write(
        &mut root,
        &format!("{gz}/choices"),
        "low-power balanced performance max-power custom",
    );
    write(&mut root, &format!("{gz}/profile"), "performance");

    assert_eq!(profile::device_dir(&root).as_deref(), Some(gz));
    assert_eq!(
        profile::profile_file(&root).as_deref(),
        Some(format!("{gz}/profile").as_str())
    );

    assert!(profile::available(&root));
    assert_eq!(profile::get(&root).unwrap(), PowerProfile::Performance);
    assert_eq!(profile::driver_name(&root).as_deref(), Some("lenovo-wmi-gamezone"));
    assert_eq!(profile::choices(&root).unwrap(), PowerProfile::ALL.to_vec());

    profile::set(&mut root, PowerProfile::Extreme).unwrap();
    assert_eq!(read(&root, &format!("{gz}/profile")), "max-power");
    assert_eq!(read(&root, &format!("{lll}/profile")), "balanced");

    let caps = detect::probe(&root);
    assert!(caps.platform_profile);
    assert_eq!(caps.platform_profile_driver.as_deref(), Some("lenovo-wmi-gamezone"));
    assert_eq!(caps.profile_choices.len(), 5);

    let watch = ProfileWatchFd::open(&root).unwrap();
    assert_eq!(watch.consume(&root).unwrap(), PowerProfile::Extreme);
}

#[test]
fn falls_back_to_the_first_device_without_a_gamezone() {
    let mut root = empty();

    let dir = "sys/class/platform-profile/platform-profile-0";
    write(&mut root, &format!("{dir}/name"), "lenovo-legion");
    write(&mut root, &format!("{dir}/choices"), "low-power balanced performance custom");
    write(&mut root, &format!("{dir}/profile"), "performance");

    assert_eq!(profile::device_dir(&root).as_deref(), Some(dir));
    assert!(profile::available(&root));
    assert_eq!(profile::get(&root).unwrap(), PowerProfile::Performance);
    assert_eq!(profile::driver_name(&root).as_deref(), Some("lenovo-legion"));
    assert_eq!(profile::choices(&root).unwrap().len(), 4);

    profile::set(&mut root, PowerProfile::Quiet).unwrap();
    assert_eq!(read(&root, &format!("{dir}/profile")), "low-power");
}

#[test]
fn a_device_without_a_name_file_is_still_used() {
    let mut root = empty();
    write(
        &mut root,
        "sys/class/platform-profile/platform-profile-0/profile",
        "balanced",
    );

    assert_eq!(
        profile::device_dir(&root).as_deref(),
        Some("sys/class/platform-profile/platform-profile-0")
    );
    assert!(profile::available(&root));
    assert_eq!(profile::get(&root).unwrap(), PowerProfile::Balanced);
    assert_eq!(profile::driver_name(&root), None);
}

#[test]
fn an_empty_class_directory_is_not_supported() {
    let mut root = empty();
    root.put_dir("sys/class/platform-profile");

    assert_eq!(profile::device_dir(&root), None);
    assert_eq!(profile::profile_file(&root), None);
    assert!(!profile::available(&root));
    assert!(matches!(profile::get(&root), Err(HwError::NotSupported)));
    assert!(matches!(profile::choices(&root), Err(HwError::NotSupported)));
    assert!(matches!(
        profile::set(&mut root, PowerProfile::Balanced),
        Err(HwError::NotSupported)
    ));
}

#[test]
fn set_is_recorded_as_one_write() {
    let mut root = fixture();
    profile::set(&mut root, PowerProfile::Performance).unwrap();
    let writes = root.writes();
    assert_eq!(writes.len(), 1);
    assert_eq!(writes[0].0, "sys/class/platform-profile/platform-profile-0/profile");
    assert_eq!(writes[0].1, "performance");
}

#[test]
fn every_profile_survives_a_set_then_get() {
    for p in PowerProfile::ALL {
        let mut root = fixture();
        profile::set(&mut root, p).unwrap();
        assert_eq!(profile::get(&root).unwrap(), p);
        assert_eq!(PowerProfile::from_user(p.label()).unwrap(), p);
        assert_eq!(PowerProfile::from_user(p.as_sysfs()).unwrap(), p);
    }
}

#[test]
fn refused_profile_write_leaves_the_tree_alone() {
    let mut root = fixture();
    root.put_dir("sys/class/platform-profile/platform-profile-0/profile");
    assert!(matches!(
        profile::set(&mut root, PowerProfile::Quiet),
        Err(HwError::Io(_))
    ));
    assert!(root.writes().is_empty());
}

// ───────────────────────────── profile watch ─────────────────────────────

fn fake_profile_file(value: &str) -> SysRoot {
    let mut root = SysRoot::at("/tmp/legion-watch");
    write(
        &mut root,
        "sys/class/platform-profile/platform-profile-0/profile",
        value,
    );
    root
}

#[test]
fn open_performs_the_arming_read() {
    let root = fake_profile_file("balanced");
    let w = ProfileWatchFd::open(&root).unwrap();
    assert_eq!(w.consume(&root).unwrap(), PowerProfile::Balanced);
}

#[test]
fn consume_rereads_after_the_value_changes() {
    let mut root = fake_profile_file("balanced");
    let w = ProfileWatchFd::open(&root).unwrap();
    write(
        &mut root,
        "sys/class/platform-profile/platform-profile-0/profile",
        "max-power",
    );
    assert_eq!(w.consume(&root).unwrap(), PowerProfile::Extreme);
}

#[test]
fn consume_reports_an_unparseable_value() {
    let mut root = fake_profile_file("balanced");
    let w = ProfileWatchFd::open(&root).unwrap();
    write(
        &mut root,
        "sys/class/platform-profile/platform-profile-0/profile",
        "ludicrous",
    );
    assert!(matches!(w.consume(&root), Err(HwError::Parse(_))));
}

#[test]
fn open_on_a_missing_file_is_not_supported() {
    let root = empty();
    assert!(matches!(ProfileWatchFd::open(&root), Err(HwError::NotSupported)));
}

#[test]
fn watcher_targets_the_profile_attribute() {
    let root = fake_profile_file("balanced");
    let w = ProfileWatchFd::open(&root).unwrap();
    assert_eq!(w.file(), "sys/class/platform-profile/platform-profile-0/profile");
    assert_eq!(profile_watch::current(&root).unwrap(), PowerProfile::Balanced);
}

#[test]
fn readings_are_trimmed_and_parsed() {
    assert_eq!(profile_watch::parse_reading("custom\n").unwrap(), PowerProfile::Custom);
    assert!(matches!(profile_watch::parse_reading("fast\n"), Err(HwError::Parse(_))));
}

#[test]
fn change_filter_swallows_repeats_and_errors() {
    let mut f = ChangeFilter::new();
    assert_eq!(f.last(), None);
    assert_eq!(f.observe(Ok(PowerProfile::Balanced)), Some(PowerProfile::Balanced));
    // The daemon's own write wakes the watcher with the same value.
    assert_eq!(f.observe(Ok(PowerProfile::Balanced)), None);
    assert_eq!(f.observe(Err(HwError::Busy)), None);
    assert_eq!(f.last(), Some(PowerProfile::Balanced));
    assert_eq!(f.observe(Ok(PowerProfile::Quiet)), Some(PowerProfile::Quiet));
    assert_eq!(f.observe(Ok(PowerProfile::Balanced)), Some(PowerProfile::Balanced));
}

// ───────────────────────────── sysfs ─────────────────────────────

#[test]
fn joins_relative_paths_under_root() {
    let root = SysRoot::at("/fake");
    assert_eq!(root.path("sys/class/x"), "/fake/sys/class/x");
}

#[test]
fn read_trims_trailing_newline() {
    let mut root = empty();
    root.put_file("v", "balanced\n");
    assert_eq!(root.read("v").unwrap(), "balanced");
}

#[test]
fn sysfs_missing_file_is_not_supported() {
    let root = empty();
    assert!(matches!(root.read("nope"), Err(HwError::NotSupported)));
    assert_eq!(root.read_opt("nope"), None);
}

#[test]
fn write_to_missing_file_is_not_supported() {
    let mut root = empty();
    assert!(matches!(root.write("nope", "1"), Err(HwError::NotSupported)));
}

#[test]
fn an_unreadable_file_is_still_written() {
    let mut root = empty();
    root.put_fault(
        "out",
        IoFault { kind: IoKind::PermissionDenied, raw_os_error: Some(13), message: "Permission denied (os error 13)".into() },
    );
    assert!(matches!(root.read("out"), Err(HwError::PermissionDenied)));
    assert!(root.write("out", "1").is_ok());
    assert_eq!(root.writes(), vec![("out".to_string(), "1".to_string())]);
}

#[test]
fn a_file_that_cannot_be_opened_for_writing_refuses_the_write() {
    let mut root = empty();
    root.put_locked(
        "ro",
        "7\n",
        IoFault { kind: IoKind::PermissionDenied, raw_os_error: Some(13), message: "Permission denied (os error 13)".into() },
    );
    assert_eq!(root.read("ro").unwrap(), "7");
    assert!(matches!(root.write("ro", "1"), Err(HwError::PermissionDenied)));
    assert!(root.writes().is_empty());
    assert_eq!(root.read("ro").unwrap(), "7");
}

#[test]
fn bad_number_is_a_parse_error() {
    let mut root = empty();
    root.put_file("v", "notanumber\n");
    assert!(matches!(root.read_parsed::<u32>("v"), Err(HwError::Parse(_))));
}

#[test]
fn find_hwmon_filters_by_name() {
    let mut root = empty();
    for (dir, name) in [("hwmon0", "nvme"), ("hwmon1", "k10temp")] {
        root.put_file(&format!("sys/class/hwmon/{dir}/name"), &format!("{name}\n"));
    }
    assert_eq!(find_hwmon(&root, "k10temp"), Some("sys/class/hwmon/hwmon1".to_string()));
    assert_eq!(find_hwmon(&root, "coretemp"), None);
}

#[test]
fn listing_is_sorted_and_deduplicated() {
    let mut root = empty();
    root.put_file("d/b/x", "1");
    root.put_file("d/a", "1");
    root.put_file("d/b/y", "1");
    root.put_file("dd/c", "1");
    assert_eq!(root.list_dir("d"), vec!["a".to_string(), "b".to_string()]);
    assert!(root.list_dir("nope").is_empty());
    assert!(root.path_exists("d/b"));
    assert!(!root.path_exists("d/c"));
}

#[test]
fn reading_a_directory_is_an_io_error() {
    let mut root = empty();
    root.put_file("d/x", "1");
    assert!(matches!(root.read("d"), Err(HwError::Io(_))));
    assert!(matches!(root.write("d", "1"), Err(HwError::Io(_))));
}

#[test]
fn numbers_accept_a_plus_sign_and_reject_overflow() {
    let mut root = empty();
    root.put_file("a", "+7\n");
    root.put_file("b", "4294967296\n");
    root.put_file("c", "4294967295\n");
    assert_eq!(root.read_parsed::<u32>("a").unwrap(), 7);
    assert!(matches!(root.read_parsed::<u32>("b"), Err(HwError::Parse(_))));
    assert_eq!(root.read_parsed::<u64>("b").unwrap(), 4294967296);
    assert_eq!(root.read_parsed::<u32>("c").unwrap(), u32::MAX);
    assert_eq!(root.read_parsed_opt::<u32>("b"), None);
}

#[test]
fn a_write_replaces_the_contents() {
    let mut root = empty();
    root.put_file("v", "1\n");
    root.write("v", "2").unwrap();
    assert_eq!(root.contents("v").as_deref(), Some("2"));
    assert_eq!(root.read("v").unwrap(), "2");
}

// ───────────────────────────── battery ─────────────────────────────

#[test]
fn parses_live_82wm_value() {
    let ct = parse_charge_types("Fast Standard [Long_Life]").unwrap();
    assert_eq!(ct.active, Some(ChargeMode::LongLife));
    assert_eq!(ct.available.len(), 3);
    assert!(ct.available.contains(&ChargeMode::Fast));
    assert!(ct.available.contains(&ChargeMode::Standard));
}

#[test]
fn parses_single_bracketed_entry() {
    let ct = parse_charge_types("[Standard]").unwrap();
    assert_eq!(ct.active, Some(ChargeMode::Standard));
    assert_eq!(ct.available, vec![ChargeMode::Standard]);
}

#[test]
fn parses_list_without_active_marker() {
    let ct = parse_charge_types("Fast Standard").unwrap();
    assert_eq!(ct.active, None);
    assert_eq!(ct.available.len(), 2);
}

#[test]
fn rejects_unknown_and_empty() {
    assert!(parse_charge_types("Turbo").is_err());
    assert!(parse_charge_types("   ").is_err());
}

#[test]
fn write_format_uses_underscore() {
    assert_eq!(ChargeMode::LongLife.as_sysfs(), "Long_Life");
    assert_eq!(ChargeMode::LongLife.key(), "long-life");
}

#[test]
fn user_input_is_forgiving() {
    for s in ["long-life", "Long_Life", "longlife", "LONG-LIFE"] {
        assert_eq!(ChargeMode::from_user(s).unwrap(), ChargeMode::LongLife);
    }
    assert!(ChargeMode::from_user("conservation").is_err());
}

#[test]
fn live_charge_types_value_parses() {
    let root = fixture();
    let ct = battery::charge_types(&root).unwrap();
    assert_eq!(ct.active, Some(ChargeMode::LongLife));
    assert_eq!(ct.available, vec![ChargeMode::Fast, ChargeMode::Standard, ChargeMode::LongLife]);
    assert_eq!(battery::get_mode(&root).unwrap(), ChargeMode::LongLife);
}

#[test]
fn set_mode_writes_the_underscored_kernel_name() {
    let mut root = fixture();
    battery::set_mode(&mut root, ChargeMode::LongLife).unwrap();
    assert_eq!(read(&root, "sys/class/power_supply/BAT0/charge_types"), "Long_Life");

    battery::set_mode(&mut root, ChargeMode::Standard).unwrap();
    assert_eq!(read(&root, "sys/class/power_supply/BAT0/charge_types"), "Standard");
}

#[test]
fn stats_skip_the_absent_temp_attribute() {
    let root = fixture();
    let s = battery::stats(&root);
    assert_eq!(s.capacity, Some(78));
    assert_eq!(s.cycle_count, Some(42));
    assert_eq!(s.status.as_deref(), Some("Discharging"));
    assert_eq!(s.voltage_now, Some(15_400_000));
    assert_eq!(s.power_now, Some(12_000_000));
}

#[test]
fn capacity_is_computed_from_energy() {
    let root = fixture();
    let s = battery::stats(&root);
    let (now, full) = s.energy_ratio().unwrap();
    let pct = now as f64 / full as f64 * 100.0;
    assert!((pct - 77.5).abs() < 1e-9, "got {pct}");
}

#[test]
fn health_is_full_over_design() {
    let root = fixture();
    let s = battery::stats(&root);
    let (full, design) = s.health_ratio().unwrap();
    let health = full as f64 / design as f64 * 100.0;
    assert!((health - 80.080_080_08).abs() < 1e-6, "got {health}");
}

#[test]
fn stats_on_an_empty_tree_are_all_none() {
    let root = empty();
    let s = battery::stats(&root);
    assert_eq!(s.capacity, None);
    assert_eq!(s.energy_ratio(), None);
    assert_eq!(s.health_ratio(), None);
    assert_eq!(s.ac_online, None);
    assert!(!battery::available(&root));
}

#[test]
fn ac_adapter_is_found_by_type_not_by_name() {
    let mut root = fixture();
    assert_eq!(battery::ac_online(&root), Some(true));

    write(&mut root, "sys/class/power_supply/ADP0/online", "0");
    assert_eq!(battery::ac_online(&root), Some(false));
}

#[test]
fn ac_adapter_with_an_unusual_name_still_found() {
    let mut root = empty();
    write(&mut root, "sys/class/power_supply/AC/type", "Mains");
    write(&mut root, "sys/class/power_supply/AC/online", "1");
    assert_eq!(battery::ac_online(&root), Some(true));
}

#[test]
fn missing_charge_types_is_not_supported() {
    let mut root = empty();
    assert!(matches!(battery::charge_types(&root), Err(HwError::NotSupported)));
    assert!(matches!(
        battery::set_mode(&mut root, ChargeMode::Fast),
        Err(HwError::NotSupported)
    ));
}

#[test]
fn charge_types_without_an_active_entry_has_no_mode() {
    let mut root = fixture();
    write(
        &mut root,
        "sys/class/power_supply/BAT0/charge_types",
        "Fast Standard Long_Life",
    );
    let ct = battery::charge_types(&root).unwrap();
    assert_eq!(ct.available.len(), 3);
    assert_eq!(ct.active, None);
    assert!(matches!(battery::get_mode(&root), Err(HwError::Parse(_))));
}

#[test]
fn charge_mode_names_round_trip() {
    for m in [ChargeMode::Standard, ChargeMode::Fast, ChargeMode::LongLife] {
        assert_eq!(ChargeMode::from_sysfs(m.as_sysfs()).unwrap(), m);
        assert_eq!(ChargeMode::from_user(m.key()).unwrap(), m);
        assert_eq!(ChargeMode::from_user(m.as_sysfs()).unwrap(), m);
    }
    assert_eq!(ChargeMode::from_sysfs(" long_life ").unwrap(), ChargeMode::LongLife);
    assert_eq!(ChargeMode::from_user("rapid charge").ok(), None);
}

#[test]
fn energy_ratio_needs_a_nonzero_full() {
    let mut root = empty();
    write(&mut root, "sys/class/power_supply/BAT0/energy_now", "10");
    write(&mut root, "sys/class/power_supply/BAT0/energy_full", "0");
    let s = battery::stats(&root);
    assert_eq!(s.energy_now, Some(10));
    assert_eq!(s.energy_ratio(), None);
}

// ───────────────────────────── ideapad ─────────────────────────────

#[test]
fn fan_mode_values_match_driver() {
    assert_eq!(FanMode::SuperSilent.value(), 0);
    assert_eq!(FanMode::Standard.value(), 1);
    assert_eq!(FanMode::DustCleaning.value(), 2);
    assert_eq!(FanMode::EfficientThermalDissipation.value(), 4);
}

#[test]
fn fan_mode_rejects_three() {
    assert!(FanMode::from_value(3).is_err());
    assert!(FanMode::from_value(5).is_err());
    assert_eq!(FanMode::from_value(4).unwrap(), FanMode::EfficientThermalDissipation);
}

#[test]
fn attribute_names_are_the_driver_names() {
    assert_eq!(Toggle::FnLock.attr(), "fn_lock");
    assert_eq!(Toggle::CameraPower.attr(), "camera_power");
    assert_eq!(Toggle::UsbCharging.attr(), "usb_charging");
}

#[test]
fn every_toggle_round_trips() {
    let mut root = fixture();
    for t in [Toggle::FnLock, Toggle::CameraPower, Toggle::UsbCharging] {
        assert!(ideapad::has(&root, t), "{t:?} should exist on the 82WM");

        ideapad::set(&mut root, t, true).unwrap();
        assert_eq!(ideapad::get(&root, t), Some(true));
        assert_eq!(
            read(&root, &format!("sys/bus/platform/devices/VPC2004:00/{}", t.attr())),
            "1"
        );

        ideapad::set(&mut root, t, false).unwrap();
        assert_eq!(ideapad::get(&root, t), Some(false));
    }
}

#[test]
fn live_values_read_correctly() {
    let root = fixture();
    assert_eq!(ideapad::get(&root, Toggle::FnLock), Some(false));
    assert_eq!(ideapad::get(&root, Toggle::CameraPower), Some(true));
    assert_eq!(ideapad::get(&root, Toggle::UsbCharging), Some(false));
}

#[test]
fn absent_attribute_is_none_and_hidden() {
    let mut root = empty();
    for t in Toggle::ALL {
        assert!(!ideapad::has(&root, t));
        assert_eq!(ideapad::get(&root, t), None);
        assert!(matches!(ideapad::set(&mut root, t, true), Err(HwError::NotSupported)));
    }
}

#[test]
fn fan_mode_reads_super_silent() {
    let root = fixture();
    assert!(ideapad::has_fan_mode(&root));
    assert_eq!(ideapad::get_fan_mode(&root).unwrap(), FanMode::SuperSilent);
}

#[test]
fn fan_mode_round_trips_including_the_gap_at_four() {
    let mut root = fixture();
    ideapad::set_fan_mode(&mut root, FanMode::EfficientThermalDissipation).unwrap();
    assert_eq!(read(&root, "sys/bus/platform/devices/VPC2004:00/fan_mode"), "4");
    assert_eq!(ideapad::get_fan_mode(&root).unwrap(), FanMode::EfficientThermalDissipation);

    ideapad::set_fan_mode(&mut root, FanMode::Standard).unwrap();
    assert_eq!(ideapad::get_fan_mode(&root).unwrap(), FanMode::Standard);
}

#[test]
fn fan_mode_three_is_rejected_when_read_back() {
    let mut root = fixture();
    write(&mut root, "sys/bus/platform/devices/VPC2004:00/fan_mode", "3");
    assert!(matches!(ideapad::get_fan_mode(&root), Err(HwError::Parse(_))));
}

#[test]
fn touchpad_is_absent_on_this_machine() {
    let root = fixture();
    assert!(!root.path_exists("sys/bus/platform/devices/VPC2004:00/touchpad"));
}

#[test]
fn fan_mode_error_names_the_value() {
    match FanMode::from_value(3) {
        Err(HwError::Parse(msg)) => assert_eq!(msg, "invalid fan_mode value 3"),
        other => panic!("expected Parse, got {other:?}"),
    }
    assert_eq!(FanMode::DustCleaning.label(), "Dust Cleaning");
}

// ───────────────────────────── firmware attributes ─────────────────────────────

#[test]
fn keys_round_trip() {
    for a in PptAttr::ALL {
        assert_eq!(PptAttr::from_key(a.key()).unwrap(), a);
        assert_eq!(PptAttr::from_key(a.dir_name()).unwrap(), a);
    }
    assert!(PptAttr::from_key("gpu_ctgp").is_err());
}

#[test]
fn range_check() {
    let info = AttrInfo {
        key: "spl".into(),
        display_name: "spl".into(),
        current: 70,
        default: 70,
        min: 50,
        max: 115,
        step: 1,
    };
    assert!(info.in_range(50));
    assert!(info.in_range(115));
    assert!(!info.in_range(49));
    assert!(!info.in_range(116));
}

#[test]
fn spl_reads_the_live_values() {
    let root = fixture();
    let info = firmware_attrs::read(&root, PptAttr::Spl).unwrap();
    assert_eq!(info.current, 70);
    assert_eq!(info.default, 70);
    assert_eq!(info.min, 50);
    assert_eq!(info.max, 115);
    assert_eq!(info.step, 1);
    assert_eq!(info.key, "spl");
}

#[test]
fn sppt_and_fppt_read_the_live_values() {
    let root = fixture();
    let sppt = firmware_attrs::read(&root, PptAttr::Sppt).unwrap();
    assert_eq!((sppt.current, sppt.min, sppt.max), (85, 60, 130));
    let fppt = firmware_attrs::read(&root, PptAttr::Fppt).unwrap();
    assert_eq!((fppt.current, fppt.min, fppt.max), (102, 70, 150));
}

#[test]
fn write_in_range_updates_current_value() {
    let mut root = fixture();
    firmware_attrs::write(&mut root, PptAttr::Spl, 90).unwrap();
    assert_eq!(
        read(
            &root,
            "sys/class/firmware-attributes/lenovo-wmi-other-0/attributes/ppt_pl1_spl/current_value"
        ),
        "90"
    );
    assert_eq!(firmware_attrs::read(&root, PptAttr::Spl).unwrap().current, 90);
}

#[test]
fn write_below_min_is_rejected_with_the_range_named() {
    let mut root = fixture();
    let err = firmware_attrs::write(&mut root, PptAttr::Spl, 20).unwrap_err();
    match err {
        HwError::Parse(msg) => {
            assert!(msg.contains("50"), "message should name the min: {msg}");
            assert!(msg.contains("115"), "message should name the max: {msg}");
        },
        other => panic!("expected Parse, got {other:?}"),
    }
    assert_eq!(firmware_attrs::read(&root, PptAttr::Spl).unwrap().current, 70);
}

#[test]
fn write_above_max_is_rejected() {
    let mut root = fixture();
    assert!(matches!(
        firmware_attrs::write(&mut root, PptAttr::Fppt, 999),
        Err(HwError::Parse(_))
    ));
}

#[test]
fn boundary_values_are_accepted() {
    let mut root = fixture();
    firmware_attrs::write(&mut root, PptAttr::Spl, 50).unwrap();
    firmware_attrs::write(&mut root, PptAttr::Spl, 115).unwrap();
    assert_eq!(firmware_attrs::read(&root, PptAttr::Spl).unwrap().current, 115);
}

#[test]
fn absent_attribute_directory_is_not_supported() {
    let root = empty();
    assert!(!firmware_attrs::available(&root));
    assert!(matches!(firmware_attrs::read(&root, PptAttr::Spl), Err(HwError::NotSupported)));
    assert!(firmware_attrs::list_all(&root).is_empty());
}

#[test]
fn list_ppt_returns_all_three_in_order() {
    let root = fixture();
    let all = firmware_attrs::list_ppt(&root);
    assert_eq!(all.len(), 3);
    assert_eq!(all[0].key, "spl");
    assert_eq!(all[1].key, "sppt");
    assert_eq!(all[2].key, "fppt");
}

#[test]
fn list_all_scans_rather_than_hardcoding() {
    let mut root = fixture();
    let fa = "sys/class/firmware-attributes/lenovo-wmi-other-0/attributes";
    write(&mut root, &format!("{fa}/gpu_nv_ctgp/current_value"), "15");
    write(&mut root, &format!("{fa}/gpu_nv_ctgp/min_value"), "0");
    write(&mut root, &format!("{fa}/gpu_nv_ctgp/max_value"), "25");

    let all = firmware_attrs::list_all(&root);
    assert_eq!(all.len(), 4);
    let gpu = all.iter().find(|a| a.key == "gpu_nv_ctgp").unwrap();
    assert_eq!(gpu.current, 15);
    firmware_attrs::write_by_name(&mut root, "gpu_nv_ctgp", 20).unwrap();
    assert_eq!(firmware_attrs::read_by_name(&root, "gpu_nv_ctgp").unwrap().current, 20);
}

#[test]
fn attribute_without_current_value_is_ignored() {
    let mut root = fixture();
    let fa = "sys/class/firmware-attributes/lenovo-wmi-other-0/attributes";
    write(&mut root, &format!("{fa}/broken_attr/display_name"), "broken");
    assert_eq!(firmware_attrs::list_all(&root).len(), 3);
    assert!(matches!(
        firmware_attrs::read_by_name(&root, "broken_attr"),
        Err(HwError::NotSupported)
    ));
}

#[test]
fn range_message_is_exact() {
    let mut root = fixture();
    match firmware_attrs::write(&mut root, PptAttr::Sppt, 131) {
        Err(HwError::Parse(msg)) => assert_eq!(msg, "131 W is out of range for sppt: 60–130 W"),
        other => panic!("expected Parse, got {other:?}"),
    }
    assert!(root.writes().is_empty());
}

#[test]
fn missing_optional_fields_take_their_defaults() {
    let mut root = empty();
    let fa = "sys/class/firmware-attributes/lenovo-wmi-other-0/attributes";
    write(&mut root, &format!("{fa}/odd/current_value"), "7");
    let info = firmware_attrs::read_by_name(&root, "odd").unwrap();
    assert_eq!(info.key, "odd");
    assert_eq!(info.display_name, "odd");
    assert_eq!((info.current, info.default, info.min, info.max, info.step), (7, 0, 0, u32::MAX, 1));
}

// ───────────────────────────── keyboard backlight ─────────────────────────────

fn fake_led() -> SysRoot {
    let mut root = SysRoot::at("/tmp/legion-led");
    root.put_file("sys/class/leds/platform::kbd_backlight/brightness", "1\n");
    root.put_file("sys/class/leds/platform::kbd_backlight/max_brightness", "2\n");
    root
}

#[test]
fn reads_level_and_max() {
    let root = fake_led();
    assert_eq!(kbd_backlight::get(&root).unwrap(), 1);
    assert_eq!(kbd_backlight::max(&root).unwrap(), 2);
    assert!(kbd_backlight::available(&root));
}

#[test]
fn set_above_max_is_rejected() {
    let mut root = fake_led();
    let err = kbd_backlight::set(&mut root, 3).unwrap_err();
    assert!(matches!(err, HwError::Parse(_)));
    assert_eq!(kbd_backlight::get(&root).unwrap(), 1);
}

#[test]
fn set_within_range_writes() {
    let mut root = fake_led();
    kbd_backlight::set(&mut root, 2).unwrap();
    assert_eq!(kbd_backlight::get(&root).unwrap(), 2);
    kbd_backlight::set(&mut root, 0).unwrap();
    assert_eq!(kbd_backlight::get(&root).unwrap(), 0);
}

#[test]
fn absent_backlight_is_not_supported() {
    let root = empty();
    assert!(!kbd_backlight::available(&root));
    assert!(matches!(kbd_backlight::get(&root), Err(HwError::NotSupported)));
}

#[test]
fn backlight_range_message_is_exact() {
    let mut root = fake_led();
    match kbd_backlight::set(&mut root, 3) {
        Err(HwError::Parse(msg)) => assert_eq!(msg, "keyboard backlight level 3 is out of range: 0–2"),
        other => panic!("expected Parse, got {other:?}"),
    }
    let root = fixture();
    assert_eq!(kbd_backlight::hw_changed(&root), Some(0));
}

// ───────────────────────────── cpu ─────────────────────────────

#[test]
fn cpu_boost_round_trips() {
    let mut root = empty();
    write(&mut root, "sys/devices/system/cpu/cpufreq/boost", "1");
    assert_eq!(cpu::get_boost(&root), Some(true));
    cpu::set_boost(&mut root, false).unwrap();
    assert_eq!(cpu::get_boost(&root), Some(false));
}

#[test]
fn absent_boost_is_none() {
    let root = empty();
    assert!(!cpu::has_boost(&root));
    assert_eq!(cpu::get_boost(&root), None);
}

#[test]
fn k10temp_found_among_other_hwmons() {
    let mut root = empty();
    write(&mut root, "sys/class/hwmon/hwmon0/name", "nvme");
    write(&mut root, "sys/class/hwmon/hwmon0/temp1_input", "45000");
    write(&mut root, "sys/class/hwmon/hwmon1/name", "k10temp");
    write(&mut root, "sys/class/hwmon/hwmon1/temp1_input", "52125");
    assert_eq!(temp_celsius(&root), Some(52.125));
}

#[test]
fn k10temp_prefers_tctl_label() {
    let mut root = empty();
    write(&mut root, "sys/class/hwmon/hwmon2/name", "k10temp");
    write(&mut root, "sys/class/hwmon/hwmon2/temp1_input", "30000");
    write(&mut root, "sys/class/hwmon/hwmon2/temp1_label", "Tccd1");
    write(&mut root, "sys/class/hwmon/hwmon2/temp2_input", "61000");
    write(&mut root, "sys/class/hwmon/hwmon2/temp2_label", "Tctl");
    assert_eq!(temp_celsius(&root), Some(61.0));
}

#[test]
fn no_k10temp_is_none() {
    let mut root = empty();
    write(&mut root, "sys/class/hwmon/hwmon0/name", "nvme");
    assert_eq!(temp_celsius(&root), None);
}

#[test]
fn cpu_values_read_as_recorded() {
    let root = fixture();
    assert_eq!(cpu::governor(&root).as_deref(), Some("powersave"));
    assert_eq!(cpu::epp(&root).as_deref(), Some("balance_performance"));
    assert_eq!(cpu::cur_freq_khz(&root), Some(3_593_000));
    assert_eq!(
        cpu::temp_sensor_file(&root).as_deref(),
        Some("sys/class/hwmon/hwmon1/temp1_input")
    );
    assert!(cpu::temp_available(&root));
}

#[test]
fn tdie_label_is_accepted_in_any_case() {
    let mut root = empty();
    write(&mut root, "sys/class/hwmon/hwmon0/name", "k10temp");
    write(&mut root, "sys/class/hwmon/hwmon0/temp1_input", "1000");
    write(&mut root, "sys/class/hwmon/hwmon0/temp3_input", "2000");
    write(&mut root, "sys/class/hwmon/hwmon0/temp3_label", "TDIE");
    assert_eq!(
        cpu::temp_sensor_file(&root).as_deref(),
        Some("sys/class/hwmon/hwmon0/temp3_input")
    );
}

#[test]
fn unlabelled_sensors_fall_back_to_the_lowest_number() {
    let mut root = empty();
    write(&mut root, "sys/class/hwmon/hwmon0/name", "k10temp");
    write(&mut root, "sys/class/hwmon/hwmon0/temp10_input", "90000");
    write(&mut root, "sys/class/hwmon/hwmon0/temp2_input", "48000");
    write(&mut root, "sys/class/hwmon/hwmon0/temp3_input", "50000");
    assert_eq!(
        cpu::temp_sensor_file(&root).as_deref(),
        Some("sys/class/hwmon/hwmon0/temp2_input")
    );
    assert_eq!(temp_celsius(&root), Some(48.0));
}

// ───────────────────────────── fan ─────────────────────────────

#[test]
fn no_fan_sensors_on_the_82wm_today() {
    let mut root = empty();
    write(&mut root, "sys/class/hwmon/hwmon0/name", "k10temp");
    write(&mut root, "sys/class/hwmon/hwmon0/temp1_input", "50000");
    assert_eq!(fan::rpm(&root), None);
    assert!(!fan::available(&root));
}

#[test]
fn lights_up_when_the_kernel_gains_the_hwmon() {
    let mut root = empty();
    write(&mut root, "sys/class/hwmon/hwmon1/name", "lenovo_wmi_other");
    write(&mut root, "sys/class/hwmon/hwmon1/fan1_input", "2400");
    write(&mut root, "sys/class/hwmon/hwmon1/fan1_target", "2600");
    write(&mut root, "sys/class/hwmon/hwmon1/fan2_input", "2500");

    let r = fan::readings(&root);
    assert_eq!(r.len(), 2);
    assert_eq!(r[0].index, 1);
    assert_eq!(r[0].rpm, 2400);
    assert_eq!(r[0].target_rpm, Some(2600));
    assert_eq!(r[0].source, "lenovo_wmi_other");
    assert_eq!(r[1].target_rpm, None);
    assert_eq!(fan::rpm(&root), Some(2400));
    assert!(fan::available(&root));
}

// ───────────────────────────── detect ─────────────────────────────

#[test]
fn full_82wm_reports_everything_except_fan_rpm() {
    let mut root = empty();
    detect_82wm(&mut root);
    let c = detect::probe(&root);

    assert!(c.is_legion);
    assert_eq!(c.product_name.as_deref(), Some("82WM"));
    assert!(c.platform_profile);
    assert_eq!(c.platform_profile_driver.as_deref(), Some("lenovo-wmi-gamezone"));
    assert_eq!(c.profile_choices.len(), 5);
    assert!(c.firmware_attrs);
    assert!(c.ppt);
    assert_eq!(c.firmware_attr_names.len(), 3);
    assert!(c.charge_types);
    assert_eq!(c.charge_type_choices.len(), 3);
    assert!(c.battery && c.ac_adapter);
    assert!(c.fn_lock && c.camera_power && c.usb_charging && c.fan_mode);
    assert!(c.kbd_backlight);
    assert_eq!(c.kbd_backlight_max, Some(2));
    assert!(c.cpu_boost && c.cpu_temp);

    assert!(!c.fan_rpm);
    assert!(!c.is_empty());
}

#[test]
fn empty_tree_probes_cleanly() {
    let root = empty();
    let c = detect::probe(&root);

    assert!(!c.is_legion);
    assert!(!c.platform_profile);
    assert!(!c.firmware_attrs);
    assert!(!c.charge_types);
    assert!(!c.kbd_backlight);
    assert!(c.profile_choices.is_empty());
    assert!(c.firmware_attr_names.is_empty());
    assert!(c.is_empty());
}

#[test]
fn unknown_vendor_is_not_refused() {
    let mut root = empty();
    write(&mut root, "sys/class/dmi/id/product_family", "Precision 7550");
    write(
        &mut root,
        "sys/class/platform-profile/platform-profile-0/profile",
        "balanced",
    );
    let c = detect::probe(&root);
    assert!(!c.is_legion);
    assert!(c.platform_profile);
}

#[test]
fn new_firmware_attrs_appear_without_code_changes() {
    let mut root = empty();
    detect_82wm(&mut root);
    let fa = "sys/class/firmware-attributes/lenovo-wmi-other-0/attributes";
    write(&mut root, &format!("{fa}/dgpu_boost_clk/current_value"), "150");
    write(&mut root, &format!("{fa}/dgpu_boost_clk/min_value"), "0");
    write(&mut root, &format!("{fa}/dgpu_boost_clk/max_value"), "200");

    let c = detect::probe(&root);
    assert!(c.firmware_attr_names.iter().any(|n| n == "dgpu_boost_clk"));
    assert_eq!(firmware_attrs::list_all(&root).len(), 4);
}

#[test]
fn probe_reads_the_identity_and_choices() {
    let root = fixture();
    let c = detect::probe(&root);
    assert_eq!(c.product_family.as_deref(), Some("Legion R9000P ARX8"));
    assert_eq!(c.board_name.as_deref(), Some("LNVNB161216"));
    assert_eq!(
        c.profile_choices,
        vec!["low-power", "balanced", "performance", "max-power", "custom"]
    );
    assert_eq!(c.charge_type_choices, vec!["Fast", "Standard", "Long_Life"]);
    assert!(detect::is_legion(&root));
}

// ───────────────────────────── errors ─────────────────────────────

#[test]
fn ebusy_maps_to_busy() {
    let e = std::io::Error::from_raw_os_error(rustix::io::Errno::BUSY.raw_os_error());
    assert!(matches!(HwError::from_io(e), HwError::Busy));
}

#[test]
fn enoent_maps_to_not_supported() {
    let e = std::io::Error::from_raw_os_error(rustix::io::Errno::NOENT.raw_os_error());
    assert!(matches!(HwError::from_io(e), HwError::NotSupported));
}

#[test]
fn eacces_maps_to_permission_denied() {
    let e = std::io::Error::from_raw_os_error(rustix::io::Errno::ACCESS.raw_os_error());
    assert!(matches!(HwError::from_io(e), HwError::PermissionDenied));
}

#[test]
fn kind_strings_are_stable() {
    assert_eq!(HwError::Busy.kind_str(), "custom-mode-required");
    assert_eq!(HwError::NotSupported.kind_str(), "not-supported");
}

#[test]
fn other_os_errors_keep_their_detail() {
    let e = std::io::Error::from_raw_os_error(rustix::io::Errno::INVAL.raw_os_error());
    match HwError::from_io(e) {
        HwError::Io(f) => assert_eq!(f.raw_os_error, Some(rustix::io::Errno::INVAL.raw_os_error())),
        other => panic!("expected Io, got {other:?}"),
    }
    let e = std::io::Error::from_raw_os_error(rustix::io::Errno::NODEV.raw_os_error());
    assert!(matches!(HwError::from_io(e), HwError::NotSupported));
    assert_eq!(
        HwError::Parse("x".into()).message(),
        "could not parse sysfs value: x"
    );
}
