//! The dashboard's and tray's view logic.

use legion_toolkit::battery::BatteryStats;
use legion_toolkit::detect::Capabilities;
use legion_toolkit::firmware_attrs::AttrInfo;
use legion_toolkit::tray::{MenuEntry, TraySwitch};
use legion_toolkit::gui::{DashboardView, Request, 
    ac_text, battery_hint, battery_label, battery_labels, describe_method_error, format_fan,
    kernel_note, or_dash, parse_hex, profile_color, profile_label, profile_labels, profile_rgb,
    range_usable, slider_usable, sliders_usable, tray_icon_name, SliderBounds, Snapshot, TrayState, BUS_NAME, IFACE, OBJECT_PATH, SOCKET_NAME,
};

fn attr(key: &str, current: u32, min: u32, max: u32) -> AttrInfo {
    AttrInfo {
        key: key.into(),
        display_name: key.into(),
        current,
        default: current,
        min,
        max,
        step: 1,
    }
}

fn snapshot() -> Snapshot {
    Snapshot {
        profile: "performance".into(),
        profile_choices: vec!["balanced".into(), "performance".into()],
        battery_mode: "Long_Life".into(),
        fn_lock: true,
        camera: false,
        capabilities: Capabilities {
            fn_lock: true,
            camera_power: true,
            charge_type_choices: vec!["Standard".into(), "Long_Life".into()],
            ..Default::default()
        },
        ..Default::default()
    }
}

#[test]
fn custom_mode_error_is_the_documented_toast() {
    assert_eq!(
        describe_method_error("org.legiontoolkit.Error.CustomModeRequired", Some("raw detail")),
        "Switch to Custom mode first"
    );
}

#[test]
fn authorization_failure_is_explained() {
    let msg = describe_method_error("org.legiontoolkit.Error.NotAuthorized", Some("raw detail"));
    assert!(msg.contains("active local session"), "{msg}");
}

#[test]
fn unknown_errors_fall_back_to_the_detail_text() {
    assert_eq!(describe_method_error("org.example.Whatever", Some("raw detail")), "raw detail");
}

#[test]
fn errors_without_detail_fall_back_to_their_name() {
    assert_eq!(describe_method_error("org.example.Whatever", None), "org.example.Whatever");
    assert_eq!(
        describe_method_error("org.legiontoolkit.Error.NotSupported", None),
        "Not supported on this machine"
    );
}

#[test]
fn bus_constants_match_the_daemon() {
    assert_eq!(BUS_NAME, "org.legiontoolkit.Daemon");
    assert_eq!(OBJECT_PATH, "/org/legiontoolkit/Daemon");
    assert_eq!(IFACE, "org.legiontoolkit.Daemon1");
}

#[test]
fn socket_name_is_stable() {
    assert_eq!(SOCKET_NAME, "legion-toolkit.lock");
}

#[test]
fn slider_bounds_come_from_the_firmware() {
    let b = SliderBounds::from_attr(&attr("spl", 70, 50, 115));
    assert_eq!(b, SliderBounds { value: 70, min: 50, max: 115 });
}

#[test]
fn slider_clamps_a_value_outside_the_reported_range() {
    let b = SliderBounds::from_attr(&attr("spl", 200, 50, 115));
    assert_eq!(b.value, 115);
}

#[test]
fn slider_survives_a_degenerate_range() {
    let b = SliderBounds::from_attr(&attr("spl", 50, 50, 50));
    assert!(b.max > b.min);
}

#[test]
fn slider_lookup_by_key() {
    let attrs = vec![attr("spl", 70, 50, 115), attr("fppt", 102, 70, 150)];
    assert_eq!(SliderBounds::find(&attrs, "fppt").value, 102);
    assert_eq!(SliderBounds::find(&attrs, "sppt"), SliderBounds::default());
}

#[test]
fn slider_clamps_a_value_below_the_range() {
    let b = SliderBounds::from_attr(&attr("spl", 10, 50, 115));
    assert_eq!(b, SliderBounds { value: 50, min: 50, max: 115 });
    let b = SliderBounds::from_attr(&attr("spl", 60, 100, 40));
    assert_eq!(b, SliderBounds { value: 100, min: 100, max: 101 });
}

#[test]
fn slider_at_the_top_of_the_range_keeps_a_nonzero_width() {
    let top = i32::MAX as u32;
    let b = SliderBounds::from_attr(&attr("spl", top, top, 0));
    assert!(b.min < b.max);
    assert_eq!(b, SliderBounds { value: i32::MAX, min: i32::MAX - 1, max: i32::MAX });
}

#[test]
fn profile_colors_follow_the_led_mapping() {
    assert_eq!(profile_color("low-power"), "#3b82f6");
    assert_eq!(profile_color("balanced"), "#e5e7eb");
    assert_eq!(profile_color("performance"), "#ef4444");
    assert_eq!(profile_color("max-power"), "#a855f7");
    assert_eq!(profile_color("custom"), "#a855f7");
}

#[test]
fn unknown_profile_gets_a_neutral_color_not_a_panic() {
    assert_eq!(profile_color("quantum"), "#99a0b0");
    assert_eq!(profile_rgb("quantum"), (0x99, 0xa0, 0xb0));
    assert_eq!(profile_label("quantum"), "quantum");
}

#[test]
fn profile_rgb_decodes_the_hex_constants() {
    assert_eq!(profile_rgb("performance"), (0xef, 0x44, 0x44));
    assert_eq!(profile_rgb("low-power"), (0x3b, 0x82, 0xf6));
}

#[test]
fn hex_parsing_rejects_malformed_input() {
    assert_eq!(parse_hex("#abc"), None);
    assert_eq!(parse_hex("ef4444"), None);
    assert_eq!(parse_hex("#gggggg"), None);
    assert_eq!(parse_hex("#ef4444"), Some((0xef, 0x44, 0x44)));
}

#[test]
fn hex_parsing_accepts_upper_case_and_rejects_non_ascii() {
    assert_eq!(parse_hex("#EF4444"), Some((0xef, 0x44, 0x44)));
    assert_eq!(parse_hex("#é44444"), None);
}

#[test]
fn profile_labels_are_friendly() {
    let choices = vec!["low-power".to_string(), "max-power".to_string(), "custom".to_string()];
    assert_eq!(profile_labels(&choices), vec!["Quiet", "Extreme", "Custom"]);
}

#[test]
fn tray_icon_names_are_distinct_per_profile() {
    let names: Vec<String> = ["low-power", "balanced", "performance", "max-power", "custom"]
        .iter()
        .map(|p| tray_icon_name(p))
        .collect();
    let mut sorted = names.clone();
    sorted.sort();
    sorted.dedup();
    assert_eq!(sorted.len(), names.len(), "icon names must be unique");
    assert_eq!(tray_icon_name("nonsense"), "legion-toolkit");
}

#[test]
fn battery_labels_and_hints_line_up() {
    let choices = vec!["Fast".to_string(), "Standard".to_string(), "Long_Life".to_string()];
    let (labels, hints) = battery_labels(&choices);
    assert_eq!(labels, vec!["Rapid charge", "Standard", "Conservation"]);
    assert_eq!(hints.len(), 3);
    assert!(hints[2].contains("60"));
}

#[test]
fn unknown_battery_token_is_shown_as_is() {
    assert_eq!(battery_label("Trickle"), "Trickle");
    assert_eq!(battery_hint("Trickle"), "");
}

#[test]
fn absent_fan_explains_itself_rather_than_showing_zero() {
    let text = format_fan(None);
    assert_eq!(text, "No fan sensor (kernel too old)");
    assert!(!text.contains("0 RPM"));
    assert_ne!(text, "—");

    assert_eq!(format_fan(Some(2400)), "2400 RPM");
}

#[test]
fn or_dash_renders_absent_and_empty_values_as_a_dash() {
    assert_eq!(or_dash(None), "—");
    assert_eq!(or_dash(Some("")), "—");
    assert_eq!(or_dash(Some("82WM")), "82WM");
}

#[test]
fn ac_state_is_worded_for_humans() {
    let mut stats = BatteryStats::default();
    assert_eq!(ac_text(&stats), "—");
    stats.ac_online = Some(true);
    assert_eq!(ac_text(&stats), "Plugged in");
    stats.ac_online = Some(false);
    assert_eq!(ac_text(&stats), "On battery");
}

#[test]
fn kernel_note_explains_the_missing_fan_sensor() {
    let caps = Capabilities::default();
    assert!(kernel_note(&caps).contains("no fan sensor"));

    let caps = Capabilities { fan_rpm: true, ..Default::default() };
    assert!(kernel_note(&caps).contains("hwmon"));
}

#[test]
fn tray_state_mirrors_the_snapshot() {
    let s = TrayState::from_snapshot(&snapshot());
    assert_eq!(s.profile, "performance");
    assert_eq!(s.profile_choices.len(), 2);
    assert_eq!(s.battery_choices.len(), 2);
    assert!(s.has_fn_lock && s.has_camera);
    assert!(s.fn_lock);
    assert!(!s.camera);
}

#[test]
fn tooltip_uses_the_friendly_profile_name() {
    let s = TrayState::from_snapshot(&snapshot());
    assert_eq!(s.tooltip(), "Legion Toolkit — Performance");
}

#[test]
fn tooltip_without_a_profile_is_still_sensible() {
    assert_eq!(TrayState::default().tooltip(), "Legion Toolkit");
}

#[test]
fn identical_snapshots_compare_equal_so_the_menu_does_not_churn() {
    let a = TrayState::from_snapshot(&snapshot());
    let b = TrayState::from_snapshot(&snapshot());
    assert_eq!(a, b);

    let mut changed = snapshot();
    changed.profile = "balanced".into();
    assert_ne!(a, TrayState::from_snapshot(&changed));
}

#[test]
fn tray_menu_has_its_sections_in_order() {
    let s = TrayState::from_snapshot(&snapshot());
    let m = s.menu();
    assert_eq!(m.len(), 11);
    assert!(matches!(&m[0], MenuEntry::Heading(h) if h == "Power Mode"));
    match &m[1] {
        MenuEntry::Radio { labels, selected, requests } => {
            assert_eq!(labels, &vec!["Balanced".to_string(), "Performance".to_string()]);
            assert_eq!(*selected, 1);
            assert!(matches!(&requests[0], Request::SetProfile(p) if p == "balanced"));
            assert!(matches!(&requests[1], Request::SetProfile(p) if p == "performance"));
        },
        other => panic!("expected the profile radio group, got {other:?}"),
    }
    assert!(matches!(m[2], MenuEntry::Separator));
    assert!(matches!(&m[3], MenuEntry::Heading(h) if h == "Battery"));
    match &m[4] {
        MenuEntry::Radio { labels, selected, requests } => {
            assert_eq!(labels, &vec!["Standard".to_string(), "Conservation".to_string()]);
            assert_eq!(*selected, 1);
            assert!(matches!(&requests[1], Request::SetBatteryMode(b) if b == "Long_Life"));
        },
        other => panic!("expected the battery radio group, got {other:?}"),
    }
    assert!(matches!(m[5], MenuEntry::Separator));
    assert!(matches!(&m[6], MenuEntry::Check { label, checked: true, switch: TraySwitch::FnLock } if label == "Fn Lock"));
    assert!(matches!(&m[7], MenuEntry::Check { label, checked: false, switch: TraySwitch::Camera } if label == "Camera"));
    assert!(matches!(m[8], MenuEntry::Separator));
    assert!(matches!(&m[9], MenuEntry::OpenDashboard(l) if l == "Open Dashboard"));
    assert!(matches!(&m[10], MenuEntry::Quit(l) if l == "Quit"));
}

#[test]
fn tray_menu_without_state_only_opens_and_quits() {
    let m = TrayState::default().menu();
    assert_eq!(m.len(), 2);
    assert!(matches!(&m[0], MenuEntry::OpenDashboard(l) if l == "Open Dashboard"));
    assert!(matches!(&m[1], MenuEntry::Quit(l) if l == "Quit"));
}

#[test]
fn radio_selects_the_first_option_when_the_current_value_is_unknown() {
    let mut snap = snapshot();
    snap.profile = "turbo".into();
    let m = TrayState::from_snapshot(&snap).menu();
    assert!(matches!(&m[1], MenuEntry::Radio { selected: 0, .. }));
}

#[test]
fn tray_switches_ask_for_the_opposite_state() {
    let s = TrayState::from_snapshot(&snapshot());
    assert!(matches!(s.switch_request(TraySwitch::FnLock), Request::SetFnLock(false)));
    assert!(matches!(s.switch_request(TraySwitch::Camera), Request::SetCameraPower(true)));
}

#[test]
fn requests_name_their_daemon_methods() {
    assert_eq!(Request::SetProfile("custom".into()).method(), Some("SetProfile"));
    assert_eq!(Request::SetPpt("spl".into(), 90).method(), Some("SetPpt"));
    assert_eq!(Request::SetCpuBoost(true).method(), Some("SetCpuBoost"));
    assert_eq!(Request::Refresh.method(), None);
}

#[test]
fn slider_requests_never_go_negative() {
    assert!(matches!(Request::kbd_backlight_from_ui(-3), Request::SetKbdBacklight(0)));
    assert!(matches!(Request::kbd_backlight_from_ui(2), Request::SetKbdBacklight(2)));
    assert!(matches!(Request::ppt_from_ui("spl", -1), Request::SetPpt(a, 0) if a == "spl"));
    assert!(matches!(Request::ppt_from_ui("spl", 90), Request::SetPpt(_, 90)));
}

#[test]
fn dashboard_mirrors_the_snapshot() {
    let mut snap = snapshot();
    snap.ppt = vec![attr("spl", 70, 50, 115), attr("fppt", 102, 70, 150)];
    snap.daemon_version = "1.0.0".into();
    snap.capabilities.product_name = Some("82WM".into());
    snap.capabilities.kbd_backlight_max = Some(2);
    snap.backlight = 1;
    let d = DashboardView::from_snapshot(&snap);
    assert_eq!(d.daemon_version, "1.0.0");
    assert_eq!(d.machine, "82WM");
    assert_eq!(d.family, "—");
    assert_eq!(d.profile_labels, vec!["Balanced", "Performance"]);
    assert_eq!(d.current_profile_label, "Performance");
    assert_eq!(d.profile_color, (0xef, 0x44, 0x44));
    assert!(!d.custom_active);
    assert_eq!(d.battery_labels, vec!["Standard", "Conservation"]);
    assert_eq!(d.spl, SliderBounds { value: 70, min: 50, max: 115 });
    assert_eq!(d.sppt, SliderBounds::default());
    assert_eq!(d.backlight, 1);
    assert_eq!(d.backlight_max, 2);
    assert!(d.has_fn_lock && d.fn_lock && d.has_camera && !d.camera);
    assert!(d.kernel_note.contains("no fan sensor"));
}

#[test]
fn slider_ranges_can_be_tested_before_use() {
    assert!(slider_usable(&attr("spl", 70, 50, 115)));
    assert!(slider_usable(&attr("spl", 60, 100, 40)));
    // A maximum past i32::MAX wraps below the minimum: no slider can be made.
    assert!(!slider_usable(&attr("spl", 70, 50, u32::MAX)));
    let attrs = vec![attr("spl", 70, 50, u32::MAX), attr("fppt", 100, 50, 130)];
    assert!(!range_usable(&attrs, "spl"));
    assert!(range_usable(&attrs, "fppt"));
    assert!(range_usable(&attrs, "sppt"));
    assert!(!sliders_usable(&attrs));
    assert!(sliders_usable(&vec![attr("fppt", 100, 50, 130)]));
}
