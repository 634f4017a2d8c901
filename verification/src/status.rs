//! The `legion-ctl status` report.
//!
//! Plain `key: value` lines, capability-aware: absent hardware is omitted
//! rather than printed as "unknown", so scripts can parse the output. The
//! profile and the power limits come from the daemon when it runs and from
//! sysfs otherwise; everything else is read from sysfs directly.

use vstd::prelude::*;

use crate::battery::{ac_online_spec, bat_file, cm_label, cm_sysfs, get_mode, get_mode_spec, stats, BatteryStats};
use crate::cpu::{cpu0_file, cur_freq_khz, epp, get_boost, get_boost_spec, governor, temp_sensor_file, temp_sensor_spec};
use crate::ctl::profile_tag;
use crate::detect::{caps_empty, ov, probe, probe_spec, Capabilities, CapabilitiesView};
use crate::fan::{rpm, rpm_spec};
use crate::firmware_attrs::{attr_views, list_all, list_all_spec, or_default, AttrInfo, AttrInfoView};
use crate::ideapad::{self, fan_label, get_fan_mode, get_fan_mode_spec, Toggle};
use crate::kbd_backlight::{self, led_file};
use crate::profile::{self, from_sysfs_spec, get_spec, label_of, sysfs_name, PowerProfile};
use crate::sysfs::{read_parsed_opt_spec, read_parsed_spec, strings, SysRoot, SysView};
use crate::text::{cat, contains, dec, dec_string, float_text, is_float_text, owned};

verus! {

/// One line of the report. Three lines print a floating-point quantity;
/// they carry the values it is computed from, and the program prints them.
#[derive(Debug, Clone, PartialEq, Eq)]
pub enum StatusLine {
    /// A finished `key: value` line.
    Text(String),
    /// `battery-health`: energy full and design energy (design nonzero),
    /// printed as their ratio in percent with one decimal.
    BatteryHealth(u64, u64),
    /// `cpu-freq`: kHz, printed in GHz with two decimals.
    CpuFreq(u64),
    /// `cpu-temp`: the sensor's text (millidegrees, in a form `f64`
    /// parses), printed in °C with one decimal.
    CpuTemp(String),
}

pub enum StatusLineView {
    Text(Seq<char>),
    BatteryHealth(u64, u64),
    CpuFreq(u64),
    CpuTemp(Seq<char>),
}

impl View for StatusLine {
    type V = StatusLineView;

    open spec fn view(&self) -> StatusLineView {
        match self {
            StatusLine::Text(s) => StatusLineView::Text(s@),
            StatusLine::BatteryHealth(f, d) => StatusLineView::BatteryHealth(*f, *d),
            StatusLine::CpuFreq(k) => StatusLineView::CpuFreq(*k),
            StatusLine::CpuTemp(t) => StatusLineView::CpuTemp(t@),
        }
    }
}

/// The views of a list of lines.
pub open spec fn line_views(v: Seq<StatusLine>) -> Seq<StatusLineView> {
    v.map_values(|l: StatusLine| l@)
}

/// What the daemon reported, when it is running.
#[derive(Debug, Clone, Default)]
pub struct DaemonReadings {
    /// The `Profile` property, when it could be read.
    pub profile: Option<String>,
    /// The `GetPpt` answer; empty when it could not be read.
    pub ppt: Vec<AttrInfo>,
}

/// The daemon's readings as plain values.
pub open spec fn readings_view(d: Option<&DaemonReadings>) -> Option<(Option<Seq<char>>, Seq<AttrInfoView>)> {
    match d {
        Some(r) => Some((ov(r.profile), attr_views(r.ppt@))),
        None => None,
    }
}

// ───────────────────────────── the report ─────────────────────────────

/// A text line.
pub open spec fn text(s: Seq<char>) -> StatusLineView {
    StatusLineView::Text(s)
}

/// `key` followed by the value, when there is one.
pub open spec fn opt_line(key: Seq<char>, o: Option<Seq<char>>) -> Seq<StatusLineView> {
    match o {
        Some(x) => seq![text(key + x)],
        None => seq![],
    }
}

/// `on` / `off`.
pub open spec fn on_off(b: bool) -> Seq<char> {
    if b {
        "on"@
    } else {
        "off"@
    }
}

/// `ss` joined by `sep`.
pub open spec fn joined(ss: Seq<Seq<char>>, sep: Seq<char>) -> Seq<char>
    decreases ss.len(),
{
    if ss.len() == 0 {
        seq![]
    } else if ss.len() == 1 {
        ss[0]
    } else {
        joined(ss.drop_last(), sep) + sep + ss.last()
    }
}

/// Machine, family and whether the daemon answers.
pub open spec fn identity_lines(c: CapabilitiesView, running: bool) -> Seq<StatusLineView> {
    opt_line("machine: "@, c.product_name) + opt_line("family: "@, c.product_family) + seq![
        text(
            "daemon: "@ + if running {
                "running"@
            } else {
                "not running"@
            },
        ),
    ]
}

/// What a machine with nothing controllable reports.
pub open spec fn unsupported_lines() -> Seq<StatusLineView> {
    seq![
        text("supported: no"@),
        text("hint: the lenovo-wmi-gamezone driver does not appear to be loaded"@),
    ]
}

/// The profile, its driver and the choices.
pub open spec fn profile_lines(c: CapabilitiesView, current: Option<Seq<char>>) -> Seq<StatusLineView> {
    if c.platform_profile {
        (match current {
            Some(x) => seq![text("profile: "@ + x + " ("@ + profile_tag(x) + ")"@)],
            None => seq![],
        }) + opt_line("profile-driver: "@, c.platform_profile_driver) + if c.profile_choices.len() > 0 {
            seq![text("profile-choices: "@ + joined(c.profile_choices, " "@))]
        } else {
            seq![]
        }
    } else {
        seq![]
    }
}

/// One power limit.
pub open spec fn ppt_row(a: AttrInfoView) -> StatusLineView {
    text(
        "ppt-"@ + a.key + ": "@ + dec(a.current as nat) + " W (range "@ + dec(a.min as nat) + "–"@
            + dec(a.max as nat) + ")"@,
    )
}

/// The power limits.
pub open spec fn ppt_lines(c: CapabilitiesView, attrs: Seq<AttrInfoView>) -> Seq<StatusLineView> {
    if c.ppt {
        attrs.map_values(|a: AttrInfoView| ppt_row(a))
    } else {
        seq![]
    }
}

/// The charge mode line.
pub open spec fn mode_line(c: CapabilitiesView, v: SysView) -> Seq<StatusLineView> {
    if c.charge_types {
        match get_mode_spec(v) {
            Ok(m) => seq![text("battery-mode: "@ + cm_sysfs(m) + " ("@ + cm_label(m) + ")"@)],
            Err(_) => seq![],
        }
    } else {
        seq![]
    }
}

/// The health line: energy full over design energy.
pub open spec fn health_line(v: SysView) -> Seq<StatusLineView> {
    match (
        read_parsed_opt_spec::<u64>(v, bat_file("energy_full"@)),
        read_parsed_opt_spec::<u64>(v, bat_file("energy_full_design"@)),
    ) {
        (Some(f), Some(d)) => if d > 0 {
            seq![StatusLineView::BatteryHealth(f, d)]
        } else {
            seq![]
        },
        _ => seq![],
    }
}

/// The capacity line.
pub open spec fn capacity_line(v: SysView) -> Seq<StatusLineView> {
    match read_parsed_opt_spec::<u32>(v, bat_file("capacity"@)) {
        Some(x) => seq![text("battery-capacity: "@ + dec(x as nat) + "%"@)],
        None => seq![],
    }
}

/// The cycle-count line.
pub open spec fn cycles_line(v: SysView) -> Seq<StatusLineView> {
    match read_parsed_opt_spec::<u32>(v, bat_file("cycle_count"@)) {
        Some(x) => seq![text("battery-cycles: "@ + dec(x as nat))],
        None => seq![],
    }
}

/// The AC line.
pub open spec fn ac_line(v: SysView) -> Seq<StatusLineView> {
    match ac_online_spec(v) {
        Some(b) => seq![
            text(
                "ac: "@ + if b {
                    "online"@
                } else {
                    "offline"@
                },
            ),
        ],
        None => seq![],
    }
}

/// Charge mode and battery statistics.
pub open spec fn battery_lines(c: CapabilitiesView, v: SysView) -> Seq<StatusLineView> {
    mode_line(c, v) + capacity_line(v) + opt_line("battery-status: "@, v.read_opt(bat_file("status"@)))
        + health_line(v) + cycles_line(v) + ac_line(v)
}

/// One switch, when the machine has it and it reads.
pub open spec fn switch_line(present: bool, name: Seq<char>, value: Option<bool>) -> Seq<StatusLineView> {
    if present {
        match value {
            Some(b) => seq![text(name + ": "@ + on_off(b))],
            None => seq![],
        }
    } else {
        seq![]
    }
}

/// Fn Lock, camera and USB charging.
pub open spec fn switch_lines(c: CapabilitiesView, v: SysView) -> Seq<StatusLineView> {
    switch_line(c.fn_lock, "fnlock"@, ideapad::get_spec(v, Toggle::FnLock)) + switch_line(
        c.camera_power,
        "camera"@,
        ideapad::get_spec(v, Toggle::CameraPower),
    ) + switch_line(c.usb_charging, "usb-charging"@, ideapad::get_spec(v, Toggle::UsbCharging))
}

/// Fan mode, fan speed (said explicitly when there is no sensor) and the
/// keyboard backlight.
pub open spec fn cooling_lines(c: CapabilitiesView, v: SysView) -> Seq<StatusLineView> {
    (if c.fan_mode {
        match get_fan_mode_spec(v) {
            Ok(m) => seq![text("fan-mode: "@ + fan_label(m))],
            Err(_) => seq![],
        }
    } else {
        seq![]
    }) + seq![
        text(
            match rpm_spec(v) {
                Some(r) => "fan-rpm: "@ + dec(r as nat),
                None => "fan-rpm: unavailable (no fan sensor on this kernel)"@,
            },
        ),
    ] + if c.kbd_backlight {
        match read_parsed_spec::<u32>(v, led_file("brightness"@)) {
            Ok(l) => seq![
                text(
                    "backlight: "@ + dec(l as nat) + " (max "@ + dec(
                        or_default(c.kbd_backlight_max, 2u32) as nat,
                    ) + ")"@,
                ),
            ],
            Err(_) => seq![],
        }
    } else {
        seq![]
    }
}

/// The temperature line: the sensor's text, when it reads as a number.
pub open spec fn temp_line(v: SysView) -> Seq<StatusLineView> {
    match temp_sensor_spec(v) {
        Some(f) => match v.read_opt(f) {
            Some(t) => if float_text(t) {
                seq![StatusLineView::CpuTemp(t)]
            } else {
                seq![]
            },
            None => seq![],
        },
        None => seq![],
    }
}

/// Boost, governor, EPP, frequency and temperature.
pub open spec fn cpu_lines(v: SysView) -> Seq<StatusLineView> {
    (match get_boost_spec(v) {
        Some(b) => seq![text("cpu-boost: "@ + on_off(b))],
        None => seq![],
    }) + opt_line("cpu-governor: "@, v.read_opt(cpu0_file("scaling_governor"@))) + opt_line(
        "cpu-epp: "@,
        v.read_opt(cpu0_file("energy_performance_preference"@)),
    ) + (match read_parsed_opt_spec::<u64>(v, cpu0_file("scaling_cur_freq"@)) {
        Some(k) => seq![StatusLineView::CpuFreq(k)],
        None => seq![],
    }) + temp_line(v)
}

/// The whole report, given what the daemon reported if it runs.
pub open spec fn status_spec(v: SysView, daemon: Option<(Option<Seq<char>>, Seq<AttrInfoView>)>) -> Seq<
    StatusLineView,
> {
    let c = probe_spec(v);
    if caps_empty(c) {
        identity_lines(c, daemon is Some) + unsupported_lines()
    } else {
        let current = match daemon {
            Some(d) => d.0,
            None => match get_spec(v) {
                Ok(p) => Some(sysfs_name(p)),
                Err(_) => None,
            },
        };
        let attrs = match daemon {
            Some(d) => d.1,
            None => list_all_spec(v),
        };
        identity_lines(c, daemon is Some) + profile_lines(c, current) + ppt_lines(c, attrs) + battery_lines(
            c,
            v,
        ) + switch_lines(c, v) + cooling_lines(c, v) + cpu_lines(v)
    }
}

// ───────────────────────────── building it ─────────────────────────────

fn emit(out: &mut Vec<StatusLine>, l: StatusLine)
    ensures
        line_views(final(out)@) == line_views(old(out)@).push(l@),
{
    let ghost lv = l@;
    out.push(l);
    assert(line_views(out@) =~= line_views(old(out)@).push(lv));
}

fn emit_opt(out: &mut Vec<StatusLine>, key: &str, o: Option<String>)
    ensures
        line_views(final(out)@) == line_views(old(out)@) + opt_line(key@, ov(o)),
{
    match o {
        Some(x) => emit(out, StatusLine::Text(cat(key, x.as_str()))),
        None => {
            assert(line_views(old(out)@) + seq![] =~= line_views(old(out)@));
        },
    }
}

fn on_off_text(b: bool) -> (r: &'static str)
    ensures
        r@ == on_off(b),
{
    if b {
        "on"
    } else {
        "off"
    }
}

/// `ss` joined by `sep`.
pub fn join_all(ss: &Vec<String>, sep: &str) -> (r: String)
    ensures
        r@ == joined(strings(ss@), sep@),
{
    let ghost vs = strings(ss@);
    let mut out = String::new();
    let mut k: usize = 0;
    while k < ss.len()
        invariant
            k <= ss@.len() == vs.len(),
            vs == strings(ss@),
            out@ == joined(vs.take(k as int), sep@),
        decreases ss.len() - k,
    {
        proof {
            assert(vs.take(k + 1).drop_last() =~= vs.take(k as int));
            assert(vs.take(k + 1).last() == ss@[k as int]@);
        }
        if k > 0 {
            out = cat(out.as_str(), sep);
        }
        out = cat(out.as_str(), ss[k].as_str());
        k = k + 1;
    }
    assert(vs.take(vs.len() as int) =~= vs);
    out
}

fn push_identity(out: &mut Vec<StatusLine>, caps: &Capabilities, running: bool)
    ensures
        line_views(final(out)@) == line_views(old(out)@) + identity_lines(caps@, running),
{
    let ghost start = line_views(out@);
    emit_opt(out, "machine: ", caps.product_name.clone());
    emit_opt(out, "family: ", caps.product_family.clone());
    let d = if running {
        "running"
    } else {
        "not running"
    };
    emit(out, StatusLine::Text(cat("daemon: ", d)));
    assert(line_views(out@) =~= start + identity_lines(caps@, running));
}

fn push_profile(out: &mut Vec<StatusLine>, caps: &Capabilities, current: Option<String>)
    ensures
        line_views(final(out)@) == line_views(old(out)@) + profile_lines(caps@, ov(current)),
{
    let ghost start = line_views(out@);
    if !caps.platform_profile {
        assert(start + seq![] =~= start);
        return;
    }
    let ghost a = match ov(current) {
        Some(x) => seq![text("profile: "@ + x + " ("@ + profile_tag(x) + ")"@)],
        None => Seq::<StatusLineView>::empty(),
    };
    match current {
        Some(c) => {
            let label = match PowerProfile::from_sysfs(c.as_str()) {
                Ok(p) => p.label(),
                Err(_) => "unknown",
            };
            let l1 = cat("profile: ", c.as_str());
            let l2 = cat(l1.as_str(), " (");
            let l3 = cat(l2.as_str(), label);
            emit(out, StatusLine::Text(cat(l3.as_str(), ")")));
        },
        None => {},
    }
    assert(line_views(out@) =~= start + a);
    let ghost mid = line_views(out@);
    emit_opt(out, "profile-driver: ", caps.platform_profile_driver.clone());
    let ghost mid2 = line_views(out@);
    if caps.profile_choices.len() > 0 {
        let j = join_all(&caps.profile_choices, " ");
        emit(out, StatusLine::Text(cat("profile-choices: ", j.as_str())));
    } else {
        assert(mid2 + seq![] =~= mid2);
    }
    assert(line_views(out@) =~= start + profile_lines(caps@, ov(current)));
}

fn push_ppt(out: &mut Vec<StatusLine>, caps: &Capabilities, attrs: &Vec<AttrInfo>)
    ensures
        line_views(final(out)@) == line_views(old(out)@) + ppt_lines(caps@, attr_views(attrs@)),
{
    let ghost start = line_views(out@);
    let ghost avs = attr_views(attrs@);
    if !caps.ppt {
        assert(start + seq![] =~= start);
        return;
    }
    let mut i: usize = 0;
    while i < attrs.len()
        invariant
            i <= attrs@.len() == avs.len(),
            avs == attr_views(attrs@),
            line_views(out@) == start + avs.take(i as int).map_values(|a: AttrInfoView| ppt_row(a)),
        decreases attrs.len() - i,
    {
        let a = &attrs[i];
        let s1 = cat("ppt-", a.key.as_str());
        let s2 = cat(s1.as_str(), ": ");
        let s3 = cat(s2.as_str(), dec_string(a.current as u64).as_str());
        let s4 = cat(s3.as_str(), " W (range ");
        let s5 = cat(s4.as_str(), dec_string(a.min as u64).as_str());
        let s6 = cat(s5.as_str(), "–");
        let s7 = cat(s6.as_str(), dec_string(a.max as u64).as_str());
        let s8 = cat(s7.as_str(), ")");
        proof {
            assert(avs[i as int] == attrs@[i as int]@);
            assert(s8@ == ("ppt-"@ + avs[i as int].key + ": "@ + dec(avs[i as int].current as nat) + " W (range "@
                + dec(avs[i as int].min as nat) + "–"@ + dec(avs[i as int].max as nat) + ")"@));
        }
        emit(out, StatusLine::Text(s8));
        proof {
            assert(avs.take(i + 1).map_values(|a: AttrInfoView| ppt_row(a)) =~= avs.take(i as int).map_values(
                |a: AttrInfoView| ppt_row(a),
            ).push(ppt_row(avs[i as int])));
        }
        i = i + 1;
    }
    assert(avs.take(avs.len() as int) =~= avs);
}

fn push_mode(out: &mut Vec<StatusLine>, root: &SysRoot, caps: &Capabilities)
    ensures
        line_views(final(out)@) == line_views(old(out)@) + mode_line(caps@, root@),
{
    if caps.charge_types {
        match get_mode(root) {
            Ok(m) => {
                let a = cat("battery-mode: ", m.as_sysfs());
                let b = cat(a.as_str(), " (");
                let c = cat(b.as_str(), m.label());
                emit(out, StatusLine::Text(cat(c.as_str(), ")")));
                return;
            },
            Err(_) => {},
        }
    }
    assert(line_views(old(out)@) + seq![] =~= line_views(old(out)@));
}

fn push_capacity(out: &mut Vec<StatusLine>, st: &BatteryStats, Ghost(v): Ghost<SysView>)
    requires
        st.capacity == read_parsed_opt_spec::<u32>(v, bat_file("capacity"@)),
    ensures
        line_views(final(out)@) == line_views(old(out)@) + capacity_line(v),
{
    match st.capacity {
        Some(x) => {
            let a = cat("battery-capacity: ", dec_string(x as u64).as_str());
            emit(out, StatusLine::Text(cat(a.as_str(), "%")));
        },
        None => {
            assert(line_views(old(out)@) + seq![] =~= line_views(old(out)@));
        },
    }
}

fn push_health(out: &mut Vec<StatusLine>, st: &BatteryStats, Ghost(v): Ghost<SysView>)
    requires
        st.energy_full == read_parsed_opt_spec::<u64>(v, bat_file("energy_full"@)),
        st.energy_full_design == read_parsed_opt_spec::<u64>(v, bat_file("energy_full_design"@)),
    ensures
        line_views(final(out)@) == line_views(old(out)@) + health_line(v),
{
    match st.health_ratio() {
        Some((f, d)) => emit(out, StatusLine::BatteryHealth(f, d)),
        None => {
            assert(line_views(old(out)@) + seq![] =~= line_views(old(out)@));
        },
    }
}

fn push_cycles(out: &mut Vec<StatusLine>, st: &BatteryStats, Ghost(v): Ghost<SysView>)
    requires
        st.cycle_count == read_parsed_opt_spec::<u32>(v, bat_file("cycle_count"@)),
    ensures
        line_views(final(out)@) == line_views(old(out)@) + cycles_line(v),
{
    match st.cycle_count {
        Some(x) => emit(out, StatusLine::Text(cat("battery-cycles: ", dec_string(x as u64).as_str()))),
        None => {
            assert(line_views(old(out)@) + seq![] =~= line_views(old(out)@));
        },
    }
}

fn push_ac(out: &mut Vec<StatusLine>, st: &BatteryStats, Ghost(v): Ghost<SysView>)
    requires
        st.ac_online == ac_online_spec(v),
    ensures
        line_views(final(out)@) == line_views(old(out)@) + ac_line(v),
{
    match st.ac_online {
        Some(b) => {
            let t = if b {
                "online"
            } else {
                "offline"
            };
            emit(out, StatusLine::Text(cat("ac: ", t)));
        },
        None => {
            assert(line_views(old(out)@) + seq![] =~= line_views(old(out)@));
        },
    }
}

#[verifier::rlimit(60)]
fn push_battery(out: &mut Vec<StatusLine>, root: &SysRoot, caps: &Capabilities)
    ensures
        line_views(final(out)@) == line_views(old(out)@) + battery_lines(caps@, root@),
{
    let ghost start = line_views(out@);
    let ghost v = root@;
    push_mode(out, root, caps);
    let ghost s1 = line_views(out@);
    let st = stats(root);
    push_capacity(out, &st, Ghost(v));
    let ghost s2 = line_views(out@);
    emit_opt(out, "battery-status: ", st.status.clone());
    let ghost s3 = line_views(out@);
    push_health(out, &st, Ghost(v));
    let ghost s4 = line_views(out@);
    push_cycles(out, &st, Ghost(v));
    let ghost s5 = line_views(out@);
    push_ac(out, &st, Ghost(v));
    proof {
        let a = mode_line(caps@, v);
        let b = capacity_line(v);
        let c = opt_line("battery-status: "@, v.read_opt(bat_file("status"@)));
        let d = health_line(v);
        let e = cycles_line(v);
        let f = ac_line(v);
        assert(s1 == start + a);
        assert(s2 == s1 + b);
        assert(s3 == s2 + c);
        assert(s4 == s3 + d);
        assert(s5 == s4 + e);
        assert(line_views(out@) == s5 + f);
        assert(battery_lines(caps@, v) == a + b + c + d + e + f);
        assert(start + (a + b + c + d + e + f) =~= start + a + b + c + d + e + f);
    }
}

fn push_switch(out: &mut Vec<StatusLine>, present: bool, name: &str, value: Option<bool>)
    ensures
        line_views(final(out)@) == line_views(old(out)@) + switch_line(present, name@, value),
{
    if present {
        match value {
            Some(b) => {
                let a = cat(name, ": ");
                emit(out, StatusLine::Text(cat(a.as_str(), on_off_text(b))));
                return;
            },
            None => {},
        }
    }
    assert(line_views(old(out)@) + seq![] =~= line_views(old(out)@));
}

fn push_switches(out: &mut Vec<StatusLine>, root: &SysRoot, caps: &Capabilities)
    ensures
        line_views(final(out)@) == line_views(old(out)@) + switch_lines(caps@, root@),
{
    let ghost start = line_views(out@);
    push_switch(out, caps.fn_lock, "fnlock", ideapad::get(root, Toggle::FnLock));
    push_switch(out, caps.camera_power, "camera", ideapad::get(root, Toggle::CameraPower));
    push_switch(out, caps.usb_charging, "usb-charging", ideapad::get(root, Toggle::UsbCharging));
    assert(line_views(out@) =~= start + switch_lines(caps@, root@));
}

fn push_cooling(out: &mut Vec<StatusLine>, root: &SysRoot, caps: &Capabilities)
    ensures
        line_views(final(out)@) == line_views(old(out)@) + cooling_lines(caps@, root@),
{
    let ghost start = line_views(out@);
    let ghost v = root@;
    if caps.fan_mode {
        match get_fan_mode(root) {
            Ok(m) => emit(out, StatusLine::Text(cat("fan-mode: ", m.label()))),
            Err(_) => {},
        }
    }
    let ghost s1 = line_views(out@);
    assert(s1 =~= start + (if caps@.fan_mode {
        match get_fan_mode_spec(v) {
            Ok(m) => seq![text("fan-mode: "@ + fan_label(m))],
            Err(_) => Seq::<StatusLineView>::empty(),
        }
    } else {
        Seq::<StatusLineView>::empty()
    }));
    match rpm(root) {
        Some(r) => emit(out, StatusLine::Text(cat("fan-rpm: ", dec_string(r as u64).as_str()))),
        None => emit(out, StatusLine::Text(owned("fan-rpm: unavailable (no fan sensor on this kernel)"))),
    }
    let ghost s2 = line_views(out@);
    if caps.kbd_backlight {
        match kbd_backlight::get(root) {
            Ok(level) => {
                let m = match caps.kbd_backlight_max {
                    Some(x) => x,
                    None => 2,
                };
                let a = cat("backlight: ", dec_string(level as u64).as_str());
                let b = cat(a.as_str(), " (max ");
                let c = cat(b.as_str(), dec_string(m as u64).as_str());
                emit(out, StatusLine::Text(cat(c.as_str(), ")")));
            },
            Err(_) => {},
        }
    }
    assert(line_views(out@) =~= start + cooling_lines(caps@, v));
}

fn push_cpu(out: &mut Vec<StatusLine>, root: &SysRoot)
    ensures
        line_views(final(out)@) == line_views(old(out)@) + cpu_lines(root@),
{
    let ghost start = line_views(out@);
    let ghost v = root@;
    match get_boost(root) {
        Some(b) => emit(out, StatusLine::Text(cat("cpu-boost: ", on_off_text(b)))),
        None => {},
    }
    let ghost s1 = line_views(out@);
    assert(s1 =~= start + (match get_boost_spec(v) {
        Some(b) => seq![text("cpu-boost: "@ + on_off(b))],
        None => Seq::<StatusLineView>::empty(),
    }));
    emit_opt(out, "cpu-governor: ", governor(root));
    emit_opt(out, "cpu-epp: ", epp(root));
    let ghost s3 = line_views(out@);
    match cur_freq_khz(root) {
        Some(k) => emit(out, StatusLine::CpuFreq(k)),
        None => {},
    }
    let ghost s4 = line_views(out@);
    assert(s4 =~= s3 + (match read_parsed_opt_spec::<u64>(v, cpu0_file("scaling_cur_freq"@)) {
        Some(k) => seq![StatusLineView::CpuFreq(k)],
        None => Seq::<StatusLineView>::empty(),
    }));
    match temp_sensor_file(root) {
        Some(f) => match root.read_opt(f.as_str()) {
            Some(t) => {
                if is_float_text(t.as_str()) {
                    emit(out, StatusLine::CpuTemp(t));
                }
            },
            None => {},
        },
        None => {},
    }
    assert(line_views(out@) =~= start + cpu_lines(v));
}

/// The `legion-ctl status` report for this machine, given what the daemon
/// reported when it runs (`None` when it does not).
pub fn status_report(root: &SysRoot, daemon: Option<&DaemonReadings>) -> (r: Vec<StatusLine>)
    ensures
        line_views(r@) == status_spec(root@, readings_view(daemon)),
{
    let caps = probe(root);
    let mut out: Vec<StatusLine> = Vec::new();
    assert(line_views(out@) =~= Seq::<StatusLineView>::empty());
    push_identity(&mut out, &caps, daemon.is_some());
    if caps.is_empty() {
        emit(&mut out, StatusLine::Text(owned("supported: no")));
        emit(
            &mut out,
            StatusLine::Text(owned("hint: the lenovo-wmi-gamezone driver does not appear to be loaded")),
        );
        assert(line_views(out@) =~= status_spec(root@, readings_view(daemon)));
        return out;
    }
    let current = match daemon {
        Some(d) => d.profile.clone(),
        None => match profile::get(root) {
            Ok(p) => Some(owned(p.as_sysfs())),
            Err(_) => None,
        },
    };
    push_profile(&mut out, &caps, current);
    match daemon {
        Some(d) => push_ppt(&mut out, &caps, &d.ppt),
        None => {
            let attrs = list_all(root);
            push_ppt(&mut out, &caps, &attrs);
        },
    }
    push_battery(&mut out, root, &caps);
    push_switches(&mut out, root, &caps);
    push_cooling(&mut out, root, &caps);
    push_cpu(&mut out, root);
    assert(line_views(out@) =~= status_spec(root@, readings_view(daemon)));
    out
}

// ───────────────────────────── every line is `key: value` ─────────────────────────────

/// A text line holds the `": "` that separates its key from its value.
pub open spec fn keyed(l: StatusLineView) -> bool {
    match l {
        StatusLineView::Text(t) => contains(t, ": "@),
        _ => true,
    }
}

/// Every line is keyed.
pub open spec fn all_keyed(s: Seq<StatusLineView>) -> bool {
    forall|i: int| 0 <= i < s.len() ==> keyed(#[trigger] s[i])
}

proof fn lemma_key_literal(k: Seq<char>)
    requires
        k.len() >= 2,
        k[k.len() - 2] == ':',
        k[k.len() - 1] == ' ',
    ensures
        contains(k, ": "@),
{
    reveal_strlit(": ");
    let i = k.len() - 2;
    assert(k.subrange(i, i + ": "@.len()) =~= ": "@);
}

proof fn lemma_sep_after(a: Seq<char>)
    ensures
        contains(a + ": "@, ": "@),
{
    reveal_strlit(": ");
    assert((a + ": "@).subrange(a.len() as int, a.len() + 2int) =~= ": "@);
}

proof fn lemma_keep(a: Seq<char>, b: Seq<char>)
    requires
        contains(a, ": "@),
    ensures
        contains(a + b, ": "@),
{
    reveal_strlit(": ");
    let i = choose|i: int| 0 <= i && i + 2 <= a.len() && #[trigger] a.subrange(i, i + 2) == ": "@;
    assert((a + b).subrange(i, i + 2) =~= a.subrange(i, i + 2));
}

proof fn lemma_concat(a: Seq<StatusLineView>, b: Seq<StatusLineView>)
    requires
        all_keyed(a),
        all_keyed(b),
    ensures
        all_keyed(a + b),
{
    assert forall|i: int| 0 <= i < (a + b).len() implies keyed(#[trigger] (a + b)[i]) by {
        if i < a.len() {
            assert((a + b)[i] == a[i]);
        } else {
            assert((a + b)[i] == b[i - a.len()]);
        }
    }
}

proof fn lemma_one(t: Seq<char>)
    requires
        contains(t, ": "@),
    ensures
        all_keyed(seq![text(t)]),
{
    assert(seq![text(t)][0] == text(t));
}

proof fn lemma_opt_line(key: Seq<char>, o: Option<Seq<char>>)
    requires
        contains(key, ": "@),
    ensures
        all_keyed(opt_line(key, o)),
{
    if let Some(x) = o {
        lemma_keep(key, x);
        lemma_one(key + x);
    }
}

proof fn lemma_identity_keyed(c: CapabilitiesView, running: bool)
    ensures
        all_keyed(identity_lines(c, running)),
{
    reveal_strlit("machine: ");
    reveal_strlit("family: ");
    reveal_strlit("daemon: ");
    lemma_key_literal("machine: "@);
    lemma_key_literal("family: "@);
    lemma_key_literal("daemon: "@);
    lemma_opt_line("machine: "@, c.product_name);
    lemma_opt_line("family: "@, c.product_family);
    let d = if running {
        "running"@
    } else {
        "not running"@
    };
    lemma_keep("daemon: "@, d);
    lemma_one("daemon: "@ + d);
    lemma_concat(opt_line("machine: "@, c.product_name), opt_line("family: "@, c.product_family));
    lemma_concat(
        opt_line("machine: "@, c.product_name) + opt_line("family: "@, c.product_family),
        seq![text("daemon: "@ + d)],
    );
}

proof fn lemma_unsupported_keyed()
    ensures
        all_keyed(unsupported_lines()),
{
    reveal_strlit("supported: no");
    reveal_strlit("hint: the lenovo-wmi-gamezone driver does not appear to be loaded");
    reveal_strlit(": ");
    assert("supported: no"@.subrange(9int, 9int + ": "@.len()) =~= ": "@);
    assert("hint: the lenovo-wmi-gamezone driver does not appear to be loaded"@.subrange(4int, 4int + ": "@.len())
        =~= ": "@);
    let s = unsupported_lines();
    assert(s[0] == text("supported: no"@));
    assert(s[1] == text("hint: the lenovo-wmi-gamezone driver does not appear to be loaded"@));
}

proof fn lemma_profile_keyed(c: CapabilitiesView, current: Option<Seq<char>>)
    ensures
        all_keyed(profile_lines(c, current)),
{
    if c.platform_profile {
        reveal_strlit("profile: ");
        reveal_strlit("profile-driver: ");
        reveal_strlit("profile-choices: ");
        lemma_key_literal("profile: "@);
        lemma_key_literal("profile-driver: "@);
        lemma_key_literal("profile-choices: "@);
        let a = match current {
            Some(x) => seq![text("profile: "@ + x + " ("@ + profile_tag(x) + ")"@)],
            None => Seq::<StatusLineView>::empty(),
        };
        if let Some(x) = current {
            lemma_keep("profile: "@, x);
            lemma_keep("profile: "@ + x, " ("@);
            lemma_keep("profile: "@ + x + " ("@, profile_tag(x));
            lemma_keep("profile: "@ + x + " ("@ + profile_tag(x), ")"@);
            lemma_one("profile: "@ + x + " ("@ + profile_tag(x) + ")"@);
        }
        lemma_opt_line("profile-driver: "@, c.platform_profile_driver);
        let b = opt_line("profile-driver: "@, c.platform_profile_driver);
        let d = if c.profile_choices.len() > 0 {
            seq![text("profile-choices: "@ + joined(c.profile_choices, " "@))]
        } else {
            Seq::<StatusLineView>::empty()
        };
        if c.profile_choices.len() > 0 {
            lemma_keep("profile-choices: "@, joined(c.profile_choices, " "@));
            lemma_one("profile-choices: "@ + joined(c.profile_choices, " "@));
        }
        lemma_concat(a, b);
        lemma_concat(a + b, d);
    }
}

proof fn lemma_ppt_keyed(c: CapabilitiesView, attrs: Seq<AttrInfoView>)
    ensures
        all_keyed(ppt_lines(c, attrs)),
{
    if c.ppt {
        let s = attrs.map_values(|a: AttrInfoView| ppt_row(a));
        assert forall|i: int| 0 <= i < s.len() implies keyed(#[trigger] s[i]) by {
            let a = attrs[i];
            lemma_sep_after("ppt-"@ + a.key);
            let t = "ppt-"@ + a.key + ": "@;
            lemma_keep(t, dec(a.current as nat));
            lemma_keep(t + dec(a.current as nat), " W (range "@);
            lemma_keep(t + dec(a.current as nat) + " W (range "@, dec(a.min as nat));
            lemma_keep(t + dec(a.current as nat) + " W (range "@ + dec(a.min as nat), "–"@);
            lemma_keep(t + dec(a.current as nat) + " W (range "@ + dec(a.min as nat) + "–"@, dec(a.max as nat));
            lemma_keep(
                t + dec(a.current as nat) + " W (range "@ + dec(a.min as nat) + "–"@ + dec(a.max as nat),
                ")"@,
            );
        }
    }
}

proof fn lemma_battery_keyed(c: CapabilitiesView, v: SysView)
    ensures
        all_keyed(battery_lines(c, v)),
{
    reveal_strlit("battery-mode: ");
    reveal_strlit("battery-capacity: ");
    reveal_strlit("battery-status: ");
    reveal_strlit("battery-cycles: ");
    reveal_strlit("ac: ");
    lemma_key_literal("battery-mode: "@);
    lemma_key_literal("battery-capacity: "@);
    lemma_key_literal("battery-status: "@);
    lemma_key_literal("battery-cycles: "@);
    lemma_key_literal("ac: "@);
    let a = mode_line(c, v);
    if c.charge_types {
        if let Ok(m) = get_mode_spec(v) {
            lemma_keep("battery-mode: "@, cm_sysfs(m));
            lemma_keep("battery-mode: "@ + cm_sysfs(m), " ("@);
            lemma_keep("battery-mode: "@ + cm_sysfs(m) + " ("@, cm_label(m));
            lemma_keep("battery-mode: "@ + cm_sysfs(m) + " ("@ + cm_label(m), ")"@);
            lemma_one("battery-mode: "@ + cm_sysfs(m) + " ("@ + cm_label(m) + ")"@);
        }
    }
    let b = capacity_line(v);
    if let Some(x) = read_parsed_opt_spec::<u32>(v, bat_file("capacity"@)) {
        lemma_keep("battery-capacity: "@, dec(x as nat));
        lemma_keep("battery-capacity: "@ + dec(x as nat), "%"@);
        lemma_one("battery-capacity: "@ + dec(x as nat) + "%"@);
    }
    let st = opt_line("battery-status: "@, v.read_opt(bat_file("status"@)));
    lemma_opt_line("battery-status: "@, v.read_opt(bat_file("status"@)));
    let h = health_line(v);
    assert(all_keyed(h)) by {
        assert forall|i: int| 0 <= i < h.len() implies keyed(#[trigger] h[i]) by {}
    }
    let e = cycles_line(v);
    if let Some(x) = read_parsed_opt_spec::<u32>(v, bat_file("cycle_count"@)) {
        lemma_keep("battery-cycles: "@, dec(x as nat));
        lemma_one("battery-cycles: "@ + dec(x as nat));
    }
    let f = ac_line(v);
    if let Some(on) = ac_online_spec(v) {
        let w = if on {
            "online"@
        } else {
            "offline"@
        };
        lemma_keep("ac: "@, w);
        lemma_one("ac: "@ + w);
    }
    lemma_concat(a, b);
    lemma_concat(a + b, st);
    lemma_concat(a + b + st, h);
    lemma_concat(a + b + st + h, e);
    lemma_concat(a + b + st + h + e, f);
}

proof fn lemma_switch_keyed(present: bool, name: Seq<char>, value: Option<bool>)
    ensures
        all_keyed(switch_line(present, name, value)),
{
    if present {
        if let Some(b) = value {
            lemma_sep_after(name);
            lemma_keep(name + ": "@, on_off(b));
            lemma_one(name + ": "@ + on_off(b));
        }
    }
}

proof fn lemma_cooling_keyed(c: CapabilitiesView, v: SysView)
    ensures
        all_keyed(cooling_lines(c, v)),
{
    reveal_strlit("fan-mode: ");
    reveal_strlit("fan-rpm: ");
    reveal_strlit("fan-rpm: unavailable (no fan sensor on this kernel)");
    reveal_strlit("backlight: ");
    lemma_key_literal("fan-mode: "@);
    lemma_key_literal("fan-rpm: "@);
    lemma_key_literal("backlight: "@);
    let a = if c.fan_mode {
        match get_fan_mode_spec(v) {
            Ok(m) => seq![text("fan-mode: "@ + fan_label(m))],
            Err(_) => Seq::<StatusLineView>::empty(),
        }
    } else {
        Seq::<StatusLineView>::empty()
    };
    if c.fan_mode {
        if let Ok(m) = get_fan_mode_spec(v) {
            lemma_keep("fan-mode: "@, fan_label(m));
            lemma_one("fan-mode: "@ + fan_label(m));
        }
    }
    let t = match rpm_spec(v) {
        Some(r) => "fan-rpm: "@ + dec(r as nat),
        None => "fan-rpm: unavailable (no fan sensor on this kernel)"@,
    };
    match rpm_spec(v) {
        Some(r) => lemma_keep("fan-rpm: "@, dec(r as nat)),
        None => {
            reveal_strlit(": ");
            assert("fan-rpm: unavailable (no fan sensor on this kernel)"@.subrange(7int, 7int + ": "@.len()) =~= ": "@);
        },
    }
    lemma_one(t);
    let d = if c.kbd_backlight {
        match read_parsed_spec::<u32>(v, led_file("brightness"@)) {
            Ok(l) => seq![
                text(
                    "backlight: "@ + dec(l as nat) + " (max "@ + dec(or_default(c.kbd_backlight_max, 2u32) as nat)
                        + ")"@,
                ),
            ],
            Err(_) => Seq::<StatusLineView>::empty(),
        }
    } else {
        Seq::<StatusLineView>::empty()
    };
    if c.kbd_backlight {
        if let Ok(l) = read_parsed_spec::<u32>(v, led_file("brightness"@)) {
            let m = dec(or_default(c.kbd_backlight_max, 2u32) as nat);
            lemma_keep("backlight: "@, dec(l as nat));
            lemma_keep("backlight: "@ + dec(l as nat), " (max "@);
            lemma_keep("backlight: "@ + dec(l as nat) + " (max "@, m);
            lemma_keep("backlight: "@ + dec(l as nat) + " (max "@ + m, ")"@);
            lemma_one("backlight: "@ + dec(l as nat) + " (max "@ + m + ")"@);
        }
    }
    lemma_concat(a, seq![text(t)]);
    lemma_concat(a + seq![text(t)], d);
}

proof fn lemma_cpu_keyed(v: SysView)
    ensures
        all_keyed(cpu_lines(v)),
{
    reveal_strlit("cpu-boost: ");
    reveal_strlit("cpu-governor: ");
    reveal_strlit("cpu-epp: ");
    lemma_key_literal("cpu-boost: "@);
    lemma_key_literal("cpu-governor: "@);
    lemma_key_literal("cpu-epp: "@);
    let a = match get_boost_spec(v) {
        Some(b) => seq![text("cpu-boost: "@ + on_off(b))],
        None => Seq::<StatusLineView>::empty(),
    };
    if let Some(b) = get_boost_spec(v) {
        lemma_keep("cpu-boost: "@, on_off(b));
        lemma_one("cpu-boost: "@ + on_off(b));
    }
    let g = opt_line("cpu-governor: "@, v.read_opt(cpu0_file("scaling_governor"@)));
    lemma_opt_line("cpu-governor: "@, v.read_opt(cpu0_file("scaling_governor"@)));
    let e = opt_line("cpu-epp: "@, v.read_opt(cpu0_file("energy_performance_preference"@)));
    lemma_opt_line("cpu-epp: "@, v.read_opt(cpu0_file("energy_performance_preference"@)));
    let f = match read_parsed_opt_spec::<u64>(v, cpu0_file("scaling_cur_freq"@)) {
        Some(k) => seq![StatusLineView::CpuFreq(k)],
        None => Seq::<StatusLineView>::empty(),
    };
    assert(all_keyed(f)) by {
        assert forall|i: int| 0 <= i < f.len() implies keyed(#[trigger] f[i]) by {}
    }
    let t = temp_line(v);
    assert(all_keyed(t)) by {
        assert forall|i: int| 0 <= i < t.len() implies keyed(#[trigger] t[i]) by {}
    }
    lemma_concat(a, g);
    lemma_concat(a + g, e);
    lemma_concat(a + g + e, f);
    lemma_concat(a + g + e + f, t);
}

/// A line placed between two runs of lines is one of the lines.
proof fn lemma_line_between(
    st: Seq<StatusLineView>,
    a: Seq<StatusLineView>,
    b: Seq<StatusLineView>,
    x: StatusLineView,
    c: Seq<StatusLineView>,
)
    requires
        st == a + (b + seq![x]) + c,
    ensures
        st.contains(x),
{
    assert(st[(a.len() + b.len()) as int] == x);
}

/// On a machine with something to report, the status report says
/// `ac: online` when `ac_online` finds the adapter online and `ac: offline`
/// when it finds it offline, whether or not the daemon runs.
#[verifier::rlimit(60)]
pub proof fn lemma_status_ac_line(v: SysView, daemon: Option<(Option<Seq<char>>, Seq<AttrInfoView>)>)
    requires
        !caps_empty(probe_spec(v)),
    ensures
        ac_online_spec(v) == Some(true) ==> status_spec(v, daemon).contains(text("ac: online"@)),
        ac_online_spec(v) == Some(false) ==> status_spec(v, daemon).contains(text("ac: offline"@)),
{
    if ac_online_spec(v) is Some {
        let c = probe_spec(v);
        let current = match daemon {
            Some(d) => d.0,
            None => match get_spec(v) {
                Ok(p) => Some(sysfs_name(p)),
                Err(_) => None,
            },
        };
        let attrs = match daemon {
            Some(d) => d.1,
            None => list_all_spec(v),
        };
        let i = identity_lines(c, daemon is Some);
        let p = profile_lines(c, current);
        let q = ppt_lines(c, attrs);
        let bl = battery_lines(c, v);
        let sw = switch_lines(c, v);
        let co = cooling_lines(c, v);
        let cp = cpu_lines(v);
        let st = status_spec(v, daemon);
        assert(st == i + p + q + bl + sw + co + cp);
        let bpre = mode_line(c, v) + capacity_line(v) + opt_line("battery-status: "@, v.read_opt(bat_file("status"@)))
            + health_line(v) + cycles_line(v);
        let x = ac_line(v)[0];
        assert(ac_line(v) =~= seq![x]);
        assert(bl == bpre + seq![x]);
        assert(st =~= (i + p + q) + (bpre + seq![x]) + (sw + co + cp));
        lemma_line_between(st, i + p + q, bpre, x, sw + co + cp);
        reveal_strlit("ac: ");
        reveal_strlit("online");
        reveal_strlit("offline");
        reveal_strlit("ac: online");
        reveal_strlit("ac: offline");
        assert("ac: "@ + "online"@ =~= "ac: online"@);
        assert("ac: "@ + "offline"@ =~= "ac: offline"@);
    }
}

/// Every line of `legion-ctl status` is a `key: value` line, whatever the
/// machine and whether or not the daemon runs, so scripts can parse it.
pub proof fn lemma_status_lines_are_keyed(v: SysView, daemon: Option<(Option<Seq<char>>, Seq<AttrInfoView>)>)
    ensures
        all_keyed(status_spec(v, daemon)),
{
    let c = probe_spec(v);
    lemma_identity_keyed(c, daemon is Some);
    if caps_empty(c) {
        lemma_unsupported_keyed();
        lemma_concat(identity_lines(c, daemon is Some), unsupported_lines());
    } else {
        let current = match daemon {
            Some(d) => d.0,
            None => match get_spec(v) {
                Ok(p) => Some(sysfs_name(p)),
                Err(_) => None,
            },
        };
        let attrs = match daemon {
            Some(d) => d.1,
            None => list_all_spec(v),
        };
        let a = identity_lines(c, daemon is Some);
        let b = profile_lines(c, current);
        let d = ppt_lines(c, attrs);
        let e = battery_lines(c, v);
        let f = switch_lines(c, v);
        let g = cooling_lines(c, v);
        let h = cpu_lines(v);
        lemma_profile_keyed(c, current);
        lemma_ppt_keyed(c, attrs);
        lemma_battery_keyed(c, v);
        lemma_switch_keyed(c.fn_lock, "fnlock"@, crate::ideapad::get_spec(v, Toggle::FnLock));
        lemma_switch_keyed(c.camera_power, "camera"@, crate::ideapad::get_spec(v, Toggle::CameraPower));
        lemma_switch_keyed(c.usb_charging, "usb-charging"@, crate::ideapad::get_spec(v, Toggle::UsbCharging));
        lemma_concat(
            switch_line(c.fn_lock, "fnlock"@, crate::ideapad::get_spec(v, Toggle::FnLock)),
            switch_line(c.camera_power, "camera"@, crate::ideapad::get_spec(v, Toggle::CameraPower)),
        );
        lemma_concat(
            switch_line(c.fn_lock, "fnlock"@, crate::ideapad::get_spec(v, Toggle::FnLock)) + switch_line(
                c.camera_power,
                "camera"@,
                crate::ideapad::get_spec(v, Toggle::CameraPower),
            ),
            switch_line(c.usb_charging, "usb-charging"@, crate::ideapad::get_spec(v, Toggle::UsbCharging)),
        );
        lemma_cooling_keyed(c, v);
        lemma_cpu_keyed(v);
        lemma_concat(a, b);
        lemma_concat(a + b, d);
        lemma_concat(a + b + d, e);
        lemma_concat(a + b + d + e, f);
        lemma_concat(a + b + d + e + f, g);
        lemma_concat(a + b + d + e + f + g, h);
    }
}

} // verus!
