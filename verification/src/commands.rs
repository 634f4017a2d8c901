//! `legion-ctl` subcommands against sysfs directly, as the CLI runs them
//! when the daemon is not on the bus.
//!
//! Each returns what the command prints on success, or the message it exits
//! with on failure. Arguments are validated before anything is written, so a
//! typo gets the same message whichever way the CLI reaches the hardware.

use vstd::prelude::*;

use crate::battery::{self, cm_from_user_spec, cm_label, cm_sysfs, ct_file, get_mode_spec, ChargeMode};
use crate::cpu::{self, boost_file, get_boost_spec};
use crate::ctl::{
    backlight_range_spec, check_backlight, describe_hw_error, describe_hw_spec, parse_on_off,
    find_key, parse_on_off_spec, ppt_dir_of, ppt_range_message, resolve_ppt_dir, select_ppt, select_ppt_spec,
    ToggleKind,
};
use crate::firmware_attrs::{
    self, attr_views, lemma_key_round_trip, list_all, list_all_spec, ppt_dir, ppt_key, range_msg, AttrInfo,
    AttrInfoView, PptAttr,
};
use crate::ideapad::{self, bool_text, dev_file, toggle_attr, Toggle};
use crate::kbd_backlight::{self, lemma_set_then_get, led_file, LED};
use crate::profile::{self, from_user_spec, get_spec, label_of, sysfs_name, PowerProfile};
use crate::sysfs::{lemma_leaf_differs, lemma_write_reads, read_parsed_spec, strings, SysRoot, SysView};
use crate::text::{cat, dec, dec_string, owned};

verus! {

/// A command's outcome by its views.
pub open spec fn outcome(r: Result<String, String>) -> Result<Seq<char>, Seq<char>> {
    match r {
        Ok(s) => Ok(s@),
        Err(m) => Err(m@),
    }
}

/// A multi-line command's outcome by its views.
pub open spec fn lines_outcome(r: Result<Vec<String>, String>) -> Result<Seq<Seq<char>>, Seq<char>> {
    match r {
        Ok(v) => Ok(strings(v@)),
        Err(m) => Err(m@),
    }
}

/// The message for a command without hardware behind it.
pub open spec fn unsupported_msg() -> Seq<char> {
    "not supported on this machine"@
}

// ───────────────────────────── profile ─────────────────────────────

/// `profile: <kernel string> (<label>)`.
pub open spec fn profile_out(p: PowerProfile) -> Seq<char> {
    "profile: "@ + sysfs_name(p) + " ("@ + label_of(p) + ")"@
}

/// What `profile` prints or fails with, and the tree after it.
pub open spec fn profile_spec(v: SysView, value: Option<Seq<char>>) -> (Result<Seq<char>, Seq<char>>, SysView) {
    match value {
        None => (
            match get_spec(v) {
                Ok(p) => Ok(profile_out(p)),
                Err(e) => Err(describe_hw_spec(e)),
            },
            v,
        ),
        Some(x) => match from_user_spec(x) {
            Err(e) => (Err(describe_hw_spec(e)), v),
            Ok(p) => (
                match profile::set_result(v) {
                    Ok(()) => Ok(profile_out(p)),
                    Err(e) => Err(describe_hw_spec(e)),
                },
                profile::after_set(v, p),
            ),
        },
    }
}

/// What `profile` prints for a profile it showed or set.
pub fn profile_text(p: PowerProfile) -> (r: String)
    ensures
        r@ == profile_out(p),
{
    let a = cat("profile: ", p.as_sysfs());
    let b = cat(a.as_str(), " (");
    let c = cat(b.as_str(), p.label());
    cat(c.as_str(), ")")
}

/// `legion-ctl profile [VALUE]`: show the active profile, or switch to the
/// one named (by kernel string or label).
pub fn profile(root: &mut SysRoot, value: Option<&str>) -> (r: Result<String, String>)
    ensures
        (outcome(r), final(root)@) == profile_spec(old(root)@, match value {
            Some(x) => Some(x@),
            None => None,
        }),
{
    match value {
        None => match profile::get(root) {
            Ok(p) => Ok(profile_text(p)),
            Err(e) => Err(describe_hw_error(&e)),
        },
        Some(v) => {
            let p = match PowerProfile::from_user(v) {
                Ok(p) => p,
                Err(e) => return Err(describe_hw_error(&e)),
            };
            match profile::set(root, p) {
                Ok(()) => Ok(profile_text(p)),
                Err(e) => Err(describe_hw_error(&e)),
            }
        },
    }
}

// ───────────────────────────── battery ─────────────────────────────

/// `battery: <kernel string> (<label>)`.
pub open spec fn battery_out(m: ChargeMode) -> Seq<char> {
    "battery: "@ + cm_sysfs(m) + " ("@ + cm_label(m) + ")"@
}

/// What `battery` prints or fails with, and the tree after it.
pub open spec fn battery_spec(v: SysView, value: Option<Seq<char>>) -> (Result<Seq<char>, Seq<char>>, SysView) {
    match value {
        None => (
            match get_mode_spec(v) {
                Ok(m) => Ok(battery_out(m)),
                Err(e) => Err(describe_hw_spec(e)),
            },
            v,
        ),
        Some(x) => match cm_from_user_spec(x) {
            Err(e) => (Err(describe_hw_spec(e)), v),
            Ok(m) => (
                match v.write_result(ct_file()) {
                    Ok(()) => Ok(battery_out(m)),
                    Err(e) => Err(describe_hw_spec(e)),
                },
                v.after_write(ct_file(), cm_sysfs(m)),
            ),
        },
    }
}

/// What `battery` prints for a charge mode it showed or set.
pub fn battery_text(m: ChargeMode) -> (r: String)
    ensures
        r@ == battery_out(m),
{
    let a = cat("battery: ", m.as_sysfs());
    let b = cat(a.as_str(), " (");
    let c = cat(b.as_str(), m.label());
    cat(c.as_str(), ")")
}

/// `legion-ctl battery [MODE]`: show the charge mode, or select the one
/// named.
pub fn battery(root: &mut SysRoot, value: Option<&str>) -> (r: Result<String, String>)
    ensures
        (outcome(r), final(root)@) == battery_spec(old(root)@, match value {
            Some(x) => Some(x@),
            None => None,
        }),
{
    match value {
        None => match battery::get_mode(root) {
            Ok(m) => Ok(battery_text(m)),
            Err(e) => Err(describe_hw_error(&e)),
        },
        Some(v) => {
            let m = match ChargeMode::from_user(v) {
                Ok(m) => m,
                Err(e) => return Err(describe_hw_error(&e)),
            };
            match battery::set_mode(root, m) {
                Ok(()) => Ok(battery_text(m)),
                Err(e) => Err(describe_hw_error(&e)),
            }
        },
    }
}

// ───────────────────────────── switches ─────────────────────────────

/// The subcommand name of a switch.
pub open spec fn kind_name(k: ToggleKind) -> Seq<char> {
    match k {
        ToggleKind::FnLock => "fnlock"@,
        ToggleKind::Camera => "camera"@,
        ToggleKind::UsbCharging => "usb-charging"@,
        ToggleKind::Boost => "boost"@,
    }
}

/// The ideapad attribute behind a switch; boost is not one.
pub open spec fn kind_toggle(k: ToggleKind) -> Option<Toggle> {
    match k {
        ToggleKind::FnLock => Some(Toggle::FnLock),
        ToggleKind::Camera => Some(Toggle::CameraPower),
        ToggleKind::UsbCharging => Some(Toggle::UsbCharging),
        ToggleKind::Boost => None,
    }
}

/// The file behind a switch.
pub open spec fn kind_file(k: ToggleKind) -> Seq<char> {
    match kind_toggle(k) {
        Some(t) => dev_file(toggle_attr(t)),
        None => boost_file(),
    }
}

/// What a switch reads.
pub open spec fn kind_value(v: SysView, k: ToggleKind) -> Option<bool> {
    match kind_toggle(k) {
        Some(t) => ideapad::get_spec(v, t),
        None => get_boost_spec(v),
    }
}

/// `<name>: on` / `<name>: off`.
pub open spec fn switch_out(k: ToggleKind, on: bool) -> Seq<char> {
    kind_name(k) + ": "@ + if on {
        "on"@
    } else {
        "off"@
    }
}

/// What a switch command prints or fails with, and the tree after it.
pub open spec fn toggle_spec(v: SysView, k: ToggleKind, value: Option<Seq<char>>) -> (
    Result<Seq<char>, Seq<char>>,
    SysView,
) {
    match value {
        None => (
            match kind_value(v, k) {
                Some(b) => Ok(switch_out(k, b)),
                None => Err(unsupported_msg()),
            },
            v,
        ),
        Some(x) => match parse_on_off_spec(x) {
            Err(m) => (Err(m), v),
            Ok(on) => (
                match v.write_result(kind_file(k)) {
                    Ok(()) => Ok(switch_out(k, on)),
                    Err(e) => Err(describe_hw_spec(e)),
                },
                v.after_write(kind_file(k), bool_text(on)),
            ),
        },
    }
}

/// What a switch command prints for a switch it showed or set.
pub fn switch_text(k: ToggleKind, on: bool) -> (r: String)
    ensures
        r@ == switch_out(k, on),
{
    let a = cat(k.cli_name(), ": ");
    cat(
        a.as_str(),
        if on {
            "on"
        } else {
            "off"
        },
    )
}

/// `legion-ctl fnlock|camera|usb-charging|boost [on|off]`: show a switch,
/// or set it.
pub fn toggle(root: &mut SysRoot, kind: ToggleKind, value: Option<&str>) -> (r: Result<String, String>)
    ensures
        (outcome(r), final(root)@) == toggle_spec(old(root)@, kind, match value {
            Some(x) => Some(x@),
            None => None,
        }),
{
    match value {
        None => {
            let current = match kind.hw_toggle() {
                Some(t) => ideapad::get(root, t),
                None => cpu::get_boost(root),
            };
            match current {
                Some(b) => Ok(switch_text(kind, b)),
                None => Err(owned("not supported on this machine")),
            }
        },
        Some(v) => {
            let on = parse_on_off(v)?;
            let done = match kind.hw_toggle() {
                Some(t) => ideapad::set(root, t, on),
                None => cpu::set_boost(root, on),
            };
            match done {
                Ok(()) => Ok(switch_text(kind, on)),
                Err(e) => Err(describe_hw_error(&e)),
            }
        },
    }
}

// ───────────────────────────── backlight ─────────────────────────────

/// The maximum level the CLI checks against: the firmware's, else 2.
pub open spec fn cli_max(v: SysView) -> u32 {
    match read_parsed_spec::<u32>(v, led_file("max_brightness"@)) {
        Ok(m) => m,
        Err(_) => 2,
    }
}

/// What `backlight` prints or fails with, and the tree after it.
pub open spec fn backlight_spec(v: SysView, value: Option<u32>) -> (Result<Seq<char>, Seq<char>>, SysView) {
    match value {
        None => (
            match read_parsed_spec::<u32>(v, led_file("brightness"@)) {
                Ok(c) => Ok("backlight: "@ + dec(c as nat) + " (max "@ + dec(cli_max(v) as nat) + ")"@),
                Err(e) => Err(describe_hw_spec(e)),
            },
            v,
        ),
        Some(level) => if level > cli_max(v) {
            (Err(backlight_range_spec(level, cli_max(v))), v)
        } else {
            (
                match kbd_backlight::set_result(v, level) {
                    Ok(()) => Ok("backlight: "@ + dec(level as nat)),
                    Err(e) => Err(describe_hw_spec(e)),
                },
                kbd_backlight::after_set(v, level),
            )
        },
    }
}

/// `backlight: <level> (max <max>)`, what `backlight` shows.
pub fn backlight_text(current: u32, max: u32) -> (r: String)
    ensures
        r@ == "backlight: "@ + dec(current as nat) + " (max "@ + dec(max as nat) + ")"@,
{
    let a = cat("backlight: ", dec_string(current as u64).as_str());
    let b = cat(a.as_str(), " (max ");
    let d = cat(b.as_str(), dec_string(max as u64).as_str());
    cat(d.as_str(), ")")
}

/// `backlight: <level>`, what `backlight` prints after setting a level.
pub fn backlight_set_text(level: u32) -> (r: String)
    ensures
        r@ == "backlight: "@ + dec(level as nat),
{
    cat("backlight: ", dec_string(level as u64).as_str())
}

/// Showing the backlight prints the level the `brightness` file reads, and
/// after a level is set, showing prints that level: the shown level is
/// never the maximum in its place.
pub proof fn lemma_backlight_shows_level(v: SysView, level: u32)
    ensures
        (match read_parsed_spec::<u32>(v, led_file("brightness"@)) {
            Ok(c) => backlight_spec(v, None).0 == Ok::<Seq<char>, Seq<char>>(
                "backlight: "@ + dec(c as nat) + " (max "@ + dec(cli_max(v) as nat) + ")"@,
            ),
            Err(_) => backlight_spec(v, None).0 is Err,
        }),
        backlight_spec(v, Some(level)).0 is Ok ==> backlight_spec(backlight_spec(v, Some(level)).1, None).0
            == Ok::<Seq<char>, Seq<char>>(
            "backlight: "@ + dec(level as nat) + " (max "@ + dec(cli_max(v) as nat) + ")"@,
        ),
{
    lemma_set_then_get(v, level);
    let b = led_file("brightness"@);
    let m = led_file("max_brightness"@);
    reveal_strlit("brightness");
    reveal_strlit("max_brightness");
    assert("brightness"@ != "max_brightness"@) by {
        assert("brightness"@.len() != "max_brightness"@.len());
    }
    assert forall|i: int| 0 <= i < "brightness"@.len() implies #[trigger] "brightness"@[i] != '/' by {}
    assert forall|i: int| 0 <= i < "max_brightness"@.len() implies #[trigger] "max_brightness"@[i] != '/' by {}
    lemma_leaf_differs(LED@, LED@, "max_brightness"@, "brightness"@);
    lemma_write_reads(v, b, dec(level as nat), m);
}

/// `legion-ctl backlight [LEVEL]`: show the keyboard backlight level, or
/// set it after checking it against the maximum.
pub fn backlight(root: &mut SysRoot, value: Option<u32>) -> (r: Result<String, String>)
    ensures
        (outcome(r), final(root)@) == backlight_spec(old(root)@, value),
{
    let max = match kbd_backlight::max(root) {
        Ok(m) => m,
        Err(_) => 2,
    };
    match value {
        None => match kbd_backlight::get(root) {
            Ok(c) => Ok(backlight_text(c, max)),
            Err(e) => Err(describe_hw_error(&e)),
        },
        Some(level) => {
            check_backlight(level, max)?;
            match kbd_backlight::set(root, level) {
                Ok(()) => Ok(backlight_set_text(level)),
                Err(e) => Err(describe_hw_error(&e)),
            }
        },
    }
}

// ───────────────────────────── ppt ─────────────────────────────

/// How one power limit is listed.
pub open spec fn attr_out(a: AttrInfoView) -> Seq<char> {
    a.key + ": "@ + dec(a.current as nat) + " W (default "@ + dec(a.default as nat) + ", range "@ + dec(
        a.min as nat,
    ) + "–"@ + dec(a.max as nat) + ")"@
}

/// The message when the machine has no power limits.
pub open spec fn no_ppt_msg() -> Seq<char> {
    "no power-limit attributes on this machine"@
}

/// What `ppt` prints or fails with, and the tree after it.
pub open spec fn ppt_spec(v: SysView, attr: Option<Seq<char>>, watts: Option<u32>) -> (
    Result<Seq<Seq<char>>, Seq<char>>,
    SysView,
) {
    let all = list_all_spec(v);
    if all.len() == 0 {
        (Err(no_ppt_msg()), v)
    } else {
        match attr {
            None => (Ok(all.map_values(|a: AttrInfoView| attr_out(a))), v),
            Some(x) => match select_ppt_spec(all, x) {
                Err(m) => (Err(m), v),
                Ok(info) => match watts {
                    None => (Ok(seq![attr_out(info)]), v),
                    Some(w) => if !(info.min <= w && w <= info.max) {
                        (Err(range_msg(w, info)), v)
                    } else {
                        let dir = ppt_dir_of(info.key);
                        (
                            match firmware_attrs::write_result(v, dir, w) {
                                Ok(()) => Ok(seq![info.key + ": "@ + dec(w as nat) + " W"@]),
                                Err(e) => Err(describe_hw_spec(e)),
                            },
                            firmware_attrs::after_write(v, dir, w),
                        )
                    },
                },
            },
        }
    }
}

/// The message when the machine has no power limits.
pub fn no_ppt_message() -> (r: String)
    ensures
        r@ == no_ppt_msg(),
{
    owned("no power-limit attributes on this machine")
}

/// `<key>: <watts> W`, what `ppt` prints after setting a limit.
pub fn ppt_set_text(key: &str, watts: u32) -> (r: String)
    ensures
        r@ == key@ + ": "@ + dec(watts as nat) + " W"@,
{
    let s1 = cat(key, ": ");
    let s2 = cat(s1.as_str(), dec_string(watts as u64).as_str());
    cat(s2.as_str(), " W")
}

/// `profile: <token>`, what `profile --watch` prints for each profile the
/// daemon reports.
pub fn watch_line(current: &str) -> (r: String)
    ensures
        r@ == "profile: "@ + current@,
{
    cat("profile: ", current)
}

/// How one power limit is listed.
pub fn attr_text(a: &AttrInfo) -> (r: String)
    ensures
        r@ == attr_out(a@),
{
    let s1 = cat(a.key.as_str(), ": ");
    let s2 = cat(s1.as_str(), dec_string(a.current as u64).as_str());
    let s3 = cat(s2.as_str(), " W (default ");
    let s4 = cat(s3.as_str(), dec_string(a.default as u64).as_str());
    let s5 = cat(s4.as_str(), ", range ");
    let s6 = cat(s5.as_str(), dec_string(a.min as u64).as_str());
    let s7 = cat(s6.as_str(), "–");
    let s8 = cat(s7.as_str(), dec_string(a.max as u64).as_str());
    cat(s8.as_str(), ")")
}

/// The listing of every power limit.
pub fn attr_texts(all: &Vec<AttrInfo>) -> (r: Vec<String>)
    ensures
        strings(r@) == attr_views(all@).map_values(|a: AttrInfoView| attr_out(a)),
{
    let ghost avs = attr_views(all@);
    let mut out: Vec<String> = Vec::new();
    let mut i: usize = 0;
    while i < all.len()
        invariant
            i <= all@.len() == avs.len(),
            avs == attr_views(all@),
            strings(out@) == avs.take(i as int).map_values(|a: AttrInfoView| attr_out(a)),
        decreases all.len() - i,
    {
        let t = attr_text(&all[i]);
        let ghost tv = t@;
        let ghost before = strings(out@);
        out.push(t);
        proof {
            assert(avs[i as int] == all@[i as int]@);
            assert(strings(out@) =~= before.push(tv));
            assert(avs.take(i + 1).map_values(|a: AttrInfoView| attr_out(a)) =~= avs.take(i as int).map_values(
                |a: AttrInfoView| attr_out(a),
            ).push(attr_out(avs[i as int])));
        }
        i = i + 1;
    }
    assert(avs.take(avs.len() as int) =~= avs);
    out
}

/// What a `ppt` command comes to, once the power limits are known: lines
/// to print, or a limit to set.
#[derive(Debug)]
pub enum PptPlan {
    /// Print these lines (the listing, or the one limit asked about).
    Print(Vec<String>),
    /// Set the limit with short key `key`, in firmware directory `dir`, to
    /// `watts`.
    Apply { key: String, dir: String, watts: u32 },
}

pub enum PptPlanView {
    Print(Seq<Seq<char>>),
    Apply { key: Seq<char>, dir: Seq<char>, watts: u32 },
}

impl View for PptPlan {
    type V = PptPlanView;

    open spec fn view(&self) -> PptPlanView {
        match self {
            PptPlan::Print(ls) => PptPlanView::Print(strings(ls@)),
            PptPlan::Apply { key, dir, watts } => PptPlanView::Apply { key: key@, dir: dir@, watts: *watts },
        }
    }
}

/// What `ppt_plan` gives for the limits `all`: the message it fails with,
/// or what to print or set. An empty list, an unknown limit and a value
/// outside the firmware's range are refused before anything is set.
pub open spec fn ppt_plan_spec(all: Seq<AttrInfoView>, attr: Option<Seq<char>>, watts: Option<u32>) -> Result<
    PptPlanView,
    Seq<char>,
> {
    if all.len() == 0 {
        Err(no_ppt_msg())
    } else {
        match attr {
            None => Ok(PptPlanView::Print(all.map_values(|a: AttrInfoView| attr_out(a)))),
            Some(x) => match select_ppt_spec(all, x) {
                Err(m) => Err(m),
                Ok(info) => match watts {
                    None => Ok(PptPlanView::Print(seq![attr_out(info)])),
                    Some(w) => if !(info.min <= w && w <= info.max) {
                        Err(range_msg(w, info))
                    } else {
                        Ok(PptPlanView::Apply { key: info.key, dir: ppt_dir_of(info.key), watts: w })
                    },
                },
            },
        }
    }
}

/// A plan taken by its view.
pub open spec fn plan_view(r: Result<PptPlan, String>) -> Result<PptPlanView, Seq<char>> {
    match r {
        Ok(p) => Ok(p@),
        Err(m) => Err(m@),
    }
}

/// Decide a `ppt` command against the power limits `all`, as read from
/// sysfs or from the daemon: list them, show one, or name the limit to set
/// after checking the firmware's range.
pub fn ppt_plan(all: &Vec<AttrInfo>, attr: Option<&str>, watts: Option<u32>) -> (r: Result<PptPlan, String>)
    ensures
        plan_view(r) == ppt_plan_spec(attr_views(all@), match attr {
            Some(x) => Some(x@),
            None => None,
        }, watts),
{
    if all.len() == 0 {
        return Err(no_ppt_message());
    }
    let a = match attr {
        None => return Ok(PptPlan::Print(attr_texts(all))),
        Some(a) => a,
    };
    let info = select_ppt(all, a)?;
    let w = match watts {
        None => {
            let mut one: Vec<String> = Vec::new();
            one.push(attr_text(&info));
            assert(strings(one@) =~= seq![attr_out(info@)]);
            return Ok(PptPlan::Print(one));
        },
        Some(w) => w,
    };
    if !info.in_range(w) {
        return Err(ppt_range_message(&info, w));
    }
    let dir = resolve_ppt_dir(info.key.as_str());
    Ok(PptPlan::Apply { key: info.key, dir, watts: w })
}

/// `legion-ctl ppt [ATTR [WATTS]]`: list the power limits, show one, or set
/// one after checking the firmware's range.
pub fn ppt(root: &mut SysRoot, attr: Option<&str>, watts: Option<u32>) -> (r: Result<Vec<String>, String>)
    ensures
        (lines_outcome(r), final(root)@) == ppt_spec(old(root)@, match attr {
            Some(x) => Some(x@),
            None => None,
        }, watts),
{
    let all = list_all(root);
    match ppt_plan(&all, attr, watts) {
        Err(m) => Err(m),
        Ok(PptPlan::Print(lines)) => Ok(lines),
        Ok(PptPlan::Apply { key, dir, watts: w }) => match firmware_attrs::write_by_name(root, dir.as_str(), w) {
            Ok(()) => {
                let mut one: Vec<String> = Vec::new();
                one.push(ppt_set_text(key.as_str(), w));
                assert(strings(one@) =~= seq![key@ + ": "@ + dec(w as nat) + " W"@]);
                Ok(one)
            },
            Err(e) => Err(describe_hw_error(&e)),
        },
    }
}

/// Setting a power limit outside the firmware's range is refused with a
/// message naming the value, the limit and both bounds
/// (`<w> W is out of range for <key>: <min>–<max> W`), and nothing is
/// written.
pub proof fn lemma_ppt_out_of_range(v: SysView, attr: Seq<char>, w: u32)
    requires
        list_all_spec(v).len() > 0,
        select_ppt_spec(list_all_spec(v), attr) is Ok,
        !(select_ppt_spec(list_all_spec(v), attr)->Ok_0.min <= w <= select_ppt_spec(list_all_spec(v), attr)->Ok_0.max),
    ensures
        ({
            let info = select_ppt_spec(list_all_spec(v), attr)->Ok_0;
            ppt_spec(v, Some(attr), Some(w)) == (
                Err::<Seq<Seq<char>>, Seq<char>>(
                    dec(w as nat) + " W is out of range for "@ + info.key + ": "@ + dec(info.min as nat) + "–"@
                        + dec(info.max as nat) + " W"@,
                ),
                v,
            )
        }),
{
}

/// The same refusal in the words of the command line: when the machine's
/// first power limit with key `ppt_key(a)` has a range that excludes `w`,
/// `ppt <key or directory name> <w>` fails with
/// `<w> W is out of range for <key>: <min>–<max> W` and writes nothing, and
/// the plan made from a list read through the daemon refuses it alike, so
/// no `SetPpt` is sent.
pub proof fn lemma_ppt_out_of_range_named(v: SysView, a: PptAttr, attr: Seq<char>, w: u32)
    requires
        attr == ppt_key(a) || attr == ppt_dir(a),
        find_key(list_all_spec(v), ppt_key(a)) is Some,
        !(find_key(list_all_spec(v), ppt_key(a))->Some_0.min <= w <= find_key(list_all_spec(v), ppt_key(a))->Some_0.max),
    ensures
        ({
            let info = find_key(list_all_spec(v), ppt_key(a))->Some_0;
            let msg = dec(w as nat) + " W is out of range for "@ + ppt_key(a) + ": "@ + dec(info.min as nat)
                + "–"@ + dec(info.max as nat) + " W"@;
            &&& ppt_spec(v, Some(attr), Some(w)) == (Err::<Seq<Seq<char>>, Seq<char>>(msg), v)
            &&& ppt_plan_spec(list_all_spec(v), Some(attr), Some(w)) == Err::<PptPlanView, Seq<char>>(msg)
        }),
{
    lemma_key_round_trip(a);
    lemma_find_key_found(list_all_spec(v), ppt_key(a));
}

/// What `find_key` finds has the key looked for, and comes from a nonempty
/// list.
proof fn lemma_find_key_found(vs: Seq<AttrInfoView>, key: Seq<char>)
    ensures
        find_key(vs, key) matches Some(x) ==> x.key == key && vs.len() > 0,
    decreases vs.len(),
{
    if vs.len() > 0 {
        lemma_find_key_found(vs.drop_first(), key);
    }
}

/// A power limit is named alike by its short key and by its firmware
/// directory name: both pick the same attribute.
pub proof fn lemma_ppt_names_agree(all: Seq<AttrInfoView>, a: PptAttr)
    ensures
        select_ppt_spec(all, ppt_key(a)) is Ok <==> select_ppt_spec(all, ppt_dir(a)) is Ok,
        select_ppt_spec(all, ppt_key(a)) is Ok ==> select_ppt_spec(all, ppt_key(a)) == select_ppt_spec(
            all,
            ppt_dir(a),
        ),
{
    lemma_key_round_trip(a);
}

/// Reading never writes, and a command whose argument is refused — an
/// unknown profile or charge mode, a word that is not on/off, a backlight
/// level above the maximum, a power limit outside the firmware's range —
/// writes nothing either.
pub proof fn lemma_refusals_write_nothing(
    v: SysView,
    x: Seq<char>,
    k: ToggleKind,
    level: u32,
    attr: Seq<char>,
    w: u32,
)
    ensures
        profile_spec(v, None).1 == v,
        battery_spec(v, None).1 == v,
        toggle_spec(v, k, None).1 == v,
        backlight_spec(v, None).1 == v,
        ppt_spec(v, Some(attr), None).1 == v,
        from_user_spec(x) is Err ==> profile_spec(v, Some(x)) == (
            Err::<Seq<char>, Seq<char>>(describe_hw_spec(from_user_spec(x)->Err_0)),
            v,
        ),
        cm_from_user_spec(x) is Err ==> battery_spec(v, Some(x)).1 == v,
        parse_on_off_spec(x) is Err ==> toggle_spec(v, k, Some(x)) == (
            Err::<Seq<char>, Seq<char>>(parse_on_off_spec(x)->Err_0),
            v,
        ),
        level > cli_max(v) ==> backlight_spec(v, Some(level)) == (
            Err::<Seq<char>, Seq<char>>(backlight_range_spec(level, cli_max(v))),
            v,
        ),
        (match select_ppt_spec(list_all_spec(v), attr) {
            Ok(info) => !(info.min <= w && w <= info.max) && list_all_spec(v).len() > 0 ==> ppt_spec(
                v,
                Some(attr),
                Some(w),
            ) == (Err::<Seq<Seq<char>>, Seq<char>>(range_msg(w, info)), v),
            Err(_) => ppt_spec(v, Some(attr), Some(w)).1 == v,
        }),
{
}

} // verus!
