//! Platform profile (power mode) over `/sys/class/platform-profile/`.
//!
//! The device this module drives is discovered *by name*, never by index. The
//! kernel numbers `platform-profile-N` in registration order, and more than one
//! handler can be registered at once: installing the out-of-tree
//! LenovoLegionLinux `legion_laptop` module adds a second handler named
//! `lenovo-legion` alongside the upstream `lenovo-wmi-gamezone` one. Module
//! load order is not guaranteed across boots, so `platform-profile-0` is not a
//! stable identifier. [`device_dir`] therefore scans the class and picks the
//! directory whose `name` reads `lenovo-wmi-gamezone`.
//!
//! Driver `lenovo-wmi-gamezone`. `choices` on the 82WM reads
//! `low-power balanced performance max-power custom`.

use vstd::prelude::*;

use crate::error::{rv, rvv, HwError, HwErrorView};
use crate::sysfs::{
    find_named, first_named, lemma_first_named_found, lemma_first_named_frame, lemma_leaf_differs,
    lemma_write_keeps_paths, lemma_write_reads, list_dir_of, subpath, SysRoot, SysView,
};
use crate::text::{
    cat, debug_quoted, is_ws, join, lemma_trim_plain, lower, lowered, split_words, str_debug, str_eq, trim,
    trimmed, words,
};

verus! {

pub const CLASS_DIR: &'static str = "sys/class/platform-profile";

/// `name` of the upstream handler this toolkit targets.
pub const GAMEZONE: &'static str = "lenovo-wmi-gamezone";

/// The power modes this laptop exposes, in the order Lenovo presents them.
#[derive(Debug, Clone, Copy, PartialEq, Eq, Structural)]
pub enum PowerProfile {
    Quiet,
    Balanced,
    Performance,
    Extreme,
    Custom,
}

/// Power-button LED colour associated with a profile.
#[derive(Debug, Clone, Copy, PartialEq, Eq, Structural)]
pub enum LedColor {
    Blue,
    White,
    Red,
    Purple,
}

/// The kernel's string for a profile.
pub open spec fn sysfs_name(p: PowerProfile) -> Seq<char> {
    match p {
        PowerProfile::Quiet => "low-power"@,
        PowerProfile::Balanced => "balanced"@,
        PowerProfile::Performance => "performance"@,
        PowerProfile::Extreme => "max-power"@,
        PowerProfile::Custom => "custom"@,
    }
}

/// The name shown in the UI.
pub open spec fn label_of(p: PowerProfile) -> Seq<char> {
    match p {
        PowerProfile::Quiet => "Quiet"@,
        PowerProfile::Balanced => "Balanced"@,
        PowerProfile::Performance => "Performance"@,
        PowerProfile::Extreme => "Extreme"@,
        PowerProfile::Custom => "Custom"@,
    }
}

/// Lenovo's LED colour for a profile.
pub open spec fn led_of(p: PowerProfile) -> LedColor {
    match p {
        PowerProfile::Quiet => LedColor::Blue,
        PowerProfile::Balanced => LedColor::White,
        PowerProfile::Performance => LedColor::Red,
        PowerProfile::Extreme | PowerProfile::Custom => LedColor::Purple,
    }
}

/// `#rrggbb` of an LED colour.
pub open spec fn hex_of(c: LedColor) -> Seq<char> {
    match c {
        LedColor::Blue => "#3b82f6"@,
        LedColor::White => "#e5e7eb"@,
        LedColor::Red => "#ef4444"@,
        LedColor::Purple => "#a855f7"@,
    }
}

/// The profile whose kernel string is `s`.
pub open spec fn parse_sysfs(s: Seq<char>) -> Option<PowerProfile> {
    if s == sysfs_name(PowerProfile::Quiet) {
        Some(PowerProfile::Quiet)
    } else if s == sysfs_name(PowerProfile::Balanced) {
        Some(PowerProfile::Balanced)
    } else if s == sysfs_name(PowerProfile::Performance) {
        Some(PowerProfile::Performance)
    } else if s == sysfs_name(PowerProfile::Extreme) {
        Some(PowerProfile::Extreme)
    } else if s == sysfs_name(PowerProfile::Custom) {
        Some(PowerProfile::Custom)
    } else {
        None
    }
}

/// `p` answers to the normalised user input `t`.
pub open spec fn user_matches(p: PowerProfile, t: Seq<char>) -> bool {
    sysfs_name(p) == t || lower(label_of(p)) == t
}

/// The normal form of user input: trimmed and lower-cased.
pub open spec fn user_norm(s: Seq<char>) -> Seq<char> {
    lower(trim(s))
}

/// The first profile (in display order) that answers to user input `s`.
pub open spec fn parse_user(s: Seq<char>) -> Option<PowerProfile> {
    let t = user_norm(s);
    if user_matches(PowerProfile::Quiet, t) {
        Some(PowerProfile::Quiet)
    } else if user_matches(PowerProfile::Balanced, t) {
        Some(PowerProfile::Balanced)
    } else if user_matches(PowerProfile::Performance, t) {
        Some(PowerProfile::Performance)
    } else if user_matches(PowerProfile::Extreme, t) {
        Some(PowerProfile::Extreme)
    } else if user_matches(PowerProfile::Custom, t) {
        Some(PowerProfile::Custom)
    } else {
        None
    }
}

/// What `from_sysfs` gives for `s`.
pub open spec fn from_sysfs_spec(s: Seq<char>) -> Result<PowerProfile, HwErrorView> {
    match parse_sysfs(s) {
        Some(p) => Ok(p),
        None => Err(HwErrorView::Parse("unknown platform profile "@ + str_debug(s))),
    }
}

/// What `from_user` gives for `s`.
pub open spec fn from_user_spec(s: Seq<char>) -> Result<PowerProfile, HwErrorView> {
    match parse_user(s) {
        Some(p) => Ok(p),
        None => Err(HwErrorView::Parse("unknown power profile "@ + str_debug(user_norm(s)))),
    }
}

impl PowerProfile {
    /// Every variant, in display order.
    pub const ALL: [PowerProfile; 5] = [
        PowerProfile::Quiet,
        PowerProfile::Balanced,
        PowerProfile::Performance,
        PowerProfile::Extreme,
        PowerProfile::Custom,
    ];

    /// The kernel's string for this profile.
    pub fn as_sysfs(self) -> (r: &'static str)
        ensures
            r@ == sysfs_name(self),
    {
        match self {
            PowerProfile::Quiet => "low-power",
            PowerProfile::Balanced => "balanced",
            PowerProfile::Performance => "performance",
            PowerProfile::Extreme => "max-power",
            PowerProfile::Custom => "custom",
        }
    }

    /// The name shown in the UI.
    pub fn label(self) -> (r: &'static str)
        ensures
            r@ == label_of(self),
    {
        match self {
            PowerProfile::Quiet => "Quiet",
            PowerProfile::Balanced => "Balanced",
            PowerProfile::Performance => "Performance",
            PowerProfile::Extreme => "Extreme",
            PowerProfile::Custom => "Custom",
        }
    }

    /// The colour Lenovo's power-button LED shows in this mode. The tray uses
    /// it to tint its status dot.
    pub fn led_color(self) -> (r: LedColor)
        ensures
            r == led_of(self),
    {
        match self {
            PowerProfile::Quiet => LedColor::Blue,
            PowerProfile::Balanced => LedColor::White,
            PowerProfile::Performance => LedColor::Red,
            PowerProfile::Extreme | PowerProfile::Custom => LedColor::Purple,
        }
    }

    /// Parse a kernel profile string.
    pub fn from_sysfs(s: &str) -> (r: Result<PowerProfile, HwError>)
        ensures
            rv(r) == from_sysfs_spec(s@),
    {
        if str_eq(s, "low-power") {
            Ok(PowerProfile::Quiet)
        } else if str_eq(s, "balanced") {
            Ok(PowerProfile::Balanced)
        } else if str_eq(s, "performance") {
            Ok(PowerProfile::Performance)
        } else if str_eq(s, "max-power") {
            Ok(PowerProfile::Extreme)
        } else if str_eq(s, "custom") {
            Ok(PowerProfile::Custom)
        } else {
            let q = debug_quoted(s);
            Err(HwError::Parse(cat("unknown platform profile ", q.as_str())))
        }
    }

    /// Does this profile answer to the normalised user input `t`?
    fn answers_to(self, t: &str) -> (r: bool)
        ensures
            r == user_matches(self, t@),
    {
        if str_eq(self.as_sysfs(), t) {
            return true;
        }
        let l = lowered(self.label());
        str_eq(l.as_str(), t)
    }

    /// Parse a user-supplied name — accepts both the kernel spelling and the
    /// friendly label (case-insensitive), so `legion-ctl profile extreme` and
    /// `legion-ctl profile max-power` both work.
    pub fn from_user(s: &str) -> (r: Result<PowerProfile, HwError>)
        ensures
            rv(r) == from_user_spec(s@),
    {
        let t0 = trimmed(s);
        let t = lowered(t0.as_str());
        if PowerProfile::Quiet.answers_to(t.as_str()) {
            Ok(PowerProfile::Quiet)
        } else if PowerProfile::Balanced.answers_to(t.as_str()) {
            Ok(PowerProfile::Balanced)
        } else if PowerProfile::Performance.answers_to(t.as_str()) {
            Ok(PowerProfile::Performance)
        } else if PowerProfile::Extreme.answers_to(t.as_str()) {
            Ok(PowerProfile::Extreme)
        } else if PowerProfile::Custom.answers_to(t.as_str()) {
            Ok(PowerProfile::Custom)
        } else {
            let q = debug_quoted(t.as_str());
            Err(HwError::Parse(cat("unknown power profile ", q.as_str())))
        }
    }
}

impl LedColor {
    /// `#rrggbb`, for the GUI and the tray icon renderer.
    pub fn hex(self) -> (r: &'static str)
        ensures
            r@ == hex_of(self),
    {
        match self {
            LedColor::Blue => "#3b82f6",
            LedColor::White => "#e5e7eb",
            LedColor::Red => "#ef4444",
            LedColor::Purple => "#a855f7",
        }
    }
}

/// The platform-profile device directory: the first device (in name order)
/// whose `name` reads `lenovo-wmi-gamezone`, else the first device, else none.
pub open spec fn device_dir_spec(v: SysView) -> Option<Seq<char>> {
    let es = v.listing(CLASS_DIR@);
    match first_named(v, CLASS_DIR@, es, GAMEZONE@) {
        Some(d) => Some(d),
        None => if es.len() > 0 {
            Some(subpath(CLASS_DIR@, es[0]))
        } else {
            None
        },
    }
}

/// The `profile` attribute of the device.
pub open spec fn profile_file_spec(v: SysView) -> Option<Seq<char>> {
    match device_dir_spec(v) {
        Some(d) => Some(subpath(d, "profile"@)),
        None => None,
    }
}

/// The profiles named by a list of kernel strings, or the error for the
/// first that names none.
pub open spec fn parse_all(ws: Seq<Seq<char>>) -> Result<Seq<PowerProfile>, HwErrorView>
    decreases ws.len(),
{
    if ws.len() == 0 {
        Ok(seq![])
    } else {
        match from_sysfs_spec(ws[0]) {
            Err(e) => Err(e),
            Ok(p) => match parse_all(ws.drop_first()) {
                Ok(rest) => Ok(seq![p] + rest),
                Err(e) => Err(e),
            },
        }
    }
}

/// What `choices` gives.
pub open spec fn choices_spec(v: SysView) -> Result<Seq<PowerProfile>, HwErrorView> {
    match device_dir_spec(v) {
        None => Err(HwErrorView::NotSupported),
        Some(d) => match v.read(subpath(d, "choices"@)) {
            Err(e) => Err(e),
            Ok(raw) => parse_all(words(raw)),
        },
    }
}

/// What `get` gives.
pub open spec fn get_spec(v: SysView) -> Result<PowerProfile, HwErrorView> {
    match profile_file_spec(v) {
        None => Err(HwErrorView::NotSupported),
        Some(f) => match v.read(f) {
            Err(e) => Err(e),
            Ok(raw) => from_sysfs_spec(raw),
        },
    }
}

/// What `set` reports.
pub open spec fn set_result(v: SysView) -> Result<(), HwErrorView> {
    match profile_file_spec(v) {
        None => Err(HwErrorView::NotSupported),
        Some(f) => v.write_result(f),
    }
}

/// The tree after `set`.
pub open spec fn after_set(v: SysView, p: PowerProfile) -> SysView {
    match profile_file_spec(v) {
        None => v,
        Some(f) => v.after_write(f, sysfs_name(p)),
    }
}

/// The platform-profile device directory to drive, relative to the
/// [`SysRoot`] (e.g. `sys/class/platform-profile/platform-profile-1`).
///
/// Prefers the device whose `name` is `lenovo-wmi-gamezone`. When no device
/// carries that name — a machine without the upstream driver, or a fake tree
/// that omits `name` — the lexicographically first device is used, which is
/// the historical `platform-profile-0` behaviour. `None` means the class is
/// absent or empty, i.e. no platform-profile support.
pub fn device_dir(root: &SysRoot) -> (r: Option<String>)
    ensures
        match r {
            Some(d) => device_dir_spec(root@) == Some(d@),
            None => device_dir_spec(root@) is None,
        },
{
    let entries = list_dir_of(root, CLASS_DIR);
    match find_named(root, CLASS_DIR, GAMEZONE) {
        Some(d) => Some(d),
        None => {
            if entries.len() > 0 {
                Some(join(CLASS_DIR, entries[0].as_str()))
            } else {
                None
            }
        },
    }
}

/// Resolved path of the `profile` file — also used by the POLLPRI watcher.
pub fn profile_file(root: &SysRoot) -> (r: Option<String>)
    ensures
        match r {
            Some(f) => profile_file_spec(root@) == Some(f@),
            None => profile_file_spec(root@) is None,
        },
{
    match device_dir(root) {
        Some(d) => Some(join(d.as_str(), "profile")),
        None => None,
    }
}

/// Is the platform-profile interface present at all?
pub fn available(root: &SysRoot) -> (r: bool)
    ensures
        r == match profile_file_spec(root@) {
            Some(f) => root@.has_path(f),
            None => false,
        },
{
    match profile_file(root) {
        Some(f) => root.path_exists(f.as_str()),
        None => false,
    }
}

/// The driver backing the platform-profile device (`lenovo-wmi-gamezone`).
pub fn driver_name(root: &SysRoot) -> (r: Option<String>)
    ensures
        match r {
            Some(n) => device_dir_spec(root@) is Some && root@.read_opt(
                subpath(device_dir_spec(root@)->0, "name"@),
            ) == Some(n@),
            None => device_dir_spec(root@) is None || root@.read_opt(
                subpath(device_dir_spec(root@)->0, "name"@),
            ) is None,
        },
{
    let dir = device_dir(root)?;
    root.read_opt(join(dir.as_str(), "name").as_str())
}

/// Profiles this machine's firmware advertises, in kernel order.
pub fn choices(root: &SysRoot) -> (r: Result<Vec<PowerProfile>, HwError>)
    ensures
        rvv(r) == choices_spec(root@),
{
    let dir = match device_dir(root) {
        Some(d) => d,
        None => return Err(HwError::NotSupported),
    };
    let raw = root.read(join(dir.as_str(), "choices").as_str())?;
    let ws = split_words(raw.as_str());
    let ghost all = words(raw@);
    let mut out: Vec<PowerProfile> = Vec::new();
    let mut i: usize = 0;
    proof {
        assert(all.skip(0) =~= all);
        assert(seq![] + all =~= all);
    }
    while i < ws.len()
        invariant
            i <= ws@.len() == all.len(),
            all == words(raw@),
            choices_spec(root@) == parse_all(all),
            forall|k: int| 0 <= k < ws@.len() ==> #[trigger] ws@[k]@ == all[k],
            parse_all(all) == match parse_all(all.skip(i as int)) {
                Ok(rest) => Ok(out@ + rest),
                Err(e) => Err(e),
            },
        decreases ws.len() - i,
    {
        proof {
            let t = all.skip(i as int);
            assert(t[0] == all[i as int]);
            assert(t.drop_first() =~= all.skip(i + 1));
        }
        match PowerProfile::from_sysfs(ws[i].as_str()) {
            Ok(p) => {
                proof {
                    let t = all.skip(i as int);
                    match parse_all(all.skip(i + 1)) {
                        Ok(rest) => {
                            assert(out@.push(p) + rest =~= out@ + (seq![p] + rest));
                        },
                        Err(_) => {},
                    }
                }
                out.push(p);
            },
            Err(e) => {
                proof {
                    let t = all.skip(i as int);
                    assert(from_sysfs_spec(t[0]) == Err::<PowerProfile, HwErrorView>(e@));
                    assert(parse_all(t) == Err::<Seq<PowerProfile>, HwErrorView>(e@));
                }
                return Err(e);
            },
        }
        i = i + 1;
    }
    proof {
        assert(all.skip(i as int) =~= Seq::<Seq<char>>::empty());
        assert(out@ + Seq::<PowerProfile>::empty() =~= out@);
    }
    Ok(out)
}

/// The active profile.
pub fn get(root: &SysRoot) -> (r: Result<PowerProfile, HwError>)
    ensures
        rv(r) == get_spec(root@),
{
    let file = match profile_file(root) {
        Some(f) => f,
        None => return Err(HwError::NotSupported),
    };
    let raw = root.read(file.as_str())?;
    PowerProfile::from_sysfs(raw.as_str())
}

/// Switch profile.
pub fn set(root: &mut SysRoot, profile: PowerProfile) -> (r: Result<(), HwError>)
    ensures
        rv(r) == set_result(old(root)@),
        final(root)@ == after_set(old(root)@, profile),
{
    let file = match profile_file(root) {
        Some(f) => f,
        None => return Err(HwError::NotSupported),
    };
    root.write(file.as_str(), profile.as_sysfs())
}

/// Every profile's kernel string parses back to that profile.
pub proof fn lemma_kernel_name_round_trip(p: PowerProfile)
    ensures
        from_sysfs_spec(sysfs_name(p)) == Ok::<PowerProfile, HwErrorView>(p),
{
    reveal_strlit("low-power");
    reveal_strlit("balanced");
    reveal_strlit("performance");
    reveal_strlit("max-power");
    reveal_strlit("custom");
    assert("low-power"@.len() == 9 && "balanced"@.len() == 8 && "performance"@.len() == 11);
    assert("max-power"@.len() == 9 && "custom"@.len() == 6);
    assert("low-power"@ != "max-power"@) by {
        assert("low-power"@[0] != "max-power"@[0]);
    }
}

proof fn lemma_names_plain(p: PowerProfile)
    ensures
        trim(sysfs_name(p)) == sysfs_name(p),
        trim(label_of(p)) == label_of(p),
        lower(sysfs_name(p)) == sysfs_name(p),
        lower(label_of(p)).len() == label_of(p).len(),
{
    reveal_strlit("low-power");
    reveal_strlit("balanced");
    reveal_strlit("performance");
    reveal_strlit("max-power");
    reveal_strlit("custom");
    reveal_strlit("Quiet");
    reveal_strlit("Balanced");
    reveal_strlit("Performance");
    reveal_strlit("Extreme");
    reveal_strlit("Custom");
    let n = sysfs_name(p);
    let l = label_of(p);
    assert forall|i: int| 0 <= i < n.len() implies !is_ws(#[trigger] n[i]) by {}
    assert forall|i: int| 0 <= i < l.len() implies !is_ws(#[trigger] l[i]) by {}
    lemma_trim_plain(n);
    lemma_trim_plain(l);
    assert(lower(n) =~= n);
}

/// User input accepts each profile's label and its kernel string.
pub proof fn lemma_user_names(p: PowerProfile)
    ensures
        from_user_spec(label_of(p)) == Ok::<PowerProfile, HwErrorView>(p),
        from_user_spec(sysfs_name(p)) == Ok::<PowerProfile, HwErrorView>(p),
{
    reveal_strlit("low-power");
    reveal_strlit("balanced");
    reveal_strlit("performance");
    reveal_strlit("max-power");
    reveal_strlit("custom");
    reveal_strlit("Quiet");
    reveal_strlit("Balanced");
    reveal_strlit("Performance");
    reveal_strlit("Extreme");
    reveal_strlit("Custom");
    lemma_names_plain(PowerProfile::Quiet);
    lemma_names_plain(PowerProfile::Balanced);
    lemma_names_plain(PowerProfile::Performance);
    lemma_names_plain(PowerProfile::Extreme);
    lemma_names_plain(PowerProfile::Custom);
    assert("low-power"@[0] != "max-power"@[0]);
}

/// Setting a profile and reading the profile back gives the profile set; a
/// refused set leaves the tree as it was.
pub proof fn lemma_set_then_get(v: SysView, p: PowerProfile)
    ensures
        set_result(v) is Ok ==> get_spec(after_set(v, p)) == Ok::<PowerProfile, HwErrorView>(p),
        set_result(v) is Err ==> after_set(v, p) == v,
{
    if let Some(f) = profile_file_spec(v) {
        let val = sysfs_name(p);
        let w = v.after_write(f, val);
        let d = device_dir_spec(v)->0;
        let es = v.listing(CLASS_DIR@);
        lemma_write_keeps_paths(v, f, val);
        assert(w.listing(CLASS_DIR@) == es);
        reveal_strlit("name");
        reveal_strlit("profile");
        assert("name"@ != "profile"@) by {
            assert("name"@.len() != "profile"@.len());
        }
        assert forall|i: int|
            0 <= i < es.len() implies w.read_opt(subpath(subpath(CLASS_DIR@, #[trigger] es[i]), "name"@))
                == v.read_opt(subpath(subpath(CLASS_DIR@, es[i]), "name"@)) by {
            lemma_leaf_differs(subpath(CLASS_DIR@, es[i]), d, "name"@, "profile"@);
            lemma_write_reads(v, f, val, subpath(subpath(CLASS_DIR@, es[i]), "name"@));
        }
        lemma_first_named_frame(w, v, CLASS_DIR@, es, GAMEZONE@);
        assert(device_dir_spec(w) == device_dir_spec(v));
        lemma_write_reads(v, f, val, f);
        lemma_names_plain(p);
        lemma_kernel_name_round_trip(p);
    }
}

/// When some platform-profile device is named `lenovo-wmi-gamezone`, the
/// device driven is one with that name, whatever its index.
pub proof fn lemma_device_by_name(v: SysView)
    requires
        exists|i: int|
            0 <= i < v.listing(CLASS_DIR@).len() && v.read_opt(
                subpath(subpath(CLASS_DIR@, #[trigger] v.listing(CLASS_DIR@)[i]), "name"@),
            ) == Some(GAMEZONE@),
    ensures
        device_dir_spec(v) is Some,
        v.read_opt(subpath(device_dir_spec(v)->0, "name"@)) == Some(GAMEZONE@),
{
    lemma_first_named_found(v, CLASS_DIR@, v.listing(CLASS_DIR@), GAMEZONE@);
}

/// Writing a file whose last component is neither `name` nor `profile`
/// leaves the platform-profile device, and the profile it reads, as they
/// were.
pub proof fn lemma_get_frame(v: SysView, dir: Seq<char>, leaf: Seq<char>, val: Seq<char>)
    requires
        forall|i: int| 0 <= i < leaf.len() ==> #[trigger] leaf[i] != '/',
        leaf != "name"@,
        leaf != "profile"@,
    ensures
        profile_file_spec(v.after_write(subpath(dir, leaf), val)) == profile_file_spec(v),
        get_spec(v.after_write(subpath(dir, leaf), val)) == get_spec(v),
{
    let f = subpath(dir, leaf);
    let w = v.after_write(f, val);
    let es = v.listing(CLASS_DIR@);
    lemma_write_keeps_paths(v, f, val);
    assert(w.listing(CLASS_DIR@) == es);
    reveal_strlit("name");
    reveal_strlit("profile");
    assert forall|i: int|
        0 <= i < es.len() implies w.read_opt(subpath(subpath(CLASS_DIR@, #[trigger] es[i]), "name"@))
            == v.read_opt(subpath(subpath(CLASS_DIR@, es[i]), "name"@)) by {
        lemma_leaf_differs(subpath(CLASS_DIR@, es[i]), dir, "name"@, leaf);
        lemma_write_reads(v, f, val, subpath(subpath(CLASS_DIR@, es[i]), "name"@));
    }
    lemma_first_named_frame(w, v, CLASS_DIR@, es, GAMEZONE@);
    assert(device_dir_spec(w) == device_dir_spec(v));
    if let Some(d) = device_dir_spec(v) {
        lemma_leaf_differs(d, dir, "profile"@, leaf);
        lemma_write_reads(v, f, val, subpath(d, "profile"@));
    }
}

} // verus!
