//! The daemon's decisions: the persisted state it restores, the errors it
//! answers with, and what each method of `org.legiontoolkit.Daemon1` does to
//! the hardware and to the state.
//!
//! Firmware forgets the battery charge mode and the PPT power limits across
//! reboots and suspend/resume, so the daemon records what the user last asked
//! for and reapplies it on start and on resume. The profile is recorded too —
//! reapplying it is cheap and harmless, and it keeps the three settings
//! consistent.

use vstd::prelude::*;

use crate::battery::{self, cm_from_sysfs_spec, cm_from_user_spec, cm_sysfs, ct_file, ChargeMode};
use crate::ctl::{ppt_dir_of, ppt_key_of, resolve_ppt_dir, resolve_ppt_key};
use crate::error::{message_spec, rv, HwError, HwErrorView};
use crate::firmware_attrs::{
    self, attr_base, current_file, lemma_attr_frame, lemma_other_limit_frame, lemma_outside_attrs, lemma_write_then_read,
    ppt_dir, ppt_parse, read_by_name_spec, PptAttr,
};
use crate::ideapad::{self, FanMode, Toggle};
use crate::kbd_backlight;
use crate::profile::{
    self, from_sysfs_spec, from_user_spec, get_spec, lemma_get_frame, lemma_kernel_name_round_trip,
    lemma_set_then_get, parse_sysfs, sysfs_name, PowerProfile,
};
use crate::sysfs::{lemma_first_named_found, lemma_write_keeps_paths, subpath, EntryView, SysRoot, SysView};
use crate::text::{cat, chars_eq, chars_lt, chars_of, lemma_lt_irreflexive, lemma_lt_total, lemma_lt_transitive, owned, seq_lt};

verus! {

/// Where the daemon persists state when running as a system service.
/// `StateDirectory=legiond` in the unit file creates and owns this.
pub const DEFAULT_STATE_PATH: &'static str = "/var/lib/legiond/state.json";

/// The polkit action gating every `Set*` method.
pub const ACTION_ID: &'static str = "org.legiontoolkit.control";

/// Well-known bus name.
pub const BUS_NAME: &'static str = "org.legiontoolkit.Daemon";

/// Object path.
pub const OBJECT_PATH: &'static str = "/org/legiontoolkit/Daemon";

/// Interface name.
pub const IFACE_NAME: &'static str = "org.legiontoolkit.Daemon1";

// ───────────────────────────── state ─────────────────────────────

/// The settings worth restoring.
pub struct State {
    profile: Option<String>,
    battery_mode: Option<String>,
    ppt: Vec<(String, u32)>,
}

/// The state as the contracts see it: the recorded profile and charge type
/// (kernel strings) and the power limits in watts, by key, sorted by key.
pub struct StateView {
    pub profile: Option<Seq<char>>,
    pub battery_mode: Option<Seq<char>>,
    pub ppt: Seq<(Seq<char>, u32)>,
}

/// The keys are strictly increasing.
pub open spec fn keys_sorted(s: Seq<(Seq<char>, u32)>) -> bool {
    forall|i: int, j: int| 0 <= i < j < s.len() ==> seq_lt(#[trigger] s[i].0, #[trigger] s[j].0)
}

/// `s` with the entry for `k` set to `w` (added in key order when absent).
pub open spec fn ppt_insert(s: Seq<(Seq<char>, u32)>, k: Seq<char>, w: u32) -> Seq<(Seq<char>, u32)>
    decreases s.len(),
{
    if s.len() == 0 {
        seq![(k, w)]
    } else if s[0].0 == k {
        seq![(k, w)] + s.drop_first()
    } else if seq_lt(k, s[0].0) {
        seq![(k, w)] + s
    } else {
        seq![s[0]] + ppt_insert(s.drop_first(), k, w)
    }
}

/// The watts recorded for `k`.
pub open spec fn ppt_get(s: Seq<(Seq<char>, u32)>, k: Seq<char>) -> Option<u32>
    decreases s.len(),
{
    if s.len() == 0 {
        None
    } else if s[0].0 == k {
        Some(s[0].1)
    } else {
        ppt_get(s.drop_first(), k)
    }
}

/// `Some(s@)` of an optional string.
pub open spec fn osv(o: Option<String>) -> Option<Seq<char>> {
    match o {
        Some(s) => Some(s@),
        None => None,
    }
}

impl View for State {
    type V = StateView;

    closed spec fn view(&self) -> StateView {
        StateView {
            profile: osv(self.profile),
            battery_mode: osv(self.battery_mode),
            ppt: self.ppt@.map_values(|e: (String, u32)| (e.0@, e.1)),
        }
    }
}

/// Setting an entry: what is before its place stays, then the entry, then
/// what follows (without an entry of the same key).
proof fn lemma_ppt_insert_at(s: Seq<(Seq<char>, u32)>, k: Seq<char>, w: u32, i: int)
    requires
        keys_sorted(s),
        0 <= i <= s.len(),
        forall|j: int| 0 <= j < i ==> seq_lt(#[trigger] s[j].0, k),
        i == s.len() || !seq_lt(s[i].0, k),
    ensures
        ppt_insert(s, k, w) == if i < s.len() && s[i].0 == k {
            s.take(i) + seq![(k, w)] + s.skip(i + 1)
        } else {
            s.take(i) + seq![(k, w)] + s.skip(i)
        },
    decreases i,
{
    if i == 0 {
        if s.len() > 0 && s[0].0 != k {
            lemma_lt_total(s[0].0, k);
        }
        assert(s.take(0) + seq![(k, w)] + s.skip(1) =~= seq![(k, w)] + s.drop_first());
        assert(s.take(0) + seq![(k, w)] + s.skip(0) =~= seq![(k, w)] + s);
    } else {
        let t = s.drop_first();
        assert(seq_lt(s[0].0, k));
        lemma_lt_irreflexive(k);
        crate::text::lemma_lt_asymmetric(s[0].0, k);
        assert forall|a: int, b: int| 0 <= a < b < t.len() implies seq_lt(#[trigger] t[a].0, #[trigger] t[b].0) by {
            assert(t[a] == s[a + 1] && t[b] == s[b + 1]);
        }
        assert forall|j: int| 0 <= j < i - 1 implies seq_lt(#[trigger] t[j].0, k) by {
            assert(t[j] == s[j + 1]);
        }
        if i < s.len() {
            assert(t[i - 1] == s[i]);
        }
        lemma_ppt_insert_at(t, k, w, i - 1);
        if i < s.len() && s[i].0 == k {
            assert(seq![s[0]] + (t.take(i - 1) + seq![(k, w)] + t.skip(i)) =~= s.take(i) + seq![(k, w)]
                + s.skip(i + 1));
        } else {
            assert(seq![s[0]] + (t.take(i - 1) + seq![(k, w)] + t.skip(i - 1)) =~= s.take(i) + seq![(
                k,
                w,
            )] + s.skip(i));
        }
    }
}

impl State {
    #[verifier::type_invariant]
    spec fn inv(self) -> bool {
        keys_sorted(self.ppt@.map_values(|e: (String, u32)| (e.0@, e.1)))
    }

    /// Nothing recorded.
    pub fn new() -> (r: State)
        ensures
            r@.profile is None,
            r@.battery_mode is None,
            r@.ppt == Seq::<(Seq<char>, u32)>::empty(),
    {
        let r = State { profile: None, battery_mode: None, ppt: Vec::new() };
        assert(r@.ppt =~= Seq::<(Seq<char>, u32)>::empty());
        r
    }

    /// The recorded profile (kernel string).
    pub fn profile(&self) -> (r: Option<String>)
        ensures
            osv(r) == self@.profile,
    {
        match &self.profile {
            Some(p) => Some(owned(p.as_str())),
            None => None,
        }
    }

    /// The recorded charge type (kernel string).
    pub fn battery_mode(&self) -> (r: Option<String>)
        ensures
            osv(r) == self@.battery_mode,
    {
        match &self.battery_mode {
            Some(m) => Some(owned(m.as_str())),
            None => None,
        }
    }

    /// Record the profile.
    pub fn record_profile(&mut self, p: Option<&str>)
        ensures
            final(self)@.profile == match p {
                Some(s) => Some(s@),
                None => None::<Seq<char>>,
            },
            final(self)@.battery_mode == old(self)@.battery_mode,
            final(self)@.ppt == old(self)@.ppt,
    {
        proof {
            use_type_invariant(&*self);
        }
        self.profile = match p {
            Some(s) => Some(owned(s)),
            None => None,
        };
    }

    /// Record the charge type.
    pub fn record_battery_mode(&mut self, m: Option<&str>)
        ensures
            final(self)@.battery_mode == match m {
                Some(s) => Some(s@),
                None => None::<Seq<char>>,
            },
            final(self)@.profile == old(self)@.profile,
            final(self)@.ppt == old(self)@.ppt,
    {
        proof {
            use_type_invariant(&*self);
        }
        self.battery_mode = match m {
            Some(s) => Some(owned(s)),
            None => None,
        };
    }

    /// The recorded power limits, sorted by key.
    pub fn ppt_entries(&self) -> (r: Vec<(String, u32)>)
        ensures
            r@.map_values(|e: (String, u32)| (e.0@, e.1)) == self@.ppt,
            keys_sorted(self@.ppt),
    {
        proof {
            use_type_invariant(self);
        }
        let mut out: Vec<(String, u32)> = Vec::new();
        let mut i: usize = 0;
        while i < self.ppt.len()
            invariant
                i <= self.ppt@.len(),
                out@.len() == i,
                forall|k: int|
                    0 <= k < i ==> (#[trigger] out@[k]).0@ == self.ppt@[k].0@ && out@[k].1
                        == self.ppt@[k].1,
            decreases self.ppt.len() - i,
        {
            out.push((owned(self.ppt[i].0.as_str()), self.ppt[i].1));
            i = i + 1;
        }
        assert(out@.map_values(|e: (String, u32)| (e.0@, e.1)) =~= self@.ppt);
        out
    }

    /// Record a power limit.
    pub fn set_ppt(&mut self, key: &str, watts: u32)
        ensures
            final(self)@.ppt == ppt_insert(old(self)@.ppt, key@, watts),
            final(self)@.profile == old(self)@.profile,
            final(self)@.battery_mode == old(self)@.battery_mode,
    {
        proof {
            use_type_invariant(&*self);
        }
        let ghost s = self@.ppt;
        let kv = chars_of(key);
        let mut i: usize = 0;
        while i < self.ppt.len() && chars_lt(&chars_of(self.ppt[i].0.as_str()), &kv)
            invariant
                i <= self.ppt@.len(),
                s == self.ppt@.map_values(|e: (String, u32)| (e.0@, e.1)),
                kv@ == key@,
                forall|j: int| 0 <= j < i ==> seq_lt(#[trigger] s[j].0, key@),
            decreases self.ppt.len() - i,
        {
            i = i + 1;
        }
        let same = i < self.ppt.len() && chars_eq(&chars_of(self.ppt[i].0.as_str()), &kv);
        proof {
            lemma_ppt_insert_at(s, key@, watts, i as int);
        }
        let ghost ns = ppt_insert(s, key@, watts);
        let mut entries: Vec<(String, u32)> = Vec::new();
        std::mem::swap(&mut entries, &mut self.ppt);
        if same {
            entries.set(i, (owned(key), watts));
        } else {
            entries.insert(i, (owned(key), watts));
        }
        proof {
            assert(entries@.map_values(|e: (String, u32)| (e.0@, e.1)) =~= ns);
            if i < s.len() && !same {
                lemma_lt_total(s[i as int].0, key@);
            }
            assert forall|a: int, b: int| 0 <= a < b < ns.len() implies seq_lt(
                #[trigger] ns[a].0,
                #[trigger] ns[b].0,
            ) by {
                if same {
                    if a != i && b != i {
                        assert(ns[a] == s[a] && ns[b] == s[b]);
                    } else if a == i {
                        assert(ns[b] == s[b]);
                        assert(seq_lt(s[a].0, s[b].0));
                    } else {
                        assert(ns[a] == s[a]);
                    }
                } else {
                    if b < i {
                        assert(ns[a] == s[a] && ns[b] == s[b]);
                    } else if b == i {
                        assert(ns[a] == s[a]);
                    } else if a == i {
                        assert(ns[b] == s[b - 1]);
                        if b - 1 > i {
                            assert(seq_lt(s[i as int].0, s[b - 1].0));
                            lemma_lt_transitive(key@, s[i as int].0, s[b - 1].0);
                        }
                    } else if a < i {
                        assert(ns[a] == s[a] && ns[b] == s[b - 1]);
                        if b - 1 > i {
                            assert(seq_lt(s[i as int].0, s[b - 1].0));
                            lemma_lt_transitive(key@, s[i as int].0, s[b - 1].0);
                        }
                        lemma_lt_transitive(s[a].0, key@, s[b - 1].0);
                    } else {
                        assert(ns[a] == s[a - 1] && ns[b] == s[b - 1]);
                    }
                }
            }
        }
        self.ppt = entries;
    }

    /// Is there anything worth reapplying?
    pub fn is_empty(&self) -> (r: bool)
        ensures
            r == (self@.profile is None && self@.battery_mode is None && self@.ppt.len() == 0),
    {
        self.profile.is_none() && self.battery_mode.is_none() && self.ppt.len() == 0
    }
}

impl Default for State {
    fn default() -> (r: State)
        ensures
            r@.profile is None,
            r@.battery_mode is None,
            r@.ppt == Seq::<(Seq<char>, u32)>::empty(),
    {
        State::new()
    }
}

/// Resolve the state-file path, honouring an explicit override.
pub fn state_path(override_path: Option<String>) -> (r: String)
    ensures
        r@ == match override_path {
            Some(p) => p@,
            None => DEFAULT_STATE_PATH@,
        },
{
    match override_path {
        Some(p) => p,
        None => owned(DEFAULT_STATE_PATH),
    }
}

} // verus!

verus! {

// ───────────────────────────── errors ─────────────────────────────

/// Errors this daemon returns over D-Bus (under the error-name prefix
/// `org.legiontoolkit.Error`).
#[derive(Debug, Clone)]
pub enum DaemonError {
    /// A power-limit write was attempted while the profile is not `custom`.
    CustomModeRequired(String),
    /// This machine's kernel does not expose the requested interface.
    NotSupported(String),
    /// Polkit denied the caller.
    NotAuthorized(String),
    /// The daemon could not write the value (it runs as root, so this is
    /// unusual — a read-only sysfs or a driver refusing the value).
    PermissionDenied(String),
    /// Bad argument from the client.
    InvalidArgument(String),
    /// Anything else.
    Failed(String),
}

pub enum DaemonErrorView {
    CustomModeRequired(Seq<char>),
    NotSupported(Seq<char>),
    NotAuthorized(Seq<char>),
    PermissionDenied(Seq<char>),
    InvalidArgument(Seq<char>),
    Failed(Seq<char>),
}

impl View for DaemonError {
    type V = DaemonErrorView;

    open spec fn view(&self) -> DaemonErrorView {
        match self {
            DaemonError::CustomModeRequired(m) => DaemonErrorView::CustomModeRequired(m@),
            DaemonError::NotSupported(m) => DaemonErrorView::NotSupported(m@),
            DaemonError::NotAuthorized(m) => DaemonErrorView::NotAuthorized(m@),
            DaemonError::PermissionDenied(m) => DaemonErrorView::PermissionDenied(m@),
            DaemonError::InvalidArgument(m) => DaemonErrorView::InvalidArgument(m@),
            DaemonError::Failed(m) => DaemonErrorView::Failed(m@),
        }
    }
}

/// A daemon result taken by its error's view.
pub open spec fn drv<T>(r: Result<T, DaemonError>) -> Result<T, DaemonErrorView> {
    match r {
        Ok(v) => Ok(v),
        Err(e) => Err(e@),
    }
}

/// How a hardware failure is reported over D-Bus.
pub open spec fn daemon_error_of(e: HwErrorView) -> DaemonErrorView {
    match e {
        HwErrorView::Busy => DaemonErrorView::CustomModeRequired(
            "power limits can only be changed while the Custom profile is active"@,
        ),
        HwErrorView::NotSupported => DaemonErrorView::NotSupported(message_spec(e)),
        HwErrorView::PermissionDenied => DaemonErrorView::PermissionDenied(message_spec(e)),
        HwErrorView::Parse(_) => DaemonErrorView::InvalidArgument(message_spec(e)),
        HwErrorView::Io(_) => DaemonErrorView::Failed(message_spec(e)),
    }
}

/// A hardware result as a daemon result.
pub open spec fn lift<T>(r: Result<T, HwErrorView>) -> Result<T, DaemonErrorView> {
    match r {
        Ok(v) => Ok(v),
        Err(e) => Err(daemon_error_of(e)),
    }
}

impl DaemonError {
    /// How a hardware failure is reported over D-Bus. The interesting case
    /// is [`HwError::Busy`], which the kernel returns for a PPT write outside
    /// Custom mode: it gets its own error name, so a client can show "Switch
    /// to Custom mode first" rather than a generic failure.
    pub fn from_hw(e: HwError) -> (r: DaemonError)
        ensures
            r@ == daemon_error_of(e@),
    {
        let msg = e.message();
        match e {
            HwError::Busy => DaemonError::CustomModeRequired(
                owned("power limits can only be changed while the Custom profile is active"),
            ),
            HwError::NotSupported => DaemonError::NotSupported(msg),
            HwError::PermissionDenied => DaemonError::PermissionDenied(msg),
            HwError::Parse(_) => DaemonError::InvalidArgument(msg),
            HwError::Io(_) => DaemonError::Failed(msg),
        }
    }

    /// The D-Bus error name.
    pub fn name(&self) -> (r: &'static str)
        ensures
            r@ == match self@ {
                DaemonErrorView::CustomModeRequired(_) => "org.legiontoolkit.Error.CustomModeRequired"@,
                DaemonErrorView::NotSupported(_) => "org.legiontoolkit.Error.NotSupported"@,
                DaemonErrorView::NotAuthorized(_) => "org.legiontoolkit.Error.NotAuthorized"@,
                DaemonErrorView::PermissionDenied(_) => "org.legiontoolkit.Error.PermissionDenied"@,
                DaemonErrorView::InvalidArgument(_) => "org.legiontoolkit.Error.InvalidArgument"@,
                DaemonErrorView::Failed(_) => "org.legiontoolkit.Error.Failed"@,
            },
    {
        match self {
            DaemonError::CustomModeRequired(_) => "org.legiontoolkit.Error.CustomModeRequired",
            DaemonError::NotSupported(_) => "org.legiontoolkit.Error.NotSupported",
            DaemonError::NotAuthorized(_) => "org.legiontoolkit.Error.NotAuthorized",
            DaemonError::PermissionDenied(_) => "org.legiontoolkit.Error.PermissionDenied",
            DaemonError::InvalidArgument(_) => "org.legiontoolkit.Error.InvalidArgument",
            DaemonError::Failed(_) => "org.legiontoolkit.Error.Failed",
        }
    }
}

fn lift_unit(r: Result<(), HwError>) -> (out: Result<(), DaemonError>)
    ensures
        drv(out) == lift(rv(r)),
{
    match r {
        Ok(()) => Ok(()),
        Err(e) => Err(DaemonError::from_hw(e)),
    }
}

// ───────────────────────────── methods ─────────────────────────────

/// The state with `profile` recorded.
pub open spec fn with_profile(s: StateView, p: Seq<char>) -> StateView {
    StateView { profile: Some(p), battery_mode: s.battery_mode, ppt: s.ppt }
}

/// The state with `battery_mode` recorded.
pub open spec fn with_battery(s: StateView, m: Seq<char>) -> StateView {
    StateView { profile: s.profile, battery_mode: Some(m), ppt: s.ppt }
}

/// The state with a power limit recorded.
pub open spec fn with_ppt(s: StateView, k: Seq<char>, w: u32) -> StateView {
    StateView { profile: s.profile, battery_mode: s.battery_mode, ppt: ppt_insert(s.ppt, k, w) }
}

/// What `SetProfile(value)` answers, and the tree and state after it.
pub open spec fn set_profile_spec(v: SysView, s: StateView, value: Seq<char>) -> (
    Result<PowerProfile, DaemonErrorView>,
    SysView,
    StateView,
) {
    match from_user_spec(value) {
        Err(e) => (Err(daemon_error_of(e)), v, s),
        Ok(p) => match profile::set_result(v) {
            Err(e) => (Err(daemon_error_of(e)), profile::after_set(v, p), s),
            Ok(()) => (Ok(p), profile::after_set(v, p), with_profile(s, sysfs_name(p))),
        },
    }
}

/// `SetProfile`: parse the user's name, switch, and record the profile.
pub fn set_profile(root: &mut SysRoot, state: &mut State, value: &str) -> (r: Result<PowerProfile, DaemonError>)
    ensures
        (drv(r), final(root)@, final(state)@) == set_profile_spec(old(root)@, old(state)@, value@),
{
    let p = match PowerProfile::from_user(value) {
        Ok(p) => p,
        Err(e) => return Err(DaemonError::from_hw(e)),
    };
    match profile::set(root, p) {
        Err(e) => Err(DaemonError::from_hw(e)),
        Ok(()) => {
            state.record_profile(Some(p.as_sysfs()));
            Ok(p)
        },
    }
}

/// What `SetBatteryMode(value)` answers, and the tree and state after it.
pub open spec fn set_battery_spec(v: SysView, s: StateView, value: Seq<char>) -> (
    Result<ChargeMode, DaemonErrorView>,
    SysView,
    StateView,
) {
    match cm_from_user_spec(value) {
        Err(e) => (Err(daemon_error_of(e)), v, s),
        Ok(m) => match v.write_result(ct_file()) {
            Err(e) => (Err(daemon_error_of(e)), v, s),
            Ok(()) => (Ok(m), v.after_write(ct_file(), cm_sysfs(m)), with_battery(s, cm_sysfs(m))),
        },
    }
}

/// `SetBatteryMode`: parse the user's name, select the mode, and record it.
pub fn set_battery_mode(root: &mut SysRoot, state: &mut State, value: &str) -> (r: Result<ChargeMode, DaemonError>)
    ensures
        (drv(r), final(root)@, final(state)@) == set_battery_spec(old(root)@, old(state)@, value@),
{
    let m = match ChargeMode::from_user(value) {
        Ok(m) => m,
        Err(e) => return Err(DaemonError::from_hw(e)),
    };
    match battery::set_mode(root, m) {
        Err(e) => Err(DaemonError::from_hw(e)),
        Ok(()) => {
            state.record_battery_mode(Some(m.as_sysfs()));
            Ok(m)
        },
    }
}

/// `SetFnLock`, `SetCameraPower`, `SetUsbCharging`.
pub fn set_toggle(root: &mut SysRoot, t: Toggle, value: bool) -> (r: Result<(), DaemonError>)
    ensures
        drv(r) == lift(old(root)@.write_result(ideapad::dev_file(ideapad::toggle_attr(t)))),
        final(root)@ == old(root)@.after_write(
            ideapad::dev_file(ideapad::toggle_attr(t)),
            ideapad::bool_text(value),
        ),
{
    lift_unit(ideapad::set(root, t, value))
}

/// `SetKbdBacklight`.
pub fn set_kbd_backlight(root: &mut SysRoot, value: u32) -> (r: Result<(), DaemonError>)
    ensures
        drv(r) == lift(kbd_backlight::set_result(old(root)@, value)),
        final(root)@ == kbd_backlight::after_set(old(root)@, value),
{
    lift_unit(kbd_backlight::set(root, value))
}

/// `SetCpuBoost`.
pub fn set_cpu_boost(root: &mut SysRoot, value: bool) -> (r: Result<(), DaemonError>)
    ensures
        drv(r) == lift(old(root)@.write_result(crate::cpu::boost_file())),
        final(root)@ == old(root)@.after_write(crate::cpu::boost_file(), ideapad::bool_text(value)),
{
    lift_unit(crate::cpu::set_boost(root, value))
}

/// What `SetFanMode(value)` answers, and the tree after it.
pub open spec fn set_fan_mode_spec(v: SysView, value: u32) -> (Result<(), DaemonErrorView>, SysView) {
    match ideapad::fan_from_value_spec(value) {
        Err(e) => (Err(daemon_error_of(e)), v),
        Ok(m) => (
            lift(v.write_result(ideapad::fan_mode_file())),
            v.after_write(ideapad::fan_mode_file(), crate::text::dec(ideapad::fan_value(m) as nat)),
        ),
    }
}

/// `SetFanMode`: Super Silent / Standard / Dust Cleaning / Efficient
/// Thermal Dissipation, by driver value.
pub fn set_fan_mode(root: &mut SysRoot, value: u32) -> (r: Result<(), DaemonError>)
    ensures
        (drv(r), final(root)@) == set_fan_mode_spec(old(root)@, value),
{
    let m = match FanMode::from_value(value) {
        Ok(m) => m,
        Err(e) => return Err(DaemonError::from_hw(e)),
    };
    lift_unit(ideapad::set_fan_mode(root, m))
}

/// What `SetPpt(attr, watts)` answers, and the tree and state after it.
pub open spec fn set_ppt_spec(v: SysView, s: StateView, attr: Seq<char>, watts: u32) -> (
    Result<(), DaemonErrorView>,
    SysView,
    StateView,
) {
    match get_spec(v) {
        Err(e) => (Err(daemon_error_of(e)), v, s),
        Ok(cur) => if cur != PowerProfile::Custom {
            (
                Err(
                    DaemonErrorView::CustomModeRequired(
                        "power limits require the Custom profile; current profile is "@ + sysfs_name(cur),
                    ),
                ),
                v,
                s,
            )
        } else {
            let dir = ppt_dir_of(attr);
            match firmware_attrs::write_result(v, dir, watts) {
                Err(e) => (Err(daemon_error_of(e)), firmware_attrs::after_write(v, dir, watts), s),
                Ok(()) => (
                    Ok(()),
                    firmware_attrs::after_write(v, dir, watts),
                    with_ppt(s, ppt_key_of(attr), watts),
                ),
            }
        },
    }
}

/// `SetPpt`: set a power limit, in watts, and record it. Outside Custom mode
/// it answers `CustomModeRequired` itself, before any write, so the answer
/// does not depend on the driver returning `EBUSY`.
pub fn set_ppt(root: &mut SysRoot, state: &mut State, attr: &str, watts: u32) -> (r: Result<(), DaemonError>)
    ensures
        (drv(r), final(root)@, final(state)@) == set_ppt_spec(old(root)@, old(state)@, attr@, watts),
{
    let current = match profile::get(root) {
        Ok(p) => p,
        Err(e) => return Err(DaemonError::from_hw(e)),
    };
    if current != PowerProfile::Custom {
        return Err(
            DaemonError::CustomModeRequired(
                cat(
                    "power limits require the Custom profile; current profile is ",
                    current.as_sysfs(),
                ),
            ),
        );
    }
    let key = resolve_ppt_key(attr);
    let dir = resolve_ppt_dir(attr);
    match firmware_attrs::write_by_name(root, dir.as_str(), watts) {
        Err(e) => Err(DaemonError::from_hw(e)),
        Ok(()) => {
            state.set_ppt(key.as_str(), watts);
            Ok(())
        },
    }
}

/// The tree after restoring the recorded profile, if it names one.
pub open spec fn restore_profile(v: SysView, s: StateView) -> SysView {
    match s.profile {
        Some(p) => match parse_sysfs(p) {
            Some(pp) => profile::after_set(v, pp),
            None => v,
        },
        None => v,
    }
}

/// The tree after restoring the recorded charge type, if it names one.
pub open spec fn restore_battery(v: SysView, s: StateView) -> SysView {
    match s.battery_mode {
        Some(m) => match cm_from_sysfs_spec(m) {
            Ok(cm) => v.after_write(ct_file(), cm_sysfs(cm)),
            Err(_) => v,
        },
        None => v,
    }
}

/// The tree after restoring the recorded power limits, in key order;
/// entries whose key names no known limit are skipped, and failed writes
/// change nothing.
pub open spec fn restore_ppt(v: SysView, es: Seq<(Seq<char>, u32)>) -> SysView
    decreases es.len(),
{
    if es.len() == 0 {
        v
    } else {
        let next = match ppt_parse(es[0].0) {
            Some(a) => firmware_attrs::after_write(v, ppt_dir(a), es[0].1),
            None => v,
        };
        restore_ppt(next, es.drop_first())
    }
}

/// The tree after `reapply_state`.
pub open spec fn reapply_spec(v: SysView, s: StateView) -> SysView {
    restore_ppt(restore_battery(restore_profile(v, s), s), s.ppt)
}

/// Reapply everything in the persisted state.
///
/// Called at startup and after resume from sleep, because the firmware
/// forgets the battery mode and power limits. Failures are not fatal: a
/// machine may legitimately lack an interface it had before, and `EBUSY` on
/// the power limits is expected outside Custom mode.
pub fn reapply_state(root: &mut SysRoot, state: &State)
    ensures
        final(root)@ == reapply_spec(old(root)@, state@),
{
    match state.profile() {
        Some(p) => match PowerProfile::from_sysfs(p.as_str()) {
            Ok(parsed) => {
                let _ = profile::set(root, parsed);
            },
            Err(_) => {},
        },
        None => {},
    }
    match state.battery_mode() {
        Some(m) => match ChargeMode::from_sysfs(m.as_str()) {
            Ok(parsed) => {
                let _ = battery::set_mode(root, parsed);
            },
            Err(_) => {},
        },
        None => {},
    }
    let entries = state.ppt_entries();
    let ghost es = state@.ppt;
    let ghost start = root@;
    let mut i: usize = 0;
    proof {
        assert(es.skip(0) =~= es);
    }
    while i < entries.len()
        invariant
            i <= entries@.len() == es.len(),
            forall|k: int|
                0 <= k < entries@.len() ==> (#[trigger] entries@[k]).0@ == es[k].0 && entries@[k].1
                    == es[k].1,
            restore_ppt(start, es) == restore_ppt(root@, es.skip(i as int)),
        decreases entries.len() - i,
    {
        proof {
            let t = es.skip(i as int);
            assert(t[0] == es[i as int]);
            assert(t.drop_first() =~= es.skip(i + 1));
        }
        match PptAttr::from_key(entries[i].0.as_str()) {
            Ok(attr) => {
                let _ = firmware_attrs::write(root, attr, entries[i].1);
            },
            Err(_) => {},
        }
        i = i + 1;
    }
    proof {
        assert(es.skip(i as int) =~= Seq::<(Seq<char>, u32)>::empty());
        assert(entries@.len() == es.len()) by {
            assert(entries@.map_values(|e: (String, u32)| (e.0@, e.1)).len() == es.len());
        }
    }
}

// ───────────────────────────── properties ─────────────────────────────

/// `Ok` as the value, `Err` as the default.
pub open spec fn profile_property_spec(v: SysView) -> Seq<char> {
    match get_spec(v) {
        Ok(p) => sysfs_name(p),
        Err(_) => seq![],
    }
}

/// The `Profile` property: the active profile as the kernel string, empty
/// when it cannot be read.
pub fn profile_property(root: &SysRoot) -> (r: String)
    ensures
        r@ == profile_property_spec(root@),
{
    match profile::get(root) {
        Ok(p) => owned(p.as_sysfs()),
        Err(_) => String::new(),
    }
}

/// The `ProfileChoices` property: the advertised profiles as kernel
/// strings, in kernel order; empty when they cannot be read.
pub fn profile_choices_property(root: &SysRoot) -> (r: Vec<String>)
    ensures
        crate::sysfs::strings(r@) == match profile::choices_spec(root@) {
            Ok(ps) => ps.map_values(|p: PowerProfile| sysfs_name(p)),
            Err(_) => Seq::<Seq<char>>::empty(),
        },
{
    let mut out: Vec<String> = Vec::new();
    match profile::choices(root) {
        Ok(ps) => {
            let mut i: usize = 0;
            while i < ps.len()
                invariant
                    i <= ps@.len(),
                    crate::sysfs::strings(out@) == ps@.take(i as int).map_values(|p: PowerProfile| sysfs_name(p)),
                decreases ps.len() - i,
            {
                let t = owned(ps[i].as_sysfs());
                let ghost before = crate::sysfs::strings(out@);
                let ghost tv = t@;
                out.push(t);
                proof {
                    assert(crate::sysfs::strings(out@) =~= before.push(tv));
                    assert(ps@.take(i + 1).map_values(|p: PowerProfile| sysfs_name(p)) =~= ps@.take(
                        i as int,
                    ).map_values(|p: PowerProfile| sysfs_name(p)).push(sysfs_name(ps@[i as int])));
                }
                i = i + 1;
            }
            assert(ps@.take(ps@.len() as int) =~= ps@);
        },
        Err(_) => {
            assert(crate::sysfs::strings(out@) =~= Seq::<Seq<char>>::empty());
        },
    }
    out
}

/// The `BatteryMode` property: the active charge type, empty when it cannot
/// be read.
pub fn battery_mode_property(root: &SysRoot) -> (r: String)
    ensures
        r@ == match battery::get_mode_spec(root@) {
            Ok(m) => cm_sysfs(m),
            Err(_) => Seq::<char>::empty(),
        },
{
    match battery::get_mode(root) {
        Ok(m) => owned(m.as_sysfs()),
        Err(_) => String::new(),
    }
}

/// The `FnLock`, `CameraPower` and `UsbCharging` properties: false when
/// absent.
pub fn toggle_property(root: &SysRoot, t: Toggle) -> (r: bool)
    ensures
        r == match ideapad::get_spec(root@, t) {
            Some(b) => b,
            None => false,
        },
{
    match ideapad::get(root, t) {
        Some(b) => b,
        None => false,
    }
}

/// The `KbdBacklight` property: 0 when absent.
pub fn kbd_backlight_property(root: &SysRoot) -> (r: u32)
    ensures
        r == match crate::sysfs::read_parsed_spec::<u32>(root@, kbd_backlight::led_file("brightness"@)) {
            Ok(x) => x,
            Err(_) => 0,
        },
{
    match kbd_backlight::get(root) {
        Ok(x) => x,
        Err(_) => 0,
    }
}

/// The `CpuBoost` property: false when absent.
pub fn cpu_boost_property(root: &SysRoot) -> (r: bool)
    ensures
        r == match crate::cpu::get_boost_spec(root@) {
            Some(b) => b,
            None => false,
        },
{
    match crate::cpu::get_boost(root) {
        Some(b) => b,
        None => false,
    }
}

// ───────────────────────────── laws ─────────────────────────────

proof fn lemma_ppt_insert_facts(s: Seq<(Seq<char>, u32)>, k: Seq<char>, w: u32, other: Seq<char>)
    requires
        keys_sorted(s),
    ensures
        ppt_get(ppt_insert(s, k, w), k) == Some(w),
        other != k ==> ppt_get(ppt_insert(s, k, w), other) == ppt_get(s, other),
        keys_sorted(ppt_insert(s, k, w)),
        forall|j: int|
            0 <= j < ppt_insert(s, k, w).len() ==> (#[trigger] ppt_insert(s, k, w)[j]).0 == k || exists|
                i: int,
            | 0 <= i < s.len() && (#[trigger] s[i]).0 == ppt_insert(s, k, w)[j].0,
    decreases s.len(),
{
    let r = ppt_insert(s, k, w);
    if s.len() == 0 {
    } else {
        let t = s.drop_first();
        assert forall|a: int, b: int| 0 <= a < b < t.len() implies seq_lt(#[trigger] t[a].0, #[trigger] t[b].0) by {
            assert(t[a] == s[a + 1] && t[b] == s[b + 1]);
        }
        lemma_ppt_insert_facts(t, k, w, other);
        let rt = ppt_insert(t, k, w);
        if s[0].0 == k {
            assert(r.drop_first() =~= t);
            assert forall|j: int| 0 <= j < r.len() implies (#[trigger] r[j]).0 == k || exists|i: int|
                0 <= i < s.len() && (#[trigger] s[i]).0 == r[j].0 by {
                if j > 0 {
                    assert(r[j] == s[j]);
                }
            }
            assert forall|a: int, b: int| 0 <= a < b < r.len() implies seq_lt(#[trigger] r[a].0, #[trigger] r[b].0) by {
                assert(r[b] == s[b]);
                if a > 0 {
                    assert(r[a] == s[a]);
                }
            }
        } else if seq_lt(k, s[0].0) {
            assert(r.drop_first() =~= s);
            assert forall|j: int| 0 <= j < r.len() implies (#[trigger] r[j]).0 == k || exists|i: int|
                0 <= i < s.len() && (#[trigger] s[i]).0 == r[j].0 by {
                if j > 0 {
                    assert(r[j] == s[j - 1]);
                }
            }
            assert forall|a: int, b: int| 0 <= a < b < r.len() implies seq_lt(#[trigger] r[a].0, #[trigger] r[b].0) by {
                assert(r[b] == s[b - 1]);
                if a > 0 {
                    assert(r[a] == s[a - 1]);
                } else if b > 1 {
                    lemma_lt_transitive(k, s[0].0, s[b - 1].0);
                }
            }
            lemma_lt_irreflexive(k);
        } else {
            lemma_lt_total(s[0].0, k);
            assert(r.drop_first() =~= rt);
            assert forall|j: int| 0 <= j < r.len() implies (#[trigger] r[j]).0 == k || exists|i: int|
                0 <= i < s.len() && (#[trigger] s[i]).0 == r[j].0 by {
                if j > 0 {
                    assert(r[j] == rt[j - 1]);
                    if rt[j - 1].0 != k {
                        let i = choose|i: int| 0 <= i < t.len() && (#[trigger] t[i]).0 == rt[j - 1].0;
                        assert(s[i + 1] == t[i]);
                    }
                } else {
                    assert(s[0].0 == r[0].0);
                }
            }
            assert forall|a: int, b: int| 0 <= a < b < r.len() implies seq_lt(#[trigger] r[a].0, #[trigger] r[b].0) by {
                assert(r[b] == rt[b - 1]);
                if a > 0 {
                    assert(r[a] == rt[a - 1]);
                } else {
                    if rt[b - 1].0 != k {
                        let i = choose|i: int| 0 <= i < t.len() && (#[trigger] t[i]).0 == rt[b - 1].0;
                        assert(s[i + 1] == t[i]);
                    }
                }
            }
            if other == s[0].0 {
                assert(ppt_get(r, other) == Some(s[0].1));
            } else if other != k {
                assert(ppt_get(r, other) == ppt_get(rt, other));
                assert(ppt_get(s, other) == ppt_get(t, other));
            }
        }
        if other != k {
            if s[0].0 == k {
                assert(ppt_get(r, other) == ppt_get(t, other));
                assert(ppt_get(s, other) == ppt_get(t, other));
            } else if seq_lt(k, s[0].0) {
                assert(ppt_get(r, other) == ppt_get(s, other));
            }
        }
    }
}

/// A power limit recorded for a key is what the state then holds for that
/// key; every other key keeps its value, and the keys stay sorted.
pub proof fn lemma_record_then_lookup(s: Seq<(Seq<char>, u32)>, k: Seq<char>, w: u32, other: Seq<char>)
    requires
        keys_sorted(s),
    ensures
        ppt_get(ppt_insert(s, k, w), k) == Some(w),
        other != k ==> ppt_get(ppt_insert(s, k, w), other) == ppt_get(s, other),
        keys_sorted(ppt_insert(s, k, w)),
{
    lemma_ppt_insert_facts(s, k, w, other);
}

/// A successful `SetProfile` is what the `Profile` property then reads and
/// what the state records; a refused one changes neither the tree nor the
/// state.
pub proof fn lemma_set_profile_then_property(v: SysView, s: StateView, value: Seq<char>)
    ensures
        match set_profile_spec(v, s, value) {
            (Ok(p), after, st) => profile_property_spec(after) == sysfs_name(p) && st.profile == Some(
                sysfs_name(p),
            ),
            (Err(_), after, st) => after == v && st == s,
        },
{
    if let Ok(p) = from_user_spec(value) {
        lemma_set_then_get(v, p);
    }
}

/// Outside the Custom profile `SetPpt` is refused with
/// `CustomModeRequired`, and changes neither the tree nor the state.
pub proof fn lemma_set_ppt_needs_custom(v: SysView, s: StateView, attr: Seq<char>, watts: u32)
    requires
        get_spec(v) is Ok,
        get_spec(v)->Ok_0 != PowerProfile::Custom,
    ensures
        set_ppt_spec(v, s, attr, watts).0 matches Err(DaemonErrorView::CustomModeRequired(_)),
        set_ppt_spec(v, s, attr, watts).1 == v,
        set_ppt_spec(v, s, attr, watts).2 == s,
{
}

/// A successful `SetPpt` is what the attribute then reads and what the
/// state records for the key; a refused one changes neither the tree nor
/// the state.
pub proof fn lemma_set_ppt_then_read(v: SysView, s: StateView, attr: Seq<char>, watts: u32)
    requires
        keys_sorted(s.ppt),
    ensures
        match set_ppt_spec(v, s, attr, watts) {
            (Ok(()), after, st) => read_by_name_spec(after, ppt_dir_of(attr)) is Ok && read_by_name_spec(
                after,
                ppt_dir_of(attr),
            )->Ok_0.current == watts && ppt_get(st.ppt, ppt_key_of(attr)) == Some(watts),
            (Err(_), after, st) => after == v && st == s,
        },
{
    lemma_write_then_read(v, ppt_dir_of(attr), watts);
    lemma_ppt_insert_facts(s.ppt, ppt_key_of(attr), watts, ppt_key_of(attr));
}

proof fn lemma_restore_ppt_keeps_profile(v: SysView, es: Seq<(Seq<char>, u32)>)
    ensures
        get_spec(restore_ppt(v, es)) == get_spec(v),
    decreases es.len(),
{
    if es.len() > 0 {
        let next = match ppt_parse(es[0].0) {
            Some(a) => firmware_attrs::after_write(v, ppt_dir(a), es[0].1),
            None => v,
        };
        if let Some(a) = ppt_parse(es[0].0) {
            reveal_strlit("current_value");
            reveal_strlit("name");
            reveal_strlit("profile");
            assert("current_value"@ != "name"@ && "current_value"@ != "profile"@) by {
                assert("current_value"@.len() == 13 && "name"@.len() == 4 && "profile"@.len() == 7);
            }
            lemma_get_frame(
                v,
                attr_base(ppt_dir(a)),
                "current_value"@,
                crate::text::dec(es[0].1 as nat),
            );
        }
        assert(get_spec(next) == get_spec(v));
        lemma_restore_ppt_keeps_profile(next, es.drop_first());
    }
}

/// Restoring one recorded entry keeps a power limit writable with any
/// value it could be written with before.
proof fn lemma_step_keeps_writable(v: SysView, e: (Seq<char>, u32), a: PptAttr, w: u32)
    requires
        firmware_attrs::write_result(v, ppt_dir(a), w) is Ok,
    ensures
        firmware_attrs::write_result(
            match ppt_parse(e.0) {
                Some(b) => firmware_attrs::after_write(v, ppt_dir(b), e.1),
                None => v,
            },
            ppt_dir(a),
            w,
        ) is Ok,
{
    match ppt_parse(e.0) {
        Some(b) => {
            if b == a {
                lemma_write_then_read(v, ppt_dir(a), e.1);
                if firmware_attrs::write_result(v, ppt_dir(a), e.1) is Ok {
                    let f = current_file(ppt_dir(a));
                    let val = crate::text::dec(e.1 as nat);
                    lemma_write_keeps_paths(v, f, val);
                    let u = v.after_write(f, val);
                    assert(u.tree.contains_key(f));
                    assert(u.tree[f] == EntryView::File(val));
                    assert(u.has_path(f));
                    assert(firmware_attrs::after_write(v, ppt_dir(a), e.1) == u);
                }
            } else {
                lemma_other_limit_frame(v, a, b, e.1);
            }
        },
        None => {},
    }
}

/// Restoring entries none of which names limit `a` leaves what reading `a`
/// gives as it was.
proof fn lemma_rest_keeps_limit(v: SysView, es: Seq<(Seq<char>, u32)>, a: PptAttr)
    requires
        forall|j: int| 0 <= j < es.len() ==> ppt_parse(#[trigger] es[j].0) != Some(a),
    ensures
        read_by_name_spec(restore_ppt(v, es), ppt_dir(a)) == read_by_name_spec(v, ppt_dir(a)),
    decreases es.len(),
{
    if es.len() > 0 {
        let next = match ppt_parse(es[0].0) {
            Some(b) => firmware_attrs::after_write(v, ppt_dir(b), es[0].1),
            None => v,
        };
        if let Some(b) = ppt_parse(es[0].0) {
            lemma_other_limit_frame(v, a, b, es[0].1);
        }
        let t = es.drop_first();
        assert forall|j: int| 0 <= j < t.len() implies ppt_parse(#[trigger] t[j].0) != Some(a) by {
            assert(t[j] == es[j + 1]);
        }
        lemma_rest_keeps_limit(next, t, a);
    }
}

/// Restoring the recorded limits sets limit `a` to the watts of the last
/// entry naming it, when that value could be written to begin with.
proof fn lemma_restore_ppt_sets(v: SysView, es: Seq<(Seq<char>, u32)>, i: int, a: PptAttr)
    requires
        0 <= i < es.len(),
        ppt_parse(es[i].0) == Some(a),
        forall|j: int| i < j < es.len() ==> ppt_parse(#[trigger] es[j].0) != Some(a),
        firmware_attrs::write_result(v, ppt_dir(a), es[i].1) is Ok,
    ensures
        read_by_name_spec(restore_ppt(v, es), ppt_dir(a)) matches Ok(x) && x.current == es[i].1,
    decreases es.len(),
{
    let next = match ppt_parse(es[0].0) {
        Some(b) => firmware_attrs::after_write(v, ppt_dir(b), es[0].1),
        None => v,
    };
    let t = es.drop_first();
    if i == 0 {
        lemma_write_then_read(v, ppt_dir(a), es[0].1);
        assert forall|j: int| 0 <= j < t.len() implies ppt_parse(#[trigger] t[j].0) != Some(a) by {
            assert(t[j] == es[j + 1]);
        }
        lemma_rest_keeps_limit(next, t, a);
    } else {
        lemma_step_keeps_writable(v, es[0], a, es[i].1);
        assert(t[i - 1] == es[i]);
        assert forall|j: int| i - 1 < j < t.len() implies ppt_parse(#[trigger] t[j].0) != Some(a) by {
            assert(t[j] == es[j + 1]);
        }
        lemma_restore_ppt_sets(next, t, i - 1, a);
    }
}

/// Restoring the profile and the charge type touches none of the power
/// limits' files.
proof fn lemma_restore_others_frame(v: SysView, s: StateView, a: PptAttr)
    ensures
        forall|w: u32| #[trigger] firmware_attrs::write_result(
            restore_battery(restore_profile(v, s), s),
            ppt_dir(a),
            w,
        ) == firmware_attrs::write_result(v, ppt_dir(a), w),
{
    reveal_strlit("sys/class/platform-profile");
    reveal_strlit("sys/class/power_supply/BAT0");
    let v1 = restore_profile(v, s);
    if let Some(p) = s.profile {
        if let Some(pp) = parse_sysfs(p) {
            if let Some(f) = profile::profile_file_spec(v) {
                let es = v.listing(profile::CLASS_DIR@);
                lemma_first_named_found(v, profile::CLASS_DIR@, es, profile::GAMEZONE@);
                let d = profile::device_dir_spec(v)->Some_0;
                assert(exists|x: Seq<char>| d == subpath(profile::CLASS_DIR@, x));
                let x = choose|x: Seq<char>| d == subpath(profile::CLASS_DIR@, x);
                assert(f[10] == profile::CLASS_DIR@[10]);
                lemma_outside_attrs(f, ppt_dir(a));
                lemma_attr_frame(v, f, sysfs_name(pp), ppt_dir(a));
            }
        }
    }
    if let Some(m) = s.battery_mode {
        if let Ok(cm) = cm_from_sysfs_spec(m) {
            let f = ct_file();
            assert(f[10] == battery::BAT@[10]);
            lemma_outside_attrs(f, ppt_dir(a));
            lemma_attr_frame(v1, f, cm_sysfs(cm), ppt_dir(a));
        }
    }
}

/// Reapplying the saved state rewrites every recorded power limit: for each
/// entry whose key names a known limit, that no later entry names again,
/// and whose value the limit accepts, reading the limit afterwards gives
/// the recorded watts — whatever the firmware had reset it to, and
/// wherever the entry stands among the recorded ones.
pub proof fn lemma_reapply_restores_limits(v: SysView, s: StateView, i: int, a: PptAttr)
    requires
        0 <= i < s.ppt.len(),
        ppt_parse(s.ppt[i].0) == Some(a),
        forall|j: int| i < j < s.ppt.len() ==> ppt_parse(#[trigger] s.ppt[j].0) != Some(a),
        firmware_attrs::write_result(v, ppt_dir(a), s.ppt[i].1) is Ok,
    ensures
        read_by_name_spec(reapply_spec(v, s), ppt_dir(a)) matches Ok(x) && x.current == s.ppt[i].1,
{
    lemma_restore_others_frame(v, s, a);
    lemma_restore_ppt_sets(restore_battery(restore_profile(v, s), s), s.ppt, i, a);
}

/// Reapplying a state that records a profile restores that profile, and
/// restoring the charge type and the power limits afterwards does not
/// disturb it.
pub proof fn lemma_reapply_restores_profile(v: SysView, s: StateView, p: PowerProfile)
    requires
        s.profile == Some(sysfs_name(p)),
        profile::set_result(v) is Ok,
    ensures
        get_spec(reapply_spec(v, s)) == Ok::<PowerProfile, HwErrorView>(p),
{
    lemma_kernel_name_round_trip(p);
    lemma_set_then_get(v, p);
    let v1 = restore_profile(v, s);
    assert(get_spec(v1) == Ok::<PowerProfile, HwErrorView>(p));
    let v2 = restore_battery(v1, s);
    if let Some(m) = s.battery_mode {
        if let Ok(cm) = cm_from_sysfs_spec(m) {
            reveal_strlit("charge_types");
            reveal_strlit("name");
            reveal_strlit("profile");
            assert("charge_types"@ != "name"@ && "charge_types"@ != "profile"@) by {
                assert("charge_types"@.len() == 12 && "name"@.len() == 4 && "profile"@.len() == 7);
            }
            lemma_get_frame(v1, battery::BAT@, "charge_types"@, cm_sysfs(cm));
        }
    }
    assert(get_spec(v2) == get_spec(v1));
    lemma_restore_ppt_keeps_profile(v2, s.ppt);
}

} // verus!
