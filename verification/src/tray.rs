//! The tray menu, as data.
//!
//! The menu is driven entirely by daemon state, so Fn+Q and `legion-ctl`
//! changes are reflected in it. This module decides which entries the menu
//! has, what they show and which request each sends; the program hands them
//! to the StatusNotifierItem host.

use vstd::prelude::*;

use crate::gui::{battery_label, battery_label_spec, profile_label, profile_label_spec, Request, TrayState};
use crate::sysfs::strings;
use crate::text::{owned, str_eq};

verus! {

/// A request by its views.
pub enum RequestView {
    SetProfile(Seq<char>),
    SetBatteryMode(Seq<char>),
    SetPpt(Seq<char>, u32),
    SetFnLock(bool),
    SetCameraPower(bool),
    SetUsbCharging(bool),
    SetKbdBacklight(u32),
    SetCpuBoost(bool),
    Refresh,
}

impl View for Request {
    type V = RequestView;

    open spec fn view(&self) -> RequestView {
        match self {
            Request::SetProfile(v) => RequestView::SetProfile(v@),
            Request::SetBatteryMode(v) => RequestView::SetBatteryMode(v@),
            Request::SetPpt(a, w) => RequestView::SetPpt(a@, *w),
            Request::SetFnLock(b) => RequestView::SetFnLock(*b),
            Request::SetCameraPower(b) => RequestView::SetCameraPower(*b),
            Request::SetUsbCharging(b) => RequestView::SetUsbCharging(*b),
            Request::SetKbdBacklight(l) => RequestView::SetKbdBacklight(*l),
            Request::SetCpuBoost(b) => RequestView::SetCpuBoost(*b),
            Request::Refresh => RequestView::Refresh,
        }
    }
}

/// The daemon method a request calls; a refresh calls none.
pub open spec fn method_spec(r: RequestView) -> Option<Seq<char>> {
    match r {
        RequestView::SetProfile(_) => Some("SetProfile"@),
        RequestView::SetBatteryMode(_) => Some("SetBatteryMode"@),
        RequestView::SetPpt(_, _) => Some("SetPpt"@),
        RequestView::SetFnLock(_) => Some("SetFnLock"@),
        RequestView::SetCameraPower(_) => Some("SetCameraPower"@),
        RequestView::SetUsbCharging(_) => Some("SetUsbCharging"@),
        RequestView::SetKbdBacklight(_) => Some("SetKbdBacklight"@),
        RequestView::SetCpuBoost(_) => Some("SetCpuBoost"@),
        RequestView::Refresh => None,
    }
}

impl Request {
    /// The daemon method this request calls; `None` for a refresh, which
    /// only re-reads the state.
    pub fn method(&self) -> (r: Option<&'static str>)
        ensures
            match r {
                Some(m) => method_spec(self@) == Some(m@),
                None => method_spec(self@) is None,
            },
    {
        match self {
            Request::SetProfile(_) => Some("SetProfile"),
            Request::SetBatteryMode(_) => Some("SetBatteryMode"),
            Request::SetPpt(_, _) => Some("SetPpt"),
            Request::SetFnLock(_) => Some("SetFnLock"),
            Request::SetCameraPower(_) => Some("SetCameraPower"),
            Request::SetUsbCharging(_) => Some("SetUsbCharging"),
            Request::SetKbdBacklight(_) => Some("SetKbdBacklight"),
            Request::SetCpuBoost(_) => Some("SetCpuBoost"),
            Request::Refresh => None,
        }
    }
}

/// A switch in the tray menu.
#[derive(Debug, Clone, Copy, PartialEq, Eq, Structural)]
pub enum TraySwitch {
    FnLock,
    Camera,
}

/// One entry of the tray menu.
#[derive(Debug, Clone)]
pub enum MenuEntry {
    /// A disabled heading.
    Heading(String),
    /// A radio group: the option labels, the selected option, and the
    /// request each option sends.
    Radio { labels: Vec<String>, selected: usize, requests: Vec<Request> },
    /// A checkmark for a switch.
    Check { label: String, checked: bool, switch: TraySwitch },
    Separator,
    /// Show the dashboard window; the entry's label.
    OpenDashboard(String),
    /// Leave the program; the entry's label.
    Quit(String),
}

pub enum MenuEntryView {
    Heading(Seq<char>),
    Radio { labels: Seq<Seq<char>>, selected: int, requests: Seq<RequestView> },
    Check { label: Seq<char>, checked: bool, switch: TraySwitch },
    Separator,
    OpenDashboard(Seq<char>),
    Quit(Seq<char>),
}

/// The views of a list of requests.
pub open spec fn request_views(v: Seq<Request>) -> Seq<RequestView> {
    v.map_values(|r: Request| r@)
}

impl View for MenuEntry {
    type V = MenuEntryView;

    open spec fn view(&self) -> MenuEntryView {
        match self {
            MenuEntry::Heading(s) => MenuEntryView::Heading(s@),
            MenuEntry::Radio { labels, selected, requests } => MenuEntryView::Radio {
                labels: strings(labels@),
                selected: *selected as int,
                requests: request_views(requests@),
            },
            MenuEntry::Check { label, checked, switch } => MenuEntryView::Check {
                label: label@,
                checked: *checked,
                switch: *switch,
            },
            MenuEntry::Separator => MenuEntryView::Separator,
            MenuEntry::OpenDashboard(l) => MenuEntryView::OpenDashboard(l@),
            MenuEntry::Quit(l) => MenuEntryView::Quit(l@),
        }
    }
}

/// The views of a menu.
pub open spec fn entry_views(v: Seq<MenuEntry>) -> Seq<MenuEntryView> {
    v.map_values(|e: MenuEntry| e@)
}

/// The index of the first `x` in `ss`, if any.
pub open spec fn first_index(ss: Seq<Seq<char>>, x: Seq<char>) -> Option<int>
    decreases ss.len(),
{
    if ss.len() == 0 {
        None
    } else if ss[0] == x {
        Some(0)
    } else {
        match first_index(ss.drop_first(), x) {
            Some(i) => Some(i + 1),
            None => None,
        }
    }
}

/// The option selected in a radio group: the current value's, else the
/// first.
pub open spec fn selected_spec(ss: Seq<Seq<char>>, x: Seq<char>) -> int {
    match first_index(ss, x) {
        Some(i) => i,
        None => 0,
    }
}

/// The profile section: heading, radio group, separator — when the
/// firmware advertises choices.
pub open spec fn profile_section(choices: Seq<Seq<char>>, current: Seq<char>) -> Seq<MenuEntryView> {
    if choices.len() > 0 {
        seq![
            MenuEntryView::Heading("Power Mode"@),
            MenuEntryView::Radio {
                labels: choices.map_values(|c: Seq<char>| profile_label_spec(c)),
                selected: selected_spec(choices, current),
                requests: choices.map_values(|c: Seq<char>| RequestView::SetProfile(c)),
            },
            MenuEntryView::Separator,
        ]
    } else {
        seq![]
    }
}

/// The battery section, likewise.
pub open spec fn battery_section(choices: Seq<Seq<char>>, current: Seq<char>) -> Seq<MenuEntryView> {
    if choices.len() > 0 {
        seq![
            MenuEntryView::Heading("Battery"@),
            MenuEntryView::Radio {
                labels: choices.map_values(|c: Seq<char>| battery_label_spec(c)),
                selected: selected_spec(choices, current),
                requests: choices.map_values(|c: Seq<char>| RequestView::SetBatteryMode(c)),
            },
            MenuEntryView::Separator,
        ]
    } else {
        seq![]
    }
}

/// The switches the machine has, then a separator if there are any.
pub open spec fn switch_section(s: TrayState) -> Seq<MenuEntryView> {
    (if s.has_fn_lock {
        seq![MenuEntryView::Check { label: "Fn Lock"@, checked: s.fn_lock, switch: TraySwitch::FnLock }]
    } else {
        seq![]
    }) + (if s.has_camera {
        seq![MenuEntryView::Check { label: "Camera"@, checked: s.camera, switch: TraySwitch::Camera }]
    } else {
        seq![]
    }) + if s.has_fn_lock || s.has_camera {
        seq![MenuEntryView::Separator]
    } else {
        seq![]
    }
}

/// The whole menu.
pub open spec fn menu_spec(s: TrayState) -> Seq<MenuEntryView> {
    profile_section(strings(s.profile_choices@), s.profile@) + battery_section(
        strings(s.battery_choices@),
        s.battery_mode@,
    ) + switch_section(s) + seq![
        MenuEntryView::OpenDashboard("Open Dashboard"@),
        MenuEntryView::Quit("Quit"@),
    ]
}

/// What flipping a switch asks the daemon for.
pub open spec fn switch_request_spec(s: TrayState, w: TraySwitch) -> RequestView {
    match w {
        TraySwitch::FnLock => RequestView::SetFnLock(!s.fn_lock),
        TraySwitch::Camera => RequestView::SetCameraPower(!s.camera),
    }
}

/// The index of the first `x` in `ss`, or 0.
fn selected_of(ss: &Vec<String>, x: &str) -> (r: usize)
    ensures
        r as int == selected_spec(strings(ss@), x@),
{
    let ghost vs = strings(ss@);
    let mut i: usize = 0;
    assert(vs.skip(0) =~= vs);
    while i < ss.len()
        invariant
            i <= ss@.len() == vs.len(),
            vs == strings(ss@),
            forall|k: int| 0 <= k < i ==> vs[k] != x@,
            first_index(vs, x@) == match first_index(vs.skip(i as int), x@) {
                Some(j) => Some(j + i),
                None => None::<int>,
            },
        decreases ss.len() - i,
    {
        proof {
            let t = vs.skip(i as int);
            assert(t[0] == vs[i as int]);
            assert(t.drop_first() =~= vs.skip(i + 1));
        }
        if str_eq(ss[i].as_str(), x) {
            return i;
        }
        i = i + 1;
    }
    0
}

fn radio_labels(choices: &Vec<String>, profiles: bool) -> (r: Vec<String>)
    ensures
        strings(r@) == if profiles {
            strings(choices@).map_values(|c: Seq<char>| profile_label_spec(c))
        } else {
            strings(choices@).map_values(|c: Seq<char>| battery_label_spec(c))
        },
{
    let ghost vs = strings(choices@);
    let mut out: Vec<String> = Vec::new();
    let mut i: usize = 0;
    while i < choices.len()
        invariant
            i <= choices@.len() == vs.len(),
            vs == strings(choices@),
            strings(out@) == if profiles {
                vs.take(i as int).map_values(|c: Seq<char>| profile_label_spec(c))
            } else {
                vs.take(i as int).map_values(|c: Seq<char>| battery_label_spec(c))
            },
        decreases choices.len() - i,
    {
        let l = if profiles {
            profile_label(choices[i].as_str())
        } else {
            battery_label(choices[i].as_str())
        };
        let ghost before = strings(out@);
        let ghost lv = l@;
        out.push(l);
        proof {
            assert(vs[i as int] == choices@[i as int]@);
            assert(strings(out@) =~= before.push(lv));
            assert(vs.take(i + 1).map_values(|c: Seq<char>| profile_label_spec(c)) =~= vs.take(
                i as int,
            ).map_values(|c: Seq<char>| profile_label_spec(c)).push(profile_label_spec(vs[i as int])));
            assert(vs.take(i + 1).map_values(|c: Seq<char>| battery_label_spec(c)) =~= vs.take(
                i as int,
            ).map_values(|c: Seq<char>| battery_label_spec(c)).push(battery_label_spec(vs[i as int])));
        }
        i = i + 1;
    }
    assert(vs.take(vs.len() as int) =~= vs);
    out
}

fn radio_requests(choices: &Vec<String>, profiles: bool) -> (r: Vec<Request>)
    ensures
        request_views(r@) == if profiles {
            strings(choices@).map_values(|c: Seq<char>| RequestView::SetProfile(c))
        } else {
            strings(choices@).map_values(|c: Seq<char>| RequestView::SetBatteryMode(c))
        },
{
    let ghost vs = strings(choices@);
    let mut out: Vec<Request> = Vec::new();
    let mut i: usize = 0;
    while i < choices.len()
        invariant
            i <= choices@.len() == vs.len(),
            vs == strings(choices@),
            request_views(out@) == if profiles {
                vs.take(i as int).map_values(|c: Seq<char>| RequestView::SetProfile(c))
            } else {
                vs.take(i as int).map_values(|c: Seq<char>| RequestView::SetBatteryMode(c))
            },
        decreases choices.len() - i,
    {
        let c = owned(choices[i].as_str());
        let q = if profiles {
            Request::SetProfile(c)
        } else {
            Request::SetBatteryMode(c)
        };
        let ghost before = request_views(out@);
        let ghost qv = q@;
        out.push(q);
        proof {
            assert(vs[i as int] == choices@[i as int]@);
            assert(request_views(out@) =~= before.push(qv));
            assert(vs.take(i + 1).map_values(|c: Seq<char>| RequestView::SetProfile(c)) =~= vs.take(
                i as int,
            ).map_values(|c: Seq<char>| RequestView::SetProfile(c)).push(RequestView::SetProfile(vs[i as int])));
            assert(vs.take(i + 1).map_values(|c: Seq<char>| RequestView::SetBatteryMode(c)) =~= vs.take(
                i as int,
            ).map_values(|c: Seq<char>| RequestView::SetBatteryMode(c)).push(
                RequestView::SetBatteryMode(vs[i as int]),
            ));
        }
        i = i + 1;
    }
    assert(vs.take(vs.len() as int) =~= vs);
    out
}

fn push_entry(out: &mut Vec<MenuEntry>, e: MenuEntry)
    ensures
        entry_views(final(out)@) == entry_views(old(out)@).push(e@),
{
    let ghost ev = e@;
    out.push(e);
    assert(entry_views(out@) =~= entry_views(old(out)@).push(ev));
}

fn push_radio_section(out: &mut Vec<MenuEntry>, choices: &Vec<String>, current: &str, profiles: bool)
    ensures
        entry_views(final(out)@) == entry_views(old(out)@) + if profiles {
            profile_section(strings(choices@), current@)
        } else {
            battery_section(strings(choices@), current@)
        },
{
    let ghost start = entry_views(out@);
    if choices.len() == 0 {
        assert(start + seq![] =~= start);
        return;
    }
    let heading = if profiles {
        "Power Mode"
    } else {
        "Battery"
    };
    push_entry(out, MenuEntry::Heading(owned(heading)));
    let labels = radio_labels(choices, profiles);
    let requests = radio_requests(choices, profiles);
    let selected = selected_of(choices, current);
    push_entry(out, MenuEntry::Radio { labels, selected, requests });
    push_entry(out, MenuEntry::Separator);
    assert(entry_views(out@) =~= start + if profiles {
        profile_section(strings(choices@), current@)
    } else {
        battery_section(strings(choices@), current@)
    });
}

impl TrayState {
    /// The tray menu for this state.
    pub fn menu(&self) -> (r: Vec<MenuEntry>)
        ensures
            entry_views(r@) == menu_spec(*self),
    {
        let mut out: Vec<MenuEntry> = Vec::new();
        assert(entry_views(out@) =~= Seq::<MenuEntryView>::empty());
        push_radio_section(&mut out, &self.profile_choices, self.profile.as_str(), true);
        push_radio_section(&mut out, &self.battery_choices, self.battery_mode.as_str(), false);
        let ghost mid = entry_views(out@);
        if self.has_fn_lock {
            push_entry(&mut out, MenuEntry::Check { label: owned("Fn Lock"), checked: self.fn_lock, switch: TraySwitch::FnLock });
        }
        if self.has_camera {
            push_entry(
                &mut out,
                MenuEntry::Check { label: owned("Camera"), checked: self.camera, switch: TraySwitch::Camera },
            );
        }
        if self.has_fn_lock || self.has_camera {
            push_entry(&mut out, MenuEntry::Separator);
        }
        assert(entry_views(out@) =~= mid + switch_section(*self));
        push_entry(&mut out, MenuEntry::OpenDashboard(owned("Open Dashboard")));
        push_entry(&mut out, MenuEntry::Quit(owned("Quit")));
        assert(entry_views(out@) =~= menu_spec(*self));
        out
    }

    /// What flipping a switch in the menu asks the daemon for: the opposite
    /// of its current state.
    pub fn switch_request(&self, w: TraySwitch) -> (r: Request)
        ensures
            r@ == switch_request_spec(*self, w),
    {
        match w {
            TraySwitch::FnLock => Request::SetFnLock(!self.fn_lock),
            TraySwitch::Camera => Request::SetCameraPower(!self.camera),
        }
    }
}

proof fn lemma_first_index(ss: Seq<Seq<char>>, x: Seq<char>)
    ensures
        match first_index(ss, x) {
            Some(i) => 0 <= i < ss.len() && ss[i] == x,
            None => !ss.contains(x),
        },
    decreases ss.len(),
{
    if ss.len() > 0 {
        lemma_first_index(ss.drop_first(), x);
        if ss[0] != x && first_index(ss.drop_first(), x) is None {
            assert forall|i: int| 0 <= i < ss.len() implies ss[i] != x by {
                if i > 0 {
                    assert(ss[i] == ss.drop_first()[i - 1]);
                }
            }
        }
    }
}

/// A radio group always marks one of its options, and it marks the current
/// value whenever that is among the choices.
pub proof fn lemma_selected_is_current(ss: Seq<Seq<char>>, x: Seq<char>)
    ensures
        ss.len() > 0 ==> 0 <= selected_spec(ss, x) < ss.len(),
        ss.contains(x) ==> ss[selected_spec(ss, x)] == x,
{
    lemma_first_index(ss, x);
}

} // verus!
