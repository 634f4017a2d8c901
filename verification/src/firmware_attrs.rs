//! CPU power limits via the firmware-attributes class
//! (`/sys/class/firmware-attributes/lenovo-wmi-other-0/attributes/`).
//!
//! Three integer attributes are advertised by the 82WM's BIOS, all in **watts**:
//! `ppt_pl1_spl`, `ppt_pl2_sppt`, `ppt_pl3_fppt`. Writes return `EBUSY` unless
//! the platform profile is `custom` — the kernel enforces that gate, and it
//! surfaces here as [`HwError::Busy`].
//!
//! Newer mainline advertises more attributes (`dgpu_boost_clk`, `gpu_nv_ctgp`,
//! …). Nothing here hardcodes the list beyond the three named convenience
//! variants: [`list_all`] scans the directory, so extra attributes appear
//! automatically when a kernel starts exposing them.

use vstd::prelude::*;

use crate::error::{rv, HwError, HwErrorView};
use crate::sysfs::{
    EntryView, lemma_leaf_differs, lemma_no_children, lemma_sorted_filter, lemma_write_keeps_paths, lemma_write_number,
    lemma_write_reads, list_dir_of, read_parsed_opt_spec, read_parsed_spec, strings, subpath, SysRoot, SysView,
};
use crate::text::{
    cat, dec, dec_string, debug_quoted, is_ws, join, lemma_trim_plain, lower, lowered, owned, parse_unsigned, seq_lt, str_debug,
    str_eq, trim, trimmed,
};

verus! {

pub const ATTR_DIR: &'static str = "sys/class/firmware-attributes/lenovo-wmi-other-0/attributes";

/// The three power-limit attributes the 82WM exposes.
#[derive(Debug, Clone, Copy, PartialEq, Eq, Structural)]
pub enum PptAttr {
    /// Sustained power limit (PL1).
    Spl,
    /// Slow package power tracking (PL2).
    Sppt,
    /// Fast package power tracking (PL3).
    Fppt,
}

/// The attribute's directory name under `attributes/`.
pub open spec fn ppt_dir(a: PptAttr) -> Seq<char> {
    match a {
        PptAttr::Spl => "ppt_pl1_spl"@,
        PptAttr::Sppt => "ppt_pl2_sppt"@,
        PptAttr::Fppt => "ppt_pl3_fppt"@,
    }
}

/// Short name used by the CLI and D-Bus.
pub open spec fn ppt_key(a: PptAttr) -> Seq<char> {
    match a {
        PptAttr::Spl => "spl"@,
        PptAttr::Sppt => "sppt"@,
        PptAttr::Fppt => "fppt"@,
    }
}

/// Human label for the GUI.
pub open spec fn ppt_label(a: PptAttr) -> Seq<char> {
    match a {
        PptAttr::Spl => "Sustained (SPL)"@,
        PptAttr::Sppt => "Slow boost (SPPT)"@,
        PptAttr::Fppt => "Fast boost (FPPT)"@,
    }
}

/// Does `a` answer to the normalised key `t`?
pub open spec fn ppt_answers(a: PptAttr, t: Seq<char>) -> bool {
    ppt_key(a) == t || ppt_dir(a) == t
}

/// The first attribute (in `ALL` order) that answers to `s`, trimmed and
/// lower-cased.
pub open spec fn ppt_parse(s: Seq<char>) -> Option<PptAttr> {
    let t = lower(trim(s));
    if ppt_answers(PptAttr::Spl, t) {
        Some(PptAttr::Spl)
    } else if ppt_answers(PptAttr::Sppt, t) {
        Some(PptAttr::Sppt)
    } else if ppt_answers(PptAttr::Fppt, t) {
        Some(PptAttr::Fppt)
    } else {
        None
    }
}

/// What `PptAttr::from_key` gives.
pub open spec fn from_key_spec(s: Seq<char>) -> Result<PptAttr, HwErrorView> {
    match ppt_parse(s) {
        Some(a) => Ok(a),
        None => Err(HwErrorView::Parse("unknown power-limit attribute "@ + str_debug(lower(trim(s))))),
    }
}

impl PptAttr {
    pub const ALL: [PptAttr; 3] = [PptAttr::Spl, PptAttr::Sppt, PptAttr::Fppt];

    /// The attribute's directory name under `attributes/`.
    pub fn dir_name(self) -> (r: &'static str)
        ensures
            r@ == ppt_dir(self),
    {
        match self {
            PptAttr::Spl => "ppt_pl1_spl",
            PptAttr::Sppt => "ppt_pl2_sppt",
            PptAttr::Fppt => "ppt_pl3_fppt",
        }
    }

    /// Short name used by the CLI and D-Bus.
    pub fn key(self) -> (r: &'static str)
        ensures
            r@ == ppt_key(self),
    {
        match self {
            PptAttr::Spl => "spl",
            PptAttr::Sppt => "sppt",
            PptAttr::Fppt => "fppt",
        }
    }

    /// Human label for the GUI.
    pub fn label(self) -> (r: &'static str)
        ensures
            r@ == ppt_label(self),
    {
        match self {
            PptAttr::Spl => "Sustained (SPL)",
            PptAttr::Sppt => "Slow boost (SPPT)",
            PptAttr::Fppt => "Fast boost (FPPT)",
        }
    }

    fn answers(self, t: &str) -> (r: bool)
        ensures
            r == ppt_answers(self, t@),
    {
        str_eq(self.key(), t) || str_eq(self.dir_name(), t)
    }

    /// Parse a CLI/D-Bus key.
    pub fn from_key(s: &str) -> (r: Result<PptAttr, HwError>)
        ensures
            rv(r) == from_key_spec(s@),
    {
        let t0 = trimmed(s);
        let t = lowered(t0.as_str());
        if PptAttr::Spl.answers(t.as_str()) {
            Ok(PptAttr::Spl)
        } else if PptAttr::Sppt.answers(t.as_str()) {
            Ok(PptAttr::Sppt)
        } else if PptAttr::Fppt.answers(t.as_str()) {
            Ok(PptAttr::Fppt)
        } else {
            let q = debug_quoted(t.as_str());
            Err(HwError::Parse(cat("unknown power-limit attribute ", q.as_str())))
        }
    }
}

/// A firmware attribute's current value and its firmware-declared bounds.
#[derive(Debug, Clone, PartialEq, Eq)]
pub struct AttrInfo {
    /// Short key (`spl`) for known attributes, else the raw directory name.
    pub key: String,
    /// `display_name` from the firmware, falling back to the directory name.
    pub display_name: String,
    pub current: u32,
    pub default: u32,
    pub min: u32,
    pub max: u32,
    /// Step size (`scalar_increment`); 1 on the 82WM.
    pub step: u32,
}

pub struct AttrInfoView {
    pub key: Seq<char>,
    pub display_name: Seq<char>,
    pub current: u32,
    pub default: u32,
    pub min: u32,
    pub max: u32,
    pub step: u32,
}

impl View for AttrInfo {
    type V = AttrInfoView;

    open spec fn view(&self) -> AttrInfoView {
        AttrInfoView {
            key: self.key@,
            display_name: self.display_name@,
            current: self.current,
            default: self.default,
            min: self.min,
            max: self.max,
            step: self.step,
        }
    }
}

/// The views of a list of attributes.
pub open spec fn attr_views(v: Seq<AttrInfo>) -> Seq<AttrInfoView> {
    v.map_values(|a: AttrInfo| a@)
}

impl AttrInfo {
    /// Is `watts` inside the firmware-declared range?
    pub fn in_range(&self, watts: u32) -> (r: bool)
        ensures
            r == (self.min <= watts && watts <= self.max),
    {
        watts >= self.min && watts <= self.max
    }

    /// A copy.
    pub fn copy(&self) -> (r: AttrInfo)
        ensures
            r@ == self@,
    {
        AttrInfo {
            key: owned(self.key.as_str()),
            display_name: owned(self.display_name.as_str()),
            current: self.current,
            default: self.default,
            min: self.min,
            max: self.max,
            step: self.step,
        }
    }
}

/// The directory of attribute `name`.
pub open spec fn attr_base(name: Seq<char>) -> Seq<char> {
    subpath(ATTR_DIR@, name)
}

/// Is the firmware-attributes interface present?
pub fn available(root: &SysRoot) -> (r: bool)
    ensures
        r == root@.has_path(ATTR_DIR@),
{
    root.path_exists(ATTR_DIR)
}

/// Does attribute `n` advertise a `current_value`?
pub open spec fn advertised(v: SysView) -> spec_fn(Seq<char>) -> bool {
    |n: Seq<char>| v.has_path(subpath(attr_base(n), "current_value"@))
}

/// The advertised attributes, in name order.
pub open spec fn available_attrs_spec(v: SysView) -> Seq<Seq<char>> {
    v.listing(ATTR_DIR@).filter(advertised(v))
}

/// Names of every attribute directory the firmware advertises: strictly
/// ascending, and exactly the entries of the attributes directory that have
/// a `current_value` (none when the directory is absent).
pub fn available_attrs(root: &SysRoot) -> (r: Vec<String>)
    ensures
        r@.len() == available_attrs_spec(root@).len(),
        forall|k: int| 0 <= k < r@.len() ==> #[trigger] r@[k]@ == available_attrs_spec(root@)[k],
        forall|a: int, b: int| 0 <= a < b < r@.len() ==> seq_lt(#[trigger] r@[a]@, #[trigger] r@[b]@),
        forall|n: Seq<char>|
            #[trigger] strings(r@).contains(n) <==> (root@.children(ATTR_DIR@).contains(n) && root@.has_path(
                subpath(attr_base(n), "current_value"@),
            )),
        !root@.has_path(ATTR_DIR@) ==> r@.len() == 0,
{
    let entries = list_dir_of(root, ATTR_DIR);
    let ghost es = root@.listing(ATTR_DIR@);
    let ghost pred = advertised(root@);
    let mut names: Vec<String> = Vec::new();
    let mut i: usize = 0;
    while i < entries.len()
        invariant
            i <= entries@.len() == es.len(),
            pred == advertised(root@),
            es == root@.listing(ATTR_DIR@),
            forall|k: int| 0 <= k < entries@.len() ==> #[trigger] entries@[k]@ == es[k],
            names@.len() == es.take(i as int).filter(pred).len(),
            forall|k: int| 0 <= k < names@.len() ==> #[trigger] names@[k]@ == es.take(i as int).filter(pred)[k],
        decreases entries.len() - i,
    {
        proof {
            reveal(Seq::filter);
            assert(es.take(i + 1).drop_last() =~= es.take(i as int));
            assert(es.take(i + 1).last() == es[i as int]);
        }
        let base = join(ATTR_DIR, entries[i].as_str());
        if root.path_exists(join(base.as_str(), "current_value").as_str()) {
            names.push(entries[i].clone());
            proof {
                assert(pred(es[i as int]));
                assert(es.take(i + 1).filter(pred) == es.take(i as int).filter(pred).push(es[i as int]));
            }
        } else {
            proof {
                assert(!pred(es[i as int]));
                assert(es.take(i + 1).filter(pred) == es.take(i as int).filter(pred));
            }
        }
        i = i + 1;
    }
    proof {
        assert(es.take(es.len() as int) =~= es);
        let f = es.filter(pred);
        assert(strings(names@) =~= f);
        lemma_sorted_filter(es, pred);
        assert forall|a: int, b: int| 0 <= a < b < names@.len() implies seq_lt(
            #[trigger] names@[a]@,
            #[trigger] names@[b]@,
        ) by {
            assert(names@[a]@ == f[a] && names@[b]@ == f[b]);
        }
        assert forall|n: Seq<char>| #[trigger] es.contains(n) <==> root@.children(ATTR_DIR@).contains(n) by {
            assert(es.to_set().contains(n) <==> es.contains(n));
        }
        if !root@.has_path(ATTR_DIR@) {
            lemma_no_children(root@, ATTR_DIR@);
            if es.len() > 0 {
                assert(es.contains(es[0]));
            }
        }
    }
    names
}

/// The key of attribute directory `name`: the short key of a known
/// attribute, else the name itself.
pub open spec fn key_for(name: Seq<char>) -> Seq<char> {
    if name == ppt_dir(PptAttr::Spl) {
        ppt_key(PptAttr::Spl)
    } else if name == ppt_dir(PptAttr::Sppt) {
        ppt_key(PptAttr::Sppt)
    } else if name == ppt_dir(PptAttr::Fppt) {
        ppt_key(PptAttr::Fppt)
    } else {
        name
    }
}

/// `o`, or `d` when it is `None`.
pub open spec fn or_default<T>(o: Option<T>, d: T) -> T {
    match o {
        Some(x) => x,
        None => d,
    }
}

/// What `read_by_name` gives.
pub open spec fn read_by_name_spec(v: SysView, name: Seq<char>) -> Result<AttrInfoView, HwErrorView> {
    let base = attr_base(name);
    if !v.has_path(subpath(base, "current_value"@)) {
        Err(HwErrorView::NotSupported)
    } else {
        match read_parsed_spec::<u32>(v, subpath(base, "current_value"@)) {
            Err(e) => Err(e),
            Ok(cur) => Ok(
                AttrInfoView {
                    key: key_for(name),
                    display_name: or_default(v.read_opt(subpath(base, "display_name"@)), name),
                    current: cur,
                    default: or_default(
                        read_parsed_opt_spec::<u32>(v, subpath(base, "default_value"@)),
                        0,
                    ),
                    min: or_default(read_parsed_opt_spec::<u32>(v, subpath(base, "min_value"@)), 0),
                    max: or_default(
                        read_parsed_opt_spec::<u32>(v, subpath(base, "max_value"@)),
                        u32::MAX,
                    ),
                    step: or_default(
                        read_parsed_opt_spec::<u32>(v, subpath(base, "scalar_increment"@)),
                        1,
                    ),
                },
            ),
        }
    }
}

/// A read result taken by its views.
pub open spec fn riv(r: Result<AttrInfo, HwError>) -> Result<AttrInfoView, HwErrorView> {
    match r {
        Ok(a) => Ok(a@),
        Err(e) => Err(e@),
    }
}

/// Read one attribute by its directory name.
pub fn read_by_name(root: &SysRoot, dir_name: &str) -> (r: Result<AttrInfo, HwError>)
    ensures
        riv(r) == read_by_name_spec(root@, dir_name@),
{
    let base = join(ATTR_DIR, dir_name);
    if !root.path_exists(join(base.as_str(), "current_value").as_str()) {
        return Err(HwError::NotSupported);
    }
    let key = if str_eq(dir_name, "ppt_pl1_spl") {
        owned("spl")
    } else if str_eq(dir_name, "ppt_pl2_sppt") {
        owned("sppt")
    } else if str_eq(dir_name, "ppt_pl3_fppt") {
        owned("fppt")
    } else {
        owned(dir_name)
    };
    let display_name = match root.read_opt(join(base.as_str(), "display_name").as_str()) {
        Some(d) => d,
        None => owned(dir_name),
    };
    let current = root.read_parsed::<u32>(join(base.as_str(), "current_value").as_str())?;
    let default = match root.read_parsed_opt::<u32>(join(base.as_str(), "default_value").as_str()) {
        Some(x) => x,
        None => 0,
    };
    let min = match root.read_parsed_opt::<u32>(join(base.as_str(), "min_value").as_str()) {
        Some(x) => x,
        None => 0,
    };
    let max = match root.read_parsed_opt::<u32>(join(base.as_str(), "max_value").as_str()) {
        Some(x) => x,
        None => u32::MAX,
    };
    let step = match root.read_parsed_opt::<u32>(join(base.as_str(), "scalar_increment").as_str()) {
        Some(x) => x,
        None => 1,
    };
    Ok(AttrInfo { key, display_name, current, default, min, max, step })
}

/// Read one of the three known power limits.
pub fn read(root: &SysRoot, attr: PptAttr) -> (r: Result<AttrInfo, HwError>)
    ensures
        riv(r) == read_by_name_spec(root@, ppt_dir(attr)),
{
    read_by_name(root, attr.dir_name())
}

/// The attributes among `names` that read without error, in order.
pub open spec fn readable(v: SysView, names: Seq<Seq<char>>) -> Seq<AttrInfoView>
    decreases names.len(),
{
    if names.len() == 0 {
        seq![]
    } else {
        (match read_by_name_spec(v, names[0]) {
            Ok(a) => seq![a],
            Err(_) => seq![],
        }) + readable(v, names.drop_first())
    }
}

/// What `list_all` gives.
pub open spec fn list_all_spec(v: SysView) -> Seq<AttrInfoView> {
    readable(v, available_attrs_spec(v))
}

/// The names of the three known attributes.
pub open spec fn ppt_dirs() -> Seq<Seq<char>> {
    seq![ppt_dir(PptAttr::Spl), ppt_dir(PptAttr::Sppt), ppt_dir(PptAttr::Fppt)]
}

/// What `list_ppt` gives.
pub open spec fn list_ppt_spec(v: SysView) -> Seq<AttrInfoView> {
    readable(v, ppt_dirs())
}

/// Read every attribute of `names` that reads, in order.
fn read_each(root: &SysRoot, names: &Vec<String>, Ghost(ns): Ghost<Seq<Seq<char>>>) -> (r: Vec<AttrInfo>)
    requires
        names@.len() == ns.len(),
        forall|k: int| 0 <= k < names@.len() ==> #[trigger] names@[k]@ == ns[k],
    ensures
        attr_views(r@) == readable(root@, ns),
{
    let mut out: Vec<AttrInfo> = Vec::new();
    let mut i: usize = 0;
    proof {
        assert(ns.skip(0) =~= ns);
        assert(attr_views(out@) + readable(root@, ns) =~= readable(root@, ns));
    }
    while i < names.len()
        invariant
            i <= names@.len() == ns.len(),
            forall|k: int| 0 <= k < names@.len() ==> #[trigger] names@[k]@ == ns[k],
            readable(root@, ns) == attr_views(out@) + readable(root@, ns.skip(i as int)),
        decreases names.len() - i,
    {
        let ghost t = ns.skip(i as int);
        proof {
            assert(t[0] == ns[i as int]);
            assert(t.drop_first() =~= ns.skip(i + 1));
        }
        match read_by_name(root, names[i].as_str()) {
            Ok(a) => {
                let ghost prev = out@;
                let ghost av = a@;
                out.push(a);
                proof {
                    assert(attr_views(out@) =~= attr_views(prev).push(av));
                    assert(attr_views(prev) + (seq![av] + readable(root@, ns.skip(i + 1)))
                        =~= attr_views(out@) + readable(root@, ns.skip(i + 1)));
                }
            },
            Err(_) => {
                proof {
                    assert(readable(root@, t) =~= readable(root@, ns.skip(i + 1)));
                }
            },
        }
        i = i + 1;
    }
    proof {
        assert(ns.skip(i as int) =~= Seq::<Seq<char>>::empty());
        assert(attr_views(out@) + Seq::<AttrInfoView>::empty() =~= attr_views(out@));
    }
    out
}

/// Every advertised attribute, sorted by directory name.
pub fn list_all(root: &SysRoot) -> (r: Vec<AttrInfo>)
    ensures
        attr_views(r@) == list_all_spec(root@),
{
    let names = available_attrs(root);
    read_each(root, &names, Ghost(available_attrs_spec(root@)))
}

/// The three power limits, when present.
pub fn list_ppt(root: &SysRoot) -> (r: Vec<AttrInfo>)
    ensures
        attr_views(r@) == list_ppt_spec(root@),
{
    let mut names: Vec<String> = Vec::new();
    names.push(owned(PptAttr::Spl.dir_name()));
    names.push(owned(PptAttr::Sppt.dir_name()));
    names.push(owned(PptAttr::Fppt.dir_name()));
    read_each(root, &names, Ghost(ppt_dirs()))
}

/// Reading an attribute by its directory name: unsupported when its
/// `current_value` does not exist; a parse error when `current_value` is a
/// file whose text is not a `u32`; otherwise the attribute, with that
/// number as its current value, the short key `spl`/`sppt`/`fppt` for the
/// three power-limit directories and the directory name for any other, the
/// display name from `display_name` (else the directory name), and the
/// default, minimum, maximum and step from their files when they read as
/// numbers, else 0, 0, `u32::MAX` and 1.
pub proof fn lemma_read_by_name(v: SysView, name: Seq<char>)
    ensures
        !v.has_path(current_file(name)) ==> read_by_name_spec(v, name) == Err::<AttrInfoView, HwErrorView>(
            HwErrorView::NotSupported,
        ),
        v.tree.contains_key(current_file(name)) ==> match v.tree[current_file(name)] {
            EntryView::File(c) => match parse_unsigned(trim(c), u32::MAX as nat) {
            None => read_by_name_spec(v, name) matches Err(HwErrorView::Parse(_)),
            Some(x) => read_by_name_spec(v, name) matches Ok(i) && i.current == x && i.key == key_for(name)
                && i.display_name == or_default(v.read_opt(subpath(attr_base(name), "display_name"@)), name)
                && i.default == or_default(
                read_parsed_opt_spec::<u32>(v, subpath(attr_base(name), "default_value"@)),
                0,
            ) && i.min == or_default(read_parsed_opt_spec::<u32>(v, subpath(attr_base(name), "min_value"@)), 0)
                && i.max == or_default(
                read_parsed_opt_spec::<u32>(v, subpath(attr_base(name), "max_value"@)),
                u32::MAX,
            ) && i.step == or_default(
                read_parsed_opt_spec::<u32>(v, subpath(attr_base(name), "scalar_increment"@)),
                1,
            ),
            },
            _ => true,
        },
        key_for(ppt_dir(PptAttr::Spl)) == "spl"@,
        key_for(ppt_dir(PptAttr::Sppt)) == "sppt"@,
        key_for(ppt_dir(PptAttr::Fppt)) == "fppt"@,
        name != ppt_dir(PptAttr::Spl) && name != ppt_dir(PptAttr::Sppt) && name != ppt_dir(PptAttr::Fppt)
            ==> key_for(name) == name,
{
    reveal_strlit("ppt_pl1_spl");
    reveal_strlit("ppt_pl2_sppt");
    reveal_strlit("ppt_pl3_fppt");
    assert("ppt_pl1_spl"@.len() != "ppt_pl2_sppt"@.len());
    assert("ppt_pl1_spl"@.len() != "ppt_pl3_fppt"@.len());
    assert("ppt_pl2_sppt"@[6] != "ppt_pl3_fppt"@[6]);
    assert(v.tree.contains_key(current_file(name)) ==> v.has_path(current_file(name)));
}

/// The message for a value outside the firmware range.
pub open spec fn range_msg(watts: u32, a: AttrInfoView) -> Seq<char> {
    dec(watts as nat) + " W is out of range for "@ + a.key + ": "@ + dec(a.min as nat) + "–"@ + dec(
        a.max as nat,
    ) + " W"@
}

/// The file a write to attribute `name` goes to.
pub open spec fn current_file(name: Seq<char>) -> Seq<char> {
    subpath(attr_base(name), "current_value"@)
}

/// What `write_by_name` reports.
pub open spec fn write_result(v: SysView, name: Seq<char>, watts: u32) -> Result<(), HwErrorView> {
    match read_by_name_spec(v, name) {
        Err(e) => Err(e),
        Ok(a) => if !(a.min <= watts && watts <= a.max) {
            Err(HwErrorView::Parse(range_msg(watts, a)))
        } else {
            v.write_result(current_file(name))
        },
    }
}

/// The tree after `write_by_name`.
pub open spec fn after_write(v: SysView, name: Seq<char>, watts: u32) -> SysView {
    match read_by_name_spec(v, name) {
        Err(_) => v,
        Ok(a) => if !(a.min <= watts && watts <= a.max) {
            v
        } else {
            v.after_write(current_file(name), dec(watts as nat))
        },
    }
}

/// Set a power limit, in watts.
///
/// The value is range-checked against the firmware's own `min_value`/
/// `max_value` before the write, so an out-of-range request fails with
/// [`HwError::Parse`] naming the range instead of an opaque `EINVAL`. A write
/// attempted outside Custom mode fails with [`HwError::Busy`].
pub fn write_by_name(root: &mut SysRoot, dir_name: &str, watts: u32) -> (r: Result<(), HwError>)
    ensures
        rv(r) == write_result(old(root)@, dir_name@, watts),
        final(root)@ == after_write(old(root)@, dir_name@, watts),
{
    let info = read_by_name(root, dir_name)?;
    if !info.in_range(watts) {
        let a = cat(dec_string(watts as u64).as_str(), " W is out of range for ");
        let b = cat(a.as_str(), info.key.as_str());
        let c = cat(b.as_str(), ": ");
        let d = cat(c.as_str(), dec_string(info.min as u64).as_str());
        let e = cat(d.as_str(), "–");
        let f = cat(e.as_str(), dec_string(info.max as u64).as_str());
        return Err(HwError::Parse(cat(f.as_str(), " W")));
    }
    let base = join(ATTR_DIR, dir_name);
    let text = dec_string(watts as u64);
    root.write(join(base.as_str(), "current_value").as_str(), text.as_str())
}

/// Set one of the three known power limits, in watts.
pub fn write(root: &mut SysRoot, attr: PptAttr, watts: u32) -> (r: Result<(), HwError>)
    ensures
        rv(r) == write_result(old(root)@, ppt_dir(attr), watts),
        final(root)@ == after_write(old(root)@, ppt_dir(attr), watts),
{
    write_by_name(root, attr.dir_name(), watts)
}

/// Each attribute answers to its short key and to its directory name.
pub proof fn lemma_key_round_trip(a: PptAttr)
    ensures
        from_key_spec(ppt_key(a)) == Ok::<PptAttr, HwErrorView>(a),
        from_key_spec(ppt_dir(a)) == Ok::<PptAttr, HwErrorView>(a),
{
    reveal_strlit("spl");
    reveal_strlit("sppt");
    reveal_strlit("fppt");
    reveal_strlit("ppt_pl1_spl");
    reveal_strlit("ppt_pl2_sppt");
    reveal_strlit("ppt_pl3_fppt");
    let k = ppt_key(a);
    let d = ppt_dir(a);
    assert forall|i: int| 0 <= i < k.len() implies !is_ws(#[trigger] k[i]) by {}
    assert forall|i: int| 0 <= i < d.len() implies !is_ws(#[trigger] d[i]) by {}
    lemma_trim_plain(k);
    lemma_trim_plain(d);
    assert(lower(k) =~= k);
    assert(lower(d) =~= d);
    assert("spl"@.len() == 3 && "sppt"@.len() == 4 && "fppt"@.len() == 4);
    assert("ppt_pl1_spl"@.len() == 11 && "ppt_pl2_sppt"@.len() == 12 && "ppt_pl3_fppt"@.len() == 12);
    assert("sppt"@[0] != "fppt"@[0]);
    assert("ppt_pl2_sppt"@[6] != "ppt_pl3_fppt"@[6]);
}

proof fn lemma_other_files(v: SysView, name: Seq<char>, val: Seq<char>)
    ensures
        forall|leaf: Seq<char>|
            #![trigger subpath(attr_base(name), leaf)]
            leaf == "display_name"@ || leaf == "default_value"@ || leaf == "min_value"@ || leaf
                == "max_value"@ || leaf == "scalar_increment"@ ==> v.after_write(current_file(name), val).read(
                subpath(attr_base(name), leaf),
            ) == v.read(subpath(attr_base(name), leaf)),
{
    reveal_strlit("current_value");
    reveal_strlit("display_name");
    reveal_strlit("default_value");
    reveal_strlit("min_value");
    reveal_strlit("max_value");
    reveal_strlit("scalar_increment");
    assert forall|leaf: Seq<char>|
        #![trigger subpath(attr_base(name), leaf)]
        leaf == "display_name"@ || leaf == "default_value"@ || leaf == "min_value"@ || leaf == "max_value"@
            || leaf == "scalar_increment"@ implies v.after_write(current_file(name), val).read(
        subpath(attr_base(name), leaf),
    ) == v.read(subpath(attr_base(name), leaf)) by {
        assert(leaf != "current_value"@) by {
            assert("current_value"@.len() == 13);
            assert("display_name"@.len() == 12 && "default_value"@.len() == 13 && "min_value"@.len() == 9);
            assert("max_value"@.len() == 9 && "scalar_increment"@.len() == 16);
            assert("default_value"@[1] != "current_value"@[1]);
        }
        lemma_leaf_differs(attr_base(name), attr_base(name), leaf, "current_value"@);
        lemma_write_reads(v, current_file(name), val, subpath(attr_base(name), leaf));
    }
}

/// The files of an attribute's directory that reading or writing it uses.
pub open spec fn attr_leaf(leaf: Seq<char>) -> bool {
    ||| leaf == "current_value"@
    ||| leaf == "display_name"@
    ||| leaf == "default_value"@
    ||| leaf == "min_value"@
    ||| leaf == "max_value"@
    ||| leaf == "scalar_increment"@
}

/// A write to a path that is none of attribute `name`'s files leaves what
/// reading the attribute gives, and whether writing it succeeds, as they
/// were.
pub proof fn lemma_attr_frame(v: SysView, p: Seq<char>, val: Seq<char>, name: Seq<char>)
    requires
        forall|leaf: Seq<char>| #![trigger subpath(attr_base(name), leaf)] attr_leaf(leaf) ==> p != subpath(attr_base(name), leaf),
    ensures
        read_by_name_spec(v.after_write(p, val), name) == read_by_name_spec(v, name),
        forall|w: u32| #[trigger] write_result(v.after_write(p, val), name, w) == write_result(v, name, w),
{
    let u = v.after_write(p, val);
    let base = attr_base(name);
    lemma_write_keeps_paths(v, p, val);
    assert forall|leaf: Seq<char>| #![trigger subpath(base, leaf)] attr_leaf(leaf) implies u.read(subpath(base, leaf))
        == v.read(subpath(base, leaf)) by {
        lemma_write_reads(v, p, val, subpath(base, leaf));
    }
    assert(attr_leaf("current_value"@));
    assert(attr_leaf("display_name"@));
    assert(attr_leaf("default_value"@));
    assert(attr_leaf("min_value"@));
    assert(attr_leaf("max_value"@));
    assert(attr_leaf("scalar_increment"@));
    let cur = current_file(name);
    assert(u.read(cur) == v.read(cur));
    assert(u.has_path(cur) == v.has_path(cur));
    if v.write_result(p) is Ok {
        assert(u.tree == v.tree.insert(p, EntryView::File(val)));
        assert(p != cur);
        assert(u.tree.contains_key(cur) == v.tree.contains_key(cur));
        if v.tree.contains_key(cur) {
            assert(u.tree[cur] == v.tree[cur]);
        }
    }
    assert(u.write_result(cur) == v.write_result(cur));
}

/// `a/c == b/c` only when `a == b`.
proof fn lemma_subpath_cancel(x: Seq<char>, y: Seq<char>, c: Seq<char>)
    ensures
        subpath(x, c) == subpath(y, c) ==> x == y,
{
    if subpath(x, c) == subpath(y, c) {
        let s = subpath(x, c);
        assert(subpath(x, c).len() == x.len() + 1 + c.len());
        assert(subpath(y, c).len() == y.len() + 1 + c.len());
        assert(x.len() == y.len());
        assert(s.subrange(0, x.len() as int) =~= x);
        assert(s.subrange(0, y.len() as int) =~= y);
    }
}

/// `a/c == a/d` only when `c == d`.
proof fn lemma_subpath_cancel_left(x: Seq<char>, c: Seq<char>, d: Seq<char>)
    ensures
        subpath(x, c) == subpath(x, d) ==> c == d,
{
    if subpath(x, c) == subpath(x, d) {
        let s = subpath(x, c);
        assert(s.skip(x.len() + 1int) =~= c);
        assert(s.skip(x.len() + 1int) =~= d);
    }
}

/// Setting one power limit leaves what reading another gives, and whether
/// writing it succeeds, as they were.
pub proof fn lemma_other_limit_frame(v: SysView, a: PptAttr, b: PptAttr, watts: u32)
    requires
        a != b,
    ensures
        read_by_name_spec(after_write(v, ppt_dir(b), watts), ppt_dir(a)) == read_by_name_spec(v, ppt_dir(a)),
        forall|w: u32| #[trigger] write_result(after_write(v, ppt_dir(b), watts), ppt_dir(a), w) == write_result(v, ppt_dir(a), w),
{
    reveal_strlit("ppt_pl1_spl");
    reveal_strlit("ppt_pl2_sppt");
    reveal_strlit("ppt_pl3_fppt");
    reveal_strlit("current_value");
    reveal_strlit("display_name");
    reveal_strlit("default_value");
    reveal_strlit("min_value");
    reveal_strlit("max_value");
    reveal_strlit("scalar_increment");
    assert(ppt_dir(a) != ppt_dir(b)) by {
        assert("ppt_pl1_spl"@.len() != "ppt_pl2_sppt"@.len());
        assert("ppt_pl1_spl"@.len() != "ppt_pl3_fppt"@.len());
        assert("ppt_pl2_sppt"@[6] != "ppt_pl3_fppt"@[6]);
    }
    let p = current_file(ppt_dir(b));
    let base = attr_base(ppt_dir(a));
    lemma_subpath_cancel_left(ATTR_DIR@, ppt_dir(b), ppt_dir(a));
    lemma_subpath_cancel(attr_base(ppt_dir(b)), base, "current_value"@);
    assert forall|leaf: Seq<char>| #![trigger subpath(base, leaf)] attr_leaf(leaf) implies p != subpath(base, leaf) by {
        if leaf != "current_value"@ {
            assert forall|i: int| 0 <= i < leaf.len() implies #[trigger] leaf[i] != '/' by {}
            assert forall|i: int| 0 <= i < "current_value"@.len() implies #[trigger] "current_value"@[i] != '/' by {}
            lemma_leaf_differs(attr_base(ppt_dir(b)), base, "current_value"@, leaf);
        }
    }
    if read_by_name_spec(v, ppt_dir(b)) is Ok {
        let info = read_by_name_spec(v, ppt_dir(b))->Ok_0;
        if info.min <= watts && watts <= info.max {
            lemma_attr_frame(v, p, dec(watts as nat), ppt_dir(a));
        }
    }
}

/// A path whose eleventh character is not the `f` of
/// `sys/class/firmware-attributes` is none of any attribute's files.
pub proof fn lemma_outside_attrs(p: Seq<char>, name: Seq<char>)
    requires
        p.len() > 10,
        p[10] != 'f',
    ensures
        forall|leaf: Seq<char>| #![trigger subpath(attr_base(name), leaf)] p != subpath(attr_base(name), leaf),
{
    reveal_strlit("sys/class/firmware-attributes/lenovo-wmi-other-0/attributes");
    assert forall|leaf: Seq<char>| #![trigger subpath(attr_base(name), leaf)] p != subpath(attr_base(name), leaf) by {
        assert(subpath(attr_base(name), leaf)[10] == ATTR_DIR@[10]);
    }
}

/// A limit written within the firmware range reads back as written, with
/// every other field as before; a value outside the range is refused with
/// the range named and touches nothing.
pub proof fn lemma_write_then_read(v: SysView, name: Seq<char>, watts: u32)
    ensures
        write_result(v, name, watts) is Ok ==> ({
            let a = read_by_name_spec(v, name)->Ok_0;
            read_by_name_spec(after_write(v, name, watts), name) == Ok::<AttrInfoView, HwErrorView>(
                AttrInfoView {
                    key: a.key,
                    display_name: a.display_name,
                    current: watts,
                    default: a.default,
                    min: a.min,
                    max: a.max,
                    step: a.step,
                },
            )
        }),
        write_result(v, name, watts) is Err ==> after_write(v, name, watts) == v,
        (match read_by_name_spec(v, name) {
            Ok(a) => !(a.min <= watts && watts <= a.max) ==> write_result(v, name, watts) == Err::<
                (),
                HwErrorView,
            >(HwErrorView::Parse(range_msg(watts, a))),
            Err(_) => true,
        }),
{
    let f = current_file(name);
    let val = dec(watts as nat);
    lemma_write_reads(v, f, val, f);
    if write_result(v, name, watts) is Ok {
        lemma_write_keeps_paths(v, f, val);
        lemma_write_number(v, f, watts);
        lemma_other_files(v, name, val);
        reveal_strlit("display_name");
        reveal_strlit("default_value");
        reveal_strlit("min_value");
        reveal_strlit("max_value");
        reveal_strlit("scalar_increment");
        let w = v.after_write(f, val);
        let base = attr_base(name);
        assert(w.read(subpath(base, "display_name"@)) == v.read(subpath(base, "display_name"@)));
        assert(w.read(subpath(base, "default_value"@)) == v.read(subpath(base, "default_value"@)));
        assert(w.read(subpath(base, "min_value"@)) == v.read(subpath(base, "min_value"@)));
        assert(w.read(subpath(base, "max_value"@)) == v.read(subpath(base, "max_value"@)));
        assert(w.read(subpath(base, "scalar_increment"@)) == v.read(subpath(base, "scalar_increment"@)));
        assert(w.has_path(f) == v.has_path(f));
    }
}

} // verus!
