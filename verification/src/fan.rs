//! Fan speed readout.
//!
//! No fan hwmon exists on the 82WM with kernel 7.0 — verified live, there is
//! no `fanN_input` anywhere under `/sys/class/hwmon`. Newer mainline adds a
//! `lenovo-wmi-other` hwmon carrying `fanN_input`/`fanN_target`, so this module
//! *scans* rather than hardcoding: it returns `None` today and starts
//! reporting the moment a kernel exposes the sensors. Nothing here needs to
//! change when that happens.
//!
//! Fan *curves* are deliberately absent: no upstream interface exists.

use vstd::prelude::*;

use crate::sysfs::{list_dir_of, read_parsed_opt_spec, subpath, SysRoot, SysView, SysfsNumber};
use crate::text::{cat, chars_of, dec, dec_string, ends_with, has_prefix, has_suffix, join, owned, starts_with, string_of_range};

verus! {

pub const HWMON: &'static str = "sys/class/hwmon";

/// One fan's readings, in RPM.
#[derive(Debug, Clone, PartialEq, Eq)]
pub struct FanReading {
    /// hwmon attribute index (`fan1_input` → 1).
    pub index: u32,
    /// Measured speed.
    pub rpm: u32,
    /// Firmware's target speed, when the driver exposes `fanN_target`.
    pub target_rpm: Option<u32>,
    /// hwmon `name` the reading came from.
    pub source: String,
}

pub struct FanReadingView {
    pub index: u32,
    pub rpm: u32,
    pub target_rpm: Option<u32>,
    pub source: Seq<char>,
}

impl View for FanReading {
    type V = FanReadingView;

    open spec fn view(&self) -> FanReadingView {
        FanReadingView {
            index: self.index,
            rpm: self.rpm,
            target_rpm: self.target_rpm,
            source: self.source@,
        }
    }
}

/// The views of a list of readings.
pub open spec fn fan_views(v: Seq<FanReading>) -> Seq<FanReadingView> {
    v.map_values(|r: FanReading| r@)
}

/// A `fanN_input` file name.
pub open spec fn is_fan_input(n: Seq<char>) -> bool {
    starts_with(n, "fan"@) && ends_with(n, "_input"@)
}

/// `is_fan_input` as a predicate value.
pub open spec fn fan_pred() -> spec_fn(Seq<char>) -> bool {
    |n: Seq<char>| is_fan_input(n)
}

/// The index of `fanN_input`: `N`, when it is a `u32`.
pub open spec fn fan_index(n: Seq<char>) -> Option<u32> {
    if n.len() >= 9 && is_fan_input(n) {
        u32::parse_spec(n.subrange(3, n.len() - 6))
    } else {
        None
    }
}

/// The reading that input `n` of hwmon directory `h` gives, if any.
pub open spec fn reading_for(v: SysView, h: Seq<char>, src: Seq<char>, n: Seq<char>) -> Option<FanReadingView> {
    match fan_index(n) {
        None => None,
        Some(i) => match read_parsed_opt_spec::<u32>(v, subpath(h, n)) {
            None => None,
            Some(rpm) => Some(
                FanReadingView {
                    index: i,
                    rpm,
                    target_rpm: read_parsed_opt_spec::<u32>(
                        v,
                        subpath(h, "fan"@ + dec(i as nat) + "_target"@),
                    ),
                    source: src,
                },
            ),
        },
    }
}

/// The readings of the inputs `ns` of hwmon directory `h`.
pub open spec fn fan_scan(v: SysView, h: Seq<char>, src: Seq<char>, ns: Seq<Seq<char>>) -> Seq<FanReadingView>
    decreases ns.len(),
{
    if ns.len() == 0 {
        seq![]
    } else {
        (match reading_for(v, h, src, ns[0]) {
            Some(r) => seq![r],
            None => seq![],
        }) + fan_scan(v, h, src, ns.drop_first())
    }
}

/// The `name` of hwmon entry `e`, or the entry's own name.
pub open spec fn hwmon_source(v: SysView, e: Seq<char>) -> Seq<char> {
    match v.read_opt(subpath(subpath(HWMON@, e), "name"@)) {
        Some(n) => n,
        None => e,
    }
}

/// The readings of hwmon entry `e`.
pub open spec fn per_hwmon(v: SysView, e: Seq<char>) -> Seq<FanReadingView> {
    let h = subpath(HWMON@, e);
    fan_scan(v, h, hwmon_source(v, e), v.listing(h).filter(fan_pred()))
}

/// The readings of the hwmon entries `es`.
pub open spec fn hw_scan(v: SysView, es: Seq<Seq<char>>) -> Seq<FanReadingView>
    decreases es.len(),
{
    if es.len() == 0 {
        seq![]
    } else {
        per_hwmon(v, es[0]) + hw_scan(v, es.drop_first())
    }
}

/// Every fan the kernel reports.
pub open spec fn readings_spec(v: SysView) -> Seq<FanReadingView> {
    hw_scan(v, v.listing(HWMON@))
}

/// The fan inputs of hwmon directory `hwmon`, in name order.
fn fan_inputs(root: &SysRoot, hwmon: &str) -> (r: Vec<String>)
    ensures
        r@.len() == root@.listing(hwmon@).filter(fan_pred()).len(),
        forall|k: int| 0 <= k < r@.len() ==> #[trigger] r@[k]@ == root@.listing(hwmon@).filter(
            fan_pred(),
        )[k],
{
    let entries = list_dir_of(root, hwmon);
    let ghost es = root@.listing(hwmon@);
    let ghost pred = fan_pred();
    let mut names: Vec<String> = Vec::new();
    let mut i: usize = 0;
    while i < entries.len()
        invariant
            i <= entries@.len() == es.len(),
            pred == fan_pred(),
            es == root@.listing(hwmon@),
            forall|k: int| 0 <= k < entries@.len() ==> #[trigger] entries@[k]@ == es[k],
            names@.len() == es.take(i as int).filter(pred).len(),
            forall|k: int| 0 <= k < names@.len() ==> #[trigger] names@[k]@ == es.take(i as int).filter(pred)[k],
        decreases entries.len() - i,
    {
        proof {
            reveal(Seq::filter);
            assert(es.take(i + 1).drop_last() =~= es.take(i as int));
            assert(es.take(i + 1).last() == es[i as int]);
        }
        let name = entries[i].as_str();
        if has_prefix(name, "fan") && has_suffix(name, "_input") {
            names.push(entries[i].clone());
            proof {
                assert(pred(es[i as int]));
                assert(es.take(i + 1).filter(pred) == es.take(i as int).filter(pred).push(es[i as int]));
            }
        } else {
            proof {
                assert(!pred(es[i as int]));
                assert(es.take(i + 1).filter(pred) == es.take(i as int).filter(pred));
            }
        }
        i = i + 1;
    }
    proof {
        assert(es.take(es.len() as int) =~= es);
    }
    names
}

/// The index of a `fanN_input` name.
fn index_of_input(name: &str) -> (r: Option<u32>)
    ensures
        r == fan_index(name@),
{
    let v = chars_of(name);
    let n = v.len();
    if n >= 9 && has_prefix(name, "fan") && has_suffix(name, "_input") {
        let mid = string_of_range(&v, 3, n - 6);
        u32::parse_text(mid.as_str())
    } else {
        None
    }
}

/// Every fan the kernel currently reports, across all hwmon devices.
pub fn readings(root: &SysRoot) -> (r: Vec<FanReading>)
    ensures
        fan_views(r@) == readings_spec(root@),
{
    let entries = list_dir_of(root, HWMON);
    let ghost es = root@.listing(HWMON@);
    let mut out: Vec<FanReading> = Vec::new();
    let mut i: usize = 0;
    proof {
        assert(es.skip(0) =~= es);
        assert(fan_views(out@) + hw_scan(root@, es) =~= hw_scan(root@, es));
    }
    while i < entries.len()
        invariant
            i <= entries@.len() == es.len(),
            es == root@.listing(HWMON@),
            forall|k: int| 0 <= k < entries@.len() ==> #[trigger] entries@[k]@ == es[k],
            readings_spec(root@) == fan_views(out@) + hw_scan(root@, es.skip(i as int)),
        decreases entries.len() - i,
    {
        let entry = entries[i].as_str();
        let hwmon = join(HWMON, entry);
        let source = match root.read_opt(join(hwmon.as_str(), "name").as_str()) {
            Some(n) => n,
            None => owned(entry),
        };
        let names = fan_inputs(root, hwmon.as_str());
        let ghost ns = root@.listing(hwmon@).filter(fan_pred());
        let ghost before = fan_views(out@);
        proof {
            let t = es.skip(i as int);
            assert(t[0] == es[i as int]);
            assert(t.drop_first() =~= es.skip(i + 1));
            assert(source@ == hwmon_source(root@, es[i as int]));
            assert(per_hwmon(root@, es[i as int]) == fan_scan(root@, hwmon@, source@, ns));
            assert(ns.skip(0) =~= ns);
            assert(fan_views(out@) + fan_scan(root@, hwmon@, source@, ns) =~= before + fan_scan(
                root@,
                hwmon@,
                source@,
                ns.skip(0),
            ));
        }
        let mut j: usize = 0;
        while j < names.len()
            invariant
                j <= names@.len() == ns.len(),
                forall|k: int| 0 <= k < names@.len() ==> #[trigger] names@[k]@ == ns[k],
                before + fan_scan(root@, hwmon@, source@, ns) == fan_views(out@) + fan_scan(
                    root@,
                    hwmon@,
                    source@,
                    ns.skip(j as int),
                ),
            decreases names.len() - j,
        {
            let name = names[j].as_str();
            let ghost t = ns.skip(j as int);
            proof {
                assert(t[0] == ns[j as int]);
                assert(t.drop_first() =~= ns.skip(j + 1));
            }
            match index_of_input(name) {
                None => {
                    proof {
                        assert(fan_scan(root@, hwmon@, source@, t) =~= fan_scan(
                            root@,
                            hwmon@,
                            source@,
                            ns.skip(j + 1),
                        ));
                    }
                },
                Some(index) => {
                    let input = join(hwmon.as_str(), name);
                    match root.read_parsed_opt::<u32>(input.as_str()) {
                        None => {
                            proof {
                                assert(fan_scan(root@, hwmon@, source@, t) =~= fan_scan(
                                    root@,
                                    hwmon@,
                                    source@,
                                    ns.skip(j + 1),
                                ));
                            }
                        },
                        Some(rpm) => {
                            let a = cat("fan", dec_string(index as u64).as_str());
                            let target_name = cat(a.as_str(), "_target");
                            let target_file = join(hwmon.as_str(), target_name.as_str());
                            let target_rpm = root.read_parsed_opt::<u32>(target_file.as_str());
                            let reading = FanReading {
                                index,
                                rpm,
                                target_rpm,
                                source: owned(source.as_str()),
                            };
                            let ghost rv = reading@;
                            proof {
                                assert(reading_for(root@, hwmon@, source@, t[0]) == Some(rv));
                                assert(fan_scan(root@, hwmon@, source@, t) =~= seq![rv] + fan_scan(
                                    root@,
                                    hwmon@,
                                    source@,
                                    ns.skip(j + 1),
                                ));
                            }
                            let ghost prev = out@;
                            out.push(reading);
                            proof {
                                assert(fan_views(out@) =~= fan_views(prev).push(rv));
                                assert(fan_views(prev) + (seq![rv] + fan_scan(
                                    root@,
                                    hwmon@,
                                    source@,
                                    ns.skip(j + 1),
                                )) =~= fan_views(out@) + fan_scan(
                                    root@,
                                    hwmon@,
                                    source@,
                                    ns.skip(j + 1),
                                ));
                            }
                        },
                    }
                },
            }
            j = j + 1;
        }
        proof {
            assert(ns.skip(j as int) =~= Seq::<Seq<char>>::empty());
            assert(fan_views(out@) + Seq::<FanReadingView>::empty() =~= fan_views(out@));
            let t = es.skip(i as int);
            assert(hw_scan(root@, t) == per_hwmon(root@, es[i as int]) + hw_scan(root@, es.skip(i + 1)));
            assert(before + (per_hwmon(root@, es[i as int]) + hw_scan(root@, es.skip(i + 1))) =~= (before
                + per_hwmon(root@, es[i as int])) + hw_scan(root@, es.skip(i + 1)));
        }
        i = i + 1;
    }
    proof {
        assert(es.skip(i as int) =~= Seq::<Seq<char>>::empty());
        assert(fan_views(out@) + Seq::<FanReadingView>::empty() =~= fan_views(out@));
    }
    out
}

/// A reading of a directory's inputs is one of the readings of the
/// directories.
proof fn lemma_hw_scan_has(v: SysView, es: Seq<Seq<char>>, i: int, x: FanReadingView)
    requires
        0 <= i < es.len(),
        per_hwmon(v, es[i]).contains(x),
    ensures
        hw_scan(v, es).contains(x),
    decreases es.len(),
{
    let a = per_hwmon(v, es[0]);
    let b = hw_scan(v, es.drop_first());
    assert(hw_scan(v, es) == a + b);
    if i == 0 {
        let k = choose|k: int| 0 <= k < a.len() && a[k] == x;
        assert((a + b)[k] == x);
    } else {
        assert(es.drop_first()[i - 1] == es[i]);
        lemma_hw_scan_has(v, es.drop_first(), i - 1, x);
        let k = choose|k: int| 0 <= k < b.len() && b[k] == x;
        assert((a + b)[a.len() + k] == x);
    }
}

/// The reading an input gives is one of the readings of its directory.
proof fn lemma_fan_scan_has(v: SysView, h: Seq<char>, src: Seq<char>, ns: Seq<Seq<char>>, j: int)
    requires
        0 <= j < ns.len(),
        reading_for(v, h, src, ns[j]) is Some,
    ensures
        fan_scan(v, h, src, ns).contains(reading_for(v, h, src, ns[j])->Some_0),
    decreases ns.len(),
{
    let x = reading_for(v, h, src, ns[j])->Some_0;
    let a = match reading_for(v, h, src, ns[0]) {
        Some(r) => seq![r],
        None => seq![],
    };
    let b = fan_scan(v, h, src, ns.drop_first());
    assert(fan_scan(v, h, src, ns) == a + b);
    if j == 0 {
        assert((a + b)[0] == x);
    } else {
        assert(ns.drop_first()[j - 1] == ns[j]);
        lemma_fan_scan_has(v, h, src, ns.drop_first(), j - 1);
        let k = choose|k: int| 0 <= k < b.len() && b[k] == x;
        assert((a + b)[a.len() + k] == x);
    }
}

/// Every fan is reported: for any hwmon directory `e`, wherever it stands
/// among the hwmon directories, and any `fanN_input` in it whose `N` and
/// whose contents read as numbers, the readings hold one with that index,
/// that speed, the `fanN_target` speed when it reads as a number, and the
/// directory's `name` as its source. So the first fan's speed is known and
/// fans count as available.
pub proof fn lemma_every_fan_reported(v: SysView, e: Seq<char>, n: Seq<char>)
    requires
        v.listing(HWMON@).contains(e),
        v.listing(subpath(HWMON@, e)).contains(n),
        fan_index(n) is Some,
        read_parsed_opt_spec::<u32>(v, subpath(subpath(HWMON@, e), n)) is Some,
    ensures
        ({
            let h = subpath(HWMON@, e);
            let k = fan_index(n)->Some_0;
            readings_spec(v).contains(
                FanReadingView {
                    index: k,
                    rpm: read_parsed_opt_spec::<u32>(v, subpath(h, n))->Some_0,
                    target_rpm: read_parsed_opt_spec::<u32>(v, subpath(h, "fan"@ + dec(k as nat) + "_target"@)),
                    source: hwmon_source(v, e),
                },
            )
        }),
        rpm_spec(v) is Some,
{
    let h = subpath(HWMON@, e);
    let es = v.listing(HWMON@);
    let ns = v.listing(h);
    let i = choose|i: int| 0 <= i < es.len() && es[i] == e;
    let j = choose|j: int| 0 <= j < ns.len() && ns[j] == n;
    assert(fan_pred()(ns[j]));
    ns.lemma_filter_contains(fan_pred(), j);
    let fs = ns.filter(fan_pred());
    let jj = choose|jj: int| 0 <= jj < fs.len() && fs[jj] == n;
    let src = hwmon_source(v, e);
    lemma_fan_scan_has(v, h, src, fs, jj);
    let x = reading_for(v, h, src, n)->Some_0;
    assert(per_hwmon(v, e) == fan_scan(v, h, src, fs));
    lemma_hw_scan_has(v, es, i, x);
    let k = choose|k: int| 0 <= k < readings_spec(v).len() && readings_spec(v)[k] == x;
    assert(readings_spec(v).len() > 0);
}

/// What `rpm` gives: the speed of the first fan reported.
pub open spec fn rpm_spec(v: SysView) -> Option<u32> {
    if readings_spec(v).len() > 0 {
        Some(readings_spec(v)[0].rpm)
    } else {
        None
    }
}

/// Speed of the first fan, or `None` when the kernel exposes no fan sensors.
pub fn rpm(root: &SysRoot) -> (r: Option<u32>)
    ensures
        r == rpm_spec(root@),
{
    let rs = readings(root);
    if rs.len() > 0 {
        proof {
            assert(fan_views(rs@)[0] == rs@[0]@);
        }
        Some(rs[0].rpm)
    } else {
        None
    }
}

/// Does this kernel expose any fan sensor at all?
pub fn available(root: &SysRoot) -> (r: bool)
    ensures
        r == (readings_spec(root@).len() > 0),
{
    let rs = readings(root);
    rs.len() > 0
}

} // verus!
