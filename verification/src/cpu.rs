//! CPU boost, governor and temperature.
//!
//! Boost lives at `/sys/devices/system/cpu/cpufreq/boost` (the AMD
//! acpi-cpufreq / amd-pstate path). Governor, EPP and current frequency are
//! read-only display values. Temperature comes from the `k10temp` hwmon, found
//! by scanning `name` files rather than hardcoding an index — hwmon numbering
//! is not stable across boots.

use vstd::prelude::*;

use crate::error::{rv, HwError};
use crate::ideapad::{bool_text, lemma_bool_text};
use crate::sysfs::{
    find_hwmon, first_named, lemma_write_number, lemma_write_reads, list_dir_of, read_parsed_opt_spec, subpath,
    SysRoot, SysView,
};
use crate::text::{
    chars_of, ends_with, eq_ignore_ascii_case, eq_ignore_case, float_text, has_prefix, has_suffix,
    is_float_text, join, parse_dec, parse_unsigned, replace_all, replace_str, starts_with, string_of_range,
};

verus! {

pub const CPUFREQ: &'static str = "sys/devices/system/cpu/cpufreq";

pub const CPU0: &'static str = "sys/devices/system/cpu/cpu0/cpufreq";

/// The global boost toggle.
pub open spec fn boost_file() -> Seq<char> {
    subpath(CPUFREQ@, "boost"@)
}

/// The cpu0 attribute `a`.
pub open spec fn cpu0_file(a: Seq<char>) -> Seq<char> {
    subpath(CPU0@, a)
}

/// Is the global boost toggle present?
pub fn has_boost(root: &SysRoot) -> (r: bool)
    ensures
        r == root@.has_path(boost_file()),
{
    root.path_exists(join(CPUFREQ, "boost").as_str())
}

/// What `get_boost` gives.
pub open spec fn get_boost_spec(v: SysView) -> Option<bool> {
    match read_parsed_opt_spec::<u32>(v, boost_file()) {
        Some(x) => Some(x != 0),
        None => None,
    }
}

/// Is boost enabled?
pub fn get_boost(root: &SysRoot) -> (r: Option<bool>)
    ensures
        r == get_boost_spec(root@),
{
    match root.read_parsed_opt::<u32>(join(CPUFREQ, "boost").as_str()) {
        Some(v) => Some(v != 0),
        None => None,
    }
}

/// Enable or disable boost.
pub fn set_boost(root: &mut SysRoot, on: bool) -> (r: Result<(), HwError>)
    ensures
        rv(r) == old(root)@.write_result(boost_file()),
        final(root)@ == old(root)@.after_write(boost_file(), bool_text(on)),
{
    root.write(
        join(CPUFREQ, "boost").as_str(),
        if on {
            "1"
        } else {
            "0"
        },
    )
}

/// `Some(s@)` of an optional string.
pub open spec fn sv(o: Option<String>) -> Option<Seq<char>> {
    match o {
        Some(s) => Some(s@),
        None => None,
    }
}

/// Active scaling governor (e.g. `powersave` with amd-pstate).
pub fn governor(root: &SysRoot) -> (r: Option<String>)
    ensures
        sv(r) == root@.read_opt(cpu0_file("scaling_governor"@)),
{
    root.read_opt(join(CPU0, "scaling_governor").as_str())
}

/// Active energy/performance preference.
pub fn epp(root: &SysRoot) -> (r: Option<String>)
    ensures
        sv(r) == root@.read_opt(cpu0_file("energy_performance_preference"@)),
{
    root.read_opt(join(CPU0, "energy_performance_preference").as_str())
}

/// Current frequency of cpu0, in kHz as the kernel reports it.
pub fn cur_freq_khz(root: &SysRoot) -> (r: Option<u64>)
    ensures
        r == read_parsed_opt_spec::<u64>(root@, cpu0_file("scaling_cur_freq"@)),
{
    root.read_parsed_opt::<u64>(join(CPU0, "scaling_cur_freq").as_str())
}

/// A `tempN_input` file name.
pub open spec fn is_temp_input(n: Seq<char>) -> bool {
    starts_with(n, "temp"@) && ends_with(n, "_input"@)
}

/// Is the label file of sensor input `n` in `hwmon` `Tctl` or `Tdie`?
pub open spec fn is_package_sensor(v: SysView, hwmon: Seq<char>, n: Seq<char>) -> bool {
    match v.read_opt(subpath(hwmon, replace_all(n, "_input"@, "_label"@))) {
        Some(l) => eq_ignore_case(l, "Tctl"@) || eq_ignore_case(l, "Tdie"@),
        None => false,
    }
}

/// The first input in `ins` labelled as the package sensor.
pub open spec fn first_package(v: SysView, hwmon: Seq<char>, ins: Seq<Seq<char>>) -> Option<Seq<char>>
    decreases ins.len(),
{
    if ins.len() == 0 {
        None
    } else if is_package_sensor(v, hwmon, ins[0]) {
        Some(ins[0])
    } else {
        first_package(v, hwmon, ins.drop_first())
    }
}

/// The `k10temp` hwmon directory.
pub open spec fn k10temp_spec(v: SysView) -> Option<Seq<char>> {
    first_named(v, "sys/class/hwmon"@, v.listing("sys/class/hwmon"@), "k10temp"@)
}

/// The sensor input files of `hwmon`, in name order.
pub open spec fn temp_inputs(v: SysView, hwmon: Seq<char>) -> Seq<Seq<char>> {
    v.listing(hwmon).filter(temp_pred())
}

/// `is_temp_input` as a predicate value.
pub open spec fn temp_pred() -> spec_fn(Seq<char>) -> bool {
    |n: Seq<char>| is_temp_input(n)
}

/// The number `N` of a `tempN_input` file name, when `N` reads as an
/// unsigned number.
pub open spec fn temp_number(n: Seq<char>) -> Option<nat> {
    if n.len() >= 10 {
        parse_unsigned(n.subrange(4, n.len() - 6), u64::MAX as nat)
    } else {
        None
    }
}

/// Sensor number `a` comes before `b`: a smaller number first, and a
/// numbered input before one whose `N` is not a number.
pub open spec fn number_before(a: Option<nat>, b: Option<nat>) -> bool {
    match (a, b) {
        (Some(x), Some(y)) => x < y,
        (Some(_), None) => true,
        _ => false,
    }
}

/// The lowest-numbered input of a nonempty list; of inputs with the same
/// number, the first.
pub open spec fn lowest_numbered(ins: Seq<Seq<char>>) -> Seq<char>
    decreases ins.len(),
{
    if ins.len() <= 1 {
        ins[0]
    } else {
        let b = lowest_numbered(ins.drop_last());
        if number_before(temp_number(ins.last()), temp_number(b)) {
            ins.last()
        } else {
            b
        }
    }
}

/// The sensor the CPU temperature is read from: the labelled `Tctl`/`Tdie`
/// input when there is one, else the lowest-numbered `tempN_input`.
pub open spec fn temp_sensor_spec(v: SysView) -> Option<Seq<char>> {
    match k10temp_spec(v) {
        None => None,
        Some(h) => {
            let ins = temp_inputs(v, h);
            match first_package(v, h, ins) {
                Some(n) => Some(subpath(h, n)),
                None => if ins.len() > 0 {
                    Some(subpath(h, lowest_numbered(ins)))
                } else {
                    None
                },
            }
        },
    }
}

/// The lowest-numbered input is one of the inputs, and no input comes
/// before it.
pub proof fn lemma_lowest_numbered(ins: Seq<Seq<char>>)
    requires
        ins.len() > 0,
    ensures
        ins.contains(lowest_numbered(ins)),
        forall|i: int|
            0 <= i < ins.len() ==> !number_before(
                temp_number(#[trigger] ins[i]),
                temp_number(lowest_numbered(ins)),
            ),
    decreases ins.len(),
{
    if ins.len() > 1 {
        let t = ins.drop_last();
        lemma_lowest_numbered(t);
        let b = lowest_numbered(t);
        let j = choose|j: int| 0 <= j < t.len() && t[j] == b;
        assert(ins[j] == b);
        assert forall|i: int| 0 <= i < ins.len() implies !number_before(
            temp_number(#[trigger] ins[i]),
            temp_number(lowest_numbered(ins)),
        ) by {
            if i < ins.len() - 1 {
                assert(ins[i] == t[i]);
            }
        }
        if number_before(temp_number(ins.last()), temp_number(b)) {
            assert(ins[ins.len() - 1] == ins.last());
        }
    } else {
        assert(ins[0] == lowest_numbered(ins));
    }
}

/// When no input is labelled `Tctl`/`Tdie`, the temperature is read from an
/// input of the `k10temp` hwmon whose number is the lowest: no other input
/// has a smaller number, and a numbered input is preferred to an unnumbered
/// one.
pub proof fn lemma_fallback_lowest_numbered(v: SysView)
    requires
        k10temp_spec(v) is Some,
        first_package(v, k10temp_spec(v).unwrap(), temp_inputs(v, k10temp_spec(v).unwrap())) is None,
        temp_inputs(v, k10temp_spec(v).unwrap()).len() > 0,
    ensures
        ({
            let h = k10temp_spec(v).unwrap();
            let ins = temp_inputs(v, h);
            exists|n: Seq<char>|
                #[trigger] ins.contains(n) && temp_sensor_spec(v) == Some(subpath(h, n)) && forall|i: int|
                    0 <= i < ins.len() ==> !number_before(temp_number(#[trigger] ins[i]), temp_number(n))
        }),
{
    let h = k10temp_spec(v).unwrap();
    let ins = temp_inputs(v, h);
    lemma_lowest_numbered(ins);
    assert(ins.contains(lowest_numbered(ins)));
}

/// The number of a `tempN_input` file name.
fn temp_number_of(name: &str) -> (r: Option<u64>)
    ensures
        r == match temp_number(name@) {
            Some(n) => Some(n as u64),
            None => None::<u64>,
        },
{
    let v = chars_of(name);
    if v.len() < 10 {
        return None;
    }
    let mid = string_of_range(&v, 4, v.len() - 6);
    parse_dec(mid.as_str(), u64::MAX)
}

/// `number_before` on numbers read by `temp_number_of`.
fn comes_before(a: Option<u64>, b: Option<u64>) -> (r: bool)
    ensures
        r == number_before(
            match a {
                Some(x) => Some(x as nat),
                None => None,
            },
            match b {
                Some(x) => Some(x as nat),
                None => None,
            },
        ),
{
    match (a, b) {
        (Some(x), Some(y)) => x < y,
        (Some(_), None) => true,
        _ => false,
    }
}

/// The file the CPU package temperature (in millidegrees Celsius) is read
/// from, from the `k10temp` hwmon.
///
/// Prefers the sensor labelled `Tctl`/`Tdie` when labels are present, else
/// falls back to the lowest-numbered `tempN_input` (by the number `N`, so
/// `temp2_input` comes before `temp10_input`).
pub fn temp_sensor_file(root: &SysRoot) -> (r: Option<String>)
    ensures
        sv(r) == temp_sensor_spec(root@),
{
    let hwmon = match find_hwmon(root, "k10temp") {
        Some(h) => h,
        None => return None,
    };
    let entries = list_dir_of(root, hwmon.as_str());
    let ghost es = root@.listing(hwmon@);
    let ghost pred = temp_pred();
    let mut inputs: Vec<String> = Vec::new();
    let mut i: usize = 0;
    while i < entries.len()
        invariant
            i <= entries@.len() == es.len(),
            pred == temp_pred(),
            es == root@.listing(hwmon@),
            forall|k: int| 0 <= k < entries@.len() ==> #[trigger] entries@[k]@ == es[k],
            inputs@.len() == es.take(i as int).filter(pred).len(),
            forall|k: int| 0 <= k < inputs@.len() ==> #[trigger] inputs@[k]@ == es.take(i as int).filter(pred)[k],
        decreases entries.len() - i,
    {
        proof {
            reveal(Seq::filter);
            assert(es.take(i + 1).drop_last() =~= es.take(i as int));
            assert(es.take(i + 1).last() == es[i as int]);
        }
        let name = entries[i].as_str();
        if has_prefix(name, "temp") && has_suffix(name, "_input") {
            inputs.push(entries[i].clone());
            proof {
                assert(pred(es[i as int]));
                assert(es.take(i + 1).filter(pred) == es.take(i as int).filter(pred).push(es[i as int]));
            }
        } else {
            proof {
                assert(!pred(es[i as int]));
                assert(es.take(i + 1).filter(pred) == es.take(i as int).filter(pred));
            }
        }
        i = i + 1;
    }
    let ghost ins = temp_inputs(root@, hwmon@);
    proof {
        reveal_strlit("_input");
        assert(es.take(es.len() as int) =~= es);
        assert(ins.skip(0) =~= ins);
    }
    let mut j: usize = 0;
    while j < inputs.len()
        invariant
            j <= inputs@.len() == ins.len(),
            ins == temp_inputs(root@, hwmon@),
            k10temp_spec(root@) == Some(hwmon@),
            "_input"@.len() > 0,
            forall|k: int| 0 <= k < inputs@.len() ==> #[trigger] inputs@[k]@ == ins[k],
            first_package(root@, hwmon@, ins) == first_package(root@, hwmon@, ins.skip(j as int)),
        decreases inputs.len() - j,
    {
        proof {
            let t = ins.skip(j as int);
            assert(t[0] == ins[j as int]);
            assert(t.drop_first() =~= ins.skip(j + 1));
        }
        let label_name = replace_str(inputs[j].as_str(), "_input", "_label");
        let label_file = join(hwmon.as_str(), label_name.as_str());
        let hit = match root.read_opt(label_file.as_str()) {
            Some(l) => eq_ignore_ascii_case(l.as_str(), "Tctl") || eq_ignore_ascii_case(
                l.as_str(),
                "Tdie",
            ),
            None => false,
        };
        if hit {
            return Some(join(hwmon.as_str(), inputs[j].as_str()));
        }
        j = j + 1;
    }
    if inputs.len() == 0 {
        return None;
    }
    let mut best: usize = 0;
    let mut best_number = temp_number_of(inputs[0].as_str());
    let mut m: usize = 1;
    proof {
        assert(ins.take(1).len() == 1);
        assert(ins.take(1)[0] == ins[0]);
    }
    while m < inputs.len()
        invariant
            1 <= m <= inputs@.len() == ins.len(),
            best < m,
            forall|k: int| 0 <= k < inputs@.len() ==> #[trigger] inputs@[k]@ == ins[k],
            ins[best as int] == lowest_numbered(ins.take(m as int)),
            best_number == match temp_number(ins[best as int]) {
                Some(n) => Some(n as u64),
                None => None::<u64>,
            },
        decreases inputs.len() - m,
    {
        let n = temp_number_of(inputs[m].as_str());
        proof {
            let t = ins.take(m + 1);
            assert(t.drop_last() =~= ins.take(m as int));
            assert(t.last() == ins[m as int]);
        }
        if comes_before(n, best_number) {
            best = m;
            best_number = n;
        }
        m = m + 1;
    }
    proof {
        assert(ins.take(ins.len() as int) =~= ins);
    }
    Some(join(hwmon.as_str(), inputs[best].as_str()))
}

/// Can the CPU temperature be read: is there a sensor file whose contents
/// `f64::from_str` accepts?
pub open spec fn temp_readable_spec(v: SysView) -> bool {
    match temp_sensor_spec(v) {
        None => false,
        Some(f) => match v.read_opt(f) {
            Some(t) => float_text(t),
            None => false,
        },
    }
}

/// Is a CPU temperature available, i.e. would reading it give a value?
pub fn temp_available(root: &SysRoot) -> (r: bool)
    ensures
        r == temp_readable_spec(root@),
{
    match temp_sensor_file(root) {
        None => false,
        Some(f) => match root.read_opt(f.as_str()) {
            Some(t) => is_float_text(t.as_str()),
            None => false,
        },
    }
}

/// A boost setting that was written reads back as written; a refused write
/// leaves the tree as it was.
pub proof fn lemma_boost_round_trip(v: SysView, on: bool)
    ensures
        v.write_result(boost_file()) is Ok ==> get_boost_spec(
            v.after_write(boost_file(), bool_text(on)),
        ) == Some(on),
        v.write_result(boost_file()) is Err ==> v.after_write(boost_file(), bool_text(on)) == v,
{
    lemma_bool_text(on);
    lemma_write_reads(v, boost_file(), bool_text(on), boost_file());
    if v.write_result(boost_file()) is Ok {
        lemma_write_number(v, boost_file(), if on {
            1u32
        } else {
            0u32
        });
    }
}

} // verus!
