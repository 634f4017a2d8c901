//! Battery charge mode and statistics over the standard power_supply ABI.
//!
//! Charging behaviour is controlled through `charge_types` (kernel 6.19+),
//! which supersedes ideapad's deprecated `conservation_mode` and covers rapid
//! charging too. The file reads as a list of every supported type with the
//! active one bracketed, e.g. `Fast Standard [Long_Life]`; writing one of the
//! bare names selects it. The modes are mutually exclusive — the kernel
//! enforces that, so this module never has to.
//!
//! Note: this battery exposes no `temp` attribute, so [`BatteryStats`] has no
//! temperature field.

use vstd::prelude::*;

use crate::error::{rv, HwError, HwErrorView};
use crate::sysfs::{list_dir_of, read_parsed_opt_spec, sorted_strict, subpath, SysRoot, SysView};
use crate::text::{
    cat, chars_of, debug_quoted, eq_ignore_ascii_case, eq_ignore_case, has_prefix, is_ws, join,
    lemma_trim_plain, lower,
    lowered, owned, push_char, seq_lt, split_words, starts_with, str_debug, str_eq, string_of_range, trim,
    trimmed, words,
};

verus! {

pub const BAT: &'static str = "sys/class/power_supply/BAT0";

pub const SUPPLIES: &'static str = "sys/class/power_supply";

/// How the firmware is allowed to charge the battery.
#[derive(Debug, Clone, Copy, PartialEq, Eq, Structural)]
pub enum ChargeMode {
    /// Normal charging to 100%.
    Standard,
    /// Rapid charge.
    Fast,
    /// Conservation mode — caps around 60–80% to preserve battery health.
    LongLife,
}

/// The kernel's spelling of a charge mode.
pub open spec fn cm_sysfs(m: ChargeMode) -> Seq<char> {
    match m {
        ChargeMode::Standard => "Standard"@,
        ChargeMode::Fast => "Fast"@,
        ChargeMode::LongLife => "Long_Life"@,
    }
}

/// The short key of a charge mode.
pub open spec fn cm_key(m: ChargeMode) -> Seq<char> {
    match m {
        ChargeMode::Standard => "standard"@,
        ChargeMode::Fast => "fast"@,
        ChargeMode::LongLife => "long-life"@,
    }
}

/// The GUI label of a charge mode.
pub open spec fn cm_label(m: ChargeMode) -> Seq<char> {
    match m {
        ChargeMode::Standard => "Standard"@,
        ChargeMode::Fast => "Rapid charge"@,
        ChargeMode::LongLife => "Conservation"@,
    }
}

/// The first mode (in `ALL` order) whose kernel spelling equals `t` up to
/// ASCII case.
pub open spec fn cm_parse(t: Seq<char>) -> Option<ChargeMode> {
    if eq_ignore_case(cm_sysfs(ChargeMode::Standard), t) {
        Some(ChargeMode::Standard)
    } else if eq_ignore_case(cm_sysfs(ChargeMode::Fast), t) {
        Some(ChargeMode::Fast)
    } else if eq_ignore_case(cm_sysfs(ChargeMode::LongLife), t) {
        Some(ChargeMode::LongLife)
    } else {
        None
    }
}

/// What `ChargeMode::from_sysfs` gives.
pub open spec fn cm_from_sysfs_spec(s: Seq<char>) -> Result<ChargeMode, HwErrorView> {
    match cm_parse(trim(s)) {
        Some(m) => Ok(m),
        None => Err(HwErrorView::Parse("unknown charge type "@ + str_debug(trim(s)))),
    }
}

/// `s` with each character in `from` replaced by `-`.
pub open spec fn dashed(s: Seq<char>, underscores: bool, spaces: bool) -> Seq<char> {
    s.map_values(
        |c: char|
            if (underscores && c == '_') || (spaces && c == ' ') {
                '-'
            } else {
                c
            },
    )
}

/// `s` without its dashes.
pub open spec fn undashed(s: Seq<char>) -> Seq<char> {
    s.filter(|c: char| c != '-')
}

/// How user input is normalised: trimmed, lower-cased, `_` and space made `-`.
pub open spec fn cm_user_norm(s: Seq<char>) -> Seq<char> {
    dashed(lower(trim(s)), true, true)
}

/// Does `m` answer to the normalised user input `n`?
pub open spec fn cm_answers(m: ChargeMode, n: Seq<char>) -> bool {
    ||| cm_key(m) == n
    ||| dashed(lower(cm_sysfs(m)), true, false) == n
    ||| undashed(cm_key(m)) == n
}

/// What `ChargeMode::from_user` gives.
pub open spec fn cm_from_user_spec(s: Seq<char>) -> Result<ChargeMode, HwErrorView> {
    let n = cm_user_norm(s);
    if cm_answers(ChargeMode::Standard, n) {
        Ok(ChargeMode::Standard)
    } else if cm_answers(ChargeMode::Fast, n) {
        Ok(ChargeMode::Fast)
    } else if cm_answers(ChargeMode::LongLife, n) {
        Ok(ChargeMode::LongLife)
    } else {
        Err(HwErrorView::Parse("unknown charge mode "@ + str_debug(s)))
    }
}

/// Replace `_` (and, when asked, spaces) by `-`.
fn dash(s: &str, spaces: bool) -> (r: String)
    ensures
        r@ == dashed(s@, true, spaces),
{
    let v = chars_of(s);
    let mut out = String::new();
    let mut i: usize = 0;
    while i < v.len()
        invariant
            i <= v.len(),
            v@ == s@,
            out@ == dashed(v@.take(i as int), true, spaces),
        decreases v.len() - i,
    {
        let c = v[i];
        let d = if c == '_' || (spaces && c == ' ') {
            '-'
        } else {
            c
        };
        push_char(&mut out, d);
        i = i + 1;
        assert(out@ =~= dashed(v@.take(i as int), true, spaces));
    }
    assert(v@.take(v@.len() as int) =~= v@);
    out
}

/// Remove every `-`.
fn undash(s: &str) -> (r: String)
    ensures
        r@ == undashed(s@),
{
    let v = chars_of(s);
    let mut out = String::new();
    let mut i: usize = 0;
    while i < v.len()
        invariant
            i <= v.len(),
            v@ == s@,
            out@ == undashed(v@.take(i as int)),
        decreases v.len() - i,
    {
        let c = v[i];
        proof {
            let t = v@.take(i + 1);
            assert(t.drop_last() =~= v@.take(i as int));
            reveal(Seq::filter);
        }
        if c != '-' {
            push_char(&mut out, c);
        }
        i = i + 1;
    }
    assert(v@.take(v@.len() as int) =~= v@);
    out
}

impl ChargeMode {
    pub const ALL: [ChargeMode; 3] = [ChargeMode::Standard, ChargeMode::Fast, ChargeMode::LongLife];

    /// The kernel's spelling (note the underscore in `Long_Life`).
    pub fn as_sysfs(self) -> (r: &'static str)
        ensures
            r@ == cm_sysfs(self),
    {
        match self {
            ChargeMode::Standard => "Standard",
            ChargeMode::Fast => "Fast",
            ChargeMode::LongLife => "Long_Life",
        }
    }

    /// Short key for the CLI and D-Bus.
    pub fn key(self) -> (r: &'static str)
        ensures
            r@ == cm_key(self),
    {
        match self {
            ChargeMode::Standard => "standard",
            ChargeMode::Fast => "fast",
            ChargeMode::LongLife => "long-life",
        }
    }

    /// Label for the GUI.
    pub fn label(self) -> (r: &'static str)
        ensures
            r@ == cm_label(self),
    {
        match self {
            ChargeMode::Standard => "Standard",
            ChargeMode::Fast => "Rapid charge",
            ChargeMode::LongLife => "Conservation",
        }
    }

    /// Parse a kernel token from `charge_types` (brackets already stripped).
    pub fn from_sysfs(s: &str) -> (r: Result<ChargeMode, HwError>)
        ensures
            rv(r) == cm_from_sysfs_spec(s@),
    {
        let t = trimmed(s);
        if eq_ignore_ascii_case("Standard", t.as_str()) {
            Ok(ChargeMode::Standard)
        } else if eq_ignore_ascii_case("Fast", t.as_str()) {
            Ok(ChargeMode::Fast)
        } else if eq_ignore_ascii_case("Long_Life", t.as_str()) {
            Ok(ChargeMode::LongLife)
        } else {
            let q = debug_quoted(t.as_str());
            Err(HwError::Parse(cat("unknown charge type ", q.as_str())))
        }
    }

    /// Does this mode answer to the normalised user input `n`?
    fn answers(self, n: &str) -> (r: bool)
        ensures
            r == cm_answers(self, n@),
    {
        if str_eq(self.key(), n) {
            return true;
        }
        let l = lowered(self.as_sysfs());
        let d = dash(l.as_str(), false);
        if str_eq(d.as_str(), n) {
            return true;
        }
        let u = undash(self.key());
        str_eq(u.as_str(), n)
    }

    /// Parse a user-supplied name — accepts `long-life`, `long_life`,
    /// `longlife` and the kernel spelling.
    pub fn from_user(s: &str) -> (r: Result<ChargeMode, HwError>)
        ensures
            rv(r) == cm_from_user_spec(s@),
    {
        let t = trimmed(s);
        let l = lowered(t.as_str());
        let n = dash(l.as_str(), true);
        if ChargeMode::Standard.answers(n.as_str()) {
            Ok(ChargeMode::Standard)
        } else if ChargeMode::Fast.answers(n.as_str()) {
            Ok(ChargeMode::Fast)
        } else if ChargeMode::LongLife.answers(n.as_str()) {
            Ok(ChargeMode::LongLife)
        } else {
            let q = debug_quoted(s);
            Err(HwError::Parse(cat("unknown charge mode ", q.as_str())))
        }
    }
}

/// Parsed contents of `charge_types`.
#[derive(Debug, Clone, PartialEq, Eq)]
pub struct ChargeTypes {
    /// Every mode the firmware supports, in the order the kernel listed them.
    pub available: Vec<ChargeMode>,
    /// The bracketed (active) mode, if the kernel marked one.
    pub active: Option<ChargeMode>,
}

/// Is `tok` of the form `[inner]`?
pub open spec fn bracketed(tok: Seq<char>) -> bool {
    tok.len() >= 2 && tok[0] == '[' && tok.last() == ']'
}

/// The name a token carries, brackets stripped.
pub open spec fn token_name(tok: Seq<char>) -> Seq<char> {
    if bracketed(tok) {
        tok.subrange(1, tok.len() - 1)
    } else {
        tok
    }
}

/// The modes listed by `ws` and the last bracketed one, or the error for the
/// first token that names no mode.
pub open spec fn parse_tokens(ws: Seq<Seq<char>>) -> Result<(Seq<ChargeMode>, Option<ChargeMode>), HwErrorView>
    decreases ws.len(),
{
    if ws.len() == 0 {
        Ok((seq![], None))
    } else {
        match cm_from_sysfs_spec(token_name(ws[0])) {
            Err(e) => Err(e),
            Ok(m) => match parse_tokens(ws.drop_first()) {
                Err(e) => Err(e),
                Ok((ms, act)) => Ok(
                    (
                        seq![m] + ms,
                        if act is Some {
                            act
                        } else if bracketed(ws[0]) {
                            Some(m)
                        } else {
                            None
                        },
                    ),
                ),
            },
        }
    }
}

/// What `parse_charge_types` gives, as (available, active).
pub open spec fn parse_charge_types_spec(raw: Seq<char>) -> Result<(Seq<ChargeMode>, Option<ChargeMode>), HwErrorView> {
    match parse_tokens(words(raw)) {
        Err(e) => Err(e),
        Ok((ms, act)) => if ms.len() == 0 {
            Err(HwErrorView::Parse("empty charge_types"@))
        } else {
            Ok((ms, act))
        },
    }
}

/// A parse result taken by its views.
pub open spec fn ctv(r: Result<ChargeTypes, HwError>) -> Result<(Seq<ChargeMode>, Option<ChargeMode>), HwErrorView> {
    match r {
        Ok(c) => Ok((c.available@, c.active)),
        Err(e) => Err(e@),
    }
}

/// The result of parsing after the first tokens gave `avail` and `act`.
pub open spec fn continue_tokens(
    avail: Seq<ChargeMode>,
    act: Option<ChargeMode>,
    rest: Result<(Seq<ChargeMode>, Option<ChargeMode>), HwErrorView>,
) -> Result<(Seq<ChargeMode>, Option<ChargeMode>), HwErrorView> {
    match rest {
        Err(e) => Err(e),
        Ok((ms, a)) => Ok(
            (
                avail + ms,
                if a is Some {
                    a
                } else {
                    act
                },
            ),
        ),
    }
}

/// Parse the bracketed-active list format, e.g. `Fast Standard [Long_Life]`.
pub fn parse_charge_types(raw: &str) -> (r: Result<ChargeTypes, HwError>)
    ensures
        ctv(r) == parse_charge_types_spec(raw@),
{
    let ws = split_words(raw);
    let ghost all = words(raw@);
    let mut available: Vec<ChargeMode> = Vec::new();
    let mut active: Option<ChargeMode> = None;
    let mut i: usize = 0;
    proof {
        assert(all.skip(0) =~= all);
        match parse_tokens(all) {
            Ok((ms, a)) => {
                assert(Seq::<ChargeMode>::empty() + ms =~= ms);
            },
            Err(_) => {},
        }
    }
    while i < ws.len()
        invariant
            i <= ws@.len() == all.len(),
            all == words(raw@),
            forall|k: int| 0 <= k < ws@.len() ==> #[trigger] ws@[k]@ == all[k],
            parse_tokens(all) == continue_tokens(available@, active, parse_tokens(all.skip(i as int))),
        decreases ws.len() - i,
    {
        let tok = chars_of(ws[i].as_str());
        let n = tok.len();
        let is_active = n >= 2 && tok[0] == '[' && tok[n - 1] == ']';
        let name = if is_active {
            string_of_range(&tok, 1, n - 1)
        } else {
            owned(ws[i].as_str())
        };
        proof {
            let t = all.skip(i as int);
            assert(t[0] == all[i as int]);
            assert(t.drop_first() =~= all.skip(i + 1));
            assert(is_active == bracketed(t[0]));
            assert(name@ == token_name(t[0]));
        }
        match ChargeMode::from_sysfs(name.as_str()) {
            Err(e) => {
                proof {
                    let t = all.skip(i as int);
                    assert(parse_tokens(t) == Err::<(Seq<ChargeMode>, Option<ChargeMode>), HwErrorView>(e@));
                }
                return Err(e);
            },
            Ok(m) => {
                proof {
                    let t = all.skip(i as int);
                    match parse_tokens(all.skip(i + 1)) {
                        Ok((ms, a)) => {
                            assert(available@.push(m) + ms =~= available@ + (seq![m] + ms));
                        },
                        Err(_) => {},
                    }
                }
                if is_active {
                    active = Some(m);
                }
                available.push(m);
            },
        }
        i = i + 1;
    }
    proof {
        assert(all.skip(i as int) =~= Seq::<Seq<char>>::empty());
        assert(available@ + Seq::<ChargeMode>::empty() =~= available@);
    }
    if available.len() == 0 {
        return Err(HwError::Parse(owned("empty charge_types")));
    }
    Ok(ChargeTypes { available, active })
}

/// The mode a token names, brackets stripped.
pub open spec fn token_mode(tok: Seq<char>) -> Result<ChargeMode, HwErrorView> {
    cm_from_sysfs_spec(token_name(tok))
}

/// `parse_tokens` lists the tokens' modes in order and marks the last
/// bracketed one, failing with a parse error exactly when a token names no
/// mode.
proof fn lemma_parse_tokens(ws: Seq<Seq<char>>)
    ensures
        parse_tokens(ws) is Ok <==> forall|i: int| 0 <= i < ws.len() ==> #[trigger] token_mode(ws[i]) is Ok,
        parse_tokens(ws) matches Err(e) ==> e is Parse,
        parse_tokens(ws) matches Ok((ms, act)) ==> {
            &&& ms.len() == ws.len()
            &&& forall|i: int| 0 <= i < ws.len() ==> Ok::<ChargeMode, HwErrorView>(#[trigger] ms[i]) == token_mode(ws[i])
            &&& (act is None <==> forall|i: int| 0 <= i < ws.len() ==> !bracketed(#[trigger] ws[i]))
            &&& act is Some ==> exists|i: int|
                0 <= i < ws.len() && #[trigger] bracketed(ws[i]) && act == Some(ms[i]) && forall|j: int|
                    i < j < ws.len() ==> !bracketed(#[trigger] ws[j])
        },
    decreases ws.len(),
{
    if ws.len() > 0 {
        let rest = ws.drop_first();
        lemma_parse_tokens(rest);
        assert forall|i: int| 0 < i < ws.len() implies ws[i] == rest[i - 1] by {}
        if token_mode(ws[0]) is Ok {
            if parse_tokens(rest) is Ok {
                let m = token_mode(ws[0])->Ok_0;
                let (ms2, act2) = parse_tokens(rest)->Ok_0;
                let ms = seq![m] + ms2;
                assert forall|i: int| 0 <= i < ws.len() implies Ok::<ChargeMode, HwErrorView>(
                    #[trigger] ms[i],
                ) == token_mode(ws[i]) by {
                    if i > 0 {
                        assert(ms[i] == ms2[i - 1]);
                        assert(Ok::<ChargeMode, HwErrorView>(ms2[i - 1]) == token_mode(rest[i - 1]));
                    }
                }
                assert forall|i: int| 0 <= i < ws.len() implies #[trigger] token_mode(ws[i]) is Ok by {
                    if i > 0 {
                        assert(token_mode(rest[i - 1]) is Ok);
                    }
                }
                if act2 is Some {
                    let i2 = choose|i: int|
                        0 <= i < rest.len() && #[trigger] bracketed(rest[i]) && act2 == Some(ms2[i]) && forall|j: int|
                            i < j < rest.len() ==> !bracketed(#[trigger] rest[j]);
                    assert(bracketed(ws[i2 + 1]) && ms[i2 + 1] == ms2[i2]);
                    assert forall|j: int| i2 + 1 < j < ws.len() implies !bracketed(#[trigger] ws[j]) by {
                        assert(!bracketed(rest[j - 1]));
                    }
                } else if bracketed(ws[0]) {
                    assert forall|j: int| 0 < j < ws.len() implies !bracketed(#[trigger] ws[j]) by {
                        assert(!bracketed(rest[j - 1]));
                    }
                    assert(ms[0] == m);
                } else {
                    assert forall|j: int| 0 <= j < ws.len() implies !bracketed(#[trigger] ws[j]) by {
                        if j > 0 {
                            assert(!bracketed(rest[j - 1]));
                        }
                    }
                }
            } else {
                let k = choose|i: int| 0 <= i < rest.len() && !(#[trigger] token_mode(rest[i]) is Ok);
                assert(!(token_mode(ws[k + 1]) is Ok));
            }
        } else {
            assert(!(token_mode(ws[0]) is Ok));
        }
    }
}

/// The charge-types list parses exactly when it has at least one token and
/// every token, less one enclosing `[..]`, names a charge mode (in any
/// case). Then the modes are listed in token order and the active one is the
/// mode of the last bracketed token, or none when no token is bracketed;
/// otherwise the error is a parse error.
pub proof fn lemma_parse_charge_types(raw: Seq<char>)
    ensures
        ({
            let ws = words(raw);
            &&& parse_charge_types_spec(raw) is Ok <==> ws.len() > 0 && forall|i: int|
                0 <= i < ws.len() ==> #[trigger] token_mode(ws[i]) is Ok
            &&& parse_charge_types_spec(raw) matches Err(e) ==> e is Parse
            &&& parse_charge_types_spec(raw) matches Ok((ms, act)) ==> {
                &&& ms.len() == ws.len()
                &&& forall|i: int| 0 <= i < ws.len() ==> Ok::<ChargeMode, HwErrorView>(#[trigger] ms[i]) == token_mode(ws[i])
                &&& (act is None <==> forall|i: int| 0 <= i < ws.len() ==> !bracketed(#[trigger] ws[i]))
                &&& act is Some ==> exists|i: int|
                    0 <= i < ws.len() && #[trigger] bracketed(ws[i]) && act == Some(ms[i]) && forall|j: int|
                        i < j < ws.len() ==> !bracketed(#[trigger] ws[j])
            }
        }),
{
    lemma_parse_tokens(words(raw));
}

/// The `charge_types` attribute.
pub open spec fn ct_file() -> Seq<char> {
    subpath(BAT@, "charge_types"@)
}

/// What `charge_types` gives.
pub open spec fn charge_types_spec(v: SysView) -> Result<(Seq<ChargeMode>, Option<ChargeMode>), HwErrorView> {
    match v.read(ct_file()) {
        Err(e) => Err(e),
        Ok(raw) => parse_charge_types_spec(raw),
    }
}

/// What `get_mode` gives.
pub open spec fn get_mode_spec(v: SysView) -> Result<ChargeMode, HwErrorView> {
    match charge_types_spec(v) {
        Err(e) => Err(e),
        Ok((_, Some(m))) => Ok(m),
        Ok((_, None)) => Err(HwErrorView::Parse("charge_types has no active entry"@)),
    }
}

/// Is the `charge_types` interface present?
pub fn available(root: &SysRoot) -> (r: bool)
    ensures
        r == root@.has_path(ct_file()),
{
    root.path_exists(join(BAT, "charge_types").as_str())
}

/// Read the supported and active charge modes.
pub fn charge_types(root: &SysRoot) -> (r: Result<ChargeTypes, HwError>)
    ensures
        ctv(r) == charge_types_spec(root@),
{
    let raw = root.read(join(BAT, "charge_types").as_str())?;
    parse_charge_types(raw.as_str())
}

/// The active charge mode.
pub fn get_mode(root: &SysRoot) -> (r: Result<ChargeMode, HwError>)
    ensures
        rv(r) == get_mode_spec(root@),
{
    let ct = charge_types(root)?;
    match ct.active {
        Some(m) => Ok(m),
        None => Err(HwError::Parse(owned("charge_types has no active entry"))),
    }
}

/// Select a charge mode.
pub fn set_mode(root: &mut SysRoot, mode: ChargeMode) -> (r: Result<(), HwError>)
    ensures
        rv(r) == old(root)@.write_result(ct_file()),
        final(root)@ == old(root)@.after_write(ct_file(), cm_sysfs(mode)),
{
    root.write(join(BAT, "charge_types").as_str(), mode.as_sysfs())
}

/// Battery readings. Every field is optional: attributes absent on a given
/// machine are simply omitted rather than failing the whole read.
#[derive(Debug, Clone, Default, PartialEq, Eq)]
pub struct BatteryStats {
    /// Charge percentage as the kernel reports it.
    pub capacity: Option<u32>,
    pub energy_now: Option<u64>,
    pub energy_full: Option<u64>,
    pub energy_full_design: Option<u64>,
    pub voltage_now: Option<u64>,
    pub power_now: Option<u64>,
    pub cycle_count: Option<u32>,
    pub status: Option<String>,
    /// True when an AC adapter reports `online`.
    pub ac_online: Option<bool>,
}

/// The battery attribute `name`.
pub open spec fn bat_file(name: Seq<char>) -> Seq<char> {
    subpath(BAT@, name)
}

/// `Some(x@)` of an optional string.
pub open spec fn opt_view(o: Option<String>) -> Option<Seq<char>> {
    match o {
        Some(s) => Some(s@),
        None => None,
    }
}

impl BatteryStats {
    /// The pair (energy now, energy full) whose ratio is the charge
    /// percentage computed from energy — finer-grained than `capacity`, and a
    /// sanity check on it. `None` unless both are known and full is nonzero.
    pub fn energy_ratio(&self) -> (r: Option<(u64, u64)>)
        ensures
            r == match (self.energy_now, self.energy_full) {
                (Some(now), Some(full)) => if full > 0 {
                    Some((now, full))
                } else {
                    None
                },
                _ => None,
            },
    {
        match (self.energy_now, self.energy_full) {
            (Some(now), Some(full)) => if full > 0 {
                Some((now, full))
            } else {
                None
            },
            _ => None,
        }
    }

    /// The pair (energy full, design energy) whose ratio is the remaining
    /// capacity as a fraction of the design capacity — battery wear. `None`
    /// unless both are known and the design value is nonzero.
    pub fn health_ratio(&self) -> (r: Option<(u64, u64)>)
        ensures
            r == match (self.energy_full, self.energy_full_design) {
                (Some(full), Some(design)) => if design > 0 {
                    Some((full, design))
                } else {
                    None
                },
                _ => None,
            },
    {
        match (self.energy_full, self.energy_full_design) {
            (Some(full), Some(design)) => if design > 0 {
                Some((full, design))
            } else {
                None
            },
            _ => None,
        }
    }
}

/// Read every battery attribute that exists, skipping the ones that do not.
pub fn stats(root: &SysRoot) -> (r: BatteryStats)
    ensures
        r.capacity == read_parsed_opt_spec::<u32>(root@, bat_file("capacity"@)),
        r.energy_now == read_parsed_opt_spec::<u64>(root@, bat_file("energy_now"@)),
        r.energy_full == read_parsed_opt_spec::<u64>(root@, bat_file("energy_full"@)),
        r.energy_full_design == read_parsed_opt_spec::<u64>(root@, bat_file("energy_full_design"@)),
        r.voltage_now == read_parsed_opt_spec::<u64>(root@, bat_file("voltage_now"@)),
        r.power_now == read_parsed_opt_spec::<u64>(root@, bat_file("power_now"@)),
        r.cycle_count == read_parsed_opt_spec::<u32>(root@, bat_file("cycle_count"@)),
        opt_view(r.status) == root@.read_opt(bat_file("status"@)),
        r.ac_online == ac_online_spec(root@),
{
    let status = root.read_opt(join(BAT, "status").as_str());
    BatteryStats {
        capacity: root.read_parsed_opt::<u32>(join(BAT, "capacity").as_str()),
        energy_now: root.read_parsed_opt::<u64>(join(BAT, "energy_now").as_str()),
        energy_full: root.read_parsed_opt::<u64>(join(BAT, "energy_full").as_str()),
        energy_full_design: root.read_parsed_opt::<u64>(join(BAT, "energy_full_design").as_str()),
        voltage_now: root.read_parsed_opt::<u64>(join(BAT, "voltage_now").as_str()),
        power_now: root.read_parsed_opt::<u64>(join(BAT, "power_now").as_str()),
        cycle_count: root.read_parsed_opt::<u32>(join(BAT, "cycle_count").as_str()),
        status,
        ac_online: ac_online(root),
    }
}

/// Is power-supply entry `e` a mains adapter: by its `type`, or by an `ADP`
/// or `AC` name?
pub open spec fn is_mains(v: SysView, e: Seq<char>) -> bool {
    ||| (match v.read_opt(subpath(subpath(SUPPLIES@, e), "type"@)) {
        Some(t) => eq_ignore_case(t, "Mains"@),
        None => false,
    })
    ||| starts_with(e, "ADP"@)
    ||| starts_with(e, "AC"@)
}

/// The first mains adapter in `es` with a readable `online`, and whether it
/// is nonzero.
pub open spec fn ac_scan(v: SysView, es: Seq<Seq<char>>) -> Option<bool>
    decreases es.len(),
{
    if es.len() == 0 {
        None
    } else if is_mains(v, es[0]) && read_parsed_opt_spec::<u32>(
        v,
        subpath(subpath(SUPPLIES@, es[0]), "online"@),
    ) is Some {
        Some(read_parsed_opt_spec::<u32>(v, subpath(subpath(SUPPLIES@, es[0]), "online"@))->0 != 0)
    } else {
        ac_scan(v, es.drop_first())
    }
}

/// What `ac_online` gives.
pub open spec fn ac_online_spec(v: SysView) -> Option<bool> {
    ac_scan(v, v.listing(SUPPLIES@))
}

/// The `online` value of power-supply entry `e`, when it reads as a number.
pub open spec fn online_value(v: SysView, e: Seq<char>) -> Option<u32> {
    read_parsed_opt_spec::<u32>(v, subpath(subpath(SUPPLIES@, e), "online"@))
}

/// Is entry `e` a mains adapter with a readable `online` value?
pub open spec fn usable_ac(v: SysView, e: Seq<char>) -> bool {
    is_mains(v, e) && online_value(v, e) is Some
}

/// `ac_scan` over a sorted list answers for the entry with the smallest name
/// among the mains adapters with a readable `online` value, and answers
/// nothing exactly when there is no such entry.
proof fn lemma_ac_scan_smallest(v: SysView, es: Seq<Seq<char>>)
    requires
        sorted_strict(es),
    ensures
        ac_scan(v, es) matches Some(b) ==> exists|e: Seq<char>|
            #[trigger] es.contains(e) && usable_ac(v, e) && b == (online_value(v, e)->0 != 0) && forall|e2: Seq<char>|
                es.contains(e2) && #[trigger] usable_ac(v, e2) ==> e2 == e || seq_lt(e, e2),
        ac_scan(v, es) is None <==> forall|e: Seq<char>| #[trigger] es.contains(e) ==> !usable_ac(v, e),
    decreases es.len(),
{
    if es.len() > 0 {
        let t = es.drop_first();
        assert forall|a: int, b: int| 0 <= a < b < t.len() implies seq_lt(#[trigger] t[a], #[trigger] t[b]) by {
            assert(t[a] == es[a + 1] && t[b] == es[b + 1]);
        }
        lemma_ac_scan_smallest(v, t);
        assert forall|x: Seq<char>| #[trigger] es.contains(x) <==> x == es[0] || t.contains(x) by {
            if es.contains(x) {
                let k = choose|k: int| 0 <= k < es.len() && es[k] == x;
                if k > 0 {
                    assert(t[k - 1] == x);
                }
            }
            if t.contains(x) {
                let k = choose|k: int| 0 <= k < t.len() && t[k] == x;
                assert(es[k + 1] == x);
            }
            if x == es[0] {
                assert(es.contains(es[0]));
            }
        }
        assert forall|x: Seq<char>| #[trigger] t.contains(x) implies seq_lt(es[0], x) by {
            let k = choose|k: int| 0 <= k < t.len() && t[k] == x;
            assert(es[k + 1] == x);
        }
        if usable_ac(v, es[0]) {
            let e = es[0];
            assert(es.contains(e));
            assert forall|e2: Seq<char>| es.contains(e2) && #[trigger] usable_ac(v, e2) implies e2 == e || seq_lt(
                e,
                e2,
            ) by {
                if e2 != e {
                    assert(t.contains(e2));
                }
            }
        } else {
            assert(ac_scan(v, es) == ac_scan(v, t));
            if ac_scan(v, t) is Some {
                let b = ac_scan(v, t)->Some_0;
                let e = choose|e: Seq<char>|
                    #[trigger] t.contains(e) && usable_ac(v, e) && b == (online_value(v, e)->0 != 0) && forall|
                        e2: Seq<char>,
                    | t.contains(e2) && #[trigger] usable_ac(v, e2) ==> e2 == e || seq_lt(e, e2);
                assert(es.contains(e));
                assert forall|e2: Seq<char>| es.contains(e2) && #[trigger] usable_ac(v, e2) implies e2 == e
                    || seq_lt(e, e2) by {
                    assert(t.contains(e2));
                }
            } else {
                assert forall|e: Seq<char>| #[trigger] es.contains(e) implies !usable_ac(v, e) by {
                    if e != es[0] {
                        assert(t.contains(e));
                    }
                }
            }
        }
    }
}

/// Is an AC adapter plugged in?
///
/// Scans `power_supply` for a mains-type supply (`ADP*`/`AC*`) rather than
/// hardcoding `ADP0`, since the name varies between machines. The answer
/// comes from the power supply with the smallest name among the mains
/// adapters (by `type`, or an `ADP`/`AC` name) whose `online` reads as a
/// number — whether that number is nonzero — and is `None` exactly when
/// there is no such supply.
pub fn ac_online(root: &SysRoot) -> (r: Option<bool>)
    ensures
        r == ac_online_spec(root@),
        r matches Some(b) ==> exists|e: Seq<char>|
            #[trigger] root@.children(SUPPLIES@).contains(e) && usable_ac(root@, e) && b == (online_value(
                root@,
                e,
            )->0 != 0) && forall|e2: Seq<char>|
                root@.children(SUPPLIES@).contains(e2) && #[trigger] usable_ac(root@, e2) ==> e2 == e || seq_lt(
                    e,
                    e2,
                ),
        r is None <==> forall|e: Seq<char>|
            #[trigger] root@.children(SUPPLIES@).contains(e) ==> !usable_ac(root@, e),
{
    let r = scan_supplies(root);
    proof {
        let es = root@.listing(SUPPLIES@);
        lemma_ac_scan_smallest(root@, es);
        assert forall|x: Seq<char>| #[trigger] es.contains(x) <==> root@.children(SUPPLIES@).contains(x) by {
            assert(es.to_set().contains(x) <==> es.contains(x));
        }
    }
    r
}

/// The first mains adapter with a readable `online`, scanning the supplies
/// in name order.
fn scan_supplies(root: &SysRoot) -> (r: Option<bool>)
    ensures
        r == ac_online_spec(root@),
        root@.is_listing(SUPPLIES@, root@.listing(SUPPLIES@)),
{
    let entries = list_dir_of(root, SUPPLIES);
    let ghost es = root@.listing(SUPPLIES@);
    let mut i: usize = 0;
    assert(es.skip(0) =~= es);
    while i < entries.len()
        invariant
            i <= entries@.len() == es.len(),
            es == root@.listing(SUPPLIES@),
            root@.is_listing(SUPPLIES@, es),
            forall|k: int| 0 <= k < entries@.len() ==> #[trigger] entries@[k]@ == es[k],
            ac_scan(root@, es) == ac_scan(root@, es.skip(i as int)),
        decreases entries.len() - i,
    {
        let entry = entries[i].as_str();
        let dir = join(SUPPLIES, entry);
        let type_file = join(dir.as_str(), "type");
        let by_type = match root.read_opt(type_file.as_str()) {
            Some(t) => eq_ignore_ascii_case(t.as_str(), "Mains"),
            None => false,
        };
        let mains = by_type || has_prefix(entry, "ADP") || has_prefix(entry, "AC");
        let online_file = join(dir.as_str(), "online");
        proof {
            let t = es.skip(i as int);
            assert(t[0] == es[i as int]);
            assert(t.drop_first() =~= es.skip(i + 1));
            assert(mains == is_mains(root@, t[0]));
        }
        if mains {
            match root.read_parsed_opt::<u32>(online_file.as_str()) {
                Some(v) => {
                    return Some(v != 0);
                },
                None => {},
            }
        }
        i = i + 1;
    }
    None
}

proof fn lemma_undashed_plain(s: Seq<char>)
    requires
        forall|i: int| 0 <= i < s.len() ==> #[trigger] s[i] != '-',
    ensures
        undashed(s) == s,
    decreases s.len(),
{
    reveal(Seq::filter);
    if s.len() > 0 {
        lemma_undashed_plain(s.drop_last());
        assert(s.drop_last().push(s.last()) =~= s);
    }
}

proof fn lemma_mode_names(m: ChargeMode)
    ensures
        trim(cm_sysfs(m)) == cm_sysfs(m),
        trim(cm_key(m)) == cm_key(m),
        lower(cm_sysfs(m)).len() == cm_sysfs(m).len(),
        lower(cm_key(m)) == cm_key(m),
        dashed(cm_key(m), true, true) == cm_key(m),
        dashed(lower(cm_sysfs(m)), true, true) == cm_key(m),
        dashed(lower(cm_sysfs(m)), true, false) == cm_key(m),
        undashed(cm_key(m)).len() <= cm_key(m).len(),
        m != ChargeMode::LongLife ==> undashed(cm_key(m)) == cm_key(m),
{
    reveal_strlit("Standard");
    reveal_strlit("Fast");
    reveal_strlit("Long_Life");
    reveal_strlit("standard");
    reveal_strlit("fast");
    reveal_strlit("long-life");
    let a = cm_sysfs(m);
    let k = cm_key(m);
    assert forall|i: int| 0 <= i < a.len() implies !is_ws(#[trigger] a[i]) by {}
    assert forall|i: int| 0 <= i < k.len() implies !is_ws(#[trigger] k[i]) by {}
    lemma_trim_plain(a);
    lemma_trim_plain(k);
    assert(lower(k) =~= k);
    assert(dashed(k, true, true) =~= k);
    assert(dashed(lower(a), true, true) =~= k);
    assert(dashed(lower(a), true, false) =~= k);
    k.lemma_filter_len(|c: char| c != '-');
    if m != ChargeMode::LongLife {
        assert forall|i: int| 0 <= i < k.len() implies #[trigger] k[i] != '-' by {}
        lemma_undashed_plain(k);
    }
}

/// Every mode's kernel spelling parses back to that mode.
pub proof fn lemma_kernel_name_round_trip(m: ChargeMode)
    ensures
        cm_from_sysfs_spec(cm_sysfs(m)) == Ok::<ChargeMode, HwErrorView>(m),
{
    reveal_strlit("Standard");
    reveal_strlit("Fast");
    reveal_strlit("Long_Life");
    lemma_mode_names(ChargeMode::Standard);
    lemma_mode_names(ChargeMode::Fast);
    lemma_mode_names(ChargeMode::LongLife);
    assert("Standard"@.len() == 8 && "Fast"@.len() == 4 && "Long_Life"@.len() == 9);
}

/// User input accepts each mode's key and its kernel spelling.
pub proof fn lemma_user_names(m: ChargeMode)
    ensures
        cm_from_user_spec(cm_key(m)) == Ok::<ChargeMode, HwErrorView>(m),
        cm_from_user_spec(cm_sysfs(m)) == Ok::<ChargeMode, HwErrorView>(m),
{
    reveal_strlit("Standard");
    reveal_strlit("Fast");
    reveal_strlit("Long_Life");
    reveal_strlit("standard");
    reveal_strlit("fast");
    reveal_strlit("long-life");
    lemma_mode_names(ChargeMode::Standard);
    lemma_mode_names(ChargeMode::Fast);
    lemma_mode_names(ChargeMode::LongLife);
    assert("standard"@.len() == 8 && "fast"@.len() == 4 && "long-life"@.len() == 9);
    assert("Standard"@.len() == 8 && "Fast"@.len() == 4 && "Long_Life"@.len() == 9);
    assert(cm_user_norm(cm_key(m)) == cm_key(m));
    assert(cm_user_norm(cm_sysfs(m)) == cm_key(m));
}

} // verus!
