//! Keyboard backlight over `/sys/class/leds/platform::kbd_backlight/`.
//!
//! The 82WM ships the **white-only** keyboard (USB `048d:c103`), which has
//! three brightness levels: 0 (off), 1 and 2 (`max_brightness` = 2). There is
//! no per-zone RGB on this machine, so this module deliberately exposes
//! nothing but a level.
//!
//! `brightness_hw_changed` is bumped by the firmware when the user presses
//! Fn+Space; it is exposed here so a caller can poll it if desired.

use vstd::prelude::*;

use crate::error::{rv, HwError, HwErrorView};
use crate::sysfs::{
    lemma_write_number, lemma_write_reads, read_parsed_opt_spec, read_parsed_spec, subpath, SysRoot, SysView,
};
use crate::text::{cat, dec, dec_string, join};

verus! {

pub const LED: &'static str = "sys/class/leds/platform::kbd_backlight";

/// The LED attribute `a`.
pub open spec fn led_file(a: Seq<char>) -> Seq<char> {
    subpath(LED@, a)
}

/// Is a keyboard backlight present?
pub fn available(root: &SysRoot) -> (r: bool)
    ensures
        r == root@.has_path(led_file("brightness"@)),
{
    root.path_exists(join(LED, "brightness").as_str())
}

/// Highest level the LED accepts (2 on the 82WM).
pub fn max(root: &SysRoot) -> (r: Result<u32, HwError>)
    ensures
        rv(r) == read_parsed_spec::<u32>(root@, led_file("max_brightness"@)),
{
    root.read_parsed::<u32>(join(LED, "max_brightness").as_str())
}

/// Current level.
pub fn get(root: &SysRoot) -> (r: Result<u32, HwError>)
    ensures
        rv(r) == read_parsed_spec::<u32>(root@, led_file("brightness"@)),
{
    root.read_parsed::<u32>(join(LED, "brightness").as_str())
}

/// The message for a level above the maximum.
pub open spec fn level_range_msg(level: u32, maximum: u32) -> Seq<char> {
    "keyboard backlight level "@ + dec(level as nat) + " is out of range: 0–"@ + dec(maximum as nat)
}

/// What `set` reports.
pub open spec fn set_result(v: SysView, level: u32) -> Result<(), HwErrorView> {
    match read_parsed_spec::<u32>(v, led_file("max_brightness"@)) {
        Err(e) => Err(e),
        Ok(m) => if level > m {
            Err(HwErrorView::Parse(level_range_msg(level, m)))
        } else {
            v.write_result(led_file("brightness"@))
        },
    }
}

/// The tree after `set`.
pub open spec fn after_set(v: SysView, level: u32) -> SysView {
    match read_parsed_spec::<u32>(v, led_file("max_brightness"@)) {
        Ok(m) => if level > m {
            v
        } else {
            v.after_write(led_file("brightness"@), dec(level as nat))
        },
        Err(_) => v,
    }
}

/// Set the level, rejecting anything above `max_brightness`.
pub fn set(root: &mut SysRoot, level: u32) -> (r: Result<(), HwError>)
    ensures
        rv(r) == set_result(old(root)@, level),
        final(root)@ == after_set(old(root)@, level),
{
    let maximum = max(root)?;
    if level > maximum {
        let a = cat("keyboard backlight level ", dec_string(level as u64).as_str());
        let b = cat(a.as_str(), " is out of range: 0–");
        return Err(HwError::Parse(cat(b.as_str(), dec_string(maximum as u64).as_str())));
    }
    let text = dec_string(level as u64);
    root.write(join(LED, "brightness").as_str(), text.as_str())
}

/// The firmware's hardware-change counter, bumped on Fn+Space.
pub fn hw_changed(root: &SysRoot) -> (r: Option<u32>)
    ensures
        r == read_parsed_opt_spec::<u32>(root@, led_file("brightness_hw_changed"@)),
{
    root.read_parsed_opt::<u32>(join(LED, "brightness_hw_changed").as_str())
}

/// A level within range that was set reads back as set; a level above the
/// maximum is refused with the range named and touches nothing.
pub proof fn lemma_set_then_get(v: SysView, level: u32)
    ensures
        set_result(v, level) is Ok ==> read_parsed_spec::<u32>(
            after_set(v, level),
            led_file("brightness"@),
        ) == Ok::<u32, HwErrorView>(level),
        set_result(v, level) is Err ==> after_set(v, level) == v,
        (match read_parsed_spec::<u32>(v, led_file("max_brightness"@)) {
            Ok(m) => level > m ==> set_result(v, level) == Err::<(), HwErrorView>(
                HwErrorView::Parse(level_range_msg(level, m)),
            ),
            Err(_) => true,
        }),
{
    let p = led_file("brightness"@);
    lemma_write_reads(v, p, dec(level as nat), p);
    if set_result(v, level) is Ok {
        lemma_write_number(v, p, level);
    }
}

} // verus!
