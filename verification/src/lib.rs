//! Typed, verified control logic for Lenovo Legion laptops on the upstream
//! `lenovo-wmi-*` + `ideapad_laptop` sysfs ABI.

pub mod text;
pub mod error;
pub mod sysfs;
pub mod profile;
pub mod profile_watch;
pub mod battery;
pub mod ideapad;
pub mod kbd_backlight;
pub mod cpu;
pub mod fan;
pub mod firmware_attrs;
pub mod detect;
pub mod gui;
pub mod tray;
pub mod ctl;
pub mod status;
pub mod commands;
pub mod daemon;
