//! Hammock: an application lifecycle controller for mobile Linux devices.
//!
//! The controller classifies running graphical applications into lifecycle
//! rules (foreground, background, and so on) and realises those rules through
//! cgroup membership and freezer state.  This crate holds the verified core:
//! the application registry, the rule engine, the toplevel aggregator and the
//! event handler.  All interaction with the outside world (cgroupfs, D-Bus,
//! Wayland, sysfs) is described by the actions the core emits; a thin
//! unverified shell performs them.

pub mod app_id;
pub mod application;
pub mod backlight;
pub mod cgroups;
pub mod config;
pub mod dbus;
pub mod errors;
pub mod events;
pub mod hal;
pub mod hammock;
pub mod laws;
pub mod match_rules;
pub mod strings;
pub mod toplevel;
pub mod wakeup;
