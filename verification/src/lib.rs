//! Event pipeline of a split mechanical keyboard.
//!
//! Each half scans its switch matrix, debounces it into press and release
//! events and either feeds them to the layout engine (when it is the half
//! enumerated by the USB host) or frames them for the serial link to the
//! other half. Active key codes are folded into USB boot keyboard reports,
//! custom events into relative mouse reports.

pub mod debounce;
pub mod event;
pub mod hid;
pub mod keys;
pub mod layout;
pub mod mouse;
pub mod side;
