//! A library for a command-line USB monitor: it models poll-cycle
//! snapshots of attached devices, diffs successive snapshots to find newly
//! attached hardware, scores each new device's power/speed profile, scans
//! kernel-log text for suspicious patterns, and resolves USB class codes
//! to readable names.

pub mod class_name;
pub mod device;
pub mod enumerator;
pub mod heuristic;
pub mod os_check;
pub mod report;
pub mod scanner;
pub mod snapshot;
pub mod speed;
pub mod textscan;
pub mod usb;
