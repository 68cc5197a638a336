//! Extraction of crash backtraces from device log text.
//!
//! A log is scanned line by line. Program-counter lines and backtrace lines
//! are folded into backtrace records; synchronization lines tie the device's
//! boot-relative clock to wall-clock time, which stamps each record.
pub mod text;
pub mod pattern;
pub mod clock;
pub mod frames;
pub mod extract;
pub mod laws;
pub mod symbolize;
