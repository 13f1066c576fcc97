//! The logic of `tix`, an alarm timer for the terminal: its command line, its settings, the wording
//! and the time of an alarm, its display, its course, and the records of the alarms that run in the
//! background.
//!
//! The modules build on each other in this order:
//!
//! - `text`, `bytes` and `paths` handle texts, byte strings and paths;
//! - `calendar` and `zone` stand for instants, dates and time zones, over `chrono` and `chrono_tz`;
//! - `types` holds the values that the rest works on;
//! - `config` holds the settings, `dates`, `wording` and `parse` read what the user writes, and
//!   `schedule` finds when an alarm is due;
//! - `display` draws the foreground display, `alarm` decides the course of an alarm, `state` and
//!   `process` keep track of background alarms, and `report` decides what is printed.
//!
//! Instants are seconds and nanoseconds, and floating-point numbers are held as their bit patterns.
//! Reading and writing files, the clock, the terminal, processes and the sound device are left to
//! the program around the library.
pub mod text;
pub mod bytes;
pub mod paths;
pub mod calendar;
pub mod zone;
pub mod types;
pub mod config;
pub mod dates;
pub mod wording;
pub mod parse;
pub mod schedule;
pub mod display;
pub mod alarm;
pub mod state;
pub mod process;
pub mod report;
