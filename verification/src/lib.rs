//! Core of a personal daily-planning dashboard: a JSON-backed environment
//! store, a 7-day schedule projector, a running-totals accumulator, and the
//! modal state machine that routes keyboard input between the main view and
//! its text-entry popups.

pub mod dashboard;
pub mod date;
pub mod json;
pub mod num;
pub mod schedule;
pub mod store;
pub mod text;
pub mod totals;
