//! Verified core of a coverage-monitor daemon: maps a linear project list
//! onto a 4x4 button/LED grid, renders pass/fail indicators, and drives a
//! time-bounded interaction loop over button presses.

pub mod grid;
pub mod project;
pub mod text;
pub mod cycle;
pub mod render;
pub mod interact;
pub mod api;
