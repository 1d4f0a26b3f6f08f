//! Automation tasks.

pub mod tasks;
