//! Decisions behind the management interface.

pub mod native_controls;
