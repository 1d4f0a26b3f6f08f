//! What each task is, and what it is run with.

pub mod baseband_reboot;
