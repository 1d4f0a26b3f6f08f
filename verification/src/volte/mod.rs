//! IMS over the cellular access.

pub mod channel;
pub mod channel_laws;
pub mod data_slot;
