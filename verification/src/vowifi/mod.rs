//! IMS over an untrusted Wi-Fi access.

pub mod channel;
pub mod channel_laws;
pub mod profile_choice;
pub mod profile_lists;
pub mod profile_store;
