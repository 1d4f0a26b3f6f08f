//! IMS over cellular access.

pub mod bearer_laws;
pub mod data_slot;
pub mod errors;
pub mod native_bearer;
pub mod pcscf_dns;
pub mod pcscf_replies;
