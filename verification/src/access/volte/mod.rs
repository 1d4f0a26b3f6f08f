//! Cellular IMS access of a line.

pub mod bearer_laws;
pub mod channel;
pub mod ipsec;
pub mod live;
pub mod live_laws;
pub mod native_bearer;
pub mod pcscf;
pub mod pcscf_laws;
