//! Voice calls between a trunk and an operator, on a registered SIP channel.

pub mod call;
pub mod call_laws;
pub mod frames;
pub mod header_laws;
pub mod headers;
pub mod line_laws;
pub mod media;
pub mod media_laws;
pub mod registry;
pub mod relays;
pub mod run;
pub mod session;
pub mod signalling;
