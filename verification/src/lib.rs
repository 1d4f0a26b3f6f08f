//! Verified core of an IMS client: registration policy, SIP text handling,
//! outbound flows, P-CSCF discovery and the VoLTE/VoWiFi state machines.

pub mod access;
pub mod access_choice;
pub mod address_text;
pub mod api;
pub mod automation;
pub mod bearer;
pub mod cellular_ims;
pub mod context;
pub mod failure_laws;
pub mod ims_access;
pub mod ims_error;
pub mod ims_failure;
pub mod ims_registration_coordinator;
pub mod ip_text;
pub mod net;
pub mod operator;
pub mod order;
pub mod outbound;
pub mod outbound_laws;
pub mod plan;
pub mod register_laws;
pub mod register_repeat;
pub mod register_response;
pub mod register_rewrite;
pub mod requeue;
pub mod rewrite_laws;
pub mod sdp;
pub mod sdp_laws;
pub mod sip_frame;
pub mod sip_laws;
pub mod sip_message;
pub mod stun;
pub mod supplementary;
pub mod supplementary_laws;
pub mod text;
pub mod text_laws;
pub mod ut;
pub mod ut_documents;
pub mod utf8;
pub mod volte;
pub mod vowifi;
pub mod xml;
