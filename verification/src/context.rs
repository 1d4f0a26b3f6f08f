//! Who registers, and over which path.

use crate::net::SocketAddr;
use vstd::prelude::*;

verus! {

#[derive(Debug, Clone, PartialEq, Eq)]
pub struct ImsIdentity {
    pub private_user: String,
    pub public_uri: String,
    pub contact_user: String,
    pub home_domain: String,
    pub contact_user_phone: bool,
}

#[derive(Debug, Clone, Copy, PartialEq, Eq, Structural)]
pub enum SipTransport {
    Udp,
    Tcp,
}

impl SipTransport {
    pub open spec fn param(self) -> Seq<char> {
        match self {
            SipTransport::Udp => "udp"@,
            SipTransport::Tcp => "tcp"@,
        }
    }

    /// The transport parameter of a SIP URI.
    pub fn as_param(self) -> (r: &'static str)
        ensures
            r@ == self.param(),
    {
        match self {
            SipTransport::Udp => "udp",
            SipTransport::Tcp => "tcp",
        }
    }

    pub open spec fn token(self) -> Seq<char> {
        match self {
            SipTransport::Udp => "UDP"@,
            SipTransport::Tcp => "TCP"@,
        }
    }

    /// The transport token of a Via.
    pub fn as_token(self) -> (r: &'static str)
        ensures
            r@ == self.token(),
    {
        match self {
            SipTransport::Udp => "UDP",
            SipTransport::Tcp => "TCP",
        }
    }
}

#[derive(Debug, Clone, Copy, PartialEq, Eq, Structural)]
pub struct ImsRoute {
    pub local_addr: SocketAddr,
    pub pcscf_addr: SocketAddr,
    pub transport: SipTransport,
}

#[derive(Debug, Clone, Copy, PartialEq, Eq, Structural)]
pub enum ImsRegistrationAccess {
    Volte,
    Vowifi,
}

/// What a completed registration left behind for originating requests.
#[derive(Debug, Clone, PartialEq, Eq)]
pub struct RegisteredImsContext {
    pub access: ImsRegistrationAccess,
    pub service_route: Option<String>,
    pub associated_uris: Vec<String>,
}

} // verus!
