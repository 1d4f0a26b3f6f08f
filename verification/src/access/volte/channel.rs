//! SIP channel over the dedicated IMS bearer.
//!
//! The socket is bound to the bearer interface, so that IMS traffic can never
//! escape through the host's normal default route. A sec-agree challenge may
//! replace it by one bound to the negotiated client port.

use crate::context::ImsRoute;
use crate::ims_error::ImsError;
use crate::net::{BoundSocket, SocketAddr};
use crate::{supplementary, text};
use vstd::prelude::*;

verus! {

#[derive(Debug, PartialEq, Eq)]
pub struct VolteSipChannel {
    pub socket: BoundSocket,
    pub route: ImsRoute,
    pub interface: Option<String>,
    pub security_verify: Option<String>,
}

/// A channel as a value.
pub struct Channel {
    pub socket: BoundSocket,
    pub route: ImsRoute,
    pub interface: Option<Seq<char>>,
    pub verify: Option<Seq<char>>,
}

impl View for VolteSipChannel {
    type V = Channel;

    open spec fn view(&self) -> Channel {
        Channel {
            socket: self.socket,
            route: self.route,
            interface: text::opt_text(self.interface),
            verify: text::opt_text(self.security_verify),
        }
    }
}

/// Can the two ends of a route be joined by one socket?
pub open spec fn joinable(route: ImsRoute) -> bool {
    (route.local_addr.ip is V4) == (route.pcscf_addr.ip is V4)
}

impl VolteSipChannel {
    /// A channel on a socket, if one could be bound and connected.
    pub fn bind(
        route: ImsRoute,
        interface: Option<String>,
        security_verify: Option<String>,
        socket: Option<BoundSocket>,
    ) -> (r: Result<Self, ImsError>)
        ensures
            match r {
                Ok(c) => joinable(route) && (socket matches Some(s) && c@ == (Channel {
                    socket: s,
                    route,
                    interface: text::opt_text(interface),
                    verify: text::opt_text(security_verify),
                })),
                Err(e) => !(joinable(route) && socket is Some) && e.code_spec()
                    == "volte_channel_bind_failed"@,
            },
    {
        if route.local_addr.ip.is_ipv4() != route.pcscf_addr.ip.is_ipv4() {
            return Err(ImsError::new("volte_channel_bind_failed"));
        }
        match socket {
            Some(socket) => Ok(VolteSipChannel { socket, route, interface, security_verify }),
            None => Err(ImsError::new("volte_channel_bind_failed")),
        }
    }

    /// Replaces the socket after a challenge selected new protected ports. The
    /// old one stays unless a new one could be had.
    pub fn rebind(
        &mut self,
        route: ImsRoute,
        security_verify: Option<String>,
        socket: Option<BoundSocket>,
    ) -> (r: Result<(), ImsError>)
        ensures
            match r {
                Ok(_) => joinable(route) && (socket matches Some(s) && final(self)@ == (Channel {
                    socket: s,
                    route,
                    verify: text::opt_text(security_verify),
                    ..old(self)@
                })),
                Err(e) => !(joinable(route) && socket is Some) && e.code_spec()
                    == "volte_channel_bind_failed"@ && final(self)@ == old(self)@,
            },
    {
        if route.local_addr.ip.is_ipv4() != route.pcscf_addr.ip.is_ipv4() {
            return Err(ImsError::new("volte_channel_bind_failed"));
        }
        match socket {
            Some(socket) => {
                self.socket = socket;
                self.route = route;
                self.security_verify = security_verify;
                Ok(())
            },
            None => Err(ImsError::new("volte_channel_bind_failed")),
        }
    }

    pub fn local_addr(&self) -> (r: SocketAddr)
        ensures
            r == self@.socket.local,
    {
        self.socket.local
    }

    pub fn interface(&self) -> (r: Option<&str>)
        ensures
            supplementary::opt_str(r) == self@.interface,
    {
        match &self.interface {
            Some(name) => Some(name.as_str()),
            None => None,
        }
    }

    pub fn route(&self) -> (r: ImsRoute)
        ensures
            r == self@.route,
    {
        self.route
    }

    pub fn security_verify(&self) -> (r: Option<&str>)
        ensures
            supplementary::opt_str(r) == self@.verify,
    {
        match &self.security_verify {
            Some(value) => Some(value.as_str()),
            None => None,
        }
    }
}

} // verus!
