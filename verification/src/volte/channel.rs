//! SIP channel over the dedicated IMS bearer.
//!
//! Its sockets are bound to the bearer interface, so that IMS traffic can never
//! escape through the host's normal default route. A sec-agree challenge
//! replaces the sockets by protected ones, tentatively: the old association
//! stays until the challenged REGISTER is answered. The channel knows sockets by
//! number and local address.

use crate::context::ImsRoute;
use crate::ims_error::ImsError;
use crate::net::{BoundSocket, SocketAddr};
use crate::requeue::ImsRequeue;
use crate::{requeue, sip_frame, text};
use vstd::prelude::*;

verus! {

/// Ports of plain SIP, which are never used for protected traffic.
pub open spec fn plain_sip_port(port: u16) -> bool {
    port == 5060 || port == 5061
}

/// What asking for a socket came to.
#[derive(Debug, Clone, Copy, PartialEq, Eq, Structural)]
pub enum SocketOutcome {
    Udp(BoundSocket),
    /// A socket whose local address cannot be told.
    Unaddressed,
    OtherType,
    Failed,
}

/// The sockets and headers of one association.
#[derive(Debug, PartialEq, Eq)]
pub struct ChannelSecurity {
    pub send_socket: Option<BoundSocket>,
    pub receive_socket: Option<BoundSocket>,
    pub route: ImsRoute,
    /// The port to advertise once a security association is active: requests are
    /// sent from the protected client port, but the far end sends its own to the
    /// protected server port. Without an association both are the same.
    pub advertised_local_port: Option<u16>,
    pub security_verify: Option<String>,
}

/// An association as a value.
pub struct Association {
    pub send: Option<BoundSocket>,
    pub receive: Option<BoundSocket>,
    pub route: ImsRoute,
    pub advertised: Option<u16>,
    pub verify: Option<Seq<char>>,
}

impl View for ChannelSecurity {
    type V = Association;

    open spec fn view(&self) -> Association {
        Association {
            send: self.send_socket,
            receive: self.receive_socket,
            route: self.route,
            advertised: self.advertised_local_port,
            verify: text::opt_text(self.security_verify),
        }
    }
}

pub open spec fn opt_association(o: Option<ChannelSecurity>) -> Option<Association> {
    match o {
        Some(s) => Some(s@),
        None => None,
    }
}

#[derive(Debug, PartialEq, Eq)]
pub struct VolteSipChannel {
    pub active: ChannelSecurity,
    /// Ports of the next association are held from the first REGISTER until it is
    /// active, so that the offer, the selectors and the source of the datagrams
    /// are the same.
    pub reserved_send_socket: Option<BoundSocket>,
    pub reserved_receive_socket: Option<BoundSocket>,
    /// Complete frames set aside by a REGISTER transaction because they belong to
    /// another dialog; they are handed back when it is over.
    pub requeued: ImsRequeue,
    pub interface: Option<String>,
    /// The old association stays until a challenged REGISTER is answered.
    pub staged_security: Option<ChannelSecurity>,
    /// The far end may still send on the old association after the answer: one is
    /// kept until the next registration.
    pub retired_security: Option<ChannelSecurity>,
}

/// A channel as a value.
pub struct Channel {
    pub active: Association,
    pub reserved_send: Option<BoundSocket>,
    pub reserved_receive: Option<BoundSocket>,
    pub requeued: Seq<Seq<u8>>,
    pub interface: Option<Seq<char>>,
    pub staged: Option<Association>,
    pub retired: Option<Association>,
}

impl View for VolteSipChannel {
    type V = Channel;

    open spec fn view(&self) -> Channel {
        Channel {
            active: self.active@,
            reserved_send: self.reserved_send_socket,
            reserved_receive: self.reserved_receive_socket,
            requeued: self.requeued@,
            interface: text::opt_text(self.interface),
            staged: opt_association(self.staged_security),
            retired: opt_association(self.retired_security),
        }
    }
}

/// A channel on one plain socket.
pub open spec fn plain_channel(
    socket: BoundSocket,
    route: ImsRoute,
    interface: Option<Seq<char>>,
    verify: Option<Seq<char>>,
) -> Channel {
    Channel {
        active: Association {
            send: Some(socket),
            receive: None,
            route: ImsRoute { local_addr: socket.local, ..route },
            advertised: None,
            verify,
        },
        reserved_send: None,
        reserved_receive: None,
        requeued: seq![],
        interface,
        staged: None,
        retired: None,
    }
}

pub open spec fn same_family(route: ImsRoute) -> bool {
    (route.local_addr.ip is V4) == (route.pcscf_addr.ip is V4)
}

/// What reserving a port came to.
#[derive(Debug, PartialEq, Eq)]
pub enum ReserveStep {
    Reserved(u16),
    /// The port cannot be used: ask for another socket.
    Again,
    Failed(ImsError),
}

pub enum Reserve {
    Reserved(u16),
    Again,
    Failed(Seq<char>),
}

impl View for ReserveStep {
    type V = Reserve;

    open spec fn view(&self) -> Reserve {
        match self {
            ReserveStep::Reserved(port) => Reserve::Reserved(*port),
            ReserveStep::Again => Reserve::Again,
            ReserveStep::Failed(e) => Reserve::Failed(e.code_spec()),
        }
    }
}

/// How often a port is asked for: eight times where any will do.
pub open spec fn attempts_for(requested_port: u16) -> u32 {
    if requested_port == 0 {
        8
    } else {
        1
    }
}

/// A port that was handed out, on the `attempt`-th try counted from zero.
pub open spec fn reserve_outcome(
    outcome: SocketOutcome,
    usable: bool,
    attempt: u32,
    requested_port: u16,
    exhausted: Seq<char>,
) -> Reserve {
    match outcome {
        SocketOutcome::Unaddressed => Reserve::Failed("volte_channel_local_addr_failed"@),
        SocketOutcome::OtherType => Reserve::Failed("volte_channel_worker_socket_type"@),
        SocketOutcome::Failed => Reserve::Failed("volte_channel_worker_socket_failed"@),
        SocketOutcome::Udp(socket) => if usable {
            Reserve::Reserved(socket.local.port)
        } else if attempt + 1 < attempts_for(requested_port) {
            Reserve::Again
        } else {
            Reserve::Failed(exhausted)
        },
    }
}

/// Can this port be the protected client port?
pub open spec fn send_port_ok(c: Channel, port: u16, avoid_port: u16) -> bool {
    !plain_sip_port(port) && port != avoid_port && port != c.active.route.local_addr.port
}

pub open spec fn reserve_send(
    c: Channel,
    outcome: SocketOutcome,
    attempt: u32,
    requested_port: u16,
    avoid_port: u16,
) -> (Channel, Reserve) {
    match c.reserved_send {
        Some(socket) => (c, Reserve::Reserved(socket.local.port)),
        None => {
            let usable = outcome matches SocketOutcome::Udp(socket) && send_port_ok(
                c,
                socket.local.port,
                avoid_port,
            );
            let r = reserve_outcome(
                outcome,
                usable,
                attempt,
                requested_port,
                "volte_channel_send_reserve_invalid_port"@,
            );
            match outcome {
                SocketOutcome::Udp(socket) => if usable {
                    (Channel { reserved_send: Some(socket), ..c }, r)
                } else {
                    (c, r)
                },
                _ => (c, r),
            }
        },
    }
}

pub open spec fn reserve_receive(
    c: Channel,
    outcome: SocketOutcome,
    attempt: u32,
    requested_port: u16,
) -> (Channel, Reserve) {
    match c.reserved_receive {
        Some(socket) => (c, Reserve::Reserved(socket.local.port)),
        None => if plain_sip_port(requested_port) {
            (c, Reserve::Failed("volte_channel_receive_reserved_sip_port"@))
        } else {
            let usable = outcome matches SocketOutcome::Udp(socket) && !plain_sip_port(
                socket.local.port,
            );
            let r = reserve_outcome(
                outcome,
                usable,
                attempt,
                requested_port,
                "volte_channel_receive_reserve_invalid_port"@,
            );
            match outcome {
                SocketOutcome::Udp(socket) => if usable {
                    (Channel { reserved_receive: Some(socket), ..c }, r)
                } else {
                    (c, r)
                },
                _ => (c, r),
            }
        },
    }
}

/// The protected client port, where no socket has to be asked for.
pub open spec fn settled_send(c: Channel) -> Option<u16> {
    match c.reserved_send {
        Some(socket) => Some(socket.local.port),
        None => None,
    }
}

/// What reserving the protected server port comes to, where no socket has to be asked
/// for.
pub open spec fn settled_receive(c: Channel, requested_port: u16) -> Option<Reserve> {
    match c.reserved_receive {
        Some(socket) => Some(Reserve::Reserved(socket.local.port)),
        None => if plain_sip_port(requested_port) {
            Some(Reserve::Failed("volte_channel_receive_reserved_sip_port"@))
        } else {
            None
        },
    }
}

/// The reserved socket for sending, if it is the one that was offered.
pub open spec fn connects_send(c: Channel, send_route: ImsRoute) -> Option<BoundSocket> {
    match c.reserved_send {
        Some(send) => if send.local == send_route.local_addr {
            Some(send)
        } else {
            None
        },
        None => None,
    }
}

/// The reserved socket for receiving, if it is the one that was offered and that for
/// sending is connected.
pub open spec fn connects_receive(
    c: Channel,
    send_route: ImsRoute,
    receive_local: SocketAddr,
    send_connected: bool,
) -> Option<BoundSocket> {
    if connects_send(c, send_route) is None || !send_connected {
        None
    } else {
        match c.reserved_receive {
            Some(receive) => if receive.local == receive_local {
                Some(receive)
            } else {
                None
            },
            None => None,
        }
    }
}

/// A new association on two sockets, the old one set aside.
pub open spec fn stage(
    c: Channel,
    send: BoundSocket,
    receive: BoundSocket,
    route: ImsRoute,
    advertised: u16,
    verify: Option<Seq<char>>,
) -> (Channel, Result<(), Seq<char>>) {
    if c.staged is Some {
        (c, Err("volte_channel_security_update_pending"@))
    } else {
        (
            Channel {
                active: Association {
                    send: Some(send),
                    receive: Some(receive),
                    route: ImsRoute { local_addr: send.local, ..route },
                    advertised: Some(advertised),
                    verify,
                },
                staged: Some(c.active),
                ..c
            },
            Ok(()),
        )
    }
}

/// The reserved sockets become the two protected directions. They have to be
/// those that were offered, and have to connect.
pub open spec fn activate(
    c: Channel,
    send_route: ImsRoute,
    receive_local: SocketAddr,
    verify: Option<Seq<char>>,
    send_connected: bool,
    receive_connected: bool,
) -> (Channel, Result<(), Seq<char>>) {
    match c.reserved_send {
        None => (c, Err("volte_channel_send_not_reserved"@)),
        Some(send) => {
            let c = Channel { reserved_send: None, ..c };
            if send.local != send_route.local_addr {
                (c, Err("volte_channel_send_port_mismatch"@))
            } else if !send_connected {
                (c, Err("volte_channel_send_connect_failed"@))
            } else {
                match c.reserved_receive {
                    None => (c, Err("volte_channel_receive_not_reserved"@)),
                    Some(receive) => {
                        let c = Channel { reserved_receive: None, ..c };
                        if receive.local != receive_local {
                            (c, Err("volte_channel_receive_port_mismatch"@))
                        } else if !receive_connected {
                            (c, Err("volte_channel_receive_connect_failed"@))
                        } else {
                            stage(c, send, receive, send_route, receive_local.port, verify)
                        }
                    },
                }
            }
        },
    }
}

pub open spec fn without_reserved(c: Channel) -> Channel {
    Channel { reserved_send: None, reserved_receive: None, ..c }
}

/// The new association is in use; the old one stays readable if it was
/// protected.
pub open spec fn committed(c: Channel) -> Channel {
    without_reserved(
        match c.staged {
            Some(previous) => Channel {
                staged: None,
                retired: if previous.verify is Some {
                    Some(previous)
                } else {
                    None
                },
                ..c
            },
            None => c,
        },
    )
}

/// The old association is in use again, sockets and headers together.
pub open spec fn rolled_back(c: Channel) -> Channel {
    without_reserved(
        match c.staged {
            Some(previous) => Channel { active: previous, staged: None, ..c },
            None => c,
        },
    )
}

/// The route that headers speak of.
pub open spec fn advertised(a: Association) -> ImsRoute {
    match a.advertised {
        Some(port) => ImsRoute {
            local_addr: SocketAddr { port, ..a.route.local_addr },
            ..a.route
        },
        None => a.route,
    }
}

pub open spec fn unit_result(r: Result<(), ImsError>) -> Result<(), Seq<char>> {
    match r {
        Ok(_) => Ok(()),
        Err(e) => Err(e.code_spec()),
    }
}

fn is_plain_sip_port(port: u16) -> (r: bool)
    ensures
        r == plain_sip_port(port),
{
    port == 5060 || port == 5061
}

fn judge_port(
    socket: BoundSocket,
    usable: bool,
    attempt: u32,
    requested_port: u16,
    exhausted: &'static str,
) -> (r: ReserveStep)
    requires
        attempt < 8,
    ensures
        r@ == reserve_outcome(
            SocketOutcome::Udp(socket),
            usable,
            attempt,
            requested_port,
            exhausted@,
        ),
{
    if usable {
        return ReserveStep::Reserved(socket.local.port);
    }
    let attempts: u32 = if requested_port == 0 {
        8
    } else {
        1
    };
    if attempt + 1 < attempts {
        ReserveStep::Again
    } else {
        ReserveStep::Failed(ImsError::new(exhausted))
    }
}

impl VolteSipChannel {
    pub open spec fn wf(&self) -> bool {
        self.requeued.wf()
    }

    fn on_socket(
        socket: BoundSocket,
        route: ImsRoute,
        interface: Option<String>,
        security_verify: Option<String>,
    ) -> (r: Self)
        ensures
            r.wf(),
            r@ == plain_channel(
                socket,
                route,
                text::opt_text(interface),
                text::opt_text(security_verify),
            ),
    {
        let r = VolteSipChannel {
            active: ChannelSecurity {
                send_socket: Some(socket),
                receive_socket: None,
                route: ImsRoute {
                    local_addr: socket.local,
                    pcscf_addr: route.pcscf_addr,
                    transport: route.transport,
                },
                advertised_local_port: None,
                security_verify,
            },
            reserved_send_socket: None,
            reserved_receive_socket: None,
            requeued: ImsRequeue::default(),
            interface,
            staged_security: None,
            retired_security: None,
        };
        assert(r@.requeued =~= seq![]);
        r
    }

    /// A channel on a socket of the host, if one could be bound and connected.
    pub fn bind(
        route: ImsRoute,
        interface: Option<String>,
        security_verify: Option<String>,
        socket: Option<BoundSocket>,
    ) -> (r: Result<Self, ImsError>)
        ensures
            match r {
                Ok(c) => same_family(route) && socket is Some && c.wf() && c@ == plain_channel(
                    socket->0,
                    route,
                    text::opt_text(interface),
                    text::opt_text(security_verify),
                ),
                Err(e) => !(same_family(route) && socket is Some) && e.code_spec()
                    == "volte_channel_bind_failed"@,
            },
    {
        if route.local_addr.ip.is_ipv4() != route.pcscf_addr.ip.is_ipv4() {
            return Err(ImsError::new("volte_channel_bind_failed"));
        }
        match socket {
            Some(socket) => Ok(
                VolteSipChannel::on_socket(socket, route, interface, security_verify),
            ),
            None => Err(ImsError::new("volte_channel_bind_failed")),
        }
    }

    /// A channel on a socket of the line's worker.
    pub fn bind_in_worker(
        route: ImsRoute,
        socket: SocketOutcome,
        interface: Option<String>,
        security_verify: Option<String>,
    ) -> (r: Result<Self, ImsError>)
        ensures
            match r {
                Ok(c) => (socket matches SocketOutcome::Udp(s) && c@ == plain_channel(
                    s,
                    route,
                    text::opt_text(interface),
                    text::opt_text(security_verify),
                )) && c.wf(),
                Err(e) => match socket {
                    SocketOutcome::Udp(_) => false,
                    SocketOutcome::Unaddressed => e.code_spec()
                        == "volte_channel_local_addr_failed"@,
                    SocketOutcome::OtherType => e.code_spec()
                        == "volte_channel_worker_socket_type"@,
                    SocketOutcome::Failed => e.code_spec()
                        == "volte_channel_worker_socket_failed"@,
                },
            },
    {
        match socket {
            SocketOutcome::Udp(socket) => Ok(
                VolteSipChannel::on_socket(socket, route, interface, security_verify),
            ),
            SocketOutcome::Unaddressed => Err(ImsError::new("volte_channel_local_addr_failed")),
            SocketOutcome::OtherType => Err(ImsError::new("volte_channel_worker_socket_type")),
            SocketOutcome::Failed => Err(ImsError::new("volte_channel_worker_socket_failed")),
        }
    }

    /// The protected client port, where there is one: no socket is asked for.
    pub fn settled_send_port(&self) -> (r: Option<u16>)
        ensures
            r == settled_send(self@),
    {
        match self.reserved_send_socket {
            Some(socket) => Some(socket.local.port),
            None => None,
        }
    }

    /// What reserving the protected server port comes to, where no socket is asked
    /// for: the port that there is, or the refusal of the requested one.
    pub fn settled_receive_port(&self, requested_port: u16) -> (r: Option<Result<u16, ImsError>>)
        ensures
            match r {
                Some(Ok(port)) => settled_receive(self@, requested_port) == Some(
                    Reserve::Reserved(port),
                ),
                Some(Err(e)) => settled_receive(self@, requested_port) == Some(
                    Reserve::Failed(e.code_spec()),
                ),
                None => settled_receive(self@, requested_port) is None,
            },
    {
        if let Some(socket) = self.reserved_receive_socket {
            return Some(Ok(socket.local.port));
        }
        if is_plain_sip_port(requested_port) {
            return Some(Err(ImsError::new("volte_channel_receive_reserved_sip_port")));
        }
        None
    }

    /// The socket that is connected first when the reserved sockets are taken into use.
    pub fn send_to_connect(&self, send_route: ImsRoute) -> (r: Option<BoundSocket>)
        ensures
            r == connects_send(self@, send_route),
    {
        match self.reserved_send_socket {
            Some(send) => {
                if send.local == send_route.local_addr {
                    Some(send)
                } else {
                    None
                }
            },
            None => None,
        }
    }

    /// The socket that is connected next, once the first one is.
    pub fn receive_to_connect(
        &self,
        send_route: ImsRoute,
        receive_local: SocketAddr,
        send_connected: bool,
    ) -> (r: Option<BoundSocket>)
        ensures
            r == connects_receive(self@, send_route, receive_local, send_connected),
    {
        if self.send_to_connect(send_route).is_none() || !send_connected {
            return None;
        }
        match self.reserved_receive_socket {
            Some(receive) => {
                if receive.local == receive_local {
                    Some(receive)
                } else {
                    None
                }
            },
            None => None,
        }
    }

    /// Reserves the protected client port on a socket that was asked for with the
    /// requested port. Exactly the port that the REGISTER advertised is used
    /// again, never a new one.
    pub fn reserve_security_send_port_in_worker_at(
        &mut self,
        outcome: SocketOutcome,
        attempt: u32,
        requested_port: u16,
        avoid_port: u16,
    ) -> (r: ReserveStep)
        requires
            old(self).wf(),
            attempt < 8,
        ensures
            final(self).wf(),
            (final(self)@, r@) == reserve_send(
                old(self)@,
                outcome,
                attempt,
                requested_port,
                avoid_port,
            ),
    {
        if let Some(socket) = self.reserved_send_socket {
            return ReserveStep::Reserved(socket.local.port);
        }
        match outcome {
            SocketOutcome::Unaddressed => ReserveStep::Failed(
                ImsError::new("volte_channel_local_addr_failed"),
            ),
            SocketOutcome::OtherType => ReserveStep::Failed(
                ImsError::new("volte_channel_worker_socket_type"),
            ),
            SocketOutcome::Failed => ReserveStep::Failed(
                ImsError::new("volte_channel_worker_socket_failed"),
            ),
            SocketOutcome::Udp(socket) => {
                let port: u16 = socket.local.port;
                let usable: bool = !is_plain_sip_port(port) && port != avoid_port && port
                    != self.active.route.local_addr.port;
                if usable {
                    self.reserved_send_socket = Some(socket);
                }
                judge_port(
                    socket,
                    usable,
                    attempt,
                    requested_port,
                    "volte_channel_send_reserve_invalid_port",
                )
            },
        }
    }

    /// Reserves the protected server port. It stays the same over authenticated
    /// re-registration, so that exactly a requested port can be asked for.
    pub fn reserve_security_receive_port_in_worker_at(
        &mut self,
        outcome: SocketOutcome,
        attempt: u32,
        requested_port: u16,
    ) -> (r: ReserveStep)
        requires
            old(self).wf(),
            attempt < 8,
        ensures
            final(self).wf(),
            (final(self)@, r@) == reserve_receive(old(self)@, outcome, attempt, requested_port),
    {
        if let Some(socket) = self.reserved_receive_socket {
            return ReserveStep::Reserved(socket.local.port);
        }
        if is_plain_sip_port(requested_port) {
            return ReserveStep::Failed(ImsError::new("volte_channel_receive_reserved_sip_port"));
        }
        match outcome {
            SocketOutcome::Unaddressed => ReserveStep::Failed(
                ImsError::new("volte_channel_local_addr_failed"),
            ),
            SocketOutcome::OtherType => ReserveStep::Failed(
                ImsError::new("volte_channel_worker_socket_type"),
            ),
            SocketOutcome::Failed => ReserveStep::Failed(
                ImsError::new("volte_channel_worker_socket_failed"),
            ),
            SocketOutcome::Udp(socket) => {
                let usable: bool = !is_plain_sip_port(socket.local.port);
                if usable {
                    self.reserved_receive_socket = Some(socket);
                }
                judge_port(
                    socket,
                    usable,
                    attempt,
                    requested_port,
                    "volte_channel_receive_reserve_invalid_port",
                )
            },
        }
    }

    fn stage_security(
        &mut self,
        send_socket: BoundSocket,
        receive_socket: BoundSocket,
        route: ImsRoute,
        advertised_port: u16,
        security_verify: Option<String>,
    ) -> (r: Result<(), ImsError>)
        requires
            old(self).wf(),
        ensures
            final(self).wf(),
            (final(self)@, unit_result(r)) == stage(
                old(self)@,
                send_socket,
                receive_socket,
                route,
                advertised_port,
                text::opt_text(security_verify),
            ),
    {
        if self.staged_security.is_some() {
            return Err(ImsError::new("volte_channel_security_update_pending"));
        }
        let mut next = ChannelSecurity {
            send_socket: Some(send_socket),
            receive_socket: Some(receive_socket),
            route: ImsRoute {
                local_addr: send_socket.local,
                pcscf_addr: route.pcscf_addr,
                transport: route.transport,
            },
            advertised_local_port: Some(advertised_port),
            security_verify,
        };
        std::mem::swap(&mut next, &mut self.active);
        self.staged_security = Some(next);
        Ok(())
    }

    /// Makes the reserved sockets the two protected directions. Whether each
    /// could be connected to its far end is told.
    pub fn activate_security_in_worker(
        &mut self,
        send_route: ImsRoute,
        receive_local: SocketAddr,
        security_verify: Option<String>,
        send_connected: bool,
        receive_connected: bool,
    ) -> (r: Result<(), ImsError>)
        requires
            old(self).wf(),
        ensures
            final(self).wf(),
            (final(self)@, unit_result(r)) == activate(
                old(self)@,
                send_route,
                receive_local,
                text::opt_text(security_verify),
                send_connected,
                receive_connected,
            ),
    {
        let send = match self.reserved_send_socket.take() {
            Some(send) => send,
            None => {
                return Err(ImsError::new("volte_channel_send_not_reserved"));
            },
        };
        if send.local != send_route.local_addr {
            return Err(ImsError::new("volte_channel_send_port_mismatch"));
        }
        if !send_connected {
            return Err(ImsError::new("volte_channel_send_connect_failed"));
        }
        let receive = match self.reserved_receive_socket.take() {
            Some(receive) => receive,
            None => {
                return Err(ImsError::new("volte_channel_receive_not_reserved"));
            },
        };
        if receive.local != receive_local {
            return Err(ImsError::new("volte_channel_receive_port_mismatch"));
        }
        if !receive_connected {
            return Err(ImsError::new("volte_channel_receive_connect_failed"));
        }
        self.stage_security(send, receive, send_route, receive_local.port, security_verify)
    }

    /// To be called only after the matching final success.
    pub fn commit_security(&mut self)
        requires
            old(self).wf(),
        ensures
            final(self).wf(),
            final(self)@ == committed(old(self)@),
    {
        if let Some(previous) = self.staged_security.take() {
            self.retired_security = if previous.security_verify.is_some() {
                Some(previous)
            } else {
                None
            };
        }
        self.discard_reserved_security_ports();
    }

    pub fn rollback_security(&mut self)
        requires
            old(self).wf(),
        ensures
            final(self).wf(),
            final(self)@ == rolled_back(old(self)@),
    {
        if let Some(previous) = self.staged_security.take() {
            self.active = previous;
        }
        self.discard_reserved_security_ports();
    }

    pub fn discard_retired_security(&mut self)
        requires
            old(self).wf(),
        ensures
            final(self).wf(),
            final(self)@ == (Channel { retired: None, ..old(self)@ }),
    {
        self.retired_security = None;
    }

    /// Ports that were reserved for a protected refresh without a challenge are
    /// let go: the association stays as it is.
    pub fn discard_reserved_security_ports(&mut self)
        requires
            old(self).wf(),
        ensures
            final(self).wf(),
            final(self)@ == without_reserved(old(self)@),
    {
        self.reserved_send_socket = None;
        self.reserved_receive_socket = None;
    }

    /// The route for Via and Contact.
    pub fn advertised_route(&self) -> (r: ImsRoute)
        ensures
            r == advertised(self@.active),
    {
        let route = self.active.route;
        match self.active.advertised_local_port {
            Some(port) => ImsRoute {
                local_addr: SocketAddr { ip: route.local_addr.ip, port },
                pcscf_addr: route.pcscf_addr,
                transport: route.transport,
            },
            None => route,
        }
    }

    /// Repairs the port that headers advertise; sockets and associations stay.
    pub fn sync_protected_advertised_port(&mut self, port: u16)
        requires
            old(self).wf(),
        ensures
            final(self).wf(),
            final(self)@ == (Channel {
                active: Association { advertised: Some(port), ..old(self)@.active },
                ..old(self)@
            }),
    {
        self.active.advertised_local_port = Some(port);
    }

    /// The route that datagrams are really sent from.
    pub fn send_route(&self) -> (r: ImsRoute)
        ensures
            r == self@.active.route,
    {
        self.active.route
    }

    pub fn local_addr(&self) -> (r: Result<SocketAddr, ImsError>)
        ensures
            match r {
                Ok(a) => self@.active.send matches Some(s) && a == s.local,
                Err(e) => self@.active.send is None && e.code_spec()
                    == "volte_channel_send_socket_missing"@,
            },
    {
        match self.active.send_socket {
            Some(socket) => Ok(socket.local),
            None => Err(ImsError::new("volte_channel_send_socket_missing")),
        }
    }

    pub fn interface(&self) -> (r: Option<&str>)
        ensures
            crate::supplementary::opt_str(r) == self@.interface,
    {
        match &self.interface {
            Some(name) => Some(name.as_str()),
            None => None,
        }
    }

    pub fn security_verify(&self) -> (r: Option<&str>)
        ensures
            crate::supplementary::opt_str(r) == self@.active.verify,
    {
        match &self.active.security_verify {
            Some(value) => Some(value.as_str()),
            None => None,
        }
    }

    /// The socket to send on.
    pub fn send_socket(&self) -> (r: Result<BoundSocket, ImsError>)
        ensures
            match r {
                Ok(s) => self@.active.send == Some(s),
                Err(e) => self@.active.send is None && e.code_spec()
                    == "volte_channel_send_socket_missing"@,
            },
    {
        match self.active.send_socket {
            Some(socket) => Ok(socket),
            None => Err(ImsError::new("volte_channel_send_socket_missing")),
        }
    }

    pub fn requeue(&mut self, frame: Vec<u8>) -> (r: bool)
        requires
            old(self).wf(),
        ensures
            final(self).wf(),
            r == requeue::has_room(old(self)@.requeued, frame@),
            final(self)@ == (Channel {
                requeued: if r {
                    old(self)@.requeued.push(frame@)
                } else {
                    old(self)@.requeued
                },
                ..old(self)@
            }),
    {
        self.requeued.push_back(frame)
    }

    /// The frame that was set aside first, ahead of anything fresh.
    pub fn next_requeued(&mut self) -> (r: Option<Vec<u8>>)
        requires
            old(self).wf(),
        ensures
            final(self).wf(),
            match r {
                Some(frame) => old(self)@.requeued.len() > 0 && frame@ == old(self)@.requeued[0]
                    && final(self)@ == (Channel {
                    requeued: old(self)@.requeued.drop_first(),
                    ..old(self)@
                }),
                None => old(self)@.requeued.len() == 0 && final(self)@ == old(self)@,
            },
    {
        self.requeued.pop_front()
    }

    /// The sockets to listen on: those in use, and those of the association
    /// before, staged or retired.
    pub fn listening(&self) -> (r: (Listening, Option<Listening>))
        ensures
            r == listening_on(self@),
    {
        let current = Listening {
            receive: self.active.receive_socket,
            send: self.active.send_socket,
        };
        let previous = match &self.staged_security {
            Some(s) => Some(Listening { receive: s.receive_socket, send: s.send_socket }),
            None => match &self.retired_security {
                Some(s) => Some(Listening { receive: s.receive_socket, send: s.send_socket }),
                None => None,
            },
        };
        (current, previous)
    }
}

/// A protected association is heard on two sockets: responses come back to the
/// client port, and requests arrive on the server port.
#[derive(Debug, Clone, Copy, PartialEq, Eq, Structural)]
pub struct Listening {
    pub receive: Option<BoundSocket>,
    pub send: Option<BoundSocket>,
}

pub open spec fn heard_on(a: Association) -> Listening {
    Listening { receive: a.receive, send: a.send }
}

pub open spec fn listening_on(c: Channel) -> (Listening, Option<Listening>) {
    (
        heard_on(c.active),
        match c.staged {
            Some(s) => Some(heard_on(s)),
            None => match c.retired {
                Some(s) => Some(heard_on(s)),
                None => None,
            },
        },
    )
}

/// Where to wait for a datagram.
#[derive(Debug, Clone, Copy, PartialEq, Eq, Structural)]
pub enum ReadFrom {
    /// Whichever of the two has one first.
    Either { receive: BoundSocket, send: BoundSocket },
    One(BoundSocket),
}

impl Listening {
    pub open spec fn sources(self) -> Option<ReadFrom> {
        match (self.receive, self.send) {
            (Some(receive), Some(send)) => Some(ReadFrom::Either { receive, send }),
            (Some(socket), None) => Some(ReadFrom::One(socket)),
            (None, Some(socket)) => Some(ReadFrom::One(socket)),
            (None, None) => None,
        }
    }

    pub fn read_from(&self) -> (r: Result<ReadFrom, ImsError>)
        ensures
            match r {
                Ok(from) => self.sources() == Some(from),
                Err(e) => self.sources() is None && e.code_spec()
                    == "volte_channel_receive_socket_missing"@,
            },
    {
        match (self.receive, self.send) {
            (Some(receive), Some(send)) => Ok(ReadFrom::Either { receive, send }),
            (Some(socket), None) => Ok(ReadFrom::One(socket)),
            (None, Some(socket)) => Ok(ReadFrom::One(socket)),
            (None, None) => Err(ImsError::new("volte_channel_receive_socket_missing")),
        }
    }
}

/// Was all of a frame sent? `written` is how much of it was, if it could be sent.
pub fn sent_whole(written: Option<usize>, frame: &[u8]) -> (r: Result<(), ImsError>)
    ensures
        match r {
            Ok(_) => written == Some(frame@.len() as usize),
            Err(e) => match written {
                Some(n) => n != frame@.len() && e.code_spec() == "volte_channel_short_send"@,
                None => e.code_spec() == "volte_channel_send_failed"@,
            },
        },
{
    match written {
        None => Err(ImsError::new("volte_channel_send_failed")),
        Some(n) => {
            if n != frame.len() {
                return Err(ImsError::new("volte_channel_short_send"));
            }
            Ok(())
        },
    }
}

pub open spec fn read_result(r: Result<Vec<u8>, ImsError>) -> Result<Seq<u8>, Seq<char>> {
    match r {
        Ok(v) => Ok(v@),
        Err(e) => Err(e.code_spec()),
    }
}

/// What reading two associations gives, by which of them ended first and what the
/// other had by the deadline. An error on one must not cancel the other.
pub open spec fn resolved_read(
    current_first: bool,
    first: Result<Seq<u8>, Seq<char>>,
    second: Option<Result<Seq<u8>, Seq<char>>>,
) -> Result<Seq<u8>, Seq<char>> {
    match first {
        Ok(frame) => Ok(frame),
        Err(e) => if current_first {
            match second {
                Some(Ok(frame)) => Ok(frame),
                _ => Err(e),
            }
        } else {
            match second {
                Some(r) => r,
                None => Err("volte_channel_read_timeout"@),
            }
        },
    }
}

pub fn resolve_reads(
    current_first: bool,
    first: Result<Vec<u8>, ImsError>,
    second: Option<Result<Vec<u8>, ImsError>>,
) -> (r: Result<Vec<u8>, ImsError>)
    ensures
        read_result(r) == resolved_read(
            current_first,
            read_result(first),
            match second {
                Some(r) => Some(read_result(r)),
                None => None,
            },
        ),
{
    match first {
        Ok(frame) => Ok(frame),
        Err(e) => {
            if current_first {
                match second {
                    Some(Ok(frame)) => Ok(frame),
                    _ => Err(e),
                }
            } else {
                match second {
                    Some(r) => r,
                    None => Err(ImsError::new("volte_channel_read_timeout")),
                }
            }
        },
    }
}

/// Why a socket could not be read.
#[derive(Debug, Clone, Copy, PartialEq, Eq, Structural)]
pub enum ReadErrorKind {
    ConnectionRefused,
    ConnectionReset,
    ConnectionAborted,
    HostUnreachable,
    NetworkUnreachable,
    NetworkDown,
    NotConnected,
    Other,
}

/// A connected socket reports an ICMP error about an earlier datagram when it is
/// read next. That is no failure of a transaction: the next retransmission may
/// still be answered.
pub fn map_socket_read_error(kind: ReadErrorKind) -> (r: ImsError)
    ensures
        r.code_spec() == (if kind is Other {
            "volte_channel_read_failed"@
        } else {
            "volte_channel_read_retryable"@
        }),
{
    match kind {
        ReadErrorKind::Other => ImsError::new("volte_channel_read_failed"),
        _ => ImsError::new("volte_channel_read_retryable"),
    }
}

// ----------------------------------------------------------------------- headers

pub open spec fn port_of_parameter(parameter: Seq<char>, name: Seq<char>) -> Option<u16> {
    match sip_frame::named_value(parameter, name) {
        Some(value) => match text::unsigned(value, u16::MAX as nat) {
            Some(port) => Some(port as u16),
            None => None,
        },
        None => None,
    }
}

pub open spec fn port_in_parameters(parts: Seq<Seq<char>>, name: Seq<char>, i: int) -> Option<u16>
    decreases parts.len() - i,
{
    if i < 0 || i >= parts.len() {
        None
    } else {
        match port_of_parameter(parts[i], name) {
            Some(port) => Some(port),
            None => port_in_parameters(parts, name, i + 1),
        }
    }
}

pub open spec fn port_in_values(values: Seq<Seq<char>>, name: Seq<char>, i: int) -> Option<u16>
    decreases values.len() - i,
{
    if i < 0 || i >= values.len() {
        None
    } else {
        match port_in_parameters(text::split(values[i], ';'), name, 0) {
            Some(port) => Some(port),
            None => port_in_values(values, name, i + 1),
        }
    }
}

fn port_in_value(value: &str, name: &str) -> (r: Option<u16>)
    ensures
        r == port_in_parameters(text::split(value@, ';'), name@, 0),
{
    let chars = text::chars_of(value);
    let parts = text::parts(chars.as_slice(), ';');
    let ghost all = text::split(value@, ';');
    let mut i: usize = 0;
    while i < parts.len()
        invariant
            i <= parts@.len(),
            all == text::views(parts@),
            all == text::split(value@, ';'),
            port_in_parameters(all, name@, 0) == port_in_parameters(all, name@, i as int),
        decreases parts@.len() - i,
    {
        assert(all[i as int] == parts@[i as int]@);
        if let Some(v) = sip_frame::value_named(parts[i], name) {
            if let Some(port) = text::parse_u16(v) {
                return Some(port);
            }
        }
        i += 1;
    }
    None
}

/// The first port under this parameter of the headers of this name.
pub fn header_parameter_port(frame: &[u8], header_name: &str, parameter_name: &str) -> (r: Option<
    u16,
>)
    ensures
        r == port_in_values(
            sip_frame::header_values_of(frame@, header_name@),
            parameter_name@,
            0,
        ),
{
    let values = sip_frame::header_values(frame, header_name);
    let ghost all = sip_frame::header_values_of(frame@, header_name@);
    let mut i: usize = 0;
    assert(values@.len() == text::texts(values@).len());
    while i < values.len()
        invariant
            i <= values@.len(),
            all == text::texts(values@),
            all == sip_frame::header_values_of(frame@, header_name@),
            port_in_values(all, parameter_name@, 0) == port_in_values(
                all,
                parameter_name@,
                i as int,
            ),
        decreases values@.len() - i,
    {
        assert(all[i as int] == values@[i as int]@);
        if let Some(port) = port_in_value(values[i].as_str(), parameter_name) {
            return Some(port);
        }
        i += 1;
    }
    None
}

// ------------------------------------------------------------------------- laws

/// An association that was staged and rolled back leaves the channel as it was,
/// sockets and headers together.
pub proof fn law_rollback_restores(
    c: Channel,
    send: BoundSocket,
    receive: BoundSocket,
    route: ImsRoute,
    port: u16,
    verify: Option<Seq<char>>,
)
    requires
        c.staged is None,
    ensures
        rolled_back(stage(c, send, receive, route, port, verify).0) == without_reserved(c),
{
}

/// After a commit the old association stays readable if it was protected, and the
/// new one is in use.
pub proof fn law_commit_retires(
    c: Channel,
    send: BoundSocket,
    receive: BoundSocket,
    route: ImsRoute,
    port: u16,
    verify: Option<Seq<char>>,
)
    requires
        c.staged is None,
    ensures
        ({
            let staged = stage(c, send, receive, route, port, verify).0;
            &&& committed(staged).active == staged.active
            &&& committed(staged).staged is None
            &&& c.active.verify is Some ==> committed(staged).retired == Some(c.active)
            &&& c.active.verify is None ==> committed(staged).retired is None
        }),
{
}

/// A protected channel advertises its server port and sends from its client port.
pub proof fn law_protected_ports_are_told_apart(
    c: Channel,
    send_route: ImsRoute,
    receive_local: SocketAddr,
    verify: Option<Seq<char>>,
)
    ensures
        ({
            let (next, r) = activate(c, send_route, receive_local, verify, true, true);
            r is Ok ==> {
                &&& advertised(next.active).local_addr.port == receive_local.port
                &&& next.active.route.local_addr == send_route.local_addr
                &&& next.active.send == c.reserved_send
                &&& next.active.receive == c.reserved_receive
            }
        }),
{
}

/// A protected client port is never a plain SIP port, nor the server port, nor
/// the port in use.
pub proof fn law_reserved_ports_are_usable(
    c: Channel,
    outcome: SocketOutcome,
    attempt: u32,
    requested_port: u16,
    avoid_port: u16,
)
    requires
        c.reserved_send is None,
        c.reserved_receive is None,
    ensures
        reserve_send(c, outcome, attempt, requested_port, avoid_port).1 matches Reserve::Reserved(
            port,
        ) ==> !plain_sip_port(port) && port != avoid_port && port
            != c.active.route.local_addr.port,
        reserve_receive(c, outcome, attempt, requested_port).1 matches Reserve::Reserved(port)
            ==> !plain_sip_port(port),
{
}

/// An error on one association does not cancel the other: a frame that either of
/// them had by the deadline is read, whichever ended first.
pub proof fn law_one_failure_does_not_cancel_the_other(
    current_first: bool,
    first: Result<Seq<u8>, Seq<char>>,
    second: Option<Result<Seq<u8>, Seq<char>>>,
)
    ensures
        resolved_read(current_first, first, second) is Ok <==> (first is Ok || (second matches Some(
            Ok(frame),
        ))),
        first matches Err(e) ==> (second matches Some(Ok(frame)) ==> resolved_read(
            current_first,
            first,
            second,
        ) == Ok::<Seq<u8>, Seq<char>>(frame)),
{
}

/// Where a port is settled, what a socket would have come to does not matter.
pub proof fn law_settled_ports_need_no_socket(
    c: Channel,
    outcome: SocketOutcome,
    attempt: u32,
    requested_port: u16,
    avoid_port: u16,
)
    ensures
        settled_send(c) matches Some(port) ==> reserve_send(
            c,
            outcome,
            attempt,
            requested_port,
            avoid_port,
        ) == (c, Reserve::Reserved(port)),
        settled_receive(c, requested_port) matches Some(settled) ==> reserve_receive(
            c,
            outcome,
            attempt,
            requested_port,
        ) == (c, settled),
{
}

/// A socket that is not to be connected does not matter to the association, whatever
/// would have come of connecting it.
pub proof fn law_unasked_connections_do_not_matter(
    c: Channel,
    send_route: ImsRoute,
    receive_local: SocketAddr,
    verify: Option<Seq<char>>,
    send_connected: bool,
    receive_connected: bool,
    other: bool,
)
    ensures
        connects_send(c, send_route) is None ==> activate(
            c,
            send_route,
            receive_local,
            verify,
            send_connected,
            receive_connected,
        ) == activate(c, send_route, receive_local, verify, other, receive_connected),
        connects_receive(c, send_route, receive_local, send_connected) is None ==> activate(
            c,
            send_route,
            receive_local,
            verify,
            send_connected,
            receive_connected,
        ) == activate(c, send_route, receive_local, verify, send_connected, other),
{
}

} // verus!
