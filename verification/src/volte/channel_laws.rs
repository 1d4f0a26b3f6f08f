//! How a channel comes to be protected, and where it listens.

use crate::context::ImsRoute;
use crate::net::{BoundSocket, SocketAddr};
use crate::volte::channel;
use crate::volte::channel::{Association, Channel, Reserve, SocketOutcome};
use vstd::prelude::*;

verus! {

/// The two reserved sockets become a protected association just where both are reserved, are
/// the ones that were offered, and connect, and no other change waits. Then requests go out over
/// the one, come in over the other, and the port of the second is the one that is advertised.
pub proof fn law_reserved_sockets_become_the_association(
    c: Channel,
    route: ImsRoute,
    receive_local: SocketAddr,
    verify: Option<Seq<char>>,
    send_connected: bool,
    receive_connected: bool,
)
    ensures
        ({
            let (after, r) = channel::activate(
                c,
                route,
                receive_local,
                verify,
                send_connected,
                receive_connected,
            );
            &&& r is Ok <==> c.reserved_send is Some && c.reserved_send->0.local
                == route.local_addr && send_connected && c.reserved_receive is Some
                && c.reserved_receive->0.local == receive_local && receive_connected && c.staged
                is None
            &&& r is Ok ==> {
                &&& after.active.send == c.reserved_send
                &&& after.active.receive == c.reserved_receive
                &&& after.active.route == route
                &&& after.active.advertised == Some(receive_local.port)
                &&& after.active.verify == verify
                &&& after.staged == Some(c.active)
                &&& after.retired == c.retired
            }
            &&& r is Err ==> after.active == c.active && after.staged == c.staged
            &&& after.reserved_send is None
            &&& after.requeued == c.requeued && after.interface == c.interface
        }),
{
}

/// After an answer the new association stays and the old one is still heard where it was
/// protected; after a failure the old one is used again as it was. Neither keeps a reserved
/// socket.
pub proof fn law_old_association_is_heard_or_used_again(c: Channel, old: Association)
    requires
        c.staged == Some(old),
    ensures
        ({
            let done = channel::committed(c);
            &&& done.active == c.active && done.staged is None
            &&& old.verify is Some ==> done.retired == Some(old)
            &&& old.verify is None ==> done.retired is None
            &&& done.reserved_send is None && done.reserved_receive is None
        }),
        ({
            let back = channel::rolled_back(c);
            &&& back.active == old && back.staged is None && back.retired == c.retired
            &&& back.reserved_send is None && back.reserved_receive is None
        }),
{
}

/// Headers name the local host with the advertised port where there is one, and with the
/// socket's own otherwise; the proxy and the transport stay.
pub proof fn law_headers_name_the_advertised_port(a: Association)
    ensures
        ({
            let r = channel::advertised(a);
            &&& r.local_addr.ip == a.route.local_addr.ip
            &&& r.pcscf_addr == a.route.pcscf_addr && r.transport == a.route.transport
            &&& a.advertised matches Some(p) ==> r.local_addr.port == p
            &&& a.advertised is None ==> r.local_addr.port == a.route.local_addr.port
        }),
{
}

/// A port for sending is taken where it is no port of plain SIP, not the one to avoid and not
/// the one in use; any other is asked for again, eight times in all where any port will do.
pub proof fn law_port_for_sending_is_fresh(
    c: Channel,
    socket: BoundSocket,
    attempt: u32,
    requested: u16,
    avoid: u16,
)
    requires
        c.reserved_send is None,
        attempt < 8,
    ensures
        ({
            let (after, r) = channel::reserve_send(
                c,
                SocketOutcome::Udp(socket),
                attempt,
                requested,
                avoid,
            );
            let port = socket.local.port;
            let good = port != 5060 && port != 5061 && port != avoid && port
                != c.active.route.local_addr.port;
            &&& good ==> r == Reserve::Reserved(port) && after.reserved_send == Some(socket)
            &&& !good ==> after == c
            &&& !good && requested == 0 && attempt < 7 ==> r is Again
            &&& !good && (requested != 0 || attempt == 7) ==> r is Failed
        }),
        channel::reserve_send(c, SocketOutcome::Failed, attempt, requested, avoid).1 is Failed,
        channel::reserve_send(c, SocketOutcome::OtherType, attempt, requested, avoid).1 is Failed,
        channel::reserve_send(c, SocketOutcome::Unaddressed, attempt, requested, avoid).1 is Failed,
{
}

/// A port for receiving is taken where it is no port of plain SIP, and such a port is not even
/// asked for.
pub proof fn law_port_for_receiving_is_not_plain(
    c: Channel,
    socket: BoundSocket,
    attempt: u32,
    requested: u16,
)
    requires
        c.reserved_receive is None,
        attempt < 8,
    ensures
        ({
            let (after, r) = channel::reserve_receive(
                c,
                SocketOutcome::Udp(socket),
                attempt,
                requested,
            );
            let port = socket.local.port;
            let plain = requested == 5060 || requested == 5061;
            let good = port != 5060 && port != 5061;
            &&& plain ==> r is Failed && after == c
            &&& !plain && good ==> r == Reserve::Reserved(port) && after.reserved_receive == Some(
                socket,
            )
            &&& !plain && !good ==> after == c && !(r is Reserved)
        }),
{
}

/// A socket that is reserved stays the one that is used, whatever else is handed out.
pub proof fn law_reserved_socket_is_kept(
    c: Channel,
    outcome: SocketOutcome,
    attempt: u32,
    requested: u16,
    avoid: u16,
)
    ensures
        c.reserved_send matches Some(s) ==> channel::reserve_send(
            c,
            outcome,
            attempt,
            requested,
            avoid,
        ) == (c, Reserve::Reserved(s.local.port)),
        c.reserved_receive matches Some(s) ==> channel::reserve_receive(
            c,
            outcome,
            attempt,
            requested,
        ) == (c, Reserve::Reserved(s.local.port)),
{
}

/// A channel listens on its association, and besides on the one that is being replaced, or else
/// on the one that was replaced last.
pub proof fn law_channel_listens_on_both_associations(c: Channel)
    ensures
        ({
            let (now, before) = channel::listening_on(c);
            &&& now.receive == c.active.receive && now.send == c.active.send
            &&& c.staged matches Some(s) ==> before is Some && before->0.receive == s.receive
                && before->0.send == s.send
            &&& c.staged is None && c.retired is Some ==> before is Some && before->0.receive
                == c.retired->0.receive && before->0.send == c.retired->0.send
            &&& c.staged is None && c.retired is None ==> before is None
        }),
{
}

/// A plain channel sends from where its socket is bound.
pub proof fn law_plain_channel_sends_from_its_socket(
    socket: BoundSocket,
    route: ImsRoute,
    interface: Option<Seq<char>>,
    verify: Option<Seq<char>>,
)
    ensures
        ({
            let c = channel::plain_channel(socket, route, interface, verify);
            &&& c.active.send == Some(socket) && c.active.receive is None
            &&& c.active.route.local_addr == socket.local
            &&& c.active.route.pcscf_addr == route.pcscf_addr && c.active.route.transport
                == route.transport
            &&& channel::advertised(c.active).local_addr == socket.local
            &&& c.staged is None && c.retired is None && c.requeued.len() == 0
            &&& c.active.verify == verify && c.interface == interface
        }),
{
}

} // verus!
