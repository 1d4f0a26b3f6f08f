//! Protected SIP channel through an ePDG tunnel.
//!
//! The tunnel has already decrypted ESP before this stream or socket is used.
//! The channel owns the framing of the transport (a stream or datagrams), the
//! frames set aside, and the keepalive state of its flow; what it decides is
//! carried out on the sockets, which it knows by number.

use crate::context::ImsRoute;
use crate::ims_access::ImsAccess;
use crate::ims_error::ImsError;
use crate::net::{push_bytes, to_bytes, BoundSocket, SocketAddr};
use crate::outbound::{LineOutbound, OutboundFlow};
use crate::register_response::RegisterArtifacts;
use crate::requeue::ImsRequeue;
use crate::sip_frame::complete_frame_len;
use crate::{outbound, requeue, sip_frame, text};
use vstd::prelude::*;
use vstd::slice::slice_subrange;

verus! {

/// How many bytes may wait for a frame to become complete.
pub const MAX_PENDING_BYTES: usize = 65_536;

// ---------------------------------------------------------------------- framing

pub open spec fn begins_crlf(s: Seq<u8>) -> bool {
    s.len() >= 2 && s[0] == 13 && s[1] == 10
}

pub open spec fn begins_lf(s: Seq<u8>) -> bool {
    s.len() >= 1 && s[0] == 10
}

/// Bytes without the line ends before them, first whole ones and then bare
/// line feeds.
pub open spec fn after_crlfs(s: Seq<u8>) -> Seq<u8>
    decreases s.len(),
{
    if begins_crlf(s) {
        after_crlfs(s.subrange(2, s.len() as int))
    } else {
        s
    }
}

pub open spec fn after_lfs(s: Seq<u8>) -> Seq<u8>
    decreases s.len(),
{
    if begins_lf(s) {
        after_lfs(s.subrange(1, s.len() as int))
    } else {
        s
    }
}

pub open spec fn without_keepalives(s: Seq<u8>) -> Seq<u8> {
    after_lfs(after_crlfs(s))
}

fn skip_crlfs(pending: &[u8]) -> (r: usize)
    ensures
        r <= pending@.len(),
        pending@.subrange(r as int, pending@.len() as int) == after_crlfs(pending@),
        r > 0 <==> begins_crlf(pending@),
{
    let mut i: usize = 0;
    let total: usize = pending.len();
    assert(pending@.subrange(0, pending@.len() as int) =~= pending@);
    while total - i >= 2 && pending[i] == 13 && pending[i + 1] == 10
        invariant
            i <= total,
            total == pending@.len(),
            after_crlfs(pending@) == after_crlfs(pending@.subrange(i as int, total as int)),
            i > 0 ==> begins_crlf(pending@),
        decreases total - i,
    {
        let ghost rest = pending@.subrange(i as int, total as int);
        assert(rest.subrange(2, rest.len() as int) =~= pending@.subrange(i + 2, total as int));
        assert(begins_crlf(rest));
        assert(i == 0 ==> rest =~= pending@);
        i += 2;
    }
    let ghost rest = pending@.subrange(i as int, total as int);
    assert(!begins_crlf(rest));
    assert(i == 0 ==> rest =~= pending@);
    i
}

fn skip_lfs(pending: &[u8], from: usize) -> (r: usize)
    requires
        from <= pending@.len(),
    ensures
        from <= r <= pending@.len(),
        pending@.subrange(r as int, pending@.len() as int) == after_lfs(
            pending@.subrange(from as int, pending@.len() as int),
        ),
{
    let mut i: usize = from;
    let total: usize = pending.len();
    let ghost start = pending@.subrange(from as int, total as int);
    while i < total && pending[i] == 10
        invariant
            from <= i <= total,
            total == pending@.len(),
            after_lfs(start) == after_lfs(pending@.subrange(i as int, total as int)),
        decreases total - i,
    {
        let ghost rest = pending@.subrange(i as int, total as int);
        assert(rest.subrange(1, rest.len() as int) =~= pending@.subrange(i + 1, total as int));
        i += 1;
    }
    i
}

/// What is left of some bytes after the first `n`.
fn rest_of(pending: &[u8], n: usize) -> (r: Vec<u8>)
    requires
        n <= pending@.len(),
    ensures
        r@ == pending@.subrange(n as int, pending@.len() as int),
{
    to_bytes(slice_subrange(pending, n, pending.len()))
}

/// A frame that was cut off the bytes waiting, and what is left of them.
pub open spec fn cut_frame(pending: Seq<u8>) -> Option<(Seq<u8>, Seq<u8>)> {
    match sip_frame::complete_length(pending) {
        Some(n) => Some((pending.take(n), pending.subrange(n, pending.len() as int))),
        None => None,
    }
}

/// What the flow makes of the frames that were received: the frame, or the
/// error for which the registration has to be given up.
pub open spec fn delivered(f: outbound::FlowState, frame: Option<Seq<u8>>) -> (
    outbound::FlowState,
    Result<Option<Seq<u8>>, Seq<char>>,
) {
    match frame {
        None => (f, Ok(None)),
        Some(frame) => {
            let (next, r) = outbound::received(f, frame);
            match r {
                Ok(_) => (next, Ok(Some(frame))),
                Err(e) => (next, Err(e)),
            }
        },
    }
}

pub open spec fn frame_result(r: Result<Option<Vec<u8>>, ImsError>) -> Result<
    Option<Seq<u8>>,
    Seq<char>,
> {
    match r {
        Ok(o) => Ok(outbound::opt_bytes(o)),
        Err(e) => Err(e.code_spec()),
    }
}

/// What a channel holds besides its sockets.
#[derive(Debug)]
pub struct ChannelCore {
    pub pending: Vec<u8>,
    /// Complete frames set aside by a REGISTER transaction (other dialogs).
    pub requeued: ImsRequeue,
    pub outbound: OutboundFlow,
    pub route: ImsRoute,
    pub security_verify: Option<String>,
}

pub struct Core {
    pub pending: Seq<u8>,
    pub requeued: Seq<Seq<u8>>,
    pub flow: outbound::FlowState,
    pub route: ImsRoute,
    pub security_verify: Option<Seq<char>>,
}

impl View for ChannelCore {
    type V = Core;

    open spec fn view(&self) -> Core {
        Core {
            pending: self.pending@,
            requeued: self.requeued@,
            flow: self.outbound@,
            route: self.route,
            security_verify: text::opt_text(self.security_verify),
        }
    }
}

/// A pong on a stream answers the probe under way.
pub open spec fn ponged(f: outbound::FlowState, now: u64, interval: u64) -> outbound::FlowState {
    if f.tcp && f.pending is Some {
        outbound::acknowledged_at(f, now, interval)
    } else {
        f
    }
}

/// The time to the next probe where this share of the range was drawn.
pub open spec fn drawn_interval(f: outbound::FlowState, share: u64) -> u64 {
    outbound::interval_of(f.timer, f.tcp, share) as u64
}

/// The flow of a stream after the line ends that were received before a frame.
pub open spec fn stream_flow(c: Core, now: u64, interval: u64) -> outbound::FlowState {
    if begins_crlf(c.pending) {
        ponged(c.flow, now, interval)
    } else {
        c.flow
    }
}

/// Taking the next frame off a stream, or off datagrams.
pub open spec fn taken_frame(c: Core, flow: outbound::FlowState) -> (
    Core,
    Result<Option<Seq<u8>>, Seq<char>>,
) {
    let rest = without_keepalives(c.pending);
    match cut_frame(rest) {
        None => (Core { pending: rest, flow, ..c }, Ok(None)),
        Some((frame, left)) => {
            let (next, r) = delivered(flow, Some(frame));
            (Core { pending: left, flow: next, ..c }, r)
        },
    }
}

impl ChannelCore {
    pub open spec fn wf(&self) -> bool {
        self.requeued.wf() && self.outbound@.timely()
    }

    pub fn new(pending: Vec<u8>, route: ImsRoute, security_verify: Option<String>) -> (r: Self)
        ensures
            r.wf(),
            r@ == (Core {
                pending: pending@,
                requeued: seq![],
                flow: outbound::fresh_flow(),
                route,
                security_verify: text::opt_text(security_verify),
            }),
    {
        let r = ChannelCore {
            pending,
            requeued: ImsRequeue::default(),
            outbound: OutboundFlow::default(),
            route,
            security_verify,
        };
        assert(r@.requeued =~= seq![]);
        r
    }

    /// Frames that were set aside come first, in the order of arrival, ahead of
    /// the bytes of the transport.
    pub fn into_pending(self) -> (r: Vec<u8>)
        ensures
            r@ == requeue::joined(self@.requeued) + self@.pending,
    {
        self.requeued.merged_with(self.pending.as_slice())
    }

    pub fn requeue(&mut self, frame: Vec<u8>) -> (r: bool)
        requires
            old(self).wf(),
        ensures
            final(self).wf(),
            r == requeue::has_room(old(self)@.requeued, frame@),
            final(self)@ == (Core {
                requeued: if r {
                    old(self)@.requeued.push(frame@)
                } else {
                    old(self)@.requeued
                },
                ..old(self)@
            }),
    {
        self.requeued.push_back(frame)
    }

    pub fn next_requeued(&mut self) -> (r: Option<Vec<u8>>)
        requires
            old(self).wf(),
        ensures
            final(self).wf(),
            match r {
                Some(frame) => old(self)@.requeued.len() > 0 && frame@ == old(self)@.requeued[0]
                    && final(self)@ == (Core {
                    requeued: old(self)@.requeued.drop_first(),
                    ..old(self)@
                }),
                None => old(self)@.requeued.len() == 0 && final(self)@ == old(self)@,
            },
    {
        self.requeued.pop_front()
    }

    /// Cuts the next frame off, without the line ends before it.
    fn take_next(&mut self) -> (r: Result<Option<Vec<u8>>, ImsError>)
        requires
            old(self).wf(),
        ensures
            final(self).wf(),
            (final(self)@, frame_result(r)) == taken_frame(old(self)@, old(self)@.flow),
    {
        let lines: usize = skip_crlfs(self.pending.as_slice());
        let from: usize = skip_lfs(self.pending.as_slice(), lines);
        let rest = rest_of(self.pending.as_slice(), from);
        assert(rest@ == without_keepalives(old(self)@.pending));
        match complete_frame_len(rest.as_slice()) {
            None => {
                self.pending = rest;
                Ok(None)
            },
            Some(n) => {
                let frame = to_bytes(slice_subrange(rest.as_slice(), 0, n));
                assert(frame@ =~= rest@.take(n as int));
                self.pending = rest_of(rest.as_slice(), n);
                match self.outbound.received_sip(frame.as_slice()) {
                    Ok(_) => Ok(Some(frame)),
                    Err(e) => Err(e),
                }
            },
        }
    }

    /// Takes the next frame off a stream, given the time to the next probe.
    pub fn take_stream_frame_with(&mut self, now: u64, interval: u64) -> (r: Result<
        Option<Vec<u8>>,
        ImsError,
    >)
        requires
            old(self).wf(),
            now <= outbound::MAX_TIME,
            interval <= 0xffff_ffff * 1_000_000_000,
        ensures
            final(self).wf(),
            (final(self)@, frame_result(r)) == taken_frame(
                old(self)@,
                stream_flow(old(self)@, now, interval),
            ),
    {
        let lines: usize = skip_crlfs(self.pending.as_slice());
        if lines > 0 {
            self.outbound.pong_with(now, interval);
        }
        self.take_next()
    }

    /// Takes the next frame off a stream. Line ends before it answer the probe
    /// under way; the time to the next probe is drawn.
    pub fn take_stream_frame(&mut self, now: u64) -> (r: Result<Option<Vec<u8>>, ImsError>)
        requires
            old(self).wf(),
            now <= outbound::MAX_TIME,
        ensures
            final(self).wf(),
            exists|share: u64|
                share <= outbound::WHOLE_SHARE && (final(self)@, frame_result(r)) == taken_frame(
                    old(self)@,
                    #[trigger] stream_flow(old(self)@, now, drawn_interval(old(self)@.flow, share)),
                ),
    {
        let lines: usize = skip_crlfs(self.pending.as_slice());
        if lines > 0 {
            self.outbound.pong(now);
        }
        let ghost flow = self.outbound@;
        proof {
            if begins_crlf(old(self)@.pending) && old(self)@.flow.tcp && old(self)@.flow.pending
                is Some {
                let share = choose|share: u64|
                    share <= outbound::WHOLE_SHARE && flow == outbound::acknowledged_at(
                        old(self)@.flow,
                        now,
                        #[trigger] outbound::interval_of(
                            old(self)@.flow.timer,
                            old(self)@.flow.tcp,
                            share,
                        ) as u64,
                    );
                assert(flow == stream_flow(
                    old(self)@,
                    now,
                    drawn_interval(old(self)@.flow, share),
                ));
            } else {
                assert(flow == stream_flow(old(self)@, now, drawn_interval(old(self)@.flow, 0)));
            }
        }
        self.take_next()
    }

    /// Takes the next frame off datagrams; line ends before it are dropped.
    pub fn take_datagram_frame(&mut self) -> (r: Result<Option<Vec<u8>>, ImsError>)
        requires
            old(self).wf(),
        ensures
            final(self).wf(),
            (final(self)@, frame_result(r)) == taken_frame(old(self)@, old(self)@.flow),
    {
        self.take_next()
    }

    /// Adds bytes of the transport to those waiting.
    fn add_pending(&mut self, bytes: &[u8]) -> (r: Result<(), ImsError>)
        ensures
            final(self)@ == (Core { pending: old(self)@.pending + bytes@, ..old(self)@ }),
            old(self).wf() ==> final(self).wf(),
            match r {
                Ok(_) => final(self)@.pending.len() <= MAX_PENDING_BYTES,
                Err(e) => final(self)@.pending.len() > MAX_PENDING_BYTES && e.code_spec()
                    == "ims_channel_frame_too_large"@,
            },
    {
        push_bytes(&mut self.pending, bytes);
        if self.pending.len() > MAX_PENDING_BYTES {
            return Err(ImsError::new("ims_channel_frame_too_large"));
        }
        Ok(())
    }

    /// Puts bytes ahead of those waiting.
    pub fn prepend_pending(&mut self, bytes: Vec<u8>) -> (r: Result<(), ImsError>)
        requires
            old(self).wf(),
        ensures
            final(self).wf(),
            match r {
                Ok(_) => final(self)@ == (Core {
                    pending: bytes@ + old(self)@.pending,
                    ..old(self)@
                }),
                Err(e) => bytes@.len() + old(self)@.pending.len() > MAX_PENDING_BYTES
                    && e.code_spec() == "ims_channel_frame_too_large"@ && final(self)@
                    == old(self)@,
            },
            bytes@.len() + old(self)@.pending.len() <= MAX_PENDING_BYTES ==> r is Ok,
    {
        if bytes.len() > MAX_PENDING_BYTES || self.pending.len() > MAX_PENDING_BYTES - bytes.len() {
            return Err(ImsError::new("ims_channel_frame_too_large"));
        }
        let mut all = bytes;
        push_bytes(&mut all, self.pending.as_slice());
        self.pending = all;
        Ok(())
    }

    /// The keepalive packet that is due.
    pub fn maintain_outbound(&mut self, now: u64) -> (r: Result<Option<Vec<u8>>, ImsError>)
        requires
            old(self).wf(),
            now <= outbound::MAX_TIME,
        ensures
            final(self).wf(),
            exists|id: Option<Seq<u8>>|
                {
                    let want = #[trigger] outbound::polled(old(self)@.flow, now, id);
                    &&& final(self)@ == (Core { flow: want.0, ..old(self)@ })
                    &&& frame_result(r) == want.1
                },
    {
        self.outbound.poll(now)
    }

    /// The keepalive packet could not be sent.
    pub fn keepalive_send_failed(&mut self) -> (r: ImsError)
        requires
            old(self).wf(),
        ensures
            final(self).wf(),
            final(self)@ == (Core { flow: outbound::failed(old(self)@.flow), ..old(self)@ }),
            r.code_spec() == "ims_outbound_keepalive_send_failed"@,
    {
        self.outbound.fail("ims_outbound_keepalive_send_failed")
    }

    /// The bytes of a frame that is to be sent.
    pub fn prepare(&mut self, frame: &[u8], line: LineOutbound) -> (r: Result<Vec<u8>, ImsError>)
        requires
            old(self).wf(),
        ensures
            final(self).wf(),
            final(self)@ == (Core {
                flow: outbound::prepared(old(self)@.flow, frame@, line).0,
                ..old(self)@
            }),
            outbound::bytes_outcome(r, outbound::prepared(old(self)@.flow, frame@, line).1),
    {
        self.outbound.prepare(frame, line)
    }

    /// Until when to wait for more, or that it is too late.
    pub fn wake(&self, now: u64, deadline: u64) -> (r: Result<u64, ImsError>)
        ensures
            match r {
                Ok(at) => now < deadline && at == wake_at(self@.flow, deadline),
                Err(e) => now >= deadline && e.code_spec() == "ims_channel_read_timeout"@,
            },
    {
        if now >= deadline {
            return Err(ImsError::new("ims_channel_read_timeout"));
        }
        match self.outbound.deadline() {
            Some(due) => Ok(
                if due < deadline {
                    due
                } else {
                    deadline
                },
            ),
            None => Ok(deadline),
        }
    }

    /// Moves bytes that are waiting to the caller, at most so many.
    pub fn take_chunk(&mut self, most: usize) -> (r: Vec<u8>)
        requires
            old(self).wf(),
        ensures
            final(self).wf(),
            ({
                let n = if most < old(self)@.pending.len() {
                    most as int
                } else {
                    old(self)@.pending.len() as int
                };
                &&& r@ == old(self)@.pending.take(n)
                &&& final(self)@ == (Core {
                    pending: old(self)@.pending.subrange(n, old(self)@.pending.len() as int),
                    ..old(self)@
                })
            }),
    {
        let n: usize = if most < self.pending.len() {
            most
        } else {
            self.pending.len()
        };
        let chunk = to_bytes(slice_subrange(self.pending.as_slice(), 0, n));
        assert(chunk@ =~= self.pending@.take(n as int));
        self.pending = rest_of(self.pending.as_slice(), n);
        chunk
    }
}

pub open spec fn wake_at(f: outbound::FlowState, deadline: u64) -> u64 {
    let due = match f.pending {
        Some(probe) => Some(probe.deadline),
        None => f.next_probe,
    };
    match due {
        Some(due) => if due < deadline {
            due
        } else {
            deadline
        },
        None => deadline,
    }
}


// ----------------------------------------------------------------------- stream

/// A channel on a stream.
#[derive(Debug)]
pub struct EpdgSipChannel {
    pub stream: BoundSocket,
    pub inner: ChannelCore,
}

impl EpdgSipChannel {
    pub open spec fn wf(&self) -> bool {
        self.inner.wf()
    }

    pub fn new(
        stream: BoundSocket,
        pending: Vec<u8>,
        route: ImsRoute,
        security_verify: Option<String>,
    ) -> (r: Self)
        ensures
            r.wf(),
            r.stream == stream,
            r.inner@ == (Core {
                pending: pending@,
                requeued: seq![],
                flow: outbound::fresh_flow(),
                route,
                security_verify: text::opt_text(security_verify),
            }),
    {
        EpdgSipChannel { stream, inner: ChannelCore::new(pending, route, security_verify) }
    }

    pub fn into_parts(self) -> (r: (BoundSocket, Vec<u8>))
        ensures
            r.0 == self.stream,
            r.1@ == requeue::joined(self.inner@.requeued) + self.inner@.pending,
    {
        (self.stream, self.inner.into_pending())
    }

    /// The keepalive of a stream whose flow has none of its own.
    pub fn send_keepalive(&self) -> (r: Option<Vec<u8>>)
        ensures
            match r {
                Some(packet) => !flow_active(self.inner@.flow) && packet@ == outbound::ping(),
                None => flow_active(self.inner@.flow),
            },
    {
        if self.inner.outbound.active() {
            return None;
        }
        let mut packet: Vec<u8> = Vec::new();
        packet.push(13);
        packet.push(10);
        packet.push(13);
        packet.push(10);
        assert(packet@ =~= outbound::ping());
        Some(packet)
    }

    /// Takes what was read from the stream; nothing means that it was closed.
    pub fn bytes_read(&mut self, chunk: &[u8]) -> (r: Result<(), ImsError>)
        requires
            old(self).wf(),
        ensures
            final(self).wf(),
            final(self).stream == old(self).stream,
            final(self).inner@ == (Core {
                pending: old(self).inner@.pending + chunk@,
                ..old(self).inner@
            }),
            match r {
                Ok(_) => chunk@.len() > 0 && final(self).inner@.pending.len() <= MAX_PENDING_BYTES,
                Err(e) => if chunk@.len() == 0 {
                    e.code_spec() == "ims_channel_closed"@
                } else {
                    final(self).inner@.pending.len() > MAX_PENDING_BYTES && e.code_spec()
                        == "ims_channel_frame_too_large"@
                },
            },
    {
        if chunk.len() == 0 {
            assert(self.inner@.pending + chunk@ =~= self.inner@.pending);
            return Err(ImsError::new("ims_channel_closed"));
        }
        self.inner.add_pending(chunk)
    }
}

pub open spec fn flow_active(f: outbound::FlowState) -> bool {
    f.next_probe is Some || f.pending is Some
}

// -------------------------------------------------------------------- datagrams

/// A channel on datagrams. A protected one receives on a socket of its own: the
/// far end answers from its protected client port to the protected server port
/// here, which is another socket than the one that requests are sent from.
#[derive(Debug)]
pub struct UdpSipChannel {
    pub socket: BoundSocket,
    pub receive_socket: Option<BoundSocket>,
    pub inner: ChannelCore,
}

/// Does a frame begin like a SIP response?
pub open spec fn begins_sip(frame: Seq<u8>) -> bool {
    frame.len() >= 7 && frame.take(7) == seq![83u8, 73u8, 80u8, 47u8, 50u8, 46u8, 48u8]
}

fn is_sip_response(frame: &[u8]) -> (r: bool)
    ensures
        r == begins_sip(frame@),
{
    if frame.len() < 7 {
        return false;
    }
    let r = frame[0] == 83 && frame[1] == 73 && frame[2] == 80 && frame[3] == 47 && frame[4] == 50
        && frame[5] == 46 && frame[6] == 48;
    proof {
        let wanted = seq![83u8, 73u8, 80u8, 47u8, 50u8, 46u8, 48u8];
        if r {
            assert(frame@.take(7) =~= wanted);
        } else if frame@.take(7) == wanted {
            assert(frame@.take(7)[0] == wanted[0] && frame@.take(7)[1] == wanted[1]
                && frame@.take(7)[2] == wanted[2] && frame@.take(7)[3] == wanted[3]
                && frame@.take(7)[4] == wanted[4] && frame@.take(7)[5] == wanted[5]
                && frame@.take(7)[6] == wanted[6]);
        }
    }
    r
}

impl UdpSipChannel {
    pub open spec fn wf(&self) -> bool {
        self.inner.wf()
    }

    pub fn new(
        socket: BoundSocket,
        pending: Vec<u8>,
        route: ImsRoute,
        security_verify: Option<String>,
    ) -> (r: Self)
        ensures
            r.wf(),
            r.socket == socket,
            r.receive_socket is None,
            r.inner@ == (Core {
                pending: pending@,
                requeued: seq![],
                flow: outbound::fresh_flow(),
                route,
                security_verify: text::opt_text(security_verify),
            }),
    {
        UdpSipChannel {
            socket,
            receive_socket: None,
            inner: ChannelCore::new(pending, route, security_verify),
        }
    }

    /// A protected channel with a socket to receive on.
    pub fn new_with_receive_socket(
        socket: BoundSocket,
        receive_socket: BoundSocket,
        pending: Vec<u8>,
        route: ImsRoute,
        security_verify: Option<String>,
    ) -> (r: Self)
        ensures
            r.wf(),
            r.socket == socket,
            r.receive_socket == Some(receive_socket),
            r.inner@ == (Core {
                pending: pending@,
                requeued: seq![],
                flow: outbound::fresh_flow(),
                route,
                security_verify: text::opt_text(security_verify),
            }),
    {
        UdpSipChannel {
            socket,
            receive_socket: Some(receive_socket),
            inner: ChannelCore::new(pending, route, security_verify),
        }
    }

    pub fn into_parts(self) -> (r: (BoundSocket, Option<BoundSocket>, Vec<u8>))
        ensures
            r.0 == self.socket,
            r.1 == self.receive_socket,
            r.2@ == requeue::joined(self.inner@.requeued) + self.inner@.pending,
    {
        (self.socket, self.receive_socket, self.inner.into_pending())
    }

    /// The socket that a frame is sent on: a response goes out where requests of
    /// the network come in.
    pub fn send_socket_for(&self, frame: &[u8]) -> (r: BoundSocket)
        ensures
            r == (if begins_sip(frame@) && self.receive_socket is Some {
                self.receive_socket->0
            } else {
                self.socket
            }),
    {
        if is_sip_response(frame) {
            match self.receive_socket {
                Some(socket) => socket,
                None => self.socket,
            }
        } else {
            self.socket
        }
    }

    /// Takes a datagram, given the time to the next probe.
    pub fn datagram_read_with(&mut self, packet: &[u8], now: u64, interval: u64) -> (r: Result<
        bool,
        ImsError,
    >)
        requires
            old(self).wf(),
            now <= outbound::MAX_TIME,
            interval <= 0xffff_ffff * 1_000_000_000,
        ensures
            final(self).wf(),
            final(self).socket == old(self).socket,
            final(self).receive_socket == old(self).receive_socket,
            (final(self).inner@, taken_result(r)) == datagram_taken(
                old(self).inner@,
                packet@,
                outbound::stun_received(old(self).inner@.flow, packet@, now, interval),
            ),
    {
        let taken = self.inner.outbound.receive_stun_with(packet, now, interval);
        self.keep_datagram(packet, taken)
    }

    /// Takes a datagram; the time to the next probe is drawn.
    pub fn datagram_read(&mut self, packet: &[u8], now: u64) -> (r: Result<bool, ImsError>)
        requires
            old(self).wf(),
            now <= outbound::MAX_TIME,
        ensures
            final(self).wf(),
            final(self).socket == old(self).socket,
            final(self).receive_socket == old(self).receive_socket,
            exists|share: u64|
                share <= outbound::WHOLE_SHARE && (final(self).inner@, taken_result(r))
                    == datagram_taken(
                    old(self).inner@,
                    packet@,
                    outbound::stun_received(
                        old(self).inner@.flow,
                        packet@,
                        now,
                        #[trigger] drawn_interval(old(self).inner@.flow, share),
                    ),
                ),
    {
        let ghost flow = self.inner@.flow;
        let taken = self.inner.outbound.receive_stun(packet, now);
        proof {
            let share = choose|share: u64|
                {
                    &&& share <= outbound::WHOLE_SHARE
                    &&& {
                        let want = outbound::stun_received(
                            flow,
                            packet@,
                            now,
                            #[trigger] outbound::interval_of(flow.timer, flow.tcp, share) as u64,
                        );
                        &&& self.inner.outbound@ == want.0
                        &&& match taken {
                            Ok(taken) => want.1 == Ok::<_, Seq<char>>(taken),
                            Err(e) => want.1 == Err::<bool, _>(e.code_spec()),
                        }
                    }
                };
            let interval = drawn_interval(flow, share);
            assert(outbound::stun_received(flow, packet@, now, interval) == (
                self.inner.outbound@,
                taken_result(taken),
            ));
        }
        self.keep_datagram(packet, taken)
    }

    fn keep_datagram(&mut self, packet: &[u8], taken: Result<bool, ImsError>) -> (r: Result<
        bool,
        ImsError,
    >)
        requires
            old(self).wf(),
        ensures
            final(self).wf(),
            final(self).socket == old(self).socket,
            final(self).receive_socket == old(self).receive_socket,
            (final(self).inner@, taken_result(r)) == datagram_taken(
                old(self).inner@,
                packet@,
                (old(self).inner@.flow, taken_result(taken)),
            ),
    {
        match taken {
            Err(e) => Err(e),
            Ok(taken) => {
                if taken {
                    return Ok(true);
                }
                match self.inner.add_pending(packet) {
                    Ok(_) => Ok(false),
                    Err(e) => Err(e),
                }
            },
        }
    }
}

pub open spec fn taken_result(r: Result<bool, ImsError>) -> Result<bool, Seq<char>> {
    match r {
        Ok(taken) => Ok(taken),
        Err(e) => Err(e.code_spec()),
    }
}

/// What a datagram leads to, by what the flow made of it: one of the flow's own
/// keepalive never reaches the bytes waiting.
pub open spec fn datagram_taken(
    c: Core,
    packet: Seq<u8>,
    of_flow: (outbound::FlowState, Result<bool, Seq<char>>),
) -> (Core, Result<bool, Seq<char>>) {
    let c = Core { flow: of_flow.0, ..c };
    let with = Core { pending: c.pending + packet, ..c };
    match of_flow.1 {
        Err(e) => (c, Err(e)),
        Ok(true) => (c, Ok(true)),
        Ok(false) => if with.pending.len() > MAX_PENDING_BYTES {
            (with, Err("ims_channel_frame_too_large"@))
        } else {
            (with, Ok(false))
        },
    }
}

// ----------------------------------------------------------------- either of them

/// The transport of a channel.
#[derive(Debug, Clone, Copy, PartialEq, Eq, Structural)]
pub enum SipChannelSocket {
    Tcp(BoundSocket),
    Udp(BoundSocket),
    UdpPair { send: BoundSocket, receive: BoundSocket },
}

/// How a transport is torn down: a stream at once, a datagram socket by closing.
#[derive(Debug, Clone, Copy, PartialEq, Eq, Structural)]
pub enum Teardown {
    Reset(BoundSocket),
    Close(BoundSocket),
    ClosePair(BoundSocket, BoundSocket),
}

impl SipChannelSocket {
    pub open spec fn sender(self) -> BoundSocket {
        match self {
            SipChannelSocket::Tcp(s) => s,
            SipChannelSocket::Udp(s) => s,
            SipChannelSocket::UdpPair { send, .. } => send,
        }
    }

    pub open spec fn teardown(self) -> Teardown {
        match self {
            SipChannelSocket::Tcp(s) => Teardown::Reset(s),
            SipChannelSocket::Udp(s) => Teardown::Close(s),
            SipChannelSocket::UdpPair { send, receive } => Teardown::ClosePair(send, receive),
        }
    }

    pub fn local_addr(&self) -> (r: SocketAddr)
        ensures
            r == self.sender().local,
    {
        match self {
            SipChannelSocket::Tcp(s) => s.local,
            SipChannelSocket::Udp(s) => s.local,
            SipChannelSocket::UdpPair { send, .. } => send.local,
        }
    }

    pub fn abort(self) -> (r: Teardown)
        ensures
            r == self.teardown(),
    {
        match self {
            SipChannelSocket::Tcp(s) => Teardown::Reset(s),
            SipChannelSocket::Udp(s) => Teardown::Close(s),
            SipChannelSocket::UdpPair { send, receive } => Teardown::ClosePair(send, receive),
        }
    }
}

/// A protected channel on either transport. The profile chooses the transport;
/// shared logic sees only the channel.
#[derive(Debug)]
pub enum SipChannel {
    Tcp(EpdgSipChannel),
    Udp(UdpSipChannel),
}

impl SipChannel {
    pub open spec fn wf(&self) -> bool {
        match self {
            SipChannel::Tcp(c) => c.wf(),
            SipChannel::Udp(c) => c.wf(),
        }
    }

    pub open spec fn state(&self) -> Core {
        match self {
            SipChannel::Tcp(c) => c.inner@,
            SipChannel::Udp(c) => c.inner@,
        }
    }

    pub open spec fn socket(&self) -> SipChannelSocket {
        match self {
            SipChannel::Tcp(c) => SipChannelSocket::Tcp(c.stream),
            SipChannel::Udp(c) => match c.receive_socket {
                Some(receive) => SipChannelSocket::UdpPair { send: c.socket, receive },
                None => SipChannelSocket::Udp(c.socket),
            },
        }
    }

    pub fn new(
        socket: SipChannelSocket,
        pending: Vec<u8>,
        route: ImsRoute,
        security_verify: Option<String>,
    ) -> (r: Self)
        ensures
            r.wf(),
            r.socket() == socket,
            r.state() == (Core {
                pending: pending@,
                requeued: seq![],
                flow: outbound::fresh_flow(),
                route,
                security_verify: text::opt_text(security_verify),
            }),
    {
        match socket {
            SipChannelSocket::Tcp(stream) => SipChannel::Tcp(
                EpdgSipChannel::new(stream, pending, route, security_verify),
            ),
            SipChannelSocket::Udp(socket) => SipChannel::Udp(
                UdpSipChannel::new(socket, pending, route, security_verify),
            ),
            SipChannelSocket::UdpPair { send, receive } => SipChannel::Udp(
                UdpSipChannel::new_with_receive_socket(
                    send,
                    receive,
                    pending,
                    route,
                    security_verify,
                ),
            ),
        }
    }

    pub fn new_udp_pair(
        socket: BoundSocket,
        receive_socket: BoundSocket,
        pending: Vec<u8>,
        route: ImsRoute,
        security_verify: Option<String>,
    ) -> (r: Self)
        ensures
            r.wf(),
            r.socket() == (SipChannelSocket::UdpPair { send: socket, receive: receive_socket }),
            r.state() == (Core {
                pending: pending@,
                requeued: seq![],
                flow: outbound::fresh_flow(),
                route,
                security_verify: text::opt_text(security_verify),
            }),
    {
        SipChannel::Udp(
            UdpSipChannel::new_with_receive_socket(
                socket,
                receive_socket,
                pending,
                route,
                security_verify,
            ),
        )
    }

    pub fn into_parts(self) -> (r: (SipChannelSocket, Vec<u8>))
        ensures
            r.0 == self.socket(),
            r.1@ == requeue::joined(self.state().requeued) + self.state().pending,
    {
        match self {
            SipChannel::Tcp(c) => {
                let (stream, pending) = c.into_parts();
                (SipChannelSocket::Tcp(stream), pending)
            },
            SipChannel::Udp(c) => {
                let (send, receive, pending) = c.into_parts();
                match receive {
                    Some(receive) => (SipChannelSocket::UdpPair { send, receive }, pending),
                    None => (SipChannelSocket::Udp(send), pending),
                }
            },
        }
    }

    pub fn configure_outbound(&mut self, instance: &str, enabled: bool)
        requires
            old(self).wf(),
        ensures
            final(self).wf(),
            final(self).socket() == old(self).socket(),
            final(self).state() == (Core {
                flow: outbound::FlowState {
                    offer: Some(
                        outbound::OfferState {
                            access: ImsAccess::Wlan,
                            instance: instance@,
                            enabled,
                        },
                    ),
                    ..old(self).state().flow
                },
                ..old(self).state()
            }),
    {
        match self {
            SipChannel::Tcp(c) => c.inner.outbound.configure(ImsAccess::Wlan, instance, enabled),
            SipChannel::Udp(c) => c.inner.outbound.configure(ImsAccess::Wlan, instance, enabled),
        }
    }

    pub fn inherit_outbound_path_observation(&mut self, previous: &Self)
        requires
            old(self).wf(),
        ensures
            final(self).wf(),
            final(self).socket() == old(self).socket(),
            final(self).state() == (Core {
                flow: outbound::FlowState {
                    no_nat: previous.state().flow.no_nat,
                    ..old(self).state().flow
                },
                ..old(self).state()
            }),
    {
        let flow = match previous {
            SipChannel::Tcp(c) => &c.inner.outbound,
            SipChannel::Udp(c) => &c.inner.outbound,
        };
        match self {
            SipChannel::Tcp(c) => c.inner.outbound.inherit_path_observation(flow),
            SipChannel::Udp(c) => c.inner.outbound.inherit_path_observation(flow),
        }
    }

    /// All readers of frames report a refusal of outbound by the same
    /// transaction key.
    pub fn observe_outbound_response(&mut self, frame: &[u8]) -> (r: Result<(), ImsError>)
        requires
            old(self).wf(),
        ensures
            final(self).wf(),
            final(self).socket() == old(self).socket(),
            final(self).state() == (Core {
                flow: outbound::received(old(self).state().flow, frame@).0,
                ..old(self).state()
            }),
            outbound::unit_outcome(r, outbound::received(old(self).state().flow, frame@).1),
    {
        match self {
            SipChannel::Tcp(c) => c.inner.outbound.received_sip(frame),
            SipChannel::Udp(c) => c.inner.outbound.received_sip(frame),
        }
    }

    /// Changes what the channel is used for and keeps its flow: building it anew
    /// from its sockets would lose the live lease.
    pub fn update_context(&mut self, route: ImsRoute, security_verify: Option<String>)
        requires
            old(self).wf(),
        ensures
            final(self).wf(),
            final(self).socket() == old(self).socket(),
            final(self).state() == (Core {
                route,
                security_verify: text::opt_text(security_verify),
                ..old(self).state()
            }),
    {
        match self {
            SipChannel::Tcp(c) => {
                c.inner.route = route;
                c.inner.security_verify = security_verify;
            },
            SipChannel::Udp(c) => {
                c.inner.route = route;
                c.inner.security_verify = security_verify;
            },
        }
    }

    pub fn prepend_pending(&mut self, bytes: Vec<u8>) -> (r: Result<(), ImsError>)
        requires
            old(self).wf(),
        ensures
            final(self).wf(),
            final(self).socket() == old(self).socket(),
            match r {
                Ok(_) => final(self).state() == (Core {
                    pending: bytes@ + old(self).state().pending,
                    ..old(self).state()
                }),
                Err(e) => bytes@.len() + old(self).state().pending.len() > MAX_PENDING_BYTES
                    && e.code_spec() == "ims_channel_frame_too_large"@ && final(self).state()
                    == old(self).state(),
            },
            bytes@.len() + old(self).state().pending.len() <= MAX_PENDING_BYTES ==> r is Ok,
    {
        match self {
            SipChannel::Tcp(c) => c.inner.prepend_pending(bytes),
            SipChannel::Udp(c) => c.inner.prepend_pending(bytes),
        }
    }

    pub fn outbound_registered(&mut self, response: &[u8], expires: u32, now: u64) -> (r: Result<
        RegisterArtifacts,
        ImsError,
    >)
        requires
            old(self).wf(),
            now <= outbound::MAX_TIME,
        ensures
            final(self).wf(),
            final(self).socket() == old(self).socket(),
            ({
                let want = outbound::registered_outcome(
                    old(self).state().flow,
                    response@,
                    *old(self) is Tcp,
                    expires,
                    now,
                );
                &&& final(self).state() == (Core { flow: want.0, ..old(self).state() })
                &&& match r {
                    Ok(artifacts) => want.1 == Ok::<_, Seq<char>>(artifacts),
                    Err(e) => want.1 == Err::<RegisterArtifacts, _>(e.code_spec()),
                }
            }),
    {
        match self {
            SipChannel::Tcp(c) => c.inner.outbound.registered(response, true, expires, now),
            SipChannel::Udp(c) => c.inner.outbound.registered(response, false, expires, now),
        }
    }

    pub fn outbound_active(&self) -> (r: bool)
        ensures
            r == flow_active(self.state().flow),
    {
        match self {
            SipChannel::Tcp(c) => c.inner.outbound.active(),
            SipChannel::Udp(c) => c.inner.outbound.active(),
        }
    }

    /// Is the transport a stream? Only there is an empty read the end.
    pub fn is_tcp(&self) -> (r: bool)
        ensures
            r == (self is Tcp),
    {
        match self {
            SipChannel::Tcp(_) => true,
            SipChannel::Udp(_) => false,
        }
    }

    pub fn route(&self) -> (r: ImsRoute)
        ensures
            r == self.state().route,
    {
        match self {
            SipChannel::Tcp(c) => c.inner.route,
            SipChannel::Udp(c) => c.inner.route,
        }
    }

    pub fn security_verify(&self) -> (r: Option<&str>)
        ensures
            crate::supplementary::opt_str(r) == self.state().security_verify,
    {
        let value = match self {
            SipChannel::Tcp(c) => &c.inner.security_verify,
            SipChannel::Udp(c) => &c.inner.security_verify,
        };
        match value {
            Some(v) => Some(v.as_str()),
            None => None,
        }
    }

    /// Sets a frame of another dialog aside; `false` means that there was no
    /// room and the frame is dropped.
    pub fn requeue(&mut self, frame: Vec<u8>) -> (r: bool)
        requires
            old(self).wf(),
        ensures
            final(self).wf(),
            final(self).socket() == old(self).socket(),
            r == requeue::has_room(old(self).state().requeued, frame@),
            final(self).state() == (Core {
                requeued: if r {
                    old(self).state().requeued.push(frame@)
                } else {
                    old(self).state().requeued
                },
                ..old(self).state()
            }),
    {
        match self {
            SipChannel::Tcp(c) => c.inner.requeue(frame),
            SipChannel::Udp(c) => c.inner.requeue(frame),
        }
    }

    pub fn abort(self) -> (r: Teardown)
        ensures
            r == self.socket().teardown(),
    {
        match self {
            SipChannel::Tcp(c) => Teardown::Reset(c.stream),
            SipChannel::Udp(c) => match c.receive_socket {
                Some(receive) => Teardown::ClosePair(c.socket, receive),
                None => Teardown::Close(c.socket),
            },
        }
    }
}

// ------------------------------------------------------------------------- laws

/// Taking a channel apart and building it anew loses nothing: the frames that
/// were set aside come out first, in the order of arrival, and then what waited.
pub proof fn law_parts_keep_order(first: Seq<u8>, more: Seq<Seq<u8>>, pending: Seq<u8>)
    requires
        sip_frame::complete_length(first) == Some(first.len() as int),
        without_keepalives(first) == first,
    ensures
        ({
            let all = requeue::joined(seq![first] + more) + pending;
            &&& without_keepalives(all) == all
            &&& cut_frame(without_keepalives(all)) == Some(
                (first, requeue::joined(more) + pending),
            )
        }),
{
    let frames = seq![first] + more;
    let rest = requeue::joined(more) + pending;
    let all = requeue::joined(frames) + pending;
    lemma_joined_first(first, more, more.len() as int);
    assert(all =~= first + rest);
    sip_frame::law_complete_frame_stays(first, rest);
    assert(all.take(first.len() as int) =~= first);
    assert(all.subrange(first.len() as int, all.len() as int) =~= rest);
    sip_frame::lemma_head_end(first, 0);
    assert(first.len() >= 4);
    lemma_kept(first, rest);
}

proof fn lemma_joined_first(first: Seq<u8>, more: Seq<Seq<u8>>, n: int)
    requires
        0 <= n <= more.len(),
    ensures
        requeue::joined_upto(seq![first] + more, n + 1) == first + requeue::joined_upto(more, n),
    decreases n,
{
    let frames = seq![first] + more;
    if n == 0 {
        assert(requeue::joined_upto(frames, 0) =~= seq![]);
        assert(requeue::joined_upto(frames, 1) =~= first);
        assert(first + requeue::joined_upto(more, 0) =~= first);
    } else {
        lemma_joined_first(first, more, n - 1);
        assert(frames[n] == more[n - 1]);
        assert(requeue::joined_upto(frames, n + 1) =~= first + requeue::joined_upto(more, n));
    }
}

/// Line ends before a frame are those of its first two bytes.
proof fn lemma_kept(first: Seq<u8>, rest: Seq<u8>)
    requires
        first.len() >= 4,
        without_keepalives(first) == first,
    ensures
        without_keepalives(first + rest) == first + rest,
{
    if begins_crlf(first) {
        lemma_crlfs_shrink(first.subrange(2, first.len() as int));
        lemma_lfs_shrink(after_crlfs(first));
    } else if begins_lf(first) {
        lemma_lfs_shrink(first.subrange(1, first.len() as int));
    } else {
        assert(!begins_crlf(first + rest));
        assert(!begins_lf(first + rest));
    }
}

proof fn lemma_crlfs_shrink(s: Seq<u8>)
    ensures
        after_crlfs(s).len() <= s.len(),
    decreases s.len(),
{
    if begins_crlf(s) {
        lemma_crlfs_shrink(s.subrange(2, s.len() as int));
    }
}

proof fn lemma_lfs_shrink(s: Seq<u8>)
    ensures
        after_lfs(s).len() <= s.len(),
    decreases s.len(),
{
    if begins_lf(s) {
        lemma_lfs_shrink(s.subrange(1, s.len() as int));
    }
}

/// A frame is cut off whole, and what stands behind it stays.
pub proof fn law_frames_are_cut_whole(c: Core)
    ensures
        taken_frame(c, c.flow).1 matches Ok(Some(frame)) ==> {
            &&& sip_frame::complete_length(without_keepalives(c.pending)) == Some(
                frame.len() as int,
            )
            &&& frame + taken_frame(c, c.flow).0.pending == without_keepalives(c.pending)
        },
{
    let rest = without_keepalives(c.pending);
    match sip_frame::complete_length(rest) {
        Some(n) => {
            sip_frame::lemma_head_end(rest, 0);
            assert(rest.take(n) + rest.subrange(n, rest.len() as int) =~= rest);
        },
        None => {},
    }
}

/// Binary traffic never reaches the bytes that wait to be framed, malformed or
/// unmatched as it may be; every other datagram waits whole behind what was there.
pub proof fn law_binary_traffic_is_kept_out(c: Core, packet: Seq<u8>, now: u64, interval: u64)
    ensures
        ({
            let after = datagram_taken(
                c,
                packet,
                outbound::stun_received(c.flow, packet, now, interval),
            );
            &&& outbound::is_stun(packet) ==> after.0.pending == c.pending && after.1 != Ok::<
                bool,
                Seq<char>,
            >(false)
            &&& !outbound::is_stun(packet) ==> after.0.pending == c.pending + packet
                && after.0.flow == c.flow
        }),
{
}

} // verus!
