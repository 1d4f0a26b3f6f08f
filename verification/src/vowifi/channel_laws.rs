//! What a channel takes off the bytes that it receives.

use crate::outbound;
use crate::requeue;
use crate::sip_frame;
use crate::vowifi::channel;
use crate::vowifi::channel::{Core, SipChannelSocket, Teardown};
use vstd::prelude::*;

verus! {

/// A number of whole line ends.
pub open spec fn line_ends(n: nat) -> Seq<u8>
    decreases n,
{
    if n == 0 {
        seq![]
    } else {
        seq![13u8, 10u8] + line_ends((n - 1) as nat)
    }
}

/// A number of bare line feeds.
pub open spec fn line_feeds(n: nat) -> Seq<u8>
    decreases n,
{
    if n == 0 {
        seq![]
    } else {
        seq![10u8] + line_feeds((n - 1) as nat)
    }
}

proof fn lemma_crlfs(n: nat, s: Seq<u8>)
    requires
        !channel::begins_crlf(s),
    ensures
        channel::after_crlfs(line_ends(n) + s) == s,
    decreases n,
{
    if n > 0 {
        lemma_crlfs((n - 1) as nat, s);
        let rest = line_ends((n - 1) as nat) + s;
        let all = line_ends(n) + s;
        assert(all =~= seq![13u8, 10u8] + rest);
        assert(all.subrange(2, all.len() as int) =~= rest);
    } else {
        assert(line_ends(0) + s =~= s);
    }
}

proof fn lemma_lfs(n: nat, s: Seq<u8>)
    requires
        !channel::begins_lf(s),
    ensures
        channel::after_lfs(line_feeds(n) + s) == s,
    decreases n,
{
    if n > 0 {
        lemma_lfs((n - 1) as nat, s);
        let rest = line_feeds((n - 1) as nat) + s;
        let all = line_feeds(n) + s;
        assert(all =~= seq![10u8] + rest);
        assert(all.subrange(1, all.len() as int) =~= rest);
    } else {
        assert(line_feeds(0) + s =~= s);
    }
}

/// Line ends before a frame are dropped, however many there are, and nothing of the frame is.
pub proof fn law_line_ends_are_dropped(n: nat, m: nat, frame: Seq<u8>)
    requires
        frame.len() > 0 ==> frame[0] != 13 && frame[0] != 10,
    ensures
        channel::without_keepalives(line_ends(n) + (line_feeds(m) + frame)) == frame,
{
    let rest = line_feeds(m) + frame;
    assert(!channel::begins_crlf(rest)) by {
        if m > 0 {
            assert(line_feeds(m)[0] == 10);
            assert(rest[0] == 10);
        } else {
            assert(rest =~= frame);
        }
    }
    lemma_crlfs(n, rest);
    lemma_lfs(m, frame);
}

/// A frame that is complete is taken as soon as it is there, and one that is not waits.
pub proof fn law_complete_frame_is_taken(c: Core)
    ensures
        ({
            let rest = channel::without_keepalives(c.pending);
            let (after, r) = channel::taken_frame(c, c.flow);
            match sip_frame::complete_length(rest) {
                Some(n) => {
                    let frame = rest.take(n);
                    &&& after.pending == rest.subrange(n, rest.len() as int)
                    &&& match outbound::received(c.flow, frame).1 {
                        Ok(_) => r == Ok::<_, Seq<char>>(Some(frame)),
                        Err(e) => r == Err::<Option<Seq<u8>>, _>(e),
                    }
                },
                None => r == Ok::<_, Seq<char>>(None::<Seq<u8>>) && after.pending == rest
                    && after.flow == c.flow,
            }
        }),
{
}

/// Line ends answer a probe on a stream that waits for them, and nothing else.
pub proof fn law_line_ends_answer_a_probe(c: Core, now: u64, interval: u64)
    ensures
        ({
            let f = channel::stream_flow(c, now, interval);
            let answers = c.pending.len() >= 2 && c.pending[0] == 13 && c.pending[1] == 10
                && c.flow.tcp && c.flow.pending is Some;
            &&& !answers ==> f == c.flow
            &&& answers ==> f.pending is None && f.next_probe is Some && (c.flow.lease is Some
                ==> f.lease is Some && f.lease->0.healthy)
        }),
{
}

/// A channel wakes at what comes first: its own deadline or that of its flow.
pub proof fn law_channel_wakes_at_the_first_deadline(f: outbound::FlowState, deadline: u64)
    ensures
        ({
            let at = channel::wake_at(f, deadline);
            &&& at <= deadline
            &&& f.pending matches Some(p) ==> at <= p.deadline && (at == deadline || at
                == p.deadline)
            &&& f.pending is None && f.next_probe is Some ==> at <= f.next_probe->0 && (at
                == deadline || at == f.next_probe->0)
            &&& f.pending is None && f.next_probe is None ==> at == deadline
        }),
{
}

/// A datagram that is no binary traffic waits behind what waits already, as long as there is
/// room for it.
pub proof fn law_datagram_waits_where_there_is_room(c: Core, packet: Seq<u8>)
    ensures
        ({
            let (after, r) = channel::datagram_taken(
                c,
                packet,
                (c.flow, Ok::<bool, Seq<char>>(false)),
            );
            &&& after.pending == c.pending + packet
            &&& c.pending.len() + packet.len() <= 65_536 ==> r == Ok::<_, Seq<char>>(false)
            &&& c.pending.len() + packet.len() > 65_536 ==> r is Err
        }),
{
}

/// A stream is reset when its channel goes, and datagram sockets are closed, both of a pair.
pub proof fn law_sockets_are_given_up(s: SipChannelSocket)
    ensures
        match s {
            SipChannelSocket::Tcp(a) => s.teardown() == Teardown::Reset(a) && s.sender() == a,
            SipChannelSocket::Udp(a) => s.teardown() == Teardown::Close(a) && s.sender() == a,
            SipChannelSocket::UdpPair { send, receive } => s.teardown() == Teardown::ClosePair(
                send,
                receive,
            ) && s.sender() == send,
        },
{
}

/// Frames that were set aside come back one behind the other, in the order in which they were
/// set aside.
pub proof fn law_frames_come_back_in_order(frames: Seq<Seq<u8>>, frame: Seq<u8>)
    ensures
        requeue::joined(frames.push(frame)) == requeue::joined(frames) + frame,
        requeue::joined(seq![]) == Seq::<u8>::empty(),
        requeue::size_of_frames(frames.push(frame)) == requeue::size_of_frames(frames)
            + frame.len(),
        requeue::size_of_frames(seq![]) == 0,
        requeue::has_room(frames, frame) <==> frames.len() < 64 && requeue::size_of_frames(
            frames.push(frame),
        ) <= 65_536,
{
    let n = frames.len() as int;
    lemma_prefix(frames.push(frame), frames, n);
}

proof fn lemma_prefix(a: Seq<Seq<u8>>, b: Seq<Seq<u8>>, n: int)
    requires
        0 <= n <= a.len(),
        n <= b.len(),
        forall|i: int| 0 <= i < n ==> a[i] == b[i],
    ensures
        requeue::joined_upto(a, n) == requeue::joined_upto(b, n),
        requeue::size_upto(a, n) == requeue::size_upto(b, n),
    decreases n,
{
    if n > 0 {
        lemma_prefix(a, b, n - 1);
    }
}

} // verus!
