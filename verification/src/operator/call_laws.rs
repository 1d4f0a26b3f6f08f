//! What the two sides of a call are told of its media.

use crate::operator::call;
use crate::operator::call::{Act, Call, Event, Frame};
use crate::operator::frames;
use crate::operator::headers;
use crate::operator::media;
use crate::operator::session;
use crate::operator::session::{LinkState, OperatorCommand, Outside, Session};
use crate::operator::signalling;
use crate::sip_frame;
use vstd::prelude::*;

verus! {

/// A call is started just where its name is new, its video is allowed, its callee can be dialled
/// and its relays are bound. Its INVITE goes to the callee at the line's home and offers the
/// trunk's media at the ends of the relays that face the operator.
pub proof fn law_invite_offers_the_operator_side(
    s: Session,
    link: LinkState,
    command: OperatorCommand,
    o: Outside,
)
    requires
        command is StartCall,
    ensures
        ({
            let (next, sent, told) = frames::handled_command(s, link, command, o);
            command matches OperatorCommand::StartCall { callee, offer, .. } ==> {
                let uri = headers::callee_uri(callee@, s.context.identity.home_domain@);
                let video = offer@.video is Some;
                &&& sent is Some <==> (forall|j: int|
                    0 <= j < s.calls.len() ==> (#[trigger] s.calls[j]).id != command.id()) && (
                video ==> link.video_enabled && o.video is Ok) && uri is Some && o.audio is Ok
                &&& sent is Some ==> (sent matches Some(
                    Frame::Invite { dialog, remote_uri, body },
                ) && Some(remote_uri) == uri && body == media::relay_media_text(
                    offer@,
                    (o.audio->Ok_0).operator_local,
                    if video {
                        Some((o.video->Ok_0).operator_local)
                    } else {
                        None
                    },
                ))
            }
        }),
{
    session::lemma_index(s.calls, command.id(), 0);
}

/// A call that the trunk takes is answered with what its media makes of the trunk's answer, and
/// with the contact of the line; where the media does not fit, nothing is sent.
pub proof fn law_answer_carries_the_trunk_media(
    s: Session,
    link: LinkState,
    command: OperatorCommand,
    o: Outside,
    k: int,
    c: Call,
    invite: Seq<u8>,
)
    requires
        signalling::stands(s, k, command.id(), c),
        command is AcceptCall,
        !c.answered,
        c.invite == Some(invite),
    ensures
        ({
            let (next, sent, told) = frames::handled_command(s, link, command, o);
            command matches OperatorCommand::AcceptCall { body: given, .. } ==> {
                let (m, answer) = media::incoming_media(c.media, given@);
                &&& sent is Some <==> answer is Ok
                &&& answer is Ok ==> (sent matches Some(
                    Frame::Response { request, status, reason, tag, contact, body },
                ) && request == invite && status == 200 && reason == "OK"@ && tag == Some(
                    c.dialog.local_tag,
                ) && body == Some(answer->Ok_0) && contact == Some(
                    headers::contact_uri(s.context.identity.contact_user@, s.context.route),
                )) && next.calls[k].call.media == m && next.calls[k].call.answered
                &&& next.calls[k].call.dialog == c.dialog && next.calls[k].call.next_cseq
                    == c.next_cseq
            }
        }),
{
    signalling::lemma_stands(s, k, command.id(), c);
}

/// Progress with media answers the request that opened the call with what the media makes of
/// it, and without media with none.
#[verifier::rlimit(50)]
pub proof fn law_progress_carries_the_trunk_media(
    s: Session,
    link: LinkState,
    command: OperatorCommand,
    o: Outside,
    k: int,
    c: Call,
    invite: Seq<u8>,
)
    requires
        signalling::stands(s, k, command.id(), c),
        command is ReportProvisional,
        c.invite == Some(invite),
    ensures
        ({
            let (next, sent, told) = frames::handled_command(s, link, command, o);
            command matches OperatorCommand::ReportProvisional { status: asked, body: given, .. }
                ==> {
                let made = match given {
                    Some(b) => match media::incoming_media(c.media, b@).1 {
                        Ok(answer) => Some(Some(answer)),
                        Err(_) => None,
                    },
                    None => Some(None),
                };
                &&& sent is Some <==> made is Some
                &&& made is Some ==> (sent matches Some(
                    Frame::Response { request, status, tag, contact, body, .. },
                ) && request == invite && status == asked && tag == Some(c.dialog.local_tag)
                    && body == made->0 && contact == Some(
                    headers::contact_uri(s.context.identity.contact_user@, s.context.route),
                ))
                &&& next.calls[k].call.answered == c.answered
            }
        }),
{
    signalling::lemma_stands(s, k, command.id(), c);
}

/// A change of the media offers the trunk's new media at the ends of the new relays that face
/// the operator, unless another change is under way.
pub proof fn law_change_offers_the_operator_side(
    s: Session,
    link: LinkState,
    command: OperatorCommand,
    o: Outside,
    k: int,
    c: Call,
)
    requires
        signalling::stands(s, k, command.id(), c),
        command is Renegotiate,
    ensures
        ({
            let (next, sent, told) = frames::handled_command(s, link, command, o);
            command matches OperatorCommand::Renegotiate { offer, .. } ==> {
                let video = offer@.video is Some;
                &&& sent is Some <==> c.network_reinvite is None && !c.trunk_reinvite && o.audio
                    is Ok && (video ==> link.video_enabled && o.video is Ok)
                &&& sent is None ==> told == Some(
                    Event::Rejected { call_id: command.id(), status: 488 },
                ) && next.calls =~= s.calls
                &&& sent is Some ==> (sent matches Some(Frame::Reinvite { body, .. }) && body
                    == media::relay_media_text(
                    offer@,
                    (o.audio->Ok_0).operator_local,
                    if video {
                        Some((o.video->Ok_0).operator_local)
                    } else {
                        None
                    },
                )) && next.calls[k].call.media.internal_local == (o.audio->Ok_0).internal_local
                    && next.calls[k].call.media.offer == offer@
            }
        }),
{
    signalling::lemma_stands(s, k, command.id(), c);
    assert(signalling::with_call_at(s, k, command.id(), c).calls =~= s.calls);
}

/// Progress is reported just where it has no media or its media fits: with what the call's
/// media makes of it. The far end's tag is learned from it.
#[verifier::rlimit(50)]
pub proof fn law_progress_tells_the_operator_media(
    s: Session,
    link: LinkState,
    frame: Seq<u8>,
    o: Outside,
    k: int,
    id: Seq<char>,
    c: Call,
    status: u16,
)
    requires
        signalling::stands(s, k, id, c),
        signalling::answers_call(s, k, frame),
        signalling::answers_invite(frame),
        sip_frame::status_of(frame) == Some(status as nat),
        100 <= status < 200,
    ensures
        ({
            let (next, r) = frames::frame_step(s, link, frame, o);
            let body = sip_frame::body_of(frame);
            let (m, answer) = media::operator_media(c.media, body);
            let d = next.calls[k].call;
            &&& r is Ok <==> body.len() == 0 || answer is Ok
            &&& r is Ok ==> r->Ok_0.acts.last() == Act::Event(
                Event::Provisional {
                    call_id: id,
                    status,
                    body: if body.len() > 0 {
                        Some(answer->Ok_0)
                    } else {
                        None
                    },
                },
            )
            &&& r is Ok && body.len() > 0 ==> d.media == m
            &&& body.len() == 0 ==> d.media == c.media
            &&& d.dialog.remote_tag == (match headers::to_tag_of(frame) {
                Some(tag) => Some(tag),
                None => c.dialog.remote_tag,
            })
            &&& d.answered == c.answered
        }),
{
    signalling::lemma_response(s, link, frame, o, k, id, c);
}

/// A final success is taken just where its media fits. The trunk is then told what the call's
/// media makes of it, and the far end's tag is learned.
#[verifier::rlimit(50)]
pub proof fn law_success_tells_the_operator_media(
    s: Session,
    link: LinkState,
    frame: Seq<u8>,
    o: Outside,
    k: int,
    id: Seq<char>,
    c: Call,
    status: u16,
)
    requires
        signalling::stands(s, k, id, c),
        signalling::answers_call(s, k, frame),
        signalling::answers_invite(frame),
        sip_frame::status_of(frame) == Some(status as nat),
        200 <= status < 300,
    ensures
        ({
            let (next, r) = frames::frame_step(s, link, frame, o);
            let (m, answer) = media::operator_media(c.media, sip_frame::body_of(frame));
            let d = next.calls[k].call;
            let waits = link.ip_connect_mode is FirstRtp && !c.trunk_reinvite && m.active is Some;
            &&& r is Ok <==> answer is Ok
            &&& r is Ok ==> d.media == m
            &&& r is Ok && waits ==> r->Ok_0.acts[1] == (Act::AnswerOnFirstRtp {
                call_id: id,
                relay: m.active->0.relay,
                body: answer->Ok_0,
            })
            &&& r is Ok && !waits ==> r->Ok_0.acts[1] == Act::Event(
                Event::Answered { call_id: id, body: answer->Ok_0 },
            )
            &&& d.dialog.remote_tag == (match headers::to_tag_of(frame) {
                Some(tag) => Some(tag),
                None => c.dialog.remote_tag,
            })
        }),
{
    signalling::lemma_response(s, link, frame, o, k, id, c);
}

} // verus!
