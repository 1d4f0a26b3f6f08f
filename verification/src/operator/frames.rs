//! What commands and frames make of a session as a whole, and what is to be
//! done about them.

use crate::operator::call::{
    next_number, push_action, CallAction, DialogIds, OperatorEvent, RelayPair, SipFrame, VoiceCall,
};
use crate::operator::media::{
    media_endpoint, media_endpoint_for_video, DtmfCapabilities, DtmfSource, MediaOffer,
    VideoOffer,
};
use crate::operator::session::{
    bound_relays, command_call_id, fresh_media, need_of, LinkState, OperatorCommand, Outside,
    RelayAddrs, RelayNeed, TrunkIncomingMode, VoiceSession,
};
use crate::operator::{call, headers, media, session};
use crate::sdp::{copy_str, parse_audio_sdp, parse_rtp_telephone_event, parse_video_sdp};
use crate::supplementary::{
    classify_mwi_frame, resolve_caller_identity, MessageWaitingSummary, MwiIncomingFrame,
};
use crate::{net, sdp, sip_frame, supplementary, text};
use vstd::prelude::*;

verus! {

// -------------------------------------------------------------------- commands

#[derive(Debug, Clone, Copy, PartialEq, Eq, Structural)]
pub enum CommandKind {
    Start,
    Renegotiate,
    Other,
}

pub open spec fn kind_of(command: OperatorCommand) -> CommandKind {
    match command {
        OperatorCommand::StartCall { .. } => CommandKind::Start,
        OperatorCommand::Renegotiate { .. } => CommandKind::Renegotiate,
        _ => CommandKind::Other,
    }
}

pub fn command_kind(command: &OperatorCommand) -> (r: CommandKind)
    ensures
        r == kind_of(*command),
{
    match command {
        OperatorCommand::StartCall { .. } => CommandKind::Start,
        OperatorCommand::Renegotiate { .. } => CommandKind::Renegotiate,
        _ => CommandKind::Other,
    }
}

/// What a failed command leaves behind: no call where one was to start, and the
/// old media where new media was asked for. The trunk is told.
pub open spec fn failed_step(s: session::Session, kind: CommandKind, id: Seq<char>) -> (
    session::Session,
    Option<call::Event>,
) {
    match kind {
        CommandKind::Start => (
            session::Session { calls: session::without_call(s.calls, id), ..s },
            Some(call::Event::Unavailable { call_id: id }),
        ),
        CommandKind::Renegotiate => (
            s,
            Some(call::Event::Rejected { call_id: id, status: 488 }),
        ),
        CommandKind::Other => (s, None),
    }
}

pub open spec fn opt_event(o: Option<OperatorEvent>) -> Option<call::Event> {
    match o {
        Some(e) => Some(e@),
        None => None,
    }
}

/// A command with its consequences: the session, the message to send, and what
/// the trunk is told where the command failed.
pub open spec fn handled_command(
    s: session::Session,
    link: LinkState,
    command: OperatorCommand,
    o: Outside,
) -> (session::Session, Option<call::Frame>, Option<call::Event>) {
    let (next, r) = session::command_step(s, link, command, o);
    match r {
        Ok(frame) => (next, frame, None),
        Err(_) => {
            let (next, event) = failed_step(next, kind_of(command), command.id());
            (next, None, event)
        },
    }
}

impl VoiceSession {
    /// Ends a command that failed, in its decision or when it was sent.
    pub fn command_failed(&mut self, kind: CommandKind, call_id: String) -> (r: Option<
        OperatorEvent,
    >)
        ensures
            (final(self)@, opt_event(r)) == failed_step(old(self)@, kind, call_id@),
    {
        match kind {
            CommandKind::Start => {
                let _ = self.remove_call(call_id.as_str());
                Some(OperatorEvent::Unavailable { call_id })
            },
            CommandKind::Renegotiate => Some(OperatorEvent::Rejected { call_id, status: 488 }),
            CommandKind::Other => None,
        }
    }

    pub fn handle_command(
        &mut self,
        link: &LinkState,
        command: OperatorCommand,
        outside: Outside,
    ) -> (r: (Option<SipFrame>, Option<OperatorEvent>))
        ensures
            (final(self)@, call::opt_frame(r.0), opt_event(r.1)) == handled_command(
                old(self)@,
                *link,
                command,
                outside,
            ),
    {
        let call_id = copy_str(command_call_id(&command));
        let kind = command_kind(&command);
        match self.handle_command_inner(link, command, outside) {
            Ok(frame) => (frame, None),
            Err(_) => (None, self.command_failed(kind, call_id)),
        }
    }
}

/// A call whose INVITE was built: its branch is that of the message.
pub open spec fn invite_noted(s: session::Session, id: Seq<char>, frame: Seq<u8>) -> (
    session::Session,
    Option<Seq<char>>,
) {
    match headers::branch_of(frame) {
        None => (s, Some("vowifi_invite_branch_missing"@)),
        Some(branch) => if session::has_call(s.calls, id) {
            (
                session::Session {
                    calls: session::with_call(
                        s.calls,
                        id,
                        call::Call { branch, ..session::call_of(s.calls, id) },
                    ),
                    ..s
                },
                None,
            )
        } else {
            (s, Some("vowifi_call_unknown"@))
        },
    }
}

impl VoiceSession {
    /// Takes note of the INVITE that was built for a call.
    pub fn note_invite(&mut self, call_id: String, frame: &[u8]) -> (r: Result<(), &'static str>)
        ensures
            match r {
                Ok(_) => invite_noted(old(self)@, call_id@, frame@) == (final(self)@, None::<
                    Seq<char>,
                >),
                Err(e) => invite_noted(old(self)@, call_id@, frame@) == (final(self)@, Some(e@)),
            },
    {
        match headers::top_via_branch(frame) {
            None => Err("vowifi_invite_branch_missing"),
            Some(branch) => match self.take_call(call_id.as_str()) {
                None => Err("vowifi_call_unknown"),
                Some((i, c)) => {
                    let mut c = c;
                    c.invite_branch = branch;
                    proof {
                        session::lemma_put_back(old(self)@.calls, call_id@, c@);
                        assert(self.calls@.len() == self@.calls.len());
                    }
                    self.put_back(i, call_id, c);
                    Ok(())
                },
            },
        }
    }
}

// --------------------------------------------------------------- network offers

pub open spec fn offered_video(a: sdp::Audio, body: Seq<u8>) -> Option<media::OfferedVideo> {
    match sdp::video_of(body) {
        Ok(v) => match media::video_endpoint_of(a, v) {
            Ok(endpoint) => Some(media::OfferedVideo { description: v, endpoint }),
            Err(_) => None,
        },
        Err(_) => None,
    }
}

/// The media that the network offers.
pub open spec fn network_offer(body: Seq<u8>) -> Result<media::Offer, Seq<char>> {
    match sdp::audio_of(body) {
        Err(e) => Err(e),
        Ok(a) => match media::endpoint_of(a) {
            Err(e) => Err(e),
            Ok(endpoint) => Ok(
                media::Offer {
                    audio: a,
                    endpoint,
                    video: offered_video(a, body),
                    dtmf: media::Dtmf {
                        rtp_event: sdp::telephone_event_of(body),
                        sip_info: true,
                        preferred: if sdp::telephone_event_of(body) is Some {
                            DtmfSource::RtpEvent
                        } else {
                            DtmfSource::SipInfo
                        },
                    },
                },
            ),
        },
    }
}

pub fn read_network_offer(body: &[u8]) -> (r: Result<MediaOffer, String>)
    ensures
        match r {
            Ok(o) => network_offer(body@) == Ok::<_, Seq<char>>(o@),
            Err(e) => network_offer(body@) == Err::<media::Offer, _>(e@),
        },
{
    let audio = match parse_audio_sdp(body) {
        Ok(a) => a,
        Err(e) => {
            return Err(copy_str(e.code()));
        },
    };
    let audio_endpoint = match media_endpoint(&audio) {
        Ok(a) => a,
        Err(e) => {
            return Err(copy_str(e));
        },
    };
    let video = match parse_video_sdp(body) {
        Ok(description) => match media_endpoint_for_video(&audio, &description) {
            Ok(endpoint) => Some(VideoOffer { description, endpoint }),
            Err(_) => None,
        },
        Err(_) => None,
    };
    let rtp_event = parse_rtp_telephone_event(body);
    let preferred = if rtp_event.is_some() {
        DtmfSource::RtpEvent
    } else {
        DtmfSource::SipInfo
    };
    Ok(
        MediaOffer {
            audio,
            audio_endpoint,
            video,
            dtmf: DtmfCapabilities { rtp_event, sip_info: true, preferred },
        },
    )
}

/// A response without a tag, contact or body.
pub open spec fn plain_response(frame: Seq<u8>, status: u16, reason: Seq<char>) -> call::Frame {
    call::Frame::Response { request: frame, status, reason, tag: None, contact: None, body: None }
}

fn respond(frame: &[u8], status: u16, reason: &'static str) -> (r: SipFrame)
    ensures
        r@ == plain_response(frame@, status, reason@),
{
    SipFrame::Response {
        request: net::to_bytes(frame),
        status,
        reason,
        tag: None,
        contact: None,
        body: None,
    }
}

pub open spec fn one_send(f: call::Frame) -> Seq<call::Act> {
    seq![call::Act::Send(f)]
}

fn sending(frame: SipFrame) -> (r: Vec<CallAction>)
    ensures
        call::acts_of(r@) == one_send(frame@),
{
    let mut actions: Vec<CallAction> = Vec::new();
    assert(call::acts_of(actions@) =~= seq![]);
    push_action(&mut actions, CallAction::Send(frame));
    assert(call::acts_of(actions@) =~= one_send(frame@));
    actions
}

pub open spec fn rejection(frame: Seq<u8>, status: u16) -> Seq<call::Act> {
    one_send(plain_response(frame, status, headers::reason_of(status)))
}

/// Refuses a request.
pub fn reject_request(frame: &[u8], status: u16) -> (r: Vec<CallAction>)
    ensures
        call::acts_of(r@) == rejection(frame@, status),
{
    sending(respond(frame, status, headers::sip_reason(status)))
}

// ---------------------------------------------------------------- incoming calls

/// The caller that the trunk is told.
pub open spec fn shown_caller(frame: Seq<u8>) -> Seq<char> {
    let identity = supplementary::caller(
        sip_frame::header_of(frame, "Privacy"@),
        sip_frame::header_of(frame, "P-Asserted-Identity"@),
        sip_frame::header_of(frame, "From"@),
        sip_frame::header_of(frame, "Remote-Party-ID"@),
    );
    match identity.uri {
        Some(uri) => headers::caller_uri(uri),
        None => "sip:anonymous@anonymous.invalid"@,
    }
}

fn caller_for_trunk(frame: &[u8]) -> (r: String)
    ensures
        r@ == shown_caller(frame@),
{
    let identity = resolve_caller_identity(frame);
    match &identity.uri {
        Some(uri) => headers::normalize_caller(uri.as_str()),
        None => copy_str("sip:anonymous@anonymous.invalid"),
    }
}

/// Who calls, and in which dialog.
pub struct Calling {
    pub remote_uri: Seq<char>,
    pub remote_tag: Seq<char>,
    pub cseq: u32,
}

pub open spec fn calling(frame: Seq<u8>) -> Result<Calling, Seq<char>> {
    let remote_uri = match headers::uri_of(frame, "Contact"@) {
        Some(uri) => Some(uri),
        None => headers::uri_of(frame, "From"@),
    };
    if remote_uri is None {
        Err("vowifi_incoming_caller_missing"@)
    } else {
        match sip_frame::header_of(frame, "From"@) {
            None => Err("vowifi_incoming_from_missing"@),
            Some(from) => match headers::tag_in(from) {
                None => Err("vowifi_incoming_from_tag_missing"@),
                Some(remote_tag) => match headers::cseq_in(
                    sip_frame::header_of(frame, "CSeq"@),
                    "INVITE"@,
                ) {
                    Err(e) => Err(e),
                    Ok(cseq) => Ok(Calling { remote_uri: remote_uri->0, remote_tag, cseq }),
                },
            },
        }
    }
}

fn read_calling(frame: &[u8]) -> (r: Result<(String, String, u32), String>)
    ensures
        match r {
            Ok((remote_uri, remote_tag, cseq)) => calling(frame@) == Ok::<_, Seq<char>>(
                Calling { remote_uri: remote_uri@, remote_tag: remote_tag@, cseq },
            ),
            Err(e) => calling(frame@) == Err::<Calling, _>(e@),
        },
{
    let remote_uri = match headers::header_uri(frame, "Contact") {
        Some(uri) => uri,
        None => match headers::header_uri(frame, "From") {
            Some(uri) => uri,
            None => {
                return Err(copy_str("vowifi_incoming_caller_missing"));
            },
        },
    };
    match sip_frame::header_value(frame, "From") {
        None => Err(copy_str("vowifi_incoming_from_missing")),
        Some(from) => match headers::header_tag(from.as_str()) {
            None => Err(copy_str("vowifi_incoming_from_tag_missing")),
            Some(tag) => match headers::cseq_number(frame, "INVITE") {
                Err(e) => Err(copy_str(e)),
                Ok(cseq) => Ok((remote_uri, tag, cseq)),
            },
        },
    }
}

pub open spec fn incoming_call(
    frame: Seq<u8>,
    ims_call_id: Seq<char>,
    who: Calling,
    offer: media::Offer,
    audio: RelayPair,
    video: Option<RelayPair>,
    local_tag: Seq<char>,
    answered: bool,
) -> call::Call {
    call::Call {
        dialog: call::Dialog {
            call_id: ims_call_id,
            local_tag,
            remote_tag: Some(who.remote_tag),
            cseq: who.cseq,
        },
        remote_uri: who.remote_uri,
        branch: seq![],
        invite: Some(frame),
        media: session::new_media(offer, audio, video),
        next_cseq: call::after_cseq(who.cseq),
        network_reinvite: None,
        trunk_reinvite: false,
        answered,
    }
}

/// The responses to an INVITE that is taken: that it is being tried, and, where
/// the trunk is bound at once, that it is accepted.
pub open spec fn first_responses(
    frame: Seq<u8>,
    c: call::Call,
    contact: Seq<char>,
) -> Seq<call::Act> {
    let trying = call::Act::Send(
        call::answer_frame(frame, 100, "Trying"@, c.dialog.local_tag, None, None),
    );
    if c.answered {
        seq![
            trying,
            call::Act::Send(
                call::answer_frame(
                    frame,
                    200,
                    "OK"@,
                    c.dialog.local_tag,
                    Some(contact),
                    Some(
                        media::relay_media_text(
                            c.media.offer,
                            c.media.operator_local,
                            c.media.operator_video_local,
                        ),
                    ),
                ),
            ),
        ]
    } else {
        seq![trying]
    }
}

/// An incoming INVITE that opens a call.
pub open spec fn incoming_step(
    s: session::Session,
    link: LinkState,
    frame: Seq<u8>,
    ims_call_id: Seq<char>,
    o: Outside,
) -> (session::Session, Result<Seq<call::Act>, Seq<char>>) {
    if link.trunk_local_ip is None || !link.available {
        (s, Ok(rejection(frame, 480)))
    } else {
        match network_offer(sip_frame::body_of(frame)) {
            Err(e) => (s, Err(e)),
            Ok(offer) => if offer.video is Some && !link.video_enabled {
                (s, Ok(rejection(frame, 488)))
            } else {
                match session::relays_of(o, offer.video is Some) {
                    Err(e) => (s, Err(e)),
                    Ok((audio, video)) => match calling(frame) {
                        Err(e) => (s, Err(e)),
                        Ok(who) => {
                            let c = incoming_call(
                                frame,
                                ims_call_id,
                                who,
                                offer,
                                audio,
                                video,
                                o.local_tag@,
                                link.incoming_mode is BoundImmediate,
                            );
                            let id = "vowifi-"@ + o.token@;
                            let event = call::Event::Incoming {
                                call_id: id,
                                caller: shown_caller(frame),
                                body: media::relay_media_text(
                                    offer,
                                    c.media.internal_local,
                                    c.media.internal_video_local,
                                ),
                            };
                            (
                                session::Session {
                                    calls: session::with_call(s.calls, id, c),
                                    ..s
                                },
                                Ok(
                                    first_responses(frame, c, s.context.contact()).push(
                                        call::Act::Event(event),
                                    ),
                                ),
                            )
                        },
                    },
                }
            },
        }
    }
}

fn joined(first: &str, second: &str) -> (r: String)
    ensures
        r@ == first@ + second@,
{
    let mut out = text::chars_of(first);
    text::push_str(&mut out, second);
    text::string_of(out.as_slice())
}

fn opening_call(
    frame: &[u8],
    ims_call_id: &str,
    remote_uri: String,
    remote_tag: String,
    cseq: u32,
    offer: MediaOffer,
    audio: RelayPair,
    video: Option<RelayPair>,
    local_tag: String,
    answered: bool,
) -> (r: VoiceCall)
    ensures
        r@ == incoming_call(
            frame@,
            ims_call_id@,
            Calling { remote_uri: remote_uri@, remote_tag: remote_tag@, cseq },
            offer@,
            audio,
            video,
            local_tag@,
            answered,
        ),
{
    let branch = copy_str("");
    proof {
        reveal_strlit("");
        assert(branch@ =~= seq![]);
    }
    VoiceCall {
        dialog: DialogIds {
            call_id: copy_str(ims_call_id),
            local_tag,
            remote_tag: Some(remote_tag),
            cseq,
        },
        remote_uri,
        invite_branch: branch,
        initial_invite: Some(net::to_bytes(frame)),
        media: fresh_media(offer, audio, video),
        next_cseq: next_number(cseq),
        pending_network_reinvite: None,
        pending_trunk_reinvite: false,
        operator_answered: answered,
    }
}

fn opening_responses(frame: &[u8], c: &VoiceCall, contact: String) -> (r: Vec<CallAction>)
    ensures
        call::acts_of(r@) == first_responses(frame@, c@, contact@),
{
    let request = net::to_bytes(frame);
    let mut actions: Vec<CallAction> = Vec::new();
    assert(call::acts_of(actions@) =~= seq![]);
    push_action(
        &mut actions,
        CallAction::Send(c.response(&request, 100, "Trying", None, None)),
    );
    if c.operator_answered {
        let answer = media::relay_media_sdp(
            &c.media.internal_offer,
            c.media.operator_local,
            c.media.operator_video_local,
        );
        push_action(
            &mut actions,
            CallAction::Send(c.response(&request, 200, "OK", Some(contact), Some(answer))),
        );
    }
    assert(call::acts_of(actions@) =~= first_responses(frame@, c@, contact@));
    actions
}

impl VoiceSession {
    pub fn begin_incoming_call(
        &mut self,
        link: &LinkState,
        frame: &[u8],
        ims_call_id: &str,
        outside: Outside,
    ) -> (r: Result<Vec<CallAction>, String>)
        ensures
            (final(self)@, call::acts_outcome(r)) == incoming_step(
                old(self)@,
                *link,
                frame@,
                ims_call_id@,
                outside,
            ),
    {
        if link.trunk_local_ip.is_none() || !link.available {
            return Ok(reject_request(frame, 480));
        }
        let offer = match read_network_offer(sip_frame::body(frame)) {
            Ok(offer) => offer,
            Err(e) => {
                return Err(e);
            },
        };
        let with_video: bool = offer.video.is_some();
        if with_video && !link.video_enabled {
            return Ok(reject_request(frame, 488));
        }
        let (audio, video) = match bound_relays(outside.audio, outside.video, with_video) {
            Ok(pairs) => pairs,
            Err(e) => {
                return Err(e);
            },
        };
        let (remote_uri, remote_tag, cseq) = match read_calling(frame) {
            Ok(who) => who,
            Err(e) => {
                return Err(e);
            },
        };
        let answered: bool = link.incoming_mode == TrunkIncomingMode::BoundImmediate;
        let c = opening_call(
            frame,
            ims_call_id,
            remote_uri,
            remote_tag,
            cseq,
            offer,
            audio,
            video,
            outside.local_tag,
            answered,
        );
        let id = joined("vowifi-", outside.token.as_str());
        let body = media::relay_media_sdp(
            &c.media.internal_offer,
            c.media.internal_local,
            c.media.internal_video_local,
        );
        let mut actions = opening_responses(frame, &c, self.contact());
        push_action(
            &mut actions,
            CallAction::Event(
                OperatorEvent::Incoming {
                    call_id: copy_str(id.as_str()),
                    caller: caller_for_trunk(frame),
                    body,
                },
            ),
        );
        self.insert_call(id, c);
        Ok(actions)
    }
}

// ------------------------------------------------------------- network re-INVITE

/// A re-INVITE of the network: the trunk is asked, unless a change of media is
/// under way.
pub open spec fn reinvite_step(
    s: session::Session,
    link: LinkState,
    id: Seq<char>,
    frame: Seq<u8>,
    o: Outside,
) -> (session::Session, Result<Seq<call::Act>, Seq<char>>) {
    let c = session::call_of(s.calls, id);
    if link.trunk_local_ip is None {
        (s, Ok(rejection(frame, 480)))
    } else if !session::has_call(s.calls, id) {
        (s, Err("vowifi_call_unknown"@))
    } else if call::busy(c) {
        (s, Ok(rejection(frame, 491)))
    } else {
        match network_offer(sip_frame::body_of(frame)) {
            Err(e) => (s, Err(e)),
            Ok(offer) => if offer.video is Some && !link.video_enabled {
                (s, Ok(rejection(frame, 488)))
            } else {
                match session::relays_of(o, offer.video is Some) {
                    Err(e) => (s, Err(e)),
                    Ok((audio, video)) => {
                        let next = call::Call {
                            media: call::with_offer(c.media, offer, audio, video),
                            network_reinvite: Some(frame),
                            ..c
                        };
                        (
                            session::Session {
                                calls: session::with_call(s.calls, id, next),
                                ..s
                            },
                            Ok(
                                seq![
                                    call::Act::Send(
                                        call::answer_frame(
                                            frame,
                                            100,
                                            "Trying"@,
                                            c.dialog.local_tag,
                                            None,
                                            None,
                                        ),
                                    ),
                                    call::Act::Event(
                                        call::Event::Renegotiate {
                                            call_id: id,
                                            body: media::relay_media_text(
                                                offer,
                                                next.media.internal_local,
                                                next.media.internal_video_local,
                                            ),
                                        },
                                    ),
                                ],
                            ),
                        )
                    },
                }
            },
        }
    }
}

impl VoiceSession {
    pub fn begin_network_reinvite(
        &mut self,
        link: &LinkState,
        call_id: String,
        frame: &[u8],
        outside: Outside,
    ) -> (r: Result<Vec<CallAction>, String>)
        ensures
            (final(self)@, call::acts_outcome(r)) == reinvite_step(
                old(self)@,
                *link,
                call_id@,
                frame@,
                outside,
            ),
    {
        if link.trunk_local_ip.is_none() {
            return Ok(reject_request(frame, 480));
        }
        let at: usize = self.find_call(call_id.as_str());
        let count: usize = self.calls.len();
        if at == count {
            return Err(copy_str("vowifi_call_unknown"));
        }
        assert(self@.calls[at as int] == self.calls@[at as int]@);
        if self.calls[at].call.pending_network_reinvite.is_some()
            || self.calls[at].call.pending_trunk_reinvite {
            return Ok(reject_request(frame, 491));
        }
        let offer = match read_network_offer(sip_frame::body(frame)) {
            Ok(offer) => offer,
            Err(e) => {
                return Err(e);
            },
        };
        let with_video: bool = offer.video.is_some();
        if with_video && !link.video_enabled {
            return Ok(reject_request(frame, 488));
        }
        let (audio, video) = match bound_relays(outside.audio, outside.video, with_video) {
            Ok(pairs) => pairs,
            Err(e) => {
                return Err(e);
            },
        };
        match self.take_call(call_id.as_str()) {
            None => Err(copy_str("vowifi_call_unknown")),
            Some((i, c)) => {
                let mut c = c;
                c.offer_anew(offer, audio, video);
                let request = net::to_bytes(frame);
                let trying = c.response(&request, 100, "Trying", None, None);
                c.pending_network_reinvite = Some(request);
                let body = media::relay_media_sdp(
                    &c.media.internal_offer,
                    c.media.internal_local,
                    c.media.internal_video_local,
                );
                let mut actions = sending(trying);
                push_action(
                    &mut actions,
                    CallAction::Event(
                        OperatorEvent::Renegotiate { call_id: copy_str(call_id.as_str()), body },
                    ),
                );
                proof {
                    session::lemma_put_back(old(self)@.calls, call_id@, c@);
                    assert(self.calls@.len() == self@.calls.len());
                    assert(reinvite_step(old(self)@, *link, call_id@, frame@, outside).1
                        matches Ok(acts) && acts =~= call::acts_of(actions@));
                }
                self.put_back(i, call_id, c);
                Ok(actions)
            },
        }
    }
}


// ----------------------------------------------------------------------- frames

/// What the supplementary-service runtime of the line is told.
#[derive(Debug, PartialEq, Eq)]
pub enum MwiNotice {
    Update(MessageWaitingSummary),
    Failed(&'static str),
    Subscribed,
}

pub enum Notice {
    Update(supplementary::Summary),
    Failed(Seq<char>),
    Subscribed,
}

impl View for MwiNotice {
    type V = Notice;

    open spec fn view(&self) -> Notice {
        match self {
            MwiNotice::Update(summary) => Notice::Update(summary@),
            MwiNotice::Failed(code) => Notice::Failed(code@),
            MwiNotice::Subscribed => Notice::Subscribed,
        }
    }
}

/// What is to be done about a frame: the actions in order, and then the notice.
#[derive(Debug, PartialEq, Eq)]
pub struct FrameOutcome {
    pub actions: Vec<CallAction>,
    pub notice: Option<MwiNotice>,
}

pub struct Outcome {
    pub acts: Seq<call::Act>,
    pub notice: Option<Notice>,
}

impl View for FrameOutcome {
    type V = Outcome;

    open spec fn view(&self) -> Outcome {
        Outcome {
            acts: call::acts_of(self.actions@),
            notice: match self.notice {
                Some(n) => Some(n@),
                None => None,
            },
        }
    }
}

pub open spec fn frame_outcome(r: Result<FrameOutcome, String>) -> Result<Outcome, Seq<char>> {
    match r {
        Ok(o) => Ok(o@),
        Err(e) => Err(e@),
    }
}

pub open spec fn acts_only(r: Result<Seq<call::Act>, Seq<char>>) -> Result<Outcome, Seq<char>> {
    match r {
        Ok(acts) => Ok(Outcome { acts, notice: None }),
        Err(e) => Err(e),
    }
}

/// Does a frame begin like a SIP response?
pub open spec fn is_response(frame: Seq<u8>) -> bool {
    frame.len() >= 8 && frame.take(8) == seq![83u8, 73u8, 80u8, 47u8, 50u8, 46u8, 48u8, 32u8]
}

fn begins_response(frame: &[u8]) -> (r: bool)
    ensures
        r == is_response(frame@),
{
    if frame.len() < 8 {
        return false;
    }
    let r = frame[0] == 83 && frame[1] == 73 && frame[2] == 80 && frame[3] == 47 && frame[4] == 50
        && frame[5] == 46 && frame[6] == 48 && frame[7] == 32;
    proof {
        let wanted = seq![83u8, 73u8, 80u8, 47u8, 50u8, 46u8, 48u8, 32u8];
        if r {
            assert(frame@.take(8) =~= wanted);
        } else if frame@.take(8) == wanted {
            assert(frame@.take(8)[0] == wanted[0] && frame@.take(8)[1] == wanted[1]
                && frame@.take(8)[2] == wanted[2] && frame@.take(8)[3] == wanted[3]
                && frame@.take(8)[4] == wanted[4] && frame@.take(8)[5] == wanted[5]
                && frame@.take(8)[6] == wanted[6] && frame@.take(8)[7] == wanted[7]);
        }
    }
    r
}

pub open spec fn ok_response(frame: Seq<u8>) -> call::Act {
    call::Act::Send(plain_response(frame, 200, "OK"@))
}

/// The far end gave up a call before it was answered: its INVITE is answered too.
pub open spec fn cancelled_acts(frame: Seq<u8>, id: Seq<char>, c: call::Call) -> Seq<call::Act> {
    let event = call::Act::Event(call::Event::Cancelled { call_id: id });
    match c.invite {
        Some(invite) => seq![
            ok_response(frame),
            call::Act::Send(
                call::answer_frame(
                    invite,
                    487,
                    "Request Terminated"@,
                    c.dialog.local_tag,
                    None,
                    None,
                ),
            ),
            event,
        ],
        None => seq![ok_response(frame), event],
    }
}

/// A response to a call that is not there: one that cannot be read is an error, and
/// only one to an INVITE asks for the call.
pub open spec fn stray_response(frame: Seq<u8>) -> Result<Seq<call::Act>, Seq<char>> {
    if sip_frame::status_of(frame) is None {
        Err("ims_sip_status_invalid"@)
    } else if !text::alike(
        headers::method_in(sip_frame::header_of(frame, "CSeq"@)),
        "INVITE"@,
    ) {
        Ok(seq![])
    } else {
        Err("vowifi_call_unknown"@)
    }
}

/// A response within the dialog of a call, whether or not the call is there.
pub open spec fn session_response(
    s: session::Session,
    id: Seq<char>,
    frame: Seq<u8>,
    link: LinkState,
) -> (session::Session, Result<Seq<call::Act>, Seq<char>>) {
    if session::has_call(s.calls, id) {
        let (next, r) = call::response_step(
            session::call_of(s.calls, id),
            id,
            frame,
            link.ip_connect_mode,
        );
        match next {
            Some(next) => (
                session::Session { calls: session::with_call(s.calls, id, next), ..s },
                r,
            ),
            None => (
                session::Session { calls: session::without_call(s.calls, id), ..s },
                r,
            ),
        }
    } else {
        (s, stray_response(frame))
    }
}

/// A frame within the dialog of a call.
pub open spec fn dialog_step(
    s: session::Session,
    link: LinkState,
    id: Seq<char>,
    frame: Seq<u8>,
    o: Outside,
) -> (session::Session, Result<Seq<call::Act>, Seq<char>>) {
    let c = session::call_of(s.calls, id);
    let without = session::Session { calls: session::without_call(s.calls, id), ..s };
    if sip_frame::request_is(frame, "BYE"@) {
        (
            without,
            Ok(
                seq![
                    ok_response(frame),
                    call::Act::Event(call::Event::Ended { call_id: id }),
                ],
            ),
        )
    } else if sip_frame::request_is(frame, "CANCEL"@) {
        (without, Ok(cancelled_acts(frame, id, c)))
    } else if sip_frame::request_is(frame, "INFO"@) {
        match o.dtmf {
            Some(signal) => (
                s,
                Ok(
                    seq![
                        ok_response(frame),
                        call::Act::Event(call::Event::Dtmf { call_id: id, signal }),
                    ],
                ),
            ),
            None => (s, Ok(seq![ok_response(frame)])),
        }
    } else if is_response(frame) {
        let (next, r) = call::response_step(c, id, frame, link.ip_connect_mode);
        match next {
            Some(next) => (
                session::Session { calls: session::with_call(s.calls, id, next), ..s },
                r,
            ),
            None => (without, r),
        }
    } else {
        (s, Ok(seq![]))
    }
}

/// A frame of the network that has nothing to do with message waiting.
pub open spec fn call_frame_step(
    s: session::Session,
    link: LinkState,
    frame: Seq<u8>,
    o: Outside,
) -> (session::Session, Result<Seq<call::Act>, Seq<char>>) {
    match sip_frame::header_of(frame, "Call-ID"@) {
        None => (s, Ok(seq![])),
        Some(ims_call_id) => {
            let name = session::named_by_dialog(s.calls, ims_call_id);
            if sip_frame::request_is(frame, "OPTIONS"@) || sip_frame::request_is(
                frame,
                "MESSAGE"@,
            ) {
                (s, Ok(seq![ok_response(frame)]))
            } else if sip_frame::request_is(frame, "INVITE"@) {
                match name {
                    Some(id) => reinvite_step(s, link, id, frame, o),
                    None => incoming_step(s, link, frame, ims_call_id, o),
                }
            } else {
                match name {
                    Some(id) => dialog_step(s, link, id, frame, o),
                    None => (s, Ok(seq![])),
                }
            }
        },
    }
}

pub open spec fn subscription_id(s: session::Session) -> Option<Seq<char>> {
    match s.mwi {
        Some(sub) => Some(sub.ids.call_id),
        None => None,
    }
}

pub open spec fn notify_reason(status: u16) -> Seq<char> {
    if status == 200 {
        "OK"@
    } else {
        "Call/Transaction Does Not Exist"@
    }
}

/// A session whose subscription has the far end's tag.
pub open spec fn subscribed(s: session::Session, to_tag: Option<Seq<char>>) -> session::Session {
    match (s.mwi, to_tag) {
        (Some(sub), Some(tag)) => session::Session {
            mwi: Some(
                session::Subscription {
                    ids: supplementary::Ids { to_tag: Some(tag), ..sub.ids },
                    ..sub
                },
            ),
            ..s
        },
        _ => s,
    }
}

/// What a frame of the network makes of a session.
pub open spec fn frame_step(
    s: session::Session,
    link: LinkState,
    frame: Seq<u8>,
    o: Outside,
) -> (session::Session, Result<Outcome, Seq<char>>) {
    match supplementary::mwi_frame(frame, subscription_id(s)) {
        supplementary::MwiFrame::Notify { response_status, summary } => {
            let notice = if s.supplementary {
                match summary {
                    Some(Ok(summary)) => Some(Notice::Update(summary)),
                    Some(Err(e)) => Some(Notice::Failed(e)),
                    None => None,
                }
            } else {
                None
            };
            (
                s,
                Ok(
                    Outcome {
                        acts: one_send(
                            plain_response(frame, response_status, notify_reason(response_status)),
                        ),
                        notice,
                    },
                ),
            )
        },
        supplementary::MwiFrame::SubscribeResponse { status, to_tag } => if !s.supplementary {
            (s, Ok(Outcome { acts: seq![], notice: None }))
        } else if status matches Ok(n) && 200 <= n <= 299 {
            (
                subscribed(s, to_tag),
                Ok(Outcome { acts: seq![], notice: Some(Notice::Subscribed) }),
            )
        } else if (status matches Ok(n) && (n == 401 || n == 407)) {
            (
                s,
                Ok(
                    Outcome {
                        acts: seq![],
                        notice: Some(Notice::Failed("mwi_subscribe_authentication_required"@)),
                    },
                ),
            )
        } else {
            (
                s,
                Ok(
                    Outcome {
                        acts: seq![],
                        notice: Some(Notice::Failed("mwi_subscribe_rejected"@)),
                    },
                ),
            )
        },
        supplementary::MwiFrame::Other => {
            let (next, r) = call_frame_step(s, link, frame, o);
            (next, acts_only(r))
        },
    }
}

fn nothing() -> (r: Vec<CallAction>)
    ensures
        call::acts_of(r@) == Seq::<call::Act>::empty(),
{
    let r: Vec<CallAction> = Vec::new();
    assert(call::acts_of(r@) =~= Seq::<call::Act>::empty());
    r
}

impl VoiceSession {
    fn end_call(&mut self, call_id: String, frame: &[u8]) -> (r: Vec<CallAction>)
        ensures
            final(self)@ == (session::Session {
                calls: session::without_call(old(self)@.calls, call_id@),
                ..old(self)@
            }),
            call::acts_of(r@) == seq![
                ok_response(frame@),
                call::Act::Event(call::Event::Ended { call_id: call_id@ }),
            ],
    {
        let mut actions = sending(respond(frame, 200, "OK"));
        let _ = self.remove_call(call_id.as_str());
        let ghost id = call_id@;
        push_action(&mut actions, CallAction::Event(OperatorEvent::Ended { call_id }));
        assert(call::acts_of(actions@) =~= seq![
            ok_response(frame@),
            call::Act::Event(call::Event::Ended { call_id: id }),
        ]);
        actions
    }

    fn cancel_call(&mut self, call_id: String, frame: &[u8]) -> (r: Vec<CallAction>)
        requires
            session::has_call(old(self)@.calls, call_id@),
        ensures
            final(self)@ == (session::Session {
                calls: session::without_call(old(self)@.calls, call_id@),
                ..old(self)@
            }),
            call::acts_of(r@) == cancelled_acts(
                frame@,
                call_id@,
                session::call_of(old(self)@.calls, call_id@),
            ),
    {
        let mut actions = sending(respond(frame, 200, "OK"));
        let ghost want = cancelled_acts(
            frame@,
            call_id@,
            session::call_of(old(self)@.calls, call_id@),
        );
        if let Some(c) = self.remove_call(call_id.as_str()) {
            if let Some(invite) = &c.initial_invite {
                push_action(
                    &mut actions,
                    CallAction::Send(c.response(invite, 487, "Request Terminated", None, None)),
                );
            }
        }
        push_action(&mut actions, CallAction::Event(OperatorEvent::Cancelled { call_id }));
        assert(call::acts_of(actions@) =~= want);
        actions
    }

    /// Takes a response within the dialog of a call.
    pub fn handle_response(&mut self, link: &LinkState, call_id: String, frame: &[u8]) -> (r:
        Result<Vec<CallAction>, String>)
        ensures
            (final(self)@, call::acts_outcome(r)) == session_response(
                old(self)@,
                call_id@,
                frame@,
                *link,
            ),
    {
        match self.take_call(call_id.as_str()) {
            None => {
                if let Err(e) = sip_frame::parse_status(frame) {
                    return Err(copy_str(e.code()));
                }
                let cseq = sip_frame::header_value(frame, "CSeq");
                if !headers::cseq_names(&cseq, "INVITE") {
                    let none: Vec<CallAction> = Vec::new();
                    assert(call::acts_of(none@) =~= seq![]);
                    return Ok(none);
                }
                Err(copy_str("vowifi_call_unknown"))
            },
            Some((i, c)) => {
                let mut c = c;
                let (r, goes_on) = c.handle_response(
                    call_id.as_str(),
                    frame,
                    link.ip_connect_mode,
                );
                if goes_on {
                    proof {
                        session::lemma_put_back(old(self)@.calls, call_id@, c@);
                        assert(self.calls@.len() == self@.calls.len());
                    }
                    self.put_back(i, call_id, c);
                }
                r
            },
        }
    }

    fn handle_dialog(
        &mut self,
        link: &LinkState,
        call_id: String,
        frame: &[u8],
        outside: Outside,
    ) -> (r: Result<Vec<CallAction>, String>)
        requires
            session::has_call(old(self)@.calls, call_id@),
        ensures
            (final(self)@, call::acts_outcome(r)) == dialog_step(
                old(self)@,
                *link,
                call_id@,
                frame@,
                outside,
            ),
    {
        if sip_frame::is_request(frame, "BYE") {
            return Ok(self.end_call(call_id, frame));
        }
        if sip_frame::is_request(frame, "CANCEL") {
            return Ok(self.cancel_call(call_id, frame));
        }
        if sip_frame::is_request(frame, "INFO") {
            let mut actions = sending(respond(frame, 200, "OK"));
            if let Some(signal) = outside.dtmf {
                push_action(
                    &mut actions,
                    CallAction::Event(OperatorEvent::Dtmf { call_id, signal }),
                );
            }
            assert(dialog_step(old(self)@, *link, call_id@, frame@, outside).1 matches Ok(acts)
                && acts =~= call::acts_of(actions@));
            return Ok(actions);
        }
        if begins_response(frame) {
            return self.handle_response(link, call_id, frame);
        }
        Ok(nothing())
    }

    fn handle_call_frame(&mut self, link: &LinkState, frame: &[u8], outside: Outside) -> (r: Result<
        Vec<CallAction>,
        String,
    >)
        ensures
            (final(self)@, call::acts_outcome(r)) == call_frame_step(
                old(self)@,
                *link,
                frame@,
                outside,
            ),
    {
        let ims_call_id = match sip_frame::header_value(frame, "Call-ID") {
            Some(id) => id,
            None => {
                return Ok(nothing());
            },
        };
        if sip_frame::is_request(frame, "OPTIONS") || sip_frame::is_request(frame, "MESSAGE") {
            return Ok(sending(respond(frame, 200, "OK")));
        }
        let name = match self.find_dialog(ims_call_id.as_str()) {
            Some(i) => {
                proof {
                    lemma_named(self@.calls, i as int);
                    assert(self@.calls[i as int] == self.calls@[i as int]@);
                }
                Some(copy_str(self.calls[i].id.as_str()))
            },
            None => None,
        };
        if sip_frame::is_request(frame, "INVITE") {
            return match name {
                Some(id) => self.begin_network_reinvite(link, id, frame, outside),
                None => self.begin_incoming_call(link, frame, ims_call_id.as_str(), outside),
            };
        }
        match name {
            Some(id) => self.handle_dialog(link, id, frame, outside),
            None => Ok(nothing()),
        }
    }

    /// Takes a frame of the network, given what it needs from outside. Relays
    /// are bound for it where `relay_need_for_frame` says so.
    pub fn handle_frame(&mut self, link: &LinkState, frame: &[u8], outside: Outside) -> (r: Result<
        FrameOutcome,
        String,
    >)
        ensures
            (final(self)@, frame_outcome(r)) == frame_step(
                old(self)@,
                *link,
                frame@,
                outside,
            ),
    {
        let classified = match &self.mwi_subscription {
            Some(sub) => classify_mwi_frame(frame, Some(sub.ids.call_id.as_str())),
            None => classify_mwi_frame(frame, None),
        };
        match classified {
            MwiIncomingFrame::Notify { response_status, summary } => {
                let reason = if response_status == 200 {
                    "OK"
                } else {
                    "Call/Transaction Does Not Exist"
                };
                let notice = if self.supplementary {
                    match summary {
                        Some(Ok(summary)) => Some(MwiNotice::Update(summary)),
                        Some(Err(e)) => Some(MwiNotice::Failed(e.code())),
                        None => None,
                    }
                } else {
                    None
                };
                Ok(
                    FrameOutcome {
                        actions: sending(respond(frame, response_status, reason)),
                        notice,
                    },
                )
            },
            MwiIncomingFrame::SubscribeResponse { status, to_tag } => {
                if !self.supplementary {
                    return Ok(FrameOutcome { actions: nothing(), notice: None });
                }
                let status: u16 = match status {
                    Ok(status) => status,
                    Err(_) => 0,
                };
                let notice = if status >= 200 && status <= 299 {
                    match (self.mwi_subscription.take(), to_tag) {
                        (Some(sub), Some(tag)) => {
                            let mut sub = sub;
                            sub.ids.to_tag = Some(tag);
                            self.mwi_subscription = Some(sub);
                        },
                        (sub, _) => {
                            self.mwi_subscription = sub;
                        },
                    }
                    MwiNotice::Subscribed
                } else if status == 401 || status == 407 {
                    MwiNotice::Failed("mwi_subscribe_authentication_required")
                } else {
                    MwiNotice::Failed("mwi_subscribe_rejected")
                };
                Ok(FrameOutcome { actions: nothing(), notice: Some(notice) })
            },
            MwiIncomingFrame::Other => match self.handle_call_frame(link, frame, outside) {
                Ok(actions) => Ok(FrameOutcome { actions, notice: None }),
                Err(e) => Err(e),
            },
        }
    }
}

/// A call that stands in the session can be found by its name.
proof fn lemma_named(calls: Seq<session::Entry>, i: int)
    requires
        0 <= i < calls.len(),
    ensures
        session::has_call(calls, calls[i].id),
{
    session::lemma_index(calls, calls[i].id, 0);
}

// --------------------------------------------------------- the relays of a frame

pub open spec fn frame_need(s: session::Session, link: LinkState, frame: Seq<u8>) -> RelayNeed {
    let offer = network_offer(sip_frame::body_of(frame));
    if !(supplementary::mwi_frame(frame, subscription_id(s)) is Other) {
        RelayNeed::Nothing
    } else if sip_frame::header_of(frame, "Call-ID"@) is None || !sip_frame::request_is(
        frame,
        "INVITE"@,
    ) || sip_frame::request_is(frame, "OPTIONS"@) || sip_frame::request_is(frame, "MESSAGE"@) {
        RelayNeed::Nothing
    } else {
        let taken = match session::named_by_dialog(
            s.calls,
            sip_frame::header_of(frame, "Call-ID"@)->0,
        ) {
            Some(id) => link.trunk_local_ip is Some && !call::busy(
                session::call_of(s.calls, id),
            ),
            None => link.trunk_local_ip is Some && link.available,
        };
        match offer {
            Ok(offer) => if !taken || (offer.video is Some && !link.video_enabled) {
                RelayNeed::Nothing
            } else {
                session::need_for(offer.video is Some)
            },
            Err(_) => RelayNeed::Nothing,
        }
    }
}

impl VoiceSession {
    pub fn relay_need_for_frame(&self, link: &LinkState, frame: &[u8]) -> (r: RelayNeed)
        ensures
            r == frame_need(self@, *link, frame@),
    {
        let classified = match &self.mwi_subscription {
            Some(sub) => classify_mwi_frame(frame, Some(sub.ids.call_id.as_str())),
            None => classify_mwi_frame(frame, None),
        };
        match classified {
            MwiIncomingFrame::Other => {},
            _ => {
                return RelayNeed::Nothing;
            },
        }
        let ims_call_id = match sip_frame::header_value(frame, "Call-ID") {
            Some(id) => id,
            None => {
                return RelayNeed::Nothing;
            },
        };
        if !sip_frame::is_request(frame, "INVITE") || sip_frame::is_request(frame, "OPTIONS")
            || sip_frame::is_request(frame, "MESSAGE") {
            return RelayNeed::Nothing;
        }
        let taken: bool = match self.find_dialog(ims_call_id.as_str()) {
            Some(i) => {
                proof {
                    lemma_named(self@.calls, i as int);
                    assert(self@.calls[i as int] == self.calls@[i as int]@);
                }
                let at: usize = self.find_call(self.calls[i].id.as_str());
                assert(self@.calls[at as int] == self.calls@[at as int]@);
                let c = &self.calls[at].call;
                link.trunk_local_ip.is_some() && !(c.pending_network_reinvite.is_some()
                    || c.pending_trunk_reinvite)
            },
            None => link.trunk_local_ip.is_some() && link.available,
        };
        match read_network_offer(sip_frame::body(frame)) {
            Ok(offer) => {
                let video: bool = offer.video.is_some();
                if !taken || (video && !link.video_enabled) {
                    return RelayNeed::Nothing;
                }
                need_of(video)
            },
            Err(_) => RelayNeed::Nothing,
        }
    }
}

/// Between which addresses the relays of a frame stand, where it needs any.
pub open spec fn frame_addrs(s: session::Session, link: LinkState, frame: Seq<u8>) -> Option<
    RelayAddrs,
> {
    match link.trunk_local_ip {
        Some(trunk) if !(frame_need(s, link, frame) is Nothing) => Some(
            RelayAddrs { operator: s.context.route.local_addr.ip, trunk },
        ),
        _ => None,
    }
}

impl VoiceSession {
    /// Between which addresses the relays of a frame are to be bound. There are
    /// addresses just where a relay is needed.
    pub fn relay_addrs_for_frame(&self, link: &LinkState, frame: &[u8]) -> (r: Option<RelayAddrs>)
        ensures
            r == frame_addrs(self@, *link, frame@),
            r is None <==> frame_need(self@, *link, frame@) is Nothing,
    {
        match self.relay_need_for_frame(link, frame) {
            RelayNeed::Nothing => None,
            _ => match link.trunk_local_ip {
                Some(trunk) => Some(
                    RelayAddrs { operator: self.context.route.local_addr.ip, trunk },
                ),
                None => None,
            },
        }
    }
}

// ------------------------------------------------------------------------- laws

/// A frame for which no relay is to be bound goes the same way whatever was
/// bound.
pub proof fn law_unneeded_relays_do_not_matter(
    s: session::Session,
    link: LinkState,
    frame: Seq<u8>,
    o: Outside,
    audio: Result<RelayPair, String>,
    video: Result<RelayPair, String>,
)
    requires
        frame_need(s, link, frame) is Nothing,
    ensures
        frame_step(s, link, frame, o) == frame_step(s, link, frame, Outside { audio, video, ..o }),
{
}

/// No frame gives two calls of a session the same name.
pub proof fn law_frames_keep_names_distinct(
    s: session::Session,
    link: LinkState,
    frame: Seq<u8>,
    o: Outside,
)
    requires
        session::distinct(s.calls),
    ensures
        session::distinct(frame_step(s, link, frame, o).0.calls),
{
    match sip_frame::header_of(frame, "Call-ID"@) {
        Some(ims_call_id) => {
            let id = "vowifi-"@ + o.token@;
            session::lemma_with_call_distinct(s.calls, id);
            match session::named_by_dialog(s.calls, ims_call_id) {
                Some(name) => {
                    session::lemma_with_call_distinct(s.calls, name);
                    session::lemma_without_call_distinct(s.calls, name);
                },
                None => {},
            }
        },
        None => {},
    }
}

/// No command gives two calls of a session the same name.
pub proof fn law_commands_keep_names_distinct(
    s: session::Session,
    link: LinkState,
    command: OperatorCommand,
    o: Outside,
)
    requires
        session::distinct(s.calls),
    ensures
        session::distinct(handled_command(s, link, command, o).0.calls),
{
    session::lemma_with_call_distinct(s.calls, command.id());
    session::lemma_without_call_distinct(s.calls, command.id());
    let (next, _) = session::command_step(s, link, command, o);
    session::lemma_without_call_distinct(next.calls, command.id());
}

/// A call that the trunk hangs up or cancels is gone, and exactly one message
/// tells the far end.
pub proof fn law_hangup_ends_the_call(
    s: session::Session,
    link: LinkState,
    command: OperatorCommand,
    o: Outside,
)
    requires
        session::distinct(s.calls),
        session::has_call(s.calls, command.id()),
        command is HangupCall || command is CancelCall,
    ensures
        !session::has_call(handled_command(s, link, command, o).0.calls, command.id()),
        handled_command(s, link, command, o).1 is Some,
        handled_command(s, link, command, o).2 is None,
{
    session::lemma_gone(s.calls, command.id());
}

/// While one change of a call's media is under way, no other begins: the trunk
/// is refused with 488 and the network with 491, and nothing changes.
pub proof fn law_one_change_at_a_time(
    s: session::Session,
    link: LinkState,
    command: OperatorCommand,
    frame: Seq<u8>,
    o: Outside,
)
    requires
        session::has_call(s.calls, command.id()),
        call::busy(session::call_of(s.calls, command.id())),
        command is Renegotiate,
        link.trunk_local_ip is Some,
    ensures
        handled_command(s, link, command, o) == (
            s,
            None::<call::Frame>,
            Some(call::Event::Rejected { call_id: command.id(), status: 488 }),
        ),
        reinvite_step(s, link, command.id(), frame, o) == (
            s,
            Ok::<_, Seq<char>>(rejection(frame, 491)),
        ),
{
    let id = command.id();
    session::lemma_index(s.calls, id, 0);
    assert(session::with_call(s.calls, id, session::call_of(s.calls, id)) =~= s.calls);
}

} // verus!
