//! One voice call: its dialog, its media, and what commands and responses make
//! of it.

use crate::net::SocketAddr;
use crate::operator::media::{CallMedia, DtmfSignal, MediaOffer};
use crate::operator::{headers, media};
use crate::sdp::copy_str;
use crate::{sip_frame, text};
use vstd::prelude::*;

verus! {

/// What tells a dialog apart.
#[derive(Debug, PartialEq, Eq)]
pub struct DialogIds {
    pub call_id: String,
    pub local_tag: String,
    pub remote_tag: Option<String>,
    pub cseq: u32,
}

pub struct Dialog {
    pub call_id: Seq<char>,
    pub local_tag: Seq<char>,
    pub remote_tag: Option<Seq<char>>,
    pub cseq: u32,
}

impl View for DialogIds {
    type V = Dialog;

    open spec fn view(&self) -> Dialog {
        Dialog {
            call_id: self.call_id@,
            local_tag: self.local_tag@,
            remote_tag: text::opt_text(self.remote_tag),
            cseq: self.cseq,
        }
    }
}

impl DialogIds {
    pub fn copy(&self) -> (r: Self)
        ensures
            r@ == self@,
    {
        DialogIds {
            call_id: copy_str(self.call_id.as_str()),
            local_tag: copy_str(self.local_tag.as_str()),
            remote_tag: crate::sdp::copy_text(&self.remote_tag),
            cseq: self.cseq,
        }
    }

    pub fn set_remote_tag(&mut self, tag: String)
        ensures
            final(self)@ == (Dialog { remote_tag: Some(tag@), ..old(self)@ }),
    {
        self.remote_tag = Some(tag);
    }
}

#[derive(Debug, PartialEq, Eq)]
pub struct VoiceCall {
    pub dialog: DialogIds,
    pub remote_uri: String,
    pub invite_branch: String,
    pub initial_invite: Option<Vec<u8>>,
    pub media: CallMedia,
    pub next_cseq: u32,
    pub pending_network_reinvite: Option<Vec<u8>>,
    pub pending_trunk_reinvite: bool,
    pub operator_answered: bool,
}

/// A call as a value.
pub struct Call {
    pub dialog: Dialog,
    pub remote_uri: Seq<char>,
    pub branch: Seq<char>,
    pub invite: Option<Seq<u8>>,
    pub media: media::Media,
    pub next_cseq: u32,
    pub network_reinvite: Option<Seq<u8>>,
    pub trunk_reinvite: bool,
    pub answered: bool,
}

pub open spec fn opt_bytes(o: Option<Vec<u8>>) -> Option<Seq<u8>> {
    match o {
        Some(v) => Some(v@),
        None => None,
    }
}

impl View for VoiceCall {
    type V = Call;

    open spec fn view(&self) -> Call {
        Call {
            dialog: self.dialog@,
            remote_uri: self.remote_uri@,
            branch: self.invite_branch@,
            invite: opt_bytes(self.initial_invite),
            media: self.media@,
            next_cseq: self.next_cseq,
            network_reinvite: opt_bytes(self.pending_network_reinvite),
            trunk_reinvite: self.pending_trunk_reinvite,
            answered: self.operator_answered,
        }
    }
}

/// A SIP message to be sent on the registered channel.
#[derive(Debug, PartialEq, Eq)]
pub enum SipFrame {
    Invite { dialog: DialogIds, remote_uri: String, body: String },
    Reinvite { dialog: DialogIds, remote_uri: String, body: String },
    Cancel { dialog: DialogIds, remote_uri: String, branch: String },
    Bye { dialog: DialogIds, remote_uri: String, cseq: u32 },
    Ack { dialog: DialogIds, remote_uri: String },
    Prack { dialog: DialogIds, remote_uri: String, cseq: u32, rseq: u32, invite_cseq: u32 },
    Info { dialog: DialogIds, remote_uri: String, cseq: u32, signal: DtmfSignal },
    Response {
        request: Vec<u8>,
        status: u16,
        reason: &'static str,
        tag: Option<String>,
        contact: Option<String>,
        body: Option<String>,
    },
}

/// A SIP message as a value.
pub enum Frame {
    Invite { dialog: Dialog, remote_uri: Seq<char>, body: Seq<char> },
    Reinvite { dialog: Dialog, remote_uri: Seq<char>, body: Seq<char> },
    Cancel { dialog: Dialog, remote_uri: Seq<char>, branch: Seq<char> },
    Bye { dialog: Dialog, remote_uri: Seq<char>, cseq: u32 },
    Ack { dialog: Dialog, remote_uri: Seq<char> },
    Prack { dialog: Dialog, remote_uri: Seq<char>, cseq: u32, rseq: u32, invite_cseq: u32 },
    Info { dialog: Dialog, remote_uri: Seq<char>, cseq: u32, signal: DtmfSignal },
    Response {
        request: Seq<u8>,
        status: u16,
        reason: Seq<char>,
        tag: Option<Seq<char>>,
        contact: Option<Seq<char>>,
        body: Option<Seq<char>>,
    },
}

impl View for SipFrame {
    type V = Frame;

    open spec fn view(&self) -> Frame {
        match self {
            SipFrame::Invite { dialog, remote_uri, body } => Frame::Invite {
                dialog: dialog@,
                remote_uri: remote_uri@,
                body: body@,
            },
            SipFrame::Reinvite { dialog, remote_uri, body } => Frame::Reinvite {
                dialog: dialog@,
                remote_uri: remote_uri@,
                body: body@,
            },
            SipFrame::Cancel { dialog, remote_uri, branch } => Frame::Cancel {
                dialog: dialog@,
                remote_uri: remote_uri@,
                branch: branch@,
            },
            SipFrame::Bye { dialog, remote_uri, cseq } => Frame::Bye {
                dialog: dialog@,
                remote_uri: remote_uri@,
                cseq: *cseq,
            },
            SipFrame::Ack { dialog, remote_uri } => Frame::Ack {
                dialog: dialog@,
                remote_uri: remote_uri@,
            },
            SipFrame::Prack { dialog, remote_uri, cseq, rseq, invite_cseq } => Frame::Prack {
                dialog: dialog@,
                remote_uri: remote_uri@,
                cseq: *cseq,
                rseq: *rseq,
                invite_cseq: *invite_cseq,
            },
            SipFrame::Info { dialog, remote_uri, cseq, signal } => Frame::Info {
                dialog: dialog@,
                remote_uri: remote_uri@,
                cseq: *cseq,
                signal: *signal,
            },
            SipFrame::Response { request, status, reason, tag, contact, body } => Frame::Response {
                request: request@,
                status: *status,
                reason: reason@,
                tag: text::opt_text(*tag),
                contact: text::opt_text(*contact),
                body: text::opt_text(*body),
            },
        }
    }
}

/// What the trunk is told.
#[derive(Debug, PartialEq, Eq)]
pub enum OperatorEvent {
    Unavailable { call_id: String },
    Rejected { call_id: String, status: u16 },
    Provisional { call_id: String, status: u16, body: Option<String> },
    Answered { call_id: String, body: String },
    Ended { call_id: String },
    Cancelled { call_id: String },
    Dtmf { call_id: String, signal: DtmfSignal },
    Incoming { call_id: String, caller: String, body: String },
    Renegotiate { call_id: String, body: String },
}

/// What the trunk is told, as a value.
pub enum Event {
    Unavailable { call_id: Seq<char> },
    Rejected { call_id: Seq<char>, status: u16 },
    Provisional { call_id: Seq<char>, status: u16, body: Option<Seq<char>> },
    Answered { call_id: Seq<char>, body: Seq<char> },
    Ended { call_id: Seq<char> },
    Cancelled { call_id: Seq<char> },
    Dtmf { call_id: Seq<char>, signal: DtmfSignal },
    Incoming { call_id: Seq<char>, caller: Seq<char>, body: Seq<char> },
    Renegotiate { call_id: Seq<char>, body: Seq<char> },
}

impl View for OperatorEvent {
    type V = Event;

    open spec fn view(&self) -> Event {
        match self {
            OperatorEvent::Unavailable { call_id } => Event::Unavailable { call_id: call_id@ },
            OperatorEvent::Rejected { call_id, status } => Event::Rejected {
                call_id: call_id@,
                status: *status,
            },
            OperatorEvent::Provisional { call_id, status, body } => Event::Provisional {
                call_id: call_id@,
                status: *status,
                body: text::opt_text(*body),
            },
            OperatorEvent::Answered { call_id, body } => Event::Answered {
                call_id: call_id@,
                body: body@,
            },
            OperatorEvent::Ended { call_id } => Event::Ended { call_id: call_id@ },
            OperatorEvent::Cancelled { call_id } => Event::Cancelled { call_id: call_id@ },
            OperatorEvent::Dtmf { call_id, signal } => Event::Dtmf {
                call_id: call_id@,
                signal: *signal,
            },
            OperatorEvent::Incoming { call_id, caller, body } => Event::Incoming {
                call_id: call_id@,
                caller: caller@,
                body: body@,
            },
            OperatorEvent::Renegotiate { call_id, body } => Event::Renegotiate {
                call_id: call_id@,
                body: body@,
            },
        }
    }
}

/// When a call that is answered counts as connected.
#[derive(Debug, Clone, Copy, PartialEq, Eq, Structural)]
pub enum TrunkIpConnectMode {
    Immediate,
    FirstRtp,
}

/// What a call's step asks for.
#[derive(Debug, PartialEq, Eq)]
pub enum CallAction {
    Send(SipFrame),
    Event(OperatorEvent),
    /// Report the call answered once the relay has heard from the operator.
    AnswerOnFirstRtp { call_id: String, relay: u64, body: String },
}

pub enum Act {
    Send(Frame),
    Event(Event),
    AnswerOnFirstRtp { call_id: Seq<char>, relay: u64, body: Seq<char> },
}

impl View for CallAction {
    type V = Act;

    open spec fn view(&self) -> Act {
        match self {
            CallAction::Send(frame) => Act::Send(frame@),
            CallAction::Event(event) => Act::Event(event@),
            CallAction::AnswerOnFirstRtp { call_id, relay, body } => Act::AnswerOnFirstRtp {
                call_id: call_id@,
                relay: *relay,
                body: body@,
            },
        }
    }
}

pub open spec fn acts_of(v: Seq<CallAction>) -> Seq<Act> {
    Seq::new(v.len(), |i: int| v[i]@)
}

pub fn push_action(actions: &mut Vec<CallAction>, action: CallAction)
    ensures
        acts_of(final(actions)@) == acts_of(old(actions)@).push(action@),
{
    let ghost known = acts_of(actions@);
    let ghost value = action@;
    actions.push(action);
    assert(acts_of(actions@) =~= known.push(value));
}

/// The next number, which stays at the highest.
pub open spec fn after_cseq(n: u32) -> u32 {
    if n < u32::MAX {
        (n + 1) as u32
    } else {
        n
    }
}

pub fn next_number(n: u32) -> (r: u32)
    ensures
        r == after_cseq(n),
{
    if n < u32::MAX {
        n + 1
    } else {
        n
    }
}

pub open spec fn opt_frame(o: Option<SipFrame>) -> Option<Frame> {
    match o {
        Some(f) => Some(f@),
        None => None,
    }
}

pub open spec fn step_outcome(r: Result<Option<SipFrame>, String>) -> Result<
    Option<Frame>,
    Seq<char>,
> {
    match r {
        Ok(f) => Ok(opt_frame(f)),
        Err(e) => Err(e@),
    }
}

pub fn copy_bytes(v: &Vec<u8>) -> (r: Vec<u8>)
    ensures
        r@ == v@,
{
    crate::net::to_bytes(v.as_slice())
}

// ------------------------------------------------------------ commands on a call

/// A response to the INVITE that opened a call.
pub open spec fn answer_frame(
    request: Seq<u8>,
    status: u16,
    reason: Seq<char>,
    tag: Seq<char>,
    contact: Option<Seq<char>>,
    body: Option<Seq<char>>,
) -> Frame {
    Frame::Response { request, status, reason, tag: Some(tag), contact, body }
}

/// Ends the signalling of a call: with BYE once the far end has a tag, and with
/// CANCEL before.
pub open spec fn hangup_frame(c: Call) -> Frame {
    if c.dialog.remote_tag is Some {
        Frame::Bye { dialog: c.dialog, remote_uri: c.remote_uri, cseq: c.next_cseq }
    } else {
        cancel_frame(c)
    }
}

pub open spec fn cancel_frame(c: Call) -> Frame {
    Frame::Cancel { dialog: c.dialog, remote_uri: c.remote_uri, branch: c.branch }
}

pub open spec fn dtmf_step(c: Call, signal: DtmfSignal) -> (Call, Frame) {
    (
        Call { next_cseq: after_cseq(c.next_cseq), ..c },
        Frame::Info { dialog: c.dialog, remote_uri: c.remote_uri, cseq: c.next_cseq, signal },
    )
}

/// The local ends of a relay.
#[derive(Debug, Clone, Copy, PartialEq, Eq, Structural)]
pub struct RelayPair {
    pub relay: u64,
    pub operator_local: SocketAddr,
    pub internal_local: SocketAddr,
}

/// A call whose media is offered anew.
pub open spec fn with_offer(
    m: media::Media,
    offer: media::Offer,
    audio: RelayPair,
    video: Option<RelayPair>,
) -> media::Media {
    media::Media {
        offer,
        operator_local: audio.operator_local,
        internal_local: audio.internal_local,
        pending: Some(audio.relay),
        pending_video: match video {
            Some(v) => Some(v.relay),
            None => None,
        },
        operator_video_local: match video {
            Some(v) => Some(v.operator_local),
            None => None,
        },
        internal_video_local: match video {
            Some(v) => Some(v.internal_local),
            None => None,
        },
        ..m
    }
}

/// Is a change of the call's media under way?
pub open spec fn busy(c: Call) -> bool {
    c.network_reinvite is Some || c.trunk_reinvite
}

/// The trunk wants other media: a re-INVITE, unless one is under way.
pub open spec fn renegotiate_step(
    c: Call,
    offer: media::Offer,
    audio: RelayPair,
    video: Option<RelayPair>,
) -> (Call, Result<Option<Frame>, Seq<char>>) {
    if busy(c) {
        (c, Err("vowifi_reinvite_pending"@))
    } else {
        let next = Call {
            dialog: Dialog { cseq: c.next_cseq, ..c.dialog },
            next_cseq: after_cseq(c.next_cseq),
            media: with_offer(c.media, offer, audio, video),
            trunk_reinvite: true,
            ..c
        };
        (
            next,
            Ok(
                Some(
                    Frame::Reinvite {
                        dialog: next.dialog,
                        remote_uri: next.remote_uri,
                        body: media::relay_media_text(
                            offer,
                            next.media.operator_local,
                            next.media.operator_video_local,
                        ),
                    },
                ),
            ),
        )
    }
}

/// The trunk answers an incoming call: a final response, once.
pub open spec fn accept_step(c: Call, body: Seq<u8>, contact: Seq<char>) -> (
    Call,
    Result<Option<Frame>, Seq<char>>,
) {
    let (m, answer) = media::incoming_media(c.media, body);
    let c = Call { media: m, ..c };
    match answer {
        Err(e) => (c, Err(e)),
        Ok(answer) => if c.answered {
            (c, Ok(None))
        } else {
            let c = Call { answered: true, ..c };
            match c.invite {
                None => (c, Err("vowifi_incoming_invite_missing"@)),
                Some(request) => (
                    c,
                    Ok(
                        Some(
                            answer_frame(
                                request,
                                200,
                                "OK"@,
                                c.dialog.local_tag,
                                Some(contact),
                                Some(answer),
                            ),
                        ),
                    ),
                ),
            }
        },
    }
}

/// The trunk reports progress on an incoming call.
pub open spec fn provisional_step(
    c: Call,
    status: u16,
    body: Option<Seq<u8>>,
    contact: Seq<char>,
) -> (Call, Result<Option<Frame>, Seq<char>>) {
    let (m, answer) = match body {
        Some(b) => {
            let (m, r) = media::incoming_media(c.media, b);
            match r {
                Ok(answer) => (m, Ok(Some(answer))),
                Err(e) => (m, Err(e)),
            }
        },
        None => (c.media, Ok(None)),
    };
    let c = Call { media: m, ..c };
    match answer {
        Err(e) => (c, Err(e)),
        Ok(answer) => match c.invite {
            None => (c, Err("vowifi_incoming_invite_missing"@)),
            Some(request) => (
                c,
                Ok(
                    Some(
                        answer_frame(
                            request,
                            status,
                            headers::reason_of(status),
                            c.dialog.local_tag,
                            Some(contact),
                            answer,
                        ),
                    ),
                ),
            ),
        },
    }
}

/// The trunk accepts the operator's re-INVITE.
pub open spec fn accept_change_step(c: Call, body: Seq<u8>, contact: Seq<char>) -> (
    Call,
    Result<Option<Frame>, Seq<char>>,
) {
    let (m, answer) = media::incoming_media(c.media, body);
    let c = Call { media: m, ..c };
    match answer {
        Err(e) => (c, Err(e)),
        Ok(answer) => match c.network_reinvite {
            None => (c, Err("vowifi_network_reinvite_missing"@)),
            Some(request) => (
                Call { network_reinvite: None, ..c },
                Ok(
                    Some(
                        answer_frame(
                            request,
                            200,
                            "OK"@,
                            c.dialog.local_tag,
                            Some(contact),
                            Some(answer),
                        ),
                    ),
                ),
            ),
        },
    }
}

/// The trunk refuses the operator's re-INVITE: the media stays as it is.
pub open spec fn reject_change_step(c: Call, status: u16) -> (
    Call,
    Result<Option<Frame>, Seq<char>>,
) {
    match c.network_reinvite {
        None => (c, Err("vowifi_network_reinvite_missing"@)),
        Some(request) => (
            Call {
                network_reinvite: None,
                media: media::Media { pending: None, pending_video: None, ..c.media },
                ..c
            },
            Ok(
                Some(
                    answer_frame(
                        request,
                        status,
                        headers::reason_of(status),
                        c.dialog.local_tag,
                        None,
                        None,
                    ),
                ),
            ),
        ),
    }
}

impl VoiceCall {
    pub fn cancel(&self) -> (r: SipFrame)
        ensures
            r@ == cancel_frame(self@),
    {
        SipFrame::Cancel {
            dialog: self.dialog.copy(),
            remote_uri: copy_str(self.remote_uri.as_str()),
            branch: copy_str(self.invite_branch.as_str()),
        }
    }

    pub fn hang_up(&self) -> (r: SipFrame)
        ensures
            r@ == hangup_frame(self@),
    {
        if self.dialog.remote_tag.is_some() {
            SipFrame::Bye {
                dialog: self.dialog.copy(),
                remote_uri: copy_str(self.remote_uri.as_str()),
                cseq: self.next_cseq,
            }
        } else {
            self.cancel()
        }
    }

    pub fn send_dtmf(&mut self, signal: DtmfSignal) -> (r: SipFrame)
        ensures
            (final(self)@, r@) == dtmf_step(old(self)@, signal),
    {
        let cseq: u32 = self.next_cseq;
        self.next_cseq = next_number(self.next_cseq);
        SipFrame::Info {
            dialog: self.dialog.copy(),
            remote_uri: copy_str(self.remote_uri.as_str()),
            cseq,
            signal,
        }
    }

    pub fn response(
        &self,
        request: &Vec<u8>,
        status: u16,
        reason: &'static str,
        contact: Option<String>,
        body: Option<String>,
    ) -> (r: SipFrame)
        ensures
            r@ == answer_frame(
                request@,
                status,
                reason@,
                self@.dialog.local_tag,
                text::opt_text(contact),
                text::opt_text(body),
            ),
    {
        SipFrame::Response {
            request: copy_bytes(request),
            status,
            reason,
            tag: Some(copy_str(self.dialog.local_tag.as_str())),
            contact,
            body,
        }
    }

    pub fn offer_anew(&mut self, offer: MediaOffer, audio: RelayPair, video: Option<RelayPair>)
        ensures
            final(self)@ == (Call {
                media: with_offer(old(self)@.media, offer@, audio, video),
                ..old(self)@
            }),
    {
        self.media.internal_offer = offer;
        self.media.operator_local = audio.operator_local;
        self.media.internal_local = audio.internal_local;
        self.media.pending_relay = Some(audio.relay);
        match video {
            Some(v) => {
                self.media.pending_video_relay = Some(v.relay);
                self.media.operator_video_local = Some(v.operator_local);
                self.media.internal_video_local = Some(v.internal_local);
            },
            None => {
                self.media.pending_video_relay = None;
                self.media.operator_video_local = None;
                self.media.internal_video_local = None;
            },
        }
    }

    pub fn renegotiate(
        &mut self,
        offer: MediaOffer,
        audio: RelayPair,
        video: Option<RelayPair>,
    ) -> (r: Result<Option<SipFrame>, String>)
        ensures
            (final(self)@, step_outcome(r)) == renegotiate_step(
                old(self)@,
                offer@,
                audio,
                video,
            ),
    {
        if self.pending_network_reinvite.is_some() || self.pending_trunk_reinvite {
            return Err(copy_str("vowifi_reinvite_pending"));
        }
        self.dialog.cseq = self.next_cseq;
        self.next_cseq = next_number(self.next_cseq);
        self.offer_anew(offer, audio, video);
        self.pending_trunk_reinvite = true;
        let body = media::relay_media_sdp(
            &self.media.internal_offer,
            self.media.operator_local,
            self.media.operator_video_local,
        );
        Ok(
            Some(
                SipFrame::Reinvite {
                    dialog: self.dialog.copy(),
                    remote_uri: copy_str(self.remote_uri.as_str()),
                    body,
                },
            ),
        )
    }

    pub fn accept(&mut self, body: &[u8], contact: String) -> (r: Result<Option<SipFrame>, String>)
        ensures
            (final(self)@, step_outcome(r)) == accept_step(old(self)@, body@, contact@),
    {
        let answer = match self.media.prepare_incoming_media(body) {
            Ok(answer) => answer,
            Err(e) => {
                return Err(e);
            },
        };
        if self.operator_answered {
            return Ok(None);
        }
        self.operator_answered = true;
        match &self.initial_invite {
            None => Err(copy_str("vowifi_incoming_invite_missing")),
            Some(request) => Ok(
                Some(self.response(request, 200, "OK", Some(contact), Some(answer))),
            ),
        }
    }

    pub fn report_provisional(
        &mut self,
        status: u16,
        body: &Option<Vec<u8>>,
        contact: String,
    ) -> (r: Result<Option<SipFrame>, String>)
        ensures
            (final(self)@, step_outcome(r)) == provisional_step(
                old(self)@,
                status,
                opt_bytes(*body),
                contact@,
            ),
    {
        let answer = match body {
            Some(body) => match self.media.prepare_incoming_media(body.as_slice()) {
                Ok(answer) => Some(answer),
                Err(e) => {
                    return Err(e);
                },
            },
            None => None,
        };
        match &self.initial_invite {
            None => Err(copy_str("vowifi_incoming_invite_missing")),
            Some(request) => Ok(
                Some(
                    self.response(
                        request,
                        status,
                        headers::sip_reason(status),
                        Some(contact),
                        answer,
                    ),
                ),
            ),
        }
    }

    pub fn accept_renegotiation(&mut self, body: &[u8], contact: String) -> (r: Result<
        Option<SipFrame>,
        String,
    >)
        ensures
            (final(self)@, step_outcome(r)) == accept_change_step(old(self)@, body@, contact@),
    {
        let answer = match self.media.prepare_incoming_media(body) {
            Ok(answer) => answer,
            Err(e) => {
                return Err(e);
            },
        };
        match self.pending_network_reinvite.take() {
            None => Err(copy_str("vowifi_network_reinvite_missing")),
            Some(request) => Ok(
                Some(self.response(&request, 200, "OK", Some(contact), Some(answer))),
            ),
        }
    }

    pub fn reject_renegotiation(&mut self, status: u16) -> (r: Result<Option<SipFrame>, String>)
        ensures
            (final(self)@, step_outcome(r)) == reject_change_step(old(self)@, status),
    {
        match self.pending_network_reinvite.take() {
            None => Err(copy_str("vowifi_network_reinvite_missing")),
            Some(request) => {
                self.media.pending_relay = None;
                self.media.pending_video_relay = None;
                Ok(
                    Some(
                        self.response(&request, status, headers::sip_reason(status), None, None),
                    ),
                )
            },
        }
    }
}

// ------------------------------------------------------------ responses to INVITE

/// The number of a reliable provisional response.
pub open spec fn reliable_number(frame: Seq<u8>) -> Option<u32> {
    let required = match sip_frame::header_of(frame, "Require"@) {
        Some(value) => sip_frame::part_alike(value, ',', "100rel"@),
        None => false,
    };
    if required {
        match sip_frame::header_of(frame, "RSeq"@) {
            Some(value) => match text::unsigned(text::trim(value), u32::MAX as nat) {
                Some(n) => Some(n as u32),
                None => None,
            },
            None => None,
        }
    } else {
        None
    }
}

fn read_reliable_number(frame: &[u8]) -> (r: Option<u32>)
    ensures
        r == reliable_number(frame@),
{
    let required: bool = match sip_frame::header_value(frame, "Require") {
        Some(value) => {
            let chars = text::chars_of(value.as_str());
            sip_frame::has_part(chars.as_slice(), ',', "100rel")
        },
        None => false,
    };
    if !required {
        return None;
    }
    match sip_frame::header_value(frame, "RSeq") {
        Some(value) => {
            let chars = text::chars_of(value.as_str());
            text::parse_u32(text::trimmed(chars.as_slice()))
        },
        None => None,
    }
}

/// The call with the far end's tag of a response.
pub open spec fn tagged(c: Call, frame: Seq<u8>) -> Call {
    match headers::to_tag_of(frame) {
        Some(tag) => Call { dialog: Dialog { remote_tag: Some(tag), ..c.dialog }, ..c },
        None => c,
    }
}

pub open spec fn progress_step(c: Call, id: Seq<char>, status: u16, frame: Seq<u8>) -> (
    Call,
    Result<Seq<Act>, Seq<char>>,
) {
    let body = sip_frame::body_of(frame);
    let (m, answer) = if body.len() > 0 {
        let (m, r) = media::operator_media(c.media, body);
        match r {
            Ok(answer) => (m, Ok(Some(answer))),
            Err(e) => (m, Err(e)),
        }
    } else {
        (c.media, Ok(None))
    };
    let c = Call { media: m, ..c };
    match answer {
        Err(e) => (c, Err(e)),
        Ok(answer) => {
            let event = Act::Event(Event::Provisional { call_id: id, status, body: answer });
            match reliable_number(frame) {
                Some(rseq) => (
                    Call { next_cseq: after_cseq(c.next_cseq), ..c },
                    Ok(
                        seq![
                            Act::Send(
                                Frame::Prack {
                                    dialog: c.dialog,
                                    remote_uri: c.remote_uri,
                                    cseq: c.next_cseq,
                                    rseq,
                                    invite_cseq: c.dialog.cseq,
                                },
                            ),
                            event,
                        ],
                    ),
                ),
                None => (c, Ok(seq![event])),
            }
        },
    }
}

pub open spec fn answered_step(
    c: Call,
    id: Seq<char>,
    frame: Seq<u8>,
    mode: TrunkIpConnectMode,
) -> (Call, Result<Seq<Act>, Seq<char>>) {
    let (m, answer) = media::operator_media(c.media, sip_frame::body_of(frame));
    let c = Call { media: m, ..c };
    match answer {
        Err(e) => (c, Err(e)),
        Ok(answer) => {
            let ack = Act::Send(Frame::Ack { dialog: c.dialog, remote_uri: c.remote_uri });
            let report = match m.active {
                Some(active) => if !c.trunk_reinvite && mode is FirstRtp {
                    Act::AnswerOnFirstRtp { call_id: id, relay: active.relay, body: answer }
                } else {
                    Act::Event(Event::Answered { call_id: id, body: answer })
                },
                None => Act::Event(Event::Answered { call_id: id, body: answer }),
            };
            (Call { answered: true, trunk_reinvite: false, ..c }, Ok(seq![ack, report]))
        },
    }
}

/// A call whose INVITE was refused; `None` where that ends the call.
pub open spec fn refused_call(c: Call) -> Option<Call> {
    if c.trunk_reinvite {
        Some(
            Call {
                trunk_reinvite: false,
                media: media::Media { pending: None, pending_video: None, ..c.media },
                ..c
            },
        )
    } else {
        None
    }
}

/// What a response makes of a call, and what is to be done about it.
pub open spec fn response_step(
    c: Call,
    id: Seq<char>,
    frame: Seq<u8>,
    mode: TrunkIpConnectMode,
) -> (Option<Call>, Result<Seq<Act>, Seq<char>>) {
    match sip_frame::status_of(frame) {
        None => (Some(c), Err("ims_sip_status_invalid"@)),
        Some(n) => {
            let status = n as u16;
            let tagged_call = tagged(c, frame);
            if !text::alike(
                headers::method_in(sip_frame::header_of(frame, "CSeq"@)),
                "INVITE"@,
            ) {
                (Some(c), Ok(seq![]))
            } else if 100 <= status < 200 {
                let (next, r) = progress_step(tagged_call, id, status, frame);
                (Some(next), r)
            } else if 200 <= status < 300 {
                let (next, r) = answered_step(tagged_call, id, frame, mode);
                (Some(next), r)
            } else {
                (
                    refused_call(tagged_call),
                    Ok(seq![Act::Event(Event::Rejected { call_id: id, status })]),
                )
            }
        },
    }
}

pub open spec fn acts_outcome(r: Result<Vec<CallAction>, String>) -> Result<Seq<Act>, Seq<char>> {
    match r {
        Ok(v) => Ok(acts_of(v@)),
        Err(e) => Err(e@),
    }
}

impl VoiceCall {
    fn progress(&mut self, id: &str, status: u16, frame: &[u8]) -> (r: Result<
        Vec<CallAction>,
        String,
    >)
        ensures
            (final(self)@, acts_outcome(r)) == progress_step(old(self)@, id@, status, frame@),
    {
        let body = sip_frame::body(frame);
        let answer = if body.len() > 0 {
            match self.media.prepare_operator_media(body) {
                Ok(answer) => Some(answer),
                Err(e) => {
                    return Err(e);
                },
            }
        } else {
            None
        };
        let mut actions: Vec<CallAction> = Vec::new();
        assert(acts_of(actions@) =~= seq![]);
        if let Some(rseq) = read_reliable_number(frame) {
            let cseq: u32 = self.next_cseq;
            self.next_cseq = next_number(self.next_cseq);
            push_action(
                &mut actions,
                CallAction::Send(
                    SipFrame::Prack {
                        dialog: self.dialog.copy(),
                        remote_uri: copy_str(self.remote_uri.as_str()),
                        cseq,
                        rseq,
                        invite_cseq: self.dialog.cseq,
                    },
                ),
            );
        }
        push_action(
            &mut actions,
            CallAction::Event(
                OperatorEvent::Provisional { call_id: copy_str(id), status, body: answer },
            ),
        );
        assert(progress_step(old(self)@, id@, status, frame@).1 matches Ok(acts) && acts
            =~= acts_of(actions@));
        Ok(actions)
    }

    fn answered(&mut self, id: &str, frame: &[u8], mode: TrunkIpConnectMode) -> (r: Result<
        Vec<CallAction>,
        String,
    >)
        ensures
            (final(self)@, acts_outcome(r)) == answered_step(old(self)@, id@, frame@, mode),
    {
        let answer = match self.media.prepare_operator_media(sip_frame::body(frame)) {
            Ok(answer) => answer,
            Err(e) => {
                return Err(e);
            },
        };
        let mut actions: Vec<CallAction> = Vec::new();
        assert(acts_of(actions@) =~= seq![]);
        push_action(
            &mut actions,
            CallAction::Send(
                SipFrame::Ack {
                    dialog: self.dialog.copy(),
                    remote_uri: copy_str(self.remote_uri.as_str()),
                },
            ),
        );
        let was_reinvite: bool = self.pending_trunk_reinvite;
        self.operator_answered = true;
        self.pending_trunk_reinvite = false;
        let waiting: Option<u64> = match &self.media.active_relay {
            Some(active) => if !was_reinvite && mode == TrunkIpConnectMode::FirstRtp {
                Some(active.relay)
            } else {
                None
            },
            None => None,
        };
        match waiting {
            Some(relay) => {
                push_action(
                    &mut actions,
                    CallAction::AnswerOnFirstRtp { call_id: copy_str(id), relay, body: answer },
                );
            },
            None => {
                push_action(
                    &mut actions,
                    CallAction::Event(
                        OperatorEvent::Answered { call_id: copy_str(id), body: answer },
                    ),
                );
            },
        }
        assert(answered_step(old(self)@, id@, frame@, mode).1 matches Ok(acts) && acts =~= acts_of(
            actions@,
        ));
        Ok(actions)
    }

    /// Takes a response to the call. The second value says whether the call goes
    /// on.
    pub fn handle_response(&mut self, id: &str, frame: &[u8], mode: TrunkIpConnectMode) -> (r: (
        Result<Vec<CallAction>, String>,
        bool,
    ))
        ensures
            ({
                let (next, want) = response_step(old(self)@, id@, frame@, mode);
                &&& acts_outcome(r.0) == want
                &&& r.1 == (next is Some)
                &&& next matches Some(c) ==> final(self)@ == c
            }),
    {
        let status = match sip_frame::parse_status(frame) {
            Ok(status) => status,
            Err(e) => {
                return (Err(copy_str(e.code())), true);
            },
        };
        let cseq = sip_frame::header_value(frame, "CSeq");
        if !headers::cseq_names(&cseq, "INVITE") {
            let none: Vec<CallAction> = Vec::new();
            assert(acts_of(none@) =~= seq![]);
            return (Ok(none), true);
        }
        if let Some(tag) = headers::response_to_tag(frame) {
            self.dialog.set_remote_tag(tag);
        }
        assert(self@ == tagged(old(self)@, frame@));
        if status >= 100 && status < 200 {
            return (self.progress(id, status, frame), true);
        }
        if status >= 200 && status < 300 {
            return (self.answered(id, frame, mode), true);
        }
        let was_reinvite: bool = self.pending_trunk_reinvite;
        self.pending_trunk_reinvite = false;
        self.media.pending_relay = None;
        self.media.pending_video_relay = None;
        let mut actions: Vec<CallAction> = Vec::new();
        push_action(
            &mut actions,
            CallAction::Event(OperatorEvent::Rejected { call_id: copy_str(id), status }),
        );
        assert(acts_of(actions@) =~= seq![
            Act::Event(Event::Rejected { call_id: id@, status }),
        ]);
        (Ok(actions), was_reinvite)
    }
}

// ------------------------------------------------------------------------- laws

/// Is it the same dialog, seen from here?
pub open spec fn same_dialog(a: Dialog, b: Dialog) -> bool {
    a.call_id == b.call_id && a.local_tag == b.local_tag
}

/// Is a frame one of this dialog? A response carries its tag.
pub open spec fn belongs(f: Frame, d: Dialog) -> bool {
    match f {
        Frame::Invite { dialog, .. } => same_dialog(dialog, d),
        Frame::Reinvite { dialog, .. } => same_dialog(dialog, d),
        Frame::Cancel { dialog, .. } => same_dialog(dialog, d),
        Frame::Bye { dialog, .. } => same_dialog(dialog, d),
        Frame::Ack { dialog, .. } => same_dialog(dialog, d),
        Frame::Prack { dialog, .. } => same_dialog(dialog, d),
        Frame::Info { dialog, .. } => same_dialog(dialog, d),
        Frame::Response { tag, .. } => tag == Some(d.local_tag),
    }
}

pub open spec fn frame_belongs(r: Result<Option<Frame>, Seq<char>>, d: Dialog) -> bool {
    r matches Ok(Some(frame)) ==> belongs(frame, d)
}

/// Whatever a response brings, the call stays in its dialog, everything that is
/// sent on it is of that dialog, and the acknowledgement of a final success
/// carries the tag that the success brought.
pub proof fn law_responses_keep_the_dialog(
    c: Call,
    id: Seq<char>,
    frame: Seq<u8>,
    mode: TrunkIpConnectMode,
)
    ensures
        ({
            let (next, r) = response_step(c, id, frame, mode);
            &&& next matches Some(n) ==> same_dialog(n.dialog, c.dialog) && n.remote_uri
                == c.remote_uri
            &&& r matches Ok(acts) ==> forall|i: int|
                0 <= i < acts.len() ==> ((#[trigger] acts[i]) matches Act::Send(f) ==> belongs(
                    f,
                    c.dialog,
                ))
            &&& r matches Ok(acts) ==> forall|i: int|
                0 <= i < acts.len() ==> ((#[trigger] acts[i]) matches Act::Send(
                    Frame::Ack { dialog, .. },
                ) ==> (headers::to_tag_of(frame) is Some ==> dialog.remote_tag
                    == headers::to_tag_of(frame)))
        }),
{
}

/// Whatever the trunk wants of a call that stands, the call stays in its dialog,
/// and what is sent is of that dialog.
pub proof fn law_commands_keep_the_dialog(
    c: Call,
    offer: media::Offer,
    audio: RelayPair,
    video: Option<RelayPair>,
    body: Seq<u8>,
    progress: Option<Seq<u8>>,
    status: u16,
    contact: Seq<char>,
)
    ensures
        same_dialog(renegotiate_step(c, offer, audio, video).0.dialog, c.dialog),
        frame_belongs(renegotiate_step(c, offer, audio, video).1, c.dialog),
        same_dialog(accept_step(c, body, contact).0.dialog, c.dialog),
        frame_belongs(accept_step(c, body, contact).1, c.dialog),
        same_dialog(provisional_step(c, status, progress, contact).0.dialog, c.dialog),
        frame_belongs(provisional_step(c, status, progress, contact).1, c.dialog),
        same_dialog(accept_change_step(c, body, contact).0.dialog, c.dialog),
        frame_belongs(accept_change_step(c, body, contact).1, c.dialog),
        same_dialog(reject_change_step(c, status).0.dialog, c.dialog),
        frame_belongs(reject_change_step(c, status).1, c.dialog),
{
}

} // verus!
