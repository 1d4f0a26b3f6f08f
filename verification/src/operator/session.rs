//! A voice session on a registered channel: its calls, and what commands of the
//! trunk and frames of the network make of them.

use crate::context::{ImsIdentity, ImsRoute, RegisteredImsContext};
use crate::net::IpAddr;
use crate::operator::call::{
    next_number, DialogIds, RelayPair, SipFrame, TrunkIpConnectMode, VoiceCall,
};
use crate::operator::media::{CallMedia, DtmfSignal, MediaOffer};
use crate::operator::{call, headers, media};
use crate::sdp::copy_str;
use crate::supplementary::SubscribeIds;
use crate::{sdp, supplementary, text};
use vstd::prelude::*;

verus! {

/// The registration that a session runs on. Times are in nanoseconds.
#[derive(Debug, PartialEq, Eq)]
pub struct RegisteredVoiceContext {
    pub line_id: String,
    pub profile_id: String,
    pub identity: ImsIdentity,
    pub route: ImsRoute,
    pub registration: RegisteredImsContext,
    pub security_verify: Option<String>,
    pub pani: String,
    pub user_agent: String,
    pub expires_at: u64,
    pub tcp_keepalive_interval: Option<u64>,
    pub options_ping_interval: Option<u64>,
}

impl RegisteredVoiceContext {
    pub open spec fn contact(&self) -> Seq<char> {
        headers::contact_uri(self.identity.contact_user@, self.route)
    }
}

/// When the operator is told that an incoming call is accepted.
#[derive(Debug, Clone, Copy, PartialEq, Eq, Structural)]
pub enum TrunkIncomingMode {
    BoundImmediate,
    AfterAnswer,
}

/// What the session knows of the trunk.
#[derive(Debug, Clone, Copy, PartialEq, Eq, Structural)]
pub struct LinkState {
    pub available: bool,
    pub trunk_local_ip: Option<IpAddr>,
    pub video_enabled: bool,
    pub incoming_mode: TrunkIncomingMode,
    pub ip_connect_mode: TrunkIpConnectMode,
}

/// What the trunk wants.
#[derive(Debug, PartialEq, Eq)]
pub enum OperatorCommand {
    StartCall {
        call_id: String,
        caller: String,
        callee: String,
        trunk_local_ip: IpAddr,
        offer: MediaOffer,
    },
    CancelCall { call_id: String },
    HangupCall { call_id: String },
    SendDtmf { call_id: String, signal: DtmfSignal },
    Renegotiate { call_id: String, trunk_local_ip: IpAddr, offer: MediaOffer },
    AcceptCall { call_id: String, body: Vec<u8> },
    RejectCall { call_id: String, status: u16 },
    ReportProvisional { call_id: String, status: u16, body: Option<Vec<u8>> },
    AcceptRenegotiation { call_id: String, body: Vec<u8> },
    RejectRenegotiation { call_id: String, status: u16 },
}

impl OperatorCommand {
    pub open spec fn id(&self) -> Seq<char> {
        match self {
            OperatorCommand::StartCall { call_id, .. } => call_id@,
            OperatorCommand::CancelCall { call_id } => call_id@,
            OperatorCommand::HangupCall { call_id } => call_id@,
            OperatorCommand::SendDtmf { call_id, .. } => call_id@,
            OperatorCommand::Renegotiate { call_id, .. } => call_id@,
            OperatorCommand::AcceptCall { call_id, .. } => call_id@,
            OperatorCommand::RejectCall { call_id, .. } => call_id@,
            OperatorCommand::ReportProvisional { call_id, .. } => call_id@,
            OperatorCommand::AcceptRenegotiation { call_id, .. } => call_id@,
            OperatorCommand::RejectRenegotiation { call_id, .. } => call_id@,
        }
    }
}

pub fn command_call_id(command: &OperatorCommand) -> (r: &str)
    ensures
        r@ == command.id(),
{
    match command {
        OperatorCommand::StartCall { call_id, .. } => call_id.as_str(),
        OperatorCommand::CancelCall { call_id } => call_id.as_str(),
        OperatorCommand::HangupCall { call_id } => call_id.as_str(),
        OperatorCommand::SendDtmf { call_id, .. } => call_id.as_str(),
        OperatorCommand::Renegotiate { call_id, .. } => call_id.as_str(),
        OperatorCommand::AcceptCall { call_id, .. } => call_id.as_str(),
        OperatorCommand::RejectCall { call_id, .. } => call_id.as_str(),
        OperatorCommand::ReportProvisional { call_id, .. } => call_id.as_str(),
        OperatorCommand::AcceptRenegotiation { call_id, .. } => call_id.as_str(),
        OperatorCommand::RejectRenegotiation { call_id, .. } => call_id.as_str(),
    }
}

/// What a step needs from outside: relays that were bound for it, or why that
/// failed, and fresh identifiers.
#[derive(Debug, PartialEq, Eq)]
pub struct Outside {
    pub audio: Result<RelayPair, String>,
    pub video: Result<RelayPair, String>,
    pub dialog: DialogIds,
    pub local_tag: String,
    pub token: String,
    /// The key press that an INFO carries.
    pub dtmf: Option<DtmfSignal>,
}

/// The relays for a call with or without video.
pub open spec fn relays_of(o: Outside, video: bool) -> Result<
    (RelayPair, Option<RelayPair>),
    Seq<char>,
> {
    match o.audio {
        Err(e) => Err(e@),
        Ok(audio) => if video {
            match o.video {
                Err(e) => Err(e@),
                Ok(pair) => Ok((audio, Some(pair))),
            }
        } else {
            Ok((audio, None))
        },
    }
}

pub(crate) fn bound_relays(
    audio: Result<RelayPair, String>,
    video: Result<RelayPair, String>,
    with_video: bool,
) -> (r: Result<(RelayPair, Option<RelayPair>), String>)
    ensures
        match (r, audio, video) {
            (Err(e), Err(a), _) => e@ == a@,
            (Err(e), Ok(_), Err(v)) => e@ == v@ && with_video,
            (Ok((a, None)), Ok(pair), _) => a == pair && !with_video,
            (Ok((a, Some(v))), Ok(pair), Ok(second)) => a == pair && v == second && with_video,
            _ => false,
        },
{
    match audio {
        Err(e) => Err(e),
        Ok(pair) => {
            if !with_video {
                return Ok((pair, None));
            }
            match video {
                Err(e) => Err(e),
                Ok(second) => Ok((pair, Some(second))),
            }
        },
    }
}

// ----------------------------------------------------------------------- calls

#[derive(Debug, PartialEq, Eq)]
pub struct CallEntry {
    pub id: String,
    pub call: VoiceCall,
}

/// A call under the name that the trunk knows it by.
pub struct Entry {
    pub id: Seq<char>,
    pub call: call::Call,
}

impl View for CallEntry {
    type V = Entry;

    open spec fn view(&self) -> Entry {
        Entry { id: self.id@, call: self.call@ }
    }
}

pub open spec fn entries_of(v: Seq<CallEntry>) -> Seq<Entry> {
    Seq::new(v.len(), |i: int| v[i]@)
}

/// Where the call of this name stands from `i` on, or how many calls there are.
pub open spec fn index_from(calls: Seq<Entry>, id: Seq<char>, i: int) -> int
    decreases calls.len() - i,
{
    if i < 0 || i >= calls.len() {
        calls.len() as int
    } else if calls[i].id == id {
        i
    } else {
        index_from(calls, id, i + 1)
    }
}

pub open spec fn index_of(calls: Seq<Entry>, id: Seq<char>) -> int {
    index_from(calls, id, 0)
}

pub proof fn lemma_index(calls: Seq<Entry>, id: Seq<char>, i: int)
    requires
        0 <= i <= calls.len(),
    ensures
        i <= index_from(calls, id, i) <= calls.len(),
        index_from(calls, id, i) < calls.len() ==> calls[index_from(calls, id, i)].id == id,
        forall|j: int| i <= j < index_from(calls, id, i) ==> (#[trigger] calls[j]).id != id,
    decreases calls.len() - i,
{
    if i < calls.len() && calls[i].id != id {
        lemma_index(calls, id, i + 1);
    }
}

pub open spec fn has_call(calls: Seq<Entry>, id: Seq<char>) -> bool {
    index_of(calls, id) < calls.len()
}

pub open spec fn call_of(calls: Seq<Entry>, id: Seq<char>) -> call::Call {
    calls[index_of(calls, id)].call
}

pub open spec fn without_call(calls: Seq<Entry>, id: Seq<char>) -> Seq<Entry> {
    if has_call(calls, id) {
        calls.remove(index_of(calls, id))
    } else {
        calls
    }
}

pub open spec fn with_call(calls: Seq<Entry>, id: Seq<char>, c: call::Call) -> Seq<Entry> {
    if has_call(calls, id) {
        calls.update(index_of(calls, id), Entry { id, call: c })
    } else {
        calls.push(Entry { id, call: c })
    }
}

/// Where the call of this dialog stands from `i` on.
pub open spec fn dialog_from(calls: Seq<Entry>, call_id: Seq<char>, i: int) -> int
    decreases calls.len() - i,
{
    if i < 0 || i >= calls.len() {
        calls.len() as int
    } else if calls[i].call.dialog.call_id == call_id {
        i
    } else {
        dialog_from(calls, call_id, i + 1)
    }
}

/// The name of the call that a dialog belongs to.
pub open spec fn named_by_dialog(calls: Seq<Entry>, call_id: Seq<char>) -> Option<Seq<char>> {
    let i = dialog_from(calls, call_id, 0);
    if 0 <= i < calls.len() {
        Some(calls[i].id)
    } else {
        None
    }
}

/// No two calls have the same name.
pub open spec fn distinct(calls: Seq<Entry>) -> bool {
    forall|i: int, j: int|
        0 <= i < j < calls.len() ==> (#[trigger] calls[i]).id != (#[trigger] calls[j]).id
}

#[derive(Debug, PartialEq, Eq)]
pub struct MwiSubscription {
    pub ids: SubscribeIds,
    pub refresh_at: u64,
}

pub struct Subscription {
    pub ids: supplementary::Ids,
    pub refresh_at: u64,
}

#[derive(Debug, PartialEq, Eq)]
pub struct VoiceSession {
    pub context: RegisteredVoiceContext,
    /// The channel that the session sends on, by number.
    pub channel: u64,
    pub calls: Vec<CallEntry>,
    pub next_tcp_keepalive: Option<u64>,
    pub next_options_ping: Option<u64>,
    pub next_options_cseq: u32,
    /// Does the line have a supplementary-service runtime?
    pub supplementary: bool,
    pub mwi_subscription: Option<MwiSubscription>,
}

/// A session as a value.
pub struct Session {
    pub context: RegisteredVoiceContext,
    pub channel: u64,
    pub calls: Seq<Entry>,
    pub next_tcp_keepalive: Option<u64>,
    pub next_options_ping: Option<u64>,
    pub next_options_cseq: u32,
    pub supplementary: bool,
    pub mwi: Option<Subscription>,
}

impl View for VoiceSession {
    type V = Session;

    open spec fn view(&self) -> Session {
        Session {
            context: self.context,
            channel: self.channel,
            calls: entries_of(self.calls@),
            next_tcp_keepalive: self.next_tcp_keepalive,
            next_options_ping: self.next_options_ping,
            next_options_cseq: self.next_options_cseq,
            supplementary: self.supplementary,
            mwi: match self.mwi_subscription {
                Some(s) => Some(Subscription { ids: s.ids@, refresh_at: s.refresh_at }),
                None => None,
            },
        }
    }
}

impl VoiceSession {
    /// No two calls of a session have the same name.
    pub open spec fn wf(&self) -> bool {
        distinct(self@.calls)
    }

    pub(crate) fn find_call(&self, id: &str) -> (r: usize)
        ensures
            r as int == index_of(self@.calls, id@),
            r <= self.calls@.len(),
            r < self.calls@.len() ==> self.calls@[r as int].id@ == id@,
            self@.calls.len() == self.calls@.len(),
    {
        let ghost all = self@.calls;
        proof {
            lemma_index(all, id@, 0);
        }
        let mut i: usize = 0;
        while i < self.calls.len()
            invariant
                i <= self.calls@.len(),
                all == entries_of(self.calls@),
                index_of(all, id@) == index_from(all, id@, i as int),
            decreases self.calls@.len() - i,
        {
            assert(all[i as int] == self.calls@[i as int]@);
            if text::str_same(self.calls[i].id.as_str(), id) {
                return i;
            }
            i += 1;
        }
        i
    }

    pub(crate) fn find_dialog(&self, call_id: &str) -> (r: Option<usize>)
        ensures
            match r {
                Some(i) => i < self.calls@.len() && named_by_dialog(self@.calls, call_id@) == Some(
                    self.calls@[i as int].id@,
                ),
                None => named_by_dialog(self@.calls, call_id@) is None,
            },
    {
        let ghost all = self@.calls;
        let mut i: usize = 0;
        while i < self.calls.len()
            invariant
                i <= self.calls@.len(),
                all == entries_of(self.calls@),
                dialog_from(all, call_id@, 0) == dialog_from(all, call_id@, i as int),
            decreases self.calls@.len() - i,
        {
            assert(all[i as int] == self.calls@[i as int]@);
            if text::str_same(self.calls[i].call.dialog.call_id.as_str(), call_id) {
                return Some(i);
            }
            i += 1;
        }
        None
    }

    /// Takes a call out of the session.
    pub(crate) fn remove_call(&mut self, id: &str) -> (r: Option<VoiceCall>)
        ensures
            match r {
                Some(c) => has_call(old(self)@.calls, id@) && c@ == call_of(
                    old(self)@.calls,
                    id@,
                ),
                None => !has_call(old(self)@.calls, id@),
            },
            final(self)@ == (Session {
                calls: without_call(old(self)@.calls, id@),
                ..old(self)@
            }),
    {
        let i: usize = self.find_call(id);
        let count: usize = self.calls.len();
        if i < count {
            let ghost before = self@.calls;
            let entry = self.calls.remove(i);
            assert(entries_of(self.calls@) =~= before.remove(i as int));
            Some(entry.call)
        } else {
            None
        }
    }

    /// Puts a call into the session, in the place of one of the same name.
    pub(crate) fn insert_call(&mut self, id: String, c: VoiceCall)
        ensures
            final(self)@ == (Session {
                calls: with_call(old(self)@.calls, id@, c@),
                ..old(self)@
            }),
    {
        let i: usize = self.find_call(id.as_str());
        let count: usize = self.calls.len();
        let ghost before = self@.calls;
        let ghost value = Entry { id: id@, call: c@ };
        if i < count {
            self.calls.set(i, CallEntry { id, call: c });
            assert(entries_of(self.calls@) =~= before.update(i as int, value));
        } else {
            self.calls.push(CallEntry { id, call: c });
            assert(entries_of(self.calls@) =~= before.push(value));
        }
    }
}

// -------------------------------------------------------------------- commands

/// A call that the trunk starts.
pub open spec fn outgoing_call(
    dialog: call::Dialog,
    remote_uri: Seq<char>,
    offer: media::Offer,
    audio: RelayPair,
    video: Option<RelayPair>,
) -> call::Call {
    call::Call {
        dialog,
        remote_uri,
        branch: seq![],
        invite: None,
        media: new_media(offer, audio, video),
        next_cseq: call::after_cseq(dialog.cseq),
        network_reinvite: None,
        trunk_reinvite: false,
        answered: false,
    }
}

/// Media that waits for an answer.
pub open spec fn new_media(
    offer: media::Offer,
    audio: RelayPair,
    video: Option<RelayPair>,
) -> media::Media {
    media::Media {
        offer,
        operator_local: audio.operator_local,
        internal_local: audio.internal_local,
        pending: Some(audio.relay),
        active: None,
        pending_video: match video {
            Some(v) => Some(v.relay),
            None => None,
        },
        active_video: None,
        operator_video_local: match video {
            Some(v) => Some(v.operator_local),
            None => None,
        },
        internal_video_local: match video {
            Some(v) => Some(v.internal_local),
            None => None,
        },
    }
}

pub(crate) fn fresh_media(offer: MediaOffer, audio: RelayPair, video: Option<RelayPair>) -> (r: CallMedia)
    ensures
        r@ == new_media(offer@, audio, video),
{
    let (pending_video_relay, operator_video_local, internal_video_local) = match video {
        Some(v) => (Some(v.relay), Some(v.operator_local), Some(v.internal_local)),
        None => (None, None, None),
    };
    CallMedia {
        internal_offer: offer,
        operator_local: audio.operator_local,
        internal_local: audio.internal_local,
        pending_relay: Some(audio.relay),
        active_relay: None,
        pending_video_relay,
        active_video_relay: None,
        operator_video_local,
        internal_video_local,
    }
}

pub open spec fn start_step(
    s: Session,
    link: LinkState,
    id: Seq<char>,
    callee: Seq<char>,
    offer: media::Offer,
    o: Outside,
) -> (Session, Result<Option<call::Frame>, Seq<char>>) {
    if offer.video is Some && !link.video_enabled {
        (s, Err("vowifi_video_feature_disabled"@))
    } else if has_call(s.calls, id) {
        (s, Err("vowifi_call_duplicate"@))
    } else {
        match headers::callee_uri(callee, s.context.identity.home_domain@) {
            None => (s, Err("vowifi_callee_invalid"@)),
            Some(remote_uri) => match relays_of(o, offer.video is Some) {
                Err(e) => (s, Err(e)),
                Ok((audio, video)) => {
                    let c = outgoing_call(o.dialog@, remote_uri, offer, audio, video);
                    (
                        Session { calls: with_call(s.calls, id, c), ..s },
                        Ok(
                            Some(
                                call::Frame::Invite {
                                    dialog: c.dialog,
                                    remote_uri,
                                    body: media::relay_media_text(
                                        offer,
                                        c.media.operator_local,
                                        c.media.operator_video_local,
                                    ),
                                },
                            ),
                        ),
                    )
                },
            },
        }
    }
}

/// A step on a call that is there.
pub open spec fn existing_step(
    s: Session,
    id: Seq<char>,
    step: (call::Call, Result<Option<call::Frame>, Seq<char>>),
) -> (Session, Result<Option<call::Frame>, Seq<char>>) {
    if has_call(s.calls, id) {
        (Session { calls: with_call(s.calls, id, step.0), ..s }, step.1)
    } else {
        (s, Err("vowifi_call_unknown"@))
    }
}

/// A step that takes a call out.
pub open spec fn removing_step(
    s: Session,
    id: Seq<char>,
    result: Result<Option<call::Frame>, Seq<char>>,
) -> (Session, Result<Option<call::Frame>, Seq<char>>) {
    if has_call(s.calls, id) {
        (Session { calls: without_call(s.calls, id), ..s }, result)
    } else {
        (s, Err("vowifi_call_unknown"@))
    }
}

/// What a command makes of a session, and the message that it sends.
pub open spec fn command_step(
    s: Session,
    link: LinkState,
    command: OperatorCommand,
    o: Outside,
) -> (Session, Result<Option<call::Frame>, Seq<char>>) {
    let id = command.id();
    let c = call_of(s.calls, id);
    match command {
        OperatorCommand::StartCall { callee, offer, .. } => start_step(
            s,
            link,
            id,
            callee@,
            offer@,
            o,
        ),
        OperatorCommand::CancelCall { .. } => removing_step(
            s,
            id,
            Ok(Some(call::cancel_frame(c))),
        ),
        OperatorCommand::HangupCall { .. } => removing_step(
            s,
            id,
            Ok(Some(call::hangup_frame(c))),
        ),
        OperatorCommand::SendDtmf { signal, .. } => existing_step(
            s,
            id,
            (call::dtmf_step(c, signal).0, Ok(Some(call::dtmf_step(c, signal).1))),
        ),
        OperatorCommand::Renegotiate { offer, .. } => if offer@.video is Some
            && !link.video_enabled {
            (s, Err("vowifi_video_feature_disabled"@))
        } else {
            match relays_of(o, offer@.video is Some) {
                Err(e) => (s, Err(e)),
                Ok((audio, video)) => existing_step(
                    s,
                    id,
                    call::renegotiate_step(c, offer@, audio, video),
                ),
            }
        },
        OperatorCommand::AcceptCall { body, .. } => existing_step(
            s,
            id,
            call::accept_step(c, body@, s.context.contact()),
        ),
        OperatorCommand::RejectCall { status, .. } => removing_step(
            s,
            id,
            match c.invite {
                None => Err("vowifi_incoming_invite_missing"@),
                Some(request) => Ok(
                    Some(
                        call::answer_frame(
                            request,
                            status,
                            headers::reason_of(status),
                            c.dialog.local_tag,
                            None,
                            None,
                        ),
                    ),
                ),
            },
        ),
        OperatorCommand::ReportProvisional { status, body, .. } => existing_step(
            s,
            id,
            call::provisional_step(c, status, call::opt_bytes(body), s.context.contact()),
        ),
        OperatorCommand::AcceptRenegotiation { body, .. } => existing_step(
            s,
            id,
            call::accept_change_step(c, body@, s.context.contact()),
        ),
        OperatorCommand::RejectRenegotiation { status, .. } => existing_step(
            s,
            id,
            call::reject_change_step(c, status),
        ),
    }
}

impl VoiceSession {
    fn start_call(
        &mut self,
        link: &LinkState,
        call_id: String,
        callee: &str,
        offer: MediaOffer,
        outside: Outside,
    ) -> (r: Result<Option<SipFrame>, String>)
        ensures
            (final(self)@, call::step_outcome(r)) == start_step(
                old(self)@,
                *link,
                call_id@,
                callee@,
                offer@,
                outside,
            ),
    {
        if offer.video.is_some() && !link.video_enabled {
            return Err(copy_str("vowifi_video_feature_disabled"));
        }
        if self.find_call(call_id.as_str()) < self.calls.len() {
            return Err(copy_str("vowifi_call_duplicate"));
        }
        let remote_uri = match headers::normalize_callee(
            callee,
            self.context.identity.home_domain.as_str(),
        ) {
            Ok(uri) => uri,
            Err(e) => {
                return Err(copy_str(e));
            },
        };
        let (audio, video) = match bound_relays(
            outside.audio,
            outside.video,
            offer.video.is_some(),
        ) {
            Ok(pairs) => pairs,
            Err(e) => {
                return Err(e);
            },
        };
        let dialog = outside.dialog;
        let call_media = fresh_media(offer, audio, video);
        let body = media::relay_media_sdp(
            &call_media.internal_offer,
            call_media.operator_local,
            call_media.operator_video_local,
        );
        let frame = SipFrame::Invite {
            dialog: dialog.copy(),
            remote_uri: copy_str(remote_uri.as_str()),
            body,
        };
        let branch = copy_str("");
        proof {
            reveal_strlit("");
            assert(branch@ =~= seq![]);
        }
        self.insert_call(
            call_id,
            VoiceCall {
                next_cseq: next_number(dialog.cseq),
                dialog,
                remote_uri,
                invite_branch: branch,
                initial_invite: None,
                media: call_media,
                pending_network_reinvite: None,
                pending_trunk_reinvite: false,
                operator_answered: false,
            },
        );
        Ok(Some(frame))
    }

    /// Takes the call of this name out for a step; `put_back` ends it.
    pub(crate) fn take_call(&mut self, id: &str) -> (r: Option<(usize, VoiceCall)>)
        ensures
            match r {
                Some((i, c)) => {
                    &&& has_call(old(self)@.calls, id@)
                    &&& i as int == index_of(old(self)@.calls, id@)
                    &&& c@ == call_of(old(self)@.calls, id@)
                    &&& final(self)@ == (Session {
                        calls: old(self)@.calls.remove(i as int),
                        ..old(self)@
                    })
                },
                None => !has_call(old(self)@.calls, id@) && final(self)@ == old(self)@,
            },
    {
        let i: usize = self.find_call(id);
        let count: usize = self.calls.len();
        if i < count {
            let ghost before = self@.calls;
            let entry = self.calls.remove(i);
            assert(entries_of(self.calls@) =~= before.remove(i as int));
            Some((i, entry.call))
        } else {
            None
        }
    }

    pub(crate) fn put_back(&mut self, i: usize, id: String, c: VoiceCall)
        requires
            i <= old(self).calls@.len(),
        ensures
            final(self)@ == (Session {
                calls: old(self)@.calls.insert(i as int, Entry { id: id@, call: c@ }),
                ..old(self)@
            }),
    {
        let ghost before = self@.calls;
        let ghost value = Entry { id: id@, call: c@ };
        self.calls.insert(i, CallEntry { id, call: c });
        assert(entries_of(self.calls@) =~= before.insert(i as int, value));
    }

    pub(crate) fn contact(&self) -> (r: String)
        ensures
            r@ == self@.context.contact(),
    {
        headers::ims_contact(&self.context.identity, &self.context.route)
    }
}

pub proof fn lemma_put_back(calls: Seq<Entry>, id: Seq<char>, c: call::Call)
    requires
        has_call(calls, id),
    ensures
        0 <= index_of(calls, id) <= calls.remove(index_of(calls, id)).len(),
        calls.remove(index_of(calls, id)).insert(index_of(calls, id), Entry { id, call: c })
            == with_call(calls, id, c),
{
    lemma_index(calls, id, 0);
    let i = index_of(calls, id);
    assert(calls.remove(i).insert(i, Entry { id, call: c }) =~= calls.update(
        i,
        Entry { id, call: c },
    ));
}

impl VoiceSession {
    fn send_dtmf(&mut self, call_id: String, signal: DtmfSignal) -> (r: Result<Option<SipFrame>, String>)
        ensures
            (final(self)@, call::step_outcome(r)) == existing_step(
                old(self)@,
                call_id@,
                (
                    call::dtmf_step(call_of(old(self)@.calls, call_id@), signal).0,
                    Ok(Some(call::dtmf_step(call_of(old(self)@.calls, call_id@), signal).1)),
                ),
            ),
    {
        match self.take_call(call_id.as_str()) {
            None => Err(copy_str("vowifi_call_unknown")),
            Some((i, c)) => {
                let mut c = c;
                let r = Ok(Some(c.send_dtmf(signal)));
                proof {
                    lemma_put_back(old(self)@.calls, call_id@, c@);
                    assert(self.calls@.len() == self@.calls.len());
                }
                self.put_back(i, call_id, c);
                r
            },
        }
    }

    fn renegotiate(&mut self, call_id: String, offer: MediaOffer, audio: RelayPair, video: Option<RelayPair>) -> (r: Result<Option<SipFrame>, String>)
        ensures
            (final(self)@, call::step_outcome(r)) == existing_step(
                old(self)@,
                call_id@,
                call::renegotiate_step(call_of(old(self)@.calls, call_id@), offer@, audio, video),
            ),
    {
        match self.take_call(call_id.as_str()) {
            None => Err(copy_str("vowifi_call_unknown")),
            Some((i, c)) => {
                let mut c = c;
                let r = c.renegotiate(offer, audio, video);
                proof {
                    lemma_put_back(old(self)@.calls, call_id@, c@);
                    assert(self.calls@.len() == self@.calls.len());
                }
                self.put_back(i, call_id, c);
                r
            },
        }
    }

    fn accept_call(&mut self, call_id: String, body: Vec<u8>) -> (r: Result<Option<SipFrame>, String>)
        ensures
            (final(self)@, call::step_outcome(r)) == existing_step(
                old(self)@,
                call_id@,
                call::accept_step(call_of(old(self)@.calls, call_id@), body@, old(self)@.context.contact()),
            ),
    {
        let contact = self.contact();
        match self.take_call(call_id.as_str()) {
            None => Err(copy_str("vowifi_call_unknown")),
            Some((i, c)) => {
                let mut c = c;
                let r = c.accept(body.as_slice(), contact);
                proof {
                    lemma_put_back(old(self)@.calls, call_id@, c@);
                    assert(self.calls@.len() == self@.calls.len());
                }
                self.put_back(i, call_id, c);
                r
            },
        }
    }

    fn report_provisional(&mut self, call_id: String, status: u16, body: Option<Vec<u8>>) -> (r: Result<Option<SipFrame>, String>)
        ensures
            (final(self)@, call::step_outcome(r)) == existing_step(
                old(self)@,
                call_id@,
                call::provisional_step(call_of(old(self)@.calls, call_id@), status, call::opt_bytes(body), old(self)@.context.contact()),
            ),
    {
        let contact = self.contact();
        match self.take_call(call_id.as_str()) {
            None => Err(copy_str("vowifi_call_unknown")),
            Some((i, c)) => {
                let mut c = c;
                let r = c.report_provisional(status, &body, contact);
                proof {
                    lemma_put_back(old(self)@.calls, call_id@, c@);
                    assert(self.calls@.len() == self@.calls.len());
                }
                self.put_back(i, call_id, c);
                r
            },
        }
    }

    fn accept_renegotiation(&mut self, call_id: String, body: Vec<u8>) -> (r: Result<Option<SipFrame>, String>)
        ensures
            (final(self)@, call::step_outcome(r)) == existing_step(
                old(self)@,
                call_id@,
                call::accept_change_step(call_of(old(self)@.calls, call_id@), body@, old(self)@.context.contact()),
            ),
    {
        let contact = self.contact();
        match self.take_call(call_id.as_str()) {
            None => Err(copy_str("vowifi_call_unknown")),
            Some((i, c)) => {
                let mut c = c;
                let r = c.accept_renegotiation(body.as_slice(), contact);
                proof {
                    lemma_put_back(old(self)@.calls, call_id@, c@);
                    assert(self.calls@.len() == self@.calls.len());
                }
                self.put_back(i, call_id, c);
                r
            },
        }
    }

    fn reject_renegotiation(&mut self, call_id: String, status: u16) -> (r: Result<Option<SipFrame>, String>)
        ensures
            (final(self)@, call::step_outcome(r)) == existing_step(
                old(self)@,
                call_id@,
                call::reject_change_step(call_of(old(self)@.calls, call_id@), status),
            ),
    {
        match self.take_call(call_id.as_str()) {
            None => Err(copy_str("vowifi_call_unknown")),
            Some((i, c)) => {
                let mut c = c;
                let r = c.reject_renegotiation(status);
                proof {
                    lemma_put_back(old(self)@.calls, call_id@, c@);
                    assert(self.calls@.len() == self@.calls.len());
                }
                self.put_back(i, call_id, c);
                r
            },
        }
    }

    /// Performs a command, given what it needs from outside. Relays are bound for
    /// it where `relay_need_for_command` says so.
    pub fn handle_command_inner(
        &mut self,
        link: &LinkState,
        command: OperatorCommand,
        outside: Outside,
    ) -> (r: Result<Option<SipFrame>, String>)
        ensures
            (final(self)@, call::step_outcome(r)) == command_step(
                old(self)@,
                *link,
                command,
                outside,
            ),
    {
        match command {
            OperatorCommand::StartCall { call_id, callee, offer, .. } => self.start_call(
                link,
                call_id,
                callee.as_str(),
                offer,
                outside,
            ),
            OperatorCommand::CancelCall { call_id } => match self.remove_call(call_id.as_str()) {
                None => Err(copy_str("vowifi_call_unknown")),
                Some(c) => Ok(Some(c.cancel())),
            },
            OperatorCommand::HangupCall { call_id } => match self.remove_call(call_id.as_str()) {
                None => Err(copy_str("vowifi_call_unknown")),
                Some(c) => Ok(Some(c.hang_up())),
            },
            OperatorCommand::SendDtmf { call_id, signal } => self.send_dtmf(call_id, signal),
            OperatorCommand::Renegotiate { call_id, offer, .. } => {
                if offer.video.is_some() && !link.video_enabled {
                    return Err(copy_str("vowifi_video_feature_disabled"));
                }
                match bound_relays(outside.audio, outside.video, offer.video.is_some()) {
                    Err(e) => Err(e),
                    Ok((audio, video)) => self.renegotiate(call_id, offer, audio, video),
                }
            },
            OperatorCommand::AcceptCall { call_id, body } => self.accept_call(call_id, body),
            OperatorCommand::RejectCall { call_id, status } => match self.remove_call(
                call_id.as_str(),
            ) {
                None => Err(copy_str("vowifi_call_unknown")),
                Some(c) => match &c.initial_invite {
                    None => Err(copy_str("vowifi_incoming_invite_missing")),
                    Some(request) => Ok(
                        Some(
                            c.response(request, status, headers::sip_reason(status), None, None),
                        ),
                    ),
                },
            },
            OperatorCommand::ReportProvisional { call_id, status, body } =>
                self.report_provisional(call_id, status, body),
            OperatorCommand::AcceptRenegotiation { call_id, body } => self.accept_renegotiation(
                call_id,
                body,
            ),
            OperatorCommand::RejectRenegotiation { call_id, status } => self.reject_renegotiation(
                call_id,
                status,
            ),
        }
    }
}

// ------------------------------------------------------- the relays of a command

/// How many relays a step is to bind before it.
#[derive(Debug, Clone, Copy, PartialEq, Eq, Structural)]
pub enum RelayNeed {
    Nothing,
    Audio,
    AudioAndVideo,
}

pub open spec fn need_for(video: bool) -> RelayNeed {
    if video {
        RelayNeed::AudioAndVideo
    } else {
        RelayNeed::Audio
    }
}

pub open spec fn command_need(s: Session, link: LinkState, command: OperatorCommand) -> RelayNeed {
    match command {
        OperatorCommand::StartCall { call_id, callee, offer, .. } => if (offer@.video is Some
            && !link.video_enabled) || has_call(s.calls, call_id@) || headers::callee_uri(
            callee@,
            s.context.identity.home_domain@,
        ) is None {
            RelayNeed::Nothing
        } else {
            need_for(offer@.video is Some)
        },
        OperatorCommand::Renegotiate { offer, .. } => if offer@.video is Some
            && !link.video_enabled {
            RelayNeed::Nothing
        } else {
            need_for(offer@.video is Some)
        },
        _ => RelayNeed::Nothing,
    }
}

pub(crate) fn need_of(video: bool) -> (r: RelayNeed)
    ensures
        r == need_for(video),
{
    if video {
        RelayNeed::AudioAndVideo
    } else {
        RelayNeed::Audio
    }
}

impl VoiceSession {
    pub fn relay_need_for_command(&self, link: &LinkState, command: &OperatorCommand) -> (r:
        RelayNeed)
        ensures
            r == command_need(self@, *link, *command),
    {
        match command {
            OperatorCommand::StartCall { call_id, callee, offer, .. } => {
                if offer.video.is_some() && !link.video_enabled {
                    return RelayNeed::Nothing;
                }
                if self.find_call(call_id.as_str()) < self.calls.len() {
                    return RelayNeed::Nothing;
                }
                match headers::normalize_callee(
                    callee.as_str(),
                    self.context.identity.home_domain.as_str(),
                ) {
                    Ok(_) => need_of(offer.video.is_some()),
                    Err(_) => RelayNeed::Nothing,
                }
            },
            OperatorCommand::Renegotiate { offer, .. } => {
                if offer.video.is_some() && !link.video_enabled {
                    return RelayNeed::Nothing;
                }
                need_of(offer.video.is_some())
            },
            _ => RelayNeed::Nothing,
        }
    }
}

/// Between which addresses a relay stands: that of the registered route, and that of
/// the trunk.
#[derive(Debug, Clone, Copy, PartialEq, Eq, Structural)]
pub struct RelayAddrs {
    pub operator: IpAddr,
    pub trunk: IpAddr,
}

/// Between which addresses the relays of a command stand, where it needs any.
pub open spec fn command_addrs(s: Session, link: LinkState, command: OperatorCommand) -> Option<
    RelayAddrs,
> {
    if command_need(s, link, command) is Nothing {
        None
    } else {
        match command {
            OperatorCommand::StartCall { trunk_local_ip, .. }
            | OperatorCommand::Renegotiate { trunk_local_ip, .. } => Some(
                RelayAddrs { operator: s.context.route.local_addr.ip, trunk: trunk_local_ip },
            ),
            _ => None,
        }
    }
}

impl VoiceSession {
    /// Between which addresses the relays of a command are to be bound. There are
    /// addresses just where a relay is needed.
    pub fn relay_addrs_for_command(&self, link: &LinkState, command: &OperatorCommand) -> (r: Option<
        RelayAddrs,
    >)
        ensures
            r == command_addrs(self@, *link, *command),
            r is None <==> command_need(self@, *link, *command) is Nothing,
    {
        if let RelayNeed::Nothing = self.relay_need_for_command(link, command) {
            return None;
        }
        match command {
            OperatorCommand::StartCall { trunk_local_ip, .. } => Some(
                RelayAddrs {
                    operator: self.context.route.local_addr.ip,
                    trunk: *trunk_local_ip,
                },
            ),
            OperatorCommand::Renegotiate { trunk_local_ip, .. } => Some(
                RelayAddrs {
                    operator: self.context.route.local_addr.ip,
                    trunk: *trunk_local_ip,
                },
            ),
            _ => None,
        }
    }
}

/// Why there is no relay.
#[derive(Debug, PartialEq, Eq)]
pub enum RelayFailure {
    /// It could not be bound.
    Bind(String),
    /// It does not say where it is bound.
    Local(String),
}

/// The error of a relay that is not there.
pub open spec fn relay_failure_text(video: bool, failure: RelayFailure) -> Seq<char> {
    match failure {
        RelayFailure::Bind(e) => (if video {
            "vowifi_video_rtp_bind_failed:"@
        } else {
            "vowifi_rtp_bind_failed:"@
        }) + e@,
        RelayFailure::Local(e) => (if video {
            "vowifi_video_rtp_local_failed:"@
        } else {
            "vowifi_rtp_local_failed:"@
        }) + e@,
    }
}

/// The relay, or the error of one that is not there.
pub fn relay_outcome(video: bool, relay: Result<RelayPair, RelayFailure>) -> (r: Result<
    RelayPair,
    String,
>)
    ensures
        match relay {
            Ok(pair) => r == Ok::<RelayPair, String>(pair),
            Err(failure) => r matches Err(e) && e@ == relay_failure_text(video, failure),
        },
{
    match relay {
        Ok(pair) => Ok(pair),
        Err(RelayFailure::Bind(e)) => {
            let mut out = copy_str(
                if video {
                    "vowifi_video_rtp_bind_failed:"
                } else {
                    "vowifi_rtp_bind_failed:"
                },
            );
            out.append(e.as_str());
            Err(out)
        },
        Err(RelayFailure::Local(e)) => {
            let mut out = copy_str(
                if video {
                    "vowifi_video_rtp_local_failed:"
                } else {
                    "vowifi_rtp_local_failed:"
                },
            );
            out.append(e.as_str());
            Err(out)
        },
    }
}

/// A command for which no relay is to be bound goes the same way whatever was
/// bound.
pub proof fn law_unneeded_relays_do_not_matter(
    s: Session,
    link: LinkState,
    command: OperatorCommand,
    o: Outside,
    audio: Result<RelayPair, String>,
    video: Result<RelayPair, String>,
)
    requires
        command_need(s, link, command) is Nothing,
    ensures
        command_step(s, link, command, o) == command_step(
            s,
            link,
            command,
            Outside { audio, video, ..o },
        ),
{
}


/// Putting a call in keeps names distinct.
pub proof fn lemma_with_call_distinct(calls: Seq<Entry>, id: Seq<char>)
    requires
        distinct(calls),
    ensures
        forall|c: call::Call| distinct(#[trigger] with_call(calls, id, c)),
{
    lemma_index(calls, id, 0);
}

/// Taking a call out keeps names distinct.
pub proof fn lemma_without_call_distinct(calls: Seq<Entry>, id: Seq<char>)
    requires
        distinct(calls),
    ensures
        distinct(without_call(calls, id)),
{
    lemma_index(calls, id, 0);
}

/// A call that was taken out is gone.
pub proof fn lemma_gone(calls: Seq<Entry>, id: Seq<char>)
    requires
        distinct(calls),
    ensures
        !has_call(without_call(calls, id), id),
{
    lemma_index(calls, id, 0);
    lemma_index(without_call(calls, id), id, 0);
}

} // verus!
