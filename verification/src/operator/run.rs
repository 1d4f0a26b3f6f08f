//! The life of a voice session: replacement registrations, timers, and the
//! message-waiting subscription.

use crate::operator::session;
use crate::operator::session::{MwiSubscription, RegisteredVoiceContext, VoiceSession};
use crate::sdp::copy_str;
use crate::sip_message::{add_header, build_request, SipHeader, SipRequest};
use crate::supplementary::{build_mwi_subscribe, SubscribeIds};
use crate::{ip_text, sip_message, supplementary, text};
use vstd::prelude::*;

verus! {

pub const MWI_SUBSCRIBE_EXPIRES_SECONDS: u32 = 3600;

/// A subscription is renewed when eleven twelfths of its time have passed.
pub const MWI_REFRESH_NANOS: u64 = 3_300_000_000_000;

// ----------------------------------------------------------------------- timers

/// Can the end of an interval from now be told?
pub open spec fn reaches(interval: Option<u64>, now: u64) -> bool {
    interval matches Some(i) ==> now + i <= u64::MAX
}

pub open spec fn after_interval(interval: Option<u64>, now: u64) -> Option<u64> {
    match interval {
        Some(i) => Some((now + i) as u64),
        None => None,
    }
}

pub fn next_interval(interval: Option<u64>, now: u64) -> (r: Option<u64>)
    requires
        reaches(interval, now),
    ensures
        r == after_interval(interval, now),
{
    match interval {
        Some(i) => Some(now + i),
        None => None,
    }
}

/// Can the timers of a registration be set now?
pub open spec fn timers_reach(c: RegisteredVoiceContext, now: u64) -> bool {
    reaches(c.tcp_keepalive_interval, now) && reaches(c.options_ping_interval, now)
}

// ---------------------------------------------------------------- registrations

/// A registration and the channel that it came with.
#[derive(Debug, PartialEq, Eq)]
pub struct RegisteredChannel {
    pub context: RegisteredVoiceContext,
    pub channel: u64,
}

/// A session on another registration: its timers start anew and its
/// subscription is gone.
pub open spec fn activated(s: session::Session, r: RegisteredChannel, now: u64) -> session::Session {
    session::Session {
        context: r.context,
        channel: r.channel,
        next_tcp_keepalive: after_interval(r.context.tcp_keepalive_interval, now),
        next_options_ping: after_interval(r.context.options_ping_interval, now),
        next_options_cseq: 1,
        mwi: None,
        ..s
    }
}

/// A session before its first call.
pub open spec fn fresh_session(r: RegisteredChannel, supplementary: bool, now: u64) -> session::Session {
    session::Session {
        context: r.context,
        channel: r.channel,
        calls: seq![],
        next_tcp_keepalive: after_interval(r.context.tcp_keepalive_interval, now),
        next_options_ping: after_interval(r.context.options_ping_interval, now),
        next_options_cseq: 1,
        supplementary,
        mwi: None,
    }
}

pub fn activate_registration(session: &mut VoiceSession, replacement: RegisteredChannel, now: u64)
    requires
        timers_reach(replacement.context, now),
    ensures
        final(session)@ == activated(old(session)@, replacement, now),
{
    session.next_tcp_keepalive = next_interval(replacement.context.tcp_keepalive_interval, now);
    session.next_options_ping = next_interval(replacement.context.options_ping_interval, now);
    session.context = replacement.context;
    session.channel = replacement.channel;
    session.next_options_cseq = 1;
    session.mwi_subscription = None;
}

/// The names of the first `n` calls.
pub open spec fn names_upto(calls: Seq<session::Entry>, n: int) -> Seq<Seq<char>>
    decreases n,
{
    if n <= 0 {
        seq![]
    } else {
        names_upto(calls, n - 1).push(calls[n - 1].id)
    }
}

/// Ends every call of a session and names them.
pub fn end_active_calls(session: &mut VoiceSession) -> (r: Vec<String>)
    ensures
        final(session)@ == (session::Session { calls: seq![], ..old(session)@ }),
        text::texts(r@) == names_upto(old(session)@.calls, old(session)@.calls.len() as int),
{
    let ghost all = session@.calls;
    let mut names: Vec<String> = Vec::new();
    let mut i: usize = 0;
    assert(text::texts(names@) =~= names_upto(all, 0));
    while i < session.calls.len()
        invariant
            i <= session.calls@.len(),
            *session == *old(session),
            all == session::entries_of(session.calls@),
            text::texts(names@) == names_upto(all, i as int),
        decreases session.calls@.len() - i,
    {
        assert(all[i as int] == session.calls@[i as int]@);
        let ghost known = text::texts(names@);
        let name = copy_str(session.calls[i].id.as_str());
        let ghost value = name@;
        names.push(name);
        assert(text::texts(names@) =~= known.push(value));
        i += 1;
    }
    session.calls = Vec::new();
    assert(session::entries_of(session.calls@) =~= seq![]);
    names
}

/// A session with a registration that waits for its calls to end.
#[derive(Debug, PartialEq, Eq)]
pub struct SessionRun {
    pub session: VoiceSession,
    pub pending_replacement: Option<RegisteredChannel>,
}

pub struct Run {
    pub session: session::Session,
    pub pending: Option<RegisteredChannel>,
}

impl View for SessionRun {
    type V = Run;

    open spec fn view(&self) -> Run {
        Run { session: self.session@, pending: self.pending_replacement }
    }
}

/// A registration that waited is taken into use once no call is left.
pub open spec fn taken_over(r: Run, now: u64) -> Run {
    match r.pending {
        Some(replacement) => if r.session.calls.len() == 0 {
            Run { session: activated(r.session, replacement, now), pending: None }
        } else {
            r
        },
        None => r,
    }
}

pub open spec fn takes_over(r: Run) -> bool {
    r.pending is Some && r.session.calls.len() == 0
}

/// Is the registration in use still valid? One that has expired ends the session,
/// or, while calls are up, only takes no more.
pub open spec fn validity_of(r: Run, now: u64) -> Result<bool, Seq<char>> {
    if now < r.session.context.expires_at {
        Ok(true)
    } else if r.session.calls.len() == 0 {
        Err("vowifi_registration_expired"@)
    } else {
        Ok(false)
    }
}

/// What a channel that cannot be read leads to.
#[derive(Debug, PartialEq, Eq)]
pub enum ReadFailure {
    /// Nothing arrived in time.
    Timeout,
    /// The calls ended; the session goes on with a new registration or stops.
    Ended { calls: Vec<String>, activated: bool },
}

pub open spec fn emptied(r: Run) -> Run {
    Run { session: session::Session { calls: seq![], ..r.session }, ..r }
}

impl SessionRun {
    pub open spec fn waiting_reaches(&self, now: u64) -> bool {
        self.pending_replacement matches Some(p) ==> timers_reach(p.context, now)
    }

    pub fn new(registration: RegisteredChannel, supplementary: bool, now: u64) -> (r: Self)
        requires
            timers_reach(registration.context, now),
        ensures
            r@ == (Run { session: fresh_session(registration, supplementary, now), pending: None }),
    {
        let session = VoiceSession {
            next_tcp_keepalive: next_interval(registration.context.tcp_keepalive_interval, now),
            next_options_ping: next_interval(registration.context.options_ping_interval, now),
            next_options_cseq: 1,
            context: registration.context,
            channel: registration.channel,
            calls: Vec::new(),
            supplementary,
            mwi_subscription: None,
        };
        assert(session::entries_of(session.calls@) =~= seq![]);
        SessionRun { session, pending_replacement: None }
    }

    fn take_over(&mut self, now: u64) -> (r: bool)
        requires
            old(self).waiting_reaches(now),
        ensures
            final(self)@ == taken_over(old(self)@, now),
            r == takes_over(old(self)@),
    {
        assert(self@.session.calls.len() == self.session.calls@.len());
        if self.session.calls.len() > 0 {
            return false;
        }
        match self.pending_replacement.take() {
            Some(replacement) => {
                activate_registration(&mut self.session, replacement, now);
                true
            },
            None => false,
        }
    }

    /// Begins a turn: takes a registration that waited into use, once no call is left.
    /// Where it does, whether or not that registration is still valid, the line is
    /// subscribed on it and reported ready before `check_validity` is asked.
    pub fn begin_turn(&mut self, now: u64) -> (r: bool)
        requires
            old(self).waiting_reaches(now),
        ensures
            final(self)@ == taken_over(old(self)@, now),
            r == takes_over(old(self)@),
    {
        self.take_over(now)
    }

    /// Is the registration in use still valid? Where it is not and calls are up, the
    /// line is reported not ready; without calls the session ends.
    pub fn check_validity(&self, now: u64) -> (r: Result<bool, &'static str>)
        ensures
            match r {
                Ok(valid) => validity_of(self@, now) == Ok::<_, Seq<char>>(valid),
                Err(e) => validity_of(self@, now) == Err::<bool, _>(e@),
            },
    {
        assert(self@.session.calls.len() == self.session.calls@.len());
        if now < self.session.context.expires_at {
            Ok(true)
        } else if self.session.calls.len() == 0 {
            Err("vowifi_registration_expired")
        } else {
            Ok(false)
        }
    }

    /// Takes a new registration: at once, or when the last call has ended.
    pub fn replace(&mut self, replacement: RegisteredChannel, now: u64) -> (r: bool)
        requires
            timers_reach(replacement.context, now),
        ensures
            r == (old(self)@.session.calls.len() == 0),
            final(self)@ == (if r {
                Run { session: activated(old(self)@.session, replacement, now), ..old(self)@ }
            } else {
                Run { pending: Some(replacement), ..old(self)@ }
            }),
    {
        assert(self@.session.calls.len() == self.session.calls@.len());
        if self.session.calls.len() == 0 {
            activate_registration(&mut self.session, replacement, now);
            true
        } else {
            self.pending_replacement = Some(replacement);
            false
        }
    }

    /// The channel could not be read.
    pub fn read_failed(&mut self, code: &str, now: u64) -> (r: ReadFailure)
        requires
            old(self).waiting_reaches(now),
        ensures
            match r {
                ReadFailure::Timeout => code@ == "ims_channel_read_timeout"@ && final(self)@
                    == old(self)@,
                ReadFailure::Ended { calls, activated } => {
                    &&& code@ != "ims_channel_read_timeout"@
                    &&& text::texts(calls@) == names_upto(
                        old(self)@.session.calls,
                        old(self)@.session.calls.len() as int,
                    )
                    &&& activated == (old(self)@.pending is Some)
                    &&& final(self)@ == taken_over(emptied(old(self)@), now)
                },
            },
    {
        if text::str_same(code, "ims_channel_read_timeout") {
            return ReadFailure::Timeout;
        }
        let calls = end_active_calls(&mut self.session);
        let activated: bool = self.take_over(now);
        ReadFailure::Ended { calls, activated }
    }
}

// --------------------------------------------------------------- message waiting

pub open spec fn subscription_ids(
    previous: Option<supplementary::Ids>,
    branch: Seq<char>,
    from_tag: Seq<char>,
    call_id: Seq<char>,
) -> supplementary::Ids {
    match previous {
        Some(ids) => supplementary::Ids {
            branch,
            cseq: crate::operator::call::after_cseq(ids.cseq),
            ..ids
        },
        None => supplementary::Ids { branch, from_tag, to_tag: None, call_id, cseq: 1 },
    }
}

/// The headers that a request has from its access.
pub open spec fn access_headers(c: RegisteredVoiceContext) -> Seq<sip_message::Header> {
    let pani = seq![supplementary::header("P-Access-Network-Info"@, c.pani@)];
    match c.security_verify {
        Some(v) => pani.push(supplementary::header("Security-Verify"@, v@)),
        None => pani,
    }
}

pub open spec fn subscribe_bytes(c: RegisteredVoiceContext, ids: supplementary::Ids) -> Seq<u8> {
    sip_message::request_bytes(
        supplementary::subscribe_request(
            c.identity.public_uri@,
            c.identity.contact_user@,
            c.route,
            text::opt_text(c.registration.service_route),
            ids,
            MWI_SUBSCRIBE_EXPIRES_SECONDS,
            c.user_agent@,
            access_headers(c),
        ),
    )
}

/// How a message-waiting subscription begins or goes on.
#[derive(Debug, PartialEq, Eq)]
pub enum MwiStart {
    /// The line has no runtime to tell.
    Nothing,
    /// Another access owns the subscription: it is given up here.
    Dropped,
    /// A SUBSCRIBE is to be sent; where `begin` is set, the runtime is told first.
    Subscribe { begin: bool, ids: SubscribeIds, frame: Vec<u8> },
}

pub open spec fn mwi_previous(s: session::Session) -> Option<supplementary::Ids> {
    match s.mwi {
        Some(sub) => Some(sub.ids),
        None => None,
    }
}

fn access_header_list(c: &RegisteredVoiceContext) -> (r: Vec<SipHeader>)
    ensures
        sip_message::headers_of(r@) == access_headers(*c),
{
    let mut r: Vec<SipHeader> = Vec::new();
    assert(sip_message::headers_of(r@) =~= seq![]);
    add_header(&mut r, "P-Access-Network-Info", c.pani.as_str());
    if let Some(v) = &c.security_verify {
        add_header(&mut r, "Security-Verify", v.as_str());
    }
    assert(sip_message::headers_of(r@) =~= access_headers(*c));
    r
}

impl VoiceSession {
    /// Begins or renews the message-waiting subscription. `owned` says whether a
    /// subscription that is there still belongs to this access.
    pub fn start_mwi_subscription(
        &mut self,
        owned: bool,
        branch: String,
        from_tag: String,
        call_id: String,
    ) -> (r: MwiStart)
        ensures
            ({
                let s = old(self)@;
                let ids = subscription_ids(mwi_previous(s), branch@, from_tag@, call_id@);
                match r {
                    MwiStart::Nothing => !s.supplementary && final(self)@ == s,
                    MwiStart::Dropped => {
                        &&& s.supplementary
                        &&& s.mwi is Some
                        &&& !owned
                        &&& final(self)@ == (session::Session { mwi: None, ..s })
                    },
                    MwiStart::Subscribe { begin, ids: sent, frame } => {
                        &&& s.supplementary
                        &&& s.mwi is Some ==> owned
                        &&& begin == (s.mwi is None)
                        &&& sent@ == ids
                        &&& frame@ == subscribe_bytes(s.context, ids)
                        &&& final(self)@ == (session::Session { mwi: None, ..s })
                    },
                }
            }),
    {
        if !self.supplementary {
            return MwiStart::Nothing;
        }
        let begin: bool = self.mwi_subscription.is_none();
        if !begin && !owned {
            self.mwi_subscription = None;
            return MwiStart::Dropped;
        }
        let ids = match self.mwi_subscription.take() {
            Some(previous) => SubscribeIds {
                branch,
                from_tag: previous.ids.from_tag,
                to_tag: previous.ids.to_tag,
                call_id: previous.ids.call_id,
                cseq: crate::operator::call::next_number(previous.ids.cseq),
            },
            None => SubscribeIds { branch, from_tag, to_tag: None, call_id, cseq: 1 },
        };
        let extra = access_header_list(&self.context);
        let frame = build_mwi_subscribe(
            &self.context.identity,
            &self.context.route,
            &self.context.registration,
            &ids,
            MWI_SUBSCRIBE_EXPIRES_SECONDS,
            self.context.user_agent.as_str(),
            &extra,
        );
        MwiStart::Subscribe { begin, ids, frame }
    }

    /// The SUBSCRIBE was sent.
    pub fn mwi_sent(&mut self, ids: SubscribeIds, now: u64)
        requires
            now + MWI_REFRESH_NANOS <= u64::MAX,
        ensures
            final(self)@ == (session::Session {
                mwi: Some(
                    session::Subscription {
                        ids: ids@,
                        refresh_at: (now + MWI_REFRESH_NANOS) as u64,
                    },
                ),
                ..old(self)@
            }),
    {
        self.mwi_subscription = Some(
            MwiSubscription { ids, refresh_at: now + MWI_REFRESH_NANOS },
        );
    }
}

// ------------------------------------------------------------------ keeping alive

pub open spec fn options_route(c: RegisteredVoiceContext) -> Seq<char> {
    match c.registration.service_route {
        Some(route) => route@,
        None => "<sip:"@ + ip_text::sip_host_form(c.route.pcscf_addr.ip) + ":"@ + text::decimal(
            c.route.pcscf_addr.port as nat,
        ) + ";transport="@ + c.route.transport.param() + ";lr>"@,
    }
}

pub open spec fn options_headers(c: RegisteredVoiceContext) -> Seq<sip_message::Header> {
    let first = seq![
        supplementary::header("Route"@, options_route(c)),
        supplementary::header(
            "P-Preferred-Identity"@,
            supplementary::bracketed(c.identity.public_uri@),
        ),
        supplementary::header("P-Access-Network-Info"@, c.pani@),
        supplementary::header("Accept"@, "application/sdp"@),
    ];
    let secured = match c.security_verify {
        Some(v) => first.push(supplementary::header("Security-Verify"@, v@)),
        None => first,
    };
    secured.push(supplementary::header("User-Agent"@, c.user_agent@))
}

/// The OPTIONS request that keeps a registration's path alive.
pub open spec fn options_request(
    c: RegisteredVoiceContext,
    cseq: u32,
    branch: Seq<char>,
    from_tag: Seq<char>,
    call_id: Seq<char>,
) -> sip_message::Request {
    sip_message::Request {
        method: "OPTIONS"@,
        request_uri: c.identity.public_uri@,
        route: c.route,
        branch,
        from_uri: c.identity.public_uri@,
        from_tag,
        to_value: supplementary::bracketed(c.identity.public_uri@),
        call_id,
        cseq,
        headers: options_headers(c),
        body: seq![],
    }
}

fn options_route_value(c: &RegisteredVoiceContext) -> (r: String)
    ensures
        r@ == options_route(*c),
{
    match &c.registration.service_route {
        Some(route) => copy_str(route.as_str()),
        None => {
            let mut out: Vec<char> = Vec::new();
            text::push_str(&mut out, "<sip:");
            ip_text::push_sip_host(&mut out, c.route.pcscf_addr.ip);
            text::push_str(&mut out, ":");
            text::push_decimal(&mut out, c.route.pcscf_addr.port as u64);
            text::push_str(&mut out, ";transport=");
            text::push_str(&mut out, c.route.transport.as_param());
            text::push_str(&mut out, ";lr>");
            assert(out@ =~= options_route(*c));
            text::string_of(out.as_slice())
        },
    }
}

fn options_header_list(c: &RegisteredVoiceContext) -> (r: Vec<SipHeader>)
    ensures
        sip_message::headers_of(r@) == options_headers(*c),
{
    let mut r: Vec<SipHeader> = Vec::new();
    assert(sip_message::headers_of(r@) =~= seq![]);
    let route = options_route_value(c);
    let own = supplementary::bracket_uri(c.identity.public_uri.as_str());
    add_header(&mut r, "Route", route.as_str());
    add_header(&mut r, "P-Preferred-Identity", own.as_str());
    add_header(&mut r, "P-Access-Network-Info", c.pani.as_str());
    add_header(&mut r, "Accept", "application/sdp");
    if let Some(v) = &c.security_verify {
        add_header(&mut r, "Security-Verify", v.as_str());
    }
    add_header(&mut r, "User-Agent", c.user_agent.as_str());
    assert(sip_message::headers_of(r@) =~= options_headers(*c));
    r
}

pub fn build_options(
    context: &RegisteredVoiceContext,
    cseq: u32,
    branch: String,
    from_tag: String,
    call_id: String,
) -> (r: Vec<u8>)
    ensures
        r@ == sip_message::request_bytes(
            options_request(*context, cseq, branch@, from_tag@, call_id@),
        ),
{
    let request = SipRequest {
        method: copy_str("OPTIONS"),
        request_uri: copy_str(context.identity.public_uri.as_str()),
        route: context.route,
        branch,
        from_uri: copy_str(context.identity.public_uri.as_str()),
        from_tag,
        to_value: supplementary::bracket_uri(context.identity.public_uri.as_str()),
        call_id,
        cseq,
        headers: options_header_list(context),
        body: Vec::new(),
    };
    assert(request.body@ =~= seq![]);
    build_request(&request)
}

impl VoiceSession {
    /// A keepalive was sent: the next is due an interval from now.
    pub fn keepalive_sent(&mut self, now: u64)
        requires
            reaches(old(self).context.tcp_keepalive_interval, now),
        ensures
            final(self)@ == (session::Session {
                next_tcp_keepalive: after_interval(
                    old(self)@.context.tcp_keepalive_interval,
                    now,
                ),
                ..old(self)@
            }),
    {
        self.next_tcp_keepalive = next_interval(self.context.tcp_keepalive_interval, now);
    }

    /// The OPTIONS request that is due, under a number of its own.
    pub fn options_due(&mut self, branch: String, from_tag: String, call_id: String) -> (r: Vec<u8>)
        ensures
            r@ == sip_message::request_bytes(
                options_request(
                    old(self)@.context,
                    old(self)@.next_options_cseq,
                    branch@,
                    from_tag@,
                    call_id@,
                ),
            ),
            final(self)@ == (session::Session {
                next_options_cseq: crate::operator::call::after_cseq(
                    old(self)@.next_options_cseq,
                ),
                ..old(self)@
            }),
    {
        let frame = build_options(
            &self.context,
            self.next_options_cseq,
            branch,
            from_tag,
            call_id,
        );
        self.next_options_cseq = crate::operator::call::next_number(self.next_options_cseq);
        frame
    }

    /// An OPTIONS request was sent: the next is due an interval from now.
    pub fn options_sent(&mut self, now: u64)
        requires
            reaches(old(self).context.options_ping_interval, now),
        ensures
            final(self)@ == (session::Session {
                next_options_ping: after_interval(old(self)@.context.options_ping_interval, now),
                ..old(self)@
            }),
    {
        self.next_options_ping = next_interval(self.context.options_ping_interval, now);
    }
}

// ------------------------------------------------------------------------- laws

/// A registration that arrives while calls are up changes nothing of the
/// session: the calls go on where they are until the last one has ended.
pub proof fn law_registration_waits_for_calls(r: Run, now: u64)
    ensures
        r.session.calls.len() > 0 ==> taken_over(r, now) == r,
        r.session.calls.len() == 0 && r.pending is Some ==> {
            &&& taken_over(r, now).session.channel == r.pending->0.channel
            &&& taken_over(r, now).pending is None
        },
{
}

/// A session with calls never stops because its registration expired.
pub proof fn law_calls_outlive_the_registration(r: Run, now: u64)
    requires
        r.session.calls.len() > 0,
    ensures
        taken_over(r, now) == r,
        validity_of(r, now) is Ok,
{
}

/// A registration that expired while it waited is still taken into use; only then
/// does the session end.
pub proof fn law_expired_registration_is_taken_over_first(r: Run, now: u64, later: u64)
    requires
        takes_over(r),
        r.pending->0.context.expires_at <= now <= later,
    ensures
        taken_over(r, now).session.context == r.pending->0.context,
        taken_over(r, now).session.channel == r.pending->0.channel,
        taken_over(r, now).session.mwi is None,
        validity_of(taken_over(r, now), later) == Err::<bool, _>("vowifi_registration_expired"@),
{
}

} // verus!
