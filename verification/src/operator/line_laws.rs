//! How the sessions of the lines begin, run and end.

use crate::ip_text;
use crate::operator::call;
use crate::operator::media;
use crate::operator::registry;
use crate::operator::registry::{Handle, Installed};
use crate::operator::relays;
use crate::operator::relays::{HeldRelay, Use, Work};
use crate::operator::run;
use crate::operator::run::{RegisteredChannel, Run, MWI_REFRESH_NANOS, MWI_SUBSCRIBE_EXPIRES_SECONDS};
use crate::operator::session;
use crate::operator::session::{
    LinkState, OperatorCommand, RegisteredVoiceContext, RelayFailure, Session,
};
use crate::sip_laws;
use crate::sip_message;
use crate::sip_message::Header;
use crate::supplementary::Ids;
use crate::text;
use vstd::prelude::*;

verus! {

// --------------------------------------------------------------------------- lines

/// The first handle of a line is the one that is used, and a line without one has none.
pub proof fn law_line_is_found_by_its_id(handles: Seq<Handle>, line_id: Seq<char>)
    ensures
        ({
            let i = registry::line_at(handles, line_id);
            &&& 0 <= i <= handles.len()
            &&& i < handles.len() ==> handles[i].line_id == line_id
            &&& forall|j: int| 0 <= j < i ==> (#[trigger] handles[j]).line_id != line_id
        }),
{
    lemma_line(handles, line_id, 0);
}

proof fn lemma_line(handles: Seq<Handle>, line_id: Seq<char>, from: int)
    requires
        0 <= from <= handles.len(),
    ensures
        ({
            let i = registry::line_from(handles, line_id, from);
            &&& from <= i <= handles.len()
            &&& i < handles.len() ==> handles[i].line_id == line_id
            &&& forall|j: int| from <= j < i ==> (#[trigger] handles[j]).line_id != line_id
        }),
    decreases handles.len() - from,
{
    if from < handles.len() && handles[from].line_id != line_id {
        lemma_line(handles, line_id, from + 1);
    }
}

/// Asking for a line makes a handle for it where there is none: without a session, a profile
/// or a runtime. Every other line stays as it is.
pub proof fn law_new_line_starts_empty(handles: Seq<Handle>, line_id: Seq<char>)
    ensures
        ({
            let after = registry::with_line(handles, line_id);
            let i = registry::line_at(after, line_id);
            &&& 0 <= i < after.len()
            &&& after[i].line_id == line_id
            &&& forall|j: int| 0 <= j < handles.len() ==> (#[trigger] after[j]) == handles[j]
            &&& (forall|j: int| 0 <= j < handles.len() ==> (#[trigger] handles[j]).line_id != line_id)
                ==> after.len() == handles.len() + 1 && !after.last().ready
                && after.last().installed is None && after.last().supplementary is None
                && after.last().generation == 0
            &&& (exists|j: int|
                0 <= j < handles.len() && (#[trigger] handles[j]).line_id == line_id) ==> after
                == handles
        }),
{
    law_line_is_found_by_its_id(handles, line_id);
    let after = registry::with_line(handles, line_id);
    law_line_is_found_by_its_id(after, line_id);
    if registry::line_at(handles, line_id) >= handles.len() {
        assert(after[handles.len() as int].line_id == line_id);
    }
}

/// An installed session is ready under its profile and task, and a disconnected line has
/// neither; both count on, so that what is left of an earlier session can be told apart.
pub proof fn law_installed_session_is_ready(h: Handle, profile_id: Seq<char>, task: u64)
    ensures
        ({
            let on = registry::installed_handle(h, profile_id, task);
            let off = registry::disconnected_handle(h);
            &&& on.ready && on.installed == Some(Installed { profile_id, task })
            &&& on.line_id == h.line_id && on.supplementary == h.supplementary
            &&& !off.ready && off.installed is None
            &&& off.line_id == h.line_id && off.supplementary == h.supplementary
            &&& h.generation < u64::MAX ==> on.generation == h.generation + 1 && off.generation
                == h.generation + 1
            &&& registry::same_profile(on, profile_id)
            &&& forall|other: Seq<char>|
                other != profile_id ==> !#[trigger] registry::same_profile(on, other)
            &&& registry::stopped_task(on) == Some(task)
            &&& registry::stopped_task(off) is None
        }),
{
}

// --------------------------------------------------------------------------- relays

/// A relay is started only for a call that put it into operation, and closed only where no
/// call holds it.
pub proof fn law_relays_are_not_touched_without_need(held: Seq<HeldRelay>, uses: Seq<Use>, w: Work)
    requires
        relays::work_for(held, uses).contains(w),
    ensures
        match w {
            Work::Start(a) => exists|i: int|
                0 <= i < uses.len() && (#[trigger] uses[i]).active == Some(a) && !relays::runs(
                    held,
                    uses[i].relay,
                ),
            Work::Close(relay) => !relays::used(uses, relay) && exists|i: int|
                0 <= i < held.len() && (#[trigger] held[i]).relay == relay,
        },
{
    let starts = relays::starts_upto(held, uses, uses.len() as int);
    let closes = relays::closes_upto(held, uses, held.len() as int);
    let all = relays::work_for(held, uses);
    let k = choose|k: int| 0 <= k < all.len() && all[k] == w;
    lemma_starts(held, uses, uses.len() as int);
    lemma_closes(held, uses, held.len() as int);
    if k < starts.len() {
        assert(starts[k] == w);
    } else {
        assert(closes[k - starts.len()] == w);
    }
}

pub open spec fn right_start(held: Seq<HeldRelay>, uses: Seq<Use>, w: Work) -> bool {
    w matches Work::Start(a) && exists|i: int|
        0 <= i < uses.len() && (#[trigger] uses[i]).active == Some(a) && !relays::runs(
            held,
            uses[i].relay,
        )
}

pub open spec fn right_close(held: Seq<HeldRelay>, uses: Seq<Use>, w: Work) -> bool {
    w matches Work::Close(relay) && !relays::used(uses, relay) && exists|i: int|
        0 <= i < held.len() && (#[trigger] held[i]).relay == relay
}

proof fn lemma_starts(held: Seq<HeldRelay>, uses: Seq<Use>, n: int)
    requires
        0 <= n <= uses.len(),
    ensures
        forall|k: int|
            0 <= k < relays::starts_upto(held, uses, n).len() ==> right_start(
                held,
                uses,
                #[trigger] relays::starts_upto(held, uses, n)[k],
            ),
    decreases n,
{
    if n > 0 {
        lemma_starts(held, uses, n - 1);
        let before = relays::starts_upto(held, uses, n - 1);
        let now = relays::starts_upto(held, uses, n);
        assert forall|k: int| 0 <= k < now.len() implies right_start(held, uses, #[trigger] now[k]) by {
            if k < before.len() {
                assert(now[k] == before[k]);
            } else {
                let u = uses[n - 1];
                assert(u.active is Some);
            }
        }
    }
}

proof fn lemma_closes(held: Seq<HeldRelay>, uses: Seq<Use>, n: int)
    requires
        0 <= n <= held.len(),
    ensures
        forall|k: int|
            0 <= k < relays::closes_upto(held, uses, n).len() ==> right_close(
                held,
                uses,
                #[trigger] relays::closes_upto(held, uses, n)[k],
            ),
    decreases n,
{
    if n > 0 {
        lemma_closes(held, uses, n - 1);
        let before = relays::closes_upto(held, uses, n - 1);
        let now = relays::closes_upto(held, uses, n);
        assert forall|k: int| 0 <= k < now.len() implies right_close(held, uses, #[trigger] now[k]) by {
            if k < before.len() {
                assert(now[k] == before[k]);
            } else {
                let h = held[n - 1];
            }
        }
    }
}

/// A call holds the relays that wait for an answer and those in operation, for its audio and
/// for its video, and no others.
pub proof fn law_call_holds_its_relays(m: media::Media)
    ensures
        ({
            let uses = relays::media_uses(m);
            &&& m.pending is Some ==> uses.contains(Use { relay: m.pending->0, active: None })
            &&& m.active is Some ==> uses.contains(
                Use { relay: m.active->0.relay, active: m.active },
            )
            &&& m.pending_video is Some ==> uses.contains(
                Use { relay: m.pending_video->0, active: None },
            )
            &&& m.active_video is Some ==> uses.contains(
                Use { relay: m.active_video->0.relay, active: m.active_video },
            )
            &&& forall|i: int|
                0 <= i < uses.len() ==> {
                    let u = #[trigger] uses[i];
                    ||| u.active is None && (m.pending == Some(u.relay) || m.pending_video == Some(
                        u.relay,
                    ))
                    ||| u.active is Some && u.active->0.relay == u.relay && (m.active == u.active
                        || m.active_video == u.active)
                }
        }),
{
    let a = relays::bound_use(m.pending);
    let b = relays::active_use(m.active);
    let c = relays::bound_use(m.pending_video);
    let d = relays::active_use(m.active_video);
    let uses = relays::media_uses(m);
    if m.pending is Some {
        assert(uses[0] == a[0]);
    }
    if m.active is Some {
        assert(uses[a.len() as int] == b[0]);
    }
    if m.pending_video is Some {
        assert(uses[(a + b).len() as int] == c[0]);
    }
    if m.active_video is Some {
        assert(uses[(a + b + c).len() as int] == d[0]);
    }
}

/// The relays of a command stand between the line's own address and the trunk's, and those of
/// a command that needs none are nowhere.
pub proof fn law_relays_stand_between_the_two_sides(
    s: Session,
    link: LinkState,
    command: OperatorCommand,
)
    ensures
        match session::command_addrs(s, link, command) {
            Some(a) => a.operator == s.context.route.local_addr.ip && match command {
                OperatorCommand::StartCall { trunk_local_ip, call_id, .. } => a.trunk
                    == trunk_local_ip && !session::has_call(s.calls, call_id@),
                OperatorCommand::Renegotiate { trunk_local_ip, .. } => a.trunk == trunk_local_ip,
                _ => false,
            },
            None => true,
        },
        session::command_need(s, link, command) is AudioAndVideo ==> link.video_enabled,
{
}

/// A relay that is not there is told with what failed and why.
pub proof fn law_relay_failures_are_told_apart(e: String)
    ensures
        session::relay_failure_text(false, RelayFailure::Bind(e)) == "vowifi_rtp_bind_failed:"@
            + e@,
        session::relay_failure_text(true, RelayFailure::Bind(e))
            == "vowifi_video_rtp_bind_failed:"@ + e@,
        session::relay_failure_text(false, RelayFailure::Local(e)) == "vowifi_rtp_local_failed:"@
            + e@,
        session::relay_failure_text(true, RelayFailure::Local(e))
            == "vowifi_video_rtp_local_failed:"@ + e@,
{
}

// --------------------------------------------------------------------------- time

/// A registration that is taken into use keeps the calls and starts its timers anew, each after
/// its own interval; what has no interval has no timer.
pub proof fn law_timers_start_with_the_registration(s: Session, r: RegisteredChannel, now: u64)
    requires
        run::timers_reach(r.context, now),
    ensures
        ({
            let a = run::activated(s, r, now);
            &&& a.calls == s.calls
            &&& a.context == r.context && a.channel == r.channel
            &&& a.mwi is None
            &&& a.next_options_cseq == 1
            &&& match r.context.tcp_keepalive_interval {
                Some(i) => a.next_tcp_keepalive is Some && a.next_tcp_keepalive->0 == now + i,
                None => a.next_tcp_keepalive is None,
            }
            &&& match r.context.options_ping_interval {
                Some(i) => a.next_options_ping is Some && a.next_options_ping->0 == now + i,
                None => a.next_options_ping is None,
            }
        }),
        run::fresh_session(r, s.supplementary, now).calls.len() == 0,
        run::fresh_session(r, s.supplementary, now) == run::activated(
            Session { calls: seq![], ..s },
            r,
            now,
        ),
{
}

/// A registration is valid until it expires; then the session ends, or only takes no more calls
/// while it has some.
pub proof fn law_registration_is_valid_until_it_expires(r: Run, now: u64)
    ensures
        now < r.session.context.expires_at <==> run::validity_of(r, now) == Ok::<_, Seq<char>>(true),
        now >= r.session.context.expires_at && r.session.calls.len() > 0 ==> run::validity_of(
            r,
            now,
        ) == Ok::<_, Seq<char>>(false),
        run::validity_of(r, now) is Err <==> now >= r.session.context.expires_at
            && r.session.calls.len() == 0,
{
}

/// A subscription is renewed before it runs out, with a twelfth of its time to spare.
pub proof fn law_subscription_is_renewed_in_time()
    ensures
        MWI_REFRESH_NANOS == MWI_SUBSCRIBE_EXPIRES_SECONDS * 1_000_000_000 / 12 * 11,
        MWI_SUBSCRIBE_EXPIRES_SECONDS == 3600,
{
}

/// A renewed subscription stays in its dialog and counts on; a new one has its own names and
/// begins with one.
pub proof fn law_renewed_subscription_stays_in_its_dialog(
    previous: Ids,
    branch: Seq<char>,
    from_tag: Seq<char>,
    call_id: Seq<char>,
)
    ensures
        ({
            let r = run::subscription_ids(Some(previous), branch, from_tag, call_id);
            &&& r.branch == branch
            &&& r.call_id == previous.call_id && r.from_tag == previous.from_tag && r.to_tag
                == previous.to_tag
            &&& previous.cseq < u32::MAX ==> r.cseq == previous.cseq + 1
        }),
        ({
            let r = run::subscription_ids(None, branch, from_tag, call_id);
            &&& r.branch == branch && r.call_id == call_id && r.from_tag == from_tag
            &&& r.to_tag is None && r.cseq == 1
        }),
{
}

/// Every further request of a dialog has the next number.
pub proof fn law_numbers_count_on(n: u32)
    ensures
        n < u32::MAX ==> call::after_cseq(n) == n + 1,
        call::after_cseq(n) >= n,
{
}

// --------------------------------------------------------------------------- requests

/// Every request of a line tells its access, and one of a secured line its security.
pub proof fn law_requests_tell_their_access(c: RegisteredVoiceContext)
    ensures
        ({
            let h = run::access_headers(c);
            &&& h[0] == (Header { name: "P-Access-Network-Info"@, value: c.pani@ })
            &&& c.security_verify is Some ==> h.len() == 2 && h[1] == (Header {
                name: "Security-Verify"@,
                value: c.security_verify->0@,
            })
            &&& c.security_verify is None ==> h.len() == 1
        }),
{
}

/// The request that keeps a path alive goes from the line to itself, over the registered route
/// or straight to the proxy; it comes from the line's local address.
pub proof fn law_path_is_kept_alive_by_options(
    c: RegisteredVoiceContext,
    cseq: u32,
    branch: Seq<char>,
    from_tag: Seq<char>,
    call_id: Seq<char>,
)
    ensures
        ({
            let r = run::options_request(c, cseq, branch, from_tag, call_id);
            &&& r.method == "OPTIONS"@
            &&& r.request_uri == c.identity.public_uri@ && r.from_uri == c.identity.public_uri@
            &&& r.to_value == seq!['<'] + c.identity.public_uri@ + seq!['>']
            &&& r.branch == branch && r.from_tag == from_tag && r.call_id == call_id && r.cseq
                == cseq
            &&& r.body.len() == 0
            &&& sip_laws::sent_by(sip_message::via_value(r)) == Some(c.route.local_addr)
            &&& r.headers[0].name == "Route"@
            &&& c.registration.service_route is Some ==> r.headers[0].value
                == c.registration.service_route->0@
            &&& c.registration.service_route is None ==> r.headers[0].value == "<sip:"@
                + ip_text::sip_host_form(c.route.pcscf_addr.ip) + ":"@ + text::decimal(
                c.route.pcscf_addr.port as nat,
            ) + ";transport="@ + (if c.route.transport is Udp {
                "udp"@
            } else {
                "tcp"@
            }) + ";lr>"@
            &&& r.headers.contains(Header { name: "P-Access-Network-Info"@, value: c.pani@ })
            &&& c.security_verify is Some ==> r.headers.contains(
                Header { name: "Security-Verify"@, value: c.security_verify->0@ },
            )
            &&& r.headers.last() == (Header { name: "User-Agent"@, value: c.user_agent@ })
        }),
{
    let r = run::options_request(c, cseq, branch, from_tag, call_id);
    sip_laws::law_request_comes_from_the_local_address(r);
    assert(r.headers[2] == (Header { name: "P-Access-Network-Info"@, value: c.pani@ }));
    if c.security_verify is Some {
        assert(r.headers[4] == (Header {
            name: "Security-Verify"@,
            value: c.security_verify->0@,
        }));
    }
}

} // verus!
