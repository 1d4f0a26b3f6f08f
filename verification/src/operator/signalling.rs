//! What the commands of a trunk and the frames of a network amount to, as a whole
//! session answers them.

use crate::operator::call::{Act, Call, Event, Frame};
use crate::operator::media::DtmfSignal;
use crate::operator::session::{Entry, LinkState, OperatorCommand, Outside, Session};
use crate::operator::{call, frames, session};
use crate::{sip_frame, text};
use vstd::prelude::*;

verus! {

/// Call `c` stands at `k`, under a name that no other call has.
pub open spec fn stands(s: Session, k: int, id: Seq<char>, c: Call) -> bool {
    &&& 0 <= k < s.calls.len()
    &&& s.calls[k] == (Entry { id, call: c })
    &&& forall|j: int| 0 <= j < s.calls.len() && j != k ==> (#[trigger] s.calls[j]).id != id
}

/// The session with another call at `k`, and nothing else changed.
pub open spec fn with_call_at(s: Session, k: int, id: Seq<char>, c: Call) -> Session {
    Session { calls: s.calls.update(k, Entry { id, call: c }), ..s }
}

/// The session without the call at `k`, and nothing else changed.
pub open spec fn without_call_at(s: Session, k: int) -> Session {
    Session { calls: s.calls.remove(k), ..s }
}

pub(crate) proof fn lemma_stands(s: Session, k: int, id: Seq<char>, c: Call)
    requires
        stands(s, k, id, c),
    ensures
        session::has_call(s.calls, id),
        session::call_of(s.calls, id) == c,
        session::index_of(s.calls, id) == k,
        forall|d: Call| #[trigger]
            session::with_call(s.calls, id, d) == with_call_at(s, k, id, d).calls,
        session::without_call(s.calls, id) == without_call_at(s, k).calls,
{
    session::lemma_index(s.calls, id, 0);
    let i = session::index_of(s.calls, id);
    if i != k {
        if i < s.calls.len() {
            assert(s.calls[i].id == id);
        } else {
            assert(s.calls[k].id != id);
        }
    }
}

// -------------------------------------------------------------------- commands

/// Hanging up takes the call out, and no other, and tells the far end: with a BYE of
/// the dialog under the next number where the far end is known by a tag, and else with
/// a CANCEL of the request that opened the call.
pub proof fn law_hangup_tells_the_far_end(
    s: Session,
    link: LinkState,
    command: OperatorCommand,
    o: Outside,
    k: int,
    c: Call,
)
    requires
        stands(s, k, command.id(), c),
        command is HangupCall || command is CancelCall,
    ensures
        ({
            let (next, sent, told) = frames::handled_command(s, link, command, o);
            &&& next == without_call_at(s, k)
            &&& told is None
            &&& command is HangupCall && c.dialog.remote_tag is Some ==> sent == Some(
                Frame::Bye { dialog: c.dialog, remote_uri: c.remote_uri, cseq: c.next_cseq },
            )
            &&& command is CancelCall || c.dialog.remote_tag is None ==> sent == Some(
                Frame::Cancel { dialog: c.dialog, remote_uri: c.remote_uri, branch: c.branch },
            )
        }),
{
    lemma_stands(s, k, command.id(), c);
}

/// A key press goes out as it came, in an INFO of the dialog under the next number,
/// which is then used up. Nothing else of the call changes, and no other call does.
pub proof fn law_key_press_is_sent_on(
    s: Session,
    link: LinkState,
    command: OperatorCommand,
    o: Outside,
    k: int,
    c: Call,
    pressed: DtmfSignal,
)
    requires
        stands(s, k, command.id(), c),
        command matches OperatorCommand::SendDtmf { signal, .. } && signal == pressed,
        c.next_cseq < u32::MAX,
    ensures
        frames::handled_command(s, link, command, o) == (
            with_call_at(
                s,
                k,
                command.id(),
                Call { next_cseq: (c.next_cseq + 1) as u32, ..c },
            ),
            Some(
                Frame::Info {
                    dialog: c.dialog,
                    remote_uri: c.remote_uri,
                    cseq: c.next_cseq,
                    signal: pressed,
                },
            ),
            None::<Event>,
        ),
{
    lemma_stands(s, k, command.id(), c);
}

/// A command on a call that is not there sends nothing and changes no call.
pub proof fn law_unknown_calls_are_left_alone(
    s: Session,
    link: LinkState,
    command: OperatorCommand,
    o: Outside,
)
    requires
        forall|j: int| 0 <= j < s.calls.len() ==> (#[trigger] s.calls[j]).id != command.id(),
        !(command is StartCall),
    ensures
        ({
            let (next, sent, told) = frames::handled_command(s, link, command, o);
            &&& next == s
            &&& sent is None
            &&& told == if command is Renegotiate {
                Some(Event::Rejected { call_id: command.id(), status: 488 })
            } else {
                None
            }
        }),
{
    session::lemma_index(s.calls, command.id(), 0);
}

/// A call that is started is there under its name, beside the calls that were there. Its
/// INVITE opens the dialog that was drawn for it, under the number of that dialog; the
/// next request has the number behind. It is not answered yet, no far end is known, and
/// its relays are those that were bound.
pub proof fn law_started_call_is_there(
    s: Session,
    link: LinkState,
    command: OperatorCommand,
    o: Outside,
)
    requires
        command is StartCall,
        o.dialog.cseq < u32::MAX,
    ensures
        ({
            let (next, sent, told) = frames::handled_command(s, link, command, o);
            let n = s.calls.len() as int;
            &&& sent is Some ==> {
                &&& forall|j: int|
                    0 <= j < n ==> (#[trigger] s.calls[j]).id != command.id()
                &&& next.calls.len() == n + 1
                &&& next.calls.take(n) == s.calls
                &&& next.calls[n].id == command.id()
                &&& next.calls[n].call.dialog == o.dialog@
                &&& next.calls[n].call.next_cseq == o.dialog.cseq + 1
                &&& !next.calls[n].call.answered && !next.calls[n].call.trunk_reinvite
                &&& next.calls[n].call.invite is None && next.calls[n].call.network_reinvite is None
                &&& o.audio matches Ok(pair) && next.calls[n].call.media.pending == Some(
                    pair.relay,
                ) && next.calls[n].call.media.operator_local == pair.operator_local
                    && next.calls[n].call.media.internal_local == pair.internal_local
                &&& next.calls[n].call.media.active is None
                &&& sent matches Some(Frame::Invite { dialog, remote_uri, .. }) && dialog
                    == o.dialog@ && remote_uri == next.calls[n].call.remote_uri
                &&& told is None
            }
            &&& sent is None ==> told == Some(Event::Unavailable { call_id: command.id() })
        }),
{
    session::lemma_index(s.calls, command.id(), 0);
    let (next, sent, told) = frames::handled_command(s, link, command, o);
    if sent is Some {
        assert(next.calls.take(s.calls.len() as int) =~= s.calls);
    }
}

/// Refusing a call answers the request that opened it with the status of the trunk, and
/// takes the call out.
pub proof fn law_refusal_answers_the_request(
    s: Session,
    link: LinkState,
    command: OperatorCommand,
    o: Outside,
    k: int,
    c: Call,
    asked: u16,
)
    requires
        stands(s, k, command.id(), c),
        command matches OperatorCommand::RejectCall { status, .. } && status == asked,
    ensures
        frames::handled_command(s, link, command, o).0 == without_call_at(s, k),
        c.invite matches Some(invite) ==> (frames::handled_command(s, link, command, o).1 matches Some(
            Frame::Response { request, status, tag, body, .. },
        ) && request == invite && status == asked && tag == Some(c.dialog.local_tag) && body is None),
        c.invite is None ==> frames::handled_command(s, link, command, o).1 is None,
{
    lemma_stands(s, k, command.id(), c);
}

/// Taking a call answers the request that opened it with 200 and a body, once: a call
/// that is answered is not answered again.
pub proof fn law_call_is_answered_once(
    s: Session,
    link: LinkState,
    command: OperatorCommand,
    o: Outside,
    k: int,
    c: Call,
)
    requires
        stands(s, k, command.id(), c),
        command is AcceptCall,
    ensures
        ({
            let (next, sent, _) = frames::handled_command(s, link, command, o);
            &&& c.answered ==> sent is None
            &&& sent is Some ==> next.calls[k].call.answered
            &&& sent matches Some(f) ==> (f matches Frame::Response {
                request,
                status,
                tag,
                contact,
                body,
                ..
            } && Some(request) == c.invite && status == 200 && tag == Some(c.dialog.local_tag)
                && contact is Some && body is Some)
            &&& c.invite is Some && !c.answered && !(sent is Some) ==> next.calls[k].call.answered
                == c.answered
        }),
{
    lemma_stands(s, k, command.id(), c);
}

/// Progress of an incoming call answers the request that opened it with the status of the
/// trunk; the call goes on unanswered.
pub proof fn law_progress_answers_the_request(
    s: Session,
    link: LinkState,
    command: OperatorCommand,
    o: Outside,
    k: int,
    c: Call,
    asked: u16,
)
    requires
        stands(s, k, command.id(), c),
        command matches OperatorCommand::ReportProvisional { status, body, .. } && status == asked
            && body is None,
        c.invite is Some,
    ensures
        ({
            let (next, sent, _) = frames::handled_command(s, link, command, o);
            &&& next == s
            &&& sent matches Some(Frame::Response { request, status, tag, body, .. })
            &&& request == c.invite->0 && status == asked && tag == Some(c.dialog.local_tag)
            &&& body is None
        }),
{
    lemma_stands(s, k, command.id(), c);
    assert(with_call_at(s, k, command.id(), c).calls =~= s.calls);
}

/// Other media is asked for by a re-INVITE of the dialog under the next number. That
/// number is the dialog's from then on, and the one behind it the next.
pub proof fn law_new_media_is_asked_for(
    s: Session,
    link: LinkState,
    command: OperatorCommand,
    o: Outside,
    k: int,
    c: Call,
)
    requires
        stands(s, k, command.id(), c),
        command matches OperatorCommand::Renegotiate { offer, .. } && offer@.video is None,
        o.audio is Ok,
        c.network_reinvite is None && !c.trunk_reinvite,
        c.next_cseq < u32::MAX,
    ensures
        ({
            let (next, sent, told) = frames::handled_command(s, link, command, o);
            let d = next.calls[k].call;
            &&& told is None
            &&& next == with_call_at(s, k, command.id(), d)
            &&& sent matches Some(Frame::Reinvite { dialog, remote_uri, .. })
            &&& dialog == d.dialog && remote_uri == c.remote_uri
            &&& d.dialog == (call::Dialog { cseq: c.next_cseq, ..c.dialog })
            &&& d.next_cseq == c.next_cseq + 1
            &&& d.trunk_reinvite
            &&& d.media.pending == Some((o.audio->Ok_0).relay) && d.media.active == c.media.active
        }),
{
    lemma_stands(s, k, command.id(), c);
}

/// The answer to a re-INVITE of the network goes to that request: 200 with a body, or the
/// status of the trunk. Then none is open, and after a refusal the media is what it was.
pub proof fn law_network_change_is_answered(
    s: Session,
    link: LinkState,
    command: OperatorCommand,
    o: Outside,
    k: int,
    c: Call,
    open: Seq<u8>,
)
    requires
        stands(s, k, command.id(), c),
        command is AcceptRenegotiation || command is RejectRenegotiation,
        c.network_reinvite == Some(open),
    ensures
        ({
            let (next, sent, _) = frames::handled_command(s, link, command, o);
            &&& sent is Some ==> next.calls[k].call.network_reinvite is None
            &&& sent matches Some(f) ==> (f matches Frame::Response { request, tag, .. } && request
                == open && tag == Some(c.dialog.local_tag))
            &&& command is AcceptRenegotiation && sent is Some ==> (sent matches Some(
                Frame::Response { status, body, .. },
            ) && status == 200 && body is Some)
            &&& command matches OperatorCommand::RejectRenegotiation { status: asked, .. } ==> (
            sent matches Some(Frame::Response { status, body, .. }) && status == asked && body is None)
            &&& command is RejectRenegotiation ==> next.calls[k].call.media.active == c.media.active
                && next.calls[k].call.media.pending is None
        }),
{
    lemma_stands(s, k, command.id(), c);
}

// ------------------------------------------------------------------------ frames

/// A response of the network in the dialog of the call at `k`, which is not one to a
/// subscription.
pub open spec fn answers_call(s: Session, k: int, frame: Seq<u8>) -> bool {
    &&& 0 <= k < s.calls.len()
    &&& sip_frame::header_of(frame, "Call-ID"@) == Some(s.calls[k].call.dialog.call_id)
    &&& forall|j: int|
        0 <= j < k ==> (#[trigger] s.calls[j]).call.dialog.call_id
            != s.calls[k].call.dialog.call_id
    &&& s.mwi is None
    &&& text::starts(sip_frame::head_text(frame), "SIP/2.0 "@)
    &&& frame.len() >= 8 && frame.take(8) == seq![83u8, 73u8, 80u8, 47u8, 50u8, 46u8, 48u8, 32u8]
}

/// A response to an INVITE.
pub open spec fn answers_invite(frame: Seq<u8>) -> bool {
    sip_frame::header_of(frame, "CSeq"@) matches Some(cseq) && text::words(cseq).len() >= 2
        && text::alike(text::words(cseq)[1], "INVITE"@)
}

proof fn lemma_dialog(s: Session, k: int, i: int)
    requires
        0 <= i <= k < s.calls.len(),
        forall|j: int|
            0 <= j < k ==> (#[trigger] s.calls[j]).call.dialog.call_id
                != s.calls[k].call.dialog.call_id,
    ensures
        session::dialog_from(s.calls, s.calls[k].call.dialog.call_id, i) == k,
    decreases k - i,
{
    if i < k {
        lemma_dialog(s, k, i + 1);
    }
}

proof fn lemma_no_request(head: Seq<char>, method: Seq<char>)
    requires
        text::starts(head, "SIP/2.0 "@),
        method.len() > 0,
        method[0] != 'S',
    ensures
        !text::starts(head, method.push(' ')),
{
    reveal_strlit("SIP/2.0 ");
    if text::starts(head, method.push(' ')) {
        assert(head.subrange(0, method.push(' ').len() as int)[0] == method.push(' ')[0]);
        assert(head.subrange(0, 8)[0] == "SIP/2.0 "@[0]);
    }
}

/// A response in the dialog of a call goes to that call, and to no other.
pub(crate) proof fn lemma_response(
    s: Session,
    link: LinkState,
    frame: Seq<u8>,
    o: Outside,
    k: int,
    id: Seq<char>,
    c: Call,
)
    requires
        stands(s, k, id, c),
        answers_call(s, k, frame),
    ensures
        ({
            let (next, r) = call::response_step(c, id, frame, link.ip_connect_mode);
            frames::frame_step(s, link, frame, o) == (
                match next {
                    Some(d) => with_call_at(s, k, id, d),
                    None => without_call_at(s, k),
                },
                frames::acts_only(r),
            )
        }),
{
    lemma_stands(s, k, id, c);
    lemma_dialog(s, k, 0);
    let head = sip_frame::head_text(frame);
    reveal_strlit("NOTIFY");
    reveal_strlit("OPTIONS");
    reveal_strlit("MESSAGE");
    reveal_strlit("INVITE");
    reveal_strlit("BYE");
    reveal_strlit("CANCEL");
    reveal_strlit("INFO");
    lemma_no_request(head, "NOTIFY"@);
    lemma_no_request(head, "OPTIONS"@);
    lemma_no_request(head, "MESSAGE"@);
    lemma_no_request(head, "INVITE"@);
    lemma_no_request(head, "BYE"@);
    lemma_no_request(head, "CANCEL"@);
    lemma_no_request(head, "INFO"@);
}

/// A decimal number, and its value.
pub open spec fn writes_number(value: Seq<char>, n: u32) -> bool {
    let digits = text::trim(value);
    digits.len() > 0 && text::all_digits(digits) && text::decimal_value(digits) == n
}

/// Progress is reliable where `100rel` is listed among what the response requires, and has
/// the number that it writes.
proof fn lemma_reliable(
    frame: Seq<u8>,
    required: Seq<char>,
    number: Seq<char>,
    n: u32,
    j: int,
)
    ensures
        sip_frame::header_of(frame, "Require"@) == Some(required) && 0 <= j < text::split(
            required,
            ',',
        ).len() && text::alike(text::trim(text::split(required, ',')[j]), "100rel"@)
            && sip_frame::header_of(frame, "RSeq"@) == Some(number) && writes_number(number, n)
            ==> call::reliable_number(frame) == Some(n),
        sip_frame::header_of(frame, "Require"@) is None || (sip_frame::header_of(
            frame,
            "Require"@,
        ) == Some(required) && forall|i: int|
            0 <= i < text::split(required, ',').len() ==> !text::alike(
                text::trim(#[trigger] text::split(required, ',')[i]),
                "100rel"@,
            )) ==> call::reliable_number(frame) is None,
{
    let digits = text::trim(number);
    if writes_number(number, n) {
        assert(text::digit(digits[0]));
        assert(text::unsigned_digits(digits) == digits);
    }
    if sip_frame::header_of(frame, "Require"@) == Some(required) && 0 <= j < text::split(
        required,
        ',',
    ).len() && text::alike(text::trim(text::split(required, ',')[j]), "100rel"@) {
        assert(sip_frame::part_alike(required, ',', "100rel"@));
    }
}

/// Progress that the network sends reliably is acknowledged before it is reported. Where
/// a response with a provisional status to the INVITE lists `100rel` among what it
/// requires and has a number, exactly one PRACK goes out for that number: for the INVITE
/// of the dialog, under the next number of the call, which is used up. Then the status is
/// reported. Where `100rel` is not required, none goes out.
#[verifier::rlimit(50)]
pub proof fn law_reliable_progress_is_acknowledged(
    s: Session,
    link: LinkState,
    frame: Seq<u8>,
    o: Outside,
    k: int,
    id: Seq<char>,
    c: Call,
    required: Seq<char>,
    number: Seq<char>,
    n: u32,
    j: int,
    status: u16,
)
    requires
        stands(s, k, id, c),
        answers_call(s, k, frame),
        answers_invite(frame),
        sip_frame::status_of(frame) == Some(status as nat),
        100 <= status < 200,
        c.next_cseq < u32::MAX,
    ensures
        ({
            let (next, r) = frames::frame_step(s, link, frame, o);
            let listed = sip_frame::header_of(frame, "Require"@) == Some(required) && 0 <= j
                < text::split(required, ',').len() && text::alike(
                text::trim(text::split(required, ',')[j]),
                "100rel"@,
            );
            let numbered = sip_frame::header_of(frame, "RSeq"@) == Some(number) && writes_number(
                number,
                n,
            );
            let unlisted = sip_frame::header_of(frame, "Require"@) is None || (
            sip_frame::header_of(frame, "Require"@) == Some(required) && forall|i: int|
                0 <= i < text::split(required, ',').len() ==> !text::alike(
                    text::trim(#[trigger] text::split(required, ',')[i]),
                    "100rel"@,
                ));
            &&& sip_frame::body_of(frame).len() == 0 ==> r is Ok
            &&& r is Ok ==> r->Ok_0.acts.len() > 0 && (r->Ok_0.acts.last() matches Act::Event(
                Event::Provisional { call_id, status: told, body },
            ) && call_id == id && told == status && (body is Some <==> sip_frame::body_of(
                frame,
            ).len() > 0))
            &&& r is Ok && listed && numbered ==> {
                let acts = r->Ok_0.acts;
                &&& acts.len() == 2
                &&& acts[0] matches Act::Send(
                    Frame::Prack { dialog, remote_uri, cseq, rseq, invite_cseq },
                )
                &&& rseq == n
                &&& invite_cseq == c.dialog.cseq
                &&& cseq == c.next_cseq
                &&& remote_uri == c.remote_uri
                &&& dialog.call_id == c.dialog.call_id && dialog.local_tag == c.dialog.local_tag
                &&& next.calls[k].call.next_cseq == c.next_cseq + 1
            }
            &&& r is Ok && unlisted ==> r->Ok_0.acts.len() == 1
                && next.calls[k].call.next_cseq == c.next_cseq
        }),
{
    lemma_response(s, link, frame, o, k, id, c);
    lemma_reliable(frame, required, number, n, j);
}

/// A final success of an INVITE is acknowledged, in the dialog with the tag that it
/// brought, and then reported: at once, or with the first media where the trunk wants
/// that. The call is answered and goes on.
#[verifier::rlimit(50)]
pub proof fn law_success_is_acknowledged_and_reported(
    s: Session,
    link: LinkState,
    frame: Seq<u8>,
    o: Outside,
    k: int,
    id: Seq<char>,
    c: Call,
    status: u16,
)
    requires
        stands(s, k, id, c),
        answers_call(s, k, frame),
        answers_invite(frame),
        sip_frame::status_of(frame) == Some(status as nat),
        200 <= status < 300,
    ensures
        ({
            let (next, r) = frames::frame_step(s, link, frame, o);
            r is Ok ==> {
                let acts = r->Ok_0.acts;
                let d = next.calls[k].call;
                &&& next == with_call_at(s, k, id, d)
                &&& d.answered && !d.trunk_reinvite
                &&& d.next_cseq == c.next_cseq
                &&& acts.len() == 2
                &&& acts[0] == Act::Send(
                    Frame::Ack { dialog: d.dialog, remote_uri: c.remote_uri },
                )
                &&& match acts[1] {
                    Act::Event(Event::Answered { call_id, .. }) => call_id == id,
                    Act::AnswerOnFirstRtp { call_id, .. } => call_id == id
                        && link.ip_connect_mode is FirstRtp && !c.trunk_reinvite,
                    _ => false,
                }
                &&& link.ip_connect_mode is Immediate ==> acts[1] is Event
            }
        }),
{
    lemma_response(s, link, frame, o, k, id, c);
}

/// A final refusal of an INVITE is reported with its status. It ends a call that was to
/// be opened; a call whose media was to be changed goes on with the media that it had.
pub proof fn law_refusal_is_reported(
    s: Session,
    link: LinkState,
    frame: Seq<u8>,
    o: Outside,
    k: int,
    id: Seq<char>,
    c: Call,
    status: u16,
)
    requires
        stands(s, k, id, c),
        answers_call(s, k, frame),
        answers_invite(frame),
        sip_frame::status_of(frame) == Some(status as nat),
        status >= 300,
    ensures
        ({
            let (next, r) = frames::frame_step(s, link, frame, o);
            let d = next.calls[k].call;
            &&& r is Ok
            &&& r->Ok_0.acts == seq![Act::Event(Event::Rejected { call_id: id, status })]
            &&& !c.trunk_reinvite ==> next == without_call_at(s, k)
            &&& c.trunk_reinvite ==> next == with_call_at(s, k, id, d) && !d.trunk_reinvite
                && d.media.active == c.media.active && d.media.pending is None && d.answered
                == c.answered
        }),
{
    lemma_response(s, link, frame, o, k, id, c);
}

/// A response to anything but an INVITE changes nothing and asks for nothing.
pub proof fn law_other_responses_change_nothing(
    s: Session,
    link: LinkState,
    frame: Seq<u8>,
    o: Outside,
    k: int,
    id: Seq<char>,
    c: Call,
    cseq: Seq<char>,
)
    requires
        stands(s, k, id, c),
        answers_call(s, k, frame),
        sip_frame::status_of(frame) is Some,
        sip_frame::header_of(frame, "CSeq"@) == Some(cseq),
        text::words(cseq).len() >= 2,
        !text::alike(text::words(cseq)[1], "INVITE"@),
    ensures
        ({
            let (next, r) = frames::frame_step(s, link, frame, o);
            next == s && r is Ok && r->Ok_0.acts.len() == 0
        }),
{
    lemma_response(s, link, frame, o, k, id, c);
    assert(with_call_at(s, k, id, c).calls =~= s.calls);
}

/// A request of the network in the dialog of the call at `k`.
pub open spec fn requests_of_call(s: Session, k: int, frame: Seq<u8>, method: Seq<char>) -> bool {
    &&& 0 <= k < s.calls.len()
    &&& sip_frame::header_of(frame, "Call-ID"@) == Some(s.calls[k].call.dialog.call_id)
    &&& forall|j: int|
        0 <= j < k ==> (#[trigger] s.calls[j]).call.dialog.call_id
            != s.calls[k].call.dialog.call_id
    &&& s.mwi is None
    &&& text::starts(sip_frame::head_text(frame), method.push(' '))
}

proof fn lemma_one_method(head: Seq<char>, a: Seq<char>, b: Seq<char>, i: int)
    requires
        text::starts(head, a.push(' ')),
        0 <= i < a.len(),
        i < b.len(),
        a[i] != b[i],
    ensures
        !text::starts(head, b.push(' ')),
{
    if text::starts(head, b.push(' ')) {
        assert(head.subrange(0, a.push(' ').len() as int)[i] == a.push(' ')[i]);
        assert(head.subrange(0, b.push(' ').len() as int)[i] == b.push(' ')[i]);
    }
}

/// The far end hangs up: it is answered with 200, the trunk is told, and the call is gone.
/// No other call changes.
pub proof fn law_far_end_hangs_up(
    s: Session,
    link: LinkState,
    frame: Seq<u8>,
    o: Outside,
    k: int,
    id: Seq<char>,
    c: Call,
)
    requires
        stands(s, k, id, c),
        requests_of_call(s, k, frame, "BYE"@),
    ensures
        ({
            let (next, r) = frames::frame_step(s, link, frame, o);
            &&& next == without_call_at(s, k)
            &&& r is Ok && r->Ok_0.acts.len() == 2
            &&& r->Ok_0.acts[0] matches Act::Send(Frame::Response { request, status, .. })
            &&& request == frame && status == 200
            &&& r->Ok_0.acts[1] == Act::Event(Event::Ended { call_id: id })
        }),
{
    lemma_stands(s, k, id, c);
    lemma_dialog(s, k, 0);
    let head = sip_frame::head_text(frame);
    reveal_strlit("BYE");
    reveal_strlit("NOTIFY");
    reveal_strlit("OPTIONS");
    reveal_strlit("MESSAGE");
    reveal_strlit("INVITE");
    lemma_one_method(head, "BYE"@, "NOTIFY"@, 0);
    lemma_one_method(head, "BYE"@, "OPTIONS"@, 0);
    lemma_one_method(head, "BYE"@, "MESSAGE"@, 0);
    lemma_one_method(head, "BYE"@, "INVITE"@, 0);
}

/// The far end gives a call up before it is answered: its CANCEL gets 200, the INVITE gets
/// 487, the trunk is told, and the call is gone.
pub proof fn law_far_end_gives_up(
    s: Session,
    link: LinkState,
    frame: Seq<u8>,
    o: Outside,
    k: int,
    id: Seq<char>,
    c: Call,
)
    requires
        stands(s, k, id, c),
        requests_of_call(s, k, frame, "CANCEL"@),
        c.invite is Some,
    ensures
        ({
            let (next, r) = frames::frame_step(s, link, frame, o);
            &&& next == without_call_at(s, k)
            &&& r is Ok && r->Ok_0.acts.len() == 3
            &&& r->Ok_0.acts[0] matches Act::Send(Frame::Response { request: first, status: ok, .. })
            &&& first == frame && ok == 200
            &&& r->Ok_0.acts[1] matches Act::Send(
                Frame::Response { request: second, status: gone, tag, .. },
            )
            &&& Some(second) == c.invite && gone == 487 && tag == Some(c.dialog.local_tag)
            &&& r->Ok_0.acts[2] == Act::Event(Event::Cancelled { call_id: id })
        }),
{
    lemma_stands(s, k, id, c);
    lemma_dialog(s, k, 0);
    let head = sip_frame::head_text(frame);
    reveal_strlit("CANCEL");
    reveal_strlit("BYE");
    reveal_strlit("NOTIFY");
    reveal_strlit("OPTIONS");
    reveal_strlit("MESSAGE");
    reveal_strlit("INVITE");
    lemma_one_method(head, "CANCEL"@, "BYE"@, 0);
    lemma_one_method(head, "CANCEL"@, "NOTIFY"@, 0);
    lemma_one_method(head, "CANCEL"@, "OPTIONS"@, 0);
    lemma_one_method(head, "CANCEL"@, "MESSAGE"@, 0);
    lemma_one_method(head, "CANCEL"@, "INVITE"@, 0);
}

/// A key press of the far end is answered with 200 and handed to the trunk as it came.
/// The call goes on as it was.
pub proof fn law_far_end_presses_a_key(
    s: Session,
    link: LinkState,
    frame: Seq<u8>,
    o: Outside,
    k: int,
    id: Seq<char>,
    c: Call,
)
    requires
        stands(s, k, id, c),
        requests_of_call(s, k, frame, "INFO"@),
    ensures
        ({
            let (next, r) = frames::frame_step(s, link, frame, o);
            &&& next == s
            &&& r is Ok && r->Ok_0.acts.len() >= 1
            &&& r->Ok_0.acts[0] matches Act::Send(Frame::Response { request, status, .. })
            &&& request == frame && status == 200
            &&& o.dtmf matches Some(signal) ==> r->Ok_0.acts.len() == 2 && r->Ok_0.acts[1]
                == Act::Event(Event::Dtmf { call_id: id, signal })
            &&& o.dtmf is None ==> r->Ok_0.acts.len() == 1
        }),
{
    lemma_stands(s, k, id, c);
    lemma_dialog(s, k, 0);
    let head = sip_frame::head_text(frame);
    reveal_strlit("INFO");
    reveal_strlit("CANCEL");
    reveal_strlit("BYE");
    reveal_strlit("NOTIFY");
    reveal_strlit("OPTIONS");
    reveal_strlit("MESSAGE");
    reveal_strlit("INVITE");
    lemma_one_method(head, "INFO"@, "CANCEL"@, 0);
    lemma_one_method(head, "INFO"@, "BYE"@, 0);
    lemma_one_method(head, "INFO"@, "NOTIFY"@, 0);
    lemma_one_method(head, "INFO"@, "OPTIONS"@, 0);
    lemma_one_method(head, "INFO"@, "MESSAGE"@, 0);
    lemma_one_method(head, "INFO"@, "INVITE"@, 2);
}

/// A call that comes in and is taken on is there under a name of its own. It is answered
/// with 100 first, the trunk is told of it last, and only where the trunk takes calls at
/// once is it answered with 200 in between.
#[verifier::rlimit(50)]
pub proof fn law_incoming_call_is_announced(
    s: Session,
    link: LinkState,
    frame: Seq<u8>,
    o: Outside,
    ims_call_id: Seq<char>,
)
    requires
        sip_frame::header_of(frame, "Call-ID"@) == Some(ims_call_id),
        forall|j: int|
            0 <= j < s.calls.len() ==> (#[trigger] s.calls[j]).call.dialog.call_id != ims_call_id,
        forall|j: int| 0 <= j < s.calls.len() ==> (#[trigger] s.calls[j]).id != "vowifi-"@ + o.token@,
        s.mwi is None,
        text::starts(sip_frame::head_text(frame), "INVITE "@),
    ensures
        ({
            let (next, r) = frames::frame_step(s, link, frame, o);
            let n = s.calls.len() as int;
            let d = next.calls[n].call;
            &&& !(link.trunk_local_ip is Some && link.available) ==> next == s && r is Ok
                && r->Ok_0.acts.len() == 1 && (r->Ok_0.acts[0] matches Act::Send(
                Frame::Response { request, status, .. },
            ) && request == frame && status == 480)
            &&& r is Ok && next != s ==> {
                let acts = r->Ok_0.acts;
                &&& next.calls == s.calls.push(Entry { id: "vowifi-"@ + o.token@, call: d })
                &&& d.dialog.call_id == ims_call_id && d.dialog.local_tag == o.local_tag@
                &&& d.dialog.remote_tag is Some
                &&& d.invite == Some(frame)
                &&& d.answered == (link.incoming_mode is BoundImmediate)
                &&& o.audio matches Ok(pair) && d.media.pending == Some(pair.relay)
                &&& acts.len() == if d.answered {
                    3int
                } else {
                    2
                }
                &&& acts[0] matches Act::Send(Frame::Response { request, status, tag, .. })
                &&& request == frame && status == 100 && tag == Some(o.local_tag@)
                &&& d.answered ==> (acts[1] matches Act::Send(
                    Frame::Response { request, status, tag, body, .. },
                ) && request == frame && status == 200 && tag == Some(o.local_tag@) && body is Some)
                &&& acts.last() matches Act::Event(Event::Incoming { call_id, .. })
                &&& call_id == "vowifi-"@ + o.token@
            }
        }),
{
    lemma_incoming(s, link, frame, o, ims_call_id);
    session::lemma_index(s.calls, "vowifi-"@ + o.token@, 0);
    let (next, r) = frames::incoming_step(s, link, frame, ims_call_id, o);
    if r is Ok && next != s {
        let d = next.calls[s.calls.len() as int].call;
        assert(next.calls == s.calls.push(Entry { id: "vowifi-"@ + o.token@, call: d }));
        let first = frames::first_responses(frame, d, s.context.contact());
        assert(r->Ok_0 == first.push(r->Ok_0.last()));
    }
}

proof fn lemma_incoming(
    s: Session,
    link: LinkState,
    frame: Seq<u8>,
    o: Outside,
    ims_call_id: Seq<char>,
)
    requires
        sip_frame::header_of(frame, "Call-ID"@) == Some(ims_call_id),
        forall|j: int|
            0 <= j < s.calls.len() ==> (#[trigger] s.calls[j]).call.dialog.call_id != ims_call_id,
        s.mwi is None,
        text::starts(sip_frame::head_text(frame), "INVITE "@),
    ensures
        frames::frame_step(s, link, frame, o) == (
            frames::incoming_step(s, link, frame, ims_call_id, o).0,
            frames::acts_only(frames::incoming_step(s, link, frame, ims_call_id, o).1),
        ),
{
    reveal_strlit("INVITE ");
    reveal_strlit("INVITE");
    reveal_strlit("NOTIFY");
    reveal_strlit("OPTIONS");
    reveal_strlit("MESSAGE");
    let head = sip_frame::head_text(frame);
    assert("INVITE"@.push(' ') =~= "INVITE "@);
    lemma_one_method(head, "INVITE"@, "NOTIFY"@, 0);
    lemma_one_method(head, "INVITE"@, "OPTIONS"@, 0);
    lemma_one_method(head, "INVITE"@, "MESSAGE"@, 0);
    lemma_no_dialog(s.calls, ims_call_id, 0);
}

proof fn lemma_no_dialog(calls: Seq<Entry>, ims_call_id: Seq<char>, i: int)
    requires
        0 <= i <= calls.len(),
        forall|j: int|
            0 <= j < calls.len() ==> (#[trigger] calls[j]).call.dialog.call_id != ims_call_id,
    ensures
        session::dialog_from(calls, ims_call_id, i) == calls.len(),
    decreases calls.len() - i,
{
    if i < calls.len() {
        lemma_no_dialog(calls, ims_call_id, i + 1);
    }
}

/// A question for what the line can do, and a message, are answered with 200, and nothing
/// else is done.
pub proof fn law_other_requests_are_answered(
    s: Session,
    link: LinkState,
    frame: Seq<u8>,
    o: Outside,
)
    requires
        sip_frame::header_of(frame, "Call-ID"@) is Some,
        s.mwi is None,
        text::starts(sip_frame::head_text(frame), "OPTIONS "@) || text::starts(
            sip_frame::head_text(frame),
            "MESSAGE "@,
        ),
    ensures
        ({
            let (next, r) = frames::frame_step(s, link, frame, o);
            &&& next == s && r is Ok && r->Ok_0.acts.len() == 1
            &&& r->Ok_0.acts[0] matches Act::Send(Frame::Response { request, status, .. })
            &&& request == frame && status == 200
        }),
{
    reveal_strlit("OPTIONS ");
    reveal_strlit("MESSAGE ");
    reveal_strlit("OPTIONS");
    reveal_strlit("MESSAGE");
    reveal_strlit("NOTIFY");
    let head = sip_frame::head_text(frame);
    assert("OPTIONS"@.push(' ') =~= "OPTIONS "@);
    assert("MESSAGE"@.push(' ') =~= "MESSAGE "@);
    if text::starts(head, "OPTIONS "@) {
        lemma_one_method(head, "OPTIONS"@, "NOTIFY"@, 0);
    } else {
        lemma_one_method(head, "MESSAGE"@, "NOTIFY"@, 0);
    }
}

} // verus!
