//! Access-neutral supplementary-service models and SIP primitives.
//!
//! Call waiting, diversion, presentation and message waiting have one meaning,
//! whichever access the request travels over.

use crate::context::{ImsIdentity, ImsRoute, RegisteredImsContext};
use crate::ims_error::ImsError;
use crate::ip_text;
use crate::ip_text::push_sip_host;
use crate::sip_frame;
use crate::sip_frame::{body, has_part, header_parameter, header_value, is_request, is_response, parse_status};
use crate::sip_message;
use crate::sip_message::{add_header, add_headers, build_request, SipHeader, SipRequest};
use crate::text;
use crate::text::{chars_of, find, has_prefix, is_alike_text, is_text, lines_of, lowered, parse_u32};
use crate::text::{part_before, parts, push_decimal, push_str, split_once, str_same, string_of};
use crate::text::{trimmed, trimmed_char, trimmed_end_char, words_of};
use crate::utf8::decode_strict;
use vstd::prelude::*;
use vstd::slice::slice_subrange;
use vstd::utf8::*;

verus! {

#[derive(Debug, Clone, Copy, PartialEq, Eq, Structural)]
pub enum SupplementaryService {
    CallWaiting,
    CommunicationDiversion,
    OriginatingIdentityPresentation,
    OriginatingIdentityRestriction,
    MessageWaiting,
    DialogTransfer,
}

#[derive(Debug, Clone, PartialEq, Eq)]
pub struct CapabilityReadiness {
    pub supported: bool,
    pub ready: bool,
    pub reason: Option<String>,
}

impl Default for CapabilityReadiness {
    fn default() -> (r: Self)
        ensures
            !r.supported,
            !r.ready,
            text::opt_text(r.reason) == Some("supplementary_not_connected"@),
    {
        Self::unsupported("supplementary_not_connected")
    }
}

impl CapabilityReadiness {
    pub fn unsupported(reason: &str) -> (r: Self)
        ensures
            !r.supported,
            !r.ready,
            text::opt_text(r.reason) == Some(reason@),
    {
        let words = chars_of(reason);
        CapabilityReadiness {
            supported: false,
            ready: false,
            reason: Some(string_of(words.as_slice())),
        }
    }

    pub fn supported(ready: bool, reason: Option<String>) -> (r: Self)
        ensures
            r.supported,
            r.ready == ready,
            r.reason == reason,
    {
        CapabilityReadiness { supported: true, ready, reason }
    }
}

#[derive(Debug, Clone, Copy, PartialEq, Eq, Structural)]
pub enum NetworkToggleState {
    Enabled,
    Disabled,
    Unknown,
}

impl Default for NetworkToggleState {
    fn default() -> (r: Self)
        ensures
            r == NetworkToggleState::Unknown,
    {
        NetworkToggleState::Unknown
    }
}

#[derive(Debug, Clone, Copy, PartialEq, Eq, Structural)]
pub enum ForwardingCondition {
    Unconditional,
    Busy,
    NoReply,
    NotReachable,
}

#[derive(Debug, Clone, PartialEq, Eq)]
pub struct CallForwardingRule {
    pub condition: ForwardingCondition,
    pub enabled: bool,
    pub target_uri: Option<String>,
    pub no_reply_timer_seconds: Option<u16>,
    pub etag: Option<String>,
}

#[derive(Debug, Clone, Copy, PartialEq, Eq, Structural)]
pub enum IdentityPresentation {
    Allowed,
    Restricted,
    Unavailable,
}

#[derive(Debug, Clone, Copy, PartialEq, Eq, Structural)]
pub enum CallerIdentitySource {
    AssertedIdentity,
    From,
    RemotePartyId,
    Absent,
}

#[derive(Debug, Clone, PartialEq, Eq)]
pub struct CallerIdentity {
    pub presentation: IdentityPresentation,
    pub source: CallerIdentitySource,
    pub uri: Option<String>,
    pub display_name: Option<String>,
}

// ------------------------------------------------------------- caller identity

/// A caller identity as a value.
pub struct Caller {
    pub presentation: IdentityPresentation,
    pub source: CallerIdentitySource,
    pub uri: Option<Seq<char>>,
    pub display_name: Option<Seq<char>>,
}

impl View for CallerIdentity {
    type V = Caller;

    open spec fn view(&self) -> Caller {
        Caller {
            presentation: self.presentation,
            source: self.source,
            uri: text::opt_text(self.uri),
            display_name: text::opt_text(self.display_name),
        }
    }
}

pub open spec fn nonempty(s: Seq<char>) -> Option<Seq<char>> {
    if s.len() == 0 {
        None
    } else {
        Some(s)
    }
}

/// The display name and URI of a name-addr or a bare URI. Brackets in the wrong
/// order hold neither.
pub open spec fn name_addr(value: Seq<char>) -> (Option<Seq<char>>, Option<Seq<char>>) {
    let v = text::trim(value);
    let open = text::find_from(v, '<', 0);
    let close = text::find_from(v, '>', 0);
    if open < v.len() && close < v.len() {
        if close < open {
            (None, None)
        } else {
            (
                nonempty(text::trim(text::trim_char(text::trim(v.subrange(0, open)), '"'))),
                nonempty(text::trim(v.subrange(open + 1, close))),
            )
        }
    } else {
        let uri = text::trim(text::before(v, ';'));
        (
            None,
            if text::starts(uri, "sip:"@) || text::starts(uri, "sips:"@) || text::starts(
                uri,
                "tel:"@,
            ) {
                Some(uri)
            } else {
                None
            },
        )
    }
}

fn nonempty_string(s: &[char]) -> (r: Option<String>)
    ensures
        text::opt_text(r) == nonempty(s@),
{
    if s.len() == 0 {
        None
    } else {
        Some(string_of(s))
    }
}

fn parse_name_addr(value: &[char]) -> (r: (Option<String>, Option<String>))
    ensures
        (text::opt_text(r.0), text::opt_text(r.1)) == name_addr(value@),
{
    let v = trimmed(value);
    let open: usize = find(v, '<', 0);
    let close: usize = find(v, '>', 0);
    if open < v.len() && close < v.len() {
        if close < open {
            return (None, None);
        }
        let display = trimmed(trimmed_char(trimmed(slice_subrange(v, 0, open)), '"'));
        let uri = trimmed(slice_subrange(v, open + 1, close));
        return (nonempty_string(display), nonempty_string(uri));
    }
    let uri = trimmed(part_before(v, ';'));
    if has_prefix(uri, "sip:") || has_prefix(uri, "sips:") || has_prefix(uri, "tel:") {
        (None, Some(string_of(uri)))
    } else {
        (None, None)
    }
}

/// Does a Privacy value hide the caller's identity?
pub open spec fn privacy_hides(value: Seq<char>) -> bool {
    exists|i: int|
        0 <= i < text::split(value, ',').len() && sip_frame::part_alike(
            #[trigger] text::split(value, ',')[i],
            ';',
            "id"@,
        )
}

/// Is the caller's identity hidden?
pub open spec fn hidden(privacy: Option<Seq<char>>, remote: Option<Seq<char>>) -> bool {
    ||| privacy matches Some(value) && privacy_hides(value)
    ||| remote matches Some(value) && sip_frame::part_alike(value, ';', "privacy=full"@)
}

/// The URI of a header value, where it has one.
pub open spec fn offered_uri(value: Option<Seq<char>>) -> Option<Seq<char>> {
    match value {
        Some(v) => name_addr(v).1,
        None => None,
    }
}

pub open spec fn allowed(value: Seq<char>, source: CallerIdentitySource) -> Caller {
    Caller {
        presentation: IdentityPresentation::Allowed,
        source,
        uri: name_addr(value).1,
        display_name: name_addr(value).0,
    }
}

/// Who calls: nobody where the identity is hidden, otherwise the first of the
/// asserted identity, From and Remote-Party-ID that holds a URI.
pub open spec fn caller(
    privacy: Option<Seq<char>>,
    asserted: Option<Seq<char>>,
    from: Option<Seq<char>>,
    remote: Option<Seq<char>>,
) -> Caller {
    if hidden(privacy, remote) {
        Caller {
            presentation: IdentityPresentation::Restricted,
            source: CallerIdentitySource::Absent,
            uri: None,
            display_name: None,
        }
    } else if offered_uri(asserted) is Some {
        allowed(asserted->0, CallerIdentitySource::AssertedIdentity)
    } else if offered_uri(from) is Some {
        allowed(from->0, CallerIdentitySource::From)
    } else if offered_uri(remote) is Some {
        allowed(remote->0, CallerIdentitySource::RemotePartyId)
    } else {
        Caller {
            presentation: IdentityPresentation::Unavailable,
            source: CallerIdentitySource::Absent,
            uri: None,
            display_name: None,
        }
    }
}

fn is_hidden_by(value: &[char]) -> (r: bool)
    ensures
        r == privacy_hides(value@),
{
    let pieces = parts(value, ',');
    let ghost all = text::split(value@, ',');
    let mut i: usize = 0;
    while i < pieces.len()
        invariant
            i <= pieces@.len(),
            all == text::split(value@, ','),
            text::views(pieces@) == all,
            forall|k: int| 0 <= k < i ==> !sip_frame::part_alike(#[trigger] all[k], ';', "id"@),
        decreases pieces@.len() - i,
    {
        assert(all[i as int] == pieces@[i as int]@);
        if has_part(pieces[i], ';', "id") {
            return true;
        }
        i += 1;
    }
    false
}

fn identity_from(value: &Option<String>, source: CallerIdentitySource) -> (r: Option<
    CallerIdentity,
>)
    ensures
        match r {
            Some(identity) => offered_uri(text::opt_text(*value)) is Some && identity@ == allowed(
                text::opt_text(*value)->0,
                source,
            ),
            None => offered_uri(text::opt_text(*value)) is None,
        },
{
    match value {
        None => None,
        Some(v) => {
            let v_chars = chars_of(v.as_str());
            let (display_name, uri) = parse_name_addr(v_chars.as_slice());
            if uri.is_some() {
                Some(
                    CallerIdentity {
                        presentation: IdentityPresentation::Allowed,
                        source,
                        uri,
                        display_name,
                    },
                )
            } else {
                None
            }
        },
    }
}

/// Who calls, by the values of the four headers.
pub fn caller_from_headers(
    privacy: Option<String>,
    asserted: Option<String>,
    from: Option<String>,
    remote: Option<String>,
) -> (r: CallerIdentity)
    ensures
        r@ == caller(
            text::opt_text(privacy),
            text::opt_text(asserted),
            text::opt_text(from),
            text::opt_text(remote),
        ),
{
    let by_privacy: bool = match &privacy {
        Some(value) => {
            let v = chars_of(value.as_str());
            is_hidden_by(v.as_slice())
        },
        None => false,
    };
    let by_remote: bool = match &remote {
        Some(value) => {
            let v = chars_of(value.as_str());
            has_part(v.as_slice(), ';', "privacy=full")
        },
        None => false,
    };
    if by_privacy || by_remote {
        return CallerIdentity {
            presentation: IdentityPresentation::Restricted,
            source: CallerIdentitySource::Absent,
            uri: None,
            display_name: None,
        };
    }
    if let Some(identity) = identity_from(&asserted, CallerIdentitySource::AssertedIdentity) {
        return identity;
    }
    if let Some(identity) = identity_from(&from, CallerIdentitySource::From) {
        return identity;
    }
    if let Some(identity) = identity_from(&remote, CallerIdentitySource::RemotePartyId) {
        return identity;
    }
    CallerIdentity {
        presentation: IdentityPresentation::Unavailable,
        source: CallerIdentitySource::Absent,
        uri: None,
        display_name: None,
    }
}

/// Resolves who calls, without leaking an identity that the caller has hidden.
pub fn resolve_caller_identity(frame: &[u8]) -> (r: CallerIdentity)
    ensures
        r@ == caller(
            sip_frame::header_of(frame@, "Privacy"@),
            sip_frame::header_of(frame@, "P-Asserted-Identity"@),
            sip_frame::header_of(frame@, "From"@),
            sip_frame::header_of(frame@, "Remote-Party-ID"@),
        ),
{
    caller_from_headers(
        header_value(frame, "Privacy"),
        header_value(frame, "P-Asserted-Identity"),
        header_value(frame, "From"),
        header_value(frame, "Remote-Party-ID"),
    )
}

/// A hidden identity is never shown, whatever the other headers say.
pub proof fn law_hidden_identity_is_not_shown(
    privacy: Option<Seq<char>>,
    asserted: Option<Seq<char>>,
    from: Option<Seq<char>>,
    remote: Option<Seq<char>>,
)
    requires
        hidden(privacy, remote),
    ensures
        caller(privacy, asserted, from, remote).uri is None,
        caller(privacy, asserted, from, remote).display_name is None,
        caller(privacy, asserted, from, remote).source == CallerIdentitySource::Absent,
{
}

/// An identity that is not hidden is shown exactly where some header holds a
/// URI.
pub proof fn law_shown_identity_has_uri(
    privacy: Option<Seq<char>>,
    asserted: Option<Seq<char>>,
    from: Option<Seq<char>>,
    remote: Option<Seq<char>>,
)
    ensures
        (caller(privacy, asserted, from, remote).presentation == IdentityPresentation::Allowed)
            == (caller(privacy, asserted, from, remote).uri is Some),
        !hidden(privacy, remote) ==> (caller(privacy, asserted, from, remote).uri is Some) == (
        offered_uri(asserted) is Some || offered_uri(from) is Some || offered_uri(remote) is Some),
{
}

// ------------------------------------------------------------- message waiting

#[derive(Debug, Clone, Copy, PartialEq, Eq, Structural)]
pub struct MessageCount {
    pub new: u32,
    pub old: u32,
    pub urgent_new: u32,
    pub urgent_old: u32,
}

impl Default for MessageCount {
    fn default() -> (r: Self)
        ensures
            r == (MessageCount { new: 0, old: 0, urgent_new: 0, urgent_old: 0 }),
    {
        MessageCount { new: 0, old: 0, urgent_new: 0, urgent_old: 0 }
    }
}

/// Which authority produced a voicemail snapshot.
#[derive(Debug, Clone, Copy, PartialEq, Eq, Structural)]
pub enum VoicemailSource {
    OperatorIms,
    AsteriskLocal,
}

impl Default for VoicemailSource {
    fn default() -> (r: Self)
        ensures
            r == VoicemailSource::OperatorIms,
    {
        VoicemailSource::OperatorIms
    }
}

#[derive(Debug, Clone, PartialEq, Eq)]
pub struct MessageWaitingSummary {
    pub source: VoicemailSource,
    pub messages_waiting: bool,
    pub message_account: Option<String>,
    pub voice: Option<MessageCount>,
}

impl Default for MessageWaitingSummary {
    fn default() -> (r: Self)
        ensures
            r@ == (Summary {
                source: VoicemailSource::OperatorIms,
                waiting: false,
                account: None,
                voice: None,
            }),
    {
        MessageWaitingSummary {
            source: VoicemailSource::OperatorIms,
            messages_waiting: false,
            message_account: None,
            voice: None,
        }
    }
}

/// A summary as a value.
pub struct Summary {
    pub source: VoicemailSource,
    pub waiting: bool,
    pub account: Option<Seq<char>>,
    pub voice: Option<MessageCount>,
}

impl View for MessageWaitingSummary {
    type V = Summary;

    open spec fn view(&self) -> Summary {
        Summary {
            source: self.source,
            waiting: self.messages_waiting,
            account: text::opt_text(self.message_account),
            voice: self.voice,
        }
    }
}

/// A pair of counts, `new/old`.
pub open spec fn count_pair(value: Seq<char>) -> Option<(u32, u32)> {
    match text::cut(value, '/') {
        Some((new, old)) => match (
            text::unsigned(text::trim(new), u32::MAX as nat),
            text::unsigned(text::trim(old), u32::MAX as nat),
        ) {
            (Some(n), Some(o)) => Some((n as u32, o as u32)),
            _ => None,
        },
        None => None,
    }
}

/// Counts, with urgent ones in parentheses where they are given.
pub open spec fn message_count(value: Seq<char>) -> Option<MessageCount> {
    match text::cut(value, '(') {
        Some((normal, urgent)) => match (
            count_pair(text::trim(normal)),
            count_pair(text::trim(text::trim_end_char(urgent, ')'))),
        ) {
            (Some((new, old)), Some((urgent_new, urgent_old))) => Some(
                MessageCount { new, old, urgent_new, urgent_old },
            ),
            _ => None,
        },
        None => match count_pair(text::trim(value)) {
            Some((new, old)) => Some(MessageCount { new, old, urgent_new: 0, urgent_old: 0 }),
            None => None,
        },
    }
}

fn parse_count_pair(value: &[char]) -> (r: Option<(u32, u32)>)
    ensures
        r == count_pair(value@),
{
    match split_once(value, '/') {
        Some((new, old)) => match (parse_u32(trimmed(new)), parse_u32(trimmed(old))) {
            (Some(n), Some(o)) => Some((n, o)),
            _ => None,
        },
        None => None,
    }
}

fn parse_message_count(value: &[char]) -> (r: Option<MessageCount>)
    ensures
        r == message_count(value@),
{
    match split_once(value, '(') {
        Some((normal, urgent)) => {
            let first = parse_count_pair(trimmed(normal));
            let second = parse_count_pair(trimmed(trimmed_end_char(urgent, ')')));
            match (first, second) {
                (Some((new, old)), Some((urgent_new, urgent_old))) => Some(
                    MessageCount { new, old, urgent_new, urgent_old },
                ),
                _ => None,
            }
        },
        None => match parse_count_pair(trimmed(value)) {
            Some((new, old)) => Some(MessageCount { new, old, urgent_new: 0, urgent_old: 0 }),
            None => None,
        },
    }
}

/// What the lines of a summary have said so far.
pub struct SummaryState {
    pub waiting: Option<bool>,
    pub account: Option<Seq<char>>,
    pub voice: Option<MessageCount>,
}

/// One line of a summary taken into account; lines of other media classes say
/// nothing.
pub open spec fn summary_line(s: SummaryState, line: Seq<char>) -> Result<SummaryState, Seq<char>> {
    match text::cut(line, ':') {
        None => Ok(s),
        Some((raw, value)) => {
            let name = text::lower_all(text::trim(raw));
            if name == "messages-waiting"@ {
                let word = text::lower_all(text::trim(value));
                if word == "yes"@ {
                    Ok(SummaryState { waiting: Some(true), ..s })
                } else if word == "no"@ {
                    Ok(SummaryState { waiting: Some(false), ..s })
                } else {
                    Err("ims_mwi_waiting_value_invalid"@)
                }
            } else if name == "message-account"@ {
                if text::trim(value).len() > 0 {
                    Ok(SummaryState { account: Some(text::trim(value)), ..s })
                } else {
                    Ok(s)
                }
            } else if name == "voice-message"@ {
                match message_count(text::trim(value)) {
                    Some(count) => Ok(SummaryState { voice: Some(count), ..s }),
                    None => Err("ims_mwi_voice_count_invalid"@),
                }
            } else {
                Ok(s)
            }
        },
    }
}

/// What the lines from `i` on add.
pub open spec fn summary_from(lines: Seq<Seq<char>>, i: int, s: SummaryState) -> Result<
    SummaryState,
    Seq<char>,
>
    decreases lines.len() - i,
{
    if i >= lines.len() {
        Ok(s)
    } else {
        match summary_line(s, lines[i]) {
            Err(e) => Err(e),
            Ok(next) => summary_from(lines, i + 1, next),
        }
    }
}

/// What a message summary's text says, or the code of what is wrong with it.
pub open spec fn summary_text(s: Seq<char>) -> Result<Summary, Seq<char>> {
    match summary_from(
        text::lines(s),
        0,
        SummaryState { waiting: None, account: None, voice: None },
    ) {
        Err(e) => Err(e),
        Ok(state) => match state.waiting {
            None => Err("ims_mwi_waiting_header_missing"@),
            Some(waiting) => Ok(
                Summary {
                    source: VoicemailSource::OperatorIms,
                    waiting,
                    account: state.account,
                    voice: state.voice,
                },
            ),
        },
    }
}

/// What a message summary says.
pub open spec fn summary_of(body: Seq<u8>) -> Result<Summary, Seq<char>> {
    if valid_utf8(body) {
        summary_text(decode_utf8(body))
    } else {
        Err("ims_mwi_summary_not_utf8"@)
    }
}

pub open spec fn summary_outcome(
    r: Result<MessageWaitingSummary, ImsError>,
    want: Result<Summary, Seq<char>>,
) -> bool {
    match r {
        Ok(summary) => want == Ok::<_, Seq<char>>(summary@),
        Err(e) => want == Err::<Summary, _>(e.code_spec()),
    }
}

/// Reads a message summary's text.
pub fn parse_summary_text(s: &str) -> (r: Result<MessageWaitingSummary, ImsError>)
    ensures
        summary_outcome(r, summary_text(s@)),
{
    let all = chars_of(s);
    let lines = lines_of(all.as_slice());
    let ghost list = text::lines(s@);
    let ghost start = SummaryState { waiting: None, account: None, voice: None };
    let mut waiting: Option<bool> = None;
    let mut account: Option<String> = None;
    let mut voice: Option<MessageCount> = None;
    let mut i: usize = 0;
    while i < lines.len()
        invariant
            i <= lines@.len(),
            list == text::lines(s@),
            text::views(lines@) == list,
            start == (SummaryState { waiting: None, account: None, voice: None }),
            summary_from(list, 0, start) == summary_from(
                list,
                i as int,
                SummaryState { waiting, account: text::opt_text(account), voice },
            ),
        decreases lines@.len() - i,
    {
        assert(list[i as int] == lines@[i as int]@);
        if let Some((raw, value)) = split_once(lines[i], ':') {
            let name = lowered(trimmed(raw));
            let name = name.as_slice();
            let value = trimmed(value);
            if is_text(name, "messages-waiting") {
                let word = lowered(value);
                if is_text(word.as_slice(), "yes") {
                    waiting = Some(true);
                } else if is_text(word.as_slice(), "no") {
                    waiting = Some(false);
                } else {
                    return Err(ImsError::new("ims_mwi_waiting_value_invalid"));
                }
            } else if is_text(name, "message-account") {
                if value.len() > 0 {
                    account = Some(string_of(value));
                }
            } else if is_text(name, "voice-message") {
                match parse_message_count(value) {
                    Some(count) => {
                        voice = Some(count);
                    },
                    None => {
                        return Err(ImsError::new("ims_mwi_voice_count_invalid"));
                    },
                }
            }
        }
        i += 1;
    }
    match waiting {
        None => Err(ImsError::new("ims_mwi_waiting_header_missing")),
        Some(messages_waiting) => Ok(
            MessageWaitingSummary {
                source: VoicemailSource::OperatorIms,
                messages_waiting,
                message_account: account,
                voice,
            },
        ),
    }
}

/// Reads an `application/simple-message-summary` body.
pub fn parse_message_summary(body: &[u8]) -> (r: Result<MessageWaitingSummary, ImsError>)
    ensures
        summary_outcome(r, summary_of(body@)),
{
    match decode_strict(body) {
        None => Err(ImsError::new("ims_mwi_summary_not_utf8")),
        Some(s) => parse_summary_text(s.as_str()),
    }
}

/// A line that says nothing of a summary: it has no name, or one that is not known.
pub open spec fn foreign_line(line: Seq<char>) -> bool {
    text::cut(line, ':') matches Some((raw, _)) ==> {
        let name = text::lower_all(text::trim(raw));
        name != "messages-waiting"@ && name != "message-account"@ && name != "voice-message"@
    }
}

/// What lines add does not depend on what stands before them.
proof fn lemma_summary_behind(lines: Seq<Seq<char>>, line: Seq<char>, k: int, i: int, s: SummaryState)
    requires
        0 <= k <= i <= lines.len(),
    ensures
        summary_from(lines.insert(k, line), i + 1, s) == summary_from(lines, i, s),
    decreases lines.len() - i,
{
    let more = lines.insert(k, line);
    if i < lines.len() {
        assert(more[i + 1] == lines[i]);
        match summary_line(s, lines[i]) {
            Ok(next) => lemma_summary_behind(lines, line, k, i + 1, next),
            Err(_) => {},
        }
    }
}

proof fn lemma_summary_skips(lines: Seq<Seq<char>>, line: Seq<char>, k: int, i: int, s: SummaryState)
    requires
        0 <= i <= k <= lines.len(),
        foreign_line(line),
    ensures
        summary_from(lines.insert(k, line), i, s) == summary_from(lines, i, s),
    decreases k - i,
{
    let more = lines.insert(k, line);
    if i < k {
        assert(more[i] == lines[i]);
        match summary_line(s, lines[i]) {
            Ok(next) => lemma_summary_skips(lines, line, k, i + 1, next),
            Err(_) => {},
        }
    } else {
        assert(more[k] == line);
        lemma_summary_behind(lines, line, k, k, s);
    }
}

/// A line of a summary without a name, or with one that is not known, changes neither
/// what is read nor what is wrong.
pub proof fn law_foreign_lines_change_nothing(
    head: Seq<char>,
    line: Seq<char>,
    tail: Seq<char>,
)
    requires
        head.len() == 0 || head.last() == '\n',
        forall|i: int| 0 <= i < line.len() ==> #[trigger] line[i] != '\n',
        foreign_line(line),
    ensures
        summary_of(encode_utf8(head + (line + "\r\n"@ + tail))) == summary_of(
            encode_utf8(head + tail),
        ),
{
    let with = line + "\r\n"@ + tail;
    reveal_strlit("\r\n");
    text::lemma_lines_join(head, with, 0);
    text::lemma_lines_join(head, tail, 0);
    let ended = line.push('\r').push('\n');
    assert(with =~= ended + tail);
    text::lemma_lines_join(ended, tail, 0);
    text::lemma_one_line(line);
    let above = text::lines(head);
    let below = text::lines(tail);
    let k = above.len() as int;
    assert(above + (seq![line] + below) =~= (above + below).insert(k, line));
    lemma_summary_skips(
        above + below,
        line,
        k,
        0,
        SummaryState { waiting: None, account: None, voice: None },
    );
    encode_utf8_valid_utf8(head + with);
    encode_utf8_decode_utf8(head + with);
    encode_utf8_valid_utf8(head + tail);
    encode_utf8_decode_utf8(head + tail);
}

/// Does a header value name this, its parameters left aside?
pub open spec fn names(value: Seq<char>, what: Seq<char>) -> bool {
    text::alike(text::trim(text::before(value, ';')), what)
}

fn is_named(value: &str, what: &str) -> (r: bool)
    ensures
        r == names(value@, what@),
{
    let v = chars_of(value);
    is_alike_text(trimmed(part_before(v.as_slice(), ';')), what)
}

/// What a message-summary NOTIFY says, or the code of why it is refused.
pub open spec fn notify_summary(frame: Seq<u8>) -> Result<Summary, Seq<char>> {
    if !sip_frame::request_is(frame, "NOTIFY"@) {
        Err("ims_mwi_notify_request_required"@)
    } else {
        match sip_frame::header_of(frame, "Event"@) {
            None => Err("ims_mwi_notify_event_missing"@),
            Some(event) => if !names(event, "message-summary"@) {
                Err("ims_mwi_notify_event_invalid"@)
            } else {
                match sip_frame::header_of(frame, "Content-Type"@) {
                    None => Err("ims_mwi_notify_content_type_missing"@),
                    Some(kind) => if !names(kind, "application/simple-message-summary"@) {
                        Err("ims_mwi_notify_content_type_invalid"@)
                    } else {
                        summary_of(sip_frame::body_of(frame))
                    },
                }
            },
        }
    }
}

/// Reads a message-summary NOTIFY; an unrelated one is never voicemail state.
pub fn parse_mwi_notify(frame: &[u8]) -> (r: Result<MessageWaitingSummary, ImsError>)
    ensures
        summary_outcome(r, notify_summary(frame@)),
{
    if !is_request(frame, "NOTIFY") {
        return Err(ImsError::new("ims_mwi_notify_request_required"));
    }
    let event = match header_value(frame, "Event") {
        Some(event) => event,
        None => return Err(ImsError::new("ims_mwi_notify_event_missing")),
    };
    if !is_named(event.as_str(), "message-summary") {
        return Err(ImsError::new("ims_mwi_notify_event_invalid"));
    }
    let kind = match header_value(frame, "Content-Type") {
        Some(kind) => kind,
        None => return Err(ImsError::new("ims_mwi_notify_content_type_missing")),
    };
    if !is_named(kind.as_str(), "application/simple-message-summary") {
        return Err(ImsError::new("ims_mwi_notify_content_type_invalid"));
    }
    parse_message_summary(body(frame))
}

#[derive(Debug, PartialEq, Eq)]
pub enum MwiIncomingFrame {
    Notify { response_status: u16, summary: Option<Result<MessageWaitingSummary, ImsError>> },
    SubscribeResponse { status: Result<u16, ImsError>, to_tag: Option<String> },
    Other,
}

/// A classified frame as a value.
pub enum MwiFrame {
    Notify { response_status: u16, summary: Option<Result<Summary, Seq<char>>> },
    SubscribeResponse { status: Result<u16, Seq<char>>, to_tag: Option<Seq<char>> },
    Other,
}

pub open spec fn summary_value(r: Result<MessageWaitingSummary, ImsError>) -> Result<
    Summary,
    Seq<char>,
> {
    match r {
        Ok(summary) => Ok(summary@),
        Err(e) => Err(e.code_spec()),
    }
}

impl View for MwiIncomingFrame {
    type V = MwiFrame;

    open spec fn view(&self) -> MwiFrame {
        match self {
            MwiIncomingFrame::Notify { response_status, summary } => MwiFrame::Notify {
                response_status: *response_status,
                summary: match summary {
                    Some(r) => Some(summary_value(*r)),
                    None => None,
                },
            },
            MwiIncomingFrame::SubscribeResponse { status, to_tag } => MwiFrame::SubscribeResponse {
                status: match status {
                    Ok(n) => Ok(*n),
                    Err(e) => Err(e.code_spec()),
                },
                to_tag: text::opt_text(*to_tag),
            },
            MwiIncomingFrame::Other => MwiFrame::Other,
        }
    }
}

/// Is the frame a NOTIFY of message summaries?
pub open spec fn is_summary_notify(frame: Seq<u8>) -> bool {
    &&& sip_frame::request_is(frame, "NOTIFY"@)
    &&& sip_frame::header_of(frame, "Event"@) matches Some(event) && names(
        event,
        "message-summary"@,
    )
}

/// The method of a CSeq value.
pub open spec fn cseq_method(value: Seq<char>) -> Option<Seq<char>> {
    let words = text::words(value);
    if words.len() < 2 {
        None
    } else {
        Some(words[1])
    }
}

/// Is the frame a response to a SUBSCRIBE?
pub open spec fn answers_subscribe(frame: Seq<u8>) -> bool {
    &&& text::starts(sip_frame::head_text(frame), "SIP/2.0 "@)
    &&& sip_frame::header_of(frame, "CSeq"@) matches Some(cseq) && cseq_method(cseq) matches Some(
        method,
    ) && text::alike(method, "SUBSCRIBE"@)
}

/// What a frame is to the subscription with this Call-ID.
pub open spec fn mwi_frame(frame: Seq<u8>, subscription: Option<Seq<char>>) -> MwiFrame {
    match sip_frame::header_of(frame, "Call-ID"@) {
        None => MwiFrame::Other,
        Some(call_id) => if is_summary_notify(frame) {
            if subscription == Some(call_id) {
                MwiFrame::Notify { response_status: 200, summary: Some(notify_summary(frame)) }
            } else {
                MwiFrame::Notify { response_status: 481, summary: None }
            }
        } else if answers_subscribe(frame) && subscription == Some(call_id) {
            MwiFrame::SubscribeResponse {
                status: match sip_frame::status_of(frame) {
                    Some(n) => Ok(n as u16),
                    None => Err("ims_sip_status_invalid"@),
                },
                to_tag: match sip_frame::header_of(frame, "To"@) {
                    Some(to) => sip_frame::parameter_of(to, "tag"@),
                    None => None,
                },
            }
        } else {
            MwiFrame::Other
        },
    }
}

pub open spec fn opt_str(o: Option<&str>) -> Option<Seq<char>> {
    match o {
        Some(s) => Some(s@),
        None => None,
    }
}

/// The method of a frame's CSeq.
pub fn frame_cseq_is(frame: &[u8], method: &str) -> (r: bool)
    ensures
        r == (sip_frame::header_of(frame@, "CSeq"@) matches Some(cseq) && cseq_method(
            cseq,
        ) matches Some(found) && text::alike(found, method@)),
{
    match header_value(frame, "CSeq") {
        None => false,
        Some(value) => {
            let v = chars_of(value.as_str());
            let words = words_of(v.as_slice());
            assert(words@.len() == text::views(words@).len());
            if words.len() < 2 {
                return false;
            }
            assert(text::views(words@)[1] == words@[1]@);
            is_alike_text(words[1], method)
        },
    }
}

/// Classifies the frames of a message-waiting subscription.
pub fn classify_mwi_frame(frame: &[u8], subscription_call_id: Option<&str>) -> (r: MwiIncomingFrame)
    ensures
        r@ == mwi_frame(frame@, opt_str(subscription_call_id)),
{
    let call_id = match header_value(frame, "Call-ID") {
        Some(call_id) => call_id,
        None => return MwiIncomingFrame::Other,
    };
    let ours: bool = match subscription_call_id {
        Some(wanted) => str_same(wanted, call_id.as_str()),
        None => false,
    };
    let notify: bool = is_request(frame, "NOTIFY") && match header_value(frame, "Event") {
        Some(event) => is_named(event.as_str(), "message-summary"),
        None => false,
    };
    if notify {
        if !ours {
            return MwiIncomingFrame::Notify { response_status: 481, summary: None };
        }
        let summary = parse_mwi_notify(frame);
        return MwiIncomingFrame::Notify { response_status: 200, summary: Some(summary) };
    }
    if is_response(frame) && ours && frame_cseq_is(frame, "SUBSCRIBE") {
        let to_tag = match header_value(frame, "To") {
            Some(to) => header_parameter(to.as_str(), "tag"),
            None => None,
        };
        return MwiIncomingFrame::SubscribeResponse { status: parse_status(frame), to_tag };
    }
    MwiIncomingFrame::Other
}

/// A NOTIFY of another dialog is refused and never read as voicemail state.
pub proof fn law_foreign_notify_is_refused(frame: Seq<u8>, subscription: Option<Seq<char>>)
    requires
        is_summary_notify(frame),
        sip_frame::header_of(frame, "Call-ID"@) is Some,
        subscription != sip_frame::header_of(frame, "Call-ID"@),
    ensures
        mwi_frame(frame, subscription) == (MwiFrame::Notify {
            response_status: 481,
            summary: None,
        }),
{
}

// ---------------------------------------------------------------- subscription

#[derive(Debug, Clone, PartialEq, Eq)]
pub struct SubscribeIds {
    pub branch: String,
    pub from_tag: String,
    pub to_tag: Option<String>,
    pub call_id: String,
    pub cseq: u32,
}

/// Subscription identifiers as a value.
pub struct Ids {
    pub branch: Seq<char>,
    pub from_tag: Seq<char>,
    pub to_tag: Option<Seq<char>>,
    pub call_id: Seq<char>,
    pub cseq: u32,
}

impl View for SubscribeIds {
    type V = Ids;

    open spec fn view(&self) -> Ids {
        Ids {
            branch: self.branch@,
            from_tag: self.from_tag@,
            to_tag: text::opt_text(self.to_tag),
            call_id: self.call_id@,
            cseq: self.cseq,
        }
    }
}

/// The Route of an originating request: the registered service route, or the
/// proxy itself.
pub open spec fn subscribe_route(service_route: Option<Seq<char>>, route: ImsRoute) -> Seq<char> {
    let usable = match service_route {
        Some(value) => nonempty(text::trim(value)),
        None => None,
    };
    match usable {
        Some(value) => value,
        None => "<sip:"@ + ip_text::sip_host_form(route.pcscf_addr.ip) + seq![':'] + text::decimal(
            route.pcscf_addr.port as nat,
        ) + ";lr>"@,
    }
}

/// A bracketed contact of this user.
pub open spec fn contact_form(user: Seq<char>, route: ImsRoute) -> Seq<char> {
    "<sip:"@ + user + seq!['@'] + ip_text::sip_host_form(route.local_addr.ip) + seq![':']
        + text::decimal(route.local_addr.port as nat) + ";transport="@ + route.transport.param()
        + seq!['>']
}

pub open spec fn bracketed(uri: Seq<char>) -> Seq<char> {
    seq!['<'] + uri + seq!['>']
}

pub open spec fn header(name: Seq<char>, value: Seq<char>) -> sip_message::Header {
    sip_message::Header { name, value }
}

/// The headers of a SUBSCRIBE for message summaries.
pub open spec fn subscribe_headers_value(
    public_uri: Seq<char>,
    contact_user: Seq<char>,
    route: ImsRoute,
    service_route: Option<Seq<char>>,
    expires: u32,
    user_agent: Seq<char>,
    access_headers: Seq<sip_message::Header>,
) -> Seq<sip_message::Header> {
    (seq![
        header("Route"@, subscribe_route(service_route, route)),
        header("P-Preferred-Identity"@, bracketed(public_uri)),
        header("Contact"@, contact_form(contact_user, route)),
        header("Event"@, "message-summary"@),
        header("Accept"@, "application/simple-message-summary"@),
        header("Expires"@, text::decimal(expires as nat)),
    ] + access_headers).push(header("User-Agent"@, user_agent))
}

/// The SUBSCRIBE for message summaries.
pub open spec fn subscribe_request(
    public_uri: Seq<char>,
    contact_user: Seq<char>,
    route: ImsRoute,
    service_route: Option<Seq<char>>,
    ids: Ids,
    expires: u32,
    user_agent: Seq<char>,
    access_headers: Seq<sip_message::Header>,
) -> sip_message::Request {
    sip_message::Request {
        method: "SUBSCRIBE"@,
        request_uri: public_uri,
        route,
        branch: ids.branch,
        from_uri: public_uri,
        from_tag: ids.from_tag,
        to_value: match ids.to_tag {
            Some(tag) => bracketed(public_uri) + ";tag="@ + tag,
            None => bracketed(public_uri),
        },
        call_id: ids.call_id,
        cseq: ids.cseq,
        headers: subscribe_headers_value(
            public_uri,
            contact_user,
            route,
            service_route,
            expires,
            user_agent,
            access_headers,
        ),
        body: Seq::empty(),
    }
}

fn route_string(service_route: &Option<String>, route: &ImsRoute) -> (r: String)
    ensures
        r@ == subscribe_route(text::opt_text(*service_route), *route),
{
    if let Some(value) = service_route {
        let v = chars_of(value.as_str());
        let bare = trimmed(v.as_slice());
        if bare.len() > 0 {
            return string_of(bare);
        }
    }
    let mut out = chars_of("<sip:");
    push_sip_host(&mut out, route.pcscf_addr.ip);
    out.push(':');
    push_decimal(&mut out, route.pcscf_addr.port as u64);
    push_str(&mut out, ";lr>");
    assert(out@ =~= subscribe_route(text::opt_text(*service_route), *route));
    string_of(out.as_slice())
}

fn contact_string(user: &str, route: &ImsRoute) -> (r: String)
    ensures
        r@ == contact_form(user@, *route),
{
    let mut out = chars_of("<sip:");
    push_str(&mut out, user);
    out.push('@');
    push_sip_host(&mut out, route.local_addr.ip);
    out.push(':');
    push_decimal(&mut out, route.local_addr.port as u64);
    push_str(&mut out, ";transport=");
    push_str(&mut out, route.transport.as_param());
    out.push('>');
    assert(out@ =~= contact_form(user@, *route));
    string_of(out.as_slice())
}

pub fn bracket_uri(uri: &str) -> (r: String)
    ensures
        r@ == bracketed(uri@),
{
    let mut out: Vec<char> = Vec::new();
    out.push('<');
    push_str(&mut out, uri);
    out.push('>');
    assert(out@ =~= bracketed(uri@));
    string_of(out.as_slice())
}

fn copy_string(s: &String) -> (r: String)
    ensures
        r@ == s@,
{
    s.clone()
}

fn subscribe_headers(
    identity: &ImsIdentity,
    route: &ImsRoute,
    registration: &RegisteredImsContext,
    expires_seconds: u32,
    user_agent: &str,
    access_headers: &Vec<SipHeader>,
) -> (r: Vec<SipHeader>)
    ensures
        sip_message::headers_of(r@) == subscribe_headers_value(
            identity.public_uri@,
            identity.contact_user@,
            *route,
            text::opt_text(registration.service_route),
            expires_seconds,
            user_agent@,
            sip_message::headers_of(access_headers@),
        ),
{
    let route_value = route_string(&registration.service_route, route);
    let preferred = bracket_uri(identity.public_uri.as_str());
    let contact = contact_string(identity.contact_user.as_str(), route);
    let mut expires: Vec<char> = Vec::new();
    push_decimal(&mut expires, expires_seconds as u64);
    let expires = string_of(expires.as_slice());
    assert(expires@ =~= text::decimal(expires_seconds as nat));
    let mut headers: Vec<SipHeader> = Vec::new();
    assert(sip_message::headers_of(headers@) =~= Seq::empty());
    add_header(&mut headers, "Route", route_value.as_str());
    add_header(&mut headers, "P-Preferred-Identity", preferred.as_str());
    add_header(&mut headers, "Contact", contact.as_str());
    add_header(&mut headers, "Event", "message-summary");
    add_header(&mut headers, "Accept", "application/simple-message-summary");
    add_header(&mut headers, "Expires", expires.as_str());
    assert(sip_message::headers_of(headers@) =~= seq![
        header("Route"@, route_value@),
        header("P-Preferred-Identity"@, preferred@),
        header("Contact"@, contact@),
        header("Event"@, "message-summary"@),
        header("Accept"@, "application/simple-message-summary"@),
        header("Expires"@, expires@),
    ]);
    add_headers(&mut headers, access_headers);
    add_header(&mut headers, "User-Agent", user_agent);
    headers
}

/// The SUBSCRIBE for message summaries, as a request.
pub fn mwi_subscribe_request(
    identity: &ImsIdentity,
    route: &ImsRoute,
    registration: &RegisteredImsContext,
    ids: &SubscribeIds,
    expires_seconds: u32,
    user_agent: &str,
    access_headers: &Vec<SipHeader>,
) -> (r: SipRequest)
    ensures
        r@ == subscribe_request(
            identity.public_uri@,
            identity.contact_user@,
            *route,
            text::opt_text(registration.service_route),
            ids@,
            expires_seconds,
            user_agent@,
            sip_message::headers_of(access_headers@),
        ),
{
    let headers = subscribe_headers(
        identity,
        route,
        registration,
        expires_seconds,
        user_agent,
        access_headers,
    );
    let preferred = bracket_uri(identity.public_uri.as_str());
    let mut to = chars_of(preferred.as_str());
    if let Some(tag) = &ids.to_tag {
        push_str(&mut to, ";tag=");
        push_str(&mut to, tag.as_str());
    }
    let subscribe = chars_of("SUBSCRIBE");
    let r = SipRequest {
        method: string_of(subscribe.as_slice()),
        request_uri: copy_string(&identity.public_uri),
        route: *route,
        branch: copy_string(&ids.branch),
        from_uri: copy_string(&identity.public_uri),
        from_tag: copy_string(&ids.from_tag),
        to_value: string_of(to.as_slice()),
        call_id: copy_string(&ids.call_id),
        cseq: ids.cseq,
        headers,
        body: Vec::new(),
    };
    assert(r@.body =~= Seq::empty());
    r
}

/// The SUBSCRIBE for message summaries, on the wire. The service route comes
/// from the registration that calls use too.
pub fn build_mwi_subscribe(
    identity: &ImsIdentity,
    route: &ImsRoute,
    registration: &RegisteredImsContext,
    ids: &SubscribeIds,
    expires_seconds: u32,
    user_agent: &str,
    access_headers: &Vec<SipHeader>,
) -> (r: Vec<u8>)
    ensures
        r@ == sip_message::request_bytes(
            subscribe_request(
                identity.public_uri@,
                identity.contact_user@,
                *route,
                text::opt_text(registration.service_route),
                ids@,
                expires_seconds,
                user_agent@,
                sip_message::headers_of(access_headers@),
            ),
        ),
{
    let request = mwi_subscribe_request(
        identity,
        route,
        registration,
        ids,
        expires_seconds,
        user_agent,
        access_headers,
    );
    build_request(&request)
}

} // verus!
