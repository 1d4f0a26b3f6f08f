//! Who calls, and which messages wait.

use crate::sip_frame;
use crate::supplementary;
use crate::supplementary::{
    CallerIdentitySource, IdentityPresentation, MessageCount, MwiFrame, Summary, SummaryState,
    VoicemailSource,
};
use crate::text;
use crate::text_laws;
use vstd::prelude::*;

verus! {

// --------------------------------------------------------------------------- callers

/// A text that stands on its own: something, and no white space at its ends.
pub open spec fn own_text(s: Seq<char>) -> bool {
    s.len() > 0 && !text::white(s[0]) && !text::white(s.last())
}

/// A display name that needs no care in quotes.
pub open spec fn plain_name(s: Seq<char>) -> bool {
    own_text(s) && text_laws::without(s, '"') && text_laws::without(s, '<') && text_laws::without(
        s,
        '>',
    )
}

pub open spec fn plain_uri(s: Seq<char>) -> bool {
    own_text(s) && text_laws::without(s, '<') && text_laws::without(s, '>')
}

/// An identity in brackets, with its quoted name before it.
pub open spec fn named_address(name: Seq<char>, uri: Seq<char>) -> Seq<char> {
    seq!['"'] + name + seq!['"', ' ', '<'] + uri + seq!['>']
}

proof fn lemma_own(s: Seq<char>)
    requires
        own_text(s),
    ensures
        text::trim(s) == s,
{
    let none = Seq::<char>::empty();
    text_laws::law_trim_takes_the_ends(none, s, none);
    assert(none + s + none =~= s);
}

proof fn lemma_unquoted(name: Seq<char>)
    requires
        own_text(name),
        text_laws::without(name, '"'),
    ensures
        text::trim_char(seq!['"'] + name + seq!['"'], '"') == name,
{
    let s = seq!['"'] + name + seq!['"'];
    assert(s[0] == '"');
    assert(s[1] == name[0]);
    assert(text::skip_char(s, '"', 1) == 1);
    assert(text::skip_char(s, '"', 0) == 1);
    let n = s.len() as int;
    assert(s[n - 1] == '"');
    assert(s[n - 2] == name.last());
    assert(text::back_char(s, '"', 1, n - 1) == n - 1);
    assert(text::back_char(s, '"', 1, n) == n - 1);
    assert(s.subrange(1, n - 1) =~= name);
}

/// What stands in brackets is the URI, and what stands in quotes before them is the name;
/// parameters behind the brackets do not count.
pub proof fn law_named_identity_is_read(name: Seq<char>, uri: Seq<char>, more: Seq<char>)
    requires
        plain_name(name),
        plain_uri(uri),
        more.len() > 0 ==> !text::white(more.last()),
    ensures
        supplementary::name_addr(named_address(name, uri) + more) == (Some(name), Some(uri)),
{
    let v = named_address(name, uri) + more;
    lemma_own(v);
    let front = seq!['"'] + name + seq!['"', ' '];
    let behind = uri.push('>') + more;
    assert(v =~= front.push('<') + behind);
    text_laws::law_first_is_found(front, behind, '<');
    let inner = front.push('<') + uri;
    assert(text_laws::without(inner, '>')) by {
        assert forall|i: int| 0 <= i < inner.len() implies (#[trigger] inner[i]) != '>' by {
            if 1 <= i < 1 + name.len() {
                assert(inner[i] == name[i - 1]);
            } else if i >= front.len() + 1 {
                assert(inner[i] == uri[i - front.len() - 1]);
            }
        }
    }
    assert(v =~= inner.push('>') + more);
    text_laws::law_first_is_found(inner, more, '>');
    let open = front.len() as int;
    let close = inner.len() as int;
    assert(v.subrange(0, open) =~= front);
    assert(v.subrange(open + 1, close) =~= uri);
    let quoted = seq!['"'] + name + seq!['"'];
    let none = Seq::<char>::empty();
    text_laws::law_trim_takes_the_ends(none, quoted, seq![' ']);
    assert(front =~= none + quoted + seq![' ']);
    lemma_unquoted(name);
    lemma_own(name);
    lemma_own(uri);
}

/// A bare URI is read without its parameters and without a name.
pub proof fn law_bare_identity_is_read(uri: Seq<char>, more: Seq<char>)
    requires
        plain_uri(uri),
        text_laws::without(uri, ';'),
        text::starts(uri, "sip:"@) || text::starts(uri, "sips:"@) || text::starts(uri, "tel:"@),
        text_laws::without(more, '<'),
        more.len() > 0 ==> !text::white(more.last()),
    ensures
        supplementary::name_addr(uri.push(';') + more) == (None::<Seq<char>>, Some(uri)),
        supplementary::name_addr(uri) == (None::<Seq<char>>, Some(uri)),
{
    let v = uri.push(';') + more;
    lemma_own(v);
    lemma_own(uri);
    text_laws::law_cut_gives_both_sides(uri, more, ';');
    assert(text_laws::without(v, '<')) by {
        assert forall|i: int| 0 <= i < v.len() implies (#[trigger] v[i]) != '<' by {
            if i < uri.len() {
                assert(v[i] == uri[i]);
            } else if i > uri.len() {
                assert(v[i] == more[i - uri.len() - 1]);
            }
        }
    }
    text_laws::law_first_is_found(v, v, '<');
    text_laws::law_first_is_found(uri, uri, '<');
}

/// A caller who asks for privacy of the identity is not shown, wherever in the value that word
/// stands and in whatever case.
pub proof fn law_privacy_is_kept(
    before: Seq<char>,
    word: Seq<char>,
    after: Seq<char>,
    asserted: Option<Seq<char>>,
    from: Option<Seq<char>>,
    remote: Option<Seq<char>>,
)
    requires
        text_laws::without(before, ','),
        text_laws::without(after, ','),
        word == "id"@ || word == "ID"@ || word == "Id"@,
    ensures
        ({
            let value = before + seq![';'] + word + seq![';'] + after;
            let c = supplementary::caller(Some(value), asserted, from, remote);
            &&& c.presentation == IdentityPresentation::Restricted
            &&& c.uri is None
            &&& c.display_name is None
        }),
        ({
            let c = supplementary::caller(Some(word), asserted, from, remote);
            c.presentation == IdentityPresentation::Restricted && c.uri is None
                && c.display_name is None
        }),
{
    reveal_strlit("id");
    reveal_strlit("ID");
    reveal_strlit("Id");
    text_laws::law_alike_ignores_case_alone(word, "id"@);
    assert(text::alike(word, "id"@));
    lemma_own(word);
    let value = before + seq![';'] + word + seq![';'] + after;
    let tail = word.push(';') + after;
    assert(value =~= before.push(';') + tail);
    text_laws::law_parts_of_joined_texts(before, tail, ';');
    text_laws::law_split_undoes_join(word, after, ';');
    let parts = text::split(value, ';');
    let k = text::split(before, ';').len() as int;
    assert(parts[k] == word);
    assert(sip_frame::part_alike(value, ';', "id"@));
    assert(text_laws::without(value, ',')) by {
        assert forall|i: int| 0 <= i < value.len() implies (#[trigger] value[i]) != ',' by {
            let n = before.len() as int;
            if i < n {
                assert(value[i] == before[i]);
            } else if n < i <= n + 2 {
                assert(value[i] == word[i - n - 1]);
            } else if i > n + 3 {
                assert(value[i] == after[i - n - 4]);
            }
        }
    }
    text_laws::law_split_undoes_join(value, value, ',');
    assert(text::split(value, ',')[0] == value);
    text_laws::law_split_undoes_join(word, word, ',');
    text_laws::law_split_undoes_join(word, word, ';');
    assert(text::split(word, ',')[0] == word);
    assert(text::split(word, ';')[0] == word);
    assert(sip_frame::part_alike(word, ';', "id"@));
}

/// Without any wish for privacy the caller is the one that the network asserts; else the one
/// of the From; else the one of the Remote-Party-ID; and nobody where none of them names one.
pub proof fn law_network_identity_comes_first(
    asserted: Option<Seq<char>>,
    from: Option<Seq<char>>,
    name: Seq<char>,
    uri: Seq<char>,
    remote: Seq<char>,
)
    requires
        plain_name(name),
        plain_uri(uri),
        !sip_frame::part_alike(remote, ';', "privacy=full"@),
    ensures
        ({
            let who = Some(named_address(name, uri));
            let first = supplementary::caller(None, who, from, Some(remote));
            &&& first.presentation == IdentityPresentation::Allowed
            &&& first.source == CallerIdentitySource::AssertedIdentity
            &&& first.uri == Some(uri)
            &&& first.display_name == Some(name)
            &&& asserted is None ==> {
                let second = supplementary::caller(None, asserted, who, Some(remote));
                &&& second.presentation == IdentityPresentation::Allowed
                &&& second.source == CallerIdentitySource::From
                &&& second.uri == Some(uri)
                &&& second.display_name == Some(name)
            }
            &&& asserted is None && from is None ==> {
                let third = supplementary::caller(None, asserted, from, who);
                &&& !sip_frame::part_alike(named_address(name, uri), ';', "privacy=full"@)
                    ==> third.presentation == IdentityPresentation::Allowed && third.source
                    == CallerIdentitySource::RemotePartyId && third.uri == Some(uri)
                    && third.display_name == Some(name)
            }
        }),
        supplementary::caller(None, None, None, None).presentation
            == IdentityPresentation::Unavailable,
{
    law_named_identity_is_read(name, uri, Seq::empty());
    assert(named_address(name, uri) + Seq::<char>::empty() =~= named_address(name, uri));
}

// --------------------------------------------------------------------------- counts

/// A count of new and old messages.
pub open spec fn pair_text(new: u32, old: u32) -> Seq<char> {
    text::decimal(new as nat).push('/') + text::decimal(old as nat)
}

proof fn lemma_number(n: u32)
    ensures
        text::trim(text::decimal(n as nat)) == text::decimal(n as nat),
        text::unsigned(text::decimal(n as nat), u32::MAX as nat) == Some(n as nat),
        own_text(text::decimal(n as nat)),
        text_laws::without(text::decimal(n as nat), '/'),
        text_laws::without(text::decimal(n as nat), '('),
        text_laws::without(text::decimal(n as nat), ')'),
{
    let s = text::decimal(n as nat);
    text::law_decimal_round_trip(n as nat);
    assert(text::digit(s[0]) && text::digit(s.last()));
    lemma_own(s);
    text_laws::law_numbers_are_read_as_written(n as nat, u32::MAX as nat, s, 0);
    assert forall|i: int| 0 <= i < s.len() implies (#[trigger] s[i]) != '/' && s[i] != '(' && s[i]
        != ')' by {
        assert(text::digit(s[i]));
    }
}

proof fn lemma_pair(new: u32, old: u32)
    ensures
        supplementary::count_pair(pair_text(new, old)) == Some((new, old)),
        own_text(pair_text(new, old)),
        text_laws::without(pair_text(new, old), '('),
        text_laws::without(pair_text(new, old), ')'),
{
    lemma_number(new);
    lemma_number(old);
    let a = text::decimal(new as nat);
    let b = text::decimal(old as nat);
    let s = pair_text(new, old);
    text_laws::law_cut_gives_both_sides(a, b, '/');
    assert(s[0] == a[0]);
    assert(s.last() == b.last());
    assert forall|i: int| 0 <= i < s.len() implies (#[trigger] s[i]) != '(' && s[i] != ')' by {
        if i < a.len() {
            assert(s[i] == a[i]);
        } else if i > a.len() {
            assert(s[i] == b[i - a.len() - 1]);
        }
    }
}

/// Counts are read as they are written: new before old, and the urgent ones in brackets, none
/// where there are no brackets.
pub proof fn law_counts_are_read(new: u32, old: u32, urgent_new: u32, urgent_old: u32)
    ensures
        supplementary::message_count(pair_text(new, old)) == Some(
            MessageCount { new, old, urgent_new: 0, urgent_old: 0 },
        ),
        supplementary::message_count(
            pair_text(new, old) + seq![' ', '('] + pair_text(urgent_new, urgent_old) + seq![')'],
        ) == Some(MessageCount { new, old, urgent_new, urgent_old }),
{
    lemma_pair(new, old);
    lemma_pair(urgent_new, urgent_old);
    let a = pair_text(new, old);
    let b = pair_text(urgent_new, urgent_old);
    let none = Seq::<char>::empty();
    lemma_own(a);
    lemma_own(b);
    text_laws::law_cut_gives_both_sides(a, a, '(');
    let all = a + seq![' ', '('] + b + seq![')'];
    let front = a + seq![' '];
    let back = b + seq![')'];
    assert(all =~= front.push('(') + back);
    assert(text_laws::without(front, '(')) by {
        assert forall|i: int| 0 <= i < front.len() implies (#[trigger] front[i]) != '(' by {
            if i < a.len() {
                assert(front[i] == a[i]);
            }
        }
    }
    text_laws::law_cut_gives_both_sides(front, back, '(');
    text_laws::law_trim_takes_the_ends(none, a, seq![' ']);
    assert(none + a + seq![' '] =~= front);
    let n = back.len() as int;
    assert(back[n - 1] == ')');
    assert(back[n - 2] == b.last());
    assert(text::back_char(back, ')', 0, n - 1) == n - 1);
    assert(text::back_char(back, ')', 0, n) == n - 1);
    assert(back.subrange(0, n - 1) =~= b);
}

proof fn lemma_summary_names()
    ensures
        text::lower_all("Messages-Waiting"@) == "messages-waiting"@,
        text::lower_all("Message-Account"@) == "message-account"@,
        text::lower_all("Voice-Message"@) == "voice-message"@,
        text::lower_all("yes"@) == "yes"@,
        text::lower_all("no"@) == "no"@,
        "messages-waiting"@ != "message-account"@,
        "messages-waiting"@ != "voice-message"@,
        "message-account"@ != "voice-message"@,
        "yes"@ != "no"@,
        own_text("Messages-Waiting"@) && own_text("Message-Account"@) && own_text(
            "Voice-Message"@,
        ),
        own_text("yes"@) && own_text("no"@),
        text_laws::without("Messages-Waiting"@, ':'),
        text_laws::without("Message-Account"@, ':'),
        text_laws::without("Voice-Message"@, ':'),
{
    reveal_strlit("Messages-Waiting");
    reveal_strlit("Message-Account");
    reveal_strlit("Voice-Message");
    reveal_strlit("messages-waiting");
    reveal_strlit("message-account");
    reveal_strlit("voice-message");
    reveal_strlit("yes");
    reveal_strlit("no");
    assert(text::lower_all("Messages-Waiting"@) =~= "messages-waiting"@);
    assert(text::lower_all("Message-Account"@) =~= "message-account"@);
    assert(text::lower_all("Voice-Message"@) =~= "voice-message"@);
    assert(text::lower_all("yes"@) =~= "yes"@);
    assert(text::lower_all("no"@) =~= "no"@);
    assert("messages-waiting"@.len() == 16 && "message-account"@.len() == 15);
    assert("voice-message"@.len() == 13 && "yes"@.len() == 3 && "no"@.len() == 2);
}

proof fn lemma_summary_line(name: Seq<char>, value: Seq<char>)
    requires
        own_text(name),
        text_laws::without(name, ':'),
        own_text(value),
    ensures
        ({
            let line = name + seq![':', ' '] + value;
            &&& text::cut(line, ':') == Some((name, seq![' '] + value))
            &&& text::trim(name) == name
            &&& text::trim(seq![' '] + value) == value
        }),
{
    let line = name + seq![':', ' '] + value;
    let none = Seq::<char>::empty();
    text_laws::law_cut_gives_both_sides(name, seq![' '] + value, ':');
    assert(line =~= name.push(':') + (seq![' '] + value));
    lemma_own(name);
    text_laws::law_trim_takes_the_ends(seq![' '], value, none);
    assert(seq![' '] + value + none =~= seq![' '] + value);
}

/// Each line of a summary says its own thing and leaves the rest as it was: whether messages
/// wait, whose they are, and how many.
pub proof fn law_summary_lines_are_read(
    s: SummaryState,
    account: Seq<char>,
    new: u32,
    old: u32,
    value: Seq<char>,
)
    requires
        own_text(account),
        own_text(value),
    ensures
        supplementary::summary_line(s, "Messages-Waiting"@ + seq![':', ' '] + "yes"@) == Ok::<
            _,
            Seq<char>,
        >(SummaryState { waiting: Some(true), ..s }),
        supplementary::summary_line(s, "Messages-Waiting"@ + seq![':', ' '] + "no"@) == Ok::<
            _,
            Seq<char>,
        >(SummaryState { waiting: Some(false), ..s }),
        !text::alike(value, "yes"@) && !text::alike(value, "no"@) ==> supplementary::summary_line(
            s,
            "Messages-Waiting"@ + seq![':', ' '] + value,
        ) is Err,
        supplementary::summary_line(s, "Message-Account"@ + seq![':', ' '] + account) == Ok::<
            _,
            Seq<char>,
        >(SummaryState { account: Some(account), ..s }),
        supplementary::summary_line(s, "Voice-Message"@ + seq![':', ' '] + pair_text(new, old))
            == Ok::<_, Seq<char>>(
            SummaryState {
                voice: Some(MessageCount { new, old, urgent_new: 0, urgent_old: 0 }),
                ..s
            },
        ),
{
    lemma_summary_names();
    lemma_pair(new, old);
    law_counts_are_read(new, old, 0, 0);
    lemma_own(pair_text(new, old));
    lemma_summary_line("Messages-Waiting"@, "yes"@);
    lemma_summary_line("Messages-Waiting"@, "no"@);
    lemma_summary_line("Messages-Waiting"@, value);
    lemma_summary_line("Message-Account"@, account);
    lemma_summary_line("Voice-Message"@, pair_text(new, old));
}

/// A summary of these lines tells what they say; one that does not tell whether messages wait
/// is refused.
pub proof fn law_summary_is_read(
    waiting: bool,
    account: Seq<char>,
    new: u32,
    old: u32,
    s: Seq<char>,
)
    requires
        own_text(account),
        text::lines(s) == seq![
            "Messages-Waiting"@ + seq![':', ' '] + (if waiting {
                "yes"@
            } else {
                "no"@
            }),
            "Message-Account"@ + seq![':', ' '] + account,
            "Voice-Message"@ + seq![':', ' '] + pair_text(new, old),
        ],
    ensures
        supplementary::summary_text(s) == Ok::<_, Seq<char>>(
            Summary {
                source: VoicemailSource::OperatorIms,
                waiting,
                account: Some(account),
                voice: Some(MessageCount { new, old, urgent_new: 0, urgent_old: 0 }),
            },
        ),
{
    let none = SummaryState { waiting: None, account: None, voice: None };
    let lines = text::lines(s);
    let a = SummaryState { waiting: Some(waiting), ..none };
    let b = SummaryState { account: Some(account), ..a };
    let c = SummaryState {
        voice: Some(MessageCount { new, old, urgent_new: 0, urgent_old: 0 }),
        ..b
    };
    law_summary_lines_are_read(none, account, new, old, account);
    law_summary_lines_are_read(a, account, new, old, account);
    law_summary_lines_are_read(b, account, new, old, account);
    assert(supplementary::summary_from(lines, 3, c) == Ok::<_, Seq<char>>(c));
    assert(supplementary::summary_from(lines, 2, b) == Ok::<_, Seq<char>>(c));
    assert(supplementary::summary_from(lines, 1, a) == Ok::<_, Seq<char>>(c));
    assert(supplementary::summary_from(lines, 0, none) == Ok::<_, Seq<char>>(c));
}

/// A summary that says nothing of whether messages wait is refused.
pub proof fn law_summary_without_waiting_is_refused(s: Seq<char>)
    requires
        forall|i: int|
            0 <= i < text::lines(s).len() ==> (text::cut(
                #[trigger] text::lines(s)[i],
                ':',
            ) matches Some((raw, _)) ==> text::lower_all(text::trim(raw)) != "messages-waiting"@),
    ensures
        supplementary::summary_text(s) is Err,
{
    let none = SummaryState { waiting: None, account: None, voice: None };
    lemma_no_waiting(text::lines(s), 0, none);
}

proof fn lemma_no_waiting(lines: Seq<Seq<char>>, i: int, s: SummaryState)
    requires
        0 <= i <= lines.len(),
        s.waiting is None,
        forall|i: int|
            0 <= i < lines.len() ==> (text::cut(#[trigger] lines[i], ':') matches Some((raw, _))
                ==> text::lower_all(text::trim(raw)) != "messages-waiting"@),
    ensures
        supplementary::summary_from(lines, i, s) matches Ok(t) ==> t.waiting is None,
    decreases lines.len() - i,
{
    if i < lines.len() {
        match supplementary::summary_line(s, lines[i]) {
            Ok(next) => {
                lemma_no_waiting(lines, i + 1, next);
            },
            Err(_) => {},
        }
    }
}

// --------------------------------------------------------------------------- frames

/// A value that names the package, whatever its parameters.
pub open spec fn names_summaries(value: Seq<char>) -> bool {
    text::alike(text::trim(text::before(value, ';')), "message-summary"@)
}

/// A notification of the line's own subscription is accepted and told, one of any other is
/// answered that there is no such call, and everything else is left to others. Of a response to
/// the subscription the status and the tag are told.
pub proof fn law_notifications_are_told_apart(frame: Seq<u8>, subscription: Seq<char>)
    ensures
        ({
            let id = sip_frame::header_of(frame, "Call-ID"@);
            let event = sip_frame::header_of(frame, "Event"@);
            let notify = sip_frame::request_is(frame, "NOTIFY"@) && event is Some
                && names_summaries(event->0);
            let r = supplementary::mwi_frame(frame, Some(subscription));
            &&& id is None ==> r is Other
            &&& id == Some(subscription) && notify ==> (r matches MwiFrame::Notify {
                response_status,
                summary,
            } && response_status == 200 && summary is Some)
            &&& id is Some && id != Some(subscription) && notify ==> (r matches MwiFrame::Notify {
                response_status,
                summary,
            } && response_status == 481 && summary is None)
            &&& r is Notify ==> id is Some && notify
            &&& r is SubscribeResponse ==> id == Some(subscription) && !notify
            &&& r matches MwiFrame::SubscribeResponse { status, to_tag } ==> (
            sip_frame::status_of(frame) matches Some(n) ==> status == Ok::<_, Seq<char>>(n as u16))
            &&& !(supplementary::mwi_frame(frame, None) is SubscribeResponse)
            &&& supplementary::mwi_frame(frame, None) matches MwiFrame::Notify {
                response_status,
                summary,
            } ==> response_status == 481 && summary is None
        }),
{
}

} // verus!
