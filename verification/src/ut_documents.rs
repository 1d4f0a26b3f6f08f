//! What the documents of the supplementary services say, element by element.

use crate::supplementary::{ForwardingCondition, IdentityPresentation};
use crate::text;
use crate::text_laws;
use crate::ut;
use crate::ut::{Document, Policy, Rewriting, Rule, Scan, UtDocumentKind};
use crate::utf8;
use crate::xml;
use crate::xml::{EventValue, Kind, Tag};
use vstd::prelude::*;
use vstd::utf8::*;

verus! {

// ------------------------------------------------------------------------ reading

/// An opening tag of this name, without attributes.
pub open spec fn opens(e: EventValue, name: Seq<char>) -> bool {
    e.kind matches Kind::Start(tag) && ut::local_of(tag.name) == name && tag.attributes.len() == 0
}

/// An empty element of this name, without attributes.
pub open spec fn empty(e: EventValue, name: Seq<char>) -> bool {
    e.kind matches Kind::Empty(tag) && ut::local_of(tag.name) == name && tag.attributes.len() == 0
}

pub open spec fn closes(e: EventValue, name: Seq<char>) -> bool {
    e.kind matches Kind::End(tag) && ut::local_of(tag) == name
}

pub open spec fn says(e: EventValue, value: Seq<char>) -> bool {
    e.kind == Kind::Text(Some(value))
}

/// An element with a text in it, from `at` on.
pub open spec fn element_at(
    events: Seq<EventValue>,
    at: int,
    name: Seq<char>,
    value: Seq<char>,
) -> bool {
    &&& opens(events[at], name)
    &&& says(events[at + 1], value)
    &&& closes(events[at + 2], name)
}

/// Says a text yes or no?
pub open spec fn says_flag(value: Seq<char>, flag: bool) -> bool {
    let v = text::trim(value);
    if flag {
        text::alike(v, "true"@) || text::alike(v, "yes"@) || v == "1"@
    } else {
        text::alike(v, "false"@) || text::alike(v, "no"@) || v == "0"@
    }
}

proof fn lemma_flag(value: Seq<char>, flag: bool)
    requires
        says_flag(value, flag),
    ensures
        ut::bool_of(value) == Some(flag),
        ut::bool_of(text::trim(value)) == Some(flag),
        text::trim(value).len() > 0,
{
    text::lemma_trim_twice(value);
    reveal_strlit("true");
    reveal_strlit("yes");
    reveal_strlit("1");
    reveal_strlit("false");
    reveal_strlit("no");
    reveal_strlit("0");
    assert(text::lower_all("true"@) =~= "true"@);
    assert(text::lower_all("yes"@) =~= "yes"@);
    assert(text::lower_all("1"@) =~= "1"@);
    assert(text::lower_all("false"@) =~= "false"@);
    assert(text::lower_all("no"@) =~= "no"@);
    assert(text::lower_all("0"@) =~= "0"@);
    let v = text::lower_all(text::trim(value));
    assert(v.len() == text::trim(value).len());
    assert("false"@.len() == 5 && "no"@.len() == 2 && "0"@.len() == 1);
    assert("true"@.len() == 4 && "yes"@.len() == 3 && "1"@.len() == 1);
    assert("0"@[0] == '0' && "1"@[0] == '1');
}

/// A target that calls can be forwarded to: a SIP address, or a telephone number in
/// international form.
pub open spec fn reachable_target(t: Seq<char>) -> bool {
    &&& text::trim(t) == t
    &&& text::starts(t, "sip:"@) || text::starts(t, "sips:"@) || (t.len() > 5 && text::starts(
        t,
        "tel:+"@,
    ) && forall|i: int| 5 <= i < t.len() ==> '0' <= (#[trigger] t[i]) <= '9')
}

proof fn lemma_no_char(s: Seq<char>, c: char, i: int)
    requires
        0 <= i <= s.len(),
        forall|j: int| i <= j < s.len() ==> s[j] != c,
    ensures
        text::find_from(s, c, i) == s.len(),
    decreases s.len() - i,
{
    if i < s.len() {
        lemma_no_char(s, c, i + 1);
    }
}

proof fn lemma_target(t: Seq<char>)
    requires
        reachable_target(t),
    ensures
        ut::target_ok(t),
        t.len() > 0,
{
    reveal_strlit("sip:");
    reveal_strlit("sips:");
    reveal_strlit("tel:+");
    reveal_strlit("tel:");
    if text::starts(t, "tel:+"@) && !text::starts(t, "sip:"@) && !text::starts(t, "sips:"@) {
        assert forall|i: int| 0 <= i < 5 implies t[i] == "tel:+"@[i] by {
            assert(t.subrange(0, 5)[i] == t[i]);
        }
        assert(t.subrange(0, 4) =~= "tel:"@);
        let rest = t.subrange(4, t.len() as int);
        assert(rest[0] == '+');
        if text::starts(rest, "tel:"@) {
            assert(rest.subrange(0, 4)[0] == "tel:"@[0]);
        }
        assert(ut::without_prefixes(rest, "tel:"@) == rest);
        assert(ut::without_prefixes(t, "tel:"@) == rest);
        assert forall|i: int| 0 <= i < rest.len() implies rest[i] != ';' by {
            if i > 0 {
                assert('0' <= t[4 + i] <= '9');
            }
        }
        lemma_no_char(rest, ';', 0);
        assert(text::before(rest, ';') =~= rest);
        let digits = rest.subrange(1, rest.len() as int);
        assert forall|i: int| 0 <= i < digits.len() implies text::digit(#[trigger] digits[i]) by {
            assert(digits[i] == t[5 + i]);
        }
        assert(text::all_digits(digits));
    }
}

/// What an element says of when a rule holds.
pub open spec fn condition_named(name: Seq<char>, c: ForwardingCondition) -> bool {
    match c {
        ForwardingCondition::Busy => name == "busy"@,
        ForwardingCondition::NoReply => name == "no-answer"@ || name == "no-reply"@,
        ForwardingCondition::NotReachable => name == "not-reachable"@,
        ForwardingCondition::Unconditional => name == "presence-status"@ || name == "media"@,
    }
}

/// The element, or the absence of one, that says when a rule holds.
pub open spec fn states_condition(e: EventValue, c: ForwardingCondition) -> bool {
    ||| c is Unconditional && e.kind is Other
    ||| exists|name: Seq<char>| #[trigger] empty(e, name) && condition_named(name, c)
}

/// A rule in a document: where the calls go, when, for how long they ring before, and
/// whether the rule is switched on.
pub struct Wish {
    pub condition: ForwardingCondition,
    pub enabled: bool,
    pub target: Seq<char>,
    pub seconds: u16,
}

/// The events of a rule from `at` on.
pub open spec fn rule_at(events: Seq<EventValue>, at: int, w: Wish) -> bool {
    &&& 0 <= at
    &&& at + 14 <= events.len()
    &&& opens(events[at], "rule"@)
    &&& opens(events[at + 1], "conditions"@)
    &&& states_condition(events[at + 2], w.condition)
    &&& closes(events[at + 3], "conditions"@)
    &&& exists|name: Seq<char>, flag: Seq<char>| #[trigger]
        element_at(events, at + 4, name, flag) && (name == "enabled"@ || name == "active"@)
            && says_flag(flag, w.enabled)
    &&& exists|name: Seq<char>| #[trigger]
        element_at(events, at + 7, name, w.target) && (name == "target"@ || name == "forward-to"@)
    &&& exists|name: Seq<char>| #[trigger]
        element_at(events, at + 10, name, text::decimal(w.seconds as nat)) && (name
            == "no-reply-timer"@ || name == "no-answer-timer"@)
    &&& closes(events[at + 13], "rule"@)
    &&& reachable_target(w.target)
}

pub open spec fn rule_for(w: Wish) -> Rule {
    Rule {
        condition: w.condition,
        enabled: w.enabled,
        target: Some(w.target),
        timer: Some(w.seconds),
        etag: None,
    }
}

/// Between two elements of a document, outside any rule.
pub open spec fn ready(s: Scan) -> bool {
    s.rule is None && s.words.len() == 0
}

proof fn lemma_names()
    ensures
        "rule"@ != "conditions"@,
        "rule"@ != "enabled"@,
        "rule"@ != "target"@,
        "rule"@ != "no-reply-timer"@,
        "rule"@ != "busy"@,
        "rule"@ != "no-answer"@,
        "rule"@ != "no-reply"@,
        "rule"@ != "not-reachable"@,
        "rule"@ != "presence-status"@,
        "rule"@ != "media"@,
        "rule"@ != "active"@,
        "active"@ != "enabled"@,
        "target"@ != "active"@,
        "target"@ != "enabled"@,
        "enabled"@ != "target"@ && "enabled"@ != "forward-to"@,
        "active"@ != "target"@ && "active"@ != "forward-to"@,
        "no-reply-timer"@ != "target"@ && "no-reply-timer"@ != "forward-to"@,
        "no-reply-timer"@ != "active"@ && "no-reply-timer"@ != "enabled"@,
        "no-reply-timer"@ != "busy"@ && "no-reply-timer"@ != "no-answer"@,
        "no-reply-timer"@ != "no-reply"@ && "no-reply-timer"@ != "not-reachable"@,
        "conditions"@ != "busy"@ && "conditions"@ != "no-answer"@,
        "conditions"@ != "no-reply"@ && "conditions"@ != "not-reachable"@,
        "conditions"@ != "active"@ && "conditions"@ != "enabled"@,
        "conditions"@ != "target"@ && "conditions"@ != "forward-to"@,
        "conditions"@ != "no-answer-timer"@ && "conditions"@ != "no-reply-timer"@,
        "enabled"@ != "busy"@ && "enabled"@ != "no-answer"@,
        "enabled"@ != "no-reply"@ && "enabled"@ != "not-reachable"@,
        "target"@ != "busy"@ && "target"@ != "no-answer"@,
        "target"@ != "no-reply"@ && "target"@ != "not-reachable"@,
        "busy"@ != "active"@ && "busy"@ != "enabled"@,
        "no-answer"@ != "active"@ && "no-answer"@ != "enabled"@,
        "no-reply"@ != "active"@ && "no-reply"@ != "enabled"@,
        "not-reachable"@ != "active"@ && "not-reachable"@ != "enabled"@,
        "presence-status"@ != "active"@ && "presence-status"@ != "enabled"@,
        "media"@ != "active"@ && "media"@ != "enabled"@,
        "busy"@ != "no-answer"@ && "busy"@ != "no-reply"@ && "busy"@ != "not-reachable"@,
        "no-answer"@ != "not-reachable"@ && "no-reply"@ != "not-reachable"@,
        "presence-status"@ != "busy"@ && "presence-status"@ != "no-answer"@,
        "presence-status"@ != "no-reply"@ && "presence-status"@ != "not-reachable"@,
        "media"@ != "busy"@ && "media"@ != "no-answer"@,
        "media"@ != "no-reply"@ && "media"@ != "not-reachable"@,
        "rule"@ != "forward-to"@ && "rule"@ != "no-answer-timer"@,
        "active"@ != "busy"@ && "active"@ != "no-answer"@,
        "active"@ != "no-reply"@ && "active"@ != "not-reachable"@,
        "forward-to"@ != "busy"@ && "forward-to"@ != "no-answer"@,
        "forward-to"@ != "no-reply"@ && "forward-to"@ != "not-reachable"@,
        "forward-to"@ != "active"@ && "forward-to"@ != "enabled"@,
        "no-answer-timer"@ != "busy"@ && "no-answer-timer"@ != "no-answer"@,
        "no-answer-timer"@ != "no-reply"@ && "no-answer-timer"@ != "not-reachable"@,
        "no-answer-timer"@ != "active"@ && "no-answer-timer"@ != "enabled"@,
        "no-answer-timer"@ != "target"@ && "no-answer-timer"@ != "forward-to"@,
{
    reveal_strlit("rule");
    reveal_strlit("conditions");
    reveal_strlit("enabled");
    reveal_strlit("active");
    reveal_strlit("target");
    reveal_strlit("forward-to");
    reveal_strlit("no-reply-timer");
    reveal_strlit("no-answer-timer");
    reveal_strlit("busy");
    reveal_strlit("no-answer");
    reveal_strlit("no-reply");
    reveal_strlit("not-reachable");
    reveal_strlit("presence-status");
    reveal_strlit("media");
    assert("rule"@.len() == 4 && "busy"@.len() == 4 && "rule"@[0] == 'r' && "busy"@[0] == 'b');
    assert("enabled"@.len() == 7 && "active"@.len() == 6 && "target"@.len() == 6);
    assert("target"@[0] == 't' && "active"@[0] == 'a');
    assert("conditions"@.len() == 10 && "forward-to"@.len() == 10);
    assert("conditions"@[0] == 'c' && "forward-to"@[0] == 'f');
    assert("no-reply-timer"@.len() == 14 && "no-answer-timer"@.len() == 15);
    assert("no-answer"@.len() == 9 && "no-reply"@.len() == 8 && "not-reachable"@.len() == 13);
    assert("presence-status"@.len() == 15 && "media"@.len() == 5);
}

/// An element with a text inside a rule is one step.
proof fn lemma_element(
    s: Scan,
    events: Seq<EventValue>,
    at: int,
    name: Seq<char>,
    value: Seq<char>,
    p: ut::Pending,
    q: ut::Pending,
)
    requires
        0 <= at,
        at + 3 <= events.len(),
        element_at(events, at, name, value),
        s.rule == Some(p),
        s.words.len() == 0,
        name != "rule"@,
        forall|tag: Tag| tag.attributes.len() == 0 ==> #[trigger] ut::tag_seen(p, name, tag) == p,
        ut::text_seen(p, name, text::trim(value)) == Ok::<_, Seq<char>>(q),
    ensures
        ut::scan_from(s, events, at) == ut::scan_from(Scan { rule: Some(q), ..s }, events, at + 3),
{
    let tag = events[at].kind->Start_0;
    assert(ut::tag_seen(p, name, tag) == p);
    let one = ut::after_start(s, tag);
    assert(one == (Scan { depth: s.depth + 1, ..s }));
    assert(s.words + text::trim(value) =~= text::trim(value));
    let two = Scan { words: text::trim(value), ..one };
    assert(ut::after_event(one, events[at + 1].kind) == Ok::<_, Seq<char>>(two));
    let three = Scan { rule: Some(q), ..s };
    assert(s.words =~= seq![]);
    assert(ut::after_event(two, events[at + 2].kind) == Ok::<_, Seq<char>>(three));
    assert(ut::scan_from(s, events, at) == ut::scan_from(one, events, at + 1));
    assert(ut::scan_from(one, events, at + 1) == ut::scan_from(two, events, at + 2));
}

/// A rule of a document is read as what it says.
#[verifier::rlimit(50)]
proof fn lemma_rule(s: Scan, events: Seq<EventValue>, at: int, w: Wish)
    requires
        rule_at(events, at, w),
        ready(s),
    ensures
        ut::scan_from(s, events, at) == ut::scan_from(
            Scan { document: ut::with_rule(s.document, rule_for(w)), ..s },
            events,
            at + 14,
        ),
{
    lemma_names();
    lemma_target(w.target);
    let start = ut::Pending {
        condition: ForwardingCondition::Unconditional,
        enabled: true,
        target: None,
        timer: None,
    };
    // the opening tags
    let tag = events[at].kind->Start_0;
    assert(ut::attr_of(tag, "active"@) is None && ut::attr_of(tag, "enabled"@) is None);
    let s1 = Scan { rule: Some(start), depth: s.depth + 1, ..s };
    assert(ut::after_event(s, events[at].kind) == Ok::<_, Seq<char>>(s1));
    let inner = events[at + 1].kind->Start_0;
    let s2 = Scan { depth: s1.depth + 1, ..s1 };
    assert(ut::after_event(s1, events[at + 1].kind) == Ok::<_, Seq<char>>(s2));
    // the condition
    let met = ut::Pending { condition: w.condition, ..start };
    if !(events[at + 2].kind is Other) {
        let name = choose|name: Seq<char>| #[trigger]
            empty(events[at + 2], name) && condition_named(name, w.condition);
        let mark = events[at + 2].kind->Empty_0;
        assert(ut::tag_seen(start, name, mark) == met);
        assert(ut::empty_seen(s2.document, name, mark) == Ok::<_, Seq<char>>(s2.document));
    }
    let s3 = Scan { rule: Some(met), ..s2 };
    assert(ut::after_event(s2, events[at + 2].kind) == Ok::<_, Seq<char>>(s3));
    let s4 = Scan { rule: Some(met), depth: s1.depth, ..s };
    assert(s.words =~= seq![]);
    assert(ut::text_seen(met, "conditions"@, s3.words) == Ok::<_, Seq<char>>(met));
    assert(ut::after_event(s3, events[at + 3].kind) == Ok::<_, Seq<char>>(s4));
    assert(ut::scan_from(s, events, at) == ut::scan_from(s1, events, at + 1));
    assert(ut::scan_from(s1, events, at + 1) == ut::scan_from(s2, events, at + 2));
    assert(ut::scan_from(s2, events, at + 2) == ut::scan_from(s3, events, at + 3));
    assert(ut::scan_from(s3, events, at + 3) == ut::scan_from(s4, events, at + 4));
    // the elements with a text
    let (switch, flag) = choose|name: Seq<char>, flag: Seq<char>| #[trigger]
        element_at(events, at + 4, name, flag) && (name == "enabled"@ || name == "active"@)
            && says_flag(flag, w.enabled);
    let aim = choose|name: Seq<char>| #[trigger]
        element_at(events, at + 7, name, w.target) && (name == "target"@ || name == "forward-to"@);
    let clock = choose|name: Seq<char>| #[trigger]
        element_at(events, at + 10, name, text::decimal(w.seconds as nat)) && (name
            == "no-reply-timer"@ || name == "no-answer-timer"@);
    lemma_flag(flag, w.enabled);
    let switched = ut::Pending { enabled: w.enabled, ..met };
    assert forall|tag: Tag| tag.attributes.len() == 0 implies #[trigger] ut::tag_seen(
        met,
        switch,
        tag,
    ) == met by {
        assert(ut::attr_of(tag, "value"@) is None);
    }
    lemma_element(s4, events, at + 4, switch, flag, met, switched);
    let s7 = Scan { rule: Some(switched), ..s4 };
    let aimed = ut::Pending { target: Some(w.target), ..switched };
    lemma_element(s7, events, at + 7, aim, w.target, switched, aimed);
    let s10 = Scan { rule: Some(aimed), ..s4 };
    let digits = text::decimal(w.seconds as nat);
    text::law_decimal_round_trip(w.seconds as nat);
    lemma_digits_trim(digits);
    assert(text::digit(digits[0]));
    assert(text::unsigned_digits(digits) == digits);
    let timed = ut::Pending { timer: Some(w.seconds), ..aimed };
    lemma_element(s10, events, at + 10, clock, digits, aimed, timed);
    let s13 = Scan { rule: Some(timed), ..s4 };
    // the closing tag
    assert(ut::text_seen(timed, "rule"@, s13.words) == Ok::<_, Seq<char>>(timed));
    assert(ut::rule_of(timed) == Ok::<_, Seq<char>>(rule_for(w)));
    let done = Scan { document: ut::with_rule(s.document, rule_for(w)), ..s };
    assert(ut::after_event(s13, events[at + 13].kind) == Ok::<_, Seq<char>>(done));
    assert(ut::scan_from(s13, events, at + 13) == ut::scan_from(done, events, at + 14));
}

proof fn lemma_digits_trim(s: Seq<char>)
    requires
        s.len() > 0,
        text::all_digits(s),
    ensures
        text::trim(s) == s,
{
    assert(text::digit(s[0]) && text::digit(s[s.len() - 1]));
    assert(!text::white(s[0]) && !text::white(s[s.len() - 1]));
    assert(text::trim(s) =~= s);
}

/// A whole document of rules: an opening tag, the rules, and the closing tag.
pub open spec fn rules_document(events: Seq<EventValue>, wishes: Seq<Wish>) -> bool {
    let end = 1 + 14 * wishes.len() as int;
    &&& events.len() == end + 2
    &&& opens(events[0], "communication-diversion"@)
    &&& forall|i: int| 0 <= i < wishes.len() ==> #[trigger] rule_at(events, 1 + 14 * i, wishes[i])
    &&& closes(events[end], "communication-diversion"@)
    &&& events[end + 1].kind is Eof
}

proof fn lemma_rules(s: Scan, events: Seq<EventValue>, wishes: Seq<Wish>, i: int)
    requires
        rules_document(events, wishes),
        ready(s),
        0 <= i <= wishes.len(),
    ensures
        ut::scan_from(s, events, 1 + 14 * i) == ut::scan_from(
            Scan {
                document: Document {
                    forwarding: s.document.forwarding + Seq::new(
                        (wishes.len() - i) as nat,
                        |j: int| rule_for(wishes[i + j]),
                    ),
                    ..s.document
                },
                ..s
            },
            events,
            1 + 14 * wishes.len() as int,
        ),
    decreases wishes.len() - i,
{
    let rest = Seq::new((wishes.len() - i) as nat, |j: int| rule_for(wishes[i + j]));
    if i < wishes.len() {
        assert(rule_at(events, 1 + 14 * i, wishes[i]));
        lemma_rule(s, events, 1 + 14 * i, wishes[i]);
        let next = Scan { document: ut::with_rule(s.document, rule_for(wishes[i])), ..s };
        lemma_rules(next, events, wishes, i + 1);
        let less = Seq::new((wishes.len() - i - 1) as nat, |j: int| rule_for(wishes[i + 1 + j]));
        assert(next.document.forwarding + less =~= s.document.forwarding + rest);
    } else {
        assert(s.document.forwarding + rest =~= s.document.forwarding);
    }
}

/// A document of forwarding rules is read rule by rule, in its order: each goes to the
/// target that it names, under the condition that its element names, with its timer, and
/// is switched on just where it says so. A rule with none of the known conditions holds
/// always.
pub proof fn law_rules_are_read_as_they_stand(
    original: Seq<char>,
    events: Seq<EventValue>,
    wishes: Seq<Wish>,
)
    requires
        rules_document(events, wishes),
    ensures
        ({
            let r = ut::document_of(UtDocumentKind::CommunicationDiversion, original, events);
            &&& r is Ok
            &&& r->Ok_0.forwarding.len() == wishes.len()
            &&& forall|i: int|
                0 <= i < wishes.len() ==> {
                    let rule = #[trigger] r->Ok_0.forwarding[i];
                    &&& rule.condition == wishes[i].condition
                    &&& rule.enabled == wishes[i].enabled
                    &&& rule.target == Some(wishes[i].target)
                    &&& rule.timer == Some(wishes[i].seconds)
                }
            &&& r->Ok_0.call_waiting is None && r->Ok_0.presentation is None
        }),
{
    let kind = UtDocumentKind::CommunicationDiversion;
    let document = Document { original: Some(original), dirty: false, ..ut::empty_document(kind) };
    let s = Scan { document, depth: 0, rule: None, words: seq![] };
    let end = 1 + 14 * wishes.len() as int;
    reveal_strlit("communication-diversion");
    reveal_strlit("rule");
    reveal_strlit("active");
    reveal_strlit("enabled");
    assert("communication-diversion"@.len() == 23 && "rule"@.len() == 4);
    assert("active"@.len() == 6 && "enabled"@.len() == 7);
    let s1 = Scan { depth: 1, ..s };
    assert(ut::after_event(s, events[0].kind) == Ok::<_, Seq<char>>(s1));
    lemma_rules(s1, events, wishes, 0);
    let rules = Seq::new(wishes.len(), |j: int| rule_for(wishes[0 + j]));
    let full = Document { forwarding: document.forwarding + rules, ..document };
    let s2 = Scan { document: full, ..s1 };
    assert(document.forwarding + rules =~= rules);
    let done = Scan { document: full, ..s };
    assert(ut::after_event(s2, events[end].kind) == Ok::<_, Seq<char>>(done));
    assert(ut::scan_from(s2, events, end) == ut::scan_from(done, events, end + 1));
    assert(ut::scan_from(done, events, end + 1) == Ok::<_, Seq<char>>(full));
    assert(ut::scan_from(s, events, 0) == ut::scan_from(s1, events, 1));
}

/// A document with one switch in it.
pub open spec fn switch_document(events: Seq<EventValue>, root: Seq<char>, flag: Seq<char>) -> bool {
    &&& events.len() == 6
    &&& opens(events[0], root)
    &&& element_at(events, 1, "active"@, flag)
    &&& closes(events[4], root)
    &&& events[5].kind is Eof
}

/// A switch is read as what it says: for call waiting that calls wait or not, and for an
/// identity that it is shown or withheld. It says nothing of the others.
pub proof fn law_switch_is_read_as_it_stands(
    kind: UtDocumentKind,
    original: Seq<char>,
    events: Seq<EventValue>,
    flag: Seq<char>,
    on: bool,
)
    requires
        switch_document(events, kind.name_spec(), flag),
        says_flag(flag, on),
    ensures
        ({
            let r = ut::document_of(kind, original, events);
            &&& r is Ok
            &&& r->Ok_0.forwarding.len() == 0
            &&& kind is CommunicationWaiting ==> r->Ok_0.call_waiting == Some(on)
                && r->Ok_0.presentation is None
            &&& kind is OriginatingIdentityPresentation || kind is OriginatingIdentityRestriction
                ==> r->Ok_0.call_waiting is None && r->Ok_0.presentation == Some(
                if on {
                    IdentityPresentation::Allowed
                } else {
                    IdentityPresentation::Restricted
                },
            )
            &&& kind is CommunicationDiversion ==> r->Ok_0.call_waiting is None
                && r->Ok_0.presentation is None
        }),
{
    let document = Document { original: Some(original), dirty: false, ..ut::empty_document(kind) };
    let s = Scan { document, depth: 0, rule: None, words: seq![] };
    let root = kind.name_spec();
    reveal_strlit("communication-waiting");
    reveal_strlit("communication-diversion");
    reveal_strlit("originating-identity-presentation");
    reveal_strlit("originating-identity-restriction");
    reveal_strlit("rule");
    reveal_strlit("active");
    reveal_strlit("enabled");
    assert(root.len() > 7);
    assert("rule"@.len() == 4 && "active"@.len() == 6 && "enabled"@.len() == 7);
    lemma_flag(flag, on);
    let s1 = Scan { depth: 1, ..s };
    assert(ut::after_event(s, events[0].kind) == Ok::<_, Seq<char>>(s1));
    let s2 = Scan { depth: 2, ..s };
    assert(ut::after_event(s1, events[1].kind) == Ok::<_, Seq<char>>(s2));
    assert(s.words + text::trim(flag) =~= text::trim(flag));
    let s3 = Scan { words: text::trim(flag), ..s2 };
    assert(ut::after_event(s2, events[2].kind) == Ok::<_, Seq<char>>(s3));
    let known = ut::content_seen(document, "active"@, text::trim(flag));
    assert(known is Ok);
    let s4 = Scan { document: known->Ok_0, ..s1 };
    assert(ut::after_event(s3, events[3].kind) == Ok::<_, Seq<char>>(s4));
    let s5 = Scan { document: known->Ok_0, ..s };
    assert(ut::after_event(s4, events[4].kind) == Ok::<_, Seq<char>>(s5));
    assert(ut::scan_from(s5, events, 5) == Ok::<_, Seq<char>>(known->Ok_0));
    assert(ut::scan_from(s4, events, 4) == ut::scan_from(s5, events, 5));
    assert(ut::scan_from(s3, events, 3) == ut::scan_from(s4, events, 4));
    assert(ut::scan_from(s2, events, 2) == ut::scan_from(s3, events, 3));
    assert(ut::scan_from(s1, events, 1) == ut::scan_from(s2, events, 2));
    assert(ut::scan_from(s, events, 0) == ut::scan_from(s1, events, 1));
}

/// An attribute of this name with this value, and no other.
pub open spec fn has_attribute(tag: Tag, name: Seq<char>, value: Seq<char>) -> bool {
    tag.attributes.len() == 1 && (tag.attributes[0] matches Some((k, v)) && ut::local_of(k) == name
        && utf8::lossy_text(v) == value)
}

/// A document with one rule that has nothing in it.
pub open spec fn bare_rule_document(events: Seq<EventValue>, rule: Tag) -> bool {
    &&& events.len() == 5
    &&& opens(events[0], "communication-diversion"@)
    &&& events[1].kind == Kind::Start(rule)
    &&& ut::local_of(rule.name) == "rule"@
    &&& closes(events[2], "rule"@)
    &&& closes(events[3], "communication-diversion"@)
    &&& events[4].kind is Eof
}

/// A rule that says nothing holds always, goes nowhere and is switched on, unless an attribute
/// of it says otherwise.
pub proof fn law_bare_rule_is_switched_on(
    original: Seq<char>,
    events: Seq<EventValue>,
    rule: Tag,
    value: Seq<char>,
    on: bool,
)
    requires
        bare_rule_document(events, rule),
        rule.attributes.len() == 0 && on || (has_attribute(rule, "active"@, value) || has_attribute(
            rule,
            "enabled"@,
            value,
        )) && says_flag(value, on),
    ensures
        ({
            let r = ut::document_of(UtDocumentKind::CommunicationDiversion, original, events);
            &&& r is Ok
            &&& r->Ok_0.forwarding == seq![
                Rule {
                    condition: ForwardingCondition::Unconditional,
                    enabled: on,
                    target: None,
                    timer: None,
                    etag: None,
                },
            ]
        }),
{
    let kind = UtDocumentKind::CommunicationDiversion;
    let document = Document { original: Some(original), dirty: false, ..ut::empty_document(kind) };
    let s = Scan { document, depth: 0, rule: None, words: seq![] };
    reveal_strlit("communication-diversion");
    reveal_strlit("rule");
    reveal_strlit("active");
    reveal_strlit("enabled");
    assert("communication-diversion"@.len() == 23 && "rule"@.len() == 4);
    assert("active"@.len() == 6 && "enabled"@.len() == 7);
    if rule.attributes.len() > 0 {
        lemma_flag(value, on);
        text_laws::law_alike_ignores_case_alone("active"@, "active"@);
        text_laws::law_alike_ignores_case_alone("enabled"@, "enabled"@);
        text_laws::law_alike_ignores_case_alone("enabled"@, "active"@);
        text_laws::law_alike_ignores_case_alone("active"@, "enabled"@);
        reveal_with_fuel(ut::attr_from, 3);
    }
    let p = ut::Pending {
        condition: ForwardingCondition::Unconditional,
        enabled: on,
        target: None,
        timer: None,
    };
    assert(ut::pending_of(rule) == p);
    let s1 = Scan { depth: 1, ..s };
    assert(ut::after_event(s, events[0].kind) == Ok::<_, Seq<char>>(s1));
    let s2 = Scan { depth: 2, rule: Some(p), ..s };
    assert(ut::after_event(s1, events[1].kind) == Ok::<_, Seq<char>>(s2));
    let only = Rule {
        condition: ForwardingCondition::Unconditional,
        enabled: on,
        target: None,
        timer: None,
        etag: None,
    };
    assert(ut::rule_of(p) == Ok::<_, Seq<char>>(only));
    let full = ut::with_rule(document, only);
    let s3 = Scan { document: full, ..s1 };
    assert(ut::after_event(s2, events[2].kind) == Ok::<_, Seq<char>>(s3));
    let s4 = Scan { document: full, ..s };
    assert(ut::after_event(s3, events[3].kind) == Ok::<_, Seq<char>>(s4));
    assert(ut::scan_from(s4, events, 4) == Ok::<_, Seq<char>>(full));
    assert(ut::scan_from(s3, events, 3) == ut::scan_from(s4, events, 4));
    assert(ut::scan_from(s2, events, 2) == ut::scan_from(s3, events, 3));
    assert(ut::scan_from(s1, events, 1) == ut::scan_from(s2, events, 2));
    assert(ut::scan_from(s, events, 0) == ut::scan_from(s1, events, 1));
    assert(full.forwarding =~= seq![only]);
}

/// A document that ends inside an element is refused, and so is one that is no XML.
pub proof fn law_cut_off_document_is_refused(
    kind: UtDocumentKind,
    original: Seq<char>,
    events: Seq<EventValue>,
    root: Seq<char>,
)
    requires
        events.len() == 2,
        opens(events[0], root),
        events[1].kind is Eof || events[1].kind is Invalid,
    ensures
        ut::document_of(kind, original, events) is Err,
{
    let document = Document { original: Some(original), dirty: false, ..ut::empty_document(kind) };
    let s = Scan { document, depth: 0, rule: None, words: seq![] };
    let s1 = ut::after_start(s, events[0].kind->Start_0);
    assert(s1.depth == 1);
    assert(ut::scan_from(s, events, 0) == ut::scan_from(s1, events, 1));
}

/// A name is read behind its last colon, in lower case: whatever prefix stands before it,
/// the element is the same.
pub proof fn law_prefix_does_not_count(prefix: Seq<u8>, name: Seq<u8>)
    requires
        forall|i: int| 0 <= i < name.len() ==> (#[trigger] name[i]) != 58,
    ensures
        ut::local_of(prefix.push(58u8) + name) == ut::local_of(name),
        ut::local_of(name) == text::lower_all(utf8::lossy_text(name)),
{
    let all = prefix.push(58u8) + name;
    lemma_local_start(all, prefix.len() as int + 1, all.len() as int);
    lemma_local_start(name, 0, name.len() as int);
    assert(all.subrange(prefix.len() as int + 1, all.len() as int) =~= name);
    assert(name.subrange(0, name.len() as int) =~= name);
}

proof fn lemma_local_start(name: Seq<u8>, from: int, i: int)
    requires
        0 <= from <= i <= name.len(),
        from == 0 || name[from - 1] == 58,
        forall|j: int| from <= j < i ==> (#[trigger] name[j]) != 58,
    ensures
        ut::local_start(name, i) == from,
    decreases i,
{
    if i > from {
        lemma_local_start(name, from, i - 1);
    }
}

// ------------------------------------------------------------------------ writing

pub open spec fn escaped(t: Seq<char>) -> Seq<char> {
    ut::escaped_upto(t, t.len() as int)
}

/// A text is escaped character by character: the marks of XML get their names, and
/// everything else stays as it is.
pub proof fn law_escaping_goes_by_character(a: Seq<char>, c: char)
    ensures
        escaped(a.push(c)) == escaped(a) + (match c {
            '&' => "&amp;"@,
            '<' => "&lt;"@,
            '>' => "&gt;"@,
            '"' => "&quot;"@,
            _ => seq![c],
        }),
        escaped(Seq::empty()) == Seq::<char>::empty(),
{
    let b = a.push(c);
    lemma_escaped_prefix(a, b, a.len() as int);
}

proof fn lemma_escaped_prefix(a: Seq<char>, b: Seq<char>, n: int)
    requires
        0 <= n <= a.len(),
        n <= b.len(),
        forall|i: int| 0 <= i < n ==> a[i] == b[i],
    ensures
        ut::escaped_upto(a, n) == ut::escaped_upto(b, n),
    decreases n,
{
    if n > 0 {
        lemma_escaped_prefix(a, b, n - 1);
    }
}

/// What is written of a text opens no element and ends no attribute.
pub proof fn law_escaped_text_has_no_marks(t: Seq<char>)
    ensures
        forall|i: int|
            0 <= i < escaped(t).len() ==> (#[trigger] escaped(t)[i]) != '<' && escaped(t)[i] != '>'
                && escaped(t)[i] != '"',
    decreases t.len(),
{
    if t.len() > 0 {
        let a = t.drop_last();
        law_escaped_text_has_no_marks(a);
        law_escaping_goes_by_character(a, t.last());
        assert(a.push(t.last()) =~= t);
        reveal_strlit("&amp;");
        reveal_strlit("&lt;");
        reveal_strlit("&gt;");
        reveal_strlit("&quot;");
        let n = escaped(a).len() as int;
        assert forall|i: int| 0 <= i < escaped(t).len() implies (#[trigger] escaped(t)[i]) != '<'
            && escaped(t)[i] != '>' && escaped(t)[i] != '"' by {
            if i < n {
                assert(escaped(t)[i] == escaped(a)[i]);
            }
        }
    }
}

/// How a rule is written.
pub open spec fn written_rule(w: Wish) -> Seq<char> {
    (match w.condition {
        ForwardingCondition::Unconditional => "<rule id=\"unconditional\">"@,
        ForwardingCondition::Busy => "<rule id=\"busy\">"@,
        ForwardingCondition::NoReply => "<rule id=\"no-reply\">"@,
        ForwardingCondition::NotReachable => "<rule id=\"not-reachable\">"@,
    }) + (if w.enabled {
        "<enabled>true</enabled>"@
    } else {
        "<enabled>false</enabled>"@
    }) + "<target>"@ + escaped(w.target) + "</target>"@ + "<no-reply-timer>"@ + text::decimal(
        w.seconds as nat,
    ) + "</no-reply-timer>"@ + "</rule>"@
}

pub open spec fn written_rules(wishes: Seq<Wish>) -> Seq<char>
    decreases wishes.len(),
{
    if wishes.len() == 0 {
        seq![]
    } else {
        written_rules(wishes.drop_last()) + written_rule(wishes.last())
    }
}

proof fn lemma_opening(c: ForwardingCondition)
    ensures
        "<rule id=\""@ + ut::condition_id(c) + "\">"@ == (match c {
            ForwardingCondition::Unconditional => "<rule id=\"unconditional\">"@,
            ForwardingCondition::Busy => "<rule id=\"busy\">"@,
            ForwardingCondition::NoReply => "<rule id=\"no-reply\">"@,
            ForwardingCondition::NotReachable => "<rule id=\"not-reachable\">"@,
        }),
{
    reveal_strlit("<rule id=\"");
    reveal_strlit("\">");
    reveal_strlit("unconditional");
    reveal_strlit("busy");
    reveal_strlit("no-reply");
    reveal_strlit("not-reachable");
    reveal_strlit("<rule id=\"unconditional\">");
    reveal_strlit("<rule id=\"busy\">");
    reveal_strlit("<rule id=\"no-reply\">");
    reveal_strlit("<rule id=\"not-reachable\">");
    match c {
        ForwardingCondition::Unconditional => {
            assert("<rule id=\""@ + "unconditional"@ + "\">"@ =~= "<rule id=\"unconditional\">"@);
        },
        ForwardingCondition::Busy => {
            assert("<rule id=\""@ + "busy"@ + "\">"@ =~= "<rule id=\"busy\">"@);
        },
        ForwardingCondition::NoReply => {
            assert("<rule id=\""@ + "no-reply"@ + "\">"@ =~= "<rule id=\"no-reply\">"@);
        },
        ForwardingCondition::NotReachable => {
            assert("<rule id=\""@ + "not-reachable"@ + "\">"@ =~= "<rule id=\"not-reachable\">"@);
        },
    }
}

proof fn lemma_switch(on: bool)
    ensures
        ut::element("enabled"@, ut::flag_text(on)) == (if on {
            "<enabled>true</enabled>"@
        } else {
            "<enabled>false</enabled>"@
        }),
        ut::element("active"@, ut::flag_text(on)) == (if on {
            "<active>true</active>"@
        } else {
            "<active>false</active>"@
        }),
{
    reveal_strlit("<");
    reveal_strlit(">");
    reveal_strlit("</");
    reveal_strlit("true");
    reveal_strlit("false");
    reveal_strlit("enabled");
    reveal_strlit("active");
    reveal_strlit("<enabled>true</enabled>");
    reveal_strlit("<enabled>false</enabled>");
    reveal_strlit("<active>true</active>");
    reveal_strlit("<active>false</active>");
    if on {
        assert(ut::element("enabled"@, "true"@) =~= "<enabled>true</enabled>"@);
        assert(ut::element("active"@, "true"@) =~= "<active>true</active>"@);
    } else {
        assert(ut::element("enabled"@, "false"@) =~= "<enabled>false</enabled>"@);
        assert(ut::element("active"@, "false"@) =~= "<active>false</active>"@);
    }
}

proof fn lemma_tags(name: Seq<char>, open: Seq<char>, close: Seq<char>, content: Seq<char>)
    requires
        "<"@ + name + ">"@ == open,
        "</"@ + name + ">"@ == close,
    ensures
        ut::element(name, content) == open + content + close,
{
    assert(ut::element(name, content) =~= ("<"@ + name + ">"@) + content + ("</"@ + name + ">"@));
}

proof fn lemma_written_rule(w: Wish)
    ensures
        ut::rule_xml(rule_for(w)) == written_rule(w),
{
    lemma_opening(w.condition);
    lemma_switch(w.enabled);
    reveal_strlit("<");
    reveal_strlit(">");
    reveal_strlit("</");
    reveal_strlit("target");
    reveal_strlit("no-reply-timer");
    reveal_strlit("<target>");
    reveal_strlit("</target>");
    reveal_strlit("<no-reply-timer>");
    reveal_strlit("</no-reply-timer>");
    assert("<"@ + "target"@ + ">"@ =~= "<target>"@);
    assert("</"@ + "target"@ + ">"@ =~= "</target>"@);
    assert("<"@ + "no-reply-timer"@ + ">"@ =~= "<no-reply-timer>"@);
    assert("</"@ + "no-reply-timer"@ + ">"@ =~= "</no-reply-timer>"@);
    lemma_tags("target"@, "<target>"@, "</target>"@, escaped(w.target));
    let digits = text::decimal(w.seconds as nat);
    lemma_tags("no-reply-timer"@, "<no-reply-timer>"@, "</no-reply-timer>"@, digits);
    assert(ut::rule_xml(rule_for(w)) =~= written_rule(w));
}

proof fn lemma_written_rules(wishes: Seq<Wish>, rules: Seq<Rule>)
    requires
        wishes.len() <= rules.len(),
        forall|i: int| 0 <= i < wishes.len() ==> rules[i] == rule_for(#[trigger] wishes[i]),
    ensures
        ut::rules_xml(rules, wishes.len() as int) == written_rules(wishes),
    decreases wishes.len(),
{
    if wishes.len() > 0 {
        lemma_written_rules(wishes.drop_last(), rules);
        lemma_written_rule(wishes.last());
        assert(rules[wishes.len() - 1] == rule_for(wishes[wishes.len() - 1]));
    }
}

/// A new document of rules holds each of them in its order, with its condition, its switch,
/// its target and its timer, and nothing else.
pub proof fn law_new_rules_are_written(wishes: Seq<Wish>, etag: Option<Seq<char>>, dirty: bool)
    ensures
        ut::xml_of(
            Document {
                kind: UtDocumentKind::CommunicationDiversion,
                call_waiting: None,
                forwarding: Seq::new(wishes.len(), |i: int| rule_for(wishes[i])),
                presentation: None,
                etag,
                original: None,
                dirty,
            },
        ) == "<communication-diversion xmlns=\"urn:3gpp:ns:xml:ue:communication\">"@
            + written_rules(wishes) + "</communication-diversion>"@,
{
    let rules = Seq::new(wishes.len(), |i: int| rule_for(wishes[i]));
    lemma_written_rules(wishes, rules);
    reveal_strlit("<");
    reveal_strlit(">");
    reveal_strlit("</");
    reveal_strlit("communication-diversion");
    reveal_strlit(" xmlns=\"urn:3gpp:ns:xml:ue:communication\">");
    reveal_strlit("<communication-diversion xmlns=\"urn:3gpp:ns:xml:ue:communication\">");
    reveal_strlit("</communication-diversion>");
    let name = "communication-diversion"@;
    let open = "<"@ + name + " xmlns=\"urn:3gpp:ns:xml:ue:communication\">"@;
    assert(open =~= "<communication-diversion xmlns=\"urn:3gpp:ns:xml:ue:communication\">"@);
    let close = "</"@ + name + ">"@;
    assert(close =~= "</communication-diversion>"@);
    let body = written_rules(wishes);
    assert(open + seq![] + seq![] + body + "</"@ + name + ">"@ =~= open + body + close);
}

/// A new document with a switch says it in its one element: calls wait or not, and an
/// identity is shown or withheld.
pub proof fn law_new_switch_is_written(
    kind: UtDocumentKind,
    on: bool,
    etag: Option<Seq<char>>,
    dirty: bool,
)
    requires
        !(kind is CommunicationDiversion),
    ensures
        ({
            let shown = if on {
                IdentityPresentation::Allowed
            } else {
                IdentityPresentation::Restricted
            };
            let d = Document {
                kind,
                call_waiting: if kind is CommunicationWaiting {
                    Some(on)
                } else {
                    None
                },
                forwarding: seq![],
                presentation: if kind is CommunicationWaiting {
                    None
                } else {
                    Some(shown)
                },
                etag,
                original: None,
                dirty,
            };
            let name = match kind {
                UtDocumentKind::CommunicationWaiting => "communication-waiting"@,
                UtDocumentKind::OriginatingIdentityPresentation =>
                    "originating-identity-presentation"@,
                _ => "originating-identity-restriction"@,
            };
            &&& ut::xml_of(d) == "<"@ + name
                + " xmlns=\"urn:3gpp:ns:xml:ue:communication\">"@ + (if on {
                "<active>true</active>"@
            } else {
                "<active>false</active>"@
            }) + "</"@ + name + ">"@
        }),
{
    lemma_switch(on);
    let shown = if on {
        IdentityPresentation::Allowed
    } else {
        IdentityPresentation::Restricted
    };
    let name = kind.name_spec();
    let open = "<"@ + name + " xmlns=\"urn:3gpp:ns:xml:ue:communication\">"@;
    let flag = ut::element("active"@, ut::flag_text(on));
    let close = "</"@ + name + ">"@;
    assert(ut::rules_xml(seq![], 0) =~= seq![]);
    assert(open + flag + seq![] + seq![] + "</"@ + name + ">"@ =~= open + flag + "</"@ + name + ">"@);
    assert(open + seq![] + flag + seq![] + "</"@ + name + ">"@ =~= open + flag + "</"@ + name + ">"@);
}

/// Setting a switch changes the text of its element and keeps every other byte of the
/// document.
pub proof fn law_set_switch_is_written(
    d: Document,
    events: Seq<EventValue>,
    root: Seq<char>,
    flag: Seq<char>,
    on: bool,
)
    requires
        switch_document(events, root, flag),
        root != "active"@,
        d.original is Some,
        d.dirty,
        d.kind is CommunicationWaiting ==> d.call_waiting == Some(on),
        !(d.kind is CommunicationWaiting) ==> d.presentation == Some(
            if on {
                IdentityPresentation::Allowed
            } else {
                IdentityPresentation::Restricted
            },
        ),
        !(d.kind is CommunicationDiversion),
        ({
            let bytes = events[0].written + events[1].written + encode_utf8(
                if on {
                    "true"@
                } else {
                    "false"@
                },
            ) + events[3].written + events[4].written;
            valid_utf8(bytes)
        }),
    ensures
        ut::xml_with(d, events) == decode_utf8(
            events[0].written + events[1].written + encode_utf8(
                if on {
                    "true"@
                } else {
                    "false"@
                },
            ) + events[3].written + events[4].written,
        ),
{
    let by = if on {
        "true"@
    } else {
        "false"@
    };
    reveal_strlit("true");
    reveal_strlit("false");
    lemma_plain_escape(by);
    let w0 = Rewriting { stack: seq![], out: seq![], replaced: false };
    let w1 = ut::rewriting_after(w0, events[0], by);
    let w2 = ut::rewriting_after(w1, events[1], by);
    assert(w2.stack.last() == "active"@);
    let w3 = ut::rewriting_after(w2, events[2], by);
    let w4 = ut::rewriting_after(w3, events[3], by);
    let w5 = ut::rewriting_after(w4, events[4], by);
    assert(w3.replaced);
    let bytes = events[0].written + events[1].written + encode_utf8(by) + events[3].written
        + events[4].written;
    assert(w5.out =~= bytes);
    assert(ut::rewritten_from(w5, events, by, 5) == Some(w5));
    assert(ut::rewritten_from(w4, events, by, 4) == Some(w5));
    assert(ut::rewritten_from(w3, events, by, 3) == Some(w5));
    assert(ut::rewritten_from(w2, events, by, 2) == Some(w5));
    assert(ut::rewritten_from(w1, events, by, 1) == Some(w5));
    assert(ut::rewritten_from(w0, events, by, 0) == Some(w5));
}

proof fn lemma_plain_escape(s: Seq<char>)
    requires
        forall|i: int| 0 <= i < s.len() ==> 'a' <= (#[trigger] s[i]) <= 'z',
    ensures
        xml::escaped(s) == s,
    decreases s.len(),
{
    if s.len() > 0 {
        lemma_plain_escape(s.drop_last());
        lemma_plain_escape(s.drop_first());
        assert(s =~= seq![s[0]] + s.drop_first());
        assert(s =~= s.drop_last() + seq![s.last()]);
    }
}

/// Two documents say the same only where they agree on call waiting, on the identity and on
/// every rule: its condition, its switch, its target and its timer.
pub proof fn law_meaning_is_all_that_counts(a: Document, b: Document)
    ensures
        ut::same_meaning(a, b) ==> {
            &&& a.kind == b.kind
            &&& a.call_waiting == b.call_waiting
            &&& a.presentation == b.presentation
            &&& a.forwarding.len() == b.forwarding.len()
            &&& forall|i: int|
                0 <= i < a.forwarding.len() ==> {
                    &&& (#[trigger] a.forwarding[i]).condition == b.forwarding[i].condition
                    &&& a.forwarding[i].enabled == b.forwarding[i].enabled
                    &&& a.forwarding[i].target == b.forwarding[i].target
                    &&& a.forwarding[i].timer == b.forwarding[i].timer
                }
        },
        ut::same_meaning(a, b) == ut::same_meaning(b, a),
        ut::same_meaning(a, a),
{
}

// ------------------------------------------------------------------------ requests

/// Slashes at the end of the root and around the selector do not count: a document's
/// address holds exactly one between its parts.
pub proof fn law_address_has_single_slashes(
    root: Seq<char>,
    selector: Seq<char>,
    namespace: Seq<char>,
    kind: UtDocumentKind,
    a: Seq<char>,
    b: Seq<char>,
    c: Seq<char>,
)
    requires
        root.len() > 0 && root.last() != '/',
        selector.len() > 0 && selector[0] != '/' && selector.last() != '/',
        forall|i: int| 0 <= i < a.len() ==> (#[trigger] a[i]) == '/',
        forall|i: int| 0 <= i < b.len() ==> (#[trigger] b[i]) == '/',
        forall|i: int| 0 <= i < c.len() ==> (#[trigger] c[i]) == '/',
        text::trim(b + selector + c).len() > 0,
        text::trim(namespace).len() > 0,
    ensures
        ut::document_url_of(
            Policy { root: root + a, selector: b + selector + c, namespace },
            kind,
            Some(("https"@, true)),
        ) == Ok::<_, Seq<char>>(
            root + seq!['/'] + selector + seq!['/'] + (match kind {
                UtDocumentKind::CommunicationWaiting => "communication-waiting"@,
                UtDocumentKind::CommunicationDiversion => "communication-diversion"@,
                UtDocumentKind::OriginatingIdentityPresentation =>
                    "originating-identity-presentation"@,
                UtDocumentKind::OriginatingIdentityRestriction =>
                    "originating-identity-restriction"@,
            }),
        ),
{
    reveal_strlit("/");
    assert("/"@ =~= seq!['/']);
    let r = root + a;
    lemma_back_slashes(r, 0, root.len() as int, r.len() as int);
    assert(r.subrange(0, root.len() as int) =~= root);
    let s = b + selector + c;
    lemma_skip_slashes(s, 0, b.len() as int);
    lemma_back_slashes(s, b.len() as int, (b.len() + selector.len()) as int, s.len() as int);
    assert(s.subrange(b.len() as int, (b.len() + selector.len()) as int) =~= selector);
}

proof fn lemma_back_slashes(s: Seq<char>, lo: int, end: int, i: int)
    requires
        0 <= lo < end <= i <= s.len(),
        s[end - 1] != '/',
        forall|j: int| end <= j < i ==> (#[trigger] s[j]) == '/',
    ensures
        text::back_char(s, '/', lo, i) == end,
    decreases i,
{
    if i > end {
        lemma_back_slashes(s, lo, end, i - 1);
    }
}

proof fn lemma_skip_slashes(s: Seq<char>, i: int, end: int)
    requires
        0 <= i <= end < s.len(),
        s[end] != '/',
        forall|j: int| i <= j < end ==> (#[trigger] s[j]) == '/',
    ensures
        text::skip_char(s, '/', i) == end,
    decreases end - i,
{
    if i < end {
        lemma_skip_slashes(s, i + 1, end);
    }
}

/// No document is asked for where the root is no HTTPS address with a host, or the policy
/// leaves its selector or its namespace blank.
pub proof fn law_unsafe_policy_has_no_address(
    p: Policy,
    kind: UtDocumentKind,
    root: Option<(Seq<char>, bool)>,
)
    ensures
        root is None || (root->0).0 != "https"@ || !(root->0).1 || text::trim(p.selector).len()
            == 0 || text::trim(p.namespace).len() == 0 <==> ut::document_url_of(p, kind, root) is Err,
{
}

/// A document is read with a bare `GET` of its address.
pub proof fn law_get_asks_for_the_document(
    p: Policy,
    kind: UtDocumentKind,
    root: Option<(Seq<char>, bool)>,
)
    ensures
        ({
            let url = ut::document_url_of(p, kind, root);
            match ut::get_of(url) {
                Ok(q) => q.method == "GET"@ && url == Ok::<_, Seq<char>>(q.uri) && q.if_match is None
                    && q.body is None,
                Err(e) => url == Err::<Seq<char>, _>(e),
            }
        }),
{
}

/// A document with an ETag is written with a `PUT` of its text to the address that it is
/// read from, and one without is not written at all.
pub proof fn law_put_writes_the_document(d: Document, p: Policy, root: Option<(Seq<char>, bool)>)
    ensures
        ({
            let url = ut::document_url_of(p, d.kind, root);
            let r = ut::put_of(d, url, ut::xml_of(d));
            &&& d.etag is Some && url is Ok ==> r is Ok && r->Ok_0.method == "PUT"@ && r->Ok_0.uri
                == url->Ok_0 && r->Ok_0.if_match == d.etag && r->Ok_0.body == Some(ut::xml_of(d))
            &&& d.etag is None || url is Err ==> r is Err
        }),
{
}

} // verus!
