//! Access-neutral IMS Ut/XCAP domain types.
//!
//! The access adapters own HTTP/TLS, Digest-AKA and routing. This module only
//! validates the catalog policy, parses the small set of Ut documents in use,
//! and describes the GET/conditional PUT transaction. Keeping this boundary
//! transport-free lets both cellular and Wi-Fi access use the same state machine.

use crate::supplementary::{CallForwardingRule, ForwardingCondition, IdentityPresentation};
use crate::xml::{read_events, write_text, XmlEvent, XmlKind, XmlTag};
use crate::{net, text, utf8, xml};
use vstd::prelude::*;
use vstd::slice::slice_subrange;
use vstd::utf8::*;

verus! {

#[derive(Debug, Clone, Copy, PartialEq, Eq)]
pub struct UtError {
    code: &'static str,
}

impl UtError {
    pub closed spec fn code_spec(&self) -> Seq<char> {
        self.code@
    }

    pub fn new(code: &'static str) -> (r: Self)
        ensures
            r.code_spec() == code@,
    {
        UtError { code }
    }

    pub fn code(self) -> (r: &'static str)
        ensures
            r@ == self.code_spec(),
    {
        self.code
    }
}

#[derive(Debug, Clone, Copy, PartialEq, Eq, Structural)]
pub enum UtDocumentKind {
    CommunicationWaiting,
    CommunicationDiversion,
    OriginatingIdentityPresentation,
    OriginatingIdentityRestriction,
}

impl UtDocumentKind {
    pub open spec fn name_spec(self) -> Seq<char> {
        match self {
            UtDocumentKind::CommunicationWaiting => "communication-waiting"@,
            UtDocumentKind::CommunicationDiversion => "communication-diversion"@,
            UtDocumentKind::OriginatingIdentityPresentation =>
                "originating-identity-presentation"@,
            UtDocumentKind::OriginatingIdentityRestriction => "originating-identity-restriction"@,
        }
    }

    /// Does the document switch the presentation of an identity?
    pub open spec fn identity_spec(self) -> bool {
        self is OriginatingIdentityPresentation || self is OriginatingIdentityRestriction
    }

    pub fn document_name(self) -> (r: &'static str)
        ensures
            r@ == self.name_spec(),
    {
        match self {
            UtDocumentKind::CommunicationWaiting => "communication-waiting",
            UtDocumentKind::CommunicationDiversion => "communication-diversion",
            UtDocumentKind::OriginatingIdentityPresentation => "originating-identity-presentation",
            UtDocumentKind::OriginatingIdentityRestriction => "originating-identity-restriction",
        }
    }

    fn is_identity(self) -> (r: bool)
        ensures
            r == self.identity_spec(),
    {
        match self {
            UtDocumentKind::OriginatingIdentityPresentation => true,
            UtDocumentKind::OriginatingIdentityRestriction => true,
            _ => false,
        }
    }
}

// --------------------------------------------------------------------- models

/// A forwarding rule as a value.
pub struct Rule {
    pub condition: ForwardingCondition,
    pub enabled: bool,
    pub target: Option<Seq<char>>,
    pub timer: Option<u16>,
    pub etag: Option<Seq<char>>,
}

impl View for CallForwardingRule {
    type V = Rule;

    open spec fn view(&self) -> Rule {
        Rule {
            condition: self.condition,
            enabled: self.enabled,
            target: text::opt_text(self.target_uri),
            timer: self.no_reply_timer_seconds,
            etag: text::opt_text(self.etag),
        }
    }
}

pub open spec fn rules_of(v: Seq<CallForwardingRule>) -> Seq<Rule> {
    Seq::new(v.len(), |i: int| v[i]@)
}

/// A document as a value.
pub struct Document {
    pub kind: UtDocumentKind,
    pub call_waiting: Option<bool>,
    pub forwarding: Seq<Rule>,
    pub presentation: Option<IdentityPresentation>,
    pub etag: Option<Seq<char>>,
    pub original: Option<Seq<char>>,
    pub dirty: bool,
}

#[derive(Debug, Clone, PartialEq, Eq)]
pub struct UtDocument {
    pub kind: UtDocumentKind,
    pub call_waiting: Option<bool>,
    pub forwarding: Vec<CallForwardingRule>,
    pub identity_presentation: Option<IdentityPresentation>,
    /// The last network ETag. It is intentionally metadata, never a secret.
    pub etag: Option<String>,
    /// The original text is retained so that a read-only GET/parse/GET round
    /// trip does not destroy carrier-specific XML extensions.
    pub original_xml: Option<String>,
    pub dirty: bool,
}

impl View for UtDocument {
    type V = Document;

    open spec fn view(&self) -> Document {
        Document {
            kind: self.kind,
            call_waiting: self.call_waiting,
            forwarding: rules_of(self.forwarding@),
            presentation: self.identity_presentation,
            etag: text::opt_text(self.etag),
            original: text::opt_text(self.original_xml),
            dirty: self.dirty,
        }
    }
}

/// A rule that is being read.
pub struct Pending {
    pub condition: ForwardingCondition,
    pub enabled: bool,
    pub target: Option<Seq<char>>,
    pub timer: Option<u16>,
}

#[derive(Debug, Clone, PartialEq, Eq)]
struct PendingRule {
    condition: ForwardingCondition,
    enabled: bool,
    target_uri: Option<String>,
    timer: Option<u16>,
}

impl PendingRule {
    spec fn value(&self) -> Pending {
        Pending {
            condition: self.condition,
            enabled: self.enabled,
            target: text::opt_text(self.target_uri),
            timer: self.timer,
        }
    }
}

// ----------------------------------------------------------- names and values

/// Where the part behind the last colon before `i` begins.
pub open spec fn local_start(name: Seq<u8>, i: int) -> int
    decreases i,
{
    if i <= 0 {
        0
    } else if name[i - 1] == 58u8 {
        i
    } else {
        local_start(name, i - 1)
    }
}

/// The part of a qualified name behind its last colon, in lower case.
pub open spec fn local_of(name: Seq<u8>) -> Seq<char> {
    text::lower_all(
        utf8::lossy_text(name.subrange(local_start(name, name.len() as int), name.len() as int)),
    )
}

fn local_name(value: &[u8]) -> (r: Vec<char>)
    ensures
        r@ == local_of(value@),
{
    let mut i: usize = value.len();
    while i > 0 && value[i - 1] != 58u8
        invariant
            i <= value@.len(),
            local_start(value@, value@.len() as int) == local_start(value@, i as int),
        decreases i,
    {
        i -= 1;
    }
    let part = utf8::decode_lossy(slice_subrange(value, i, value.len()));
    let part_chars = text::chars_of(part.as_str());
    text::lowered(part_chars.as_slice())
}

/// The value of the first attribute from `i` on with this local name.
pub open spec fn attr_from(
    attributes: Seq<Option<(Seq<u8>, Seq<u8>)>>,
    wanted: Seq<char>,
    i: int,
) -> Option<Seq<char>>
    decreases attributes.len() - i,
{
    if i < 0 || i >= attributes.len() {
        None
    } else {
        match attributes[i] {
            Some((key, value)) => if text::alike(local_of(key), wanted) {
                Some(utf8::lossy_text(value))
            } else {
                attr_from(attributes, wanted, i + 1)
            },
            None => attr_from(attributes, wanted, i + 1),
        }
    }
}

pub open spec fn attr_of(tag: xml::Tag, wanted: Seq<char>) -> Option<Seq<char>> {
    attr_from(tag.attributes, wanted, 0)
}

fn attr(event: &XmlTag, wanted: &str) -> (r: Option<Vec<char>>)
    ensures
        match r {
            Some(v) => attr_of(event@, wanted@) == Some(v@),
            None => attr_of(event@, wanted@) is None,
        },
{
    let ghost all = event@.attributes;
    let mut i: usize = 0;
    while i < event.attributes.len()
        invariant
            i <= event.attributes@.len(),
            all == event@.attributes,
            attr_from(all, wanted@, 0) == attr_from(all, wanted@, i as int),
        decreases event.attributes@.len() - i,
    {
        match &event.attributes[i] {
            Some((key, value)) => {
                assert(all[i as int] == Some((key@, value@)));
                let name = local_name(key.as_slice());
                if text::is_alike_text(name.as_slice(), wanted) {
                    let found = utf8::decode_lossy(value.as_slice());
                    return Some(text::chars_of(found.as_str()));
                }
            },
            None => {
                assert(all[i as int] is None);
            },
        }
        i += 1;
    }
    None
}

pub open spec fn bool_of(s: Seq<char>) -> Option<bool> {
    let v = text::lower_all(text::trim(s));
    if v == "true"@ || v == "yes"@ || v == "1"@ {
        Some(true)
    } else if v == "false"@ || v == "no"@ || v == "0"@ {
        Some(false)
    } else {
        None
    }
}

fn parse_bool(value: &[char]) -> (r: Option<bool>)
    ensures
        r == bool_of(value@),
{
    let v = text::lowered(text::trimmed(value));
    let v = v.as_slice();
    if text::is_text(v, "true") || text::is_text(v, "yes") || text::is_text(v, "1") {
        Some(true)
    } else if text::is_text(v, "false") || text::is_text(v, "no") || text::is_text(v, "0") {
        Some(false)
    } else {
        None
    }
}

/// A text without a prefix, however often it stands there.
pub open spec fn without_prefixes(s: Seq<char>, p: Seq<char>) -> Seq<char>
    decreases s.len(),
{
    if p.len() > 0 && text::starts(s, p) {
        without_prefixes(s.subrange(p.len() as int, s.len() as int), p)
    } else {
        s
    }
}

/// A number in international form.
pub open spec fn international(s: Seq<char>) -> bool {
    s.len() > 0 && s[0] == '+' && text::all_digits(s.subrange(1, s.len() as int))
}

/// Can calls be forwarded there? A telephone number has to be international.
pub open spec fn target_ok(value: Seq<char>) -> bool {
    let v = text::trim(value);
    ||| text::starts(v, "tel:"@) && international(
        text::before(without_prefixes(v, "tel:"@), ';'),
    )
    ||| text::starts(v, "sip:"@)
    ||| text::starts(v, "sips:"@)
}

fn is_international(s: &[char]) -> (r: bool)
    ensures
        r == international(s@),
{
    if s.len() == 0 || s[0] != '+' {
        return false;
    }
    let rest = slice_subrange(s, 1, s.len());
    let mut i: usize = 0;
    while i < rest.len()
        invariant
            i <= rest@.len(),
            rest@ == s@.subrange(1, s@.len() as int),
            forall|j: int| 0 <= j < i ==> text::digit(rest@[j]),
        decreases rest@.len() - i,
    {
        if !text::is_digit(rest[i]) {
            return false;
        }
        i += 1;
    }
    true
}

fn strip_prefixes<'a>(s: &'a [char], p: &str) -> (r: &'a [char])
    ensures
        r@ == without_prefixes(s@, p@),
{
    let p_chars = text::chars_of(p);
    let n: usize = p_chars.len();
    let mut rest = s;
    while n > 0 && text::has_prefix(rest, p)
        invariant
            n == p@.len(),
            without_prefixes(s@, p@) == without_prefixes(rest@, p@),
        decreases rest@.len(),
    {
        rest = slice_subrange(rest, n, rest.len());
    }
    rest
}

fn validate_target_uri(value: &str) -> (r: Result<(), UtError>)
    ensures
        match r {
            Ok(_) => target_ok(value@),
            Err(e) => !target_ok(value@) && e.code_spec() == "ut_forward_target_invalid"@,
        },
{
    let chars = text::chars_of(value);
    let v = text::trimmed(chars.as_slice());
    if text::has_prefix(v, "tel:") && is_international(
        text::part_before(strip_prefixes(v, "tel:"), ';'),
    ) {
        return Ok(());
    }
    if text::has_prefix(v, "sip:") || text::has_prefix(v, "sips:") {
        return Ok(());
    }
    Err(UtError::new("ut_forward_target_invalid"))
}

// --------------------------------------------------------------------- reading

/// A rule at its opening tag.
pub open spec fn pending_of(tag: xml::Tag) -> Pending {
    let value = match attr_of(tag, "active"@) {
        Some(v) => Some(v),
        None => attr_of(tag, "enabled"@),
    };
    Pending {
        condition: ForwardingCondition::Unconditional,
        enabled: match value {
            Some(v) => match bool_of(v) {
                Some(b) => b,
                None => true,
            },
            None => true,
        },
        target: None,
        timer: None,
    }
}

/// A rule after a tag inside it.
pub open spec fn tag_seen(p: Pending, name: Seq<char>, tag: xml::Tag) -> Pending {
    let p = Pending {
        condition: if name == "busy"@ {
            ForwardingCondition::Busy
        } else if name == "no-answer"@ || name == "no-reply"@ {
            ForwardingCondition::NoReply
        } else if name == "not-reachable"@ {
            ForwardingCondition::NotReachable
        } else {
            p.condition
        },
        ..p
    };
    if name == "active"@ || name == "enabled"@ {
        match attr_of(tag, "value"@) {
            Some(v) => match bool_of(v) {
                Some(b) => Pending { enabled: b, ..p },
                None => p,
            },
            None => p,
        }
    } else {
        p
    }
}

/// A rule after the text of an element inside it.
pub open spec fn text_seen(p: Pending, name: Seq<char>, value: Seq<char>) -> Result<
    Pending,
    Seq<char>,
> {
    if value.len() == 0 {
        Ok(p)
    } else if name == "target"@ || name == "forward-to"@ {
        Ok(Pending { target: Some(value), ..p })
    } else if name == "active"@ || name == "enabled"@ {
        match bool_of(value) {
            Some(b) => Ok(Pending { enabled: b, ..p }),
            None => Err("ut_boolean_invalid"@),
        }
    } else if name == "no-answer-timer"@ || name == "no-reply-timer"@ {
        match text::unsigned(value, u16::MAX as nat) {
            Some(n) => Ok(Pending { timer: Some(n as u16), ..p }),
            None => Err("ut_timer_invalid"@),
        }
    } else {
        Ok(p)
    }
}

pub open spec fn rule_of(p: Pending) -> Result<Rule, Seq<char>> {
    if p.target is Some && !target_ok(p.target->0) {
        Err("ut_forward_target_invalid"@)
    } else {
        Ok(
            Rule {
                condition: p.condition,
                enabled: p.enabled,
                target: p.target,
                timer: p.timer,
                etag: None,
            },
        )
    }
}

impl PendingRule {
    fn from_attrs(event: &XmlTag) -> (r: Self)
        ensures
            r.value() == pending_of(event@),
    {
        let value = match attr(event, "active") {
            Some(v) => Some(v),
            None => attr(event, "enabled"),
        };
        let enabled: bool = match value {
            Some(v) => match parse_bool(v.as_slice()) {
                Some(b) => b,
                None => true,
            },
            None => true,
        };
        PendingRule {
            condition: ForwardingCondition::Unconditional,
            enabled,
            target_uri: None,
            timer: None,
        }
    }

    fn observe_tag(&mut self, name: &[char], event: &XmlTag)
        ensures
            final(self).value() == tag_seen(old(self).value(), name@, event@),
    {
        if text::is_text(name, "busy") {
            self.condition = ForwardingCondition::Busy;
        } else if text::is_text(name, "no-answer") || text::is_text(name, "no-reply") {
            self.condition = ForwardingCondition::NoReply;
        } else if text::is_text(name, "not-reachable") {
            self.condition = ForwardingCondition::NotReachable;
        }
        if text::is_text(name, "active") || text::is_text(name, "enabled") {
            if let Some(value) = attr(event, "value") {
                if let Some(enabled) = parse_bool(value.as_slice()) {
                    self.enabled = enabled;
                }
            }
        }
    }

    fn observe_text(&mut self, name: &[char], value: &[char]) -> (r: Result<(), UtError>)
        ensures
            match r {
                Ok(_) => text_seen(old(self).value(), name@, value@) == Ok::<_, Seq<char>>(
                    final(self).value(),
                ),
                Err(e) => text_seen(old(self).value(), name@, value@) == Err::<Pending, _>(
                    e.code_spec(),
                ),
            },
    {
        if value.len() == 0 {
            return Ok(());
        }
        if text::is_text(name, "target") || text::is_text(name, "forward-to") {
            self.target_uri = Some(text::string_of(value));
        } else if text::is_text(name, "active") || text::is_text(name, "enabled") {
            match parse_bool(value) {
                Some(enabled) => {
                    self.enabled = enabled;
                },
                None => {
                    return Err(UtError::new("ut_boolean_invalid"));
                },
            }
        } else if text::is_text(name, "no-answer-timer") || text::is_text(name, "no-reply-timer") {
            match text::parse_u16(value) {
                Some(timer) => {
                    self.timer = Some(timer);
                },
                None => {
                    return Err(UtError::new("ut_timer_invalid"));
                },
            }
        }
        Ok(())
    }

    fn finish(self) -> (r: Result<CallForwardingRule, UtError>)
        ensures
            match r {
                Ok(rule) => rule_of(self.value()) == Ok::<_, Seq<char>>(rule@),
                Err(e) => rule_of(self.value()) == Err::<Rule, _>(e.code_spec()),
            },
    {
        if let Some(target) = &self.target_uri {
            match validate_target_uri(target.as_str()) {
                Ok(_) => {},
                Err(e) => {
                    return Err(e);
                },
            }
        }
        Ok(
            CallForwardingRule {
                condition: self.condition,
                enabled: self.enabled,
                target_uri: self.target_uri,
                no_reply_timer_seconds: self.timer,
                etag: None,
            },
        )
    }
}


/// A document after an empty element.
pub open spec fn empty_seen(d: Document, name: Seq<char>, tag: xml::Tag) -> Result<
    Document,
    Seq<char>,
> {
    let value = match attr_of(tag, "value"@) {
        Some(v) => Some(v),
        None => attr_of(tag, "active"@),
    };
    if (name == "active"@ || name == "enabled"@) && value is Some {
        match bool_of(value->0) {
            Some(b) => if d.kind is CommunicationWaiting {
                Ok(Document { call_waiting: Some(b), ..d })
            } else {
                Ok(d)
            },
            None => Err("ut_boolean_invalid"@),
        }
    } else {
        Ok(d)
    }
}

fn apply_empty_document_tag(document: &mut UtDocument, name: &[char], event: &XmlTag) -> (r: Result<
    (),
    UtError,
>)
    ensures
        match r {
            Ok(_) => empty_seen(old(document)@, name@, event@) == Ok::<_, Seq<char>>(
                final(document)@,
            ),
            Err(e) => empty_seen(old(document)@, name@, event@) == Err::<Document, _>(
                e.code_spec(),
            ),
        },
{
    if text::is_text(name, "active") || text::is_text(name, "enabled") {
        let value = match attr(event, "value") {
            Some(v) => Some(v),
            None => attr(event, "active"),
        };
        if let Some(value) = value {
            match parse_bool(value.as_slice()) {
                Some(value) => {
                    if document.kind == UtDocumentKind::CommunicationWaiting {
                        document.call_waiting = Some(value);
                    }
                },
                None => {
                    return Err(UtError::new("ut_boolean_invalid"));
                },
            }
        }
    }
    Ok(())
}

pub open spec fn presentation_of(active: bool) -> IdentityPresentation {
    if active {
        IdentityPresentation::Allowed
    } else {
        IdentityPresentation::Restricted
    }
}

/// A document after the text of an element outside any rule.
pub open spec fn content_seen(d: Document, name: Seq<char>, value: Seq<char>) -> Result<
    Document,
    Seq<char>,
> {
    let waiting = (name == "active"@ || name == "enabled"@) && d.kind is CommunicationWaiting;
    let identity = name == "active"@ && d.kind.identity_spec();
    if !waiting && !identity {
        Ok(d)
    } else {
        match bool_of(value) {
            Some(b) => if waiting {
                Ok(Document { call_waiting: Some(b), ..d })
            } else {
                Ok(Document { presentation: Some(presentation_of(b)), ..d })
            },
            None => Err("ut_boolean_invalid"@),
        }
    }
}

fn apply_document_text(document: &mut UtDocument, name: &[char], value: &[char]) -> (r: Result<
    (),
    UtError,
>)
    ensures
        match r {
            Ok(_) => content_seen(old(document)@, name@, value@) == Ok::<_, Seq<char>>(
                final(document)@,
            ),
            Err(e) => content_seen(old(document)@, name@, value@) == Err::<Document, _>(
                e.code_spec(),
            ),
        },
{
    if (text::is_text(name, "active") || text::is_text(name, "enabled")) && document.kind
        == UtDocumentKind::CommunicationWaiting {
        match parse_bool(value) {
            Some(active) => {
                document.call_waiting = Some(active);
            },
            None => {
                return Err(UtError::new("ut_boolean_invalid"));
            },
        }
    }
    if text::is_text(name, "active") && document.kind.is_identity() {
        match parse_bool(value) {
            Some(active) => {
                document.identity_presentation = Some(
                    if active {
                        IdentityPresentation::Allowed
                    } else {
                        IdentityPresentation::Restricted
                    },
                );
            },
            None => {
                return Err(UtError::new("ut_boolean_invalid"));
            },
        }
    }
    Ok(())
}

/// A document that is being read: what is known of it, how many elements are
/// open, the rule that is open, and the text since the last closing tag.
pub struct Scan {
    pub document: Document,
    pub depth: nat,
    pub rule: Option<Pending>,
    pub words: Seq<char>,
}

pub open spec fn after_start(s: Scan, tag: xml::Tag) -> Scan {
    let name = local_of(tag.name);
    Scan {
        depth: s.depth + 1,
        rule: if name == "rule"@ {
            Some(pending_of(tag))
        } else {
            match s.rule {
                Some(p) => Some(tag_seen(p, name, tag)),
                None => None,
            }
        },
        ..s
    }
}

pub open spec fn with_rule(d: Document, rule: Rule) -> Document {
    Document { forwarding: d.forwarding.push(rule), ..d }
}

pub open spec fn after_empty(s: Scan, tag: xml::Tag) -> Result<Scan, Seq<char>> {
    let name = local_of(tag.name);
    if name == "rule"@ {
        match rule_of(pending_of(tag)) {
            Ok(rule) => match empty_seen(with_rule(s.document, rule), name, tag) {
                Ok(d) => Ok(Scan { document: d, ..s }),
                Err(e) => Err(e),
            },
            Err(e) => Err(e),
        }
    } else {
        let rule = match s.rule {
            Some(p) => Some(tag_seen(p, name, tag)),
            None => None,
        };
        match empty_seen(s.document, name, tag) {
            Ok(d) => Ok(Scan { document: d, rule, ..s }),
            Err(e) => Err(e),
        }
    }
}

pub open spec fn after_end(s: Scan, name: Seq<char>) -> Result<Scan, Seq<char>> {
    let depth = if s.depth > 0 {
        (s.depth - 1) as nat
    } else {
        0
    };
    match s.rule {
        Some(p) => match text_seen(p, name, s.words) {
            Ok(p) => if name == "rule"@ {
                match rule_of(p) {
                    Ok(rule) => Ok(
                        Scan {
                            document: with_rule(s.document, rule),
                            depth,
                            rule: None,
                            words: seq![],
                        },
                    ),
                    Err(e) => Err(e),
                }
            } else {
                Ok(Scan { document: s.document, depth, rule: Some(p), words: seq![] })
            },
            Err(e) => Err(e),
        },
        None => match content_seen(s.document, name, s.words) {
            Ok(d) => Ok(Scan { document: d, depth, rule: None, words: seq![] }),
            Err(e) => Err(e),
        },
    }
}

pub open spec fn after_event(s: Scan, kind: xml::Kind) -> Result<Scan, Seq<char>> {
    match kind {
        xml::Kind::Start(tag) => Ok(after_start(s, tag)),
        xml::Kind::Empty(tag) => after_empty(s, tag),
        xml::Kind::Text(Some(t)) => Ok(Scan { words: s.words + text::trim(t), ..s }),
        xml::Kind::Text(None) => Err("ut_xml_text_invalid"@),
        xml::Kind::End(name) => after_end(s, local_of(name)),
        xml::Kind::Invalid => Err("ut_xml_invalid"@),
        _ => Ok(s),
    }
}

/// The document at the end of the events: every element and rule is closed.
pub open spec fn scanned(s: Scan) -> Result<Document, Seq<char>> {
    if s.depth > 0 || s.rule is Some {
        Err("ut_xml_unbalanced"@)
    } else {
        Ok(s.document)
    }
}

/// The document that the events from `i` on make of what was read before.
pub open spec fn scan_from(s: Scan, events: Seq<xml::EventValue>, i: int) -> Result<
    Document,
    Seq<char>,
>
    decreases events.len() - i,
{
    if i < 0 || i >= events.len() || events[i].kind is Eof {
        scanned(s)
    } else {
        match after_event(s, events[i].kind) {
            Ok(next) => scan_from(next, events, i + 1),
            Err(e) => Err(e),
        }
    }
}

pub open spec fn empty_document(kind: UtDocumentKind) -> Document {
    Document {
        kind,
        call_waiting: None,
        forwarding: seq![],
        presentation: None,
        etag: None,
        original: None,
        dirty: true,
    }
}

/// The document of a text with these events.
pub open spec fn document_of(
    kind: UtDocumentKind,
    original: Seq<char>,
    events: Seq<xml::EventValue>,
) -> Result<Document, Seq<char>> {
    let document = Document { original: Some(original), dirty: false, ..empty_document(kind) };
    scan_from(Scan { document, depth: 0, rule: None, words: seq![] }, events, 0)
}

/// The document of some bytes.
pub open spec fn parsed_document(kind: UtDocumentKind, bytes: Seq<u8>) -> Result<
    Document,
    Seq<char>,
> {
    if valid_utf8(bytes) {
        let original = decode_utf8(bytes);
        document_of(kind, original, xml::xml_events(original, true))
    } else {
        Err("ut_xml_not_utf8"@)
    }
}

struct Scanner {
    document: UtDocument,
    depth: usize,
    rule: Option<PendingRule>,
    words: Vec<char>,
}

impl Scanner {
    spec fn value(&self) -> Scan {
        Scan {
            document: self.document@,
            depth: self.depth as nat,
            rule: match self.rule {
                Some(p) => Some(p.value()),
                None => None,
            },
            words: self.words@,
        }
    }

    fn start(&mut self, tag: &XmlTag)
        requires
            old(self).depth < usize::MAX,
        ensures
            final(self).value() == after_start(old(self).value(), tag@),
    {
        let name = local_name(tag.name.as_slice());
        let name = name.as_slice();
        if text::is_text(name, "rule") {
            self.rule = Some(PendingRule::from_attrs(tag));
        } else {
            self.observe_tag(name, tag);
        }
        self.depth = self.depth + 1;
    }

    fn observe_tag(&mut self, name: &[char], tag: &XmlTag)
        ensures
            final(self).value() == (Scan {
                rule: match old(self).value().rule {
                    Some(p) => Some(tag_seen(p, name@, tag@)),
                    None => None,
                },
                ..old(self).value()
            }),
            final(self).depth == old(self).depth,
    {
        match self.rule.take() {
            Some(mut current) => {
                current.observe_tag(name, tag);
                self.rule = Some(current);
            },
            None => {},
        }
    }

    fn push_rule(&mut self, rule: CallForwardingRule)
        ensures
            final(self).value() == (Scan {
                document: with_rule(old(self).value().document, rule@),
                ..old(self).value()
            }),
            final(self).depth == old(self).depth,
            final(self).rule == old(self).rule,
    {
        let ghost before = rules_of(self.document.forwarding@);
        self.document.forwarding.push(rule);
        assert(rules_of(self.document.forwarding@) =~= before.push(rule@));
    }

    fn empty(&mut self, tag: &XmlTag) -> (r: Result<(), UtError>)
        ensures
            match r {
                Ok(_) => after_empty(old(self).value(), tag@) == Ok::<_, Seq<char>>(
                    final(self).value(),
                ),
                Err(e) => after_empty(old(self).value(), tag@) == Err::<Scan, _>(e.code_spec()),
            },
    {
        let name = local_name(tag.name.as_slice());
        let name = name.as_slice();
        if text::is_text(name, "rule") {
            match PendingRule::from_attrs(tag).finish() {
                Ok(rule) => {
                    self.push_rule(rule);
                },
                Err(e) => {
                    return Err(e);
                },
            }
        } else {
            self.observe_tag(name, tag);
        }
        apply_empty_document_tag(&mut self.document, name, tag)
    }

    fn end(&mut self, tag_name: &[u8]) -> (r: Result<(), UtError>)
        ensures
            match r {
                Ok(_) => after_end(old(self).value(), local_of(tag_name@)) == Ok::<_, Seq<char>>(
                    final(self).value(),
                ),
                Err(e) => after_end(old(self).value(), local_of(tag_name@)) == Err::<Scan, _>(
                    e.code_spec(),
                ),
            },
    {
        let name = local_name(tag_name);
        let name = name.as_slice();
        let mut value: Vec<char> = Vec::new();
        std::mem::swap(&mut value, &mut self.words);
        match self.rule.take() {
            Some(mut current) => {
                match current.observe_text(name, value.as_slice()) {
                    Ok(_) => {},
                    Err(e) => {
                        return Err(e);
                    },
                }
                if text::is_text(name, "rule") {
                    match current.finish() {
                        Ok(rule) => {
                            self.push_rule(rule);
                        },
                        Err(e) => {
                            return Err(e);
                        },
                    }
                } else {
                    self.rule = Some(current);
                }
            },
            None => {
                match apply_document_text(&mut self.document, name, value.as_slice()) {
                    Ok(_) => {},
                    Err(e) => {
                        return Err(e);
                    },
                }
            },
        }
        if self.depth > 0 {
            self.depth = self.depth - 1;
        }
        Ok(())
    }

    fn event(&mut self, kind: &XmlKind) -> (r: Result<(), UtError>)
        requires
            old(self).depth < usize::MAX,
        ensures
            match r {
                Ok(_) => after_event(old(self).value(), kind@) == Ok::<_, Seq<char>>(
                    final(self).value(),
                ),
                Err(e) => after_event(old(self).value(), kind@) == Err::<Scan, _>(e.code_spec()),
            },
    {
        match kind {
            XmlKind::Start(tag) => {
                self.start(tag);
                Ok(())
            },
            XmlKind::Empty(tag) => self.empty(tag),
            XmlKind::Text(Some(t)) => {
                let t_chars = text::chars_of(t.as_str());
                text::push_slice(&mut self.words, text::trimmed(t_chars.as_slice()));
                Ok(())
            },
            XmlKind::Text(None) => Err(UtError::new("ut_xml_text_invalid")),
            XmlKind::End(name) => self.end(name.as_slice()),
            XmlKind::Invalid => Err(UtError::new("ut_xml_invalid")),
            _ => Ok(()),
        }
    }
}

proof fn lemma_depth(s: Scan, kind: xml::Kind)
    ensures
        after_event(s, kind) matches Ok(next) ==> next.depth <= s.depth + 1,
{
}

impl UtDocument {
    pub fn empty(kind: UtDocumentKind) -> (r: Self)
        ensures
            r@ == empty_document(kind),
    {
        let r = UtDocument {
            kind,
            call_waiting: None,
            forwarding: Vec::new(),
            identity_presentation: None,
            etag: None,
            original_xml: None,
            dirty: true,
        };
        assert(rules_of(r.forwarding@) =~= seq![]);
        r
    }

    /// The document of a text with these events.
    pub fn from_events(kind: UtDocumentKind, original: String, events: &[XmlEvent]) -> (r: Result<
        Self,
        UtError,
    >)
        ensures
            match r {
                Ok(d) => document_of(kind, original@, xml::events_of(events@)) == Ok::<
                    _,
                    Seq<char>,
                >(d@),
                Err(e) => document_of(kind, original@, xml::events_of(events@)) == Err::<
                    Document,
                    _,
                >(e.code_spec()),
            },
    {
        let ghost all = xml::events_of(events@);
        let ghost want = document_of(kind, original@, all);
        let mut document = UtDocument::empty(kind);
        document.dirty = false;
        document.original_xml = Some(original);
        let mut scanner = Scanner { document, depth: 0, rule: None, words: Vec::new() };
        let mut i: usize = 0;
        while i < events.len()
            invariant_except_break
                i <= events@.len(),
                all == xml::events_of(events@),
                want == document_of(kind, original@, all),
                scanner.depth <= i,
                want == scan_from(scanner.value(), all, i as int),
            ensures
                want == scanned(scanner.value()),
            decreases events@.len() - i,
        {
            assert(all[i as int] == events@[i as int]@);
            if let XmlKind::Eof = &events[i].kind {
                break;
            }
            proof {
                lemma_depth(scanner.value(), all[i as int].kind);
            }
            match scanner.event(&events[i].kind) {
                Ok(_) => {},
                Err(e) => {
                    return Err(e);
                },
            }
            i += 1;
        }
        if scanner.depth > 0 || scanner.rule.is_some() {
            return Err(UtError::new("ut_xml_unbalanced"));
        }
        Ok(scanner.document)
    }

    pub fn parse(kind: UtDocumentKind, xml: &[u8]) -> (r: Result<Self, UtError>)
        ensures
            match r {
                Ok(d) => parsed_document(kind, xml@) == Ok::<_, Seq<char>>(d@),
                Err(e) => parsed_document(kind, xml@) == Err::<Document, _>(e.code_spec()),
            },
    {
        match utf8::decode_strict(xml) {
            Some(original) => {
                let events = read_events(original.as_str(), true);
                UtDocument::from_events(kind, original, events.as_slice())
            },
            None => Err(UtError::new("ut_xml_not_utf8")),
        }
    }

    pub fn set_call_waiting(&mut self, enabled: bool)
        ensures
            final(self)@ == (Document { call_waiting: Some(enabled), dirty: true, ..old(self)@ }),
    {
        self.call_waiting = Some(enabled);
        self.dirty = true;
    }

    pub fn set_identity_presentation(&mut self, value: IdentityPresentation)
        ensures
            final(self)@ == (Document { presentation: Some(value), dirty: true, ..old(self)@ }),
    {
        self.identity_presentation = Some(value);
        self.dirty = true;
    }
}


// --------------------------------------------------------------------- writing

pub open spec fn flag_text(b: bool) -> Seq<char> {
    if b {
        "true"@
    } else {
        "false"@
    }
}

fn flag(b: bool) -> (r: &'static str)
    ensures
        r@ == flag_text(b),
{
    if b {
        "true"
    } else {
        "false"
    }
}

/// The text that an update puts into the `active` element, if the document has
/// a single one.
pub open spec fn replacement_of(d: Document) -> Option<Seq<char>> {
    if d.kind is CommunicationWaiting {
        match d.call_waiting {
            Some(b) => Some(flag_text(b)),
            None => None,
        }
    } else if d.kind.identity_spec() {
        match d.presentation {
            Some(p) => Some(flag_text(p is Allowed)),
            None => None,
        }
    } else {
        None
    }
}

/// A text that is being rewritten: the open elements, what has been written,
/// and whether anything was replaced.
pub struct Rewriting {
    pub stack: Seq<Seq<char>>,
    pub out: Seq<u8>,
    pub replaced: bool,
}

pub open spec fn in_active(stack: Seq<Seq<char>>) -> bool {
    stack.len() > 0 && stack.last() == "active"@
}

pub open spec fn rewriting_after(w: Rewriting, event: xml::EventValue, by: Seq<char>) -> Rewriting {
    match event.kind {
        xml::Kind::Start(tag) => Rewriting {
            stack: w.stack.push(local_of(tag.name)),
            out: w.out + event.written,
            ..w
        },
        xml::Kind::Text(_) => if in_active(w.stack) {
            Rewriting { out: w.out + encode_utf8(xml::escaped(by)), replaced: true, ..w }
        } else {
            Rewriting { out: w.out + event.written, ..w }
        },
        xml::Kind::End(_) => Rewriting {
            stack: if w.stack.len() > 0 {
                w.stack.drop_last()
            } else {
                w.stack
            },
            out: w.out + event.written,
            ..w
        },
        _ => Rewriting { out: w.out + event.written, ..w },
    }
}

/// What the events from `i` on are rewritten to; nothing if they end in an error.
pub open spec fn rewritten_from(
    w: Rewriting,
    events: Seq<xml::EventValue>,
    by: Seq<char>,
    i: int,
) -> Option<Rewriting>
    decreases events.len() - i,
{
    if i < 0 || i >= events.len() || events[i].kind is Eof {
        Some(w)
    } else if events[i].kind is Invalid {
        None
    } else {
        rewritten_from(rewriting_after(w, events[i], by), events, by, i + 1)
    }
}

/// A text with these events in which the text of `active` is another one.
pub open spec fn rewritten(by: Seq<char>, events: Seq<xml::EventValue>) -> Option<Seq<char>> {
    match rewritten_from(Rewriting { stack: seq![], out: seq![], replaced: false }, events, by, 0) {
        Some(w) => if w.replaced && valid_utf8(w.out) {
            Some(decode_utf8(w.out))
        } else {
            None
        },
        None => None,
    }
}

pub open spec fn stack_of(v: Seq<Vec<char>>) -> Seq<Seq<char>> {
    Seq::new(v.len(), |i: int| v[i]@)
}

fn rewrite_events(events: &[XmlEvent], by: &str) -> (r: Option<String>)
    ensures
        text::opt_text(r) == rewritten(by@, xml::events_of(events@)),
{
    let ghost all = xml::events_of(events@);
    let ghost first = Rewriting { stack: seq![], out: seq![], replaced: false };
    let ghost want = rewritten_from(first, all, by@, 0);
    let mut stack: Vec<Vec<char>> = Vec::new();
    let mut out: Vec<u8> = Vec::new();
    let mut replaced: bool = false;
    let mut i: usize = 0;
    assert(stack_of(stack@) =~= seq![]);
    while i < events.len()
        invariant_except_break
            i <= events@.len(),
            all == xml::events_of(events@),
            want == rewritten_from(first, all, by@, 0),
            first == (Rewriting { stack: seq![], out: seq![], replaced: false }),
            want == rewritten_from(
                Rewriting { stack: stack_of(stack@), out: out@, replaced },
                all,
                by@,
                i as int,
            ),
        ensures
            want == Some(Rewriting { stack: stack_of(stack@), out: out@, replaced }),
        decreases events@.len() - i,
    {
        let event = &events[i];
        assert(all[i as int] == event@);
        let ghost before = Rewriting { stack: stack_of(stack@), out: out@, replaced };
        match &event.kind {
            XmlKind::Eof => {
                break;
            },
            XmlKind::Invalid => {
                return None;
            },
            XmlKind::Start(tag) => {
                let name = local_name(tag.name.as_slice());
                let ghost known = stack_of(stack@);
                stack.push(name);
                assert(stack_of(stack@) =~= known.push(name@));
                net::push_bytes(&mut out, event.written.as_slice());
            },
            XmlKind::Text(_) => {
                let n: usize = stack.len();
                if n > 0 && text::is_text(stack[n - 1].as_slice(), "active") {
                    let words = write_text(by);
                    net::push_bytes(&mut out, words.as_slice());
                    replaced = true;
                } else {
                    net::push_bytes(&mut out, event.written.as_slice());
                }
            },
            XmlKind::End(_) => {
                net::push_bytes(&mut out, event.written.as_slice());
                let ghost known = stack_of(stack@);
                let n: usize = stack.len();
                if n > 0 {
                    let _ = stack.pop();
                    assert(stack_of(stack@) =~= known.drop_last());
                }
            },
            _ => {
                net::push_bytes(&mut out, event.written.as_slice());
            },
        }
        assert((Rewriting { stack: stack_of(stack@), out: out@, replaced }) == rewriting_after(
            before,
            all[i as int],
            by@,
        ));
        i += 1;
    }
    if !replaced {
        return None;
    }
    utf8::decode_strict(out.as_slice())
}

/// The text with the four special characters of XML escaped, up to `n`.
pub open spec fn escaped_upto(s: Seq<char>, n: int) -> Seq<char>
    decreases n,
{
    if n <= 0 {
        seq![]
    } else {
        let c = s[n - 1];
        let more = if c == '&' {
            "&amp;"@
        } else if c == '<' {
            "&lt;"@
        } else if c == '>' {
            "&gt;"@
        } else if c == '"' {
            "&quot;"@
        } else {
            seq![c]
        };
        escaped_upto(s, n - 1) + more
    }
}

fn push_escaped(out: &mut Vec<char>, value: &str)
    ensures
        final(out)@ == old(out)@ + escaped_upto(value@, value@.len() as int),
{
    let chars = text::chars_of(value);
    let ghost start = out@;
    let mut i: usize = 0;
    assert(out@ =~= start + escaped_upto(value@, 0));
    while i < chars.len()
        invariant
            i <= chars@.len(),
            chars@ == value@,
            out@ == start + escaped_upto(value@, i as int),
        decreases chars@.len() - i,
    {
        let c: char = chars[i];
        let ghost before = out@;
        if c == '&' {
            text::push_str(out, "&amp;");
        } else if c == '<' {
            text::push_str(out, "&lt;");
        } else if c == '>' {
            text::push_str(out, "&gt;");
        } else if c == '"' {
            text::push_str(out, "&quot;");
        } else {
            out.push(c);
            assert(out@ =~= before + seq![c]);
        }
        i += 1;
        assert(out@ =~= start + escaped_upto(value@, i as int));
    }
}

pub open spec fn element(tag: Seq<char>, content: Seq<char>) -> Seq<char> {
    "<"@ + tag + ">"@ + content + "</"@ + tag + ">"@
}

fn push_element(out: &mut Vec<char>, tag: &str, content: &[char])
    ensures
        final(out)@ == old(out)@ + element(tag@, content@),
{
    let ghost start = out@;
    text::push_str(out, "<");
    text::push_str(out, tag);
    text::push_str(out, ">");
    text::push_slice(out, content);
    text::push_str(out, "</");
    text::push_str(out, tag);
    text::push_str(out, ">");
    assert(out@ =~= start + element(tag@, content@));
}

pub open spec fn condition_id(c: ForwardingCondition) -> Seq<char> {
    match c {
        ForwardingCondition::Unconditional => "unconditional"@,
        ForwardingCondition::Busy => "busy"@,
        ForwardingCondition::NoReply => "no-reply"@,
        ForwardingCondition::NotReachable => "not-reachable"@,
    }
}

pub open spec fn target_xml(target: Option<Seq<char>>) -> Seq<char> {
    match target {
        Some(t) => element("target"@, escaped_upto(t, t.len() as int)),
        None => seq![],
    }
}

pub open spec fn timer_xml(timer: Option<u16>) -> Seq<char> {
    match timer {
        Some(n) => element("no-reply-timer"@, text::decimal(n as nat)),
        None => seq![],
    }
}

pub open spec fn rule_xml(rule: Rule) -> Seq<char> {
    "<rule id=\""@ + condition_id(rule.condition) + "\">"@ + element(
        "enabled"@,
        flag_text(rule.enabled),
    ) + target_xml(rule.target) + timer_xml(rule.timer) + "</rule>"@
}

pub open spec fn rules_xml(rules: Seq<Rule>, n: int) -> Seq<char>
    decreases n,
{
    if n <= 0 {
        seq![]
    } else {
        rules_xml(rules, n - 1) + rule_xml(rules[n - 1])
    }
}

pub open spec fn flag_xml(flag: Option<bool>) -> Seq<char> {
    match flag {
        Some(b) => element("active"@, flag_text(b)),
        None => seq![],
    }
}

/// A document written from what is known of it alone.
pub open spec fn canonical_xml(d: Document) -> Seq<char> {
    let shown = match d.presentation {
        Some(p) => Some(p is Allowed),
        None => None,
    };
    "<"@ + d.kind.name_spec() + " xmlns=\"urn:3gpp:ns:xml:ue:communication\">"@ + flag_xml(
        d.call_waiting,
    ) + flag_xml(shown) + rules_xml(d.forwarding, d.forwarding.len() as int) + "</"@
        + d.kind.name_spec() + ">"@
}

fn push_flag(out: &mut Vec<char>, value: Option<bool>)
    ensures
        final(out)@ == old(out)@ + flag_xml(value),
{
    match value {
        Some(b) => {
            let words = text::chars_of(flag(b));
            push_element(out, "active", words.as_slice());
        },
        None => {
            assert(out@ =~= out@ + seq![]);
        },
    }
}

fn push_target(out: &mut Vec<char>, target: &Option<String>)
    ensures
        final(out)@ == old(out)@ + target_xml(text::opt_text(*target)),
{
    match target {
        Some(target) => {
            let mut words: Vec<char> = Vec::new();
            push_escaped(&mut words, target.as_str());
            assert(words@ =~= escaped_upto(target@, target@.len() as int));
            push_element(out, "target", words.as_slice());
        },
        None => {
            assert(out@ =~= out@ + seq![]);
        },
    }
}

fn push_timer(out: &mut Vec<char>, timer: Option<u16>)
    ensures
        final(out)@ == old(out)@ + timer_xml(timer),
{
    match timer {
        Some(timer) => {
            let mut words: Vec<char> = Vec::new();
            text::push_decimal(&mut words, timer as u64);
            assert(words@ =~= text::decimal(timer as nat));
            push_element(out, "no-reply-timer", words.as_slice());
        },
        None => {
            assert(out@ =~= out@ + seq![]);
        },
    }
}

fn push_rule(out: &mut Vec<char>, rule: &CallForwardingRule)
    ensures
        final(out)@ == old(out)@ + rule_xml(rule@),
{
    let id = match rule.condition {
        ForwardingCondition::Unconditional => "unconditional",
        ForwardingCondition::Busy => "busy",
        ForwardingCondition::NoReply => "no-reply",
        ForwardingCondition::NotReachable => "not-reachable",
    };
    let words = text::chars_of(flag(rule.enabled));
    let ghost parts = (
        out@,
        element("enabled"@, words@),
        target_xml(rule@.target),
        timer_xml(rule@.timer),
    );
    text::push_str(out, "<rule id=\"");
    text::push_str(out, id);
    text::push_str(out, "\">");
    push_element(out, "enabled", words.as_slice());
    push_target(out, &rule.target_uri);
    push_timer(out, rule.no_reply_timer_seconds);
    text::push_str(out, "</rule>");
    proof {
        lemma_rule_parts(out@, parts.0, id@, parts.1, parts.2, parts.3);
    }
}

proof fn lemma_rule_parts(
    all: Seq<char>,
    start: Seq<char>,
    id: Seq<char>,
    enabled: Seq<char>,
    target: Seq<char>,
    timer: Seq<char>,
)
    requires
        all == start + "<rule id=\""@ + id + "\">"@ + enabled + target + timer + "</rule>"@,
    ensures
        all == start + ("<rule id=\""@ + id + "\">"@ + enabled + target + timer + "</rule>"@),
{
    assert(all =~= start + ("<rule id=\""@ + id + "\">"@ + enabled + target + timer + "</rule>"@));
}

fn push_rules(out: &mut Vec<char>, rules: &Vec<CallForwardingRule>)
    ensures
        final(out)@ == old(out)@ + rules_xml(rules_of(rules@), rules@.len() as int),
{
    let ghost start = out@;
    let ghost all = rules_of(rules@);
    let mut i: usize = 0;
    assert(out@ =~= start + rules_xml(all, 0));
    while i < rules.len()
        invariant
            i <= rules@.len(),
            all == rules_of(rules@),
            out@ == start + rules_xml(all, i as int),
        decreases rules@.len() - i,
    {
        assert(all[i as int] == rules@[i as int]@);
        push_rule(out, &rules[i]);
        i += 1;
        assert(out@ =~= start + rules_xml(all, i as int));
    }
}

/// The text of a document: the original one unless something was set, the
/// original one with its `active` text replaced where that can be done, and else
/// one written anew. The events are those of the original text, untrimmed.
pub open spec fn xml_with(d: Document, events: Seq<xml::EventValue>) -> Seq<char> {
    match d.original {
        Some(original) => if !d.dirty {
            original
        } else {
            match replacement_of(d) {
                Some(by) => match rewritten(by, events) {
                    Some(updated) => updated,
                    None => canonical_xml(d),
                },
                None => canonical_xml(d),
            }
        },
        None => canonical_xml(d),
    }
}

pub open spec fn xml_of(d: Document) -> Seq<char> {
    xml_with(d, xml::xml_events(d.original->0, false))
}

impl UtDocument {
    fn replacement(&self) -> (r: Option<&'static str>)
        ensures
            match r {
                Some(by) => replacement_of(self@) == Some(by@),
                None => replacement_of(self@) is None,
            },
    {
        match self.kind {
            UtDocumentKind::CommunicationWaiting => match self.call_waiting {
                Some(b) => Some(flag(b)),
                None => None,
            },
            UtDocumentKind::CommunicationDiversion => None,
            _ => match self.identity_presentation {
                Some(p) => Some(flag(p == IdentityPresentation::Allowed)),
                None => None,
            },
        }
    }

    fn to_canonical_xml(&self) -> (r: String)
        ensures
            r@ == canonical_xml(self@),
    {
        let root = self.kind.document_name();
        let mut out: Vec<char> = Vec::new();
        text::push_str(&mut out, "<");
        text::push_str(&mut out, root);
        text::push_str(&mut out, " xmlns=\"urn:3gpp:ns:xml:ue:communication\">");
        push_flag(&mut out, self.call_waiting);
        let shown: Option<bool> = match self.identity_presentation {
            Some(p) => Some(p == IdentityPresentation::Allowed),
            None => None,
        };
        push_flag(&mut out, shown);
        push_rules(&mut out, &self.forwarding);
        text::push_str(&mut out, "</");
        text::push_str(&mut out, root);
        text::push_str(&mut out, ">");
        assert(out@ =~= canonical_xml(self@));
        text::string_of(out.as_slice())
    }

    /// The text of the document, given the untrimmed events of its original text.
    pub fn to_xml_with(&self, events: &[XmlEvent]) -> (r: String)
        ensures
            r@ == xml_with(self@, xml::events_of(events@)),
    {
        if let Some(original) = &self.original_xml {
            if !self.dirty {
                return text::string_of(text::chars_of(original.as_str()).as_slice());
            }
            if let Some(by) = self.replacement() {
                if let Some(updated) = rewrite_events(events, by) {
                    return updated;
                }
            }
        }
        self.to_canonical_xml()
    }

    pub fn to_xml(&self) -> (r: String)
        ensures
            r@ == xml_of(self@),
    {
        match &self.original_xml {
            Some(original) => {
                let events = read_events(original.as_str(), false);
                self.to_xml_with(events.as_slice())
            },
            None => self.to_canonical_xml(),
        }
    }
}


// ------------------------------------------------------------------ comparison

/// Do two documents say the same? Their ETags and texts do not count.
pub open spec fn same_meaning(a: Document, b: Document) -> bool {
    a.kind == b.kind && a.call_waiting == b.call_waiting && a.forwarding == b.forwarding
        && a.presentation == b.presentation
}

fn opt_same(a: &Option<String>, b: &Option<String>) -> (r: bool)
    ensures
        r == (text::opt_text(*a) == text::opt_text(*b)),
{
    match (a, b) {
        (Some(a), Some(b)) => text::str_same(a.as_str(), b.as_str()),
        (None, None) => true,
        _ => false,
    }
}

fn rule_same(a: &CallForwardingRule, b: &CallForwardingRule) -> (r: bool)
    ensures
        r == (a@ == b@),
{
    a.condition == b.condition && a.enabled == b.enabled && opt_same(&a.target_uri, &b.target_uri)
        && a.no_reply_timer_seconds == b.no_reply_timer_seconds && opt_same(&a.etag, &b.etag)
}

fn rules_same(a: &Vec<CallForwardingRule>, b: &Vec<CallForwardingRule>) -> (r: bool)
    ensures
        r == (rules_of(a@) == rules_of(b@)),
{
    assert(rules_of(a@).len() == a@.len() && rules_of(b@).len() == b@.len());
    if a.len() != b.len() {
        return false;
    }
    let mut i: usize = 0;
    while i < a.len()
        invariant
            i <= a@.len(),
            a@.len() == b@.len(),
            forall|j: int| 0 <= j < i ==> (#[trigger] a@[j])@ == b@[j]@,
        decreases a@.len() - i,
    {
        if !rule_same(&a[i], &b[i]) {
            assert(rules_of(a@)[i as int] != rules_of(b@)[i as int]);
            return false;
        }
        i += 1;
    }
    assert(rules_of(a@) =~= rules_of(b@));
    true
}

impl UtDocument {
    pub fn semantically_matches(&self, other: &Self) -> (r: bool)
        ensures
            r == same_meaning(self@, other@),
    {
        self.kind == other.kind && self.call_waiting == other.call_waiting && rules_same(
            &self.forwarding,
            &other.forwarding,
        ) && self.identity_presentation == other.identity_presentation
    }
}

// ------------------------------------------------------------------------ XCAP

/// What `Url::parse` makes of a text: its scheme, and whether it has a host.
pub uninterp spec fn url_parts(s: Seq<char>) -> Option<(Seq<char>, bool)>;

pub open spec fn parts_of(parts: Option<(String, bool)>) -> Option<(Seq<char>, bool)> {
    match parts {
        Some((scheme, has_host)) => Some((scheme@, has_host)),
        None => None,
    }
}

/// `url::Url::parse`, with the `scheme` of the result and whether its
/// `host_str` is there; `None` where the text is no absolute URL.
#[verifier::external_body]
fn read_url(s: &str) -> (r: Option<(String, bool)>)
    ensures
        parts_of(r) == url_parts(s@),
{
    url::Url::parse(s).ok().map(|u| (u.scheme().to_string(), u.host_str().is_some()))
}

/// An XCAP policy as a value.
pub struct Policy {
    pub root: Seq<char>,
    pub selector: Seq<char>,
    pub namespace: Seq<char>,
}

#[derive(Debug, Clone, PartialEq, Eq)]
pub struct XcapPolicy {
    pub root: String,
    pub document_selector: String,
    pub namespace: String,
    pub partial_update: bool,
}

impl View for XcapPolicy {
    type V = Policy;

    open spec fn view(&self) -> Policy {
        Policy {
            root: self.root@,
            selector: self.document_selector@,
            namespace: self.namespace@,
        }
    }
}

/// What is wrong with a policy whose root reads so as a URL.
pub open spec fn policy_fault(p: Policy, root: Option<(Seq<char>, bool)>) -> Option<Seq<char>> {
    match root {
        None => Some("ut_xcap_root_invalid"@),
        Some((scheme, has_host)) => if scheme != "https"@ || !has_host {
            Some("ut_xcap_root_must_be_https"@)
        } else if text::trim(p.selector).len() == 0 || text::trim(p.namespace).len() == 0 {
            Some("ut_xcap_policy_incomplete"@)
        } else {
            None
        },
    }
}

/// Where a document of this kind stands under the policy.
pub open spec fn url_of(p: Policy, kind: UtDocumentKind) -> Seq<char> {
    text::trim_end_char(p.root, '/') + "/"@ + text::trim_char(p.selector, '/') + "/"@
        + kind.name_spec()
}

pub open spec fn document_url_of(
    p: Policy,
    kind: UtDocumentKind,
    root: Option<(Seq<char>, bool)>,
) -> Result<Seq<char>, Seq<char>> {
    match policy_fault(p, root) {
        Some(e) => Err(e),
        None => Ok(url_of(p, kind)),
    }
}

impl XcapPolicy {
    /// Checks the policy, given what its root reads as.
    pub fn validate_with(&self, root: &Option<(String, bool)>) -> (r: Result<(), UtError>)
        ensures
            match r {
                Ok(_) => policy_fault(self@, parts_of(*root)) is None,
                Err(e) => policy_fault(self@, parts_of(*root)) == Some(e.code_spec()),
            },
    {
        match root {
            None => Err(UtError::new("ut_xcap_root_invalid")),
            Some((scheme, has_host)) => {
                if !text::str_same(scheme.as_str(), "https") || !*has_host {
                    return Err(UtError::new("ut_xcap_root_must_be_https"));
                }
                let selector = text::chars_of(self.document_selector.as_str());
                let namespace = text::chars_of(self.namespace.as_str());
                if text::trimmed(selector.as_slice()).len() == 0 || text::trimmed(
                    namespace.as_slice(),
                ).len() == 0 {
                    return Err(UtError::new("ut_xcap_policy_incomplete"));
                }
                Ok(())
            },
        }
    }

    pub fn validate(&self) -> (r: Result<(), UtError>)
        ensures
            match r {
                Ok(_) => policy_fault(self@, url_parts(self.root@)) is None,
                Err(e) => policy_fault(self@, url_parts(self.root@)) == Some(e.code_spec()),
            },
    {
        let root = read_url(self.root.as_str());
        self.validate_with(&root)
    }

    fn written_url(&self, kind: UtDocumentKind) -> (r: String)
        ensures
            r@ == url_of(self@, kind),
    {
        let root = text::chars_of(self.root.as_str());
        let selector = text::chars_of(self.document_selector.as_str());
        let mut out: Vec<char> = Vec::new();
        text::push_slice(&mut out, text::trimmed_end_char(root.as_slice(), '/'));
        text::push_str(&mut out, "/");
        text::push_slice(&mut out, text::trimmed_char(selector.as_slice(), '/'));
        text::push_str(&mut out, "/");
        text::push_str(&mut out, kind.document_name());
        assert(out@ =~= url_of(self@, kind));
        text::string_of(out.as_slice())
    }

    /// The document's address, given what the policy's root reads as.
    pub fn document_url_with(&self, kind: UtDocumentKind, root: &Option<(String, bool)>) -> (r:
        Result<String, UtError>)
        ensures
            match r {
                Ok(url) => document_url_of(self@, kind, parts_of(*root)) == Ok::<_, Seq<char>>(
                    url@,
                ),
                Err(e) => document_url_of(self@, kind, parts_of(*root)) == Err::<Seq<char>, _>(
                    e.code_spec(),
                ),
            },
    {
        match self.validate_with(root) {
            Ok(_) => Ok(self.written_url(kind)),
            Err(e) => Err(e),
        }
    }

    pub fn document_url(&self, kind: UtDocumentKind) -> (r: Result<String, UtError>)
        ensures
            match r {
                Ok(url) => document_url_of(self@, kind, url_parts(self.root@)) == Ok::<
                    _,
                    Seq<char>,
                >(url@),
                Err(e) => document_url_of(self@, kind, url_parts(self.root@)) == Err::<
                    Seq<char>,
                    _,
                >(e.code_spec()),
            },
    {
        let root = read_url(self.root.as_str());
        self.document_url_with(kind, &root)
    }
}

/// An XCAP request as a value.
pub struct Xcap {
    pub method: Seq<char>,
    pub uri: Seq<char>,
    pub if_match: Option<Seq<char>>,
    pub body: Option<Seq<char>>,
}

#[derive(Debug, Clone, PartialEq, Eq)]
pub struct XcapRequest {
    pub method: &'static str,
    pub uri: String,
    pub if_match: Option<String>,
    pub body: Option<String>,
}

impl View for XcapRequest {
    type V = Xcap;

    open spec fn view(&self) -> Xcap {
        Xcap {
            method: self.method@,
            uri: self.uri@,
            if_match: text::opt_text(self.if_match),
            body: text::opt_text(self.body),
        }
    }
}

pub open spec fn get_of(url: Result<Seq<char>, Seq<char>>) -> Result<Xcap, Seq<char>> {
    match url {
        Ok(uri) => Ok(Xcap { method: "GET"@, uri, if_match: None, body: None }),
        Err(e) => Err(e),
    }
}

pub open spec fn put_of(d: Document, url: Result<Seq<char>, Seq<char>>, body: Seq<char>) -> Result<
    Xcap,
    Seq<char>,
> {
    match d.etag {
        None => Err("ut_if_match_required"@),
        Some(etag) => match url {
            Ok(uri) => Ok(
                Xcap { method: "PUT"@, uri, if_match: Some(etag), body: Some(body) },
            ),
            Err(e) => Err(e),
        },
    }
}

pub fn build_xcap_get(policy: &XcapPolicy, kind: UtDocumentKind) -> (r: Result<
    XcapRequest,
    UtError,
>)
    ensures
        match r {
            Ok(q) => get_of(document_url_of(policy@, kind, url_parts(policy.root@))) == Ok::<
                _,
                Seq<char>,
            >(q@),
            Err(e) => get_of(document_url_of(policy@, kind, url_parts(policy.root@))) == Err::<
                Xcap,
                _,
            >(e.code_spec()),
        },
{
    match policy.document_url(kind) {
        Ok(uri) => Ok(XcapRequest { method: "GET", uri, if_match: None, body: None }),
        Err(e) => Err(e),
    }
}

pub fn build_xcap_put(policy: &XcapPolicy, document: &UtDocument) -> (r: Result<
    XcapRequest,
    UtError,
>)
    ensures
        match r {
            Ok(q) => put_of(
                document@,
                document_url_of(policy@, document.kind, url_parts(policy.root@)),
                xml_of(document@),
            ) == Ok::<_, Seq<char>>(q@),
            Err(e) => put_of(
                document@,
                document_url_of(policy@, document.kind, url_parts(policy.root@)),
                xml_of(document@),
            ) == Err::<Xcap, _>(e.code_spec()),
        },
{
    match &document.etag {
        None => Err(UtError::new("ut_if_match_required")),
        Some(etag) => match policy.document_url(document.kind) {
            Ok(uri) => Ok(
                XcapRequest {
                    method: "PUT",
                    uri,
                    if_match: Some(text::string_of(text::chars_of(etag.as_str()).as_slice())),
                    body: Some(document.to_xml()),
                },
            ),
            Err(e) => Err(e),
        },
    }
}

// ------------------------------------------------------------------------ laws

/// A document that was read and not changed is written as it was read, with
/// everything in it that is not understood here.
pub proof fn law_unchanged_document_round_trips(kind: UtDocumentKind, bytes: Seq<u8>)
    ensures
        parsed_document(kind, bytes) matches Ok(d) ==> xml_of(d) == decode_utf8(bytes),
{
    if valid_utf8(bytes) {
        let original = decode_utf8(bytes);
        let events = xml::xml_events(original, true);
        let document = Document { original: Some(original), dirty: false, ..empty_document(kind) };
        lemma_scan_keeps_original(
            Scan { document, depth: 0, rule: None, words: seq![] },
            events,
            0,
        );
    }
}

/// Reading never changes a document's kind, its original text, its ETag or
/// whether it was changed.
proof fn lemma_scan_keeps_original(s: Scan, events: Seq<xml::EventValue>, i: int)
    ensures
        scan_from(s, events, i) matches Ok(d) ==> {
            &&& d.kind == s.document.kind
            &&& d.original == s.document.original
            &&& d.dirty == s.document.dirty
            &&& d.etag == s.document.etag
        },
    decreases events.len() - i,
{
    if 0 <= i < events.len() && !(events[i].kind is Eof) {
        match after_event(s, events[i].kind) {
            Ok(next) => {
                lemma_scan_keeps_original(next, events, i + 1);
            },
            Err(_) => {},
        }
    }
}

pub open spec fn usable(rule: Rule) -> bool {
    (rule.target matches Some(t) ==> target_ok(t)) && rule.etag is None
}

/// Every forwarding rule of a document that was read has a target that calls
/// can be forwarded to, or none.
pub proof fn law_read_rules_have_usable_targets(
    kind: UtDocumentKind,
    original: Seq<char>,
    events: Seq<xml::EventValue>,
)
    ensures
        document_of(kind, original, events) matches Ok(d) ==> forall|k: int|
            0 <= k < d.forwarding.len() ==> usable(#[trigger] d.forwarding[k]),
{
    let document = Document { original: Some(original), dirty: false, ..empty_document(kind) };
    lemma_scan_rules(Scan { document, depth: 0, rule: None, words: seq![] }, events, 0);
}

proof fn lemma_scan_rules(s: Scan, events: Seq<xml::EventValue>, i: int)
    requires
        forall|k: int|
            0 <= k < s.document.forwarding.len() ==> usable(#[trigger] s.document.forwarding[k]),
    ensures
        scan_from(s, events, i) matches Ok(d) ==> forall|k: int|
            0 <= k < d.forwarding.len() ==> usable(#[trigger] d.forwarding[k]),
    decreases events.len() - i,
{
    if 0 <= i < events.len() && !(events[i].kind is Eof) {
        match after_event(s, events[i].kind) {
            Ok(next) => {
                lemma_scan_rules(next, events, i + 1);
            },
            Err(_) => {},
        }
    }
}

/// A document is put only under the ETag that it was read with, and only to an
/// address that its policy allows.
pub proof fn law_put_is_conditional(d: Document, p: Policy, root: Option<(Seq<char>, bool)>)
    ensures
        put_of(d, document_url_of(p, d.kind, root), xml_of(d)) matches Ok(q) ==> {
            &&& d.etag is Some
            &&& q.if_match == d.etag
            &&& root matches Some((scheme, has_host)) && scheme == "https"@ && has_host
        },
{
}

/// Two documents that differ in their ETag alone say the same.
pub proof fn law_meaning_ignores_etag(d: Document, etag: Option<Seq<char>>)
    ensures
        same_meaning(d, Document { etag, ..d }),
{
}

/// An original without any text has nothing to rewrite.
pub proof fn law_rewriting_needs_active_text(by: Seq<char>, events: Seq<xml::EventValue>)
    requires
        forall|i: int| 0 <= i < events.len() ==> !((#[trigger] events[i]).kind is Text),
    ensures
        rewritten(by, events) is None,
{
    lemma_not_replaced(
        Rewriting { stack: seq![], out: seq![], replaced: false },
        events,
        by,
        0,
    );
}

proof fn lemma_not_replaced(
    w: Rewriting,
    events: Seq<xml::EventValue>,
    by: Seq<char>,
    i: int,
)
    requires
        forall|i: int| 0 <= i < events.len() ==> !((#[trigger] events[i]).kind is Text),
        !w.replaced,
    ensures
        rewritten_from(w, events, by, i) matches Some(done) ==> !done.replaced,
    decreases events.len() - i,
{
    if 0 <= i < events.len() && !(events[i].kind is Eof) && !(events[i].kind is Invalid) {
        lemma_not_replaced(rewriting_after(w, events[i], by), events, by, i + 1);
    }
}


/// The elements that are open after the first `n` events.
pub open spec fn stack_at(events: Seq<xml::EventValue>, n: int) -> Seq<Seq<char>>
    decreases n,
{
    if n <= 0 {
        seq![]
    } else {
        let stack = stack_at(events, n - 1);
        match events[n - 1].kind {
            xml::Kind::Start(tag) => stack.push(local_of(tag.name)),
            xml::Kind::End(_) => if stack.len() > 0 {
                stack.drop_last()
            } else {
                stack
            },
            _ => stack,
        }
    }
}

/// Is the event the text of an `active` element?
pub open spec fn is_active_text(events: Seq<xml::EventValue>, i: int) -> bool {
    events[i].kind is Text && in_active(stack_at(events, i))
}

/// The first `n` events one after the other, another text in place of each text
/// of `active`.
pub open spec fn pieces(events: Seq<xml::EventValue>, by: Seq<char>, n: int) -> Seq<u8>
    decreases n,
{
    if n <= 0 {
        seq![]
    } else if is_active_text(events, n - 1) {
        pieces(events, by, n - 1) + encode_utf8(xml::escaped(by))
    } else {
        pieces(events, by, n - 1) + events[n - 1].written
    }
}

/// An update keeps every event of the original, in order, but for the text of
/// `active`: extensions that are not understood here stay.
pub proof fn law_rewriting_keeps_other_events(
    by: Seq<char>,
    events: Seq<xml::EventValue>,
    n: int,
)
    requires
        0 <= n < events.len(),
        events[n].kind is Eof,
        forall|i: int|
            0 <= i < n ==> !((#[trigger] events[i]).kind is Eof) && !(events[i].kind is Invalid),
    ensures
        rewritten(by, events) matches Some(updated) ==> {
            &&& valid_utf8(pieces(events, by, n))
            &&& updated == decode_utf8(pieces(events, by, n))
            &&& exists|i: int| 0 <= i < n && is_active_text(events, i)
        },
{
    lemma_pieces(
        Rewriting { stack: seq![], out: seq![], replaced: false },
        events,
        by,
        0,
        n,
    );
}

proof fn lemma_pieces(
    w: Rewriting,
    events: Seq<xml::EventValue>,
    by: Seq<char>,
    i: int,
    n: int,
)
    requires
        0 <= i <= n < events.len(),
        events[n].kind is Eof,
        forall|i: int|
            0 <= i < n ==> !((#[trigger] events[i]).kind is Eof) && !(events[i].kind is Invalid),
        w.stack == stack_at(events, i),
        w.out == pieces(events, by, i),
        w.replaced ==> exists|k: int| 0 <= k < i && is_active_text(events, k),
    ensures
        rewritten_from(w, events, by, i) matches Some(done) && done.out == pieces(events, by, n)
            && (done.replaced ==> exists|k: int| 0 <= k < n && is_active_text(events, k)),
    decreases n - i,
{
    if i < n {
        let next = rewriting_after(w, events[i], by);
        if next.replaced {
            if w.replaced {
                let k = choose|k: int| 0 <= k < i && is_active_text(events, k);
                assert(0 <= k < i + 1 && is_active_text(events, k));
            } else {
                assert(is_active_text(events, i));
            }
        }
        lemma_pieces(next, events, by, i + 1, n);
    }
}

} // verus!
