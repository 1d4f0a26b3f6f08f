//! The events of an XML text, as plain values.

use crate::{net, text};
use quick_xml::events::{BytesStart, BytesText, Event};
use quick_xml::{Reader, Writer};
use vstd::prelude::*;
use vstd::utf8::*;

verus! {

/// A tag: its qualified name, and its attributes as name and value, in order;
/// one that cannot be read is `None`.
#[derive(Debug, Clone, PartialEq, Eq)]
pub struct XmlTag {
    pub name: Vec<u8>,
    pub attributes: Vec<Option<(Vec<u8>, Vec<u8>)>>,
}

#[derive(Debug, Clone, PartialEq, Eq)]
pub enum XmlKind {
    Start(XmlTag),
    Empty(XmlTag),
    /// Character data, unescaped where that is possible.
    Text(Option<String>),
    End(Vec<u8>),
    /// A comment, a declaration, a processing instruction and the like.
    Other,
    /// The end of the document.
    Eof,
    /// The text is no well-formed XML from here on.
    Invalid,
}

#[derive(Debug, Clone, PartialEq, Eq)]
pub struct XmlEvent {
    pub kind: XmlKind,
    /// The event as a writer puts it out.
    pub written: Vec<u8>,
}

/// A tag as a value.
pub struct Tag {
    pub name: Seq<u8>,
    pub attributes: Seq<Option<(Seq<u8>, Seq<u8>)>>,
}

/// A kind of event as a value.
pub enum Kind {
    Start(Tag),
    Empty(Tag),
    Text(Option<Seq<char>>),
    End(Seq<u8>),
    Other,
    Eof,
    Invalid,
}

/// An event as a value.
pub struct EventValue {
    pub kind: Kind,
    pub written: Seq<u8>,
}

pub open spec fn attributes_view(v: Seq<Option<(Vec<u8>, Vec<u8>)>>) -> Seq<
    Option<(Seq<u8>, Seq<u8>)>,
> {
    Seq::new(
        v.len(),
        |i: int|
            match v[i] {
                Some((key, value)) => Some((key@, value@)),
                None => None,
            },
    )
}

impl View for XmlTag {
    type V = Tag;

    open spec fn view(&self) -> Tag {
        Tag { name: self.name@, attributes: attributes_view(self.attributes@) }
    }
}

impl View for XmlKind {
    type V = Kind;

    open spec fn view(&self) -> Kind {
        match self {
            XmlKind::Start(tag) => Kind::Start(tag@),
            XmlKind::Empty(tag) => Kind::Empty(tag@),
            XmlKind::Text(words) => Kind::Text(text::opt_text(*words)),
            XmlKind::End(name) => Kind::End(name@),
            XmlKind::Other => Kind::Other,
            XmlKind::Eof => Kind::Eof,
            XmlKind::Invalid => Kind::Invalid,
        }
    }
}

impl View for XmlEvent {
    type V = EventValue;

    open spec fn view(&self) -> EventValue {
        EventValue { kind: self.kind@, written: self.written@ }
    }
}

pub open spec fn events_of(v: Seq<XmlEvent>) -> Seq<EventValue> {
    Seq::new(v.len(), |i: int| v[i]@)
}

/// An event before its attributes are taken apart: a tag is its content, name
/// and attributes in one run of bytes, and how many bytes the name has.
#[derive(Debug, Clone, PartialEq, Eq)]
pub enum RawKind {
    Start(Vec<u8>, usize),
    Empty(Vec<u8>, usize),
    Text(Vec<u8>),
    End(Vec<u8>),
    Other,
    Eof,
    Invalid,
}

pub struct RawEvent {
    pub kind: RawKind,
    pub written: Vec<u8>,
}

/// A kind of raw event as a value.
pub enum Raw {
    Start(Seq<u8>, nat),
    Empty(Seq<u8>, nat),
    Text(Seq<u8>),
    End(Seq<u8>),
    Other,
    Eof,
    Invalid,
}

/// A raw event as a value.
pub struct RawValue {
    pub kind: Raw,
    pub written: Seq<u8>,
}

impl View for RawKind {
    type V = Raw;

    open spec fn view(&self) -> Raw {
        match self {
            RawKind::Start(content, n) => Raw::Start(content@, *n as nat),
            RawKind::Empty(content, n) => Raw::Empty(content@, *n as nat),
            RawKind::Text(words) => Raw::Text(words@),
            RawKind::End(name) => Raw::End(name@),
            RawKind::Other => Raw::Other,
            RawKind::Eof => Raw::Eof,
            RawKind::Invalid => Raw::Invalid,
        }
    }
}

impl View for RawEvent {
    type V = RawValue;

    open spec fn view(&self) -> RawValue {
        RawValue { kind: self.kind@, written: self.written@ }
    }
}

/// Does the event end the document, well or not?
pub open spec fn last_kind(kind: Raw) -> bool {
    kind is Eof || kind is Invalid
}

/// Does a tag's name end within its content?
pub open spec fn named_within(kind: Raw) -> bool {
    match kind {
        Raw::Start(content, n) => n <= content.len(),
        Raw::Empty(content, n) => n <= content.len(),
        _ => true,
    }
}

/// Events up to and including the one that ends the document.
pub open spec fn whole_document(events: Seq<RawValue>) -> bool {
    &&& events.len() > 0
    &&& last_kind(events.last().kind)
    &&& forall|i: int| 0 <= i < events.len() - 1 ==> !last_kind((#[trigger] events[i]).kind)
    &&& forall|i: int| 0 <= i < events.len() ==> named_within((#[trigger] events[i]).kind)
}

/// `quick_xml::Reader`, from which events are taken one by one.
#[verifier::external_type_specification]
#[verifier::external_body]
#[verifier::reject_recursive_types(R)]
pub struct ExReader<R>(Reader<R>);

/// The events of a text, character data being trimmed or not, up to the end of
/// the document or the first error.
pub uninterp spec fn raw_events(s: Seq<char>, trim: bool) -> Seq<RawValue>;

/// The events that a reader has still to give.
pub uninterp spec fn remaining_events(reader: Reader<&[u8]>) -> Seq<RawValue>;

/// The attributes of a tag with this content, behind a name of so many bytes.
pub uninterp spec fn tag_attributes(content: Seq<u8>, name_len: nat) -> Seq<
    Option<(Seq<u8>, Seq<u8>)>,
>;

/// `Reader::from_str` and its `trim_text` setting: a reader of all the text's
/// events, which the text and the setting determine. A text ends, so they end
/// with the end of the document or with an error; and the name of a tag is a
/// part of its content.
#[verifier::external_body]
fn open_reader<'a>(s: &'a str, trim: bool) -> (r: Reader<&'a [u8]>)
    ensures
        remaining_events(r) == raw_events(s@, trim),
        whole_document(remaining_events(r)),
{
    let mut reader = Reader::from_str(s);
    reader.config_mut().trim_text(trim);
    reader
}

/// `Reader::read_event`: the next event, with what `Writer::write_event` puts out
/// for it. A writer into a vector takes all that it is given.
#[verifier::external_body]
fn next_event(reader: &mut Reader<&[u8]>) -> (r: (RawKind, Vec<u8>))
    requires
        remaining_events(*old(reader)).len() > 0,
    ensures
        (RawValue { kind: r.0@, written: r.1@ }) == remaining_events(*old(reader))[0],
        remaining_events(*final(reader)) == remaining_events(*old(reader)).drop_first(),
{
    let event = reader.read_event();
    let kind = match &event {
        Ok(Event::Start(e)) => RawKind::Start(e.to_vec(), e.name().0.len()),
        Ok(Event::Empty(e)) => RawKind::Empty(e.to_vec(), e.name().0.len()),
        Ok(Event::Text(e)) => RawKind::Text(e.to_vec()),
        Ok(Event::End(e)) => RawKind::End(e.name().0.to_vec()),
        Ok(Event::Eof) => RawKind::Eof,
        Ok(_) => RawKind::Other,
        _ => RawKind::Invalid,
    };
    let mut writer = Writer::new(vec![]);
    _ = event.map(|e| writer.write_event(e));
    (kind, writer.into_inner())
}

/// Character data with its references resolved, where they can be.
pub uninterp spec fn unescaped(words: Seq<u8>) -> Option<Seq<char>>;

/// `BytesText::unescape`: character data with its references resolved, unless one
/// cannot be.
#[verifier::external_body]
fn unescape_text(words: &[u8]) -> (r: Option<String>)
    ensures
        text::opt_text(r) == unescaped(words@),
{
    let text = BytesText::from_escaped(String::from_utf8_lossy(words));
    text.unescape().ok().map(|t| t.into_owned())
}

/// `BytesStart::from_content` and `BytesStart::attributes`: the attributes that
/// stand in a tag's content behind its name.
#[verifier::external_body]
fn attributes_of(content: &[u8], name_len: usize) -> (r: Vec<Option<(Vec<u8>, Vec<u8>)>>)
    requires
        name_len <= content@.len(),
    ensures
        attributes_view(r@) == tag_attributes(content@, name_len as nat),
{
    let start = BytesStart::from_content(String::from_utf8_lossy(content), name_len);
    start.attributes().map(
        |a| a.ok().map(|a| (a.key.0.to_vec(), a.value.to_vec())),
    ).collect()
}

pub open spec fn tag_in(content: Seq<u8>, name_len: nat) -> Tag {
    Tag {
        name: content.take(name_len as int),
        attributes: tag_attributes(content, name_len),
    }
}

/// An event with its tag taken apart.
pub open spec fn event_in(raw: RawValue) -> EventValue {
    EventValue {
        kind: match raw.kind {
            Raw::Start(content, n) => Kind::Start(tag_in(content, n)),
            Raw::Empty(content, n) => Kind::Empty(tag_in(content, n)),
            Raw::Text(words) => Kind::Text(unescaped(words)),
            Raw::End(name) => Kind::End(name),
            Raw::Other => Kind::Other,
            Raw::Eof => Kind::Eof,
            Raw::Invalid => Kind::Invalid,
        },
        written: raw.written,
    }
}

/// The events of a text, up to the end of the document or the first error.
pub open spec fn xml_events(s: Seq<char>, trim: bool) -> Seq<EventValue> {
    Seq::new(raw_events(s, trim).len(), |i: int| event_in(raw_events(s, trim)[i]))
}

fn tag_of(content: Vec<u8>, name_len: usize) -> (r: XmlTag)
    requires
        name_len <= content@.len(),
    ensures
        r@ == tag_in(content@, name_len as nat),
{
    let attributes = attributes_of(content.as_slice(), name_len);
    let name = net::to_bytes(vstd::slice::slice_subrange(content.as_slice(), 0, name_len));
    assert(name@ =~= content@.take(name_len as int));
    XmlTag { name, attributes }
}

fn event_of(raw: RawEvent) -> (r: XmlEvent)
    requires
        named_within(raw@.kind),
    ensures
        r@ == event_in(raw@),
{
    let kind = match raw.kind {
        RawKind::Start(content, n) => XmlKind::Start(tag_of(content, n)),
        RawKind::Empty(content, n) => XmlKind::Empty(tag_of(content, n)),
        RawKind::Text(words) => XmlKind::Text(unescape_text(words.as_slice())),
        RawKind::End(name) => XmlKind::End(name),
        RawKind::Other => XmlKind::Other,
        RawKind::Eof => XmlKind::Eof,
        RawKind::Invalid => XmlKind::Invalid,
    };
    XmlEvent { kind, written: raw.written }
}

/// The events of a text, up to the end of the document or the first error.
pub fn read_events(s: &str, trim: bool) -> (r: Vec<XmlEvent>)
    ensures
        events_of(r@) == xml_events(s@, trim),
{
    let mut reader = open_reader(s, trim);
    let ghost all = remaining_events(reader);
    let mut r: Vec<XmlEvent> = Vec::new();
    assert(all =~= all.skip(0));
    assert(events_of(r@) =~= xml_events(s@, trim).take(0));
    loop
        invariant
            all == raw_events(s@, trim),
            whole_document(all),
            r@.len() < all.len(),
            events_of(r@) == xml_events(s@, trim).take(r@.len() as int),
            remaining_events(reader) == all.skip(r@.len() as int),
        decreases all.len() - r@.len(),
    {
        let ghost n = r@.len() as int;
        let ghost known = events_of(r@);
        let (kind, written) = next_event(&mut reader);
        let raw = RawEvent { kind, written };
        assert(raw@ == all[n]);
        let last: bool = match &raw.kind {
            RawKind::Eof => true,
            RawKind::Invalid => true,
            _ => false,
        };
        let event = event_of(raw);
        assert(event@ == xml_events(s@, trim)[n]);
        r.push(event);
        assert(events_of(r@) =~= known.push(event@));
        assert(events_of(r@) =~= xml_events(s@, trim).take(n + 1));
        assert(remaining_events(reader) =~= all.skip(n + 1));
        if last {
            assert(n == all.len() - 1);
            assert(events_of(r@) =~= xml_events(s@, trim));
            return r;
        }
        assert(n < all.len() - 1);
    }
}

pub open spec fn escaped_char(c: char) -> Seq<char> {
    if c == '<' {
        "&lt;"@
    } else if c == '>' {
        "&gt;"@
    } else if c == '&' {
        "&amp;"@
    } else if c == '\'' {
        "&apos;"@
    } else if c == '"' {
        "&quot;"@
    } else {
        seq![c]
    }
}

pub open spec fn escaped(s: Seq<char>) -> Seq<char>
    decreases s.len(),
{
    if s.len() == 0 {
        seq![]
    } else {
        escaped(s.drop_last()) + escaped_char(s.last())
    }
}

/// `BytesText::new`, as `Writer::write_event` puts it out: the text with the
/// five special characters escaped. A writer into a vector takes all that it
/// is given.
#[verifier::external_body]
pub(crate) fn write_text(s: &str) -> (r: Vec<u8>)
    ensures
        r@ == encode_utf8(escaped(s@)),
{
    let mut writer = Writer::new(Vec::new());
    let _ = writer.write_event(Event::Text(BytesText::new(s)));
    writer.into_inner()
}

} // verus!
