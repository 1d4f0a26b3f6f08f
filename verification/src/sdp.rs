//! The part of the session description protocol that calls are relayed with.

use crate::ims_error::ImsError;
use crate::{text, utf8};
use vstd::prelude::*;
use vstd::slice::slice_subrange;

verus! {

#[derive(Debug, Clone, Copy, PartialEq, Eq, Structural)]
pub enum SdpAddrType {
    Ip4,
    Ip6,
}

#[derive(Debug, Clone, Copy, PartialEq, Eq, Structural)]
pub enum SdpDirection {
    SendRecv,
    SendOnly,
    RecvOnly,
    Inactive,
}

/// One payload type of a media line and what it stands for.
#[derive(Debug, PartialEq, Eq)]
pub struct SdpCodec {
    pub payload_type: u8,
    pub name: String,
    pub clock_rate: u32,
    pub channels: u32,
    pub fmtp: Option<String>,
}

#[derive(Debug, PartialEq, Eq)]
pub struct SdpAudioDescription {
    pub connection_addr: String,
    pub addr_type: SdpAddrType,
    pub media_port: u16,
    pub codecs: Vec<SdpCodec>,
    pub direction: SdpDirection,
}

#[derive(Debug, PartialEq, Eq)]
pub struct VideoMediaDescription {
    pub codec: SdpCodec,
    pub media_port: u16,
    pub connection_addr: Option<String>,
    pub addr_type: Option<SdpAddrType>,
    pub direction: SdpDirection,
}

/// An RTP payload type that carries telephone events.
#[derive(Debug, PartialEq, Eq)]
pub struct RtpTelephoneEvent {
    pub payload_type: u8,
    pub clock_rate: u32,
    pub events: Option<String>,
}

// --------------------------------------------------------------------- models

pub struct Codec {
    pub payload_type: u8,
    pub name: Seq<char>,
    pub clock_rate: u32,
    pub channels: u32,
    pub fmtp: Option<Seq<char>>,
}

pub struct Audio {
    pub addr: Seq<char>,
    pub addr_type: SdpAddrType,
    pub port: u16,
    pub codecs: Seq<Codec>,
    pub direction: SdpDirection,
}

pub struct Video {
    pub codec: Codec,
    pub port: u16,
    pub addr: Option<Seq<char>>,
    pub addr_type: Option<SdpAddrType>,
    pub direction: SdpDirection,
}

pub struct ToneEvent {
    pub payload_type: u8,
    pub clock_rate: u32,
    pub events: Option<Seq<char>>,
}

impl View for SdpCodec {
    type V = Codec;

    open spec fn view(&self) -> Codec {
        Codec {
            payload_type: self.payload_type,
            name: self.name@,
            clock_rate: self.clock_rate,
            channels: self.channels,
            fmtp: text::opt_text(self.fmtp),
        }
    }
}

pub open spec fn codecs_of(v: Seq<SdpCodec>) -> Seq<Codec> {
    Seq::new(v.len(), |i: int| v[i]@)
}

impl View for SdpAudioDescription {
    type V = Audio;

    open spec fn view(&self) -> Audio {
        Audio {
            addr: self.connection_addr@,
            addr_type: self.addr_type,
            port: self.media_port,
            codecs: codecs_of(self.codecs@),
            direction: self.direction,
        }
    }
}

impl View for VideoMediaDescription {
    type V = Video;

    open spec fn view(&self) -> Video {
        Video {
            codec: self.codec@,
            port: self.media_port,
            addr: text::opt_text(self.connection_addr),
            addr_type: self.addr_type,
            direction: self.direction,
        }
    }
}

impl View for RtpTelephoneEvent {
    type V = ToneEvent;

    open spec fn view(&self) -> ToneEvent {
        ToneEvent {
            payload_type: self.payload_type,
            clock_rate: self.clock_rate,
            events: text::opt_text(self.events),
        }
    }
}

pub fn copy_text(s: &Option<String>) -> (r: Option<String>)
    ensures
        text::opt_text(r) == text::opt_text(*s),
{
    match s {
        Some(s) => Some(text::string_of(text::chars_of(s.as_str()).as_slice())),
        None => None,
    }
}

pub fn copy_str(s: &str) -> (r: String)
    ensures
        r@ == s@,
{
    text::string_of(text::chars_of(s).as_slice())
}

impl SdpCodec {
    pub fn copy(&self) -> (r: Self)
        ensures
            r@ == self@,
    {
        SdpCodec {
            payload_type: self.payload_type,
            name: copy_str(self.name.as_str()),
            clock_rate: self.clock_rate,
            channels: self.channels,
            fmtp: copy_text(&self.fmtp),
        }
    }
}

pub fn copy_codecs(v: &Vec<SdpCodec>) -> (r: Vec<SdpCodec>)
    ensures
        codecs_of(r@) == codecs_of(v@),
{
    let mut r: Vec<SdpCodec> = Vec::new();
    let mut i: usize = 0;
    while i < v.len()
        invariant
            i <= v@.len(),
            r@.len() == i,
            forall|j: int| 0 <= j < i ==> (#[trigger] r@[j])@ == v@[j]@,
        decreases v@.len() - i,
    {
        r.push(v[i].copy());
        i += 1;
    }
    assert(codecs_of(r@) =~= codecs_of(v@));
    r
}

impl SdpAudioDescription {
    pub fn copy(&self) -> (r: Self)
        ensures
            r@ == self@,
    {
        SdpAudioDescription {
            connection_addr: copy_str(self.connection_addr.as_str()),
            addr_type: self.addr_type,
            media_port: self.media_port,
            codecs: copy_codecs(&self.codecs),
            direction: self.direction,
        }
    }
}

impl VideoMediaDescription {
    pub fn copy(&self) -> (r: Self)
        ensures
            r@ == self@,
    {
        VideoMediaDescription {
            codec: self.codec.copy(),
            media_port: self.media_port,
            connection_addr: copy_text(&self.connection_addr),
            addr_type: self.addr_type,
            direction: self.direction,
        }
    }
}

// -------------------------------------------------------------------- sections

/// The first line from `i` on that begins with a prefix, or how many there are.
pub open spec fn line_with(lines: Seq<Seq<char>>, prefix: Seq<char>, i: int) -> int
    decreases lines.len() - i,
{
    if i < 0 || i >= lines.len() {
        lines.len() as int
    } else if text::starts(lines[i], prefix) {
        i
    } else {
        line_with(lines, prefix, i + 1)
    }
}

proof fn lemma_line_with(lines: Seq<Seq<char>>, prefix: Seq<char>, i: int)
    requires
        0 <= i <= lines.len(),
    ensures
        i <= line_with(lines, prefix, i) <= lines.len(),
        line_with(lines, prefix, i) < lines.len() ==> text::starts(
            lines[line_with(lines, prefix, i)],
            prefix,
        ),
    decreases lines.len() - i,
{
    if i < lines.len() && !text::starts(lines[i], prefix) {
        lemma_line_with(lines, prefix, i + 1);
    }
}

fn find_line(lines: &Vec<&[char]>, prefix: &str, from: usize) -> (r: usize)
    requires
        from <= lines@.len(),
    ensures
        r as int == line_with(text::views(lines@), prefix@, from as int),
        from <= r <= lines@.len(),
        r < lines@.len() ==> text::starts(lines@[r as int]@, prefix@),
{
    let ghost all = text::views(lines@);
    proof {
        lemma_line_with(all, prefix@, from as int);
    }
    let mut i: usize = from;
    while i < lines.len()
        invariant
            from <= i <= lines@.len(),
            all == text::views(lines@),
            line_with(all, prefix@, from as int) == line_with(all, prefix@, i as int),
        decreases lines@.len() - i,
    {
        assert(all[i as int] == lines@[i as int]@);
        if text::has_prefix(lines[i], prefix) {
            return i;
        }
        i += 1;
    }
    i
}

/// What follows a prefix in the first of the lines from `i` up to `end` that
/// begins with it.
pub open spec fn value_in(lines: Seq<Seq<char>>, prefix: Seq<char>, i: int, end: int) -> Option<
    Seq<char>,
>
    decreases end - i,
{
    if i < 0 || i >= end || i >= lines.len() {
        None
    } else {
        match text::without_prefix(lines[i], prefix) {
            Some(rest) => Some(rest),
            None => value_in(lines, prefix, i + 1, end),
        }
    }
}

fn find_value<'a>(lines: &Vec<&'a [char]>, prefix: &str, from: usize, end: usize) -> (r: Option<
    &'a [char],
>)
    requires
        end <= lines@.len(),
    ensures
        text::opt_slice(r) == value_in(text::views(lines@), prefix@, from as int, end as int),
{
    let ghost all = text::views(lines@);
    let mut i: usize = from;
    while i < end
        invariant
            from <= i,
            end <= lines@.len(),
            all == text::views(lines@),
            value_in(all, prefix@, from as int, end as int) == value_in(
                all,
                prefix@,
                i as int,
                end as int,
            ),
        decreases end - i,
    {
        assert(all[i as int] == lines@[i as int]@);
        match text::strip_prefix(lines[i], prefix) {
            Some(rest) => {
                return Some(rest);
            },
            None => {},
        }
        i += 1;
    }
    None
}

/// One media section: where it begins and ends, and the words of its media line.
pub struct Section {
    pub start: int,
    pub end: int,
    pub words: Seq<Seq<char>>,
}

pub open spec fn section_of(lines: Seq<Seq<char>>, prefix: Seq<char>) -> Option<Section> {
    let start = line_with(lines, prefix, 0);
    if start < lines.len() {
        Some(
            Section {
                start,
                end: line_with(lines, "m="@, start + 1),
                words: text::words(
                    lines[start].subrange(prefix.len() as int, lines[start].len() as int),
                ),
            },
        )
    } else {
        None
    }
}

/// The connection that holds in a section: its own, or the session's.
pub open spec fn connection_of(lines: Seq<Seq<char>>, s: Section) -> Option<Seq<char>> {
    match value_in(lines, "c=IN "@, s.start, s.end) {
        Some(c) => Some(c),
        None => value_in(lines, "c=IN "@, 0, line_with(lines, "m="@, 0)),
    }
}

pub open spec fn address_of(connection: Seq<char>) -> Option<(SdpAddrType, Seq<char>)> {
    let words = text::words(connection);
    if words.len() < 2 {
        None
    } else if words[0] == "IP4"@ {
        Some((SdpAddrType::Ip4, words[1]))
    } else if words[0] == "IP6"@ {
        Some((SdpAddrType::Ip6, words[1]))
    } else {
        None
    }
}

fn read_address<'a>(connection: &'a [char]) -> (r: Option<(SdpAddrType, &'a [char])>)
    ensures
        match r {
            Some((t, a)) => address_of(connection@) == Some((t, a@)),
            None => address_of(connection@) is None,
        },
{
    let words = text::words_of(connection);
    let ghost all = text::words(connection@);
    assert(words@.len() == text::views(words@).len());
    if words.len() < 2 {
        return None;
    }
    assert(all[0] == words@[0]@ && all[1] == words@[1]@);
    if text::is_text(words[0], "IP4") {
        Some((SdpAddrType::Ip4, words[1]))
    } else if text::is_text(words[0], "IP6") {
        Some((SdpAddrType::Ip6, words[1]))
    } else {
        None
    }
}

/// A payload type, which has seven bits.
pub open spec fn payload_of(word: Seq<char>) -> Option<u8> {
    match text::unsigned(word, 127) {
        Some(n) => Some(n as u8),
        None => None,
    }
}

fn read_payload(word: &[char]) -> (r: Option<u8>)
    ensures
        r == payload_of(word@),
{
    match text::parse_unsigned(word, 127) {
        Some(n) => Some(n as u8),
        None => None,
    }
}

pub open spec fn attribute_prefix(name: Seq<char>, payload_type: u8) -> Seq<char> {
    name + text::decimal(payload_type as nat) + " "@
}

fn attribute(name: &str, payload_type: u8) -> (r: String)
    ensures
        r@ == attribute_prefix(name@, payload_type),
{
    let mut out: Vec<char> = Vec::new();
    text::push_str(&mut out, name);
    text::push_decimal(&mut out, payload_type as u64);
    text::push_str(&mut out, " ");
    assert(out@ =~= attribute_prefix(name@, payload_type));
    text::string_of(out.as_slice())
}

/// An encoding: its name, clock rate and number of channels.
pub open spec fn encoding_of(value: Seq<char>) -> Option<(Seq<char>, u32, u32)> {
    let parts = text::split(text::trim(value), '/');
    if parts.len() < 2 {
        None
    } else {
        match text::unsigned(parts[1], u32::MAX as nat) {
            Some(clock) => if parts.len() == 2 {
                Some((parts[0], clock as u32, 1u32))
            } else {
                match text::unsigned(parts[2], u32::MAX as nat) {
                    Some(n) => Some((parts[0], clock as u32, n as u32)),
                    None => None,
                }
            },
            None => None,
        }
    }
}

/// The encodings that a payload type has without being told.
pub open spec fn static_encoding(payload_type: u8) -> Option<Seq<char>> {
    if payload_type == 0 {
        Some("PCMU/8000"@)
    } else if payload_type == 3 {
        Some("GSM/8000"@)
    } else if payload_type == 8 {
        Some("PCMA/8000"@)
    } else if payload_type == 9 {
        Some("G722/8000"@)
    } else if payload_type == 18 {
        Some("G729/8000"@)
    } else {
        None
    }
}

fn known_encoding(payload_type: u8) -> (r: Option<&'static str>)
    ensures
        match r {
            Some(s) => static_encoding(payload_type) == Some(s@),
            None => static_encoding(payload_type) is None,
        },
{
    if payload_type == 0 {
        Some("PCMU/8000")
    } else if payload_type == 3 {
        Some("GSM/8000")
    } else if payload_type == 8 {
        Some("PCMA/8000")
    } else if payload_type == 9 {
        Some("G722/8000")
    } else if payload_type == 18 {
        Some("G729/8000")
    } else {
        None
    }
}

/// What a payload type stands for in a section.
pub open spec fn codec_in(lines: Seq<Seq<char>>, start: int, end: int, payload_type: u8) -> Option<
    Codec,
> {
    let value = match value_in(
        lines,
        attribute_prefix("a=rtpmap:"@, payload_type),
        start,
        end,
    ) {
        Some(v) => Some(v),
        None => static_encoding(payload_type),
    };
    match value {
        Some(v) => match encoding_of(v) {
            Some((name, clock_rate, channels)) => Some(
                Codec {
                    payload_type,
                    name,
                    clock_rate,
                    channels,
                    fmtp: value_in(
                        lines,
                        attribute_prefix("a=fmtp:"@, payload_type),
                        start,
                        end,
                    ),
                },
            ),
            None => None,
        },
        None => None,
    }
}

fn read_encoding<'a>(value: &'a [char]) -> (r: Option<(&'a [char], u32, u32)>)
    ensures
        match r {
            Some((name, clock, channels)) => encoding_of(value@) == Some((name@, clock, channels)),
            None => encoding_of(value@) is None,
        },
{
    let parts = text::parts(text::trimmed(value), '/');
    let ghost all = text::split(text::trim(value@), '/');
    assert(parts@.len() == text::views(parts@).len());
    if parts.len() < 2 {
        return None;
    }
    assert(all[0] == parts@[0]@ && all[1] == parts@[1]@);
    match text::parse_u32(parts[1]) {
        Some(clock) => {
            if parts.len() == 2 {
                return Some((parts[0], clock, 1));
            }
            assert(all[2] == parts@[2]@);
            match text::parse_u32(parts[2]) {
                Some(channels) => Some((parts[0], clock, channels)),
                None => None,
            }
        },
        None => None,
    }
}

fn read_codec(lines: &Vec<&[char]>, start: usize, end: usize, payload_type: u8) -> (r: Option<
    SdpCodec,
>)
    requires
        end <= lines@.len(),
    ensures
        match r {
            Some(c) => codec_in(
                text::views(lines@),
                start as int,
                end as int,
                payload_type,
            ) == Some(c@),
            None => codec_in(
                text::views(lines@),
                start as int,
                end as int,
                payload_type,
            ) is None,
        },
{
    let map_name = attribute("a=rtpmap:", payload_type);
    let format_name = attribute("a=fmtp:", payload_type);
    let value: Vec<char> = match find_value(lines, map_name.as_str(), start, end) {
        Some(v) => {
            let mut out: Vec<char> = Vec::new();
            text::push_slice(&mut out, v);
            assert(out@ =~= v@);
            out
        },
        None => match known_encoding(payload_type) {
            Some(s) => text::chars_of(s),
            None => {
                return None;
            },
        },
    };
    match read_encoding(value.as_slice()) {
        Some((name, clock_rate, channels)) => {
            let fmtp = match find_value(lines, format_name.as_str(), start, end) {
                Some(v) => Some(text::string_of(v)),
                None => None,
            };
            Some(
                SdpCodec {
                    payload_type,
                    name: text::string_of(name),
                    clock_rate,
                    channels,
                    fmtp,
                },
            )
        },
        None => None,
    }
}


/// Does an encoding carry telephone events?
pub open spec fn is_tone(c: Codec) -> bool {
    text::alike(c.name, "telephone-event"@)
}

/// The codecs of the first `n` payload types of a section: what each stands
/// for, where that is known and no telephone event.
pub open spec fn codecs_upto(lines: Seq<Seq<char>>, s: Section, n: int) -> Seq<Codec>
    decreases n,
{
    if n <= 0 {
        seq![]
    } else {
        let known = codecs_upto(lines, s, n - 1);
        match payload_of(s.words[n + 1]) {
            Some(pt) => match codec_in(lines, s.start, s.end, pt) {
                Some(c) => if is_tone(c) {
                    known
                } else {
                    known.push(c)
                },
                None => known,
            },
            None => known,
        }
    }
}

/// The payload types stand behind the port and the protocol.
pub open spec fn payload_count(s: Section) -> int {
    if s.words.len() >= 2 {
        s.words.len() - 2
    } else {
        0
    }
}

pub open spec fn section_codecs(lines: Seq<Seq<char>>, s: Section) -> Seq<Codec> {
    codecs_upto(lines, s, payload_count(s))
}

/// The telephone event of the payload types from `n` on.
pub open spec fn tone_from(lines: Seq<Seq<char>>, s: Section, n: int) -> Option<ToneEvent>
    decreases payload_count(s) - n,
{
    if n < 0 || n >= payload_count(s) {
        None
    } else {
        let c = match payload_of(s.words[n + 2]) {
            Some(pt) => codec_in(lines, s.start, s.end, pt),
            None => None,
        };
        if c is Some && is_tone(c->0) {
            Some(
                ToneEvent {
                    payload_type: c->0.payload_type,
                    clock_rate: c->0.clock_rate,
                    events: c->0.fmtp,
                },
            )
        } else {
            tone_from(lines, s, n + 1)
        }
    }
}

/// The direction that a section states, or else that media flows both ways.
pub open spec fn direction_from(lines: Seq<Seq<char>>, i: int, end: int) -> SdpDirection
    decreases end - i,
{
    if i < 0 || i >= end || i >= lines.len() {
        SdpDirection::SendRecv
    } else if lines[i] == "a=sendrecv"@ {
        SdpDirection::SendRecv
    } else if lines[i] == "a=sendonly"@ {
        SdpDirection::SendOnly
    } else if lines[i] == "a=recvonly"@ {
        SdpDirection::RecvOnly
    } else if lines[i] == "a=inactive"@ {
        SdpDirection::Inactive
    } else {
        direction_from(lines, i + 1, end)
    }
}

fn read_direction(lines: &Vec<&[char]>, start: usize, end: usize) -> (r: SdpDirection)
    requires
        end <= lines@.len(),
    ensures
        r == direction_from(text::views(lines@), start as int, end as int),
{
    let ghost all = text::views(lines@);
    let mut i: usize = start;
    while i < end
        invariant
            start <= i,
            end <= lines@.len(),
            all == text::views(lines@),
            direction_from(all, start as int, end as int) == direction_from(
                all,
                i as int,
                end as int,
            ),
        decreases end - i,
    {
        assert(all[i as int] == lines@[i as int]@);
        let line = lines[i];
        if text::is_text(line, "a=sendrecv") {
            return SdpDirection::SendRecv;
        }
        if text::is_text(line, "a=sendonly") {
            return SdpDirection::SendOnly;
        }
        if text::is_text(line, "a=recvonly") {
            return SdpDirection::RecvOnly;
        }
        if text::is_text(line, "a=inactive") {
            return SdpDirection::Inactive;
        }
        i += 1;
    }
    SdpDirection::SendRecv
}

struct SectionLines<'a> {
    start: usize,
    end: usize,
    words: Vec<&'a [char]>,
}

impl<'a> SectionLines<'a> {
    spec fn value(&self) -> Section {
        Section {
            start: self.start as int,
            end: self.end as int,
            words: text::views(self.words@),
        }
    }
}

fn read_section<'a>(lines: &Vec<&'a [char]>, prefix: &str) -> (r: Option<SectionLines<'a>>)
    ensures
        match r {
            Some(s) => section_of(text::views(lines@), prefix@) == Some(s.value()) && s.end
                <= lines@.len(),
            None => section_of(text::views(lines@), prefix@) is None,
        },
{
    let ghost all = text::views(lines@);
    let start: usize = find_line(lines, prefix, 0);
    let count: usize = lines.len();
    if start == count {
        return None;
    }
    assert(all[start as int] == lines@[start as int]@);
    let prefix_chars = text::chars_of(prefix);
    let line = lines[start];
    let rest = slice_subrange(line, prefix_chars.len(), line.len());
    let words = text::words_of(rest);
    let end: usize = find_line(lines, "m=", start + 1);
    Some(SectionLines { start, end, words })
}

fn read_codecs(lines: &Vec<&[char]>, s: &SectionLines) -> (r: Vec<SdpCodec>)
    requires
        s.end <= lines@.len(),
    ensures
        codecs_of(r@) == section_codecs(text::views(lines@), s.value()),
{
    let ghost all = text::views(lines@);
    let ghost sec = s.value();
    let mut r: Vec<SdpCodec> = Vec::new();
    assert(sec.words.len() == s.words@.len());
    assert(codecs_of(r@) =~= codecs_upto(all, sec, 0));
    if s.words.len() < 2 {
        return r;
    }
    let count: usize = s.words.len() - 2;
    let mut i: usize = 0;
    while i < count
        invariant
            i <= count,
            count == s.words@.len() - 2,
            s.end <= lines@.len(),
            all == text::views(lines@),
            sec == s.value(),
            codecs_of(r@) == codecs_upto(all, sec, i as int),
        decreases count - i,
    {
        assert(sec.words[i + 2] == s.words@[i + 2]@);
        let total: usize = s.words.len();
        assert(i + 2 < total);
        let ghost known = codecs_of(r@);
        if let Some(pt) = read_payload(s.words[i + 2]) {
            if let Some(c) = read_codec(lines, s.start, s.end, pt) {
                let name = text::chars_of(c.name.as_str());
                if !text::is_alike_text(name.as_slice(), "telephone-event") {
                    let ghost value = c@;
                    r.push(c);
                    assert(codecs_of(r@) =~= known.push(value));
                }
            }
        }
        i += 1;
    }
    r
}

/// What a description says of its audio.
pub open spec fn audio_of(body: Seq<u8>) -> Result<Audio, Seq<char>> {
    let lines = text::lines(utf8::lossy_text(body));
    match section_of(lines, "m=audio "@) {
        None => Err("sdp_audio_missing"@),
        Some(s) => {
            let port = if s.words.len() > 0 {
                text::unsigned(s.words[0], u16::MAX as nat)
            } else {
                None
            };
            let address = match connection_of(lines, s) {
                Some(c) => address_of(c),
                None => None,
            };
            if port is None {
                Err("sdp_audio_port_invalid"@)
            } else if address is None {
                Err("sdp_connection_missing"@)
            } else {
                let (addr_type, addr) = address->0;
                Ok(
                    Audio {
                        addr,
                        addr_type,
                        port: port->0 as u16,
                        codecs: section_codecs(lines, s),
                        direction: direction_from(lines, s.start, s.end),
                    },
                )
            }
        },
    }
}

fn read_connection<'a>(lines: &Vec<&'a [char]>, s: &SectionLines) -> (r: Option<
    (SdpAddrType, &'a [char]),
>)
    requires
        s.end <= lines@.len(),
    ensures
        match r {
            Some((t, a)) => connection_of(text::views(lines@), s.value()) is Some && address_of(
                connection_of(text::views(lines@), s.value())->0,
            ) == Some((t, a@)),
            None => connection_of(text::views(lines@), s.value()) is None || address_of(
                connection_of(text::views(lines@), s.value())->0,
            ) is None,
        },
{
    let own = find_value(lines, "c=IN ", s.start, s.end);
    let connection = match own {
        Some(c) => Some(c),
        None => {
            let first: usize = find_line(lines, "m=", 0);
            find_value(lines, "c=IN ", 0, first)
        },
    };
    match connection {
        Some(c) => read_address(c),
        None => None,
    }
}

pub fn parse_audio_sdp(body: &[u8]) -> (r: Result<SdpAudioDescription, ImsError>)
    ensures
        match r {
            Ok(a) => audio_of(body@) == Ok::<_, Seq<char>>(a@),
            Err(e) => audio_of(body@) == Err::<Audio, _>(e.code_spec()),
        },
{
    let words = utf8::decode_lossy(body);
    let chars = text::chars_of(words.as_str());
    let lines = text::lines_of(chars.as_slice());
    match read_section(&lines, "m=audio ") {
        None => Err(ImsError::new("sdp_audio_missing")),
        Some(s) => {
            assert(s.value().words.len() == s.words@.len());
            if s.words.len() == 0 {
                return Err(ImsError::new("sdp_audio_port_invalid"));
            }
            assert(s.value().words[0] == s.words@[0]@);
            match text::parse_u16(s.words[0]) {
                None => Err(ImsError::new("sdp_audio_port_invalid")),
                Some(media_port) => match read_connection(&lines, &s) {
                    None => Err(ImsError::new("sdp_connection_missing")),
                    Some((addr_type, addr)) => Ok(
                        SdpAudioDescription {
                            connection_addr: text::string_of(addr),
                            addr_type,
                            media_port,
                            codecs: read_codecs(&lines, &s),
                            direction: read_direction(&lines, s.start, s.end),
                        },
                    ),
                },
            }
        },
    }
}

/// The telephone event that a description offers in its audio.
pub open spec fn telephone_event_of(body: Seq<u8>) -> Option<ToneEvent> {
    let lines = text::lines(utf8::lossy_text(body));
    match section_of(lines, "m=audio "@) {
        Some(s) => tone_from(lines, s, 0),
        None => None,
    }
}

pub fn parse_rtp_telephone_event(body: &[u8]) -> (r: Option<RtpTelephoneEvent>)
    ensures
        match r {
            Some(t) => telephone_event_of(body@) == Some(t@),
            None => telephone_event_of(body@) is None,
        },
{
    let words = utf8::decode_lossy(body);
    let chars = text::chars_of(words.as_str());
    let lines = text::lines_of(chars.as_slice());
    let ghost all = text::views(lines@);
    match read_section(&lines, "m=audio ") {
        None => None,
        Some(s) => {
            let ghost sec = s.value();
            assert(sec.words.len() == s.words@.len());
            if s.words.len() < 2 {
                return None;
            }
            let count: usize = s.words.len() - 2;
            let mut i: usize = 0;
            while i < count
                invariant
                    i <= count,
                    count == s.words@.len() - 2,
                    s.end <= lines@.len(),
                    all == text::views(lines@),
                    all == text::lines(utf8::lossy_text(body@)),
                    sec == s.value(),
                    section_of(all, "m=audio "@) == Some(sec),
                    tone_from(all, sec, 0) == tone_from(all, sec, i as int),
                decreases count - i,
            {
                assert(sec.words[i + 2] == s.words@[i + 2]@);
                let total: usize = s.words.len();
                assert(i + 2 < total);
                if let Some(pt) = read_payload(s.words[i + 2]) {
                    if let Some(c) = read_codec(&lines, s.start, s.end, pt) {
                        let name = text::chars_of(c.name.as_str());
                        if text::is_alike_text(name.as_slice(), "telephone-event") {
                            return Some(
                                RtpTelephoneEvent {
                                    payload_type: c.payload_type,
                                    clock_rate: c.clock_rate,
                                    events: c.fmtp,
                                },
                            );
                        }
                    }
                }
                i += 1;
            }
            None
        },
    }
}

/// The first codec of a section.
pub open spec fn first_codec(lines: Seq<Seq<char>>, s: Section) -> Option<Codec> {
    let codecs = section_codecs(lines, s);
    if codecs.len() > 0 {
        Some(codecs[0])
    } else {
        None
    }
}

/// What a description says of its video.
pub open spec fn video_of(body: Seq<u8>) -> Result<Video, Seq<char>> {
    let lines = text::lines(utf8::lossy_text(body));
    match section_of(lines, "m=video "@) {
        None => Err("sdp_video_missing"@),
        Some(s) => {
            let port = if s.words.len() > 0 {
                text::unsigned(s.words[0], u16::MAX as nat)
            } else {
                None
            };
            let address = match value_in(lines, "c=IN "@, s.start, s.end) {
                Some(c) => address_of(c),
                None => None,
            };
            if port is None {
                Err("sdp_video_port_invalid"@)
            } else if first_codec(lines, s) is None {
                Err("sdp_video_codec_missing"@)
            } else {
                Ok(
                    Video {
                        codec: first_codec(lines, s)->0,
                        port: port->0 as u16,
                        addr: match address {
                            Some((_, a)) => Some(a),
                            None => None,
                        },
                        addr_type: match address {
                            Some((t, _)) => Some(t),
                            None => None,
                        },
                        direction: direction_from(lines, s.start, s.end),
                    },
                )
            }
        },
    }
}

pub fn parse_video_sdp(body: &[u8]) -> (r: Result<VideoMediaDescription, ImsError>)
    ensures
        match r {
            Ok(v) => video_of(body@) == Ok::<_, Seq<char>>(v@),
            Err(e) => video_of(body@) == Err::<Video, _>(e.code_spec()),
        },
{
    let words = utf8::decode_lossy(body);
    let chars = text::chars_of(words.as_str());
    let lines = text::lines_of(chars.as_slice());
    match read_section(&lines, "m=video ") {
        None => Err(ImsError::new("sdp_video_missing")),
        Some(s) => {
            assert(s.value().words.len() == s.words@.len());
            if s.words.len() == 0 {
                return Err(ImsError::new("sdp_video_port_invalid"));
            }
            assert(s.value().words[0] == s.words@[0]@);
            match text::parse_u16(s.words[0]) {
                None => Err(ImsError::new("sdp_video_port_invalid")),
                Some(media_port) => {
                    let codecs = read_codecs(&lines, &s);
                    assert(codecs_of(codecs@).len() == codecs@.len());
                    if codecs.len() == 0 {
                        return Err(ImsError::new("sdp_video_codec_missing"));
                    }
                    assert(codecs_of(codecs@)[0] == codecs@[0]@);
                    let address = match find_value(&lines, "c=IN ", s.start, s.end) {
                        Some(c) => read_address(c),
                        None => None,
                    };
                    let (addr_type, connection_addr) = match address {
                        Some((t, a)) => (Some(t), Some(text::string_of(a))),
                        None => (None, None),
                    };
                    Ok(
                        VideoMediaDescription {
                            codec: codecs[0].copy(),
                            media_port,
                            connection_addr,
                            addr_type,
                            direction: read_direction(&lines, s.start, s.end),
                        },
                    )
                },
            }
        },
    }
}


// ------------------------------------------------------------------ negotiation

/// Do two codecs carry the same media? The name may differ in case, and the
/// format parameters of EVS select one of its variants.
pub open spec fn codecs_match(a: Codec, b: Codec) -> bool {
    &&& text::alike(a.name, b.name)
    &&& a.clock_rate == b.clock_rate
    &&& a.channels == b.channels
    &&& text::alike(a.name, "EVS"@) ==> a.fmtp == b.fmtp
}

/// The codec from `i` on that carries the same media.
pub open spec fn matching_from(codecs: Seq<Codec>, wanted: Codec, i: int) -> Option<Codec>
    decreases codecs.len() - i,
{
    if i < 0 || i >= codecs.len() {
        None
    } else if codecs_match(wanted, codecs[i]) {
        Some(codecs[i])
    } else {
        matching_from(codecs, wanted, i + 1)
    }
}

pub open spec fn matching_codec(codecs: Seq<Codec>, wanted: Codec) -> Option<Codec> {
    matching_from(codecs, wanted, 0)
}

fn opt_text_same(a: &Option<String>, b: &Option<String>) -> (r: bool)
    ensures
        r == (text::opt_text(*a) == text::opt_text(*b)),
{
    match (a, b) {
        (Some(a), Some(b)) => text::str_same(a.as_str(), b.as_str()),
        (None, None) => true,
        _ => false,
    }
}

fn is_match(a: &SdpCodec, b: &SdpCodec) -> (r: bool)
    ensures
        r == codecs_match(a@, b@),
{
    let name = text::chars_of(a.name.as_str());
    let name = name.as_slice();
    text::is_alike_text(name, b.name.as_str()) && a.clock_rate == b.clock_rate && a.channels
        == b.channels && (!text::is_alike_text(name, "EVS") || opt_text_same(&a.fmtp, &b.fmtp))
}

impl SdpAudioDescription {
    pub fn find_matching_codec(&self, wanted: &SdpCodec) -> (r: Option<&SdpCodec>)
        ensures
            match r {
                Some(c) => matching_codec(self@.codecs, wanted@) == Some(c@),
                None => matching_codec(self@.codecs, wanted@) is None,
            },
    {
        let ghost all = self@.codecs;
        let mut i: usize = 0;
        while i < self.codecs.len()
            invariant
                i <= self.codecs@.len(),
                all == codecs_of(self.codecs@),
                all == self@.codecs,
                matching_codec(all, wanted@) == matching_from(all, wanted@, i as int),
            decreases self.codecs@.len() - i,
        {
            assert(all[i as int] == self.codecs@[i as int]@);
            if is_match(wanted, &self.codecs[i]) {
                return Some(&self.codecs[i]);
            }
            i += 1;
        }
        None
    }
}

/// What keeps an offered and an answered video from working together.
pub open spec fn video_fault(offer: Video, answer: Video) -> Option<Seq<char>> {
    if !text::alike(offer.codec.name, answer.codec.name) || offer.codec.clock_rate
        != answer.codec.clock_rate {
        Some("video_codec_mismatch"@)
    } else {
        None
    }
}

pub fn negotiate_video(offer: &VideoMediaDescription, answer: &VideoMediaDescription) -> (r: Result<
    (),
    ImsError,
>)
    ensures
        match r {
            Ok(_) => video_fault(offer@, answer@) is None,
            Err(e) => video_fault(offer@, answer@) == Some(e.code_spec()),
        },
{
    let name = text::chars_of(offer.codec.name.as_str());
    if !text::is_alike_text(name.as_slice(), answer.codec.name.as_str()) || offer.codec.clock_rate
        != answer.codec.clock_rate {
        return Err(ImsError::new("video_codec_mismatch"));
    }
    Ok(())
}

// --------------------------------------------------------------------- writing

pub open spec fn addr_type_text(t: SdpAddrType) -> Seq<char> {
    match t {
        SdpAddrType::Ip4 => "IP4"@,
        SdpAddrType::Ip6 => "IP6"@,
    }
}

fn addr_type_str(t: SdpAddrType) -> (r: &'static str)
    ensures
        r@ == addr_type_text(t),
{
    match t {
        SdpAddrType::Ip4 => "IP4",
        SdpAddrType::Ip6 => "IP6",
    }
}

pub open spec fn direction_line(d: SdpDirection) -> Seq<char> {
    match d {
        SdpDirection::SendRecv => "a=sendrecv\r\n"@,
        SdpDirection::SendOnly => "a=sendonly\r\n"@,
        SdpDirection::RecvOnly => "a=recvonly\r\n"@,
        SdpDirection::Inactive => "a=inactive\r\n"@,
    }
}

fn direction_str(d: SdpDirection) -> (r: &'static str)
    ensures
        r@ == direction_line(d),
{
    match d {
        SdpDirection::SendRecv => "a=sendrecv\r\n",
        SdpDirection::SendOnly => "a=sendonly\r\n",
        SdpDirection::RecvOnly => "a=recvonly\r\n",
        SdpDirection::Inactive => "a=inactive\r\n",
    }
}

pub open spec fn connection_line(t: SdpAddrType, addr: Seq<char>) -> Seq<char> {
    "c=IN "@ + addr_type_text(t) + " "@ + addr + "\r\n"@
}

fn push_connection(out: &mut Vec<char>, t: SdpAddrType, addr: &str)
    ensures
        final(out)@ == old(out)@ + connection_line(t, addr@),
{
    let ghost start = out@;
    text::push_str(out, "c=IN ");
    text::push_str(out, addr_type_str(t));
    text::push_str(out, " ");
    text::push_str(out, addr);
    text::push_str(out, "\r\n");
    assert(out@ =~= start + connection_line(t, addr@));
}

pub open spec fn format_line(payload_type: u8, format: Option<Seq<char>>) -> Seq<char> {
    match format {
        Some(f) => attribute_prefix("a=fmtp:"@, payload_type) + f + "\r\n"@,
        None => seq![],
    }
}

fn push_format(out: &mut Vec<char>, payload_type: u8, format: &Option<String>)
    ensures
        final(out)@ == old(out)@ + format_line(payload_type, text::opt_text(*format)),
{
    let ghost start = out@;
    match format {
        Some(f) => {
            let name = attribute("a=fmtp:", payload_type);
            text::push_str(out, name.as_str());
            text::push_str(out, f.as_str());
            text::push_str(out, "\r\n");
            assert(out@ =~= start + format_line(payload_type, Some(f@)));
        },
        None => {
            assert(out@ =~= start + seq![]);
        },
    }
}

pub open spec fn channels_text(n: u32) -> Seq<char> {
    if n == 1 {
        seq![]
    } else {
        "/"@ + text::decimal(n as nat)
    }
}

fn push_channels(out: &mut Vec<char>, n: u32)
    ensures
        final(out)@ == old(out)@ + channels_text(n),
{
    let ghost start = out@;
    if n == 1 {
        assert(out@ =~= start + seq![]);
    } else {
        text::push_str(out, "/");
        text::push_decimal(out, n as u64);
        assert(out@ =~= start + channels_text(n));
    }
}

pub open spec fn codec_lines(c: Codec) -> Seq<char> {
    attribute_prefix("a=rtpmap:"@, c.payload_type) + c.name + "/"@ + text::decimal(
        c.clock_rate as nat,
    ) + channels_text(c.channels) + "\r\n"@ + format_line(c.payload_type, c.fmtp)
}

fn push_codec(out: &mut Vec<char>, c: &SdpCodec)
    ensures
        final(out)@ == old(out)@ + codec_lines(c@),
{
    let ghost start = out@;
    let name = attribute("a=rtpmap:", c.payload_type);
    text::push_str(out, name.as_str());
    text::push_str(out, c.name.as_str());
    text::push_str(out, "/");
    text::push_decimal(out, c.clock_rate as u64);
    push_channels(out, c.channels);
    text::push_str(out, "\r\n");
    push_format(out, c.payload_type, &c.fmtp);
    assert(out@ =~= start + codec_lines(c@));
}

pub open spec fn payloads_text(codecs: Seq<Codec>, n: int) -> Seq<char>
    decreases n,
{
    if n <= 0 {
        seq![]
    } else {
        payloads_text(codecs, n - 1) + " "@ + text::decimal(codecs[n - 1].payload_type as nat)
    }
}

fn push_payloads(out: &mut Vec<char>, codecs: &Vec<SdpCodec>)
    ensures
        final(out)@ == old(out)@ + payloads_text(codecs_of(codecs@), codecs@.len() as int),
{
    let ghost start = out@;
    let ghost all = codecs_of(codecs@);
    let mut i: usize = 0;
    assert(out@ =~= start + payloads_text(all, 0));
    while i < codecs.len()
        invariant
            i <= codecs@.len(),
            all == codecs_of(codecs@),
            out@ == start + payloads_text(all, i as int),
        decreases codecs@.len() - i,
    {
        assert(all[i as int] == codecs@[i as int]@);
        text::push_str(out, " ");
        text::push_decimal(out, codecs[i].payload_type as u64);
        i += 1;
        assert(out@ =~= start + payloads_text(all, i as int));
    }
}

pub open spec fn codecs_text(codecs: Seq<Codec>, n: int) -> Seq<char>
    decreases n,
{
    if n <= 0 {
        seq![]
    } else {
        codecs_text(codecs, n - 1) + codec_lines(codecs[n - 1])
    }
}

fn push_codecs(out: &mut Vec<char>, codecs: &Vec<SdpCodec>)
    ensures
        final(out)@ == old(out)@ + codecs_text(codecs_of(codecs@), codecs@.len() as int),
{
    let ghost start = out@;
    let ghost all = codecs_of(codecs@);
    let mut i: usize = 0;
    assert(out@ =~= start + codecs_text(all, 0));
    while i < codecs.len()
        invariant
            i <= codecs@.len(),
            all == codecs_of(codecs@),
            out@ == start + codecs_text(all, i as int),
        decreases codecs@.len() - i,
    {
        assert(all[i as int] == codecs@[i as int]@);
        push_codec(out, &codecs[i]);
        i += 1;
        assert(out@ =~= start + codecs_text(all, i as int));
    }
}

pub open spec fn origin_line(t: SdpAddrType, addr: Seq<char>) -> Seq<char> {
    "v=0\r\no=- 1 1 IN "@ + addr_type_text(t) + " "@ + addr + "\r\ns=-\r\n"@
}

fn push_origin(out: &mut Vec<char>, t: SdpAddrType, addr: &str)
    ensures
        final(out)@ == old(out)@ + origin_line(t, addr@),
{
    let ghost start = out@;
    text::push_str(out, "v=0\r\no=- 1 1 IN ");
    text::push_str(out, addr_type_str(t));
    text::push_str(out, " ");
    text::push_str(out, addr);
    text::push_str(out, "\r\ns=-\r\n");
    assert(out@ =~= start + origin_line(t, addr@));
}

/// A description of one audio stream.
pub open spec fn audio_text(a: Audio) -> Seq<char> {
    origin_line(a.addr_type, a.addr) + connection_line(a.addr_type, a.addr)
        + "t=0 0\r\nm=audio "@ + text::decimal(a.port as nat) + " RTP/AVP"@ + payloads_text(
        a.codecs,
        a.codecs.len() as int,
    ) + "\r\n"@ + codecs_text(a.codecs, a.codecs.len() as int) + direction_line(a.direction)
}

impl SdpAudioDescription {
    pub fn to_sdp(&self) -> (r: String)
        ensures
            r@ == audio_text(self@),
    {
        let mut out: Vec<char> = Vec::new();
        push_origin(&mut out, self.addr_type, self.connection_addr.as_str());
        push_connection(&mut out, self.addr_type, self.connection_addr.as_str());
        text::push_str(&mut out, "t=0 0\r\nm=audio ");
        text::push_decimal(&mut out, self.media_port as u64);
        text::push_str(&mut out, " RTP/AVP");
        push_payloads(&mut out, &self.codecs);
        text::push_str(&mut out, "\r\n");
        push_codecs(&mut out, &self.codecs);
        text::push_str(&mut out, direction_str(self.direction));
        assert(out@ =~= audio_text(self@));
        text::string_of(out.as_slice())
    }
}

pub open spec fn video_connection(v: Video) -> Seq<char> {
    match (v.addr_type, v.addr) {
        (Some(t), Some(a)) => connection_line(t, a),
        _ => seq![],
    }
}

/// The section of one video stream.
pub open spec fn video_text(v: Video) -> Seq<char> {
    "m=video "@ + text::decimal(v.port as nat) + " RTP/AVP "@ + text::decimal(
        v.codec.payload_type as nat,
    ) + "\r\n"@ + video_connection(v) + codec_lines(v.codec) + direction_line(v.direction)
}

impl VideoMediaDescription {
    pub fn media_lines(&self) -> (r: String)
        ensures
            r@ == video_text(self@),
    {
        let mut out: Vec<char> = Vec::new();
        text::push_str(&mut out, "m=video ");
        text::push_decimal(&mut out, self.media_port as u64);
        text::push_str(&mut out, " RTP/AVP ");
        text::push_decimal(&mut out, self.codec.payload_type as u64);
        text::push_str(&mut out, "\r\n");
        let ghost head = out@;
        match (&self.addr_type, &self.connection_addr) {
            (Some(t), Some(a)) => {
                push_connection(&mut out, *t, a.as_str());
            },
            _ => {
                assert(out@ =~= head + seq![]);
            },
        }
        assert(out@ == head + video_connection(self@));
        push_codec(&mut out, &self.codec);
        text::push_str(&mut out, direction_str(self.direction));
        assert(out@ =~= video_text(self@));
        text::string_of(out.as_slice())
    }
}

} // verus!
