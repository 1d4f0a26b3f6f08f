//! The media of a call: what is offered on either side, and how it is relayed.

use crate::ip_text;
use crate::net::{IpAddr, SocketAddr};
use crate::sdp::{
    negotiate_video, parse_audio_sdp, parse_rtp_telephone_event, parse_video_sdp,
    RtpTelephoneEvent, SdpAddrType, SdpAudioDescription, SdpCodec, VideoMediaDescription,
};
use crate::{sdp, text};
use vstd::prelude::*;

verus! {

#[derive(Debug, Clone, Copy, PartialEq, Eq, Structural)]
pub enum DtmfSource {
    RtpEvent,
    SipInfo,
}

#[derive(Debug, Clone, Copy, PartialEq, Eq, Structural)]
pub struct DtmfSignal {
    pub digit: char,
    pub duration_ms: u32,
    pub source: DtmfSource,
}

#[derive(Debug, PartialEq, Eq)]
pub struct DtmfCapabilities {
    pub rtp_event: Option<RtpTelephoneEvent>,
    pub sip_info: bool,
    pub preferred: DtmfSource,
}

#[derive(Debug, PartialEq, Eq)]
pub struct VideoOffer {
    pub description: VideoMediaDescription,
    pub endpoint: SocketAddr,
}

#[derive(Debug, PartialEq, Eq)]
pub struct MediaOffer {
    pub audio: SdpAudioDescription,
    pub audio_endpoint: SocketAddr,
    pub video: Option<VideoOffer>,
    pub dtmf: DtmfCapabilities,
}

/// A payload type that the two sides number differently.
#[derive(Debug, Clone, Copy, PartialEq, Eq, Structural)]
pub struct PayloadTypeMapping {
    pub operator: u8,
    pub internal: u8,
}

// --------------------------------------------------------------------- models

pub struct Dtmf {
    pub rtp_event: Option<sdp::ToneEvent>,
    pub sip_info: bool,
    pub preferred: DtmfSource,
}

pub struct OfferedVideo {
    pub description: sdp::Video,
    pub endpoint: SocketAddr,
}

pub struct Offer {
    pub audio: sdp::Audio,
    pub endpoint: SocketAddr,
    pub video: Option<OfferedVideo>,
    pub dtmf: Dtmf,
}

pub open spec fn opt_tone(o: Option<RtpTelephoneEvent>) -> Option<sdp::ToneEvent> {
    match o {
        Some(t) => Some(t@),
        None => None,
    }
}

impl View for DtmfCapabilities {
    type V = Dtmf;

    open spec fn view(&self) -> Dtmf {
        Dtmf {
            rtp_event: opt_tone(self.rtp_event),
            sip_info: self.sip_info,
            preferred: self.preferred,
        }
    }
}

impl View for VideoOffer {
    type V = OfferedVideo;

    open spec fn view(&self) -> OfferedVideo {
        OfferedVideo { description: self.description@, endpoint: self.endpoint }
    }
}

impl View for MediaOffer {
    type V = Offer;

    open spec fn view(&self) -> Offer {
        Offer {
            audio: self.audio@,
            endpoint: self.audio_endpoint,
            video: match self.video {
                Some(v) => Some(v@),
                None => None,
            },
            dtmf: self.dtmf@,
        }
    }
}

// ---------------------------------------------------------------- descriptions

pub open spec fn family_of(ip: IpAddr) -> SdpAddrType {
    match ip {
        IpAddr::V4(_) => SdpAddrType::Ip4,
        IpAddr::V6(_) => SdpAddrType::Ip6,
    }
}

fn addr_type_of(ip: IpAddr) -> (r: SdpAddrType)
    ensures
        r == family_of(ip),
{
    match ip {
        IpAddr::V4(_) => SdpAddrType::Ip4,
        IpAddr::V6(_) => SdpAddrType::Ip6,
    }
}

pub open spec fn audio_at(a: sdp::Audio, local: SocketAddr) -> sdp::Audio {
    sdp::Audio {
        addr: ip_text::ip_form(local.ip),
        addr_type: family_of(local.ip),
        port: local.port,
        ..a
    }
}

pub open spec fn video_at(v: sdp::Video, local: SocketAddr) -> sdp::Video {
    sdp::Video {
        addr: Some(ip_text::ip_form(local.ip)),
        addr_type: Some(family_of(local.ip)),
        port: local.port,
        ..v
    }
}

pub open spec fn tone_lines(t: sdp::ToneEvent) -> Seq<char> {
    let number = text::decimal(t.payload_type as nat);
    let head = "a=rtpmap:"@ + number + " telephone-event/"@ + text::decimal(t.clock_rate as nat)
        + "\r\n"@;
    match t.events {
        Some(events) => head + "a=fmtp:"@ + number + " "@ + events + "\r\n"@,
        None => head,
    }
}

pub open spec fn is_direction(line: Seq<char>) -> bool {
    text::starts(line, "a=send"@) || line == "a=recvonly"@ || line == "a=inactive"@
}

/// One line of a description to which a telephone event is added: its payload
/// type to the media line, its attributes before the direction.
pub open spec fn relayed_line(line: Seq<char>, t: sdp::ToneEvent) -> Seq<char> {
    if text::starts(line, "m=audio "@) {
        line + " "@ + text::decimal(t.payload_type as nat) + "\r\n"@
    } else if is_direction(line) {
        tone_lines(t) + line + "\r\n"@
    } else {
        line + "\r\n"@
    }
}

pub open spec fn relayed_upto(lines: Seq<Seq<char>>, t: sdp::ToneEvent, n: int) -> Seq<char>
    decreases n,
{
    if n <= 0 {
        seq![]
    } else {
        relayed_upto(lines, t, n - 1) + relayed_line(lines[n - 1], t)
    }
}

/// An audio description that sends media to a local endpoint.
pub open spec fn relay_audio_text(
    a: sdp::Audio,
    dtmf: Option<sdp::ToneEvent>,
    local: SocketAddr,
) -> Seq<char> {
    let base = sdp::audio_text(audio_at(a, local));
    match dtmf {
        Some(t) => relayed_upto(text::lines(base), t, text::lines(base).len() as int),
        None => base,
    }
}

fn push_tone(out: &mut Vec<char>, t: &RtpTelephoneEvent)
    ensures
        final(out)@ == old(out)@ + tone_lines(t@),
{
    let ghost start = out@;
    text::push_str(out, "a=rtpmap:");
    text::push_decimal(out, t.payload_type as u64);
    text::push_str(out, " telephone-event/");
    text::push_decimal(out, t.clock_rate as u64);
    text::push_str(out, "\r\n");
    if let Some(events) = &t.events {
        text::push_str(out, "a=fmtp:");
        text::push_decimal(out, t.payload_type as u64);
        text::push_str(out, " ");
        text::push_str(out, events.as_str());
        text::push_str(out, "\r\n");
    }
    assert(out@ =~= start + tone_lines(t@));
}

fn push_relayed(out: &mut Vec<char>, line: &[char], t: &RtpTelephoneEvent)
    ensures
        final(out)@ == old(out)@ + relayed_line(line@, t@),
{
    let ghost start = out@;
    if text::has_prefix(line, "m=audio ") {
        text::push_slice(out, line);
        text::push_str(out, " ");
        text::push_decimal(out, t.payload_type as u64);
        text::push_str(out, "\r\n");
        assert(out@ =~= start + relayed_line(line@, t@));
        return;
    }
    if text::has_prefix(line, "a=send") || text::is_text(line, "a=recvonly") || text::is_text(
        line,
        "a=inactive",
    ) {
        push_tone(out, t);
    }
    text::push_slice(out, line);
    text::push_str(out, "\r\n");
    assert(out@ =~= start + relayed_line(line@, t@));
}

pub fn relay_audio_sdp(
    description: &SdpAudioDescription,
    dtmf: &Option<RtpTelephoneEvent>,
    local: SocketAddr,
) -> (r: String)
    ensures
        r@ == relay_audio_text(description@, opt_tone(*dtmf), local),
{
    let mut audio = description.copy();
    audio.connection_addr = ip_text::ip_string(local.ip);
    audio.addr_type = addr_type_of(local.ip);
    audio.media_port = local.port;
    let base = audio.to_sdp();
    assert(audio@ == audio_at(description@, local));
    match dtmf {
        None => base,
        Some(t) => {
            let chars = text::chars_of(base.as_str());
            let lines = text::lines_of(chars.as_slice());
            let ghost all = text::lines(base@);
            let mut out: Vec<char> = Vec::new();
            let mut i: usize = 0;
            assert(lines@.len() == text::views(lines@).len());
            assert(out@ =~= relayed_upto(all, t@, 0));
            while i < lines.len()
                invariant
                    i <= lines@.len(),
                    all == text::views(lines@),
                    out@ == relayed_upto(all, t@, i as int),
                decreases lines@.len() - i,
            {
                assert(all[i as int] == lines@[i as int]@);
                push_relayed(&mut out, lines[i], t);
                i += 1;
            }
            text::string_of(out.as_slice())
        },
    }
}

/// A media offer that sends media to local endpoints.
pub open spec fn relay_media_text(
    offer: Offer,
    audio_local: SocketAddr,
    video_local: Option<SocketAddr>,
) -> Seq<char> {
    let audio = relay_audio_text(offer.audio, offer.dtmf.rtp_event, audio_local);
    match (offer.video, video_local) {
        (Some(video), Some(local)) => audio + sdp::video_text(video_at(video.description, local)),
        _ => audio,
    }
}

fn moved_video(description: &VideoMediaDescription, local: SocketAddr) -> (r: VideoMediaDescription)
    ensures
        r@ == video_at(description@, local),
{
    let mut video = description.copy();
    video.media_port = local.port;
    video.connection_addr = Some(ip_text::ip_string(local.ip));
    video.addr_type = Some(addr_type_of(local.ip));
    video
}

fn joined(first: &str, second: &str) -> (r: String)
    ensures
        r@ == first@ + second@,
{
    let mut out = text::chars_of(first);
    text::push_str(&mut out, second);
    text::string_of(out.as_slice())
}

pub fn relay_media_sdp(
    offer: &MediaOffer,
    audio_local: SocketAddr,
    video_local: Option<SocketAddr>,
) -> (r: String)
    ensures
        r@ == relay_media_text(offer@, audio_local, video_local),
{
    let audio = relay_audio_sdp(&offer.audio, &offer.dtmf.rtp_event, audio_local);
    match (&offer.video, video_local) {
        (Some(video), Some(local)) => {
            let lines = moved_video(&video.description, local).media_lines();
            joined(audio.as_str(), lines.as_str())
        },
        _ => audio,
    }
}

// ------------------------------------------------------------------- endpoints

pub open spec fn endpoint_of(a: sdp::Audio) -> Result<SocketAddr, Seq<char>> {
    match ip_text::ip_text(a.addr) {
        None => Err("vowifi_media_address_invalid"@),
        Some(ip) => if a.port == 0 {
            Err("vowifi_media_port_invalid"@)
        } else {
            Ok(SocketAddr { ip, port: a.port })
        },
    }
}

pub fn media_endpoint(audio: &SdpAudioDescription) -> (r: Result<SocketAddr, &'static str>)
    ensures
        match r {
            Ok(a) => endpoint_of(audio@) == Ok::<_, Seq<char>>(a),
            Err(e) => endpoint_of(audio@) == Err::<SocketAddr, _>(e@),
        },
{
    match ip_text::parse_ip(audio.connection_addr.as_str()) {
        None => Err("vowifi_media_address_invalid"),
        Some(ip) => {
            if audio.media_port == 0 {
                return Err("vowifi_media_port_invalid");
            }
            Ok(SocketAddr { ip, port: audio.media_port })
        },
    }
}

/// A video without an address of its own is sent where the audio is.
pub open spec fn video_endpoint_of(a: sdp::Audio, v: sdp::Video) -> Result<SocketAddr, Seq<char>> {
    let addr = match v.addr {
        Some(addr) => addr,
        None => a.addr,
    };
    match ip_text::ip_text(addr) {
        None => Err("vowifi_video_address_invalid"@),
        Some(ip) => if v.port == 0 {
            Err("vowifi_video_port_invalid"@)
        } else {
            Ok(SocketAddr { ip, port: v.port })
        },
    }
}

pub fn media_endpoint_for_video(audio: &SdpAudioDescription, video: &VideoMediaDescription) -> (r:
    Result<SocketAddr, &'static str>)
    ensures
        match r {
            Ok(a) => video_endpoint_of(audio@, video@) == Ok::<_, Seq<char>>(a),
            Err(e) => video_endpoint_of(audio@, video@) == Err::<SocketAddr, _>(e@),
        },
{
    let ip = match &video.connection_addr {
        Some(addr) => ip_text::parse_ip(addr.as_str()),
        None => ip_text::parse_ip(audio.connection_addr.as_str()),
    };
    match ip {
        None => Err("vowifi_video_address_invalid"),
        Some(ip) => {
            if video.media_port == 0 {
                return Err("vowifi_video_port_invalid");
            }
            Ok(SocketAddr { ip, port: video.media_port })
        },
    }
}

// ---------------------------------------------------------------- payload types

/// A mapping where two payload types differ.
pub open spec fn mapping(operator: u8, internal: u8) -> Seq<PayloadTypeMapping> {
    if operator != internal {
        seq![PayloadTypeMapping { operator, internal }]
    } else {
        seq![]
    }
}

pub open spec fn mappings_upto(operator: Seq<sdp::Codec>, internal: Seq<sdp::Codec>, n: int) -> Seq<
    PayloadTypeMapping,
>
    decreases n,
{
    if n <= 0 {
        seq![]
    } else {
        let known = mappings_upto(operator, internal, n - 1);
        match sdp::matching_codec(internal, operator[n - 1]) {
            Some(c) => known + mapping(operator[n - 1].payload_type, c.payload_type),
            None => known,
        }
    }
}

/// How the payload types of two sides relate, the telephone event last.
pub open spec fn mappings_of(
    operator: Seq<sdp::Codec>,
    internal: Seq<sdp::Codec>,
    operator_dtmf: Option<sdp::ToneEvent>,
    internal_dtmf: Option<sdp::ToneEvent>,
) -> Seq<PayloadTypeMapping> {
    let codecs = mappings_upto(operator, internal, operator.len() as int);
    match (operator_dtmf, internal_dtmf) {
        (Some(o), Some(i)) => codecs + mapping(o.payload_type, i.payload_type),
        _ => codecs,
    }
}

fn push_mapping(out: &mut Vec<PayloadTypeMapping>, operator: u8, internal: u8)
    ensures
        final(out)@ == old(out)@ + mapping(operator, internal),
{
    let ghost start = out@;
    if operator != internal {
        out.push(PayloadTypeMapping { operator, internal });
    }
    assert(out@ =~= start + mapping(operator, internal));
}

pub fn payload_mappings(
    operator: &SdpAudioDescription,
    internal: &SdpAudioDescription,
    operator_dtmf: &Option<RtpTelephoneEvent>,
    internal_dtmf: &Option<RtpTelephoneEvent>,
) -> (r: Vec<PayloadTypeMapping>)
    ensures
        r@ == mappings_of(
            operator@.codecs,
            internal@.codecs,
            opt_tone(*operator_dtmf),
            opt_tone(*internal_dtmf),
        ),
{
    let ghost all = operator@.codecs;
    let mut r: Vec<PayloadTypeMapping> = Vec::new();
    let mut i: usize = 0;
    assert(r@ =~= mappings_upto(all, internal@.codecs, 0));
    while i < operator.codecs.len()
        invariant
            i <= operator.codecs@.len(),
            all == sdp::codecs_of(operator.codecs@),
            r@ == mappings_upto(all, internal@.codecs, i as int),
        decreases operator.codecs@.len() - i,
    {
        assert(all[i as int] == operator.codecs@[i as int]@);
        match internal.find_matching_codec(&operator.codecs[i]) {
            Some(c) => {
                push_mapping(&mut r, operator.codecs[i].payload_type, c.payload_type);
            },
            None => {},
        }
        i += 1;
    }
    match (operator_dtmf, internal_dtmf) {
        (Some(o), Some(i)) => {
            push_mapping(&mut r, o.payload_type, i.payload_type);
        },
        _ => {},
    }
    r
}

// ------------------------------------------------------------------ call media

/// A relay in operation: its two far ends and how payload types are renumbered.
#[derive(Debug, PartialEq, Eq)]
pub struct ActiveRelay {
    pub relay: u64,
    pub operator: SocketAddr,
    pub internal: SocketAddr,
    pub mappings: Vec<PayloadTypeMapping>,
}

pub struct Active {
    pub relay: u64,
    pub operator: SocketAddr,
    pub internal: SocketAddr,
    pub mappings: Seq<PayloadTypeMapping>,
}

impl View for ActiveRelay {
    type V = Active;

    open spec fn view(&self) -> Active {
        Active {
            relay: self.relay,
            operator: self.operator,
            internal: self.internal,
            mappings: self.mappings@,
        }
    }
}

pub open spec fn opt_active(o: Option<ActiveRelay>) -> Option<Active> {
    match o {
        Some(a) => Some(a@),
        None => None,
    }
}

/// The media side of a call. Relays are known by number.
#[derive(Debug, PartialEq, Eq)]
pub struct CallMedia {
    pub internal_offer: MediaOffer,
    pub operator_local: SocketAddr,
    pub internal_local: SocketAddr,
    pub pending_relay: Option<u64>,
    pub active_relay: Option<ActiveRelay>,
    pub pending_video_relay: Option<u64>,
    pub active_video_relay: Option<ActiveRelay>,
    pub operator_video_local: Option<SocketAddr>,
    pub internal_video_local: Option<SocketAddr>,
}

pub struct Media {
    pub offer: Offer,
    pub operator_local: SocketAddr,
    pub internal_local: SocketAddr,
    pub pending: Option<u64>,
    pub active: Option<Active>,
    pub pending_video: Option<u64>,
    pub active_video: Option<Active>,
    pub operator_video_local: Option<SocketAddr>,
    pub internal_video_local: Option<SocketAddr>,
}

impl View for CallMedia {
    type V = Media;

    open spec fn view(&self) -> Media {
        Media {
            offer: self.internal_offer@,
            operator_local: self.operator_local,
            internal_local: self.internal_local,
            pending: self.pending_relay,
            active: opt_active(self.active_relay),
            pending_video: self.pending_video_relay,
            active_video: opt_active(self.active_video_relay),
            operator_video_local: self.operator_video_local,
            internal_video_local: self.internal_video_local,
        }
    }
}

/// A pending audio relay starts between the two far ends; one that runs stays.
pub open spec fn with_audio_relay(
    m: Media,
    operator: SocketAddr,
    internal: SocketAddr,
    mappings: Seq<PayloadTypeMapping>,
) -> Media {
    match m.pending {
        Some(relay) => Media {
            pending: None,
            active: Some(Active { relay, operator, internal, mappings }),
            ..m
        },
        None => m,
    }
}

/// A pending video relay starts between the two far ends; without one, a video
/// relay has to run already.
pub open spec fn with_video_relay(
    m: Media,
    operator: SocketAddr,
    internal: SocketAddr,
    mappings: Seq<PayloadTypeMapping>,
) -> Option<Media> {
    match m.pending_video {
        Some(relay) => Some(
            Media {
                pending_video: None,
                active_video: Some(Active { relay, operator, internal, mappings }),
                ..m
            },
        ),
        None => if m.active_video is None {
            None
        } else {
            Some(m)
        },
    }
}

pub open spec fn without_video(m: Media) -> Media {
    Media { pending_video: None, active_video: None, ..m }
}

/// The codecs on the trunk side that answer the operator's.
pub open spec fn answered_upto(operator: Seq<sdp::Codec>, internal: Seq<sdp::Codec>, n: int) -> Seq<
    sdp::Codec,
>
    decreases n,
{
    if n <= 0 {
        seq![]
    } else {
        let known = answered_upto(operator, internal, n - 1);
        match sdp::matching_codec(internal, operator[n - 1]) {
            Some(c) => known.push(c),
            None => known,
        }
    }
}

/// The operator's codecs that the trunk side answered.
pub open spec fn kept_upto(operator: Seq<sdp::Codec>, internal: Seq<sdp::Codec>, n: int) -> Seq<
    sdp::Codec,
>
    decreases n,
{
    if n <= 0 {
        seq![]
    } else {
        let known = kept_upto(operator, internal, n - 1);
        match sdp::matching_codec(internal, operator[n - 1]) {
            Some(_) => known.push(operator[n - 1]),
            None => known,
        }
    }
}

pub open spec fn negotiation_error(e: Seq<char>) -> Seq<char> {
    "vowifi_video_negotiation_failed:"@ + e
}

/// The video of an operator's answer.
pub open spec fn operator_video(m: Media, a: sdp::Audio, body: Seq<u8>, answer: Seq<char>) -> (
    Media,
    Result<Seq<char>, Seq<char>>,
) {
    match (m.offer.video, sdp::video_of(body), m.operator_video_local, m.internal_video_local) {
        (Some(internal), Ok(operator), Some(_), Some(local)) => match sdp::video_fault(
            internal.description,
            operator,
        ) {
            Some(e) => (m, Err(negotiation_error(e))),
            None => match video_endpoint_of(a, operator) {
                Err(e) => (m, Err(e)),
                Ok(remote) => match with_video_relay(
                    m,
                    remote,
                    internal.endpoint,
                    mapping(operator.codec.payload_type, internal.description.codec.payload_type),
                ) {
                    None => (m, Err("vowifi_video_rtp_relay_missing"@)),
                    Some(m) => (m, Ok(answer + sdp::video_text(video_at(operator, local)))),
                },
            },
        },
        _ => (without_video(m), Ok(answer)),
    }
}

/// What an operator's answer makes of the media of a call, and the answer that
/// the trunk is given.
pub open spec fn operator_media(m: Media, body: Seq<u8>) -> (Media, Result<Seq<char>, Seq<char>>) {
    match sdp::audio_of(body) {
        Err(e) => (m, Err(e)),
        Ok(a) => match endpoint_of(a) {
            Err(e) => (m, Err(e)),
            Ok(remote) => {
                let common = answered_upto(
                    a.codecs,
                    m.offer.audio.codecs,
                    a.codecs.len() as int,
                );
                if common.len() == 0 {
                    (m, Err("vowifi_no_common_codec"@))
                } else {
                    let mappings = mappings_of(
                        a.codecs,
                        m.offer.audio.codecs,
                        sdp::telephone_event_of(body),
                        m.offer.dtmf.rtp_event,
                    );
                    let answer = relay_audio_text(
                        sdp::Audio { codecs: common, ..a },
                        m.offer.dtmf.rtp_event,
                        m.internal_local,
                    );
                    operator_video(
                        with_audio_relay(m, remote, m.offer.endpoint, mappings),
                        a,
                        body,
                        answer,
                    )
                }
            },
        },
    }
}

/// The video of a trunk's answer.
pub open spec fn incoming_video(m: Media, a: sdp::Audio, body: Seq<u8>, answer: Seq<char>) -> (
    Media,
    Result<Seq<char>, Seq<char>>,
) {
    match (m.offer.video, sdp::video_of(body), m.operator_video_local) {
        (Some(operator), Ok(internal), Some(local)) => match sdp::video_fault(
            operator.description,
            internal,
        ) {
            Some(e) => (m, Err(negotiation_error(e))),
            None => match video_endpoint_of(a, internal) {
                Err(e) => (m, Err(e)),
                Ok(remote) => match with_video_relay(
                    m,
                    operator.endpoint,
                    remote,
                    mapping(operator.description.codec.payload_type, internal.codec.payload_type),
                ) {
                    None => (m, Err("vowifi_video_rtp_relay_missing"@)),
                    Some(m) => (
                        m,
                        Ok(answer + sdp::video_text(video_at(operator.description, local))),
                    ),
                },
            },
        },
        _ => (without_video(m), Ok(answer)),
    }
}

/// What a trunk's answer makes of the media of a call, and the answer that the
/// operator is given.
pub open spec fn incoming_media(m: Media, body: Seq<u8>) -> (Media, Result<Seq<char>, Seq<char>>) {
    match sdp::audio_of(body) {
        Err(e) => (m, Err(e)),
        Ok(a) => match endpoint_of(a) {
            Err(e) => (m, Err(e)),
            Ok(remote) => {
                let offered = m.offer.audio.codecs;
                let kept = kept_upto(offered, a.codecs, offered.len() as int);
                if kept.len() == 0 {
                    (m, Err("vowifi_no_common_codec"@))
                } else {
                    let mappings = mappings_of(
                        kept,
                        a.codecs,
                        m.offer.dtmf.rtp_event,
                        sdp::telephone_event_of(body),
                    );
                    let answer = relay_audio_text(
                        sdp::Audio { codecs: kept, ..m.offer.audio },
                        m.offer.dtmf.rtp_event,
                        m.operator_local,
                    );
                    incoming_video(
                        with_audio_relay(m, m.offer.endpoint, remote, mappings),
                        a,
                        body,
                        answer,
                    )
                }
            },
        },
    }
}

pub open spec fn text_outcome(r: Result<String, String>) -> Result<Seq<char>, Seq<char>> {
    match r {
        Ok(s) => Ok(s@),
        Err(e) => Err(e@),
    }
}

fn code(s: &str) -> (r: String)
    ensures
        r@ == s@,
{
    sdp::copy_str(s)
}

fn answered_codecs(operator: &Vec<SdpCodec>, internal: &SdpAudioDescription) -> (r: Vec<SdpCodec>)
    ensures
        sdp::codecs_of(r@) == answered_upto(
            sdp::codecs_of(operator@),
            internal@.codecs,
            operator@.len() as int,
        ),
{
    let ghost all = sdp::codecs_of(operator@);
    let mut r: Vec<SdpCodec> = Vec::new();
    let mut i: usize = 0;
    assert(sdp::codecs_of(r@) =~= answered_upto(all, internal@.codecs, 0));
    while i < operator.len()
        invariant
            i <= operator@.len(),
            all == sdp::codecs_of(operator@),
            sdp::codecs_of(r@) == answered_upto(all, internal@.codecs, i as int),
        decreases operator@.len() - i,
    {
        assert(all[i as int] == operator@[i as int]@);
        let ghost known = sdp::codecs_of(r@);
        match internal.find_matching_codec(&operator[i]) {
            Some(c) => {
                r.push(c.copy());
                assert(sdp::codecs_of(r@) =~= known.push(c@));
            },
            None => {},
        }
        i += 1;
    }
    r
}

fn kept_codecs(operator: &Vec<SdpCodec>, internal: &SdpAudioDescription) -> (r: Vec<SdpCodec>)
    ensures
        sdp::codecs_of(r@) == kept_upto(
            sdp::codecs_of(operator@),
            internal@.codecs,
            operator@.len() as int,
        ),
{
    let ghost all = sdp::codecs_of(operator@);
    let mut r: Vec<SdpCodec> = Vec::new();
    let mut i: usize = 0;
    assert(sdp::codecs_of(r@) =~= kept_upto(all, internal@.codecs, 0));
    while i < operator.len()
        invariant
            i <= operator@.len(),
            all == sdp::codecs_of(operator@),
            sdp::codecs_of(r@) == kept_upto(all, internal@.codecs, i as int),
        decreases operator@.len() - i,
    {
        assert(all[i as int] == operator@[i as int]@);
        let ghost known = sdp::codecs_of(r@);
        match internal.find_matching_codec(&operator[i]) {
            Some(_) => {
                let c = operator[i].copy();
                let ghost value = c@;
                r.push(c);
                assert(sdp::codecs_of(r@) =~= known.push(value));
            },
            None => {},
        }
        i += 1;
    }
    r
}

impl CallMedia {
    fn start_audio(
        &mut self,
        operator: SocketAddr,
        internal: SocketAddr,
        mappings: Vec<PayloadTypeMapping>,
    )
        ensures
            final(self)@ == with_audio_relay(old(self)@, operator, internal, mappings@),
    {
        if let Some(relay) = self.pending_relay {
            self.pending_relay = None;
            self.active_relay = Some(ActiveRelay { relay, operator, internal, mappings });
        }
    }

    fn start_video(
        &mut self,
        operator: SocketAddr,
        internal: SocketAddr,
        operator_type: u8,
        internal_type: u8,
    ) -> (r: bool)
        ensures
            match with_video_relay(
                old(self)@,
                operator,
                internal,
                mapping(operator_type, internal_type),
            ) {
                Some(m) => r && final(self)@ == m,
                None => !r && final(self)@ == old(self)@,
            },
    {
        match self.pending_video_relay {
            Some(relay) => {
                let mut mappings: Vec<PayloadTypeMapping> = Vec::new();
                push_mapping(&mut mappings, operator_type, internal_type);
                assert(mappings@ =~= mapping(operator_type, internal_type));
                self.pending_video_relay = None;
                self.active_video_relay = Some(
                    ActiveRelay { relay, operator, internal, mappings },
                );
                true
            },
            None => self.active_video_relay.is_some(),
        }
    }

    fn drop_video(&mut self)
        ensures
            final(self)@ == without_video(old(self)@),
    {
        self.pending_video_relay = None;
        self.active_video_relay = None;
    }

    fn operator_video_answer(
        &mut self,
        audio: &SdpAudioDescription,
        body: &[u8],
        answer: String,
    ) -> (r: Result<String, String>)
        ensures
            (final(self)@, text_outcome(r)) == operator_video(old(self)@, audio@, body@, answer@),
    {
        let parsed = parse_video_sdp(body);
        let (internal_endpoint, internal_type) = match &self.internal_offer.video {
            None => {
                self.drop_video();
                return Ok(answer);
            },
            Some(internal) => {
                let operator = match &parsed {
                    Ok(v) => v,
                    Err(_) => {
                        self.drop_video();
                        return Ok(answer);
                    },
                };
                if self.operator_video_local.is_none() || self.internal_video_local.is_none() {
                    self.drop_video();
                    return Ok(answer);
                }
                match negotiate_video(&internal.description, operator) {
                    Err(e) => {
                        return Err(joined("vowifi_video_negotiation_failed:", e.code()));
                    },
                    Ok(_) => {},
                }
                (internal.endpoint, internal.description.codec.payload_type)
            },
        };
        match (parsed, self.internal_video_local) {
            (Ok(operator), Some(local)) => {
                match media_endpoint_for_video(audio, &operator) {
                    Err(e) => Err(code(e)),
                    Ok(remote) => {
                        if !self.start_video(
                            remote,
                            internal_endpoint,
                            operator.codec.payload_type,
                            internal_type,
                        ) {
                            return Err(code("vowifi_video_rtp_relay_missing"));
                        }
                        let lines = moved_video(&operator, local).media_lines();
                        Ok(joined(answer.as_str(), lines.as_str()))
                    },
                }
            },
            _ => Ok(answer),
        }
    }

    /// Takes an operator's answer: starts the relays that waited for it, and
    /// gives the answer for the trunk.
    pub fn prepare_operator_media(&mut self, body: &[u8]) -> (r: Result<String, String>)
        ensures
            (final(self)@, text_outcome(r)) == operator_media(old(self)@, body@),
    {
        let audio = match parse_audio_sdp(body) {
            Ok(a) => a,
            Err(e) => {
                return Err(code(e.code()));
            },
        };
        let remote = match media_endpoint(&audio) {
            Ok(a) => a,
            Err(e) => {
                return Err(code(e));
            },
        };
        let common = answered_codecs(&audio.codecs, &self.internal_offer.audio);
        assert(sdp::codecs_of(common@).len() == common@.len());
        assert(audio@.codecs.len() == audio.codecs@.len());
        if common.len() == 0 {
            return Err(code("vowifi_no_common_codec"));
        }
        let operator_dtmf = parse_rtp_telephone_event(body);
        let mappings = payload_mappings(
            &audio,
            &self.internal_offer.audio,
            &operator_dtmf,
            &self.internal_offer.dtmf.rtp_event,
        );
        let internal_answer = SdpAudioDescription {
            connection_addr: sdp::copy_str(audio.connection_addr.as_str()),
            addr_type: audio.addr_type,
            media_port: audio.media_port,
            codecs: common,
            direction: audio.direction,
        };
        let endpoint = self.internal_offer.audio_endpoint;
        let answer = relay_audio_sdp(
            &internal_answer,
            &self.internal_offer.dtmf.rtp_event,
            self.internal_local,
        );
        self.start_audio(remote, endpoint, mappings);
        self.operator_video_answer(&audio, body, answer)
    }

    fn incoming_video_answer(
        &mut self,
        audio: &SdpAudioDescription,
        body: &[u8],
        answer: String,
    ) -> (r: Result<String, String>)
        ensures
            (final(self)@, text_outcome(r)) == incoming_video(old(self)@, audio@, body@, answer@),
    {
        let parsed = parse_video_sdp(body);
        let (operator_endpoint, operator_type, operator_description) =
            match &self.internal_offer.video {
            None => {
                self.drop_video();
                return Ok(answer);
            },
            Some(operator) => {
                let internal = match &parsed {
                    Ok(v) => v,
                    Err(_) => {
                        self.drop_video();
                        return Ok(answer);
                    },
                };
                if self.operator_video_local.is_none() {
                    self.drop_video();
                    return Ok(answer);
                }
                match negotiate_video(&operator.description, internal) {
                    Err(e) => {
                        return Err(joined("vowifi_video_negotiation_failed:", e.code()));
                    },
                    Ok(_) => {},
                }
                (
                    operator.endpoint,
                    operator.description.codec.payload_type,
                    operator.description.copy(),
                )
            },
        };
        match (parsed, self.operator_video_local) {
            (Ok(internal), Some(local)) => {
                match media_endpoint_for_video(audio, &internal) {
                    Err(e) => Err(code(e)),
                    Ok(remote) => {
                        if !self.start_video(
                            operator_endpoint,
                            remote,
                            operator_type,
                            internal.codec.payload_type,
                        ) {
                            return Err(code("vowifi_video_rtp_relay_missing"));
                        }
                        let lines = moved_video(&operator_description, local).media_lines();
                        Ok(joined(answer.as_str(), lines.as_str()))
                    },
                }
            },
            _ => Ok(answer),
        }
    }

    /// Takes a trunk's answer: starts the relays that waited for it, and gives
    /// the answer for the operator.
    pub fn prepare_incoming_media(&mut self, body: &[u8]) -> (r: Result<String, String>)
        ensures
            (final(self)@, text_outcome(r)) == incoming_media(old(self)@, body@),
    {
        let audio = match parse_audio_sdp(body) {
            Ok(a) => a,
            Err(e) => {
                return Err(code(e.code()));
            },
        };
        let remote = match media_endpoint(&audio) {
            Ok(a) => a,
            Err(e) => {
                return Err(code(e));
            },
        };
        let kept = kept_codecs(&self.internal_offer.audio.codecs, &audio);
        assert(sdp::codecs_of(kept@).len() == kept@.len());
        assert(self@.offer.audio.codecs.len() == self.internal_offer.audio.codecs@.len());
        if kept.len() == 0 {
            return Err(code("vowifi_no_common_codec"));
        }
        let internal_dtmf = parse_rtp_telephone_event(body);
        let offered = &self.internal_offer.audio;
        let operator_answer = SdpAudioDescription {
            connection_addr: sdp::copy_str(offered.connection_addr.as_str()),
            addr_type: offered.addr_type,
            media_port: offered.media_port,
            codecs: kept,
            direction: offered.direction,
        };
        let mappings = payload_mappings(
            &operator_answer,
            &audio,
            &self.internal_offer.dtmf.rtp_event,
            &internal_dtmf,
        );
        let endpoint = self.internal_offer.audio_endpoint;
        let answer = relay_audio_sdp(
            &operator_answer,
            &self.internal_offer.dtmf.rtp_event,
            self.operator_local,
        );
        self.start_audio(endpoint, remote, mappings);
        self.incoming_video_answer(&audio, body, answer)
    }
}

} // verus!
