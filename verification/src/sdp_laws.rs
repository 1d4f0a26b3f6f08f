//! What a session description says, line by line.

use crate::address_text;
use crate::sdp;
use crate::sdp::{Audio, Codec, SdpAddrType, SdpDirection, Section, ToneEvent, Video};
use crate::text;
use crate::text_laws;
use crate::utf8;
use vstd::prelude::*;

verus! {

// --------------------------------------------------------------------------- lines

/// The lines of a description.
pub open spec fn lines_of(body: Seq<u8>) -> Seq<Seq<char>> {
    text::lines(utf8::lossy_text(body))
}

/// The first line of `from..to` that begins with a prefix is line `i`, and this follows.
pub open spec fn first_with(
    lines: Seq<Seq<char>>,
    prefix: Seq<char>,
    from: int,
    to: int,
    i: int,
    rest: Seq<char>,
) -> bool {
    &&& 0 <= from <= i < to <= lines.len()
    &&& lines[i] == prefix + rest
    &&& forall|j: int| from <= j < i ==> !text::starts(#[trigger] lines[j], prefix)
}

pub open spec fn none_with(lines: Seq<Seq<char>>, prefix: Seq<char>, from: int, to: int) -> bool {
    forall|j: int| from <= j < to ==> !text::starts(#[trigger] lines[j], prefix)
}

/// Of several lines with the same prefix the first one counts, and lines outside the part
/// that is asked for do not.
pub proof fn law_first_line_counts(
    lines: Seq<Seq<char>>,
    prefix: Seq<char>,
    from: int,
    to: int,
    i: int,
    rest: Seq<char>,
)
    requires
        0 <= from <= to <= lines.len(),
    ensures
        first_with(lines, prefix, from, to, i, rest) ==> sdp::value_in(lines, prefix, from, to)
            == Some(rest),
        none_with(lines, prefix, from, to) ==> sdp::value_in(lines, prefix, from, to) is None,
    decreases to - from,
{
    if from < to {
        text_laws::law_prefix_can_be_completed(prefix, rest, lines[from]);
        if first_with(lines, prefix, from, to, i, rest) && from < i {
            assert(!text::starts(lines[from], prefix));
            law_first_line_counts(lines, prefix, from + 1, to, i, rest);
        }
        if none_with(lines, prefix, from, to) {
            assert(!text::starts(lines[from], prefix));
            law_first_line_counts(lines, prefix, from + 1, to, i, rest);
        }
    }
}

proof fn lemma_line(lines: Seq<Seq<char>>, prefix: Seq<char>, from: int, i: int)
    requires
        0 <= from <= i <= lines.len(),
        i < lines.len() ==> text::starts(lines[i], prefix),
        none_with(lines, prefix, from, i),
    ensures
        sdp::line_with(lines, prefix, from) == i,
    decreases i - from,
{
    if from < i {
        assert(!text::starts(lines[from], prefix));
        lemma_line(lines, prefix, from + 1, i);
    }
}

/// A media section reaches from its media line to the next one.
pub open spec fn section_at(
    lines: Seq<Seq<char>>,
    prefix: Seq<char>,
    start: int,
    end: int,
    rest: Seq<char>,
) -> bool {
    &&& first_with(lines, prefix, 0, lines.len() as int, start, rest)
    &&& start < end <= lines.len()
    &&& none_with(lines, "m="@, start + 1, end)
    &&& end < lines.len() ==> text::starts(lines[end], "m="@)
}

proof fn lemma_section(
    lines: Seq<Seq<char>>,
    prefix: Seq<char>,
    start: int,
    end: int,
    rest: Seq<char>,
)
    requires
        section_at(lines, prefix, start, end, rest),
    ensures
        sdp::section_of(lines, prefix) == Some(Section { start, end, words: text::words(rest) }),
{
    text_laws::law_prefix_can_be_completed(prefix, rest, lines[start]);
    lemma_line(lines, prefix, 0, start);
    lemma_line(lines, "m="@, start + 1, end);
    let l = lines[start];
    assert(l.subrange(prefix.len() as int, l.len() as int) =~= rest);
}

// --------------------------------------------------------------------------- codecs

/// A name that stands in an encoding.
pub open spec fn plain_name(name: Seq<char>) -> bool {
    &&& name.len() > 0
    &&& text_laws::without(name, '/')
    &&& !text::white(name[0])
}

/// An encoding is its name, its clock rate and, where there is more than one, its channels.
pub proof fn law_encoding_is_read(name: Seq<char>, clock: u32, channels: u32)
    requires
        plain_name(name),
    ensures
        sdp::encoding_of(name.push('/') + text::decimal(clock as nat)) == Some(
            (name, clock, 1u32),
        ),
        sdp::encoding_of(
            name.push('/') + text::decimal(clock as nat).push('/') + text::decimal(channels as nat),
        ) == Some((name, clock, channels)),
{
    let c = text::decimal(clock as nat);
    let n = text::decimal(channels as nat);
    text::law_decimal_round_trip(clock as nat);
    text::law_decimal_round_trip(channels as nat);
    text_laws::law_numbers_are_read_as_written(clock as nat, u32::MAX as nat, c, 0);
    text_laws::law_numbers_are_read_as_written(channels as nat, u32::MAX as nat, n, 0);
    address_text::lemma_digits_without(clock as nat, '/');
    address_text::lemma_digits_without(channels as nat, '/');
    text_laws::law_split_undoes_join(c, n, '/');
    text_laws::law_split_undoes_join(n, n, '/');
    text_laws::law_split_undoes_join(name, c, '/');
    text_laws::law_split_undoes_join(name, c.push('/') + n, '/');
    let one = name.push('/') + c;
    let two = name.push('/') + c.push('/') + n;
    assert(two =~= name.push('/') + (c.push('/') + n));
    let none = Seq::<char>::empty();
    assert(text::digit(c.last()) && text::digit(n.last()));
    text_laws::law_trim_takes_the_ends(none, one, none);
    text_laws::law_trim_takes_the_ends(none, two, none);
    assert(none + one + none =~= one);
    assert(none + two + none =~= two);
    assert(text::split(one, '/') =~= seq![name, c]);
    assert(text::split(two, '/') =~= seq![name, c, n]);
}

/// What a payload type stands for in a section that maps it to an encoding.
pub open spec fn maps(
    lines: Seq<Seq<char>>,
    start: int,
    end: int,
    payload_type: u8,
    name: Seq<char>,
    clock: u32,
) -> bool {
    exists|i: int| #[trigger]
        first_with(
            lines,
            "a=rtpmap:"@ + text::decimal(payload_type as nat) + " "@,
            start,
            end,
            i,
            name.push('/') + text::decimal(clock as nat),
        )
}

/// A payload type stands for the encoding that its section maps it to, with the format that
/// the section states for it. One of the well-known types needs no mapping, and any other
/// type stands for nothing without one.
pub proof fn law_payload_type_is_what_the_section_says(
    lines: Seq<Seq<char>>,
    start: int,
    end: int,
    payload_type: u8,
    name: Seq<char>,
    clock: u32,
)
    requires
        0 <= start <= end <= lines.len(),
        plain_name(name),
    ensures
        maps(lines, start, end, payload_type, name, clock) ==> {
            let c = sdp::codec_in(lines, start, end, payload_type);
            &&& c is Some
            &&& c->0.payload_type == payload_type
            &&& c->0.name == name
            &&& c->0.clock_rate == clock
            &&& c->0.channels == 1
        },
        none_with(
            lines,
            "a=rtpmap:"@ + text::decimal(payload_type as nat) + " "@,
            start,
            end,
        ) ==> {
            let c = sdp::codec_in(lines, start, end, payload_type);
            let known = match payload_type {
                0u8 => Some("PCMU"@),
                3u8 => Some("GSM"@),
                8u8 => Some("PCMA"@),
                9u8 => Some("G722"@),
                18u8 => Some("G729"@),
                _ => None,
            };
            match known {
                Some(known) => c is Some && c->0.name == known && c->0.clock_rate == 8000
                    && c->0.channels == 1 && c->0.payload_type == payload_type,
                None => c is None,
            }
        },
        none_with(lines, "a=fmtp:"@ + text::decimal(payload_type as nat) + " "@, start, end) ==> (
        sdp::codec_in(lines, start, end, payload_type) matches Some(c) ==> c.fmtp is None),
{
    let prefix = "a=rtpmap:"@ + text::decimal(payload_type as nat) + " "@;
    let rest = name.push('/') + text::decimal(clock as nat);
    law_encoding_is_read(name, clock, 1);
    if maps(lines, start, end, payload_type, name, clock) {
        let i = choose|i: int| #[trigger] first_with(lines, prefix, start, end, i, rest);
        law_first_line_counts(lines, prefix, start, end, i, rest);
    }
    law_first_line_counts(lines, prefix, start, end, 0, rest);
    let format = "a=fmtp:"@ + text::decimal(payload_type as nat) + " "@;
    law_first_line_counts(lines, format, start, end, 0, rest);
    lemma_static();
}

proof fn lemma_8000(name: Seq<char>, all: Seq<char>)
    requires
        plain_name(name),
        all == name + seq!['/', '8', '0', '0', '0'],
    ensures
        sdp::encoding_of(all) == Some((name, 8000u32, 1u32)),
{
    law_encoding_is_read(name, 8000, 1);
    text_laws::law_digits_count_by_ten(0, 8, seq![]);
    text_laws::law_digits_count_by_ten(8, 0, seq![]);
    text_laws::law_digits_count_by_ten(80, 0, seq![]);
    text_laws::law_digits_count_by_ten(800, 0, seq![]);
    assert(text::decimal(8000) =~= seq!['8', '0', '0', '0']);
    assert(all =~= name.push('/') + text::decimal(8000));
}

proof fn lemma_static()
    ensures
        sdp::encoding_of("PCMU/8000"@) == Some(("PCMU"@, 8000u32, 1u32)),
        sdp::encoding_of("GSM/8000"@) == Some(("GSM"@, 8000u32, 1u32)),
        sdp::encoding_of("PCMA/8000"@) == Some(("PCMA"@, 8000u32, 1u32)),
        sdp::encoding_of("G722/8000"@) == Some(("G722"@, 8000u32, 1u32)),
        sdp::encoding_of("G729/8000"@) == Some(("G729"@, 8000u32, 1u32)),
{
    reveal_strlit("PCMU/8000");
    reveal_strlit("GSM/8000");
    reveal_strlit("PCMA/8000");
    reveal_strlit("G722/8000");
    reveal_strlit("G729/8000");
    reveal_strlit("PCMU");
    reveal_strlit("GSM");
    reveal_strlit("PCMA");
    reveal_strlit("G722");
    reveal_strlit("G729");
    let tail = seq!['/', '8', '0', '0', '0'];
    assert("PCMU/8000"@ =~= "PCMU"@ + tail);
    assert("GSM/8000"@ =~= "GSM"@ + tail);
    assert("PCMA/8000"@ =~= "PCMA"@ + tail);
    assert("G722/8000"@ =~= "G722"@ + tail);
    assert("G729/8000"@ =~= "G729"@ + tail);
    lemma_8000("PCMU"@, "PCMU/8000"@);
    lemma_8000("GSM"@, "GSM/8000"@);
    lemma_8000("PCMA"@, "PCMA/8000"@);
    lemma_8000("G722"@, "G722/8000"@);
    lemma_8000("G729"@, "G729/8000"@);
}

/// The media line names this payload type at place `i`, and it stands for this codec.
pub open spec fn offers(lines: Seq<Seq<char>>, s: Section, i: int, c: Codec) -> bool {
    &&& 0 <= i
    &&& i + 2 < s.words.len()
    &&& c.payload_type <= 127
    &&& s.words[i + 2] == text::decimal(c.payload_type as nat)
    &&& sdp::codec_in(lines, s.start, s.end, c.payload_type) == Some(c)
}

proof fn lemma_payload(n: u8)
    requires
        n <= 127,
    ensures
        sdp::payload_of(text::decimal(n as nat)) == Some(n),
{
    text_laws::law_numbers_are_read_as_written(n as nat, 127, seq![], 0);
}

/// Every codec that a media line offers is found, and telephone events are no codecs.
pub proof fn law_every_codec_is_found(lines: Seq<Seq<char>>, s: Section, i: int, c: Codec)
    requires
        offers(lines, s, i, c),
    ensures
        !text::alike(c.name, "telephone-event"@) ==> sdp::section_codecs(lines, s).contains(c),
        text::alike(c.name, "telephone-event"@) ==> sdp::tone_from(lines, s, 0) is Some,
{
    lemma_payload(c.payload_type);
    lemma_codec_found(lines, s, i, c, sdp::payload_count(s));
    lemma_tone_found(lines, s, i, c, 0);
}

proof fn lemma_codec_found(lines: Seq<Seq<char>>, s: Section, i: int, c: Codec, n: int)
    requires
        offers(lines, s, i, c),
        i < n <= sdp::payload_count(s),
    ensures
        !text::alike(c.name, "telephone-event"@) ==> sdp::codecs_upto(lines, s, n).contains(c),
    decreases n,
{
    lemma_payload(c.payload_type);
    let known = sdp::codecs_upto(lines, s, n - 1);
    let all = sdp::codecs_upto(lines, s, n);
    if !text::alike(c.name, "telephone-event"@) {
        if i < n - 1 {
            lemma_codec_found(lines, s, i, c, n - 1);
            let k = choose|k: int| 0 <= k < known.len() && known[k] == c;
            assert(all[k] == c);
        } else {
            assert(all == known.push(c));
            assert(all[known.len() as int] == c);
        }
    }
}

proof fn lemma_tone_found(lines: Seq<Seq<char>>, s: Section, i: int, c: Codec, n: int)
    requires
        offers(lines, s, i, c),
        0 <= n <= i,
    ensures
        text::alike(c.name, "telephone-event"@) ==> sdp::tone_from(lines, s, n) is Some,
    decreases i - n,
{
    lemma_payload(c.payload_type);
    if n < i {
        lemma_tone_found(lines, s, i, c, n + 1);
    }
}

/// Of the telephone events in a media line the first one is used, as it stands.
pub proof fn law_first_tone_is_used(lines: Seq<Seq<char>>, s: Section, i: int, c: Codec)
    requires
        offers(lines, s, i, c),
        text::alike(c.name, "telephone-event"@),
        forall|j: int|
            0 <= j < i ==> {
                let pt = sdp::payload_of(#[trigger] s.words[j + 2]);
                pt is Some ==> (sdp::codec_in(lines, s.start, s.end, pt->0) matches Some(d)
                    ==> !text::alike(d.name, "telephone-event"@))
            },
    ensures
        sdp::tone_from(lines, s, 0) == Some(
            ToneEvent { payload_type: c.payload_type, clock_rate: c.clock_rate, events: c.fmtp },
        ),
{
    lemma_first_tone(lines, s, i, c, 0);
}

proof fn lemma_first_tone(lines: Seq<Seq<char>>, s: Section, i: int, c: Codec, n: int)
    requires
        offers(lines, s, i, c),
        text::alike(c.name, "telephone-event"@),
        0 <= n <= i,
        forall|j: int|
            0 <= j < i ==> {
                let pt = sdp::payload_of(#[trigger] s.words[j + 2]);
                pt is Some ==> (sdp::codec_in(lines, s.start, s.end, pt->0) matches Some(d)
                    ==> !text::alike(d.name, "telephone-event"@))
            },
    ensures
        sdp::tone_from(lines, s, n) == Some(
            ToneEvent { payload_type: c.payload_type, clock_rate: c.clock_rate, events: c.fmtp },
        ),
    decreases i - n,
{
    lemma_payload(c.payload_type);
    if n < i {
        let w = s.words[n + 2];
        lemma_first_tone(lines, s, i, c, n + 1);
    }
}

/// The codecs of a media line that offers just these, one behind the other, are these in
/// their order.
pub proof fn law_codecs_keep_their_order(lines: Seq<Seq<char>>, s: Section, codecs: Seq<Codec>)
    requires
        s.words.len() == codecs.len() + 2,
        forall|i: int| 0 <= i < codecs.len() ==> offers(lines, s, i, #[trigger] codecs[i]),
        forall|i: int|
            0 <= i < codecs.len() ==> !text::alike(
                (#[trigger] codecs[i]).name,
                "telephone-event"@,
            ),
    ensures
        sdp::section_codecs(lines, s) == codecs,
{
    lemma_codecs_in_order(lines, s, codecs, codecs.len() as int);
    assert(codecs.take(codecs.len() as int) =~= codecs);
}

proof fn lemma_codecs_in_order(
    lines: Seq<Seq<char>>,
    s: Section,
    codecs: Seq<Codec>,
    n: int,
)
    requires
        s.words.len() == codecs.len() + 2,
        forall|i: int| 0 <= i < codecs.len() ==> offers(lines, s, i, #[trigger] codecs[i]),
        forall|i: int|
            0 <= i < codecs.len() ==> !text::alike(
                (#[trigger] codecs[i]).name,
                "telephone-event"@,
            ),
        0 <= n <= codecs.len(),
    ensures
        sdp::codecs_upto(lines, s, n) == codecs.take(n),
    decreases n,
{
    if n > 0 {
        lemma_codecs_in_order(lines, s, codecs, n - 1);
        let c = codecs[n - 1];
        assert(offers(lines, s, n - 1, c));
        lemma_payload(c.payload_type);
        assert(codecs.take(n) =~= codecs.take(n - 1).push(c));
    } else {
        assert(codecs.take(0) =~= seq![]);
    }
}

// --------------------------------------------------------------------------- descriptions

/// A connection line names its family and its address.
pub open spec fn connection_text(t: SdpAddrType, addr: Seq<char>) -> Seq<char> {
    (match t {
        SdpAddrType::Ip4 => "IP4 "@,
        SdpAddrType::Ip6 => "IP6 "@,
    }) + addr
}

pub open spec fn plain_word(s: Seq<char>) -> bool {
    s.len() > 0 && forall|i: int| 0 <= i < s.len() ==> !text::white(#[trigger] s[i])
}

proof fn lemma_connection(t: SdpAddrType, addr: Seq<char>)
    requires
        plain_word(addr),
    ensures
        sdp::address_of(connection_text(t, addr)) == Some((t, addr)),
{
    reveal_strlit("IP4");
    reveal_strlit("IP6");
    reveal_strlit("IP4 ");
    reveal_strlit("IP6 ");
    let none = Seq::<char>::empty();
    let word = match t {
        SdpAddrType::Ip4 => "IP4"@,
        SdpAddrType::Ip6 => "IP6"@,
    };
    assert(plain_word("IP4"@) && plain_word("IP6"@));
    text_laws::law_words_are_parted_by_white_space(none, word, ' ', addr);
    text_laws::law_words_are_parted_by_white_space(none, addr, ' ', addr);
    assert(none + addr =~= addr);
    let all = connection_text(t, addr);
    assert(all =~= none + word.push(' ') + addr);
    assert(text::words(all) =~= seq![word, addr]);
    assert("IP4"@[2] != "IP6"@[2]);
}

/// The direction that stands first in a section is the one that holds; media flows both ways
/// where a section states none.
pub proof fn law_stated_direction_holds(
    lines: Seq<Seq<char>>,
    from: int,
    to: int,
    i: int,
    d: SdpDirection,
)
    requires
        0 <= from <= i <= to <= lines.len(),
        forall|j: int|
            from <= j < i ==> (#[trigger] lines[j]) != "a=sendrecv"@ && lines[j] != "a=sendonly"@
                && lines[j] != "a=recvonly"@ && lines[j] != "a=inactive"@,
        if i < to {
            match d {
                SdpDirection::SendRecv => lines[i] == "a=sendrecv"@,
                SdpDirection::SendOnly => lines[i] == "a=sendonly"@,
                SdpDirection::RecvOnly => lines[i] == "a=recvonly"@,
                SdpDirection::Inactive => lines[i] == "a=inactive"@,
            }
        } else {
            d is SendRecv
        },
    ensures
        sdp::direction_from(lines, from, to) == d,
    decreases i - from,
{
    reveal_strlit("a=sendrecv");
    reveal_strlit("a=sendonly");
    reveal_strlit("a=recvonly");
    reveal_strlit("a=inactive");
    assert("a=sendrecv"@[2] == 's' && "a=sendonly"@[2] == 's' && "a=recvonly"@[2] == 'r');
    assert("a=inactive"@[2] == 'i' && "a=sendrecv"@[6] == 'r' && "a=sendonly"@[6] == 'o');
    if from < i {
        assert(lines[from] != "a=sendrecv"@);
        law_stated_direction_holds(lines, from + 1, to, i, d);
    }
}

/// Where a description says that media is to be sent: in the section itself, or before all
/// media lines for the whole session.
pub open spec fn connects(
    lines: Seq<Seq<char>>,
    start: int,
    end: int,
    t: SdpAddrType,
    addr: Seq<char>,
) -> bool {
    ||| exists|i: int| #[trigger]
        first_with(lines, "c=IN "@, start, end, i, connection_text(t, addr))
    ||| none_with(lines, "c=IN "@, start, end) && exists|i: int, m: int|
        0 <= m < lines.len() && none_with(lines, "m="@, 0, m) && text::starts(lines[m], "m="@)
            && #[trigger] first_with(lines, "c=IN "@, 0, m, i, connection_text(t, addr))
}

proof fn lemma_connects(
    lines: Seq<Seq<char>>,
    s: Section,
    t: SdpAddrType,
    addr: Seq<char>,
)
    requires
        0 <= s.start <= s.end <= lines.len(),
        connects(lines, s.start, s.end, t, addr),
    ensures
        sdp::connection_of(lines, s) == Some(connection_text(t, addr)),
{
    let c = connection_text(t, addr);
    if exists|i: int| #[trigger] first_with(lines, "c=IN "@, s.start, s.end, i, c) {
        let i = choose|i: int| #[trigger] first_with(lines, "c=IN "@, s.start, s.end, i, c);
        law_first_line_counts(lines, "c=IN "@, s.start, s.end, i, c);
    } else {
        law_first_line_counts(lines, "c=IN "@, s.start, s.end, 0, c);
        let (i, m) = choose|i: int, m: int|
            0 <= m < lines.len() && none_with(lines, "m="@, 0, m) && text::starts(lines[m], "m="@)
                && #[trigger] first_with(lines, "c=IN "@, 0, m, i, c);
        law_first_line_counts(lines, "c=IN "@, 0, m, i, c);
        lemma_line(lines, "m="@, 0, m);
    }
}

proof fn lemma_first_word(port: u16, rest: Seq<char>)
    ensures
        ({
            let words = text::words(text::decimal(port as nat).push(' ') + rest);
            &&& words == seq![text::decimal(port as nat)] + text::words(rest)
            &&& text::unsigned(words[0], u16::MAX as nat) == Some(port as nat)
        }),
{
    let none = Seq::<char>::empty();
    let n = text::decimal(port as nat);
    text::law_decimal_round_trip(port as nat);
    assert forall|i: int| 0 <= i < n.len() implies !text::white(#[trigger] n[i]) by {
        assert(text::digit(n[i]));
    }
    text_laws::law_words_are_parted_by_white_space(none, n, ' ', rest);
    assert(none + n.push(' ') + rest =~= n.push(' ') + rest);
    text_laws::law_numbers_are_read_as_written(port as nat, u16::MAX as nat, n, 0);
}

/// A description with an audio section and a connection is read: media goes to the address of
/// that connection and the port of the media line.
pub proof fn law_audio_is_read_where_it_stands(
    body: Seq<u8>,
    start: int,
    end: int,
    port: u16,
    rest: Seq<char>,
    t: SdpAddrType,
    addr: Seq<char>,
)
    requires
        section_at(
            lines_of(body),
            "m=audio "@,
            start,
            end,
            text::decimal(port as nat).push(' ') + rest,
        ),
        connects(lines_of(body), start, end, t, addr),
        plain_word(addr),
    ensures
        ({
            let r = sdp::audio_of(body);
            let s = Section {
                start,
                end,
                words: text::words(text::decimal(port as nat).push(' ') + rest),
            };
            &&& r is Ok
            &&& r->Ok_0.addr == addr
            &&& r->Ok_0.addr_type == t
            &&& r->Ok_0.port == port
            &&& r->Ok_0.codecs == sdp::section_codecs(lines_of(body), s)
            &&& r->Ok_0.direction == sdp::direction_from(lines_of(body), start, end)
        }),
{
    let lines = lines_of(body);
    let words = text::words(text::decimal(port as nat).push(' ') + rest);
    lemma_section(lines, "m=audio "@, start, end, text::decimal(port as nat).push(' ') + rest);
    lemma_first_word(port, rest);
    lemma_connects(lines, Section { start, end, words }, t, addr);
    lemma_connection(t, addr);
}

/// Without an audio section there is no audio, and no telephone event either.
pub proof fn law_missing_audio_is_refused(body: Seq<u8>)
    requires
        none_with(lines_of(body), "m=audio "@, 0, lines_of(body).len() as int),
    ensures
        sdp::audio_of(body) == Err::<Audio, _>("sdp_audio_missing"@),
        sdp::telephone_event_of(body) is None,
{
    lemma_line(lines_of(body), "m=audio "@, 0, lines_of(body).len() as int);
}

/// Without any connection media has nowhere to go.
pub proof fn law_missing_connection_is_refused(body: Seq<u8>)
    requires
        none_with(lines_of(body), "c=IN "@, 0, lines_of(body).len() as int),
    ensures
        sdp::audio_of(body) is Err,
{
    let lines = lines_of(body);
    let start = sdp::line_with(lines, "m=audio "@, 0);
    if start < lines.len() {
        lemma_within(lines, "m=audio "@, 0);
        lemma_within(lines, "m="@, start + 1);
        lemma_within(lines, "m="@, 0);
        let end = sdp::line_with(lines, "m="@, start + 1);
        law_first_line_counts(lines, "c=IN "@, start, end, 0, seq![]);
        law_first_line_counts(
            lines,
            "c=IN "@,
            0,
            sdp::line_with(lines, "m="@, 0),
            0,
            seq![],
        );
    }
}

proof fn lemma_within(lines: Seq<Seq<char>>, prefix: Seq<char>, i: int)
    requires
        0 <= i <= lines.len(),
    ensures
        i <= sdp::line_with(lines, prefix, i) <= lines.len(),
    decreases lines.len() - i,
{
    if i < lines.len() && !text::starts(lines[i], prefix) {
        lemma_within(lines, prefix, i + 1);
    }
}

/// A video section that offers codecs is read with the first of them, at the port of its media
/// line, and with its own connection if it has one.
pub proof fn law_video_is_read_where_it_stands(
    body: Seq<u8>,
    start: int,
    end: int,
    port: u16,
    rest: Seq<char>,
    codecs: Seq<Codec>,
    t: SdpAddrType,
    addr: Seq<char>,
    own: bool,
)
    requires
        section_at(
            lines_of(body),
            "m=video "@,
            start,
            end,
            text::decimal(port as nat).push(' ') + rest,
        ),
        codecs == sdp::section_codecs(
            lines_of(body),
            Section { start, end, words: text::words(text::decimal(port as nat).push(' ') + rest) },
        ),
        plain_word(addr),
        if own {
            exists|i: int| #[trigger]
                first_with(
                    lines_of(body),
                    "c=IN "@,
                    start,
                    end,
                    i,
                    connection_text(t, addr),
                )
        } else {
            none_with(lines_of(body), "c=IN "@, start, end)
        },
    ensures
        codecs.len() == 0 ==> sdp::video_of(body) is Err,
        codecs.len() > 0 ==> {
            let r = sdp::video_of(body);
            &&& r is Ok
            &&& r->Ok_0.codec == codecs[0]
            &&& r->Ok_0.port == port
            &&& r->Ok_0.addr == (if own {
                Some(addr)
            } else {
                None
            })
            &&& r->Ok_0.addr_type == (if own {
                Some(t)
            } else {
                None
            })
        },
{
    let lines = lines_of(body);
    lemma_section(lines, "m=video "@, start, end, text::decimal(port as nat).push(' ') + rest);
    lemma_first_word(port, rest);
    lemma_connection(t, addr);
    let c = connection_text(t, addr);
    if own {
        let i = choose|i: int| #[trigger] first_with(lines, "c=IN "@, start, end, i, c);
        law_first_line_counts(lines, "c=IN "@, start, end, i, c);
    } else {
        law_first_line_counts(lines, "c=IN "@, start, end, 0, c);
    }
}

/// Without a video section there is no video.
pub proof fn law_missing_video_is_refused(body: Seq<u8>)
    requires
        none_with(lines_of(body), "m=video "@, 0, lines_of(body).len() as int),
    ensures
        sdp::video_of(body) == Err::<Video, _>("sdp_video_missing"@),
{
    lemma_line(lines_of(body), "m=video "@, 0, lines_of(body).len() as int);
}

// --------------------------------------------------------------------------- agreement

/// Two codecs agree where their names do up to case and their rates and channels are equal;
/// two variants of EVS have to have the same format too.
pub proof fn law_codecs_agree(a: Codec, b: Codec)
    ensures
        sdp::codecs_match(a, b) == sdp::codecs_match(b, a),
        sdp::codecs_match(a, a),
        sdp::codecs_match(a, b) ==> text::alike(a.name, b.name) && a.clock_rate == b.clock_rate
            && a.channels == b.channels,
        !text::alike(a.name, "EVS"@) && text::alike(a.name, b.name) && a.clock_rate == b.clock_rate
            && a.channels == b.channels ==> sdp::codecs_match(a, b),
        text::alike(a.name, "EVS"@) && a.fmtp != b.fmtp ==> !sdp::codecs_match(a, b),
        a.name == b.name && a.clock_rate == b.clock_rate && a.channels == b.channels && a.fmtp
            == b.fmtp ==> sdp::codecs_match(a, b),
{
}

/// The codec that is chosen for another one is the first that agrees with it, and there is one
/// wherever any agrees.
pub proof fn law_first_agreeing_codec_is_chosen(codecs: Seq<Codec>, wanted: Codec)
    ensures
        match sdp::matching_codec(codecs, wanted) {
            Some(c) => exists|i: int|
                0 <= i < codecs.len() && (#[trigger] codecs[i]) == c && sdp::codecs_match(wanted, c)
                    && forall|j: int|
                    0 <= j < i ==> !sdp::codecs_match(wanted, #[trigger] codecs[j]),
            None => forall|i: int|
                0 <= i < codecs.len() ==> !sdp::codecs_match(wanted, #[trigger] codecs[i]),
        },
{
    lemma_matching(codecs, wanted, 0);
}

proof fn lemma_matching(codecs: Seq<Codec>, wanted: Codec, n: int)
    requires
        0 <= n <= codecs.len(),
        forall|j: int| 0 <= j < n ==> !sdp::codecs_match(wanted, #[trigger] codecs[j]),
    ensures
        match sdp::matching_from(codecs, wanted, n) {
            Some(c) => exists|i: int|
                0 <= i < codecs.len() && (#[trigger] codecs[i]) == c && sdp::codecs_match(wanted, c)
                    && forall|j: int|
                    0 <= j < i ==> !sdp::codecs_match(wanted, #[trigger] codecs[j]),
            None => forall|i: int|
                0 <= i < codecs.len() ==> !sdp::codecs_match(wanted, #[trigger] codecs[i]),
        },
    decreases codecs.len() - n,
{
    if n < codecs.len() && !sdp::codecs_match(wanted, codecs[n]) {
        lemma_matching(codecs, wanted, n + 1);
    }
}

/// Two videos work together where their codecs have the same name, up to case, and rate.
pub proof fn law_videos_agree(a: Video, b: Video)
    ensures
        sdp::video_fault(a, b) is None <==> text::alike(a.codec.name, b.codec.name)
            && a.codec.clock_rate == b.codec.clock_rate,
{
}

// --------------------------------------------------------------------------- writing

pub open spec fn payload_list(codecs: Seq<Codec>) -> Seq<char>
    decreases codecs.len(),
{
    if codecs.len() == 0 {
        Seq::empty()
    } else {
        payload_list(codecs.drop_last()).push(' ') + text::decimal(
            codecs.last().payload_type as nat,
        )
    }
}

/// The lines that say what a payload type stands for.
pub open spec fn codec_text(c: Codec) -> Seq<char> {
    let number = text::decimal(c.payload_type as nat);
    let map = "a=rtpmap:"@ + number + " "@ + c.name + "/"@ + text::decimal(c.clock_rate as nat);
    let wide = if c.channels == 1 {
        map + "\r\n"@
    } else {
        map + "/"@ + text::decimal(c.channels as nat) + "\r\n"@
    };
    match c.fmtp {
        Some(f) => wide + "a=fmtp:"@ + number + " "@ + f + "\r\n"@,
        None => wide,
    }
}

pub open spec fn codec_list(codecs: Seq<Codec>) -> Seq<char>
    decreases codecs.len(),
{
    if codecs.len() == 0 {
        Seq::empty()
    } else {
        codec_list(codecs.drop_last()) + codec_text(codecs.last())
    }
}

proof fn lemma_codec_text(c: Codec)
    ensures
        sdp::codec_lines(c) == codec_text(c),
{
    assert(sdp::codec_lines(c) =~= codec_text(c));
}

proof fn lemma_lists(codecs: Seq<Codec>, all: Seq<Codec>)
    requires
        codecs.len() <= all.len(),
        forall|i: int| 0 <= i < codecs.len() ==> codecs[i] == all[i],
    ensures
        sdp::payloads_text(all, codecs.len() as int) == payload_list(codecs),
        sdp::codecs_text(all, codecs.len() as int) == codec_list(codecs),
    decreases codecs.len(),
{
    if codecs.len() > 0 {
        let n = codecs.len() as int;
        lemma_lists(codecs.drop_last(), all);
        lemma_codec_text(codecs.last());
        reveal_strlit(" ");
        assert(all[n - 1] == codecs[n - 1]);
        let before = payload_list(codecs.drop_last());
        assert(before + " "@ =~= before.push(' '));
    }
}

/// A written description sends media to its address and port, offers its codecs in their order
/// and states its direction.
pub proof fn law_audio_is_written_as_it_is(a: Audio)
    ensures
        ({
            let family = match a.addr_type {
                SdpAddrType::Ip4 => "IP4"@,
                SdpAddrType::Ip6 => "IP6"@,
            };
            let direction = match a.direction {
                SdpDirection::SendRecv => "a=sendrecv\r\n"@,
                SdpDirection::SendOnly => "a=sendonly\r\n"@,
                SdpDirection::RecvOnly => "a=recvonly\r\n"@,
                SdpDirection::Inactive => "a=inactive\r\n"@,
            };
            sdp::audio_text(a) == "v=0\r\no=- 1 1 IN "@ + family + " "@ + a.addr
                + "\r\ns=-\r\n"@ + "c=IN "@ + family + " "@ + a.addr + "\r\n"@
                + "t=0 0\r\nm=audio "@ + text::decimal(a.port as nat) + " RTP/AVP"@
                + payload_list(a.codecs) + "\r\n"@ + codec_list(a.codecs) + direction
        }),
{
    lemma_lists(a.codecs, a.codecs);
    let family = sdp::addr_type_text(a.addr_type);
    let origin = "v=0\r\no=- 1 1 IN "@ + family + " "@ + a.addr + "\r\ns=-\r\n"@;
    let c = "c=IN "@ + family + " "@ + a.addr + "\r\n"@;
    assert(origin + c =~= origin + "c=IN "@ + family + " "@ + a.addr + "\r\n"@);
}

/// A written video has one codec, its port, its direction and, where it is known, its own
/// connection.
pub proof fn law_video_is_written_as_it_is(v: Video)
    ensures
        ({
            let direction = match v.direction {
                SdpDirection::SendRecv => "a=sendrecv\r\n"@,
                SdpDirection::SendOnly => "a=sendonly\r\n"@,
                SdpDirection::RecvOnly => "a=recvonly\r\n"@,
                SdpDirection::Inactive => "a=inactive\r\n"@,
            };
            let connection = match (v.addr_type, v.addr) {
                (Some(SdpAddrType::Ip4), Some(addr)) => "c=IN IP4 "@ + addr + "\r\n"@,
                (Some(SdpAddrType::Ip6), Some(addr)) => "c=IN IP6 "@ + addr + "\r\n"@,
                _ => Seq::empty(),
            };
            sdp::video_text(v) == "m=video "@ + text::decimal(v.port as nat) + " RTP/AVP "@
                + text::decimal(v.codec.payload_type as nat) + "\r\n"@ + connection + codec_text(
                v.codec,
            ) + direction
        }),
{
    lemma_codec_text(v.codec);
    reveal_strlit("c=IN ");
    reveal_strlit(" ");
    reveal_strlit("IP4");
    reveal_strlit("IP6");
    reveal_strlit("c=IN IP4 ");
    reveal_strlit("c=IN IP6 ");
    assert("c=IN "@ + "IP4"@ + " "@ =~= "c=IN IP4 "@);
    assert("c=IN "@ + "IP6"@ + " "@ =~= "c=IN IP6 "@);
}

} // verus!
