//! What an answer makes of the media of a call.

use crate::address_text;
use crate::ip_text;
use crate::net::{IpAddr, SocketAddr};
use crate::operator::media;
use crate::operator::media::{Media, PayloadTypeMapping};
use crate::sdp;
use crate::sdp::{Audio, Codec, SdpAddrType, ToneEvent, Video};
use crate::sdp_laws;
use crate::text;
use vstd::prelude::*;

verus! {

/// A description that is moved to a local endpoint sends media there, and says nothing else
/// than before.
pub proof fn law_moved_media_ends_here(a: Audio, v: Video, local: SocketAddr)
    ensures
        ({
            let b = media::audio_at(a, local);
            &&& local.port != 0 ==> media::endpoint_of(b) == Ok::<_, Seq<char>>(local)
            &&& b.addr_type == (match local.ip {
                IpAddr::V4(_) => SdpAddrType::Ip4,
                IpAddr::V6(_) => SdpAddrType::Ip6,
            })
            &&& b.codecs == a.codecs && b.direction == a.direction
        }),
        ({
            let w = media::video_at(v, local);
            &&& local.port != 0 ==> media::video_endpoint_of(a, w) == Ok::<_, Seq<char>>(local)
            &&& w.addr_type == Some(
                match local.ip {
                    IpAddr::V4(_) => SdpAddrType::Ip4,
                    IpAddr::V6(_) => SdpAddrType::Ip6,
                },
            )
            &&& w.codec == v.codec && w.direction == v.direction
        }),
{
    address_text::law_address_is_read_back(local.ip);
}

/// Media is sent to the address and the port of its description; one without a usable address
/// or with port zero is refused. A video without an address goes to that of the audio.
pub proof fn law_media_goes_where_it_is_asked(a: Audio, v: Video, ip: IpAddr)
    ensures
        a.addr == ip_text::ip_form(ip) && a.port != 0 ==> media::endpoint_of(a) == Ok::<
            _,
            Seq<char>,
        >(SocketAddr { ip, port: a.port }),
        a.port == 0 || ip_text::ip_text(a.addr) is None ==> media::endpoint_of(a) is Err,
        v.addr == Some(ip_text::ip_form(ip)) && v.port != 0 ==> media::video_endpoint_of(a, v)
            == Ok::<_, Seq<char>>(SocketAddr { ip, port: v.port }),
        v.addr is None && a.addr == ip_text::ip_form(ip) && v.port != 0
            ==> media::video_endpoint_of(a, v) == Ok::<_, Seq<char>>(
            SocketAddr { ip, port: v.port },
        ),
        v.port == 0 ==> media::video_endpoint_of(a, v) is Err,
{
    address_text::law_address_is_read_back(ip);
}

// --------------------------------------------------------------------------- codecs

/// The codec that stands for `wanted` on the other side is `c`: the first that agrees with it.
pub open spec fn stands_for(codecs: Seq<Codec>, wanted: Codec, c: Codec) -> bool {
    exists|i: int|
        0 <= i < codecs.len() && (#[trigger] codecs[i]) == c && sdp::codecs_match(wanted, c)
            && forall|j: int| 0 <= j < i ==> !sdp::codecs_match(wanted, #[trigger] codecs[j])
}

/// Does any of these codecs agree with it?
pub open spec fn agrees(codecs: Seq<Codec>, wanted: Codec) -> bool {
    exists|i: int| 0 <= i < codecs.len() && sdp::codecs_match(wanted, #[trigger] codecs[i])
}

proof fn lemma_stands_for(codecs: Seq<Codec>, wanted: Codec, c: Codec)
    ensures
        sdp::matching_codec(codecs, wanted) == Some(c) <==> stands_for(codecs, wanted, c),
        sdp::matching_codec(codecs, wanted) is Some <==> agrees(codecs, wanted),
{
    sdp_laws::law_first_agreeing_codec_is_chosen(codecs, wanted);
    let r = sdp::matching_codec(codecs, wanted);
    if stands_for(codecs, wanted, c) {
        let i = choose|i: int|
            0 <= i < codecs.len() && (#[trigger] codecs[i]) == c && sdp::codecs_match(wanted, c)
                && forall|j: int| 0 <= j < i ==> !sdp::codecs_match(wanted, #[trigger] codecs[j]);
        assert(sdp::codecs_match(wanted, codecs[i]));
        if r is Some {
            let k = choose|k: int|
                0 <= k < codecs.len() && (#[trigger] codecs[k]) == r->0 && sdp::codecs_match(
                    wanted,
                    r->0,
                ) && forall|j: int|
                    0 <= j < k ==> !sdp::codecs_match(wanted, #[trigger] codecs[j]);
            assert(sdp::codecs_match(wanted, codecs[k]));
            assert(i == k);
        }
    }
}

/// One of the first `n` codecs of one side has this one for its own on the other.
pub open spec fn comes_from(operator: Seq<Codec>, internal: Seq<Codec>, n: int, c: Codec) -> bool {
    exists|k: int| 0 <= k < n && stands_for(internal, #[trigger] operator[k], c)
}

#[verifier::rlimit(50)]
proof fn lemma_answered(operator: Seq<Codec>, internal: Seq<Codec>, n: int)
    requires
        0 <= n <= operator.len(),
    ensures
        ({
            let all = media::answered_upto(operator, internal, n);
            &&& forall|k: int| #![trigger operator[k]]
                0 <= k < n ==> forall|c: Codec| #[trigger]
                    stands_for(internal, operator[k], c) ==> all.contains(c)
            &&& forall|i: int|
                0 <= i < all.len() ==> comes_from(operator, internal, n, #[trigger] all[i])
        }),
        ({
            let kept = media::kept_upto(operator, internal, n);
            &&& forall|k: int|
                0 <= k < n && agrees(internal, #[trigger] operator[k]) ==> kept.contains(
                    operator[k],
                )
            &&& forall|i: int|
                0 <= i < kept.len() ==> agrees(internal, #[trigger] kept[i]) && operator.contains(
                    kept[i],
                )
        }),
        ({
            let maps = media::mappings_upto(operator, internal, n);
            &&& forall|k: int, c: Codec|
                0 <= k < n && #[trigger] stands_for(internal, operator[k], c)
                    && operator[k].payload_type != c.payload_type ==> maps.contains(
                    PayloadTypeMapping {
                        operator: operator[k].payload_type,
                        internal: c.payload_type,
                    },
                )
            &&& forall|i: int|
                0 <= i < maps.len() ==> (#[trigger] maps[i]).operator != maps[i].internal && exists|
                    k: int,
                    c: Codec,
                |
                    0 <= k < n && #[trigger] stands_for(internal, operator[k], c)
                        && operator[k].payload_type == maps[i].operator && c.payload_type
                        == maps[i].internal
        }),
    decreases n,
{
    if n > 0 {
        lemma_answered(operator, internal, n - 1);
        let w = operator[n - 1];
        assert forall|c: Codec| #[trigger] stands_for(internal, w, c) implies sdp::matching_codec(
            internal,
            w,
        ) == Some(c) by {
            lemma_stands_for(internal, w, c);
        }
        let r = sdp::matching_codec(internal, w);
        lemma_stands_for(internal, w, r->0);
        lemma_answered_step(operator, internal, n);
        lemma_kept_step(operator, internal, n);
        lemma_mappings_step(operator, internal, n);
    }
}

proof fn lemma_answered_step(operator: Seq<Codec>, internal: Seq<Codec>, n: int)
    requires
        0 < n <= operator.len(),
        forall|k: int| #![trigger operator[k]]
            0 <= k < n - 1 ==> forall|c: Codec| #[trigger]
                stands_for(internal, operator[k], c) ==> media::answered_upto(
                    operator,
                    internal,
                    n - 1,
                ).contains(c),
        forall|i: int|
            0 <= i < media::answered_upto(operator, internal, n - 1).len() ==> comes_from(
                operator,
                internal,
                n - 1,
                #[trigger] media::answered_upto(operator, internal, n - 1)[i],
            ),
    ensures
        ({
            let all = media::answered_upto(operator, internal, n);
            &&& forall|k: int| #![trigger operator[k]]
                0 <= k < n ==> forall|c: Codec| #[trigger]
                    stands_for(internal, operator[k], c) ==> all.contains(c)
            &&& forall|i: int|
                0 <= i < all.len() ==> comes_from(operator, internal, n, #[trigger] all[i])
        }),
{
    let w = operator[n - 1];
    let known = media::answered_upto(operator, internal, n - 1);
    let all = media::answered_upto(operator, internal, n);
    let r = sdp::matching_codec(internal, w);
    assert forall|k: int, c: Codec|
        0 <= k < n && #[trigger] stands_for(internal, operator[k], c) implies all.contains(c) by {
        if k < n - 1 {
            assert(known.contains(c));
            let j = choose|j: int| 0 <= j < known.len() && known[j] == c;
            assert(all[j] == c);
        } else {
            lemma_stands_for(internal, w, c);
            assert(all[known.len() as int] == c);
        }
    }
    assert forall|i: int| 0 <= i < all.len() implies comes_from(
        operator,
        internal,
        n,
        #[trigger] all[i],
    ) by {
        if i < known.len() {
            assert(all[i] == known[i]);
            assert(comes_from(operator, internal, n - 1, known[i]));
            let k = choose|k: int|
                0 <= k < n - 1 && stands_for(internal, #[trigger] operator[k], known[i]);
            assert(stands_for(internal, operator[k], all[i]));
        } else {
            lemma_stands_for(internal, w, r->0);
            assert(stands_for(internal, operator[n - 1], all[i]));
        }
    }
}

proof fn lemma_kept_step(operator: Seq<Codec>, internal: Seq<Codec>, n: int)
    requires
        0 < n <= operator.len(),
        forall|k: int|
            0 <= k < n - 1 && agrees(internal, #[trigger] operator[k]) ==> media::kept_upto(
                operator,
                internal,
                n - 1,
            ).contains(operator[k]),
        forall|i: int|
            0 <= i < media::kept_upto(operator, internal, n - 1).len() ==> agrees(
                internal,
                #[trigger] media::kept_upto(operator, internal, n - 1)[i],
            ) && operator.contains(media::kept_upto(operator, internal, n - 1)[i]),
    ensures
        ({
            let kept = media::kept_upto(operator, internal, n);
            &&& forall|k: int|
                0 <= k < n && agrees(internal, #[trigger] operator[k]) ==> kept.contains(
                    operator[k],
                )
            &&& forall|i: int|
                0 <= i < kept.len() ==> agrees(internal, #[trigger] kept[i]) && operator.contains(
                    kept[i],
                )
        }),
{
    let w = operator[n - 1];
    let known = media::kept_upto(operator, internal, n - 1);
    let kept = media::kept_upto(operator, internal, n);
    lemma_stands_for(internal, w, w);
    assert forall|k: int| 0 <= k < n && agrees(internal, #[trigger] operator[k]) implies
        kept.contains(operator[k]) by {
        if k < n - 1 {
            let j = choose|j: int| 0 <= j < known.len() && known[j] == operator[k];
            assert(kept[j] == operator[k]);
        } else {
            assert(kept[known.len() as int] == w);
        }
    }
    assert forall|i: int| 0 <= i < kept.len() implies agrees(internal, #[trigger] kept[i])
        && operator.contains(kept[i]) by {
        if i < known.len() {
            assert(kept[i] == known[i]);
        } else {
            assert(kept[i] == operator[n - 1]);
        }
    }
}

proof fn lemma_mappings_step(operator: Seq<Codec>, internal: Seq<Codec>, n: int)
    requires
        0 < n <= operator.len(),
        ({
            let maps = media::mappings_upto(operator, internal, n - 1);
            &&& forall|k: int, c: Codec|
                0 <= k < n - 1 && #[trigger] stands_for(internal, operator[k], c)
                    && operator[k].payload_type != c.payload_type ==> maps.contains(
                    PayloadTypeMapping {
                        operator: operator[k].payload_type,
                        internal: c.payload_type,
                    },
                )
            &&& forall|i: int|
                0 <= i < maps.len() ==> (#[trigger] maps[i]).operator != maps[i].internal && exists|
                    k: int,
                    c: Codec,
                |
                    0 <= k < n - 1 && #[trigger] stands_for(internal, operator[k], c)
                        && operator[k].payload_type == maps[i].operator && c.payload_type
                        == maps[i].internal
        }),
    ensures
        ({
            let maps = media::mappings_upto(operator, internal, n);
            &&& forall|k: int, c: Codec|
                0 <= k < n && #[trigger] stands_for(internal, operator[k], c)
                    && operator[k].payload_type != c.payload_type ==> maps.contains(
                    PayloadTypeMapping {
                        operator: operator[k].payload_type,
                        internal: c.payload_type,
                    },
                )
            &&& forall|i: int|
                0 <= i < maps.len() ==> (#[trigger] maps[i]).operator != maps[i].internal && exists|
                    k: int,
                    c: Codec,
                |
                    0 <= k < n && #[trigger] stands_for(internal, operator[k], c)
                        && operator[k].payload_type == maps[i].operator && c.payload_type
                        == maps[i].internal
        }),
{
    let w = operator[n - 1];
    let known = media::mappings_upto(operator, internal, n - 1);
    let maps = media::mappings_upto(operator, internal, n);
    let r = sdp::matching_codec(internal, w);
    assert forall|k: int, c: Codec|
        0 <= k < n && #[trigger] stands_for(internal, operator[k], c) && operator[k].payload_type
            != c.payload_type implies maps.contains(
        PayloadTypeMapping { operator: operator[k].payload_type, internal: c.payload_type },
    ) by {
        let p = PayloadTypeMapping {
            operator: operator[k].payload_type,
            internal: c.payload_type,
        };
        if k < n - 1 {
            let j = choose|j: int| 0 <= j < known.len() && known[j] == p;
            assert(maps[j] == p);
        } else {
            lemma_stands_for(internal, w, c);
            assert(maps[known.len() as int] == p);
        }
    }
    assert forall|i: int| 0 <= i < maps.len() implies (#[trigger] maps[i]).operator
        != maps[i].internal && exists|k: int, c: Codec|
        0 <= k < n && #[trigger] stands_for(internal, operator[k], c) && operator[k].payload_type
            == maps[i].operator && c.payload_type == maps[i].internal by {
        if i < known.len() {
            assert(maps[i] == known[i]);
            let (k, c) = choose|k: int, c: Codec|
                0 <= k < n - 1 && #[trigger] stands_for(internal, operator[k], c)
                    && operator[k].payload_type == known[i].operator && c.payload_type
                    == known[i].internal;
            assert(stands_for(internal, operator[k], c));
        } else {
            lemma_stands_for(internal, w, r->0);
            assert(stands_for(internal, operator[n - 1], r->0));
        }
    }
}

// --------------------------------------------------------------------------- answers

/// A description with other codecs.
pub open spec fn with_codecs(a: Audio, codecs: Seq<Codec>) -> Audio {
    Audio { codecs, ..a }
}

/// What the relay of a call translates: a payload type of the operator to the one that stands
/// for the same codec, or for telephone events, on the trunk.
pub open spec fn translates(
    maps: Seq<PayloadTypeMapping>,
    operator: Seq<Codec>,
    internal: Seq<Codec>,
) -> bool {
    forall|k: int, c: Codec|
        0 <= k < operator.len() && #[trigger] stands_for(internal, operator[k], c)
            && operator[k].payload_type != c.payload_type ==> maps.contains(
            PayloadTypeMapping { operator: operator[k].payload_type, internal: c.payload_type },
        )
}

proof fn lemma_mappings(
    operator: Seq<Codec>,
    internal: Seq<Codec>,
    a: Option<ToneEvent>,
    b: Option<ToneEvent>,
)
    ensures
        ({
            let maps = media::mappings_of(operator, internal, a, b);
            &&& translates(maps, operator, internal)
            &&& a is Some && b is Some && a->0.payload_type != b->0.payload_type ==> maps.contains(
                PayloadTypeMapping { operator: a->0.payload_type, internal: b->0.payload_type },
            )
            &&& forall|i: int|
                0 <= i < maps.len() ==> (#[trigger] maps[i]).operator != maps[i].internal
        }),
{
    let n = operator.len() as int;
    lemma_answered(operator, internal, n);
    let known = media::mappings_upto(operator, internal, n);
    let maps = media::mappings_of(operator, internal, a, b);
    assert forall|k: int, c: Codec|
        0 <= k < operator.len() && #[trigger] stands_for(internal, operator[k], c)
            && operator[k].payload_type != c.payload_type implies maps.contains(
        PayloadTypeMapping { operator: operator[k].payload_type, internal: c.payload_type },
    ) by {
        let p = PayloadTypeMapping {
            operator: operator[k].payload_type,
            internal: c.payload_type,
        };
        let j = choose|j: int| 0 <= j < known.len() && known[j] == p;
        assert(maps[j] == p);
    }
    if a is Some && b is Some && a->0.payload_type != b->0.payload_type {
        assert(maps[known.len() as int] == (PayloadTypeMapping {
            operator: a->0.payload_type,
            internal: b->0.payload_type,
        }));
    }
    assert forall|i: int| 0 <= i < maps.len() implies (#[trigger] maps[i]).operator
        != maps[i].internal by {
        if i < known.len() {
            assert(maps[i] == known[i]);
        }
    }
}

/// The operator's answer to a call without video is accepted just where its audio can be
/// reached and shares a codec with the offer. The relay that waited then runs between the
/// operator's address and the one of the offer, with every payload type translated, and the
/// trunk is answered with its own codecs, at the local endpoint that faces it.
#[verifier::rlimit(50)]
pub proof fn law_operator_answer_connects_the_call(m: Media, body: Seq<u8>)
    requires
        m.offer.video is None,
    ensures
        ({
            let a = sdp::audio_of(body);
            let (next, r) = media::operator_media(m, body);
            let internal = m.offer.audio.codecs;
            &&& r is Ok <==> a is Ok && ip_text::ip_text(a->Ok_0.addr) is Some && a->Ok_0.port != 0
                && exists|k: int|
                0 <= k < a->Ok_0.codecs.len() && agrees(internal, #[trigger] a->Ok_0.codecs[k])
            &&& r is Err ==> next == m
            &&& r is Ok ==> {
                let codecs = a->Ok_0.codecs;
                &&& next.offer == m.offer
                &&& next.pending is None
                &&& m.pending is None ==> next.active == m.active
                &&& m.pending is Some ==> next.active is Some && {
                    let relay = next.active->0;
                    &&& relay.relay == m.pending->0
                    &&& relay.operator == SocketAddr {
                        ip: ip_text::ip_text(a->Ok_0.addr)->0,
                        port: a->Ok_0.port,
                    }
                    &&& relay.internal == m.offer.endpoint
                    &&& translates(relay.mappings, codecs, internal)
                    &&& sdp::telephone_event_of(body) matches Some(t) ==> (
                    m.offer.dtmf.rtp_event matches Some(u) ==> t.payload_type != u.payload_type
                        ==> relay.mappings.contains(
                        PayloadTypeMapping { operator: t.payload_type, internal: u.payload_type },
                    ))
                }
                &&& exists|common: Seq<Codec>|
                    {
                        &&& r->Ok_0 == media::relay_audio_text(
                            #[trigger] with_codecs(a->Ok_0, common),
                            m.offer.dtmf.rtp_event,
                            m.internal_local,
                        )
                        &&& forall|i: int|
                            0 <= i < common.len() ==> internal.contains(#[trigger] common[i])
                        &&& forall|k: int, c: Codec|
                            0 <= k < codecs.len() && #[trigger] stands_for(internal, codecs[k], c)
                                ==> common.contains(c)
                    }
            }
        }),
{
    let a = sdp::audio_of(body);
    let internal = m.offer.audio.codecs;
    let (next, r) = media::operator_media(m, body);
    if a is Ok && media::endpoint_of(a->Ok_0) is Ok {
        let codecs = a->Ok_0.codecs;
        let n = codecs.len() as int;
        lemma_answered(codecs, internal, n);
        lemma_mappings(
            codecs,
            internal,
            sdp::telephone_event_of(body),
            m.offer.dtmf.rtp_event,
        );
        let common = media::answered_upto(codecs, internal, n);
        assert forall|i: int| 0 <= i < common.len() implies internal.contains(
            #[trigger] common[i],
        ) by {
            assert(comes_from(codecs, internal, n, common[i]));
            let k = choose|k: int|
                0 <= k < n && stands_for(internal, #[trigger] codecs[k], common[i]);
            assert(stands_for(internal, codecs[k], common[i]));
        }
        assert forall|k: int, c: Codec|
            0 <= k < codecs.len() && #[trigger] stands_for(
                internal,
                codecs[k],
                c,
            ) implies common.contains(c) by {
            let w = codecs[k];
        }
        if exists|k: int| 0 <= k < codecs.len() && agrees(internal, #[trigger] codecs[k]) {
            let k = choose|k: int| 0 <= k < codecs.len() && agrees(internal, #[trigger] codecs[k]);
            lemma_stands_for(internal, codecs[k], sdp::matching_codec(internal, codecs[k])->0);
            let c = sdp::matching_codec(internal, codecs[k])->0;
            assert(stands_for(internal, codecs[k], c));
            assert(common.contains(c));
        }
        if common.len() > 0 {
            assert(comes_from(codecs, internal, n, common[0]));
            let k = choose|k: int|
                0 <= k < n && stands_for(internal, #[trigger] codecs[k], common[0]);
            lemma_stands_for(internal, codecs[k], common[0]);
            assert(agrees(internal, codecs[k]));
            assert(r->Ok_0 == media::relay_audio_text(
                with_codecs(a->Ok_0, common),
                m.offer.dtmf.rtp_event,
                m.internal_local,
            ));
        }
    }
}

/// The trunk's answer to a call without video is accepted just where its audio can be reached
/// and shares a codec with the operator's offer. The relay that waited then runs between the
/// address of the offer and the one of the answer, and the operator is answered with the codecs
/// that it offered and the trunk took, at the local endpoint that faces it.
#[verifier::rlimit(50)]
pub proof fn law_trunk_answer_connects_the_call(m: Media, body: Seq<u8>)
    requires
        m.offer.video is None,
    ensures
        ({
            let a = sdp::audio_of(body);
            let (next, r) = media::incoming_media(m, body);
            let offered = m.offer.audio.codecs;
            &&& r is Ok <==> a is Ok && ip_text::ip_text(a->Ok_0.addr) is Some && a->Ok_0.port != 0
                && exists|k: int|
                0 <= k < offered.len() && agrees(a->Ok_0.codecs, #[trigger] offered[k])
            &&& r is Err ==> next == m
            &&& r is Ok ==> {
                &&& next.offer == m.offer
                &&& next.pending is None
                &&& m.pending is None ==> next.active == m.active
                &&& m.pending is Some ==> next.active is Some && {
                    let relay = next.active->0;
                    &&& relay.relay == m.pending->0
                    &&& relay.operator == m.offer.endpoint
                    &&& relay.internal == SocketAddr {
                        ip: ip_text::ip_text(a->Ok_0.addr)->0,
                        port: a->Ok_0.port,
                    }
                    &&& m.offer.dtmf.rtp_event matches Some(t) ==> (sdp::telephone_event_of(
                        body,
                    ) matches Some(u) ==> t.payload_type != u.payload_type
                        ==> relay.mappings.contains(
                        PayloadTypeMapping { operator: t.payload_type, internal: u.payload_type },
                    ))
                }
                &&& exists|kept: Seq<Codec>|
                    {
                        &&& r->Ok_0 == media::relay_audio_text(
                            #[trigger] with_codecs(m.offer.audio, kept),
                            m.offer.dtmf.rtp_event,
                            m.operator_local,
                        )
                        &&& forall|i: int|
                            0 <= i < kept.len() ==> offered.contains(#[trigger] kept[i]) && agrees(
                                a->Ok_0.codecs,
                                kept[i],
                            )
                        &&& forall|k: int|
                            0 <= k < offered.len() && agrees(
                                a->Ok_0.codecs,
                                #[trigger] offered[k],
                            ) ==> kept.contains(offered[k])
                        &&& m.pending is Some ==> translates(
                            next.active->0.mappings,
                            kept,
                            a->Ok_0.codecs,
                        )
                    }
            }
        }),
{
    let a = sdp::audio_of(body);
    let offered = m.offer.audio.codecs;
    let (next, r) = media::incoming_media(m, body);
    if a is Ok && media::endpoint_of(a->Ok_0) is Ok {
        let codecs = a->Ok_0.codecs;
        let n = offered.len() as int;
        lemma_answered(offered, codecs, n);
        let kept = media::kept_upto(offered, codecs, n);
        lemma_mappings(kept, codecs, m.offer.dtmf.rtp_event, sdp::telephone_event_of(body));
        if exists|k: int| 0 <= k < offered.len() && agrees(codecs, #[trigger] offered[k]) {
            let k = choose|k: int| 0 <= k < offered.len() && agrees(codecs, #[trigger] offered[k]);
            assert(kept.contains(offered[k]));
        }
        if kept.len() > 0 {
            assert(agrees(codecs, kept[0]) && offered.contains(kept[0]));
            let k = choose|k: int| 0 <= k < offered.len() && offered[k] == kept[0];
            assert(agrees(codecs, offered[k]));
            assert(r->Ok_0 == media::relay_audio_text(
                with_codecs(m.offer.audio, kept),
                m.offer.dtmf.rtp_event,
                m.operator_local,
            ));
        }
    }
}

/// A relayed description without telephone events is that of the local endpoint.
pub proof fn law_plain_audio_is_relayed(a: Audio, local: SocketAddr)
    ensures
        media::relay_audio_text(a, None, local) == sdp::audio_text(
            Audio {
                addr: ip_text::ip_form(local.ip),
                addr_type: match local.ip {
                    IpAddr::V4(_) => SdpAddrType::Ip4,
                    IpAddr::V6(_) => SdpAddrType::Ip6,
                },
                port: local.port,
                codecs: a.codecs,
                direction: a.direction,
            },
        ),
{
}

/// Telephone events are added to a description without touching its other lines: their payload
/// type to the media line, and what they stand for before the direction.
pub proof fn law_telephone_events_are_added(line: Seq<char>, t: ToneEvent)
    ensures
        ({
            let r = media::relayed_line(line, t);
            let number = text::decimal(t.payload_type as nat);
            &&& text::starts(line, "m=audio "@) ==> r == line + " "@ + number + "\r\n"@
            &&& !text::starts(line, "m=audio "@) && (line == "a=sendrecv"@ || line
                == "a=sendonly"@ || line == "a=recvonly"@ || line == "a=inactive"@) ==> r
                == "a=rtpmap:"@ + number + " telephone-event/"@ + text::decimal(
                t.clock_rate as nat,
            ) + "\r\n"@ + (match t.events {
                Some(events) => "a=fmtp:"@ + number + " "@ + events + "\r\n"@,
                None => Seq::empty(),
            }) + line + "\r\n"@
            &&& !text::starts(line, "m=audio "@) && !text::starts(line, "a=send"@) && line
                != "a=recvonly"@ && line != "a=inactive"@ ==> r == line + "\r\n"@
        }),
{
    reveal_strlit("a=send");
    reveal_strlit("a=sendrecv");
    reveal_strlit("a=sendonly");
    assert("a=sendrecv"@.subrange(0, 6) =~= "a=send"@);
    assert("a=sendonly"@.subrange(0, 6) =~= "a=send"@);
    let number = text::decimal(t.payload_type as nat);
    let head = "a=rtpmap:"@ + number + " telephone-event/"@ + text::decimal(t.clock_rate as nat)
        + "\r\n"@;
    match t.events {
        Some(events) => {
            assert(head + "a=fmtp:"@ + number + " "@ + events + "\r\n"@ =~= head + ("a=fmtp:"@
                + number + " "@ + events + "\r\n"@));
        },
        None => {
            assert(head + Seq::<char>::empty() =~= head);
        },
    }
}

/// With a video on both sides and a local endpoint for it, the call's video is relayed too,
/// between the far ends that the two descriptions name; a video that cannot be agreed on fails
/// the answer, and without one on either side the call goes on with audio alone.
pub proof fn law_video_is_relayed_where_both_sides_have_it(m: Media, body: Seq<u8>)
    requires
        media::operator_media(Media { offer: media::Offer { video: None, ..m.offer }, ..m }, body).1
            is Ok,
    ensures
        ({
            let a = sdp::audio_of(body)->Ok_0;
            let v = sdp::video_of(body);
            let (next, r) = media::operator_media(m, body);
            let both = m.offer.video is Some && v is Ok && m.operator_video_local is Some
                && m.internal_video_local is Some;
            &&& !both ==> r is Ok && next.active_video is None && next.pending_video is None
            &&& both && r is Ok && m.pending_video is Some ==> next.active_video is Some && {
                let relay = next.active_video->0;
                let offered = m.offer.video->0;
                &&& relay.relay == m.pending_video->0
                &&& relay.internal == offered.endpoint
                &&& Ok::<_, Seq<char>>(relay.operator) == media::video_endpoint_of(a, v->Ok_0)
                &&& v->Ok_0.codec.payload_type != offered.description.codec.payload_type
                    ==> relay.mappings == seq![
                    PayloadTypeMapping {
                        operator: v->Ok_0.codec.payload_type,
                        internal: offered.description.codec.payload_type,
                    },
                ]
                &&& v->Ok_0.codec.payload_type == offered.description.codec.payload_type
                    ==> relay.mappings.len() == 0
            }
            &&& both ==> (r is Ok <==> text::alike(
                m.offer.video->0.description.codec.name,
                v->Ok_0.codec.name,
            ) && m.offer.video->0.description.codec.clock_rate == v->Ok_0.codec.clock_rate
                && media::video_endpoint_of(a, v->Ok_0) is Ok && (m.pending_video is Some
                || m.active_video is Some))
        }),
{
}

} // verus!
