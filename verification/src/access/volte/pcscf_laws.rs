//! Where the proxy of a line is found.

use crate::access::volte::pcscf;
use crate::access::volte::pcscf::{
    DiscoverySpec, Question, Records, Search, SearchStage, Settings,
};
use crate::address_text;
use crate::cellular_ims::errors::code;
use crate::ip_text;
use crate::net;
use crate::net::IpAddr;
use crate::text;
use crate::text_laws;
use vstd::prelude::*;

verus! {

// --------------------------------------------------------------------------- settings

pub open spec fn line(label: Seq<char>, value: Seq<char>) -> Seq<char> {
    label + seq![':', ' '] + value
}

proof fn lemma_ends(s: Seq<char>)
    requires
        s.len() > 0 && !text::white(s[0]) && !text::white(s.last()),
    ensures
        text::trim(s) == s,
{
    let none = Seq::<char>::empty();
    text_laws::law_trim_takes_the_ends(none, s, none);
    assert(none + s + none =~= s);
}

proof fn lemma_line(s: Settings, label: Seq<char>, value: Seq<char>)
    requires
        label.len() > 0 && !text::white(label[0]) && !text::white(label.last()),
        text_laws::without(label, ':'),
        value.len() > 0 && !text::white(value[0]) && !text::white(value.last()),
    ensures
        pcscf::with_line(s, line(label, value)) == pcscf::with_label(
            s,
            text::lower_all(label),
            value,
        ),
{
    let rest = seq![' '] + value;
    text_laws::law_cut_gives_both_sides(label, rest, ':');
    assert(line(label, value) =~= label.push(':') + rest);
    lemma_ends(label);
    let none = Seq::<char>::empty();
    text_laws::law_trim_takes_the_ends(seq![' '], value, none);
    assert(seq![' '] + value + none =~= rest);
}

/// An address is read from a value that is just it, and from one with a prefix length behind.
pub proof fn law_address_value_is_read(ip: IpAddr, prefix: Seq<char>)
    requires
        forall|i: int| 0 <= i < prefix.len() ==> '0' <= (#[trigger] prefix[i]) <= '9',
    ensures
        pcscf::addr_in(ip_text::ip_form(ip)) == Some(ip),
        pcscf::addr_in(ip_text::ip_form(ip).push('/') + prefix) == Some(ip),
{
    let s = ip_text::ip_form(ip);
    let long = s.push('/') + prefix;
    address_text::law_address_is_read_back(ip);
    address_text::lemma_address_chars(ip);
    let none = Seq::<char>::empty();
    assert forall|i: int| 0 <= i < s.len() implies !text::white(#[trigger] s[i]) by {}
    text_laws::law_words_are_parted_by_white_space(none, s, ' ', none);
    assert(none + s =~= s);
    text_laws::law_cut_gives_both_sides(s, prefix, '/');
    assert forall|i: int| 0 <= i < long.len() implies !text::white(#[trigger] long[i]) by {
        if i < s.len() {
            assert(long[i] == s[i]);
        } else if i > s.len() {
            assert(long[i] == prefix[i - s.len() - 1]);
        }
    }
    text_laws::law_words_are_parted_by_white_space(none, long, ' ', none);
    assert(none + long =~= long);
}

/// A list holds an address once, where it was added first.
pub proof fn law_address_is_listed_once(list: Seq<IpAddr>, ip: IpAddr)
    ensures
        pcscf::with_addr(list, Some(ip)).contains(ip),
        list.contains(ip) ==> pcscf::with_addr(list, Some(ip)) == list,
        !list.contains(ip) ==> pcscf::with_addr(list, Some(ip)) == list.push(ip),
        pcscf::with_addr(list, None) == list,
{
    if !list.contains(ip) {
        assert(list.push(ip)[list.len() as int] == ip);
    }
}

/// Each line of the settings says its own thing and leaves the others as they were.
pub proof fn law_settings_lines_are_read(s: Settings, ip: IpAddr)
    ensures
        ({
            let v = ip_text::ip_form(ip);
            &&& pcscf::with_line(s, line("IPv6 address"@, v)) == Settings {
                ipv6_address: Some(ip),
                ..s
            }
            &&& pcscf::with_line(s, line("IPv6 gateway address"@, v)) == Settings {
                ipv6_gateway: Some(ip),
                ..s
            }
            &&& pcscf::with_line(s, line("IPv4 address"@, v)) == Settings {
                ipv4_address: Some(ip),
                ..s
            }
            &&& pcscf::with_line(s, line("IPv4 gateway address"@, v)) == Settings {
                ipv4_gateway: Some(ip),
                ..s
            }
            &&& !s.ipv6_dns.contains(ip) ==> pcscf::with_line(s, line("IPv6 primary DNS"@, v))
                == Settings { ipv6_dns: s.ipv6_dns.push(ip), ..s }
            &&& !s.ipv6_dns.contains(ip) ==> pcscf::with_line(s, line("IPv6 secondary DNS"@, v))
                == Settings { ipv6_dns: s.ipv6_dns.push(ip), ..s }
            &&& !s.ipv4_dns.contains(ip) ==> pcscf::with_line(s, line("IPv4 primary DNS"@, v))
                == Settings { ipv4_dns: s.ipv4_dns.push(ip), ..s }
            &&& !s.ipv4_dns.contains(ip) ==> pcscf::with_line(s, line("IPv4 secondary DNS"@, v))
                == Settings { ipv4_dns: s.ipv4_dns.push(ip), ..s }
            &&& !s.pcscf.contains(ip) ==> pcscf::with_line(s, line("P-CSCF"@, v)) == Settings {
                pcscf: s.pcscf.push(ip),
                ..s
            }
        }),
{
    let v = ip_text::ip_form(ip);
    law_address_value_is_read(ip, seq![]);
    address_text::lemma_address_chars(ip);
    lemma_labels();
    lemma_line(s, "IPv6 address"@, v);
    lemma_line(s, "IPv6 gateway address"@, v);
    lemma_line(s, "IPv4 address"@, v);
    lemma_line(s, "IPv4 gateway address"@, v);
    lemma_line(s, "IPv6 primary DNS"@, v);
    lemma_line(s, "IPv6 secondary DNS"@, v);
    lemma_line(s, "IPv4 primary DNS"@, v);
    lemma_line(s, "IPv4 secondary DNS"@, v);
    lemma_line(s, "P-CSCF"@, v);
}

pub open spec fn usable_label(label: Seq<char>, low: Seq<char>) -> bool {
    &&& label.len() > 0 && !text::white(label[0]) && !text::white(label.last())
    &&& text_laws::without(label, ':')
    &&& text::lower_all(label) == low
}

proof fn lemma_labels()
    ensures
        usable_label("IPv6 address"@, "ipv6 address"@),
        usable_label("IPv6 gateway address"@, "ipv6 gateway address"@),
        usable_label("IPv6 primary DNS"@, "ipv6 primary dns"@),
        usable_label("IPv6 secondary DNS"@, "ipv6 secondary dns"@),
        usable_label("IPv4 address"@, "ipv4 address"@),
        usable_label("IPv4 gateway address"@, "ipv4 gateway address"@),
        usable_label("IPv4 primary DNS"@, "ipv4 primary dns"@),
        usable_label("IPv4 secondary DNS"@, "ipv4 secondary dns"@),
        usable_label("P-CSCF"@, "p-cscf"@),
        "ipv6 address"@.len() == 12 && "ipv6 address"@[3] == '6',
        "ipv4 address"@.len() == 12 && "ipv4 address"@[3] == '4',
        "ipv6 gateway address"@.len() == 20 && "ipv6 gateway address"@[3] == '6',
        "ipv4 gateway address"@.len() == 20 && "ipv4 gateway address"@[3] == '4',
        "ipv6 gateway"@.len() == 12 && "ipv6 gateway"@[5] == 'g',
        "ipv4 gateway"@.len() == 12 && "ipv4 gateway"@[5] == 'g',
        "ipv6 address"@[5] == 'a' && "ipv4 address"@[5] == 'a',
        "ipv6 primary dns"@.len() == 16 && "ipv6 primary dns"@[3] == '6',
        "ipv4 primary dns"@.len() == 16 && "ipv4 primary dns"@[3] == '4',
        "ipv6 secondary dns"@.len() == 18 && "ipv6 secondary dns"@[3] == '6',
        "ipv4 secondary dns"@.len() == 18 && "ipv4 secondary dns"@[3] == '4',
        "p-cscf"@.len() == 6,
{
    reveal_strlit("IPv6 address");
    reveal_strlit("ipv6 address");
    assert(text::lower_all("IPv6 address"@) =~= "ipv6 address"@);
    reveal_strlit("IPv6 gateway address");
    reveal_strlit("ipv6 gateway address");
    assert(text::lower_all("IPv6 gateway address"@) =~= "ipv6 gateway address"@);
    reveal_strlit("IPv6 primary DNS");
    reveal_strlit("ipv6 primary dns");
    assert(text::lower_all("IPv6 primary DNS"@) =~= "ipv6 primary dns"@);
    reveal_strlit("IPv6 secondary DNS");
    reveal_strlit("ipv6 secondary dns");
    assert(text::lower_all("IPv6 secondary DNS"@) =~= "ipv6 secondary dns"@);
    reveal_strlit("IPv4 address");
    reveal_strlit("ipv4 address");
    assert(text::lower_all("IPv4 address"@) =~= "ipv4 address"@);
    reveal_strlit("IPv4 gateway address");
    reveal_strlit("ipv4 gateway address");
    assert(text::lower_all("IPv4 gateway address"@) =~= "ipv4 gateway address"@);
    reveal_strlit("IPv4 primary DNS");
    reveal_strlit("ipv4 primary dns");
    assert(text::lower_all("IPv4 primary DNS"@) =~= "ipv4 primary dns"@);
    reveal_strlit("IPv4 secondary DNS");
    reveal_strlit("ipv4 secondary dns");
    assert(text::lower_all("IPv4 secondary DNS"@) =~= "ipv4 secondary dns"@);
    reveal_strlit("P-CSCF");
    reveal_strlit("p-cscf");
    assert(text::lower_all("P-CSCF"@) =~= "p-cscf"@);
    reveal_strlit("ipv6 gateway");
    reveal_strlit("ipv4 gateway");
}

/// The settings of a block are those of its lines, one after the other.
pub proof fn law_settings_grow_line_by_line(block: Seq<char>, more: Seq<char>)
    requires
        block.len() == 0 || block.last() == '\n',
        text_laws::without(more, '\n'),
        more.len() > 0 && more.last() != '\r',
    ensures
        pcscf::settings_in(block + more.push('\n')) == pcscf::with_line(
            pcscf::settings_in(block),
            more,
        ),
        pcscf::settings_in(Seq::empty()) == (Settings {
            ipv6_address: None,
            ipv6_gateway: None,
            ipv6_dns: seq![],
            ipv4_address: None,
            ipv4_gateway: None,
            ipv4_dns: seq![],
            pcscf: seq![],
        }),
{
    text_laws::law_lines_end_at_line_feeds(more, Seq::empty());
    assert(more.push('\n') + Seq::<char>::empty() =~= more.push('\n'));
    text::lemma_lines_join(block, more.push('\n'), 0);
    let a = text::lines(block);
    let b = text::lines(block + more.push('\n'));
    assert(b =~= a.push(more));
    lemma_upto(a, b, a.len() as int);
}

proof fn lemma_upto(a: Seq<Seq<char>>, b: Seq<Seq<char>>, n: int)
    requires
        0 <= n <= a.len(),
        n <= b.len(),
        forall|i: int| 0 <= i < n ==> a[i] == b[i],
    ensures
        pcscf::settings_upto(a, n) == pcscf::settings_upto(b, n),
    decreases n,
{
    if n > 0 {
        lemma_upto(a, b, n - 1);
    }
}

// --------------------------------------------------------------------------- the start

/// An address that was set by hand is used as it is where it is of the line's family, and the
/// search fails where it is not; one that came with the bearer is next, and only without any
/// the line's own servers are asked, in their order.
pub proof fn law_known_address_needs_no_search(
    s: Settings,
    home: Seq<char>,
    explicit: Option<Seq<char>>,
    ip: IpAddr,
)
    ensures
        ({
            let local = match s.ipv6_address {
                Some(a) => Some(a),
                None => s.ipv4_address,
            };
            let r = pcscf::discovery_start(s, home, explicit);
            let by_hand = explicit is Some && ip_text::ip_text(text::trim(explicit->0)) is Some;
            let known = if by_hand {
                ip_text::ip_text(text::trim(explicit->0))
            } else if s.pcscf.len() > 0 {
                Some(s.pcscf[0])
            } else {
                None
            };
            &&& local is None ==> r == DiscoverySpec::Failed(code::IP_SETTINGS_MISSING@)
            &&& local is Some && known is Some && (local->0 is V4) == (known->0 is V4) ==> r
                == DiscoverySpec::Known(known->0)
            &&& local is Some && known is Some && (local->0 is V4) != (known->0 is V4) ==> r
                == DiscoverySpec::Failed(code::PCSCF_FAMILY_MISMATCH@)
            &&& local is Some && known is None ==> {
                &&& r matches DiscoverySpec::Ask(q) && {
                    let dns = if local->0 is V6 {
                        s.ipv6_dns
                    } else {
                        s.ipv4_dns
                    };
                    &&& q.local == local->0
                    &&& q.home_domain == home
                    &&& q.server == 0
                    &&& q.stage == SearchStage::Name
                    &&& q.targets.len() == 0
                    &&& dns.contains(ip) && (ip is V4) == (local->0 is V4) ==> q.servers.contains(ip)
                    &&& q.servers.contains(ip) ==> dns.contains(ip) && (ip is V4) == (local->0
                        is V4)
                }
            }
        }),
{
    let local = pcscf::local_of(s);
    if local is Some {
        let dns = pcscf::dns_of(s, local->0);
        lemma_servers(dns, local->0, dns.len() as int, ip);
        assert(dns.take(dns.len() as int) =~= dns);
    }
}

proof fn lemma_servers(list: Seq<IpAddr>, local: IpAddr, n: int, ip: IpAddr)
    requires
        0 <= n <= list.len(),
    ensures
        pcscf::servers_alike(list, local, n).contains(ip) <==> list.take(n).contains(ip) && (ip
            is V4) == (local is V4),
    decreases n,
{
    let now = list.take(n);
    if n > 0 {
        lemma_servers(list, local, n - 1, ip);
        let before = list.take(n - 1);
        assert(now =~= before.push(list[n - 1]));
        let a = pcscf::servers_alike(list, local, n - 1);
        let b = pcscf::servers_alike(list, local, n);
        if before.contains(ip) {
            let i = choose|i: int| 0 <= i < before.len() && before[i] == ip;
            assert(now[i] == ip);
        }
        if a.contains(ip) {
            let i = choose|i: int| 0 <= i < a.len() && a[i] == ip;
            assert(b[i] == ip);
        }
        if list[n - 1] == ip {
            assert(now[n - 1] == ip);
            if (ip is V4) == (local is V4) {
                assert(b[a.len() as int] == ip);
            }
        }
        if now.contains(ip) {
            let i = choose|i: int| 0 <= i < now.len() && now[i] == ip;
            if i < n - 1 {
                assert(before[i] == ip);
            }
        }
        if b.contains(ip) {
            let i = choose|i: int| 0 <= i < b.len() && b[i] == ip;
            if i < a.len() {
                assert(a[i] == ip);
            }
        }
    }
}

// --------------------------------------------------------------------------- the search

/// A server is first asked for the address of the proxy's own name, then where the service is
/// over datagrams, then over streams; a name is asked for in the family of the line.
pub proof fn law_questions_are_asked_by_name(s: Search)
    requires
        pcscf::search_wf(s),
        s.server < s.servers.len(),
    ensures
        ({
            let q = pcscf::next_question(s);
            let kind: u16 = if s.local is V6 {
                28
            } else {
                1
            };
            &&& q is Some
            &&& q->0.server == s.servers[s.server]
            &&& s.stage is Name ==> q->0.name == "pcscf."@ + s.home_domain && q->0.record_type
                == kind
            &&& s.stage == SearchStage::Service(false) ==> q->0.name == "_sip._udp."@
                + s.home_domain && q->0.record_type == 33
            &&& s.stage == SearchStage::Service(true) ==> q->0.name == "_sip._tcp."@
                + s.home_domain && q->0.record_type == 33
            &&& s.stage matches SearchStage::Target(_, i) ==> q->0.name == s.targets[i as int]
                && q->0.record_type == kind
        }),
{
}

/// Once all servers were asked nothing more is, and nothing is found.
pub proof fn law_search_ends_with_the_last_server(s: Search, reply: Option<Records>)
    requires
        s.server >= s.servers.len(),
    ensures
        pcscf::next_question(s) is None,
        pcscf::search_step(s, reply) == (s, None::<IpAddr>),
{
}

/// The first address of the line's family in a reply ends the search, whichever name was asked
/// for; addresses of the other family do not count.
pub proof fn law_first_reachable_address_is_taken(s: Search, r: Records, k: int)
    requires
        s.server < s.servers.len(),
        !(s.stage is Service),
    ensures
        0 <= k < r.addresses.len() && (r.addresses[k] is V4) == (s.local is V4) && (forall|i: int|
            0 <= i < k ==> ((#[trigger] r.addresses[i]) is V4) != (s.local is V4))
            ==> pcscf::search_step(s, Some(r)) == (s, Some(r.addresses[k])),
        (forall|i: int|
            0 <= i < r.addresses.len() ==> ((#[trigger] r.addresses[i]) is V4) != (s.local is V4))
            ==> pcscf::search_step(s, Some(r)).1 is None,
        pcscf::search_step(s, None).1 is None,
{
    lemma_first(r.addresses, s.local, 0, k);
}

proof fn lemma_first(list: Seq<IpAddr>, local: IpAddr, from: int, k: int)
    requires
        0 <= from <= list.len(),
    ensures
        from <= k < list.len() && (list[k] is V4) == (local is V4) && (forall|i: int|
            from <= i < k ==> ((#[trigger] list[i]) is V4) != (local is V4)) ==> pcscf::first_alike(
            list,
            local,
            from,
        ) == Some(list[k]),
        (forall|i: int| from <= i < list.len() ==> ((#[trigger] list[i]) is V4) != (local is V4))
            ==> pcscf::first_alike(list, local, from) is None,
    decreases list.len() - from,
{
    if from < list.len() {
        let first = list[from];
        if !pcscf::alike_family(first, local) {
            lemma_first(list, local, from + 1, k);
        }
    }
}

/// A search that found nothing goes on where it is: from the proxy's name to the service over
/// datagrams, from there to each of the names that the service is at, in their order, then to
/// the service over streams and its names, and then to the next server.
pub proof fn law_search_goes_on_in_order(s: Search, reply: Option<Records>)
    requires
        pcscf::search_wf(s),
        s.server < s.servers.len(),
        pcscf::search_step(s, reply).1 is None,
        s.targets.len() <= usize::MAX,
    ensures
        ({
            let n = pcscf::search_step(s, reply).0;
            let places = reply is Some && reply->0.srv_targets.len() > 0;
            &&& n.local == s.local && n.servers == s.servers && n.home_domain == s.home_domain
            &&& s.stage is Name ==> n.stage == SearchStage::Service(false) && n.server == s.server
            &&& s.stage matches SearchStage::Service(streams) ==> {
                &&& places ==> n.stage == SearchStage::Target(streams, 0) && n.targets
                    == reply->0.srv_targets && n.server == s.server
                &&& !places && !streams ==> n.stage == SearchStage::Service(true) && n.server
                    == s.server
                &&& !places && streams ==> n.stage is Name && n.server == s.server + 1
            }
            &&& s.stage matches SearchStage::Target(streams, i) ==> {
                &&& i + 1 < s.targets.len() ==> n.stage == SearchStage::Target(
                    streams,
                    (i + 1) as usize,
                ) && n.targets == s.targets && n.server == s.server
                &&& i + 1 >= s.targets.len() && !streams ==> n.stage == SearchStage::Service(true)
                    && n.server == s.server
                &&& i + 1 >= s.targets.len() && streams ==> n.stage is Name && n.server == s.server
                    + 1
            }
        }),
{
}

// --------------------------------------------------------------------------- replies

/// The record at `at` of a reply has this type and these data.
pub open spec fn record_at(
    p: Seq<u8>,
    at: int,
    kind: int,
    data: int,
    length: int,
) -> bool {
    &&& pcscf::name_at(p, at) matches Some((_, end)) && {
        &&& data == end + 10
        &&& 0 <= end
        &&& data + length <= p.len()
        &&& p[end] as int * 256 + p[end + 1] as int == kind
        &&& p[end + 8] as int * 256 + p[end + 9] as int == length
    }
}

/// The records of a reply stand one behind the other.
pub open spec fn records_at(
    p: Seq<u8>,
    at: Seq<int>,
    kinds: Seq<int>,
    lengths: Seq<int>,
) -> bool {
    &&& at.len() == kinds.len() + 1
    &&& lengths.len() == kinds.len()
    &&& forall|i: int|
        0 <= i < kinds.len() ==> record_at(
            p,
            #[trigger] at[i],
            kinds[i],
            at[i + 1] - lengths[i],
            lengths[i],
        )
}

/// The address that the record at place `i` gives, if it is one.
pub open spec fn gives(
    p: Seq<u8>,
    at: Seq<int>,
    kinds: Seq<int>,
    lengths: Seq<int>,
    i: int,
) -> Option<IpAddr> {
    let data = p.subrange(at[i + 1] - lengths[i], at[i + 1]);
    if kinds[i] == 1 && lengths[i] == 4 {
        Some(IpAddr::V4(net::be_value(data) as u32))
    } else if kinds[i] == 28 && lengths[i] == 16 {
        Some(IpAddr::V6(net::be_value(data) as u128))
    } else {
        None
    }
}

/// Every address that a reply gives is found, none is found that it does not give, and those
/// found earlier stay in front.
pub proof fn law_every_address_is_found(
    p: Seq<u8>,
    at: Seq<int>,
    kinds: Seq<int>,
    lengths: Seq<int>,
    r: Records,
    from: int,
)
    requires
        records_at(p, at, kinds, lengths),
        0 <= from <= kinds.len(),
    ensures
        pcscf::records_from(p, at[from], (kinds.len() - from) as nat, r) matches Some(out) ==> {
            &&& forall|i: int|
                from <= i < kinds.len() && (#[trigger] gives(p, at, kinds, lengths, i)) is Some
                    ==> out.addresses.contains(gives(p, at, kinds, lengths, i)->0)
            &&& r.addresses.len() <= out.addresses.len()
            &&& forall|k: int|
                0 <= k < r.addresses.len() ==> (#[trigger] out.addresses[k]) == r.addresses[k]
            &&& forall|k: int|
                r.addresses.len() <= k < out.addresses.len() ==> exists|i: int|
                    from <= i < kinds.len() && #[trigger] gives(p, at, kinds, lengths, i) == Some(
                        #[trigger] out.addresses[k],
                    )
        },
    decreases kinds.len() - from,
{
    if from < kinds.len() {
        assert(record_at(
            p,
            at[from],
            kinds[from],
            at[from + 1] - lengths[from],
            lengths[from],
        ));
        let next = pcscf::with_record(
            r,
            p,
            kinds[from],
            at[from + 1] - lengths[from],
            lengths[from],
        );
        let given = gives(p, at, kinds, lengths, from);
        if next is Some {
            let more = next->0;
            law_every_address_is_found(p, at, kinds, lengths, more, from + 1);
            assert(given is Some ==> more.addresses == r.addresses.push(given->0));
            assert(given is None ==> more.addresses == r.addresses);
            let all = pcscf::records_from(p, at[from], (kinds.len() - from) as nat, r);
            assert(all == pcscf::records_from(
                p,
                at[from + 1],
                (kinds.len() - from - 1) as nat,
                more,
            ));
            if all is Some {
                let out = all->0;
                if given is Some {
                    let k = r.addresses.len() as int;
                    assert(more.addresses[k] == given->0);
                    assert(out.addresses[k] == given->0);
                }
                assert forall|k: int| 0 <= k < r.addresses.len() implies (
                #[trigger] out.addresses[k]) == r.addresses[k] by {
                    assert(more.addresses[k] == r.addresses[k]);
                }
            }
        }
    }
}

/// A reply is read only where it carries the number of the query and reports no failure.
pub proof fn law_foreign_replies_are_ignored(id: u16, p: Seq<u8>)
    ensures
        p.len() < 12 ==> pcscf::records_in(id, p) is None,
        p.len() >= 12 && p[0] as int * 256 + p[1] as int != id ==> pcscf::records_in(id, p) is None,
        p.len() >= 12 && p[3] % 16 != 0 ==> pcscf::records_in(id, p) is None,
{
}

/// A query asks one question of this type in the Internet class, wants recursion, and carries
/// its number.
pub proof fn law_query_is_one_question(id: u16, name: Seq<char>, kind: u16)
    ensures
        pcscf::query_for(id, name, kind) matches Some(q) ==> {
            let n = q.len() as int;
            &&& n >= 17
            &&& q[0] as int * 256 + q[1] as int == id
            &&& q[2] == 1 && q[3] == 0
            &&& q[4] == 0 && q[5] == 1
            &&& q[6] == 0 && q[7] == 0 && q[8] == 0 && q[9] == 0 && q[10] == 0 && q[11] == 0
            &&& q[n - 5] == 0
            &&& q[n - 4] as int * 256 + q[n - 3] as int == kind
            &&& q[n - 2] == 0 && q[n - 1] == 1
        },
{
    if pcscf::query_for(id, name, kind) is Some {
        let q = pcscf::query_for(id, name, kind)->0;
        let labels = pcscf::query_labels(name);
        let wire = pcscf::labels_wire(labels, labels.len() as int);
        let head = lemma_query_head(id);
        let tail = lemma_query_tail(kind);
        assert(q =~= head + wire + tail);
        lemma_between(q, head, wire, tail);
        let n = q.len() as int;
        assert(q[n - 5 + 0] == tail[0] && q[n - 5 + 1] == tail[1] && q[n - 5 + 2] == tail[2]);
        assert(q[n - 5 + 3] == tail[3] && q[n - 5 + 4] == tail[4]);
    }
}

proof fn lemma_query_head(id: u16) -> (head: Seq<u8>)
    ensures
        head == net::word_bytes(id) + net::word_bytes(0x0100) + net::word_bytes(1)
            + net::word_bytes(0) + net::word_bytes(0) + net::word_bytes(0),
        head == seq![(id / 256) as u8, (id % 256) as u8, 1, 0, 0, 1, 0, 0, 0, 0, 0, 0],
{
    let head = net::word_bytes(id) + net::word_bytes(0x0100) + net::word_bytes(1)
        + net::word_bytes(0) + net::word_bytes(0) + net::word_bytes(0);
    assert(head =~= seq![(id / 256) as u8, (id % 256) as u8, 1, 0, 0, 1, 0, 0, 0, 0, 0, 0]);
    head
}

proof fn lemma_query_tail(kind: u16) -> (tail: Seq<u8>)
    ensures
        tail == seq![0u8] + net::word_bytes(kind) + net::word_bytes(1),
        tail == seq![0u8, (kind / 256) as u8, (kind % 256) as u8, 0, 1],
{
    let tail = seq![0u8] + net::word_bytes(kind) + net::word_bytes(1);
    assert(tail =~= seq![0u8, (kind / 256) as u8, (kind % 256) as u8, 0, 1]);
    tail
}

proof fn lemma_between(q: Seq<u8>, head: Seq<u8>, wire: Seq<u8>, tail: Seq<u8>)
    requires
        q == head + wire + tail,
    ensures
        q.len() == head.len() + wire.len() + tail.len(),
        forall|i: int| 0 <= i < head.len() ==> q[i] == head[i],
        forall|i: int| 0 <= i < tail.len() ==> q[q.len() - tail.len() + i] == tail[i],
{
}

/// The number of a query is turned by five bits for each octet of the name.
pub proof fn law_query_number_turns_by_five(h: u16, name: Seq<u8>, b: u8)
    ensures
        pcscf::query_hash(h, name.push(b), name.len() as int + 1) == ((pcscf::query_hash(
            h,
            name,
            name.len() as int,
        ) << 5u16) | (pcscf::query_hash(h, name, name.len() as int) >> 11u16)) ^ (b as u16),
        pcscf::query_hash(h, name, 0) == h,
{
    let n = name.len() as int;
    lemma_hash(h, name.push(b), name, n);
    let x = pcscf::query_hash(h, name, n);
    assert((x % 2048) * 32 + x / 2048 == (x << 5u16) | (x >> 11u16)) by (bit_vector);
    assert(pcscf::turned(x) == ((x << 5u16) | (x >> 11u16)));
}

proof fn lemma_hash(h: u16, a: Seq<u8>, b: Seq<u8>, n: int)
    requires
        0 <= n <= a.len(),
        n <= b.len(),
        forall|i: int| 0 <= i < n ==> a[i] == b[i],
    ensures
        pcscf::query_hash(h, a, n) == pcscf::query_hash(h, b, n),
    decreases n,
{
    if n > 0 {
        lemma_hash(h, a, b, n - 1);
    }
}

} // verus!
