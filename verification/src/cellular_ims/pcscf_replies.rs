//! What a DNS reply has to say for a query, and what becomes of it.

use crate::cellular_ims::pcscf_dns;
use crate::cellular_ims::pcscf_dns::{
    AnswerValue, DataValue, Srv, A, AAAA, IN, MAX_CNAME_HOPS,
};
use crate::net;
use crate::net::IpAddr;
use vstd::prelude::*;

verus! {

// -------------------------------------------------------------- what is selected

/// An answer with an address of this name and type.
pub open spec fn gives(a: AnswerValue, owner: Seq<Seq<u8>>, kind: u16, ip: IpAddr) -> bool {
    a.owner == owner && a.kind == kind && a.data == DataValue::Address(ip)
}

/// The first answer that gives its address.
pub open spec fn gives_first(
    answers: Seq<AnswerValue>,
    owner: Seq<Seq<u8>>,
    kind: u16,
    i: int,
    ip: IpAddr,
) -> bool {
    &&& 0 <= i < answers.len()
    &&& gives(answers[i], owner, kind, ip)
    &&& forall|j: int| 0 <= j < i ==> !gives(#[trigger] answers[j], owner, kind, ip)
}

proof fn lemma_known(answers: Seq<AnswerValue>, owner: Seq<Seq<u8>>, kind: u16, n: nat, m: nat)
    requires
        n <= m <= answers.len(),
    ensures
        pcscf_dns::addresses_upto(answers, owner, kind, n).len() <= pcscf_dns::addresses_upto(
            answers,
            owner,
            kind,
            m,
        ).len(),
        forall|k: int|
            0 <= k < pcscf_dns::addresses_upto(answers, owner, kind, n).len()
                ==> #[trigger] pcscf_dns::addresses_upto(answers, owner, kind, m)[k]
                == pcscf_dns::addresses_upto(answers, owner, kind, n)[k],
    decreases m - n,
{
    if n < m {
        lemma_known(answers, owner, kind, n, (m - 1) as nat);
    }
}

proof fn lemma_position(answers: Seq<AnswerValue>, owner: Seq<Seq<u8>>, kind: u16, i: int, ip: IpAddr)
    requires
        gives_first(answers, owner, kind, i, ip),
    ensures
        ({
            let before = pcscf_dns::addresses_upto(answers, owner, kind, i as nat);
            let all = pcscf_dns::addresses_upto(answers, owner, kind, answers.len());
            &&& before.len() < all.len()
            &&& all[before.len() as int] == ip
            &&& pcscf_dns::addresses_upto(answers, owner, kind, (i + 1) as nat).len()
                == before.len() + 1
        }),
{
    let before = pcscf_dns::addresses_upto(answers, owner, kind, i as nat);
    pcscf_dns::law_addresses_come_from_answers(answers, owner, kind, i as nat);
    assert(!before.contains(ip)) by {
        if before.contains(ip) {
            let k = choose|k: int| 0 <= k < before.len() && before[k] == ip;
            let j = choose|j: int|
                0 <= j < i && pcscf_dns::selected(answers[j], owner, kind)
                    && #[trigger] answers[j].data == DataValue::Address(before[k]);
            assert(gives(answers[j], owner, kind, ip));
        }
    }
    let next = pcscf_dns::addresses_upto(answers, owner, kind, (i + 1) as nat);
    assert(next == before.push(ip));
    lemma_known(answers, owner, kind, (i + 1) as nat, answers.len());
    assert(next[before.len() as int] == ip);
}

proof fn lemma_first(answers: Seq<AnswerValue>, owner: Seq<Seq<u8>>, kind: u16, i: int, ip: IpAddr) -> (f:
    int)
    requires
        0 <= i < answers.len(),
        gives(answers[i], owner, kind, ip),
    ensures
        gives_first(answers, owner, kind, f, ip),
        f <= i,
    decreases i,
{
    if exists|j: int| 0 <= j < i && gives(#[trigger] answers[j], owner, kind, ip) {
        let j = choose|j: int| 0 <= j < i && gives(#[trigger] answers[j], owner, kind, ip);
        lemma_first(answers, owner, kind, j, ip)
    } else {
        i
    }
}

/// No address is lost: whatever answer of the name and type gives an address, the result
/// holds it.
pub proof fn law_every_address_is_found(
    answers: Seq<AnswerValue>,
    owner: Seq<Seq<u8>>,
    kind: u16,
    i: int,
    ip: IpAddr,
)
    requires
        0 <= i < answers.len(),
        gives(answers[i], owner, kind, ip),
    ensures
        pcscf_dns::results_of(answers, owner, kind).addresses.contains(ip),
{
    let f = lemma_first(answers, owner, kind, i, ip);
    lemma_position(answers, owner, kind, f, ip);
    let all = pcscf_dns::results_of(answers, owner, kind).addresses;
    let k = pcscf_dns::addresses_upto(answers, owner, kind, f as nat).len() as int;
    assert(all[k] == ip);
}

/// Addresses keep the order in which the answers first give them.
pub proof fn law_addresses_keep_their_order(
    answers: Seq<AnswerValue>,
    owner: Seq<Seq<u8>>,
    kind: u16,
    i: int,
    j: int,
    one: IpAddr,
    other: IpAddr,
)
    requires
        gives_first(answers, owner, kind, i, one),
        gives_first(answers, owner, kind, j, other),
        i < j,
    ensures
        exists|p: int, q: int|
            0 <= p < q < pcscf_dns::results_of(answers, owner, kind).addresses.len()
                && #[trigger] pcscf_dns::results_of(answers, owner, kind).addresses[p] == one
                && #[trigger] pcscf_dns::results_of(answers, owner, kind).addresses[q] == other,
{
    lemma_position(answers, owner, kind, i, one);
    lemma_position(answers, owner, kind, j, other);
    lemma_known(answers, owner, kind, (i + 1) as nat, j as nat);
    let p = pcscf_dns::addresses_upto(answers, owner, kind, i as nat).len() as int;
    let q = pcscf_dns::addresses_upto(answers, owner, kind, j as nat).len() as int;
    let all = pcscf_dns::results_of(answers, owner, kind).addresses;
    assert(all[p] == one && all[q] == other && p < q);
}

proof fn lemma_service_kept(
    answers: Seq<AnswerValue>,
    owner: Seq<Seq<u8>>,
    kind: u16,
    i: int,
    n: nat,
    target: Srv,
)
    requires
        0 <= i < n <= answers.len(),
        answers[i].owner == owner,
        answers[i].kind == kind,
        answers[i].data == DataValue::Service(Some(target)),
    ensures
        pcscf_dns::services_upto(answers, owner, kind, n).contains(target),
    decreases n,
{
    let found = pcscf_dns::services_upto(answers, owner, kind, (n - 1) as nat);
    let all = pcscf_dns::services_upto(answers, owner, kind, n);
    if i < n - 1 {
        lemma_service_kept(answers, owner, kind, i, (n - 1) as nat, target);
        let k = choose|k: int| 0 <= k < found.len() && found[k] == target;
        assert(all[k] == target);
    } else if !found.contains(target) {
        assert(all.last() == target);
    }
}

/// No service is lost: whatever answer of the name and type names a host and a port, the
/// result holds it. What comes first has the lowest priority.
pub proof fn law_every_service_is_found(
    answers: Seq<AnswerValue>,
    owner: Seq<Seq<u8>>,
    kind: u16,
    i: int,
    target: Srv,
)
    requires
        0 <= i < answers.len(),
        answers[i].owner == owner,
        answers[i].kind == kind,
        answers[i].data == DataValue::Service(Some(target)),
    ensures
        pcscf_dns::results_of(answers, owner, kind).srv_targets.contains(target),
        pcscf_dns::results_of(answers, owner, kind).srv_targets[0].priority <= target.priority,
        forall|p: int, q: int|
            0 <= p < q < pcscf_dns::results_of(answers, owner, kind).srv_targets.len()
                ==> (#[trigger] pcscf_dns::results_of(answers, owner, kind).srv_targets[p]).priority
                <= (#[trigger] pcscf_dns::results_of(answers, owner, kind).srv_targets[q]).priority,
{
    broadcast use vstd::seq_lib::group_to_multiset_ensures;

    let found = pcscf_dns::services_upto(answers, owner, kind, answers.len());
    lemma_service_kept(answers, owner, kind, i, answers.len(), target);
    pcscf_dns::law_services_ordered(found);
    let sorted = pcscf_dns::by_priority(found);
    assert(found.to_multiset().contains(target));
    assert(sorted.to_multiset().contains(target));
    assert(sorted.contains(target));
    let k = choose|k: int| 0 <= k < sorted.len() && sorted[k] == target;
    assert(sorted[0].priority <= sorted[k].priority);
}

// --------------------------------------------------------------------- the chain

proof fn lemma_alias(
    answers: Seq<AnswerValue>,
    owner: Seq<Seq<u8>>,
    i: int,
    next: Option<Seq<Seq<u8>>>,
)
    requires
        0 <= i <= answers.len(),
    ensures
        pcscf_dns::alias_from(answers, owner, i, next) == Ok::<_, Seq<char>>(
            None::<Seq<Seq<u8>>>,
        ) ==> next is None && forall|j: int|
            i <= j < answers.len() ==> !((#[trigger] answers[j]).owner == owner
                && answers[j].data is Alias),
        pcscf_dns::alias_from(answers, owner, i, next) matches Ok(Some(t)) ==> (next is Some
            ==> next == Some(t)) && forall|j: int|
            i <= j < answers.len() && (#[trigger] answers[j]).owner == owner
                && answers[j].data is Alias ==> answers[j].data == DataValue::Alias(t),
    decreases answers.len() - i,
{
    if i < answers.len() {
        if answers[i].owner == owner && answers[i].data is Alias {
            let target = answers[i].data->Alias_0;
            if !(next is Some && next != Some(target)) {
                lemma_alias(answers, owner, i + 1, Some(target));
            }
        } else {
            lemma_alias(answers, owner, i + 1, next);
        }
    }
}

/// A chain of aliases ends at a name that has none.
pub proof fn law_chain_ends_without_alias(
    answers: Seq<AnswerValue>,
    owner: Seq<Seq<u8>>,
    visited: Seq<Seq<Seq<u8>>>,
    hops: nat,
    i: int,
)
    requires
        pcscf_dns::chain_from(answers, owner, visited, hops) is Ok,
        0 <= i < answers.len(),
        answers[i].owner == pcscf_dns::chain_from(answers, owner, visited, hops)->Ok_0,
    ensures
        !(answers[i].data is Alias),
    decreases hops,
{
    lemma_alias(answers, owner, 0, None);
    match pcscf_dns::alias_from(answers, owner, 0, None) {
        Ok(Some(target)) => {
            law_chain_ends_without_alias(
                answers,
                target,
                visited.push(target),
                (hops - 1) as nat,
                i,
            );
        },
        _ => {},
    }
}

/// An alias is followed: where a name has one, its chain is that of the alias, and a name
/// that has none is its own end.
pub proof fn law_alias_is_followed(
    answers: Seq<AnswerValue>,
    owner: Seq<Seq<u8>>,
    visited: Seq<Seq<Seq<u8>>>,
    hops: nat,
)
    requires
        pcscf_dns::chain_from(answers, owner, visited, hops) is Ok,
    ensures
        forall|i: int|
            0 <= i < answers.len() && (#[trigger] answers[i]).owner == owner
                && answers[i].data is Alias ==> hops > 0 && pcscf_dns::chain_from(
                answers,
                owner,
                visited,
                hops,
            ) == pcscf_dns::chain_from(
                answers,
                answers[i].data->Alias_0,
                visited.push(answers[i].data->Alias_0),
                (hops - 1) as nat,
            ),
        (forall|i: int|
            0 <= i < answers.len() && (#[trigger] answers[i]).owner == owner
                ==> !(answers[i].data is Alias)) ==> pcscf_dns::chain_from(
            answers,
            owner,
            visited,
            hops,
        ) == Ok::<_, Seq<char>>(owner),
{
    lemma_alias(answers, owner, 0, None);
    lemma_alias_comes_from(answers, owner, 0, None);
}

proof fn lemma_alias_comes_from(
    answers: Seq<AnswerValue>,
    owner: Seq<Seq<u8>>,
    i: int,
    next: Option<Seq<Seq<u8>>>,
)
    requires
        0 <= i <= answers.len(),
    ensures
        pcscf_dns::alias_from(answers, owner, i, next) matches Ok(Some(t)) ==> next == Some(t)
            || exists|j: int|
            i <= j < answers.len() && (#[trigger] answers[j]).owner == owner && answers[j].data
                == DataValue::Alias(t),
    decreases answers.len() - i,
{
    if i < answers.len() {
        if answers[i].owner == owner && answers[i].data is Alias {
            lemma_alias_comes_from(answers, owner, i + 1, Some(answers[i].data->Alias_0));
        } else {
            lemma_alias_comes_from(answers, owner, i + 1, next);
        }
    }
}

// ------------------------------------------------------------------ on the wire

/// A query on the wire: its number, recursion wished for, one question and nothing else;
/// at its end the type and the class of the question.
pub proof fn law_query_is_one_question(id: u16, name: Seq<char>, kind: u16)
    requires
        pcscf_dns::query(id, name, kind) is Ok,
    ensures
        ({
            let p = pcscf_dns::query(id, name, kind)->Ok_0;
            let n = p.len() as int;
            &&& n >= 17
            &&& p[0] as int * 256 + p[1] == id
            &&& p.subrange(2, 12) == seq![1u8, 0, 0, 1, 0, 0, 0, 0, 0, 0]
            &&& p[n - 5] == 0
            &&& p[n - 4] as int * 256 + p[n - 3] == kind
            &&& p[n - 2] == 0 && p[n - 1] == 1
            &&& kind == 1 || kind == 28 || kind == 33
        }),
{
    let p = pcscf_dns::query(id, name, kind)->Ok_0;
    assert(p.subrange(2, 12) =~= seq![1u8, 0, 0, 1, 0, 0, 0, 0, 0, 0]);
}

/// A reply that is taken answers the query: it bears its number, is a response without an
/// error and whole, and has one question.
pub proof fn law_reply_answers_the_query(id: u16, name: Seq<char>, kind: u16, p: Seq<u8>)
    requires
        pcscf_dns::response(id, name, kind, p) is Ok,
    ensures
        p.len() >= 12,
        p[0] as int * 256 + p[1] == id,
        p[2] >= 128,
        ((p[2] as int * 256 + p[3]) as u16) & 0x020f == 0,
        p[4] == 0 && p[5] == 1,
        kind == 1 || kind == 28 || kind == 33,
        pcscf_dns::name_at(p, 12) is Ok,
        pcscf_dns::host_name(name) is Ok,
        pcscf_dns::name_at(p, 12)->Ok_0.0 == pcscf_dns::host_labels(name),
        ({
            let end = pcscf_dns::name_at(p, 12)->Ok_0.1;
            p[end] as int * 256 + p[end + 1] == kind && p[end + 2] == 0 && p[end + 3] == 1
        }),
{
    let flags = net::word_at(p, 2) as u16;
    assert(flags & 0x7a4f == 0 ==> flags & 0x020f == 0) by (bit_vector);
}

/// A record of an address on the wire.
pub open spec fn record_wire(labels: Seq<Seq<u8>>, kind: u16, ttl: Seq<u8>, octets: Seq<u8>) -> Seq<u8> {
    pcscf_dns::name_wire(labels) + net::word_bytes(kind) + seq![0u8, 1] + ttl + net::word_bytes(
        octets.len() as u16,
    ) + octets
}

pub open spec fn records_wire(
    labels: Seq<Seq<u8>>,
    kind: u16,
    ttl: Seq<u8>,
    list: Seq<Seq<u8>>,
) -> Seq<u8>
    decreases list.len(),
{
    if list.len() == 0 {
        seq![]
    } else {
        records_wire(labels, kind, ttl, list.drop_last()) + record_wire(
            labels,
            kind,
            ttl,
            list.last(),
        )
    }
}

/// A reply on the wire that gives these addresses for a name.
pub open spec fn reply_wire(
    id: u16,
    labels: Seq<Seq<u8>>,
    kind: u16,
    ttl: Seq<u8>,
    list: Seq<Seq<u8>>,
) -> Seq<u8> {
    net::word_bytes(id) + seq![0x81u8, 0x80, 0, 1] + net::word_bytes(list.len() as u16) + seq![
        0u8,
        0,
        0,
        0,
    ] + pcscf_dns::name_wire(labels) + net::word_bytes(kind) + seq![0u8, 1] + records_wire(
        labels,
        kind,
        ttl,
        list,
    )
}

pub open spec fn address_in(octets: Seq<u8>) -> IpAddr {
    if octets.len() == 4 {
        net::v4_of(octets)
    } else {
        net::v6_of(octets)
    }
}

proof fn lemma_records_len(labels: Seq<Seq<u8>>, kind: u16, ttl: Seq<u8>, list: Seq<Seq<u8>>, w: int)
    requires
        ttl.len() == 4,
        forall|i: int| 0 <= i < list.len() ==> (#[trigger] list[i]).len() == w,
    ensures
        records_wire(labels, kind, ttl, list).len() == list.len() * (pcscf_dns::name_wire(
            labels,
        ).len() + 10 + w),
    decreases list.len(),
{
    let step = pcscf_dns::name_wire(labels).len() + 10 + w;
    if list.len() > 0 {
        lemma_records_len(labels, kind, ttl, list.drop_last(), w);
        assert(list.last().len() == w);
        assert((list.len() - 1) * step + step == list.len() * step) by (nonlinear_arith);
    } else {
        assert(0 * step == 0) by (nonlinear_arith);
    }
}

proof fn lemma_record_place(
    labels: Seq<Seq<u8>>,
    kind: u16,
    ttl: Seq<u8>,
    list: Seq<Seq<u8>>,
    w: int,
    i: int,
)
    requires
        ttl.len() == 4,
        forall|j: int| 0 <= j < list.len() ==> (#[trigger] list[j]).len() == w,
        0 <= i < list.len(),
    ensures
        ({
            let step = pcscf_dns::name_wire(labels).len() + 10 + w;
            let all = records_wire(labels, kind, ttl, list);
            &&& 0 <= i * step
            &&& (i + 1) * step <= all.len()
            &&& (i + 1) * step == i * step + step
            &&& all.subrange(i * step, (i + 1) * step) == record_wire(labels, kind, ttl, list[i])
        }),
    decreases list.len(),
{
    let step = pcscf_dns::name_wire(labels).len() + 10 + w;
    let all = records_wire(labels, kind, ttl, list);
    let before = records_wire(labels, kind, ttl, list.drop_last());
    lemma_records_len(labels, kind, ttl, list, w);
    lemma_records_len(labels, kind, ttl, list.drop_last(), w);
    assert(list[i].len() == w && list.last().len() == w);
    assert((i + 1) * step == i * step + step && 0 <= i * step) by (nonlinear_arith)
        requires
            0 <= i,
            0 <= step,
    ;
    assert((list.len() - 1) * step + step == list.len() * step) by (nonlinear_arith);
    if i < list.len() - 1 {
        lemma_record_place(labels, kind, ttl, list.drop_last(), w, i);
        assert(all.subrange(i * step, (i + 1) * step) =~= before.subrange(
            i * step,
            (i + 1) * step,
        ));
        assert((i + 1) * step <= list.len() * step) by (nonlinear_arith)
            requires
                i + 1 <= list.len(),
                0 <= step,
        ;
    } else {
        assert(all.subrange(i * step, (i + 1) * step) =~= record_wire(labels, kind, ttl, list[i]));
    }
}

/// The answers of a reply.
pub open spec fn reply_answers(labels: Seq<Seq<u8>>, kind: u16, list: Seq<Seq<u8>>) -> Seq<AnswerValue> {
    Seq::new(
        list.len(),
        |i: int|
            AnswerValue { owner: labels, kind, data: DataValue::Address(address_in(list[i])) },
    )
}

#[verifier::spinoff_prover]
#[verifier::rlimit(60)]
proof fn lemma_reply_record(
    id: u16,
    labels: Seq<Seq<u8>>,
    kind: u16,
    ttl: Seq<u8>,
    list: Seq<Seq<u8>>,
    w: int,
    i: int,
)
    requires
        pcscf_dns::wire_labels(labels),
        kind == A && w == 4 || kind == AAAA && w == 16,
        ttl.len() == 4,
        forall|j: int| 0 <= j < list.len() ==> (#[trigger] list[j]).len() == w,
        0 <= i < list.len(),
    ensures
        ({
            let p = reply_wire(id, labels, kind, ttl, list);
            let n = pcscf_dns::name_wire(labels).len() as int;
            let at = 16 + n + i * (n + 10 + w);
            pcscf_dns::record_at(p, 0, at, false) == Ok::<_, Seq<char>>(
                pcscf_dns::RecordValue {
                    answer: reply_answers(labels, kind, list)[i],
                    class: IN,
                    end: at + n + 10 + w,
                },
            )
        }),
{
    let p = reply_wire(id, labels, kind, ttl, list);
    let name = pcscf_dns::name_wire(labels);
    let n = name.len() as int;
    let step = n + 10 + w;
    let all = records_wire(labels, kind, ttl, list);
    let rec = record_wire(labels, kind, ttl, list[i]);
    let at = 16 + n + i * step;
    lemma_record_place(labels, kind, ttl, list, w, i);
    assert(p.len() == 16 + n + all.len());
    assert(rec.len() == step);
    assert forall|k: int| 0 <= k < step implies p[at + k] == #[trigger] rec[k] by {
        assert(all.subrange(i * step, (i + 1) * step)[k] == all[i * step + k]);
        assert(p[16 + n + (i * step + k)] == all[i * step + k]);
    }
    assert(p.subrange(at, at + n) =~= name) by {
        assert forall|k: int| 0 <= k < n implies p[at + k] == name[k] by {
            assert(rec[k] == name[k]);
        }
    }
    pcscf_dns::lemma_name_reads(p, labels, at);
    let header = at + n;
    assert(rec[n] == net::word_bytes(kind)[0]);
    assert(rec[n + 1] == net::word_bytes(kind)[1]);
    assert(rec[n + 2] == 0 && rec[n + 3] == 1);
    assert(rec[n + 8] == net::word_bytes(w as u16)[0]);
    assert(rec[n + 9] == net::word_bytes(w as u16)[1]);
    assert(p[at + (n + 1)] == rec[n + 1]);
    assert(p[at + (n + 2)] == rec[n + 2] && p[at + (n + 3)] == rec[n + 3]);
    assert(p[at + (n + 8)] == rec[n + 8] && p[at + (n + 9)] == rec[n + 9]);
    assert(net::word_at(p, header) == kind);
    assert(net::word_at(p, header + 2) == 1);
    assert(net::word_at(p, header + 8) == w);
    assert(p.subrange(header + 10, header + 10 + w) =~= list[i]) by {
        assert forall|k: int| 0 <= k < w implies p[header + 10 + k] == list[i][k] by {
            assert(rec[n + 10 + k] == list[i][k]);
            assert(p[at + (n + 10 + k)] == rec[n + 10 + k]);
        }
    }
}

proof fn lemma_reply_records(
    id: u16,
    labels: Seq<Seq<u8>>,
    kind: u16,
    ttl: Seq<u8>,
    list: Seq<Seq<u8>>,
    w: int,
    i: int,
)
    requires
        pcscf_dns::wire_labels(labels),
        kind == A && w == 4 || kind == AAAA && w == 16,
        ttl.len() == 4,
        forall|j: int| 0 <= j < list.len() ==> (#[trigger] list[j]).len() == w,
        list.len() <= 65535,
        0 <= i <= list.len(),
    ensures
        ({
            let p = reply_wire(id, labels, kind, ttl, list);
            let n = pcscf_dns::name_wire(labels).len() as int;
            let all = reply_answers(labels, kind, list);
            pcscf_dns::records_from(
                p,
                0,
                (list.len() - i) as nat,
                16 + n + i * (n + 10 + w),
                all.take(i),
                false,
            ) == Ok::<_, Seq<char>>((p.len() as int, all))
        }),
    decreases list.len() - i,
{
    let p = reply_wire(id, labels, kind, ttl, list);
    let n = pcscf_dns::name_wire(labels).len() as int;
    let step = n + 10 + w;
    let all = reply_answers(labels, kind, list);
    let at = 16 + n + i * step;
    lemma_records_len(labels, kind, ttl, list, w);
    assert(p.len() == 16 + n + records_wire(labels, kind, ttl, list).len());
    if i < list.len() {
        lemma_reply_record(id, labels, kind, ttl, list, w, i);
        lemma_reply_records(id, labels, kind, ttl, list, w, i + 1);
        assert(all.take(i + 1) =~= all.take(i).push(all[i]));
        assert((i + 1) * step == i * step + step) by (nonlinear_arith);
    } else {
        assert(all.take(i) =~= all);
        assert(p[8] == 0 && p[9] == 0 && p[10] == 0 && p[11] == 0);
        assert(net::word_at(p, 8) == 0 && net::word_at(p, 10) == 0);
        reveal_with_fuel(pcscf_dns::records_from, 4);
    }
}

/// What a reply says is what is found: a reply to the query that gives addresses of the
/// asked type for the asked name leads to exactly those addresses, in their order, each
/// once.
#[verifier::spinoff_prover]
#[verifier::rlimit(60)]
pub proof fn law_reply_leads_to_its_addresses(
    id: u16,
    name: Seq<char>,
    kind: u16,
    ttl: Seq<u8>,
    list: Seq<Seq<u8>>,
    w: int,
)
    requires
        pcscf_dns::host_name(name) is Ok,
        kind == A && w == 4 || kind == AAAA && w == 16,
        ttl.len() == 4,
        forall|j: int| 0 <= j < list.len() ==> (#[trigger] list[j]).len() == w,
        reply_wire(id, pcscf_dns::host_labels(name), kind, ttl, list).len() <= 65535,
    ensures
        ({
            let p = reply_wire(id, pcscf_dns::host_labels(name), kind, ttl, list);
            let r = pcscf_dns::response(id, name, kind, p);
            &&& r is Ok
            &&& r->Ok_0.srv_targets.len() == 0
            &&& forall|i: int|
                0 <= i < list.len() ==> r->Ok_0.addresses.contains(
                    address_in(#[trigger] list[i]),
                )
            &&& (forall|i: int, j: int|
                0 <= i < j < list.len() ==> address_in(#[trigger] list[i]) != address_in(
                    #[trigger] list[j],
                )) ==> r->Ok_0.addresses == list.map_values(|o: Seq<u8>| address_in(o))
        }),
{
    let labels = pcscf_dns::host_labels(name);
    let p = reply_wire(id, labels, kind, ttl, list);
    let wire = pcscf_dns::name_wire(labels);
    let n = wire.len() as int;
    let step = n + 10 + w;
    pcscf_dns::lemma_host_labels(name);
    lemma_records_len(labels, kind, ttl, list, w);
    assert(p.len() == 16 + n + records_wire(labels, kind, ttl, list).len());
    assert(list.len() <= list.len() * step) by (nonlinear_arith)
        requires
            step >= 1,
            list.len() >= 0,
    ;
    assert(p.subrange(12, 12 + n) =~= wire);
    pcscf_dns::lemma_name_reads(p, labels, 12);
    assert(net::word_at(p, 0) == id);
    assert(p[2] == 0x81 && p[3] == 0x80);
    assert(net::word_at(p, 2) == 0x8180);
    assert(0x8180u16 & 0x7a4fu16 == 0) by (bit_vector);
    assert(net::word_at(p, 4) == 1);
    assert(p[6] == net::word_bytes(list.len() as u16)[0]);
    assert(p[7] == net::word_bytes(list.len() as u16)[1]);
    assert(net::word_at(p, 6) == list.len());
    assert(p[12 + n] == net::word_bytes(kind)[0] && p[13 + n] == net::word_bytes(kind)[1]);
    assert(net::word_at(p, 12 + n) == kind);
    assert(p[14 + n] == 0 && p[15 + n] == 1);
    assert(net::word_at(p, 14 + n) == 1);
    let all = reply_answers(labels, kind, list);
    lemma_reply_records(id, labels, kind, ttl, list, w, 0);
    assert(all.take(0) =~= Seq::empty());
    assert(0 * step == 0) by (nonlinear_arith);
    lemma_no_alias(all, labels, 0);
    let visited = seq![labels];
    assert(pcscf_dns::chain_from(all, labels, visited, MAX_CNAME_HOPS as nat) == Ok::<
        _,
        Seq<char>,
    >(labels));
    let found = pcscf_dns::results_of(all, labels, kind);
    assert(pcscf_dns::response(id, name, kind, p) == Ok::<_, Seq<char>>(found));
    lemma_no_services(all, labels, kind, all.len());
    pcscf_dns::law_services_ordered(pcscf_dns::services_upto(all, labels, kind, all.len()));
    assert forall|i: int| 0 <= i < list.len() implies found.addresses.contains(
        address_in(#[trigger] list[i]),
    ) by {
        assert(all[i].data == DataValue::Address(address_in(list[i])));
        law_every_address_is_found(all, labels, kind, i, address_in(list[i]));
    }
    if forall|i: int, j: int|
        0 <= i < j < list.len() ==> address_in(#[trigger] list[i]) != address_in(
            #[trigger] list[j],
        ) {
        lemma_distinct_addresses(labels, kind, list, list.len());
        assert(found.addresses =~= list.map_values(|o: Seq<u8>| address_in(o)));
    }
}

proof fn lemma_no_alias(answers: Seq<AnswerValue>, owner: Seq<Seq<u8>>, i: int)
    requires
        0 <= i <= answers.len(),
        forall|j: int| 0 <= j < answers.len() ==> (#[trigger] answers[j]).data is Address,
    ensures
        pcscf_dns::alias_from(answers, owner, i, None) == Ok::<_, Seq<char>>(
            None::<Seq<Seq<u8>>>,
        ),
    decreases answers.len() - i,
{
    if i < answers.len() {
        assert(answers[i].data is Address);
        lemma_no_alias(answers, owner, i + 1);
    }
}

proof fn lemma_no_services(answers: Seq<AnswerValue>, owner: Seq<Seq<u8>>, kind: u16, n: nat)
    requires
        n <= answers.len(),
        forall|j: int| 0 <= j < answers.len() ==> (#[trigger] answers[j]).data is Address,
    ensures
        pcscf_dns::services_upto(answers, owner, kind, n).len() == 0,
    decreases n,
{
    if n > 0 {
        assert(answers[n - 1].data is Address);
        lemma_no_services(answers, owner, kind, (n - 1) as nat);
    }
}

proof fn lemma_distinct_addresses(labels: Seq<Seq<u8>>, kind: u16, list: Seq<Seq<u8>>, n: nat)
    requires
        n <= list.len(),
        forall|i: int, j: int|
            0 <= i < j < list.len() ==> address_in(#[trigger] list[i]) != address_in(
                #[trigger] list[j],
            ),
    ensures
        pcscf_dns::addresses_upto(reply_answers(labels, kind, list), labels, kind, n)
            == list.take(n as int).map_values(|o: Seq<u8>| address_in(o)),
    decreases n,
{
    let all = reply_answers(labels, kind, list);
    let f = |o: Seq<u8>| address_in(o);
    if n > 0 {
        lemma_distinct_addresses(labels, kind, list, (n - 1) as nat);
        let known = pcscf_dns::addresses_upto(all, labels, kind, (n - 1) as nat);
        assert(!known.contains(address_in(list[n - 1]))) by {
            if known.contains(address_in(list[n - 1])) {
                let k = choose|k: int|
                    0 <= k < known.len() && known[k] == address_in(list[n - 1]);
                assert(known[k] == address_in(list[k]));
            }
        }
        assert(list.take(n as int).map_values(f) =~= list.take(n - 1).map_values(f).push(
            address_in(list[n - 1]),
        ));
    } else {
        assert(list.take(0).map_values(f) =~= Seq::empty());
    }
}

} // verus!
