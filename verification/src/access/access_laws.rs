//! Lines and their secured associations.

use crate::access::line_registry;
use crate::access::line_registry::{LineRuntime, ModemBinding, Registry};
use crate::access::volte::ipsec;
use crate::access::volte::ipsec::SecAgree;
use crate::order;
use crate::sip_frame;
use crate::text;
use crate::text_laws;
use vstd::prelude::*;

verus! {

// --------------------------------------------------------------------------- agreements

/// A parameter with a number, behind its semicolon.
pub open spec fn numbered(name: Seq<char>, n: nat) -> Seq<char> {
    name.push('=') + text::decimal(n)
}

pub open spec fn plain_key(s: Seq<char>) -> bool {
    s.len() > 0 && forall|i: int|
        0 <= i < s.len() ==> !text::white(#[trigger] s[i]) && s[i] != ';' && s[i] != '=' && s[i]
            != '"'
}

proof fn lemma_ends(s: Seq<char>)
    requires
        s.len() > 0 && !text::white(s[0]) && !text::white(s.last()),
    ensures
        text::trim(s) == s,
{
    let none = Seq::<char>::empty();
    text_laws::law_trim_takes_the_ends(none, s, none);
    assert(none + s + none =~= s);
}

proof fn lemma_value(key: Seq<char>, value: Seq<char>, name: Seq<char>)
    requires
        plain_key(key),
        plain_key(value),
    ensures
        sip_frame::named_value(key.push('=') + value, name) == (if text::alike(key, name) {
            Some(value)
        } else {
            None
        }),
        text_laws::without(key.push('=') + value, ';'),
{
    let part = key.push('=') + value;
    assert(part[0] == key[0]);
    assert(part.last() == value.last());
    lemma_ends(part);
    lemma_ends(key);
    lemma_ends(value);
    text_laws::law_cut_gives_both_sides(key, value, '=');
    assert(text::trim_char(value, '"') == value) by {
        assert(text::skip_char(value, '"', 0) == 0);
        assert(text::back_char(value, '"', 0, value.len() as int) == value.len());
        assert(value.subrange(0, value.len() as int) =~= value);
    }
    assert forall|i: int| 0 <= i < part.len() implies (#[trigger] part[i]) != ';' by {
        if i < key.len() {
            assert(part[i] == key[i]);
        } else if i > key.len() {
            assert(part[i] == value[i - key.len() - 1]);
        }
    }
}

proof fn lemma_digits(n: nat)
    ensures
        plain_key(text::decimal(n)),
{
    text::law_decimal_round_trip(n);
    let s = text::decimal(n);
    assert forall|i: int| 0 <= i < s.len() implies !text::white(#[trigger] s[i]) && s[i] != ';'
        && s[i] != '=' && s[i] != '"' by {
        assert(text::digit(s[i]));
    }
}

#[verifier::rlimit(50)]
proof fn lemma_agree_parts(a: SecAgree)
    ensures
        text::split(ipsec::agree_text(a), ';') == seq![
            "ipsec-3gpp"@,
            "alg=hmac-sha-1-96"@,
            "ealg=null"@,
            "prot=esp"@,
            "mod=trans"@,
            numbered("spi-c"@, a.spi_c as nat),
            numbered("spi-s"@, a.spi_s as nat),
            numbered("port-c"@, a.port_c as nat),
            numbered("port-s"@, a.port_s as nat),
        ],
{
    let c = ';';
    let p5 = numbered("spi-c"@, a.spi_c as nat);
    let p6 = numbered("spi-s"@, a.spi_s as nat);
    let p7 = numbered("port-c"@, a.port_c as nat);
    let p8 = numbered("port-s"@, a.port_s as nat);
    lemma_agree_text(a);
    lemma_keys();
    lemma_digits(a.spi_c as nat);
    lemma_digits(a.spi_s as nat);
    lemma_digits(a.port_c as nat);
    lemma_digits(a.port_s as nat);
    lemma_value("spi-c"@, text::decimal(a.spi_c as nat), seq![]);
    lemma_value("spi-s"@, text::decimal(a.spi_s as nat), seq![]);
    lemma_value("port-c"@, text::decimal(a.port_c as nat), seq![]);
    lemma_value("port-s"@, text::decimal(a.port_s as nat), seq![]);
    let t7 = p7.push(c) + p8;
    let t6 = p6.push(c) + t7;
    let t5 = p5.push(c) + t6;
    let t4 = "mod=trans"@.push(c) + t5;
    let t3 = "prot=esp"@.push(c) + t4;
    let t2 = "ealg=null"@.push(c) + t3;
    let t1 = "alg=hmac-sha-1-96"@.push(c) + t2;
    text_laws::law_split_undoes_join(p8, p8, c);
    text_laws::law_split_undoes_join(p7, p8, c);
    text_laws::law_split_undoes_join(p6, t7, c);
    text_laws::law_split_undoes_join(p5, t6, c);
    text_laws::law_split_undoes_join("mod=trans"@, t5, c);
    text_laws::law_split_undoes_join("prot=esp"@, t4, c);
    text_laws::law_split_undoes_join("ealg=null"@, t3, c);
    text_laws::law_split_undoes_join("alg=hmac-sha-1-96"@, t2, c);
    text_laws::law_split_undoes_join("ipsec-3gpp"@, t1, c);
    let all = text::split(ipsec::agree_text(a), c);
    assert(all =~= seq![
        "ipsec-3gpp"@,
        "alg=hmac-sha-1-96"@,
        "ealg=null"@,
        "prot=esp"@,
        "mod=trans"@,
        p5,
        p6,
        p7,
        p8,
    ]);
}

proof fn lemma_keys()
    ensures
        text_laws::without("ipsec-3gpp"@, ';'),
        text_laws::without("alg=hmac-sha-1-96"@, ';'),
        text_laws::without("ealg=null"@, ';'),
        text_laws::without("prot=esp"@, ';'),
        text_laws::without("mod=trans"@, ';'),
        plain_key("ipsec-3gpp"@),
        plain_key("spi-c"@) && "spi-c"@.len() == 5 && "spi-c"@[4] == 'c',
        plain_key("spi-s"@) && "spi-s"@.len() == 5 && "spi-s"@[4] == 's',
        plain_key("port-c"@) && "port-c"@.len() == 6 && "port-c"@[5] == 'c',
        plain_key("port-s"@) && "port-s"@.len() == 6 && "port-s"@[5] == 's',
{
    reveal_strlit("ipsec-3gpp");
    reveal_strlit("alg=hmac-sha-1-96");
    reveal_strlit("ealg=null");
    reveal_strlit("prot=esp");
    reveal_strlit("mod=trans");
    reveal_strlit("spi-c");
    reveal_strlit("spi-s");
    reveal_strlit("port-c");
    reveal_strlit("port-s");
}

#[verifier::rlimit(50)]
proof fn lemma_agree_text(a: SecAgree)
    ensures
        ({
            let c = ';';
            ipsec::agree_text(a) == "ipsec-3gpp"@.push(c) + ("alg=hmac-sha-1-96"@.push(c) + (
            "ealg=null"@.push(c) + ("prot=esp"@.push(c) + ("mod=trans"@.push(c) + (numbered(
                "spi-c"@,
                a.spi_c as nat,
            ).push(c) + (numbered("spi-s"@, a.spi_s as nat).push(c) + (numbered(
                "port-c"@,
                a.port_c as nat,
            ).push(c) + numbered("port-s"@, a.port_s as nat))))))))
        }),
{
    reveal_strlit("ipsec-3gpp;alg=hmac-sha-1-96;ealg=null;prot=esp;mod=trans;spi-c=");
    reveal_strlit(";spi-s=");
    reveal_strlit(";port-c=");
    reveal_strlit(";port-s=");
    reveal_strlit("ipsec-3gpp");
    reveal_strlit("alg=hmac-sha-1-96");
    reveal_strlit("ealg=null");
    reveal_strlit("prot=esp");
    reveal_strlit("mod=trans");
    reveal_strlit("spi-c");
    reveal_strlit("spi-s");
    reveal_strlit("port-c");
    reveal_strlit("port-s");
    let c = ';';
    let lead = "ipsec-3gpp"@.push(c) + "alg=hmac-sha-1-96"@.push(c) + "ealg=null"@.push(c)
        + "prot=esp"@.push(c) + "mod=trans"@.push(c) + "spi-c"@.push('=');
    assert("ipsec-3gpp;alg=hmac-sha-1-96;ealg=null;prot=esp;mod=trans;spi-c="@ =~= lead);
    let w = text::decimal(a.spi_c as nat);
    let x = text::decimal(a.spi_s as nat);
    let y = text::decimal(a.port_c as nat);
    let z = text::decimal(a.port_s as nat);
    assert(";spi-s="@ =~= seq![c] + "spi-s"@.push('='));
    assert(";port-c="@ =~= seq![c] + "port-c"@.push('='));
    assert(";port-s="@ =~= seq![c] + "port-s"@.push('='));
    assert(ipsec::agree_text(a) =~= lead + w + seq![c] + "spi-s"@.push('=') + x + seq![c]
        + "port-c"@.push('=') + y + seq![c] + "port-s"@.push('=') + z);
}

#[verifier::rlimit(50)]
proof fn lemma_number(a: SecAgree, name: Seq<char>, k: int, n: nat, max: nat)
    requires
        n <= max,
        name == "spi-c"@ && k == 5 && n == a.spi_c || name == "spi-s"@ && k == 6 && n == a.spi_s
            || name == "port-c"@ && k == 7 && n == a.port_c || name == "port-s"@ && k == 8 && n
            == a.port_s,
    ensures
        ipsec::number_of(ipsec::agree_text(a), name, max) == Some(n),
{
    lemma_agree_parts(a);
    lemma_keys();
    lemma_digits(a.spi_c as nat);
    lemma_digits(a.spi_s as nat);
    lemma_digits(a.port_c as nat);
    lemma_digits(a.port_s as nat);
    lemma_value("spi-c"@, text::decimal(a.spi_c as nat), name);
    lemma_value("spi-s"@, text::decimal(a.spi_s as nat), name);
    lemma_value("port-c"@, text::decimal(a.port_c as nat), name);
    lemma_value("port-s"@, text::decimal(a.port_s as nat), name);
    text_laws::law_alike_ignores_case_alone("spi-c"@, name);
    text_laws::law_alike_ignores_case_alone("spi-s"@, name);
    text_laws::law_alike_ignores_case_alone("port-c"@, name);
    text_laws::law_alike_ignores_case_alone("port-s"@, name);
    lemma_other_words(name);
    let parts = text::split(ipsec::agree_text(a), ';');
    let d = text::decimal(n);
    text_laws::law_numbers_are_read_as_written(n, max, d, 0);
    assert("spi-c"@[4] != "spi-s"@[4] && "port-c"@[5] != "port-s"@[5]);
    assert(!text_laws::same_letter('c', 's') && !text_laws::same_letter('s', 'c'));
    if k < 8 {
        assert(sip_frame::parameter_from(parts, name, k) == Some(d));
    } else {
        assert(sip_frame::parameter_from(parts, name, 8) == Some(d));
    }
    assert(k > 7 ==> sip_frame::parameter_from(parts, name, 7) == Some(d));
    assert(k > 6 ==> sip_frame::parameter_from(parts, name, 6) == Some(d));
    assert(sip_frame::parameter_from(parts, name, 5) == Some(d));
    assert(sip_frame::parameter_from(parts, name, 4) == Some(d));
    assert(sip_frame::parameter_from(parts, name, 3) == Some(d));
    assert(sip_frame::parameter_from(parts, name, 2) == Some(d));
    assert(sip_frame::parameter_from(parts, name, 1) == Some(d));
}

proof fn lemma_other_words(name: Seq<char>)
    requires
        name == "spi-c"@ || name == "spi-s"@ || name == "port-c"@ || name == "port-s"@,
    ensures
        sip_frame::named_value("alg=hmac-sha-1-96"@, name) is None,
        sip_frame::named_value("ealg=null"@, name) is None,
        sip_frame::named_value("prot=esp"@, name) is None,
        sip_frame::named_value("mod=trans"@, name) is None,
{
    lemma_keys();
    reveal_strlit("alg=hmac-sha-1-96");
    reveal_strlit("ealg=null");
    reveal_strlit("prot=esp");
    reveal_strlit("mod=trans");
    reveal_strlit("alg");
    reveal_strlit("ealg");
    reveal_strlit("prot");
    reveal_strlit("mod");
    reveal_strlit("hmac-sha-1-96");
    reveal_strlit("null");
    reveal_strlit("esp");
    reveal_strlit("trans");
    assert("alg=hmac-sha-1-96"@ =~= "alg"@.push('=') + "hmac-sha-1-96"@);
    assert("ealg=null"@ =~= "ealg"@.push('=') + "null"@);
    assert("prot=esp"@ =~= "prot"@.push('=') + "esp"@);
    assert("mod=trans"@ =~= "mod"@.push('=') + "trans"@);
    lemma_value("alg"@, "hmac-sha-1-96"@, name);
    lemma_value("ealg"@, "null"@, name);
    lemma_value("prot"@, "esp"@, name);
    lemma_value("mod"@, "trans"@, name);
    text_laws::law_alike_ignores_case_alone("alg"@, name);
    text_laws::law_alike_ignores_case_alone("ealg"@, name);
    text_laws::law_alike_ignores_case_alone("prot"@, name);
    text_laws::law_alike_ignores_case_alone("mod"@, name);
}

/// What one side offers the other reads: each index and each port as it was written.
pub proof fn law_agreement_is_read_back(a: SecAgree)
    ensures
        ipsec::agree_of(ipsec::agree_text(a)) == Some(a),
{
    lemma_number(a, "spi-c"@, 5, a.spi_c as nat, u32::MAX as nat);
    lemma_number(a, "spi-s"@, 6, a.spi_s as nat, u32::MAX as nat);
    lemma_number(a, "port-c"@, 7, a.port_c as nat, u16::MAX as nat);
    lemma_number(a, "port-s"@, 8, a.port_s as nat, u16::MAX as nat);
    lemma_agree_text(a);
    lemma_keys();
    let value = ipsec::agree_text(a);
    let k = "ipsec-3gpp"@;
    let rest = value.subrange(k.len() as int + 1, value.len() as int);
    assert(value =~= k.push(';') + rest);
    text_laws::law_cut_gives_both_sides(k, rest, ';');
    lemma_ends(k);
}

/// Another mechanism is not agreed to, and neither is one that leaves anything out.
pub proof fn law_incomplete_agreement_is_refused(value: Seq<char>)
    ensures
        !text::alike(text::trim(text::before(value, ';')), "ipsec-3gpp"@) ==> ipsec::agree_of(value)
            is None,
        sip_frame::parameter_of(value, "spi-c"@) is None ==> ipsec::agree_of(value) is None,
        sip_frame::parameter_of(value, "spi-s"@) is None ==> ipsec::agree_of(value) is None,
        sip_frame::parameter_of(value, "port-c"@) is None ==> ipsec::agree_of(value) is None,
        sip_frame::parameter_of(value, "port-s"@) is None ==> ipsec::agree_of(value) is None,
{
}

// --------------------------------------------------------------------------- order

proof fn lemma_less(a: Seq<char>, b: Seq<char>, k: int, from: int)
    requires
        0 <= from <= k,
        k <= a.len() && k <= b.len(),
        forall|i: int| 0 <= i < k ==> a[i] == b[i],
    ensures
        order::less_from(a, b, from) == order::less_from(a, b, k),
    decreases k - from,
{
    if from < k {
        lemma_less(a, b, k, from + 1);
    }
}

/// Ids are ordered by their first different character, and a text comes before a longer one
/// that begins with it.
pub proof fn law_order_goes_by_the_first_difference(a: Seq<char>, b: Seq<char>, k: int)
    requires
        0 <= k <= a.len(),
        k <= b.len(),
        forall|i: int| 0 <= i < k ==> a[i] == b[i],
    ensures
        k < a.len() && k < b.len() && a[k] != b[k] ==> (order::less(a, b) <==> (a[k] as int) < (
        b[k] as int)),
        k == a.len() && k < b.len() ==> order::less(a, b),
        k == b.len() ==> !order::less(a, b),
{
    lemma_less(a, b, k, 0);
}

// --------------------------------------------------------------------------- lines

/// A line that was discovered is there with what was discovered of it, and every other line
/// stays as it was, its runtime with it.
pub proof fn law_discovered_line_is_there(r: Registry, b: ModemBinding, l: LineRuntime)
    ensures
        ({
            let after = line_registry::with_binding(r, b);
            &&& exists|i: int| 0 <= i < after.lines.len() && (#[trigger] after.lines[i]).binding == b
            &&& r.lines.contains(l) && l.binding.line_id@ != b.line_id@ ==> after.lines.contains(l)
            &&& after.lines.len() <= r.lines.len() + 1
            &&& r.lines.len() <= after.lines.len()
        }),
{
    lemma_index(r.lines, b.line_id@, 0);
    lemma_place(r.lines, b.line_id@, 0);
    let after = line_registry::with_binding(r, b);
    let at = line_registry::index_from(r.lines, b.line_id@, 0);
    let j = choose|j: int| 0 <= j < r.lines.len() && r.lines[j] == l;
    if at is Some {
        let i = at->0;
        assert(after.lines[i].binding == b);
        if r.lines.contains(l) && l.binding.line_id@ != b.line_id@ {
            assert(after.lines[j] == l);
        }
    } else {
        let p = line_registry::place_from(r.lines, b.line_id@, 0);
        assert(after.lines[p].binding == b);
        if r.lines.contains(l) {
            if j < p {
                assert(after.lines[j] == l);
            } else {
                assert(after.lines[j + 1] == l);
            }
        }
    }
}

proof fn lemma_index(lines: Seq<LineRuntime>, id: Seq<char>, i: int)
    requires
        0 <= i <= lines.len(),
    ensures
        match line_registry::index_from(lines, id, i) {
            Some(k) => i <= k < lines.len() && lines[k].binding.line_id@ == id && forall|j: int|
                i <= j < k ==> (#[trigger] lines[j]).binding.line_id@ != id,
            None => forall|j: int|
                i <= j < lines.len() ==> (#[trigger] lines[j]).binding.line_id@ != id,
        },
    decreases lines.len() - i,
{
    if i < lines.len() && line_registry::id_of(lines[i]) != id {
        lemma_index(lines, id, i + 1);
    }
}

proof fn lemma_place(lines: Seq<LineRuntime>, id: Seq<char>, i: int)
    requires
        0 <= i <= lines.len(),
    ensures
        i <= line_registry::place_from(lines, id, i) <= lines.len(),
    decreases lines.len() - i,
{
    if i < lines.len() {
        lemma_place(lines, id, i + 1);
    }
}

/// The line that stands for all is the first one that is present, and a modem's line the first
/// one that is present on it.
pub proof fn law_first_present_line_is_primary(lines: Seq<LineRuntime>, path: Seq<char>)
    ensures
        match line_registry::primary_from(lines, 0) {
            Some(i) => 0 <= i < lines.len() && lines[i].binding.present && forall|j: int|
                0 <= j < i ==> !(#[trigger] lines[j]).binding.present,
            None => forall|j: int| 0 <= j < lines.len() ==> !(#[trigger] lines[j]).binding.present,
        },
        match line_registry::on_modem_from(lines, path, 0) {
            Some(i) => 0 <= i < lines.len() && lines[i].binding.present
                && lines[i].binding.modem_path@ == path && forall|j: int|
                0 <= j < i ==> !((#[trigger] lines[j]).binding.present
                    && lines[j].binding.modem_path@ == path),
            None => forall|j: int|
                0 <= j < lines.len() ==> !((#[trigger] lines[j]).binding.present
                    && lines[j].binding.modem_path@ == path),
        },
{
    lemma_primary(lines, path, 0);
}

proof fn lemma_primary(lines: Seq<LineRuntime>, path: Seq<char>, i: int)
    requires
        0 <= i <= lines.len(),
    ensures
        match line_registry::primary_from(lines, i) {
            Some(k) => i <= k < lines.len() && lines[k].binding.present && forall|j: int|
                i <= j < k ==> !(#[trigger] lines[j]).binding.present,
            None => forall|j: int| i <= j < lines.len() ==> !(#[trigger] lines[j]).binding.present,
        },
        match line_registry::on_modem_from(lines, path, i) {
            Some(k) => i <= k < lines.len() && lines[k].binding.present
                && lines[k].binding.modem_path@ == path && forall|j: int|
                i <= j < k ==> !((#[trigger] lines[j]).binding.present
                    && lines[j].binding.modem_path@ == path),
            None => forall|j: int|
                i <= j < lines.len() ==> !((#[trigger] lines[j]).binding.present
                    && lines[j].binding.modem_path@ == path),
        },
    decreases lines.len() - i,
{
    if i < lines.len() {
        lemma_primary(lines, path, i + 1);
    }
}

/// A line that a refresh does not find again stays known, and is absent.
pub proof fn law_lost_line_is_absent(r: Registry, i: int)
    requires
        0 <= i < r.lines.len(),
    ensures
        ({
            let after = line_registry::refreshed(r, seq![]);
            &&& after.lines.len() == r.lines.len()
            &&& !after.lines[i].binding.present
            &&& after.lines[i].seed == r.lines[i].seed
            &&& after.lines[i].binding.line_id == r.lines[i].binding.line_id
            &&& after.lines[i].binding.modem_path == r.lines[i].binding.modem_path
            &&& after.seed_claimed == r.seed_claimed
        }),
{
}

} // verus!
