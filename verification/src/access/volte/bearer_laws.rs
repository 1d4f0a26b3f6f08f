//! How the sessions of a line become its bearer.

use crate::access::volte::native_bearer;
use crate::access::volte::native_bearer::{
    Attempt, Current, ErrorValue, FamilySettings, Session, SessionEvent, Setup, StartStep,
    Starting, WdsError,
};
use crate::address_text;
use crate::cellular_ims::errors::code;
use crate::ip_text;
use crate::net::IpAddr;
use crate::plan;
use crate::plan::{FailureClass, IpFamilyPreference};
use crate::text;
use crate::text_laws;
use vstd::prelude::*;

verus! {

// --------------------------------------------------------------------------- settings

proof fn lemma_merged_items(a: Seq<Seq<char>>, b: Seq<Seq<char>>, n: int, item: Seq<char>)
    requires
        0 <= n <= b.len(),
    ensures
        ({
            let m = native_bearer::merged_items(a, b, n);
            &&& m.contains(item) <==> a.contains(item) || b.take(n).contains(item)
            &&& a.len() <= m.len()
            &&& forall|i: int| 0 <= i < a.len() ==> (#[trigger] m[i]) == a[i]
        }),
    decreases n,
{
    let m = native_bearer::merged_items(a, b, n);
    if n > 0 {
        lemma_merged_items(a, b, n - 1, item);
        lemma_merged_items(a, b, n - 1, b[n - 1]);
        let before = native_bearer::merged_items(a, b, n - 1);
        let short = b.take(n - 1);
        let long = b.take(n);
        assert(long =~= short.push(b[n - 1]));
        if short.contains(item) {
            let i = choose|i: int| 0 <= i < short.len() && short[i] == item;
            assert(long[i] == item);
        }
        if item == b[n - 1] {
            assert(long[n - 1] == item);
        }
        if long.contains(item) {
            let i = choose|i: int| 0 <= i < long.len() && long[i] == item;
            if i < n - 1 {
                assert(short[i] == item);
            }
        }
        if before.contains(item) {
            let i = choose|i: int| 0 <= i < before.len() && before[i] == item;
            assert(m[i] == item);
        }
        if !before.contains(b[n - 1]) {
            assert(m[before.len() as int] == b[n - 1]);
        }
        if m.contains(item) {
            let i = choose|i: int| 0 <= i < m.len() && m[i] == item;
            if i < before.len() {
                assert(before[i] == item);
            }
        }
    } else {
        assert(b.take(0) =~= seq![]);
    }
}

/// Two sessions together have every server of both, those of the first in front; of a family
/// the address, the gateway and the prefix are those of the last session that has an address in
/// it; the smaller size of a packet holds.
pub proof fn law_sessions_are_merged(m: Current, s: Current, item: Seq<char>)
    ensures
        ({
            let r = native_bearer::merged_current(m, s);
            &&& r.v4.dns.contains(item) <==> m.v4.dns.contains(item) || s.v4.dns.contains(item)
            &&& r.v6.dns.contains(item) <==> m.v6.dns.contains(item) || s.v6.dns.contains(item)
            &&& r.pcscf.contains(item) <==> m.pcscf.contains(item) || s.pcscf.contains(item)
            &&& forall|i: int| 0 <= i < m.v4.dns.len() ==> (#[trigger] r.v4.dns[i]) == m.v4.dns[i]
            &&& forall|i: int| 0 <= i < m.v6.dns.len() ==> (#[trigger] r.v6.dns[i]) == m.v6.dns[i]
            &&& forall|i: int| 0 <= i < m.pcscf.len() ==> (#[trigger] r.pcscf[i]) == m.pcscf[i]
            &&& s.v4.address is Some ==> r.v4.address == s.v4.address && r.v4.gateway
                == s.v4.gateway && r.v4.prefix == s.v4.prefix
            &&& s.v4.address is None ==> r.v4.address == m.v4.address && r.v4.gateway
                == m.v4.gateway && r.v4.prefix == m.v4.prefix
            &&& s.v6.address is Some ==> r.v6.address == s.v6.address && r.v6.gateway
                == s.v6.gateway && r.v6.prefix == s.v6.prefix
            &&& s.v6.address is None ==> r.v6.address == m.v6.address && r.v6.gateway
                == m.v6.gateway && r.v6.prefix == m.v6.prefix
            &&& r.mtu is Some <==> m.mtu is Some || s.mtu is Some
            &&& r.mtu is Some && m.mtu is Some ==> r.mtu->0 <= m.mtu->0
            &&& r.mtu is Some && s.mtu is Some ==> r.mtu->0 <= s.mtu->0
            &&& r.mtu is Some ==> r.mtu == m.mtu || r.mtu == s.mtu
        }),
{
    lemma_merged_items(m.v4.dns, s.v4.dns, s.v4.dns.len() as int, item);
    lemma_merged_items(m.v6.dns, s.v6.dns, s.v6.dns.len() as int, item);
    lemma_merged_items(m.pcscf, s.pcscf, s.pcscf.len() as int, item);
    assert(s.v4.dns.take(s.v4.dns.len() as int) =~= s.v4.dns);
    assert(s.v6.dns.take(s.v6.dns.len() as int) =~= s.v6.dns);
    assert(s.pcscf.take(s.pcscf.len() as int) =~= s.pcscf);
}

proof fn lemma_ips(items: Seq<Seq<char>>, n: int, k: int)
    requires
        0 <= n <= items.len(),
    ensures
        0 <= k < n && ip_text::ip_text(items[k]) is Some ==> native_bearer::ips_upto(
            items,
            n,
        ).contains(ip_text::ip_text(items[k])->0),
    decreases n,
{
    if n > 0 {
        lemma_ips(items, n - 1, k);
        let before = native_bearer::ips_upto(items, n - 1);
        let now = native_bearer::ips_upto(items, n);
        if 0 <= k < n && ip_text::ip_text(items[k]) is Some {
            let a = ip_text::ip_text(items[k])->0;
            if k == n - 1 {
                assert(now[before.len() as int] == a);
            } else {
                let i = choose|i: int| 0 <= i < before.len() && before[i] == a;
                assert(now[i] == a);
            }
        }
    }
}

/// An interface is set up with what the session has in the family that is asked for: its
/// address, its prefix, its gateway and all of its servers; without an address it is not set up.
pub proof fn law_interface_is_set_up_for_its_family(s: Current, k: int)
    ensures
        ({
            let address = |f: FamilySettings|
                match f.address {
                    Some(v) => ip_text::ip_text(v),
                    None => None,
                };
            &&& native_bearer::netdev_for(s, 6) is Some <==> address(s.v6) is Some
            &&& native_bearer::netdev_for(s, 4) is Some <==> address(s.v4) is Some
            &&& native_bearer::netdev_for(s, 6) matches Some(n) ==> {
                &&& Some(n.address) == address(s.v6)
                &&& n.prefix == s.v6.prefix
                &&& n.mtu == s.mtu
                &&& 0 <= k < s.v6.dns.len() && ip_text::ip_text(s.v6.dns[k]) is Some
                    ==> n.dns.contains(ip_text::ip_text(s.v6.dns[k])->0)
            }
            &&& native_bearer::netdev_for(s, 4) matches Some(n) ==> {
                &&& Some(n.address) == address(s.v4)
                &&& n.prefix == s.v4.prefix
                &&& n.mtu == s.mtu
                &&& 0 <= k < s.v4.dns.len() && ip_text::ip_text(s.v4.dns[k]) is Some
                    ==> n.dns.contains(ip_text::ip_text(s.v4.dns[k])->0)
            }
        }),
{
    lemma_ips(s.v6.dns, s.v6.dns.len() as int, k);
    lemma_ips(s.v4.dns, s.v4.dns.len() as int, k);
}

// --------------------------------------------------------------------------- attempts

/// A preference for one family asks for both at once first, the preferred one in front, and an
/// exclusive one for itself alone.
pub proof fn law_setup_follows_the_preference()
    ensures
        ({
            let s = native_bearer::setup_start(plan::plan_of(IpFamilyPreference::Ipv4First));
            native_bearer::setup_attempt(s) == Attempt::Dual(4, 6) && s.families == seq![4u8, 6]
        }),
        ({
            let s = native_bearer::setup_start(plan::plan_of(IpFamilyPreference::Ipv6First));
            native_bearer::setup_attempt(s) == Attempt::Dual(6, 4) && s.families == seq![6u8, 4]
        }),
        ({
            let s = native_bearer::setup_start(plan::plan_of(IpFamilyPreference::Ipv4Only));
            native_bearer::setup_attempt(s) == Attempt::Single(4) && s.families == seq![4u8]
        }),
        ({
            let s = native_bearer::setup_start(plan::plan_of(IpFamilyPreference::Ipv6Only));
            native_bearer::setup_attempt(s) == Attempt::Single(6) && s.families == seq![6u8]
        }),
{
    reveal_with_fuel(plan::numbers_upto, 3);
    let none = Seq::<u8>::empty();
    assert(!none.contains(4u8) && !none.contains(6u8));
    assert(!none.push(4u8).contains(6u8));
    assert(!none.push(6u8).contains(4u8));
    assert(plan::family_numbers(plan::plan_of(IpFamilyPreference::Ipv4First)) =~= seq![4u8, 6]);
    assert(plan::family_numbers(plan::plan_of(IpFamilyPreference::Ipv6First)) =~= seq![6u8, 4]);
    assert(plan::family_numbers(plan::plan_of(IpFamilyPreference::Ipv4Only)) =~= seq![4u8]);
    assert(plan::family_numbers(plan::plan_of(IpFamilyPreference::Ipv6Only)) =~= seq![6u8]);
}

/// A wedged modem is not asked again. After both families were refused, the one that the
/// network allows is asked for alone, or else each of them in turn; every further failure goes
/// on to the next family, and the last error is the one that is told.
pub proof fn law_setup_goes_on_after_a_failure(s: Setup, e: ErrorValue)
    requires
        native_bearer::setup_wf(s),
        !(native_bearer::setup_attempt(s) is Exhausted),
    ensures
        ({
            let class = native_bearer::class_of_value(e);
            let r = native_bearer::setup_failed(s, e);
            &&& class is BasebandWedged <==> r is Err
            &&& r is Err ==> r->Err_0 == e
            &&& s.dual && class is NetworkForcedIpv4 ==> native_bearer::setup_attempt(r->Ok_0)
                == Attempt::Single(4) && r->Ok_0.families.len() == 1
            &&& s.dual && class is NetworkForcedIpv6 ==> native_bearer::setup_attempt(r->Ok_0)
                == Attempt::Single(6) && r->Ok_0.families.len() == 1
            &&& s.dual && (class is Other || class is PrefixUnavailable)
                ==> native_bearer::setup_attempt(r->Ok_0) == Attempt::Single(s.families[0])
                && r->Ok_0.families == s.families
            &&& !s.dual && !(class is BasebandWedged) ==> r->Ok_0.next == s.next + 1
                && r->Ok_0.families == s.families && native_bearer::setup_error(r->Ok_0) == e
        }),
{
    let class = native_bearer::class_of_value(e);
    assert(class is BasebandWedged || class is NetworkForcedIpv4 || class is NetworkForcedIpv6
        || class is PrefixUnavailable || class is SessionLost || class is Other);
}

/// Nothing is started before the control port can be reached and its baseband is known.
pub proof fn law_endpoint_has_to_be_reachable(device: Seq<char>, key: Seq<char>, error: Seq<char>)
    ensures
        native_bearer::endpoint_problem(device, true, Ok(key)) is None,
        native_bearer::endpoint_problem(device, false, Ok(key)) == Some(
            ErrorValue {
                code: code::RUNTIME_MM_BEARER_CONNECT_FAILED@,
                detail: Some("qmi_proxy_unavailable:"@ + device),
            },
        ),
        native_bearer::endpoint_problem(device, true, Err(error)) == Some(
            ErrorValue {
                code: code::IP_SETTINGS_MISSING@,
                detail: Some("native_ims_baseband_unresolved:"@ + error),
            },
        ),
{
}

// --------------------------------------------------------------------------- sessions

/// An attempt starts a session for each of its families in their order, then finds the
/// interface of each session, and then is done.
pub proof fn law_sessions_are_started_in_order(s: Starting)
    requires
        native_bearer::starting_wf(s),
        s.families.len() > 0,
    ensures
        s.sessions.len() < s.families.len() ==> native_bearer::start_step(s) == StartStep::Start(
            s,
            s.families[s.sessions.len() as int],
        ),
        s.sessions.len() == s.families.len() && s.interfaces.len() < s.sessions.len() ==> {
            let session = s.sessions[s.interfaces.len() as int];
            match native_bearer::netdev_for(session.current, session.family) {
                Some(config) => native_bearer::start_step(s) == StartStep::Resolve(s, config),
                None => native_bearer::start_step(s) is Undo,
            }
        },
        s.sessions.len() == s.families.len() && s.interfaces.len() == s.sessions.len() ==> (
        native_bearer::start_step(s) is Done || native_bearer::start_step(s) is Undo),
        native_bearer::start_step(s) matches StartStep::Done(b) ==> {
            &&& b.sessions == s.sessions
            &&& b.interface == s.interfaces[0]
            &&& b.method == s.methods[0]
        },
        native_bearer::start_step(s) matches StartStep::Undo(u) ==> u.sessions == s.sessions,
{
}

/// A failure undoes every session that was started, and is told for what it was.
pub proof fn law_failed_start_is_undone(s: Starting, error: WdsError, text: String)
    ensures
        native_bearer::started(s, SessionEvent::StartFailed(error)) matches StartStep::Undo(u) && {
            &&& u.sessions == s.sessions
            &&& error is SettingsUnavailable ==> u.error.code == code::IP_SETTINGS_MISSING@
            &&& !(error is SettingsUnavailable) ==> u.error.code
                == code::RUNTIME_MM_BEARER_CONNECT_FAILED@
            &&& error matches WdsError::BasebandWedged(d) ==> u.error.detail == Some(
                "wds_baseband_wedged:"@ + d@,
            )
            &&& error matches WdsError::StartFailed { reason } ==> u.error.detail == Some(
                "wds_start_failed:"@ + reason@,
            )
            &&& error matches WdsError::SettingsUnavailable(d) ==> u.error.detail == Some(
                "wds_settings_unavailable:"@ + d@,
            )
            &&& error matches WdsError::Failed(d) ==> u.error.detail == Some("wds_failed:"@ + d@)
        },
        native_bearer::started(s, SessionEvent::ResolveFailed(text)) matches StartStep::Undo(u) && {
            &&& u.sessions == s.sessions
            &&& u.error.code == code::IP_SETTINGS_MISSING@
            &&& u.error.detail == Some("native_ims_netdev_unresolved:"@ + text@)
        },
{
}

/// A wedge that is told so is known for one when it comes back.
pub proof fn law_told_wedge_is_known(d: String)
    ensures
        plan::class_of_detail(native_bearer::wds_text(WdsError::BasebandWedged(d)))
            == FailureClass::BasebandWedged,
{
    let t = native_bearer::wds_text(WdsError::BasebandWedged(d));
    let m = plan::WEDGE_MARKER@;
    reveal_strlit("wds_baseband_wedged:");
    let rest = text::lower_all(d@);
    assert(text::lower_all(t) =~= Seq::<char>::empty() + m + rest);
    text_laws::law_text_is_found_anywhere(seq![], m, rest, seq![]);
}

/// A bearer of both families stands on one interface, has what both sessions have, and is named
/// by both; sessions on two interfaces are no bearer.
pub proof fn law_both_families_share_one_interface(
    device: Seq<char>,
    a: Session,
    b: Session,
    one: Seq<char>,
    two: Seq<char>,
)
    ensures
        one != two ==> (native_bearer::dual_bearer(device, seq![a, b], seq![one, two]) matches Err(
            e,
        ) && e.code == code::IP_SETTINGS_MISSING@ && e.detail == Some(
            "native_ims_dual_stack_netdev_mismatch"@,
        )),
        native_bearer::dual_bearer(device, seq![a, b], seq![one, one]) matches Ok(r) ==> {
            &&& r.interface == one
            &&& r.ip_type == "ipv4v6"@
            &&& r.path == "qmi-wds:"@ + device + "#"@ + (a.handle + "+"@ + b.handle)
        },
{
    let list = seq![one, two];
    assert(list[0] == one && list[1] == two);
    let sessions = seq![a, b];
    reveal_with_fuel(native_bearer::joined_handles, 3);
    assert(native_bearer::joined_handles(sessions, 2) == a.handle + "+"@ + b.handle);
}

/// A bearer of one family says which.
pub proof fn law_single_bearer_says_its_family(device: Seq<char>, s: Session, interface: Seq<char>)
    ensures
        native_bearer::single_bearer(device, s, interface) matches Some(b) ==> {
            &&& b.interface == interface
            &&& s.family == 6 ==> b.ip_type == "ipv6"@
            &&& s.family == 4 ==> b.ip_type == "ipv4"@
            &&& b.path == "qmi-wds:"@ + device + "#"@ + s.handle
            &&& b.mtu == s.current.mtu
            &&& b.ipv4_prefix == s.current.v4.prefix && b.ipv6_prefix == s.current.v6.prefix
        },
{
}

/// An address is taken without the prefix length behind it, and each address once.
pub proof fn law_session_addresses_are_bare(ip: IpAddr, prefix: Seq<char>)
    ensures
        native_bearer::bare_addr(Some(ip_text::ip_form(ip))) == Some(ip),
        native_bearer::bare_addr(Some(ip_text::ip_form(ip).push('/') + prefix)) == Some(ip),
        native_bearer::bare_addr(None) is None,
{
    let s = ip_text::ip_form(ip);
    let none = Seq::<char>::empty();
    address_text::law_address_is_read_back(ip);
    address_text::lemma_address_chars(ip);
    text_laws::law_cut_gives_both_sides(s, prefix, '/');
    text_laws::law_trim_takes_the_ends(none, s, none);
    assert(none + s + none =~= s);
}

} // verus!
