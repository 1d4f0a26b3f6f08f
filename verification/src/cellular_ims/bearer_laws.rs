//! How the bearer of a line comes up, and what its failures mean.

use crate::bearer;
use crate::cellular_ims::errors::code;
use crate::cellular_ims::native_bearer;
use crate::cellular_ims::native_bearer::{
    AttemptFamilies, ErrorValue, Held, ImsBearerErrorKind,
    ImsBearerFailureHint, ImsBearerInfo, MoveStep, RunAction, RunEvent, RunStage, Setup,
    WorkerBinding,
};
use crate::plan;
use crate::plan::{FailureClass, IpFamily, IpFamilyPreference, IpType};
use crate::text;
use crate::text_laws;
use vstd::prelude::*;

verus! {

// --------------------------------------------------------------------------- plans

/// The preferred family comes first, the other one behind it; an exclusive preference admits
/// no other. Both families at once are tried before each alone.
pub proof fn law_preferred_family_comes_first(preference: IpFamilyPreference)
    ensures
        ({
            let p = plan::plan_of(preference);
            match preference {
                IpFamilyPreference::Ipv4First => p.families == seq![IpFamily::Ipv4, IpFamily::Ipv6]
                    && p.attempts == seq![IpType::Ipv4v6, IpType::Ipv4, IpType::Ipv6],
                IpFamilyPreference::Ipv6First => p.families == seq![IpFamily::Ipv6, IpFamily::Ipv4]
                    && p.attempts == seq![IpType::Ipv4v6, IpType::Ipv6, IpType::Ipv4],
                IpFamilyPreference::Ipv4Only => p.families == seq![IpFamily::Ipv4] && p.attempts
                    == seq![IpType::Ipv4],
                IpFamilyPreference::Ipv6Only => p.families == seq![IpFamily::Ipv6] && p.attempts
                    == seq![IpType::Ipv6],
            }
        }),
{
}

/// A preference is tried as it says: both families together, the preferred one named first,
/// then the preferred one alone, then the other; an exclusive one is tried alone.
pub proof fn law_attempts_follow_the_preference(profile_id: Option<u32>)
    ensures
        native_bearer::setup_start(
            plan::plan_of(IpFamilyPreference::Ipv4First),
            profile_id,
        ).attempts == seq![
            AttemptFamilies::Two(4, 6),
            AttemptFamilies::One(4),
            AttemptFamilies::One(6),
        ],
        native_bearer::setup_start(
            plan::plan_of(IpFamilyPreference::Ipv6First),
            profile_id,
        ).attempts == seq![
            AttemptFamilies::Two(6, 4),
            AttemptFamilies::One(6),
            AttemptFamilies::One(4),
        ],
        native_bearer::setup_start(
            plan::plan_of(IpFamilyPreference::Ipv4Only),
            profile_id,
        ).attempts == seq![AttemptFamilies::One(4)],
        native_bearer::setup_start(
            plan::plan_of(IpFamilyPreference::Ipv6Only),
            profile_id,
        ).attempts == seq![AttemptFamilies::One(6)],
{
    lemma_attempts(IpFamilyPreference::Ipv4First);
    lemma_attempts(IpFamilyPreference::Ipv6First);
    lemma_attempts(IpFamilyPreference::Ipv4Only);
    lemma_attempts(IpFamilyPreference::Ipv6Only);
}

proof fn lemma_attempts(preference: IpFamilyPreference)
    ensures
        native_bearer::planned_attempts(plan::plan_of(preference)) == (match preference {
            IpFamilyPreference::Ipv4First => seq![
                AttemptFamilies::Two(4, 6),
                AttemptFamilies::One(4),
                AttemptFamilies::One(6),
            ],
            IpFamilyPreference::Ipv6First => seq![
                AttemptFamilies::Two(6, 4),
                AttemptFamilies::One(6),
                AttemptFamilies::One(4),
            ],
            IpFamilyPreference::Ipv4Only => seq![AttemptFamilies::One(4)],
            IpFamilyPreference::Ipv6Only => seq![AttemptFamilies::One(6)],
        }),
{
    let p = plan::plan_of(preference);
    reveal_with_fuel(plan::numbers_upto, 3);
    reveal_with_fuel(native_bearer::attempts_upto, 4);
    let none = Seq::<u8>::empty();
    assert(!none.contains(4u8) && !none.contains(6u8));
    assert(!none.push(4u8).contains(6u8));
    assert(!none.push(6u8).contains(4u8));
    match preference {
        IpFamilyPreference::Ipv4First => {
            assert(plan::family_numbers(p) =~= seq![4u8, 6]);
            assert(native_bearer::planned_attempts(p) =~= seq![
                AttemptFamilies::Two(4, 6),
                AttemptFamilies::One(4),
                AttemptFamilies::One(6),
            ]);
        },
        IpFamilyPreference::Ipv6First => {
            assert(plan::family_numbers(p) =~= seq![6u8, 4]);
            assert(native_bearer::planned_attempts(p) =~= seq![
                AttemptFamilies::Two(6, 4),
                AttemptFamilies::One(6),
                AttemptFamilies::One(4),
            ]);
        },
        IpFamilyPreference::Ipv4Only => {
            assert(native_bearer::planned_attempts(p) =~= seq![AttemptFamilies::One(4)]);
        },
        IpFamilyPreference::Ipv6Only => {
            assert(native_bearer::planned_attempts(p) =~= seq![AttemptFamilies::One(6)]);
        },
    }
}

/// A failure that says nothing of the family leaves the attempts behind it, in their order; the
/// last error is the one that is told when none is left.
pub proof fn law_next_attempt_follows_a_failure(s: Setup, e: ErrorValue)
    requires
        native_bearer::setup_wf(s),
        native_bearer::setup_attempt(s) is Some,
    ensures
        native_bearer::setup_attempt(s) == Some(s.attempts[s.next]),
        native_bearer::setup_failed(s, e, ImsBearerFailureHint::Nothing) matches Ok(after) && {
            &&& after.attempts == s.attempts
            &&& after.next == s.next + 1
            &&& after.profile_id == s.profile_id
            &&& native_bearer::setup_error(after) == e
        },
        !s.forced && s.profile_id is None ==> {
            &&& native_bearer::setup_failed(
                s,
                e,
                ImsBearerFailureHint::NetworkForcedIpv4,
            ) matches Ok(after) && native_bearer::setup_attempt(after) == Some(
                AttemptFamilies::One(4),
            ) && after.attempts.len() == 1
            &&& native_bearer::setup_failed(
                s,
                e,
                ImsBearerFailureHint::NetworkForcedIpv6,
            ) matches Ok(after) && native_bearer::setup_attempt(after) == Some(
                AttemptFamilies::One(6),
            ) && after.attempts.len() == 1
        },
        !s.forced && s.profile_id is Some ==> {
            &&& native_bearer::setup_failed(
                s,
                e,
                ImsBearerFailureHint::NetworkForcedIpv4,
            ) matches Ok(after) && native_bearer::setup_attempt(after) is None
                && native_bearer::setup_error(after).code == code::RUNTIME_IMS_FAMILY_UNSUPPORTED@
                && native_bearer::setup_error(after).detail == Some(
                "profile_pin_family_conflict:profile_id="@ + text::decimal(
                    s.profile_id->0 as nat,
                ) + ":forced_family="@ + text::decimal(4),
            )
        },
{
}

// --------------------------------------------------------------------------- failures

pub open spec fn speaks_of(detail: Seq<char>, phrase: Seq<char>) -> bool {
    exists|a: Seq<char>, b: Seq<char>| text::lower_all(detail) == #[trigger] ((a + phrase) + b)
}

proof fn lemma_speaks(detail: Seq<char>, phrase: Seq<char>)
    ensures
        text::has_text(text::lower_all(detail), phrase) == speaks_of(detail, phrase),
{
    let low = text::lower_all(detail);
    text_laws::law_text_is_found_anywhere(seq![], phrase, seq![], low);
    if speaks_of(detail, phrase) {
        let (a, b) = choose|a: Seq<char>, b: Seq<char>| low == #[trigger] ((a + phrase) + b);
        text_laws::law_text_is_found_anywhere(a, phrase, b, low);
    }
}

/// What the network or the modem says of a failure decides what is tried next: a wedge first,
/// then a family that is the only one allowed, then a prefix that is missing.
pub proof fn law_words_of_a_failure_decide(detail: Seq<char>)
    ensures
        ({
            let wedge = speaks_of(detail, "endpoint hangup"@) || speaks_of(
                detail,
                "wds_baseband_wedged:"@,
            );
            let v4 = speaks_of(detail, "ipv4-only-allowed"@);
            let v6 = speaks_of(detail, "ipv6-only-allowed"@);
            let prefix = speaks_of(detail, "prefix-unavailable"@);
            let c = plan::class_of_detail(detail);
            &&& wedge <==> c is BasebandWedged
            &&& !wedge && v4 <==> c is NetworkForcedIpv4
            &&& !wedge && !v4 && v6 <==> c is NetworkForcedIpv6
            &&& !wedge && !v4 && !v6 && prefix <==> c is PrefixUnavailable
            &&& !wedge && !v4 && !v6 && !prefix <==> c is Other
        }),
        plan::forced_by(FailureClass::NetworkForcedIpv4) == Some(IpFamily::Ipv4),
        plan::forced_by(FailureClass::NetworkForcedIpv6) == Some(IpFamily::Ipv6),
        plan::forced_by(FailureClass::Other) is None,
        plan::forced_by(FailureClass::BasebandWedged) is None,
{
    lemma_speaks(detail, "endpoint hangup"@);
    lemma_speaks(detail, "wds_baseband_wedged:"@);
    lemma_speaks(detail, "ipv4-only-allowed"@);
    lemma_speaks(detail, "ipv6-only-allowed"@);
    lemma_speaks(detail, "prefix-unavailable"@);
}

/// A wedged modem is told as such whatever failed, and every other failure by what failed.
pub proof fn law_failures_are_told_by_kind(kind: ImsBearerErrorKind, hint: ImsBearerFailureHint)
    ensures
        ({
            let c = native_bearer::bearer_error_code(kind, hint);
            &&& hint is BasebandWedged ==> c == code::RUNTIME_IMS_BASEBAND_WEDGED@
            &&& !(hint is BasebandWedged) ==> {
                &&& kind is BasebandUnresolved || kind is SettingsMissing ==> c
                    == code::IP_SETTINGS_MISSING@
                &&& kind is EndpointUnavailable ==> c == code::RUNTIME_IMS_ENDPOINT_UNAVAILABLE@
                &&& kind is SessionStartFailed || kind is NetdevUnresolved ==> c
                    == code::RUNTIME_IMS_BEARER_START_FAILED@
                &&& kind is SessionLost ==> c == code::BEARER_SESSION_LOST@
                &&& kind is PcscfUnavailable ==> c == code::RUNTIME_ALL_PCSCF_FAILED@
            }
        }),
{
}

/// A profile that is a context number is the context; any other leaves the configured one.
pub proof fn law_context_is_the_profile_where_it_can_be(profile: u32, configured: u8)
    ensures
        native_bearer::context_cid(None, configured) == configured,
        1 <= profile && profile <= 16 ==> native_bearer::context_cid(Some(profile), configured)
            == profile,
        profile == 0 || profile > 16 ==> native_bearer::context_cid(Some(profile), configured)
            == configured,
{
}

// --------------------------------------------------------------------------- reports

/// A report with an address is the bearer that it describes, under its own marked path; one
/// without any is none.
pub proof fn law_report_is_taken_as_it_is(i: ImsBearerInfo)
    ensures
        native_bearer::bearer_of(i) is Some <==> i.ipv4_address is Some || i.ipv6_address is Some,
        native_bearer::bearer_of(i) matches Some(b) ==> {
            &&& b.path == "native-bearer:"@ + i.path_device@ + "#"@ + i.path_handle@
            &&& b.interface == i.interface@
            &&& b.ip_type == i.ip_type@
            &&& b.settings.ipv4_address == i.ipv4_address && b.settings.ipv6_address
                == i.ipv6_address
            &&& b.settings.ipv4_gateway == i.ipv4_gateway && b.settings.ipv6_gateway
                == i.ipv6_gateway
            &&& b.settings.ipv4_dns == i.ipv4_dns@ && b.settings.ipv6_dns == i.ipv6_dns@
            &&& b.settings.pcscf == i.pcscf@
            &&& b.ipv4_prefix == i.ipv4_prefix && b.ipv6_prefix == i.ipv6_prefix
            &&& b.mtu is None
        },
{
}

/// The object of a bearer is a number below the objects of the modem manager, and nothing else
/// is one.
pub proof fn law_bearer_objects_are_numbered(n: nat, rest: Seq<char>, k: int)
    ensures
        bearer::valid_bearer_path("/org/freedesktop/ModemManager1/Bearer/"@ + text::decimal(n)),
        0 <= k < rest.len() && !('0' <= rest[k] <= '9') ==> !bearer::valid_bearer_path(
            "/org/freedesktop/ModemManager1/Bearer/"@ + rest,
        ),
        !bearer::valid_bearer_path("/org/freedesktop/ModemManager1/Bearer/"@),
{
    let p = "/org/freedesktop/ModemManager1/Bearer/"@;
    let d = text::decimal(n);
    text::law_decimal_round_trip(n);
    text_laws::law_prefix_can_be_completed(p, d, p + d);
    text_laws::law_prefix_can_be_completed(p, rest, p + rest);
    text_laws::law_prefix_can_be_completed(p, Seq::empty(), p);
    assert(p + Seq::<char>::empty() =~= p);
    if 0 <= k < rest.len() && !('0' <= rest[k] <= '9') {
        assert(!text::digit(rest[k]));
    }
}

// --------------------------------------------------------------------------- workers

/// An interface moves into a worker only while the worker's generation is held and ready and
/// the application owns the interface; one that is in a worker stays with its generation.
pub proof fn law_interface_moves_only_where_it_may(
    h: Held,
    binding: WorkerBinding,
    generation_held: bool,
    existing_current: bool,
    worker_ready: bool,
)
    ensures
        ({
            let (after, r) = native_bearer::move_step(
                h,
                binding,
                generation_held,
                existing_current,
                worker_ready,
            );
            &&& r == Ok::<_, ErrorValue>(MoveStep::Move) <==> generation_held && h.binding is None
                && worker_ready && h.ownership is ApplicationOwnedNative
            &&& r == Ok::<_, ErrorValue>(MoveStep::Stay) <==> generation_held && (h.binding == Some(
                binding,
            ) && existing_current || h.binding is None && worker_ready && h.ownership
                is WorkerNative)
            &&& !generation_held ==> r == Err::<MoveStep, _>(
                ErrorValue { code: code::RUNTIME_UE_WORKER_GENERATION_CHANGED@, detail: None },
            )
            &&& generation_held && h.binding is None && !worker_ready ==> r == Err::<MoveStep, _>(
                ErrorValue { code: code::RUNTIME_UE_WORKER_UNAVAILABLE@, detail: None },
            )
            &&& r is Err ==> after == h
            &&& r == Ok::<_, ErrorValue>(MoveStep::Stay) ==> after.binding == Some(binding)
        }),
{
}

/// A bearer can be used while its session is alive and its worker is the one that it was bound
/// to; a bearer without a worker needs none.
pub proof fn law_bearer_is_used_with_its_worker(
    h: Held,
    failure: Option<ErrorValue>,
    binding_live: bool,
)
    ensures
        native_bearer::usable(h, failure, binding_live) is None <==> failure is None && (h.binding
            is None || binding_live),
        failure is Some ==> native_bearer::usable(h, failure, binding_live) == failure,
        failure is None && h.binding is Some && !binding_live ==> native_bearer::usable(
            h,
            failure,
            binding_live,
        ) == Some(ErrorValue { code: code::RUNTIME_UE_WORKER_GENERATION_CHANGED@, detail: None }),
{
}

/// A discovery asks the provider, takes what it says after another look at the session, and
/// reads the settings only where the provider cannot tell; a session that is lost ends it.
pub proof fn law_discovery_takes_what_the_provider_says(
    stage: RunStage,
    event: RunEvent,
    lost: ErrorValue,
)
    ensures
        native_bearer::discovery_step(stage, Some(lost), event) == (
            RunStage::Ended,
            RunAction::Finish(Err(lost)),
        ),
        native_bearer::discovery_step(RunStage::Begun, None, RunEvent::Looked) == (
            RunStage::ProviderAsked,
            RunAction::AskProvider,
        ),
        event matches RunEvent::Provider(Ok(Some(d))) ==> native_bearer::discovery_step(
            RunStage::ProviderAsked,
            None,
            event,
        ) == (RunStage::Settled(Ok(d)), RunAction::LookAgain),
        event matches RunEvent::Provider(Ok(None)) ==> native_bearer::discovery_step(
            RunStage::ProviderAsked,
            None,
            event,
        ) == (RunStage::FallbackAsked, RunAction::RunFallback),
        event matches RunEvent::Provider(Err(e)) ==> native_bearer::discovery_step(
            RunStage::ProviderAsked,
            None,
            event,
        ) == (RunStage::Settled(Err(e)), RunAction::LookAgain),
        event matches RunEvent::Fallback(r) ==> native_bearer::discovery_step(
            RunStage::FallbackAsked,
            None,
            event,
        ) == (RunStage::Ended, RunAction::Finish(r)),
        stage matches RunStage::Settled(r) ==> native_bearer::discovery_step(
            stage,
            None,
            RunEvent::Looked,
        ) == (RunStage::Ended, RunAction::Finish(r)),
{
}

/// The family that the network forces is the one that its hint names.
pub proof fn law_hint_names_the_family(hint: ImsBearerFailureHint)
    ensures
        native_bearer::hint_family(hint) == (match hint {
            ImsBearerFailureHint::NetworkForcedIpv4 => Some(4u8),
            ImsBearerFailureHint::NetworkForcedIpv6 => Some(6u8),
            _ => None,
        }),
{
}

} // verus!
