//! What is made of a call that failed.

use crate::ims_failure;
use crate::ims_failure::Diagnostic;
use crate::sip_frame;
use crate::text;
use crate::text_laws;
use vstd::prelude::*;

verus! {

/// The diagnosis of a status alone.
pub open spec fn of_status(status: u16) -> Diagnostic {
    ims_failure::diagnosis(status, seq![], seq![], None)
}

/// The diagnosis of a status with one Q.850 reason.
pub open spec fn of_cause(status: u16, cause: u16) -> Diagnostic {
    ims_failure::diagnosis(status, seq!["Q.850;cause="@ + text::decimal(cause as nat)], seq![], None)
}

proof fn lemma_status(status: u16)
    ensures
        of_status(status).rule == ims_failure::status_rule(status),
{
    let none = Seq::<Seq<char>>::empty();
    assert(ims_failure::q850_from(none, 0) is None);
    assert(ims_failure::warning_from(none, 0) is None);
}

/// Another try makes sense after a failure of the network or of the moment: a timeout, an
/// interval that was too short, a lost flow, a callee who is away for now, a request that was
/// in the way of another, or a server's failure that is not about what it can do at all.
pub proof fn law_passing_failures_may_be_retried(status: u16)
    ensures
        of_status(status).rule.retryable <==> status == 408 || status == 423 || status == 430
            || status == 480 || status == 491 || (500 <= status <= 599 && status != 501 && status
            != 505 && status != 513 && status != 580),
        of_status(status).sip_status == status,
        of_status(status).q850_cause is None,
        of_status(status).carrier_reason is None,
        of_status(status).retry_after_seconds is None,
{
    lemma_status(status);
    let none = Seq::<Seq<char>>::empty();
    assert(ims_failure::q850_from(none, 0) is None);
    assert(ims_failure::warning_from(none, 0) is None);
    assert(ims_failure::reason_text_from(none, 0) is None);
}

/// Every status belongs to one kind of failure.
pub proof fn law_statuses_have_their_kind(status: u16)
    ensures
        (status == 400 || status == 413 || status == 513)
            ==> of_status(status).rule.category == "request"@,
        (status == 401 || status == 407) ==> of_status(status).rule.category == "authentication"@,
        (status == 402 || status == 608) ==> of_status(status).rule.category == "carrier_policy"@,
        (status == 403) ==> of_status(status).rule.category == "authorization"@,
        (status == 404 || status == 410 || status == 414 || status == 416 || status == 484
            || status == 485 || status == 604) ==> of_status(status).rule.category == "addressing"@,
        (status == 405 || status == 406 || status == 420 || status == 421 || status == 439
            || status == 501 || status == 505) ==> of_status(status).rule.category == "capability"@,
        (status == 408 || status == 430 || status == 500 || status == 502 || status == 503
            || status == 504) ==> of_status(status).rule.category == "network_temporary"@,
        (status == 415 || status == 488 || status == 580 || status == 606)
            ==> of_status(status).rule.category == "media"@,
        (status == 423) ==> of_status(status).rule.category == "configuration"@,
        (status == 480 || status == 486 || status == 600 || status == 603 || status == 607)
            ==> of_status(status).rule.category == "remote_state"@,
        (status == 481 || status == 491) ==> of_status(status).rule.category == "transaction"@,
        (status == 482 || status == 483) ==> of_status(status).rule.category == "routing"@,
        (status == 487) ==> of_status(status).rule.category == "cancelled"@,
        (status == 493 || status == 494) ==> of_status(status).rule.category == "security"@,
        300 <= status <= 399 ==> of_status(status).rule.category == "routing"@,
        status < 300 || status >= 700 ==> of_status(status).rule.category == "unknown"@,
{
    lemma_status(status);
}

/// The codes that callers are shown for a status; statuses that say the same share one.
pub proof fn law_statuses_have_their_code(status: u16)
    ensures
        status == 400 ==> of_status(status).rule.code == "sip_bad_request"@,
        status == 401 || status == 407
            ==> of_status(status).rule.code == "sip_authentication_failed"@,
        status == 402 ==> of_status(status).rule.code == "sip_payment_required"@,
        status == 403 ==> of_status(status).rule.code == "sip_forbidden"@,
        status == 404 || status == 604 ==> of_status(status).rule.code == "number_not_found"@,
        status == 405 || status == 501
            ==> of_status(status).rule.code == "sip_method_not_supported"@,
        status == 406 ==> of_status(status).rule.code == "sip_response_not_acceptable"@,
        status == 408 || status == 504 ==> of_status(status).rule.code == "sip_request_timeout"@,
        status == 410 ==> of_status(status).rule.code == "number_gone"@,
        status == 413 || status == 513 ==> of_status(status).rule.code == "sip_message_too_large"@,
        status == 414 ==> of_status(status).rule.code == "sip_uri_too_long"@,
        status == 415 ==> of_status(status).rule.code == "sip_media_type_unsupported"@,
        status == 416 ==> of_status(status).rule.code == "sip_uri_scheme_unsupported"@,
        status == 420 ==> of_status(status).rule.code == "sip_extension_unsupported"@,
        status == 421 ==> of_status(status).rule.code == "sip_extension_required"@,
        status == 423 ==> of_status(status).rule.code == "sip_interval_too_brief"@,
        status == 430 ==> of_status(status).rule.code == "sip_flow_failed"@,
        status == 439 ==> of_status(status).rule.code == "sip_outbound_not_supported"@,
        status == 480 ==> of_status(status).rule.code == "callee_temporarily_unavailable"@,
        status == 481 ==> of_status(status).rule.code == "sip_dialog_not_found"@,
        status == 482 ==> of_status(status).rule.code == "sip_loop_detected"@,
        status == 483 ==> of_status(status).rule.code == "sip_too_many_hops"@,
        status == 484 ==> of_status(status).rule.code == "number_incomplete"@,
        status == 485 ==> of_status(status).rule.code == "number_ambiguous"@,
        status == 486 || status == 600 ==> of_status(status).rule.code == "callee_busy"@,
        status == 487 ==> of_status(status).rule.code == "call_cancelled"@,
        status == 488 || status == 606 ==> of_status(status).rule.code == "media_not_acceptable"@,
        status == 491 ==> of_status(status).rule.code == "sip_request_pending"@,
        status == 493 ==> of_status(status).rule.code == "sip_body_undecipherable"@,
        status == 494 ==> of_status(status).rule.code == "sip_security_agreement_required"@,
        status == 500 ==> of_status(status).rule.code == "sip_server_error"@,
        status == 502 ==> of_status(status).rule.code == "sip_bad_gateway"@,
        status == 503 ==> of_status(status).rule.code == "sip_service_unavailable"@,
        status == 505 ==> of_status(status).rule.code == "sip_version_unsupported"@,
        status == 580 ==> of_status(status).rule.code == "media_precondition_failed"@,
        status == 603 ==> of_status(status).rule.code == "call_declined"@,
        status == 607 ==> of_status(status).rule.code == "call_unwanted"@,
        status == 608 ==> of_status(status).rule.code == "call_rejected_by_policy"@,
{
    lemma_status(status);
}

proof fn lemma_plain(s: Seq<char>, i: int)
    requires
        0 <= i <= s.len(),
        text_laws::without(s, '"'),
        text_laws::without(s, ','),
    ensures
        ims_failure::quoted_split_from(s, ',', 0, i, false, false) == seq![text::trim(s)],
    decreases s.len() - i,
{
    if i < s.len() {
        lemma_plain(s, i + 1);
    } else {
        assert(s.subrange(0, s.len() as int) =~= s);
    }
}

proof fn lemma_cause(cause: u16)
    ensures
        ims_failure::q850_from(seq!["Q.850;cause="@ + text::decimal(cause as nat)], 0) == Some(
            cause as nat,
        ),
{
    let digits = text::decimal(cause as nat);
    let value = "Q.850;cause="@ + digits;
    reveal_strlit("Q.850;cause=");
    reveal_strlit("Q.850");
    reveal_strlit("cause");
    text::law_decimal_round_trip(cause as nat);
    text_laws::law_numbers_are_read_as_written(cause as nat, u16::MAX as nat, digits, 0);
    assert forall|i: int| 0 <= i < value.len() implies (#[trigger] value[i]) != '"' && value[i]
        != ',' && !text::white(value[i]) by {
        if i >= 12 {
            assert(text::digit(digits[i - 12]));
            assert(value[i] == digits[i - 12]);
        }
    }
    lemma_plain(value, 0);
    lemma_ends(value);
    let list = ims_failure::quoted_split(value, ',');
    assert(list[0] == value);
    let part = "cause"@.push('=') + digits;
    assert(value =~= "Q.850"@.push(';') + part);
    assert forall|i: int| 0 <= i < part.len() implies (#[trigger] part[i]) != ';' by {
        if i >= 6 {
            assert(text::digit(digits[i - 6]));
            assert(part[i] == digits[i - 6]);
        }
    }
    text_laws::law_split_undoes_join("Q.850"@, part, ';');
    text_laws::law_split_undoes_join(part, part, ';');
    let pieces = text::split(value, ';');
    assert(pieces =~= seq!["Q.850"@, part]);
    lemma_ends("Q.850"@);
    lemma_ends("cause"@);
    assert(text::digit(digits[0]) && text::digit(digits.last()));
    lemma_ends(digits);
    assert(part.last() == digits.last());
    lemma_ends(part);
    text_laws::law_cut_gives_both_sides("cause"@, digits, '=');
    assert(text::trim_char(digits, '"') == digits) by {
        assert(text::skip_char(digits, '"', 0) == 0);
        assert(text::back_char(digits, '"', 0, digits.len() as int) == digits.len());
        assert(digits.subrange(0, digits.len() as int) =~= digits);
    }
    assert(sip_frame::named_value(part, "cause"@) == Some(digits));
    assert(ims_failure::cause_from(pieces, 1) == Some(cause as nat));
    assert(ims_failure::reason_cause(value) == Some(cause as nat));
    assert(ims_failure::causes_from(list, 0) == Some(cause as nat));
}

proof fn lemma_ends(s: Seq<char>)
    requires
        s.len() > 0 && !text::white(s[0]) && !text::white(s.last()),
    ensures
        text::trim(s) == s,
{
    let none = Seq::<char>::empty();
    text_laws::law_trim_takes_the_ends(none, s, none);
    assert(none + s + none =~= s);
}

/// A Q.850 cause is read from its reason and decides over the status; another try makes sense
/// where it tells of a network that is out of order, busy or too slow, or of a callee who did
/// not answer.
pub proof fn law_causes_decide_over_the_status(status: u16, cause: u16)
    ensures
        of_cause(status, cause).q850_cause == Some(cause),
        of_cause(status, cause).rule == of_cause(0, cause).rule,
        of_cause(status, cause).rule.retryable <==> cause == 6 || cause == 18 || cause == 19
            || cause == 27 || cause == 34 || cause == 38 || cause == 41 || cause == 42
            || cause == 47 || cause == 102 || cause == 111,
{
    lemma_cause(cause);
    let none = Seq::<Seq<char>>::empty();
    assert(ims_failure::warning_from(none, 0) is None);
}

/// Every cause belongs to one kind of failure.
pub proof fn law_causes_have_their_kind(status: u16, cause: u16)
    ensures
        (cause == 1 || cause == 22 || cause == 28)
            ==> of_cause(status, cause).rule.category == "addressing"@,
        (cause == 2 || cause == 3) ==> of_cause(status, cause).rule.category == "routing"@,
        (cause == 6 || cause == 27 || cause == 34 || cause == 38 || cause == 41 || cause == 42
            || cause == 47 || cause == 102 || cause == 111)
            ==> of_cause(status, cause).rule.category == "network_temporary"@,
        (cause == 16 || cause == 17 || cause == 18 || cause == 19 || cause == 21)
            ==> of_cause(status, cause).rule.category == "remote_state"@,
        (cause == 29 || cause == 55 || cause == 57 || cause == 58 || cause == 63)
            ==> of_cause(status, cause).rule.category == "carrier_policy"@,
        (cause == 31 || cause == 127) ==> of_cause(status, cause).rule.category == "unknown"@,
        (cause == 65 || cause == 69 || cause == 79)
            ==> of_cause(status, cause).rule.category == "capability"@,
        (cause == 88) ==> of_cause(status, cause).rule.category == "media"@,
        cause > 127 ==> of_cause(status, cause).rule.category == "unknown"@,
{
    lemma_cause(cause);
    assert(ims_failure::warning_from(Seq::<Seq<char>>::empty(), 0) is None);
}

/// The codes that callers are shown for a cause.
pub proof fn law_causes_have_their_code(status: u16, cause: u16)
    ensures
        cause == 1 ==> of_cause(status, cause).rule.code == "number_unallocated"@,
        cause == 2 ==> of_cause(status, cause).rule.code == "no_route_to_network"@,
        cause == 3 ==> of_cause(status, cause).rule.code == "no_route_to_destination"@,
        cause == 6 ==> of_cause(status, cause).rule.code == "channel_unacceptable"@,
        cause == 16 ==> of_cause(status, cause).rule.code == "normal_call_clearing"@,
        cause == 17 ==> of_cause(status, cause).rule.code == "callee_busy"@,
        cause == 18 ==> of_cause(status, cause).rule.code == "callee_not_responding"@,
        cause == 19 ==> of_cause(status, cause).rule.code == "callee_no_answer"@,
        cause == 21 ==> of_cause(status, cause).rule.code == "call_rejected"@,
        cause == 22 ==> of_cause(status, cause).rule.code == "number_changed"@,
        cause == 27 ==> of_cause(status, cause).rule.code == "destination_out_of_order"@,
        cause == 28 ==> of_cause(status, cause).rule.code == "invalid_number_format"@,
        cause == 29 ==> of_cause(status, cause).rule.code == "facility_rejected"@,
        cause == 31 ==> of_cause(status, cause).rule.code == "normal_unspecified"@,
        cause == 34 ==> of_cause(status, cause).rule.code == "no_circuit_available"@,
        cause == 38 ==> of_cause(status, cause).rule.code == "network_out_of_order"@,
        cause == 41 ==> of_cause(status, cause).rule.code == "temporary_failure"@,
        cause == 42 ==> of_cause(status, cause).rule.code == "switching_congestion"@,
        cause == 47 ==> of_cause(status, cause).rule.code == "network_resource_unavailable"@,
        cause == 55 ==> of_cause(status, cause).rule.code == "incoming_calls_barred"@,
        cause == 57 ==> of_cause(status, cause).rule.code == "bearer_not_authorized"@,
        cause == 58 ==> of_cause(status, cause).rule.code == "bearer_not_available"@,
        cause == 63 ==> of_cause(status, cause).rule.code == "service_unavailable"@,
        cause == 65 ==> of_cause(status, cause).rule.code == "bearer_not_implemented"@,
        cause == 69 ==> of_cause(status, cause).rule.code == "facility_not_implemented"@,
        cause == 79 ==> of_cause(status, cause).rule.code == "service_not_implemented"@,
        cause == 88 ==> of_cause(status, cause).rule.code == "incompatible_destination"@,
        cause == 102 ==> of_cause(status, cause).rule.code == "recovery_timer_expired"@,
        cause == 111 ==> of_cause(status, cause).rule.code == "interworking_protocol_error"@,
        cause == 127 ==> of_cause(status, cause).rule.code == "interworking_unspecified"@,
        cause > 127 ==> of_cause(status, cause).rule.code == "q850_cause_unknown"@,
{
    lemma_cause(cause);
    assert(ims_failure::warning_from(Seq::<Seq<char>>::empty(), 0) is None);
}

/// A carrier's words, in lower case, with a phrase anywhere in them.
pub open spec fn speaks_of(warning: Seq<char>, phrase: Seq<char>) -> bool {
    exists|a: Seq<char>, b: Seq<char>| text::lower_all(warning) == #[trigger] ((a + phrase) + b)
}

proof fn lemma_speaks(warning: Seq<char>, phrase: Seq<char>)
    ensures
        text::has_text(text::lower_all(warning), phrase) == speaks_of(warning, phrase),
{
    let low = text::lower_all(warning);
    text_laws::law_text_is_found_anywhere(seq![], phrase, seq![], low);
    if speaks_of(warning, phrase) {
        let (a, b) = choose|a: Seq<char>, b: Seq<char>| low == #[trigger] ((a + phrase) + b);
        text_laws::law_text_is_found_anywhere(a, phrase, b, low);
    }
}

/// A carrier's known words tell why a call failed, in whatever case and wherever they stand:
/// they decide over the cause and the status. The words of a service control come first, then
/// those about credit, barring, provisioning and preconditions.
pub proof fn law_known_words_decide(status: u16, cause: Option<u16>, warning: Seq<char>)
    ensures
        ({
            let r = ims_failure::chosen_rule(status, cause, Some(warning));
            let released = speaks_of(warning, "release call received from cap"@);
            let poor = speaks_of(warning, "insufficient balance"@) || speaks_of(
                warning,
                "insufficient credit"@,
            ) || speaks_of(warning, "low balance"@);
            let barred = speaks_of(warning, "outgoing call barred"@) || speaks_of(
                warning,
                "call is barred"@,
            );
            let missing = speaks_of(warning, "not provisioned"@) || speaks_of(
                warning,
                "not subscribed"@,
            ) || speaks_of(warning, "service not allowed"@);
            let condition = speaks_of(warning, "precondition"@);
            &&& released ==> r.code == "carrier_service_control_release"@ && r.category
                == "carrier_policy"@ && !r.retryable
            &&& !released && poor ==> r.code == "carrier_insufficient_credit"@ && r.category
                == "carrier_policy"@ && !r.retryable
            &&& !released && !poor && barred ==> r.code == "carrier_call_barred"@ && r.category
                == "carrier_policy"@ && !r.retryable
            &&& !released && !poor && !barred && missing ==> r.code
                == "carrier_service_not_provisioned"@ && r.category == "carrier_policy"@
                && !r.retryable
            &&& !released && !poor && !barred && !missing && condition ==> r.code
                == "media_precondition_failed"@ && r.category == "media"@ && !r.retryable
            &&& !released && !poor && !barred && !missing && !condition ==> r
                == ims_failure::chosen_rule(status, cause, None)
        }),
{
    lemma_speaks(warning, "release call received from cap"@);
    lemma_speaks(warning, "insufficient balance"@);
    lemma_speaks(warning, "insufficient credit"@);
    lemma_speaks(warning, "low balance"@);
    lemma_speaks(warning, "outgoing call barred"@);
    lemma_speaks(warning, "call is barred"@);
    lemma_speaks(warning, "not provisioned"@);
    lemma_speaks(warning, "not subscribed"@);
    lemma_speaks(warning, "service not allowed"@);
    lemma_speaks(warning, "precondition"@);
}

/// The time to wait is the first number of its header, whatever stands around it.
pub proof fn law_waiting_time_is_read(
    status: u16,
    reasons: Seq<Seq<char>>,
    warnings: Seq<Seq<char>>,
    before: Seq<char>,
    n: u32,
    after: Seq<char>,
)
    requires
        forall|i: int| 0 <= i < before.len() ==> !('0' <= (#[trigger] before[i]) <= '9'),
        after.len() > 0 ==> !('0' <= after[0] <= '9'),
    ensures
        ims_failure::diagnosis(
            status,
            reasons,
            warnings,
            Some(before + text::decimal(n as nat) + after),
        ).retry_after_seconds == Some(n),
        ims_failure::diagnosis(status, reasons, warnings, Some(before)).retry_after_seconds is None,
        ims_failure::diagnosis(status, reasons, warnings, None).retry_after_seconds is None,
{
    let d = text::decimal(n as nat);
    text::law_decimal_round_trip(n as nat);
    text_laws::law_numbers_are_read_as_written(n as nat, u32::MAX as nat, d, 0);
    let s = before + d + after;
    let a = before.len() as int;
    let b = a + d.len();
    assert forall|i: int| 0 <= i < a implies !text::digit(#[trigger] s[i]) by {
        assert(s[i] == before[i]);
    }
    assert forall|i: int| a <= i < b implies text::digit(#[trigger] s[i]) by {
        assert(s[i] == d[i - a]);
        assert(text::digit(d[i - a]));
    }
    if b < s.len() {
        assert(s[b] == after[0]);
    }
    lemma_to_digit(s, 0, a);
    lemma_over_digits(s, a, b);
    assert(s.subrange(a, b) =~= d);
    lemma_to_digit(before, 0, a);
    assert(ims_failure::digits_end(before, a) == a);
    assert(before.subrange(a, a).len() == 0);
}

proof fn lemma_to_digit(s: Seq<char>, i: int, end: int)
    requires
        0 <= i <= end <= s.len(),
        end < s.len() ==> text::digit(s[end]),
        forall|j: int| i <= j < end ==> !text::digit(#[trigger] s[j]),
    ensures
        ims_failure::digit_from(s, i) == end,
    decreases end - i,
{
    if i < end {
        lemma_to_digit(s, i + 1, end);
    }
}

proof fn lemma_over_digits(s: Seq<char>, i: int, end: int)
    requires
        0 <= i <= end <= s.len(),
        end < s.len() ==> !text::digit(s[end]),
        forall|j: int| i <= j < end ==> text::digit(#[trigger] s[j]),
    ensures
        ims_failure::digits_end(s, i) == end,
    decreases end - i,
{
    if i < end {
        lemma_over_digits(s, i + 1, end);
    }
}

/// A carrier's words are kept as they stand between the outermost quotes of its warning, the
/// start of them where they are long.
pub proof fn law_carrier_words_are_kept(
    status: u16,
    reasons: Seq<Seq<char>>,
    agent: Seq<char>,
    words: Seq<char>,
)
    requires
        text_laws::without(agent, '"'),
        words.len() > 0 && !text::white(words[0]) && !text::white(words.last()),
        forall|i: int| 0 <= i < words.len() ==> !text::control(#[trigger] words[i]),
    ensures
        ims_failure::diagnosis(
            status,
            reasons,
            seq![agent + seq!['"'] + words + seq!['"']],
            None,
        ).carrier_reason == Some(
            if words.len() <= 160 {
                words
            } else {
                words.take(160)
            },
        ),
{
    let value = agent + seq!['"'] + words + seq!['"'];
    let tail = words.push('"');
    assert(value =~= agent.push('"') + tail);
    text_laws::law_first_is_found(agent, tail, '"');
    let n = value.len() as int;
    assert(value[n - 1] == '"');
    assert(ims_failure::last_before(value, '"', n) == n - 1);
    assert(value.subrange(agent.len() as int + 1, n - 1) =~= words);
    lemma_ends(words);
    lemma_printable(words, words.len() as int);
    assert(words.subrange(0, words.len() as int) =~= words);
    let list = seq![value];
    assert(ims_failure::warning_from(list, 0) == ims_failure::warning_text(value));
}

proof fn lemma_printable(s: Seq<char>, n: int)
    requires
        0 <= n <= s.len(),
        forall|i: int| 0 <= i < n ==> !text::control(#[trigger] s[i]),
    ensures
        ims_failure::printable_upto(s, n) == s.subrange(0, n),
    decreases n,
{
    if n > 0 {
        lemma_printable(s, n - 1);
        assert(s.subrange(0, n) =~= s.subrange(0, n - 1).push(s[n - 1]));
    } else {
        assert(s.subrange(0, 0) =~= Seq::empty());
    }
}

proof fn lemma_foreign_reason(cause: u16)
    ensures
        ims_failure::causes_from(
            ims_failure::quoted_split("SIP;cause="@ + text::decimal(cause as nat), ','),
            0,
        ) is None,
{
    let digits = text::decimal(cause as nat);
    let value = "SIP;cause="@ + digits;
    reveal_strlit("SIP;cause=");
    reveal_strlit("SIP");
    reveal_strlit("cause=");
    reveal_strlit("Q.850");
    text::law_decimal_round_trip(cause as nat);
    assert(text::digit(digits.last()));
    assert forall|i: int| 0 <= i < value.len() implies (#[trigger] value[i]) != '"' && value[i]
        != ',' by {
        if i >= 10 {
            assert(text::digit(digits[i - 10]));
            assert(value[i] == digits[i - 10]);
        }
    }
    lemma_plain(value, 0);
    assert(value[0] == 'S' && value.last() == digits.last());
    lemma_ends(value);
    let rest = "cause="@ + digits;
    assert(value =~= "SIP"@.push(';') + rest);
    text_laws::law_split_undoes_join("SIP"@, rest, ';');
    lemma_ends("SIP"@);
    text_laws::law_alike_ignores_case_alone("SIP"@, "Q.850"@);
    let list = ims_failure::quoted_split(value, ',');
    assert(list =~= seq![value]);
    assert(text::split(value, ';')[0] == "SIP"@);
    assert(ims_failure::reason_cause(value) is None);
    assert(ims_failure::causes_from(list, 1) is None);
}

/// Of several reasons the first one with a Q.850 cause counts, and causes of other protocols
/// do not.
pub proof fn law_first_q850_cause_counts(status: u16, a: u16, b: u16)
    ensures
        ({
            let one = "Q.850;cause="@ + text::decimal(a as nat);
            let two = "Q.850;cause="@ + text::decimal(b as nat);
            let other = "SIP;cause="@ + text::decimal(b as nat);
            &&& ims_failure::diagnosis(status, seq![one, two], seq![], None).q850_cause == Some(a)
            &&& ims_failure::diagnosis(status, seq![other, one], seq![], None).q850_cause == Some(a)
            &&& ims_failure::diagnosis(status, seq![other], seq![], None).q850_cause is None
        }),
{
    let one = "Q.850;cause="@ + text::decimal(a as nat);
    let two = "Q.850;cause="@ + text::decimal(b as nat);
    let other = "SIP;cause="@ + text::decimal(b as nat);
    lemma_cause(a);
    lemma_foreign_reason(b);
    let single = seq![one];
    assert(ims_failure::q850_from(single, 1) is None);
    assert(ims_failure::causes_from(ims_failure::quoted_split(one, ','), 0) == Some(a as nat));
    let first = seq![one, two];
    assert(ims_failure::q850_from(first, 0) == Some(a as nat));
    let second = seq![other, one];
    assert(ims_failure::q850_from(second, 1) == Some(a as nat));
    assert(ims_failure::q850_from(second, 0) == Some(a as nat));
    let last = seq![other];
    assert(ims_failure::q850_from(last, 1) is None);
    assert(ims_failure::q850_from(last, 0) is None);
}

} // verus!
