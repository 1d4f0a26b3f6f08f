//! Structured IMS call failure diagnostics.
//!
//! A carrier's Warning text counts only for a small set of stable, actionable
//! signals; a Q.850 cause comes before the generic SIP status. Unknown text is
//! kept as bounded metadata and never changes protocol behaviour.

use crate::ims_error::ImsError;
use crate::sip_frame;
use crate::sip_frame::{header_value, header_values, parse_status, value_named};
use crate::text;
use crate::text::{chars_of, contains_text, find, is_alike_text, is_control, is_digit, lowered};
use crate::text::{parse_u16, parse_u32, parts, push_decimal, push_str, string_of, trimmed};
use vstd::prelude::*;
use vstd::slice::slice_subrange;

verus! {

pub const MAX_CARRIER_REASON_CHARS: usize = 160;

#[derive(Debug, Clone, PartialEq, Eq)]
pub struct ImsFailureDiagnostic {
    pub code: &'static str,
    pub category: &'static str,
    pub sip_status: u16,
    pub q850_cause: Option<u16>,
    pub retryable: bool,
    pub retry_after_seconds: Option<u32>,
    pub carrier_reason: Option<String>,
}

#[derive(Debug, Clone, Copy)]
struct FailureRule {
    code: &'static str,
    category: &'static str,
    retryable: bool,
}

/// A classification as a value.
pub struct Rule {
    pub code: Seq<char>,
    pub category: Seq<char>,
    pub retryable: bool,
}

pub open spec fn rule_value(code: Seq<char>, category: Seq<char>, retryable: bool) -> Rule {
    Rule { code, category, retryable }
}

impl View for FailureRule {
    type V = Rule;

    closed spec fn view(&self) -> Rule {
        Rule { code: self.code@, category: self.category@, retryable: self.retryable }
    }
}

fn rule(code: &'static str, category: &'static str, retryable: bool) -> (r: FailureRule)
    ensures
        r@ == rule_value(code@, category@, retryable),
{
    FailureRule { code, category, retryable }
}

/// What a SIP status says of a failed call.
pub open spec fn status_rule(status: u16) -> Rule {
    if status == 400 {
        rule_value("sip_bad_request"@, "request"@, false)
    } else if status == 401 || status == 407 {
        rule_value("sip_authentication_failed"@, "authentication"@, false)
    } else if status == 402 {
        rule_value("sip_payment_required"@, "carrier_policy"@, false)
    } else if status == 403 {
        rule_value("sip_forbidden"@, "authorization"@, false)
    } else if status == 404 || status == 604 {
        rule_value("number_not_found"@, "addressing"@, false)
    } else if status == 405 || status == 501 {
        rule_value("sip_method_not_supported"@, "capability"@, false)
    } else if status == 406 {
        rule_value("sip_response_not_acceptable"@, "capability"@, false)
    } else if status == 408 || status == 504 {
        rule_value("sip_request_timeout"@, "network_temporary"@, true)
    } else if status == 410 {
        rule_value("number_gone"@, "addressing"@, false)
    } else if status == 413 || status == 513 {
        rule_value("sip_message_too_large"@, "request"@, false)
    } else if status == 414 {
        rule_value("sip_uri_too_long"@, "addressing"@, false)
    } else if status == 415 {
        rule_value("sip_media_type_unsupported"@, "media"@, false)
    } else if status == 416 {
        rule_value("sip_uri_scheme_unsupported"@, "addressing"@, false)
    } else if status == 420 {
        rule_value("sip_extension_unsupported"@, "capability"@, false)
    } else if status == 421 {
        rule_value("sip_extension_required"@, "capability"@, false)
    } else if status == 423 {
        rule_value("sip_interval_too_brief"@, "configuration"@, true)
    } else if status == 430 {
        rule_value("sip_flow_failed"@, "network_temporary"@, true)
    } else if status == 439 {
        rule_value("sip_outbound_not_supported"@, "capability"@, false)
    } else if status == 480 {
        rule_value("callee_temporarily_unavailable"@, "remote_state"@, true)
    } else if status == 481 {
        rule_value("sip_dialog_not_found"@, "transaction"@, false)
    } else if status == 482 {
        rule_value("sip_loop_detected"@, "routing"@, false)
    } else if status == 483 {
        rule_value("sip_too_many_hops"@, "routing"@, false)
    } else if status == 484 {
        rule_value("number_incomplete"@, "addressing"@, false)
    } else if status == 485 {
        rule_value("number_ambiguous"@, "addressing"@, false)
    } else if status == 486 || status == 600 {
        rule_value("callee_busy"@, "remote_state"@, false)
    } else if status == 487 {
        rule_value("call_cancelled"@, "cancelled"@, false)
    } else if status == 488 || status == 606 {
        rule_value("media_not_acceptable"@, "media"@, false)
    } else if status == 491 {
        rule_value("sip_request_pending"@, "transaction"@, true)
    } else if status == 493 {
        rule_value("sip_body_undecipherable"@, "security"@, false)
    } else if status == 494 {
        rule_value("sip_security_agreement_required"@, "security"@, false)
    } else if status == 500 {
        rule_value("sip_server_error"@, "network_temporary"@, true)
    } else if status == 502 {
        rule_value("sip_bad_gateway"@, "network_temporary"@, true)
    } else if status == 503 {
        rule_value("sip_service_unavailable"@, "network_temporary"@, true)
    } else if status == 505 {
        rule_value("sip_version_unsupported"@, "capability"@, false)
    } else if status == 580 {
        rule_value("media_precondition_failed"@, "media"@, false)
    } else if status == 603 {
        rule_value("call_declined"@, "remote_state"@, false)
    } else if status == 607 {
        rule_value("call_unwanted"@, "remote_state"@, false)
    } else if status == 608 {
        rule_value("call_rejected_by_policy"@, "carrier_policy"@, false)
    } else if 300 <= status <= 399 {
        rule_value("sip_redirection"@, "routing"@, false)
    } else if 400 <= status <= 499 {
        rule_value("sip_client_failure"@, "request"@, false)
    } else if 500 <= status <= 599 {
        rule_value("sip_network_failure"@, "network_temporary"@, true)
    } else if 600 <= status <= 699 {
        rule_value("sip_global_failure"@, "remote_state"@, false)
    } else {
        rule_value("sip_failure_unknown"@, "unknown"@, false)
    }
}

fn classify_sip_status(status: u16) -> (r: FailureRule)
    ensures
        r@ == status_rule(status),
{
    if status == 400 {
        rule("sip_bad_request", "request", false)
    } else if status == 401 || status == 407 {
        rule("sip_authentication_failed", "authentication", false)
    } else if status == 402 {
        rule("sip_payment_required", "carrier_policy", false)
    } else if status == 403 {
        rule("sip_forbidden", "authorization", false)
    } else if status == 404 || status == 604 {
        rule("number_not_found", "addressing", false)
    } else if status == 405 || status == 501 {
        rule("sip_method_not_supported", "capability", false)
    } else if status == 406 {
        rule("sip_response_not_acceptable", "capability", false)
    } else if status == 408 || status == 504 {
        rule("sip_request_timeout", "network_temporary", true)
    } else if status == 410 {
        rule("number_gone", "addressing", false)
    } else if status == 413 || status == 513 {
        rule("sip_message_too_large", "request", false)
    } else if status == 414 {
        rule("sip_uri_too_long", "addressing", false)
    } else if status == 415 {
        rule("sip_media_type_unsupported", "media", false)
    } else if status == 416 {
        rule("sip_uri_scheme_unsupported", "addressing", false)
    } else if status == 420 {
        rule("sip_extension_unsupported", "capability", false)
    } else if status == 421 {
        rule("sip_extension_required", "capability", false)
    } else if status == 423 {
        rule("sip_interval_too_brief", "configuration", true)
    } else if status == 430 {
        rule("sip_flow_failed", "network_temporary", true)
    } else if status == 439 {
        rule("sip_outbound_not_supported", "capability", false)
    } else if status == 480 {
        rule("callee_temporarily_unavailable", "remote_state", true)
    } else if status == 481 {
        rule("sip_dialog_not_found", "transaction", false)
    } else if status == 482 {
        rule("sip_loop_detected", "routing", false)
    } else if status == 483 {
        rule("sip_too_many_hops", "routing", false)
    } else if status == 484 {
        rule("number_incomplete", "addressing", false)
    } else if status == 485 {
        rule("number_ambiguous", "addressing", false)
    } else if status == 486 || status == 600 {
        rule("callee_busy", "remote_state", false)
    } else if status == 487 {
        rule("call_cancelled", "cancelled", false)
    } else if status == 488 || status == 606 {
        rule("media_not_acceptable", "media", false)
    } else if status == 491 {
        rule("sip_request_pending", "transaction", true)
    } else if status == 493 {
        rule("sip_body_undecipherable", "security", false)
    } else if status == 494 {
        rule("sip_security_agreement_required", "security", false)
    } else if status == 500 {
        rule("sip_server_error", "network_temporary", true)
    } else if status == 502 {
        rule("sip_bad_gateway", "network_temporary", true)
    } else if status == 503 {
        rule("sip_service_unavailable", "network_temporary", true)
    } else if status == 505 {
        rule("sip_version_unsupported", "capability", false)
    } else if status == 580 {
        rule("media_precondition_failed", "media", false)
    } else if status == 603 {
        rule("call_declined", "remote_state", false)
    } else if status == 607 {
        rule("call_unwanted", "remote_state", false)
    } else if status == 608 {
        rule("call_rejected_by_policy", "carrier_policy", false)
    } else if 300 <= status && status <= 399 {
        rule("sip_redirection", "routing", false)
    } else if 400 <= status && status <= 499 {
        rule("sip_client_failure", "request", false)
    } else if 500 <= status && status <= 599 {
        rule("sip_network_failure", "network_temporary", true)
    } else if 600 <= status && status <= 699 {
        rule("sip_global_failure", "remote_state", false)
    } else {
        rule("sip_failure_unknown", "unknown", false)
    }
}

/// What a Q.850 cause says of a failed call.
pub open spec fn cause_rule(cause: u16) -> Rule {
    if cause == 1 {
        rule_value("number_unallocated"@, "addressing"@, false)
    } else if cause == 2 {
        rule_value("no_route_to_network"@, "routing"@, false)
    } else if cause == 3 {
        rule_value("no_route_to_destination"@, "routing"@, false)
    } else if cause == 6 {
        rule_value("channel_unacceptable"@, "network_temporary"@, true)
    } else if cause == 16 {
        rule_value("normal_call_clearing"@, "remote_state"@, false)
    } else if cause == 17 {
        rule_value("callee_busy"@, "remote_state"@, false)
    } else if cause == 18 {
        rule_value("callee_not_responding"@, "remote_state"@, true)
    } else if cause == 19 {
        rule_value("callee_no_answer"@, "remote_state"@, true)
    } else if cause == 21 {
        rule_value("call_rejected"@, "remote_state"@, false)
    } else if cause == 22 {
        rule_value("number_changed"@, "addressing"@, false)
    } else if cause == 27 {
        rule_value("destination_out_of_order"@, "network_temporary"@, true)
    } else if cause == 28 {
        rule_value("invalid_number_format"@, "addressing"@, false)
    } else if cause == 29 {
        rule_value("facility_rejected"@, "carrier_policy"@, false)
    } else if cause == 31 {
        rule_value("normal_unspecified"@, "unknown"@, false)
    } else if cause == 34 {
        rule_value("no_circuit_available"@, "network_temporary"@, true)
    } else if cause == 38 {
        rule_value("network_out_of_order"@, "network_temporary"@, true)
    } else if cause == 41 {
        rule_value("temporary_failure"@, "network_temporary"@, true)
    } else if cause == 42 {
        rule_value("switching_congestion"@, "network_temporary"@, true)
    } else if cause == 47 {
        rule_value("network_resource_unavailable"@, "network_temporary"@, true)
    } else if cause == 55 {
        rule_value("incoming_calls_barred"@, "carrier_policy"@, false)
    } else if cause == 57 {
        rule_value("bearer_not_authorized"@, "carrier_policy"@, false)
    } else if cause == 58 {
        rule_value("bearer_not_available"@, "carrier_policy"@, false)
    } else if cause == 63 {
        rule_value("service_unavailable"@, "carrier_policy"@, false)
    } else if cause == 65 {
        rule_value("bearer_not_implemented"@, "capability"@, false)
    } else if cause == 69 {
        rule_value("facility_not_implemented"@, "capability"@, false)
    } else if cause == 79 {
        rule_value("service_not_implemented"@, "capability"@, false)
    } else if cause == 88 {
        rule_value("incompatible_destination"@, "media"@, false)
    } else if cause == 102 {
        rule_value("recovery_timer_expired"@, "network_temporary"@, true)
    } else if cause == 111 {
        rule_value("interworking_protocol_error"@, "network_temporary"@, true)
    } else if cause == 127 {
        rule_value("interworking_unspecified"@, "unknown"@, false)
    } else {
        rule_value("q850_cause_unknown"@, "unknown"@, false)
    }
}

fn classify_q850_cause(cause: u16) -> (r: FailureRule)
    ensures
        r@ == cause_rule(cause),
{
    if cause == 1 {
        rule("number_unallocated", "addressing", false)
    } else if cause == 2 {
        rule("no_route_to_network", "routing", false)
    } else if cause == 3 {
        rule("no_route_to_destination", "routing", false)
    } else if cause == 6 {
        rule("channel_unacceptable", "network_temporary", true)
    } else if cause == 16 {
        rule("normal_call_clearing", "remote_state", false)
    } else if cause == 17 {
        rule("callee_busy", "remote_state", false)
    } else if cause == 18 {
        rule("callee_not_responding", "remote_state", true)
    } else if cause == 19 {
        rule("callee_no_answer", "remote_state", true)
    } else if cause == 21 {
        rule("call_rejected", "remote_state", false)
    } else if cause == 22 {
        rule("number_changed", "addressing", false)
    } else if cause == 27 {
        rule("destination_out_of_order", "network_temporary", true)
    } else if cause == 28 {
        rule("invalid_number_format", "addressing", false)
    } else if cause == 29 {
        rule("facility_rejected", "carrier_policy", false)
    } else if cause == 31 {
        rule("normal_unspecified", "unknown", false)
    } else if cause == 34 {
        rule("no_circuit_available", "network_temporary", true)
    } else if cause == 38 {
        rule("network_out_of_order", "network_temporary", true)
    } else if cause == 41 {
        rule("temporary_failure", "network_temporary", true)
    } else if cause == 42 {
        rule("switching_congestion", "network_temporary", true)
    } else if cause == 47 {
        rule("network_resource_unavailable", "network_temporary", true)
    } else if cause == 55 {
        rule("incoming_calls_barred", "carrier_policy", false)
    } else if cause == 57 {
        rule("bearer_not_authorized", "carrier_policy", false)
    } else if cause == 58 {
        rule("bearer_not_available", "carrier_policy", false)
    } else if cause == 63 {
        rule("service_unavailable", "carrier_policy", false)
    } else if cause == 65 {
        rule("bearer_not_implemented", "capability", false)
    } else if cause == 69 {
        rule("facility_not_implemented", "capability", false)
    } else if cause == 79 {
        rule("service_not_implemented", "capability", false)
    } else if cause == 88 {
        rule("incompatible_destination", "media", false)
    } else if cause == 102 {
        rule("recovery_timer_expired", "network_temporary", true)
    } else if cause == 111 {
        rule("interworking_protocol_error", "network_temporary", true)
    } else if cause == 127 {
        rule("interworking_unspecified", "unknown", false)
    } else {
        rule("q850_cause_unknown", "unknown", false)
    }
}

/// What a carrier's text says of a failed call, where it is a known signal.
pub open spec fn warning_rule(warning: Seq<char>) -> Option<Rule> {
    let lower = text::lower_all(warning);
    if text::has_text(lower, "release call received from cap"@) {
        Some(rule_value("carrier_service_control_release"@, "carrier_policy"@, false))
    } else if text::has_text(lower, "insufficient balance"@) || text::has_text(
        lower,
        "insufficient credit"@,
    ) || text::has_text(lower, "low balance"@) {
        Some(rule_value("carrier_insufficient_credit"@, "carrier_policy"@, false))
    } else if text::has_text(lower, "outgoing call barred"@) || text::has_text(
        lower,
        "call is barred"@,
    ) {
        Some(rule_value("carrier_call_barred"@, "carrier_policy"@, false))
    } else if text::has_text(lower, "not provisioned"@) || text::has_text(
        lower,
        "not subscribed"@,
    ) || text::has_text(lower, "service not allowed"@) {
        Some(rule_value("carrier_service_not_provisioned"@, "carrier_policy"@, false))
    } else if text::has_text(lower, "precondition"@) {
        Some(rule_value("media_precondition_failed"@, "media"@, false))
    } else {
        None
    }
}

fn classify_carrier_warning(warning: &[char]) -> (r: Option<FailureRule>)
    ensures
        match r {
            Some(found) => warning_rule(warning@) == Some(found@),
            None => warning_rule(warning@) is None,
        },
{
    let lower = lowered(warning);
    let lower = lower.as_slice();
    if contains_text(lower, "release call received from cap") {
        Some(rule("carrier_service_control_release", "carrier_policy", false))
    } else if contains_text(lower, "insufficient balance") || contains_text(
        lower,
        "insufficient credit",
    ) || contains_text(lower, "low balance") {
        Some(rule("carrier_insufficient_credit", "carrier_policy", false))
    } else if contains_text(lower, "outgoing call barred") || contains_text(
        lower,
        "call is barred",
    ) {
        Some(rule("carrier_call_barred", "carrier_policy", false))
    } else if contains_text(lower, "not provisioned") || contains_text(lower, "not subscribed")
        || contains_text(lower, "service not allowed") {
        Some(rule("carrier_service_not_provisioned", "carrier_policy", false))
    } else if contains_text(lower, "precondition") {
        Some(rule("media_precondition_failed", "media", false))
    } else {
        None
    }
}

// -------------------------------------------------------------------- parsing

/// The parts that `sep` divides outside quotes, each without surrounding white
/// space; a backslash escapes within quotes.
pub open spec fn quoted_split_from(
    s: Seq<char>,
    sep: char,
    start: int,
    i: int,
    quoted: bool,
    escaped: bool,
) -> Seq<Seq<char>>
    decreases s.len() - i,
{
    if i >= s.len() {
        seq![text::trim(s.subrange(start, s.len() as int))]
    } else if escaped {
        quoted_split_from(s, sep, start, i + 1, quoted, false)
    } else if s[i] == '\\' && quoted {
        quoted_split_from(s, sep, start, i + 1, quoted, true)
    } else if s[i] == '"' {
        quoted_split_from(s, sep, start, i + 1, !quoted, false)
    } else if s[i] == sep && !quoted {
        seq![text::trim(s.subrange(start, i))] + quoted_split_from(
            s,
            sep,
            i + 1,
            i + 1,
            quoted,
            false,
        )
    } else {
        quoted_split_from(s, sep, start, i + 1, quoted, false)
    }
}

pub open spec fn quoted_split(s: Seq<char>, sep: char) -> Seq<Seq<char>> {
    quoted_split_from(s, sep, 0, 0, false, false)
}

fn split_quoted<'a>(s: &'a [char], sep: char) -> (r: Vec<&'a [char]>)
    ensures
        text::views(r@) == quoted_split(s@, sep),
{
    let mut r: Vec<&'a [char]> = Vec::new();
    let mut start: usize = 0;
    let mut i: usize = 0;
    let mut quoted: bool = false;
    let mut escaped: bool = false;
    assert(quoted_split(s@, sep) =~= text::views(r@) + quoted_split(s@, sep));
    while i < s.len()
        invariant
            start <= i <= s@.len(),
            quoted_split(s@, sep) == text::views(r@) + quoted_split_from(
                s@,
                sep,
                start as int,
                i as int,
                quoted,
                escaped,
            ),
        decreases s@.len() - i,
    {
        let c: char = s[i];
        if escaped {
            escaped = false;
        } else if c == '\\' && quoted {
            escaped = true;
        } else if c == '"' {
            quoted = !quoted;
        } else if c == sep && !quoted {
            let ghost before = r@;
            r.push(trimmed(slice_subrange(s, start, i)));
            assert(text::views(before) + quoted_split_from(
                s@,
                sep,
                start as int,
                i as int,
                quoted,
                escaped,
            ) =~= text::views(r@) + quoted_split_from(s@, sep, i + 1, i + 1, quoted, false));
            start = i + 1;
        }
        i += 1;
    }
    let ghost before = r@;
    r.push(trimmed(slice_subrange(s, start, s.len())));
    assert(text::views(before) + quoted_split_from(
        s@,
        sep,
        start as int,
        i as int,
        quoted,
        escaped,
    ) =~= text::views(r@));
    r
}

/// The first readable cause among parameters from `i` on.
pub open spec fn cause_from(parameters: Seq<Seq<char>>, i: int) -> Option<nat>
    decreases parameters.len() - i,
{
    if i >= parameters.len() {
        None
    } else {
        match sip_frame::named_value(parameters[i], "cause"@) {
            Some(value) => match text::unsigned(value, u16::MAX as nat) {
                Some(n) => Some(n),
                None => cause_from(parameters, i + 1),
            },
            None => cause_from(parameters, i + 1),
        }
    }
}

/// The cause of a Q.850 reason.
pub open spec fn reason_cause(reason: Seq<char>) -> Option<nat> {
    let parameters = text::split(reason, ';');
    if text::alike(text::trim(parameters[0]), "Q.850"@) {
        cause_from(parameters, 1)
    } else {
        None
    }
}

fn read_reason_cause(reason: &[char]) -> (r: Option<u16>)
    ensures
        match r {
            Some(n) => reason_cause(reason@) == Some(n as nat),
            None => reason_cause(reason@) is None,
        },
{
    let parameters = parts(reason, ';');
    let ghost all = text::split(reason@, ';');
    assert(parameters@.len() == text::views(parameters@).len());
    assert(text::views(parameters@)[0] == parameters@[0]@);
    if !is_alike_text(trimmed(parameters[0]), "Q.850") {
        return None;
    }
    let mut i: usize = 1;
    while i < parameters.len()
        invariant
            1 <= i,
            i <= parameters@.len(),
            all == text::split(reason@, ';'),
            text::views(parameters@) == all,
            text::alike(text::trim(all[0]), "Q.850"@),
            cause_from(all, 1) == cause_from(all, i as int),
        decreases parameters@.len() - i,
    {
        assert(all[i as int] == parameters@[i as int]@);
        if let Some(value) = value_named(parameters[i], "cause") {
            if let Some(n) = parse_u16(value) {
                return Some(n);
            }
        }
        i += 1;
    }
    None
}

/// The first Q.850 cause among reasons from `i` on.
pub open spec fn causes_from(reasons: Seq<Seq<char>>, i: int) -> Option<nat>
    decreases reasons.len() - i,
{
    if i >= reasons.len() {
        None
    } else {
        match reason_cause(reasons[i]) {
            Some(n) => Some(n),
            None => causes_from(reasons, i + 1),
        }
    }
}

/// The first Q.850 cause among header values from `i` on.
pub open spec fn q850_from(values: Seq<Seq<char>>, i: int) -> Option<nat>
    decreases values.len() - i,
{
    if i >= values.len() {
        None
    } else {
        match causes_from(quoted_split(values[i], ','), 0) {
            Some(n) => Some(n),
            None => q850_from(values, i + 1),
        }
    }
}

fn read_causes(reasons: &Vec<&[char]>) -> (r: Option<u16>)
    ensures
        match r {
            Some(n) => causes_from(text::views(reasons@), 0) == Some(n as nat),
            None => causes_from(text::views(reasons@), 0) is None,
        },
{
    let ghost all = text::views(reasons@);
    let mut i: usize = 0;
    while i < reasons.len()
        invariant
            i <= reasons@.len(),
            all == text::views(reasons@),
            causes_from(all, 0) == causes_from(all, i as int),
        decreases reasons@.len() - i,
    {
        assert(all[i as int] == reasons@[i as int]@);
        if let Some(n) = read_reason_cause(reasons[i]) {
            return Some(n);
        }
        i += 1;
    }
    None
}

/// The first Q.850 cause of some Reason values.
pub fn q850_cause_of(values: &Vec<String>) -> (r: Option<u16>)
    ensures
        match r {
            Some(n) => q850_from(text::texts(values@), 0) == Some(n as nat),
            None => q850_from(text::texts(values@), 0) is None,
        },
{
    let ghost all = text::texts(values@);
    let mut i: usize = 0;
    while i < values.len()
        invariant
            i <= values@.len(),
            all == text::texts(values@),
            q850_from(all, 0) == q850_from(all, i as int),
        decreases values@.len() - i,
    {
        let value = chars_of(values[i].as_str());
        assert(all[i as int] == value@);
        let reasons = split_quoted(value.as_slice(), ',');
        if let Some(n) = read_causes(&reasons) {
            return Some(n);
        }
        i += 1;
    }
    None
}

/// The characters of `s` before `n` that are no control characters.
pub open spec fn printable_upto(s: Seq<char>, n: int) -> Seq<char>
    decreases n,
{
    if n <= 0 {
        Seq::empty()
    } else if text::control(s[n - 1]) {
        printable_upto(s, n - 1)
    } else {
        printable_upto(s, n - 1).push(s[n - 1])
    }
}

/// A carrier's text without control characters, of bounded length; none where
/// nothing is left.
pub open spec fn sanitized(s: Seq<char>) -> Option<Seq<char>> {
    let t = text::trim(s);
    let all = printable_upto(t, t.len() as int);
    let kept = if all.len() > MAX_CARRIER_REASON_CHARS {
        all.take(MAX_CARRIER_REASON_CHARS as int)
    } else {
        all
    };
    if kept.len() == 0 {
        None
    } else {
        Some(kept)
    }
}

fn sanitize_carrier_reason(value: &[char]) -> (r: Option<Vec<char>>)
    ensures
        match r {
            Some(v) => sanitized(value@) == Some(v@),
            None => sanitized(value@) is None,
        },
{
    let t = trimmed(value);
    let mut out: Vec<char> = Vec::new();
    let mut i: usize = 0;
    while i < t.len()
        invariant
            i <= t@.len(),
            t@ == text::trim(value@),
            out@ == printable_upto(t@, i as int),
        decreases t@.len() - i,
    {
        if !is_control(t[i]) {
            out.push(t[i]);
        }
        i += 1;
    }
    if out.len() == 0 {
        return None;
    }
    if out.len() > MAX_CARRIER_REASON_CHARS {
        out.truncate(MAX_CARRIER_REASON_CHARS);
        assert(out@ =~= printable_upto(t@, t@.len() as int).take(
            MAX_CARRIER_REASON_CHARS as int,
        ));
    }
    Some(out)
}

/// The first text parameter among parameters from `i` on.
pub open spec fn text_from(parameters: Seq<Seq<char>>, i: int) -> Option<Seq<char>>
    decreases parameters.len() - i,
{
    if i >= parameters.len() {
        None
    } else {
        match sip_frame::named_value(parameters[i], "text"@) {
            Some(value) => Some(value),
            None => text_from(parameters, i + 1),
        }
    }
}

pub open spec fn reason_texts_from(reasons: Seq<Seq<char>>, i: int) -> Option<Seq<char>>
    decreases reasons.len() - i,
{
    if i >= reasons.len() {
        None
    } else {
        match text_from(text::split(reasons[i], ';'), 1) {
            Some(value) => Some(value),
            None => reason_texts_from(reasons, i + 1),
        }
    }
}

/// The first text parameter among Reason values from `i` on.
pub open spec fn reason_text_from(values: Seq<Seq<char>>, i: int) -> Option<Seq<char>>
    decreases values.len() - i,
{
    if i >= values.len() {
        None
    } else {
        match reason_texts_from(quoted_split(values[i], ','), 0) {
            Some(value) => Some(value),
            None => reason_text_from(values, i + 1),
        }
    }
}

/// What the Reason values say in words.
pub open spec fn reason_words(values: Seq<Seq<char>>) -> Option<Seq<char>> {
    match reason_text_from(values, 0) {
        Some(value) => sanitized(value),
        None => None,
    }
}

fn read_text<'a>(reason: &'a [char]) -> (r: Option<&'a [char]>)
    ensures
        text::opt_slice(r) == text_from(text::split(reason@, ';'), 1),
{
    let parameters = parts(reason, ';');
    let ghost all = text::split(reason@, ';');
    assert(parameters@.len() == text::views(parameters@).len());
    let mut i: usize = 1;
    while i < parameters.len()
        invariant
            1 <= i,
            i <= parameters@.len() || (i == 1 && parameters@.len() == 0),
            all == text::split(reason@, ';'),
            text::views(parameters@) == all,
            text_from(all, 1) == text_from(all, i as int),
        decreases parameters@.len() - i,
    {
        assert(all[i as int] == parameters@[i as int]@);
        if let Some(value) = value_named(parameters[i], "text") {
            return Some(value);
        }
        i += 1;
    }
    None
}

/// What some Reason values say in words.
pub fn reason_text_of(values: &Vec<String>) -> (r: Option<String>)
    ensures
        text::opt_text(r) == reason_words(text::texts(values@)),
{
    let ghost all = text::texts(values@);
    let mut i: usize = 0;
    while i < values.len()
        invariant
            i <= values@.len(),
            all == text::texts(values@),
            reason_text_from(all, 0) == reason_text_from(all, i as int),
        decreases values@.len() - i,
    {
        let value = chars_of(values[i].as_str());
        assert(all[i as int] == value@);
        let reasons = split_quoted(value.as_slice(), ',');
        let ghost list = quoted_split(value@, ',');
        let mut j: usize = 0;
        while j < reasons.len()
            invariant
                i < values@.len(),
                j <= reasons@.len(),
                all == text::texts(values@),
                all[i as int] == value@,
                list == quoted_split(value@, ','),
                text::views(reasons@) == list,
                reason_text_from(all, 0) == reason_text_from(all, i as int),
                reason_texts_from(list, 0) == reason_texts_from(list, j as int),
            decreases reasons@.len() - j,
        {
            assert(list[j as int] == reasons@[j as int]@);
            if let Some(found) = read_text(reasons[j]) {
                return match sanitize_carrier_reason(found) {
                    Some(out) => Some(string_of(out.as_slice())),
                    None => None,
                };
            }
            j += 1;
        }
        i += 1;
    }
    None
}

/// The last index before `n` that holds `c`, or -1.
pub open spec fn last_before(s: Seq<char>, c: char, n: int) -> int
    decreases n,
{
    if n <= 0 {
        -1
    } else if s[n - 1] == c {
        n - 1
    } else {
        last_before(s, c, n - 1)
    }
}

/// The quoted text of a Warning value.
pub open spec fn warning_text(value: Seq<char>) -> Option<Seq<char>> {
    let start = text::find_from(value, '"', 0);
    let end = last_before(value, '"', value.len() as int);
    if start < value.len() && end > start {
        sanitized(value.subrange(start + 1, end))
    } else {
        None
    }
}

/// The first usable text among Warning values from `i` on.
pub open spec fn warning_from(values: Seq<Seq<char>>, i: int) -> Option<Seq<char>>
    decreases values.len() - i,
{
    if i >= values.len() {
        None
    } else {
        match warning_text(values[i]) {
            Some(found) => Some(found),
            None => warning_from(values, i + 1),
        }
    }
}

fn read_warning(value: &[char]) -> (r: Option<Vec<char>>)
    ensures
        match r {
            Some(v) => warning_text(value@) == Some(v@),
            None => warning_text(value@) is None,
        },
{
    let start: usize = find(value, '"', 0);
    if start == value.len() {
        return None;
    }
    let mut n: usize = value.len();
    while n > start + 1 && value[n - 1] != '"'
        invariant
            start < n <= value@.len(),
            value@[start as int] == '"',
            last_before(value@, '"', value@.len() as int) == last_before(value@, '"', n as int),
        decreases n,
    {
        n -= 1;
    }
    if n == start + 1 {
        assert(last_before(value@, '"', n as int) == start);
        return None;
    }
    sanitize_carrier_reason(slice_subrange(value, start + 1, n - 1))
}

/// The first usable text of some Warning values.
pub fn warning_text_of(values: &Vec<String>) -> (r: Option<String>)
    ensures
        text::opt_text(r) == warning_from(text::texts(values@), 0),
{
    let ghost all = text::texts(values@);
    let mut i: usize = 0;
    while i < values.len()
        invariant
            i <= values@.len(),
            all == text::texts(values@),
            warning_from(all, 0) == warning_from(all, i as int),
        decreases values@.len() - i,
    {
        let value = chars_of(values[i].as_str());
        assert(all[i as int] == value@);
        if let Some(found) = read_warning(value.as_slice()) {
            return Some(string_of(found.as_slice()));
        }
        i += 1;
    }
    None
}

/// The first index at or after `i` that holds a digit, or the length.
pub open spec fn digit_from(s: Seq<char>, i: int) -> int
    decreases s.len() - i,
{
    if i < s.len() && !text::digit(s[i]) {
        digit_from(s, i + 1)
    } else {
        i
    }
}

/// The end of the run of digits at `i`.
pub open spec fn digits_end(s: Seq<char>, i: int) -> int
    decreases s.len() - i,
{
    if i < s.len() && text::digit(s[i]) {
        digits_end(s, i + 1)
    } else {
        i
    }
}

/// The first run of digits of a Retry-After value.
pub open spec fn retry_seconds(value: Seq<char>) -> Option<nat> {
    let start = digit_from(value, 0);
    text::unsigned(value.subrange(start, digits_end(value, start)), u32::MAX as nat)
}

/// The first run of digits of a Retry-After value.
pub fn retry_after_of(value: &str) -> (r: Option<u32>)
    ensures
        match r {
            Some(n) => retry_seconds(value@) == Some(n as nat),
            None => retry_seconds(value@) is None,
        },
{
    let all = chars_of(value);
    let s = all.as_slice();
    let mut start: usize = 0;
    while start < s.len() && !is_digit(s[start])
        invariant
            start <= s@.len(),
            digit_from(s@, 0) == digit_from(s@, start as int),
        decreases s@.len() - start,
    {
        start += 1;
    }
    let mut end: usize = start;
    while end < s.len() && is_digit(s[end])
        invariant
            start <= end <= s@.len(),
            digits_end(s@, start as int) == digits_end(s@, end as int),
        decreases s@.len() - end,
    {
        end += 1;
    }
    parse_u32(slice_subrange(s, start, end))
}

// ----------------------------------------------------------------- diagnostics

/// A diagnostic as a value.
pub struct Diagnostic {
    pub rule: Rule,
    pub sip_status: u16,
    pub q850_cause: Option<u16>,
    pub retry_after_seconds: Option<u32>,
    pub carrier_reason: Option<Seq<char>>,
}

impl View for ImsFailureDiagnostic {
    type V = Diagnostic;

    open spec fn view(&self) -> Diagnostic {
        Diagnostic {
            rule: rule_value(self.code@, self.category@, self.retryable),
            sip_status: self.sip_status,
            q850_cause: self.q850_cause,
            retry_after_seconds: self.retry_after_seconds,
            carrier_reason: text::opt_text(self.carrier_reason),
        }
    }
}

pub open spec fn opt_u16(o: Option<nat>) -> Option<u16> {
    match o {
        Some(n) => Some(n as u16),
        None => None,
    }
}

pub open spec fn opt_u32(o: Option<nat>) -> Option<u32> {
    match o {
        Some(n) => Some(n as u32),
        None => None,
    }
}

/// The classification that counts: a known carrier signal, then a Q.850 cause,
/// then the SIP status.
pub open spec fn chosen_rule(
    status: u16,
    cause: Option<u16>,
    warning: Option<Seq<char>>,
) -> Rule {
    match warning {
        Some(w) => match warning_rule(w) {
            Some(found) => found,
            None => fallback_rule(status, cause),
        },
        None => fallback_rule(status, cause),
    }
}

pub open spec fn fallback_rule(status: u16, cause: Option<u16>) -> Rule {
    match cause {
        Some(c) => cause_rule(c),
        None => status_rule(status),
    }
}

/// What a failure response's status and headers say.
pub open spec fn diagnosis(
    status: u16,
    reasons: Seq<Seq<char>>,
    warnings: Seq<Seq<char>>,
    retry_after: Option<Seq<char>>,
) -> Diagnostic {
    let cause = opt_u16(q850_from(reasons, 0));
    let warning = warning_from(warnings, 0);
    Diagnostic {
        rule: chosen_rule(status, cause, warning),
        sip_status: status,
        q850_cause: cause,
        retry_after_seconds: match retry_after {
            Some(value) => opt_u32(retry_seconds(value)),
            None => None,
        },
        carrier_reason: match warning {
            Some(w) => Some(w),
            None => reason_words(reasons),
        },
    }
}

/// What a failure response says.
pub open spec fn diagnosed(frame: Seq<u8>) -> Diagnostic {
    diagnosis(
        sip_frame::status_of(frame)->0 as u16,
        sip_frame::header_values_of(frame, "Reason"@),
        sip_frame::header_values_of(frame, "Warning"@),
        sip_frame::header_of(frame, "Retry-After"@),
    )
}

impl ImsFailureDiagnostic {
    pub fn from_status(sip_status: u16) -> (r: Self)
        ensures
            r@ == (Diagnostic {
                rule: status_rule(sip_status),
                sip_status,
                q850_cause: None,
                retry_after_seconds: None,
                carrier_reason: None,
            }),
    {
        let found = classify_sip_status(sip_status);
        ImsFailureDiagnostic {
            code: found.code,
            category: found.category,
            sip_status,
            q850_cause: None,
            retryable: found.retryable,
            retry_after_seconds: None,
            carrier_reason: None,
        }
    }

    /// The diagnostic of a status and of the headers that came with it.
    pub fn from_headers(
        sip_status: u16,
        reasons: &Vec<String>,
        warnings: &Vec<String>,
        retry_after: Option<String>,
    ) -> (r: Self)
        ensures
            r@ == diagnosis(
                sip_status,
                text::texts(reasons@),
                text::texts(warnings@),
                text::opt_text(retry_after),
            ),
    {
        let cause = q850_cause_of(reasons);
        let warning = warning_text_of(warnings);
        let fallback = match cause {
            Some(c) => classify_q850_cause(c),
            None => classify_sip_status(sip_status),
        };
        let found = match &warning {
            Some(w) => {
                let w_chars = chars_of(w.as_str());
                match classify_carrier_warning(w_chars.as_slice()) {
                    Some(found) => found,
                    None => fallback,
                }
            },
            None => fallback,
        };
        let retry_after_seconds = match retry_after {
            Some(value) => retry_after_of(value.as_str()),
            None => None,
        };
        let carrier_reason = match warning {
            Some(w) => Some(w),
            None => reason_text_of(reasons),
        };
        ImsFailureDiagnostic {
            code: found.code,
            category: found.category,
            sip_status,
            q850_cause: cause,
            retryable: found.retryable,
            retry_after_seconds,
            carrier_reason,
        }
    }

    pub fn from_response(frame: &[u8]) -> (r: Result<Self, ImsError>)
        ensures
            match r {
                Ok(diagnostic) => sip_frame::status_of(frame@) is Some && diagnostic@
                    == diagnosed(frame@),
                Err(e) => sip_frame::status_of(frame@) is None && e.code_spec()
                    == "ims_sip_status_invalid"@,
            },
    {
        match parse_status(frame) {
            Err(e) => Err(e),
            Ok(sip_status) => {
                let reasons = header_values(frame, "Reason");
                let warnings = header_values(frame, "Warning");
                let retry_after = header_value(frame, "Retry-After");
                Ok(Self::from_headers(sip_status, &reasons, &warnings, retry_after))
            },
        }
    }

    /// A bounded diagnostic header for the local leg; raw carrier topology is
    /// not forwarded.
    pub fn local_warning_header(&self) -> (r: String)
        ensures
            r@ == "399 simadmin \""@ + self.code@ + seq!['"'],
    {
        let mut out: Vec<char> = chars_of("399 simadmin \"");
        push_str(&mut out, self.code);
        out.push('"');
        assert(out@ =~= "399 simadmin \""@ + self.code@ + seq!['"']);
        string_of(out.as_slice())
    }

    pub fn local_reason_header(&self) -> (r: String)
        ensures
            r@ == match self.q850_cause {
                Some(cause) => "Q.850;cause="@ + text::decimal(cause as nat),
                None => "SIP;cause="@ + text::decimal(self.sip_status as nat),
            } + ";text=\""@ + self.code@ + seq!['"'],
    {
        let mut out: Vec<char> = match self.q850_cause {
            Some(_) => chars_of("Q.850;cause="),
            None => chars_of("SIP;cause="),
        };
        match self.q850_cause {
            Some(cause) => push_decimal(&mut out, cause as u64),
            None => push_decimal(&mut out, self.sip_status as u64),
        }
        let ghost head = out@;
        push_str(&mut out, ";text=\"");
        push_str(&mut out, self.code);
        out.push('"');
        assert(out@ =~= head + ";text=\""@ + self.code@ + seq!['"']);
        string_of(out.as_slice())
    }
}

// ----------------------------------------------------------------------- laws

proof fn lemma_printable(s: Seq<char>, n: int)
    requires
        0 <= n <= s.len(),
    ensures
        forall|i: int|
            0 <= i < printable_upto(s, n).len() ==> !text::control(
                #[trigger] printable_upto(s, n)[i],
            ),
    decreases n,
{
    if n > 0 {
        lemma_printable(s, n - 1);
        let all = printable_upto(s, n);
        let known = printable_upto(s, n - 1);
        assert forall|i: int| 0 <= i < all.len() implies !text::control(#[trigger] all[i]) by {
            if i < known.len() {
                assert(all[i] == known[i]);
            }
        }
    }
}

/// A carrier's text is bounded and holds no control character, whatever the
/// network sent.
pub proof fn law_carrier_reason_is_bounded(s: Seq<char>)
    ensures
        sanitized(s) matches Some(t) ==> 0 < t.len() <= MAX_CARRIER_REASON_CHARS && forall|i: int|
            0 <= i < t.len() ==> !text::control(#[trigger] t[i]),
{
    let t = text::trim(s);
    lemma_printable(t, t.len() as int);
}

/// Without a known carrier signal a Q.850 cause decides, and without a cause the
/// status does.
pub proof fn law_precedence(
    status: u16,
    reasons: Seq<Seq<char>>,
    warnings: Seq<Seq<char>>,
    retry_after: Option<Seq<char>>,
)
    ensures
        ({
            let d = diagnosis(status, reasons, warnings, retry_after);
            let signal = warning_from(warnings, 0) is Some && warning_rule(
                warning_from(warnings, 0)->0,
            ) is Some;
            &&& signal ==> d.rule == warning_rule(warning_from(warnings, 0)->0)->0
            &&& !signal && d.q850_cause is Some ==> d.rule == cause_rule(d.q850_cause->0)
            &&& !signal && d.q850_cause is None ==> d.rule == status_rule(status)
        }),
{
}

/// A Warning whose text is no known signal changes nothing but the text that is
/// kept: the failure is judged as if there were none.
pub proof fn law_unknown_warning_is_only_kept(
    status: u16,
    reasons: Seq<Seq<char>>,
    warnings: Seq<Seq<char>>,
    retry_after: Option<Seq<char>>,
)
    requires
        warning_from(warnings, 0) matches Some(found) ==> warning_rule(found) is None,
    ensures
        diagnosis(status, reasons, warnings, retry_after) == (Diagnostic {
            carrier_reason: match warning_from(warnings, 0) {
                Some(found) => Some(found),
                None => reason_words(reasons),
            },
            ..diagnosis(status, reasons, seq![], retry_after)
        }),
{
    assert(warning_from(Seq::<Seq<char>>::empty(), 0) is None);
}

/// A line more in a header section: no other name than its own sees it.
proof fn lemma_line_more(lines: Seq<Seq<char>>, line: Seq<char>, k: int, name: Seq<char>, n: int)
    requires
        1 <= k <= n <= lines.len(),
        sip_frame::line_value(line, name) is None,
    ensures
        sip_frame::values_upto(lines.insert(k, line), name, n + 1) == sip_frame::values_upto(
            lines,
            name,
            n,
        ),
    decreases n,
{
    let more = lines.insert(k, line);
    if n > k {
        lemma_line_more(lines, line, k, name, n - 1);
        assert(more[n] == lines[n - 1]);
    } else {
        lemma_lines_before(lines, line, k, name, k);
        assert(more[k] == line);
    }
}

proof fn lemma_lines_before(
    lines: Seq<Seq<char>>,
    line: Seq<char>,
    k: int,
    name: Seq<char>,
    n: int,
)
    requires
        1 <= k <= lines.len(),
        n <= k,
    ensures
        sip_frame::values_upto(lines.insert(k, line), name, n) == sip_frame::values_upto(
            lines,
            name,
            n,
        ),
    decreases n,
{
    if n > 1 {
        lemma_lines_before(lines, line, k, name, n - 1);
        assert(lines.insert(k, line)[n - 1] == lines[n - 1]);
    }
}

/// A header section without a name gets it by one line of that name.
proof fn lemma_first_value(lines: Seq<Seq<char>>, line: Seq<char>, k: int, name: Seq<char>, n: int)
    requires
        1 <= k <= n <= lines.len(),
        sip_frame::line_value(line, name) is Some,
        sip_frame::values_upto(lines, name, lines.len() as int).len() == 0,
    ensures
        sip_frame::values_upto(lines.insert(k, line), name, n + 1) == seq![
            sip_frame::line_value(line, name)->0,
        ],
    decreases n,
{
    let more = lines.insert(k, line);
    lemma_no_values(lines, name, lines.len() as int, n);
    if n > k {
        lemma_no_values(lines, name, lines.len() as int, n - 1);
        lemma_first_value(lines, line, k, name, n - 1);
        assert(more[n] == lines[n - 1]);
    } else {
        lemma_lines_before(lines, line, k, name, k);
        assert(more[k] == line);
        assert(sip_frame::values_upto(more, name, k) =~= Seq::empty());
        assert(Seq::empty().push(sip_frame::line_value(line, name)->0) =~= seq![
            sip_frame::line_value(line, name)->0,
        ]);
    }
}

proof fn lemma_no_values(lines: Seq<Seq<char>>, name: Seq<char>, n: int, i: int)
    requires
        sip_frame::values_upto(lines, name, n).len() == 0,
        i <= n,
    ensures
        sip_frame::values_upto(lines, name, i).len() == 0,
        1 < i ==> sip_frame::line_value(lines[i - 1], name) is None,
    decreases n,
{
    if i < n && n > 1 {
        lemma_no_values(lines, name, n - 1, i);
    }
}

/// What a part of a text contains, the text contains.
proof fn lemma_part_has(s: Seq<char>, a: int, b: int, p: Seq<char>)
    requires
        0 <= a <= b <= s.len(),
        !text::has_text(text::lower_all(s), p),
    ensures
        !text::has_text(text::lower_all(s.subrange(a, b)), p),
{
    let low = text::lower_all(s);
    let part = text::lower_all(s.subrange(a, b));
    text::lemma_find_text(low, p, 0);
    text::lemma_find_text(part, p, 0);
    if text::has_text(part, p) {
        let j = text::find_text_from(part, p, 0)->0;
        assert(low.subrange(a + j, a + j + p.len()) =~= part.subrange(j, j + p.len()));
        assert(text::at(low, p, a + j));
    }
}

/// A part of a text that is no known signal is none.
proof fn lemma_part_is_no_signal(s: Seq<char>, a: int, b: int)
    requires
        0 <= a <= b <= s.len(),
        warning_rule(s) is None,
    ensures
        warning_rule(s.subrange(a, b)) is None,
{
    lemma_part_has(s, a, b, "release call received from cap"@);
    lemma_part_has(s, a, b, "insufficient balance"@);
    lemma_part_has(s, a, b, "insufficient credit"@);
    lemma_part_has(s, a, b, "low balance"@);
    lemma_part_has(s, a, b, "outgoing call barred"@);
    lemma_part_has(s, a, b, "call is barred"@);
    lemma_part_has(s, a, b, "not provisioned"@);
    lemma_part_has(s, a, b, "not subscribed"@);
    lemma_part_has(s, a, b, "service not allowed"@);
    lemma_part_has(s, a, b, "precondition"@);
}

proof fn lemma_all_printable(s: Seq<char>, n: int)
    requires
        0 <= n <= s.len(),
        forall|i: int| 0 <= i < s.len() ==> !text::control(#[trigger] s[i]),
    ensures
        printable_upto(s, n) == s.take(n),
    decreases n,
{
    if n > 0 {
        lemma_all_printable(s, n - 1);
        assert(s.take(n) =~= s.take(n - 1).push(s[n - 1]));
    } else {
        assert(s.take(0) =~= Seq::empty());
    }
}

/// The start of a carrier's text that is kept.
pub open spec fn kept_text(t: Seq<char>) -> Seq<char> {
    let whole = text::trim(t);
    if whole.len() > MAX_CARRIER_REASON_CHARS {
        whole.take(MAX_CARRIER_REASON_CHARS as int)
    } else {
        whole
    }
}

/// The text of a Warning value: what stands between its quotes.
proof fn lemma_warning_text(agent: Seq<char>, t: Seq<char>)
    requires
        forall|i: int| 0 <= i < agent.len() ==> #[trigger] agent[i] != '"',
        forall|i: int| 0 <= i < t.len() ==> !text::control(#[trigger] t[i]),
        text::trim(t).len() > 0,
        warning_rule(t) is None,
    ensures
        warning_text(agent.push('"') + t.push('"')) == Some(kept_text(t)),
        warning_rule(kept_text(t)) is None,
{
    let value = agent.push('"') + t.push('"');
    let start = agent.len() as int;
    let end = value.len() - 1;
    text::lemma_find(value, '"', 0);
    assert(value[start] == '"' && value[end] == '"');
    assert forall|i: int| 0 <= i < start implies value[i] != '"' by {
        assert(value[i] == agent[i]);
    }
    assert(text::find_from(value, '"', 0) == start);
    assert(last_before(value, '"', value.len() as int) == end);
    assert(value.subrange(start + 1, end) =~= t);
    let lo = text::skip_white(t, 0);
    let hi = text::back_white(t, lo, t.len() as int);
    text::lemma_skip_white(t, 0);
    text::lemma_back_white(t, lo, t.len() as int);
    let whole = text::trim(t);
    assert(whole =~= t.subrange(lo, hi));
    assert forall|i: int| 0 <= i < whole.len() implies !text::control(#[trigger] whole[i]) by {
        assert(whole[i] == t[lo + i]);
    }
    lemma_all_printable(whole, whole.len() as int);
    assert(whole.take(whole.len() as int) =~= whole);
    let last = lo + kept_text(t).len();
    assert(kept_text(t) =~= t.subrange(lo, last));
    lemma_part_is_no_signal(t, lo, last);
}

/// A Warning header in a response that had none, with a printable text that holds no
/// known signal, changes nothing of the diagnostic but the carrier's text: that is
/// the start of the Warning's.
pub proof fn law_unknown_warning_header_changes_only_the_text(
    before: Seq<u8>,
    after: Seq<u8>,
    k: int,
    line: Seq<char>,
    agent: Seq<char>,
    t: Seq<char>,
)
    requires
        sip_frame::status_of(before) is Some,
        sip_frame::header_values_of(before, "Warning"@).len() == 0,
        1 <= k <= text::lines(sip_frame::head_text(before)).len(),
        text::lines(sip_frame::head_text(after)) == text::lines(
            sip_frame::head_text(before),
        ).insert(k, line),
        sip_frame::line_value(line, "Warning"@) == Some(agent.push('"') + t.push('"')),
        forall|i: int| 0 <= i < agent.len() ==> #[trigger] agent[i] != '"',
        forall|i: int| 0 <= i < t.len() ==> !text::control(#[trigger] t[i]),
        text::trim(t).len() > 0,
        warning_rule(t) is None,
    ensures
        sip_frame::status_of(after) == sip_frame::status_of(before),
        diagnosed(after) == (Diagnostic {
            carrier_reason: Some(kept_text(t)),
            ..diagnosed(before)
        }),
{
    let lines = text::lines(sip_frame::head_text(before));
    let more = lines.insert(k, line);
    let n = lines.len() as int;
    assert(more[0] == lines[0]);
    reveal_strlit("Warning");
    reveal_strlit("Reason");
    reveal_strlit("Retry-After");
    assert(text::lower_all("Warning"@).len() == 7);
    assert(text::lower_all("Reason"@).len() == 6);
    assert(text::lower_all("Retry-After"@).len() == 11);
    lemma_line_more(lines, line, k, "Reason"@, n);
    lemma_line_more(lines, line, k, "Retry-After"@, n);
    lemma_first_value(lines, line, k, "Warning"@, n);
    lemma_warning_text(agent, t);
    let value = agent.push('"') + t.push('"');
    let warnings = seq![value];
    assert(sip_frame::header_values_of(after, "Warning"@) == warnings);
    assert(warnings[0] == value);
    assert(warning_from(warnings, 0) == Some(kept_text(t)));
    assert(sip_frame::header_values_of(before, "Warning"@) =~= seq![]);
    law_unknown_warning_is_only_kept(
        sip_frame::status_of(after)->0 as u16,
        sip_frame::header_values_of(after, "Reason"@),
        warnings,
        sip_frame::header_of(after, "Retry-After"@),
    );
}

} // verus!
