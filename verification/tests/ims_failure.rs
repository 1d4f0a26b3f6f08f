use ims_core::ims_failure::{
    q850_cause_of, reason_text_of, retry_after_of, warning_text_of, ImsFailureDiagnostic,
};

#[test]
fn captured_cap_release_is_actionable_carrier_policy() {
    let response = b"SIP/2.0 480 Temporarily Unavailable\r\nWarning: 399 172.20.58.196:5082 \"Release Call received from CAP\"\r\nRetry-After: 30\r\nContent-Length: 0\r\n\r\n";
    let diagnostic = ImsFailureDiagnostic::from_response(response).unwrap();

    assert_eq!(diagnostic.code, "carrier_service_control_release");
    assert_eq!(diagnostic.category, "carrier_policy");
    assert!(!diagnostic.retryable);
    assert_eq!(diagnostic.retry_after_seconds, Some(30));
    assert_eq!(
        diagnostic.carrier_reason.as_deref(),
        Some("Release Call received from CAP")
    );
}

#[test]
fn q850_reason_overrides_generic_sip_status() {
    let response = b"SIP/2.0 480 Temporarily Unavailable\r\nReason: Q.850;cause=34;text=\"No circuit/channel available\"\r\n\r\n";
    let diagnostic = ImsFailureDiagnostic::from_response(response).unwrap();

    assert_eq!(diagnostic.code, "no_circuit_available");
    assert_eq!(diagnostic.q850_cause, Some(34));
    assert!(diagnostic.retryable);
}

#[test]
fn common_media_and_auth_failures_have_distinct_codes() {
    assert_eq!(
        ImsFailureDiagnostic::from_status(488).code,
        "media_not_acceptable"
    );
    assert_eq!(ImsFailureDiagnostic::from_status(403).code, "sip_forbidden");
    assert_eq!(
        ImsFailureDiagnostic::from_status(503).code,
        "sip_service_unavailable"
    );
    assert!(ImsFailureDiagnostic::from_status(503).retryable);
}

#[test]
fn quoted_reason_lists_do_not_split_on_text_commas() {
    let response = b"SIP/2.0 500 Error\r\nReason: SIP;cause=500;text=\"Try later, please\", Q.850;cause=41;text=\"Temporary failure\"\r\n\r\n";
    let diagnostic = ImsFailureDiagnostic::from_response(response).unwrap();
    assert_eq!(diagnostic.q850_cause, Some(41));
    assert_eq!(diagnostic.code, "temporary_failure");
}

#[test]
fn frames_without_a_status_have_no_diagnostic() {
    assert!(ImsFailureDiagnostic::from_response(b"INVITE sip:a SIP/2.0\r\n\r\n").is_err());
}

#[test]
fn headers_are_read_one_by_one() {
    let reasons = vec!["SIP;cause=200".to_string(), "q.850;cause=16;text=\"bye\"".to_string()];
    assert_eq!(q850_cause_of(&reasons), Some(16));
    assert_eq!(reason_text_of(&reasons).as_deref(), Some("bye"));
    assert_eq!(
        warning_text_of(&vec!["399 host \"busy\"".to_string()]).as_deref(),
        Some("busy")
    );
    assert_eq!(retry_after_of("120 (soon)"), Some(120));
    assert_eq!(retry_after_of("soon"), None);
}

#[test]
fn local_headers_carry_the_code_and_cause() {
    let response = b"SIP/2.0 486 Busy\r\nReason: Q.850;cause=17\r\n\r\n";
    let diagnostic = ImsFailureDiagnostic::from_response(response).unwrap();
    assert_eq!(
        diagnostic.local_warning_header(),
        format!("399 simadmin \"{}\"", diagnostic.code)
    );
    assert_eq!(
        diagnostic.local_reason_header(),
        "Q.850;cause=17;text=\"callee_busy\""
    );
    assert_eq!(
        ImsFailureDiagnostic::from_status(403).local_reason_header(),
        "SIP;cause=403;text=\"sip_forbidden\""
    );
}

#[test]
fn unknown_warning_changes_only_the_carrier_text() {
    let plain = b"SIP/2.0 503 Unavailable\r\nReason: Q.850;cause=34;text=\"No circuit\"\r\nRetry-After: 7\r\n\r\n";
    let long = "x".repeat(200);
    let warned = format!(
        "SIP/2.0 503 Unavailable\r\nWarning: 399 host \"  {long} \"\r\nReason: Q.850;cause=34;text=\"No circuit\"\r\nRetry-After: 7\r\n\r\n"
    );
    let before = ImsFailureDiagnostic::from_response(plain).unwrap();
    let after = ImsFailureDiagnostic::from_response(warned.as_bytes()).unwrap();
    assert_eq!(before.carrier_reason.as_deref(), Some("No circuit"));
    assert_eq!(after.carrier_reason, Some("x".repeat(160)));
    assert_eq!(
        ImsFailureDiagnostic { carrier_reason: before.carrier_reason.clone(), ..after },
        before
    );
}
