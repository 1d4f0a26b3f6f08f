use ims_core::supplementary::{CallForwardingRule, ForwardingCondition, IdentityPresentation};
use ims_core::ut::{build_xcap_get, build_xcap_put, UtDocument, UtDocumentKind, XcapPolicy};

#[test]
fn parses_namespaced_call_waiting_and_round_trips_unknown_xml() {
    let xml = br#"<cw:communication-waiting xmlns:cw=\"urn:3gpp:ns:communication-waiting\"><cw:active>true</cw:active><vendor:extension xmlns:vendor=\"urn:vendor\">x</vendor:extension></cw:communication-waiting>"#;
    let document = UtDocument::parse(UtDocumentKind::CommunicationWaiting, xml).unwrap();
    assert_eq!(document.call_waiting, Some(true));
    assert_eq!(document.to_xml(), String::from_utf8(xml.to_vec()).unwrap());
}

#[test]
fn updating_call_waiting_preserves_unknown_extension() {
    let xml = "<cw:communication-waiting xmlns:cw=\"urn:3gpp:ns:communication-waiting\"><cw:active>true</cw:active><vendor:extension xmlns:vendor=\"urn:vendor\"><vendor:value>x</vendor:value></vendor:extension></cw:communication-waiting>";
    let mut document =
        UtDocument::parse(UtDocumentKind::CommunicationWaiting, xml.as_bytes()).unwrap();
    document.set_call_waiting(false);
    let updated = document.to_xml();
    assert!(updated.contains("<cw:active>false</cw:active>"));
    assert!(updated.contains(
        "<vendor:extension xmlns:vendor=\"urn:vendor\"><vendor:value>x</vendor:value></vendor:extension>"
    ));
}

#[test]
fn parses_diversion_rules_and_rejects_local_target() {
    let xml = br#"<communication-diversion><rule id=\"busy\"><conditions><busy/></conditions><actions><forward-to><target>tel:+601112023012</target></forward-to></actions></rule></communication-diversion>"#;
    let document = UtDocument::parse(UtDocumentKind::CommunicationDiversion, xml).unwrap();
    assert_eq!(document.forwarding[0].condition, ForwardingCondition::Busy);
    assert_eq!(
        document.forwarding[0].target_uri.as_deref(),
        Some("tel:+601112023012")
    );
    assert!(UtDocument::parse(UtDocumentKind::CommunicationDiversion, br#"<communication-diversion><rule><target>tel:123</target></rule></communication-diversion>"#).is_err());
}

#[test]
fn xcap_put_requires_etag_and_uses_https_policy() {
    let policy = XcapPolicy {
        root: "https://xcap.example.test".into(),
        document_selector: "simadmin/users".into(),
        namespace: "urn:3gpp:ns:communication-waiting".into(),
        partial_update: true,
    };
    assert!(build_xcap_get(&policy, UtDocumentKind::CommunicationWaiting).is_ok());
    assert_eq!(
        build_xcap_put(
            &policy,
            &UtDocument::empty(UtDocumentKind::CommunicationWaiting)
        )
        .unwrap_err()
        .code(),
        "ut_if_match_required"
    );
}

const WAITING: UtDocumentKind = UtDocumentKind::CommunicationWaiting;
const DIVERSION: UtDocumentKind = UtDocumentKind::CommunicationDiversion;

fn refused(kind: UtDocumentKind, xml: &[u8]) -> &'static str {
    UtDocument::parse(kind, xml).unwrap_err().code()
}

#[test]
fn documents_that_cannot_be_read_are_refused() {
    assert_eq!(refused(WAITING, b"\xff"), "ut_xml_not_utf8");
    assert_eq!(refused(WAITING, b"<a></b>"), "ut_xml_invalid");
    assert_eq!(refused(WAITING, b"<a>"), "ut_xml_unbalanced");
    assert_eq!(refused(WAITING, b"<a>&nothing;</a>"), "ut_xml_text_invalid");
    assert_eq!(refused(WAITING, b"<active>perhaps</active>"), "ut_boolean_invalid");
    assert_eq!(
        refused(DIVERSION, b"<rule><no-reply-timer>soon</no-reply-timer></rule>"),
        "ut_timer_invalid"
    );
    assert_eq!(
        refused(DIVERSION, b"<rule><target>mailto:x</target></rule>"),
        "ut_forward_target_invalid"
    );
}

#[test]
fn references_in_text_are_resolved() {
    let xml = b"<rule><target>sip:a&amp;b@example</target></rule>";
    let document = UtDocument::parse(DIVERSION, xml).unwrap();
    assert_eq!(
        document.forwarding[0].target_uri.as_deref(),
        Some("sip:a&b@example")
    );
}

#[test]
fn attributes_of_empty_tags_count() {
    let xml = b"<cw:waiting xmlns:cw=\"urn:x\"><cw:Active value=\"NO\"/></cw:waiting>";
    let document = UtDocument::parse(WAITING, xml).unwrap();
    assert_eq!(document.call_waiting, Some(false));
}

#[test]
fn written_rules_read_back() {
    let mut document = UtDocument::empty(DIVERSION);
    document.forwarding.push(CallForwardingRule {
        condition: ForwardingCondition::Unconditional,
        enabled: true,
        target_uri: Some("sip:<odd>&\"@example".to_string()),
        no_reply_timer_seconds: Some(20),
        etag: None,
    });
    let xml = document.to_xml();
    let read = UtDocument::parse(DIVERSION, xml.as_bytes()).unwrap();
    assert_eq!(read.forwarding.len(), 1);
    assert_eq!(
        read.forwarding[0].target_uri.as_deref(),
        Some("sip:<odd>&\"@example")
    );
    assert_eq!(read.forwarding[0].no_reply_timer_seconds, Some(20));
    assert!(read.semantically_matches(&document));
}

fn policy(root: &str) -> XcapPolicy {
    XcapPolicy {
        root: root.to_string(),
        document_selector: "/simadmin/users/".to_string(),
        namespace: "urn:x".to_string(),
        partial_update: false,
    }
}

#[test]
fn policies_need_an_https_root_and_all_their_parts() {
    let code = |p: XcapPolicy| p.validate().unwrap_err().code();
    assert_eq!(code(policy("xcap.example.test")), "ut_xcap_root_invalid");
    assert_eq!(
        code(policy("http://xcap.example.test")),
        "ut_xcap_root_must_be_https"
    );
    let mut incomplete = policy("https://xcap.example.test");
    incomplete.namespace = " ".to_string();
    assert_eq!(code(incomplete), "ut_xcap_policy_incomplete");
    assert_eq!(
        policy("https://xcap.example.test//").document_url(WAITING).unwrap(),
        format!(
            "https://xcap.example.test/simadmin/users/{}",
            WAITING.document_name()
        )
    );
}

#[test]
fn a_conditional_update_carries_the_etag() {
    let mut document = UtDocument::empty(WAITING);
    document.set_call_waiting(true);
    document.etag = Some("v1".to_string());
    let put = build_xcap_put(&policy("https://xcap.example.test"), &document).unwrap();
    assert_eq!(put.method, "PUT");
    assert_eq!(put.if_match.as_deref(), Some("v1"));
    assert!(put.body.unwrap().contains("true"));
    let get = build_xcap_get(&policy("https://xcap.example.test"), WAITING).unwrap();
    assert_eq!(get.method, "GET");
    assert_eq!(get.body, None);
}

#[test]
fn a_changed_presentation_is_written() {
    let mut document = UtDocument::empty(UtDocumentKind::OriginatingIdentityRestriction);
    document.set_identity_presentation(IdentityPresentation::Restricted);
    let xml = document.to_xml();
    assert!(xml.contains("<active>false</active>"));
    let read = UtDocument::parse(UtDocumentKind::OriginatingIdentityRestriction, xml.as_bytes());
    assert_eq!(
        read.unwrap().identity_presentation,
        Some(IdentityPresentation::Restricted)
    );
}
