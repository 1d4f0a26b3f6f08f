use ims_core::access::line_registry::{LineRuntime, LineRuntimeRegistry, ModemBinding};
use ims_core::api::native_controls::{applied_status, target, LineUse, Refusal};
use ims_core::automation::tasks::baseband_reboot::BasebandRebootHandler;
use ims_core::vowifi::profile_store::{
    ambiguous_prefixes, catalog_source, migrate_legacy_profile, without_comment_lines,
    CarrierProfileRecord, CatalogAccessKind, CatalogFacts, CheckedProfile, ExternalVowifiProfile, LocalRow, MatchedProfile, ProfileOrigin, ProfileStore,
    ResolvedProfile, StoredProfile,
};

fn text(value: &str) -> String {
    value.to_string()
}

fn listed(profile_id: &str, plmn: &str, profile: u64) -> StoredProfile {
    StoredProfile {
        profile_id: text(profile_id),
        plmn: text(plmn),
        source: catalog_source("release-7"),
        updated_at: text("2026-01-01"),
        profile,
    }
}

fn checked(profile_id: &str, plmn: &str, profile: u64, error: Option<&str>) -> CheckedProfile {
    CheckedProfile { profile: listed(profile_id, plmn, profile), error: error.map(text) }
}

fn matched(prefix: &str, profile: StoredProfile) -> MatchedProfile {
    MatchedProfile { prefix: text(prefix), profile }
}

fn row(profile_id: &str, plmn: &str, profile: u64) -> LocalRow {
    LocalRow {
        profile_id: text(profile_id),
        plmn: text(plmn),
        source: text("manual"),
        updated_at: text("2026-02-01"),
        profile,
        record_id: text(profile_id),
        record_plmn: text(plmn),
        unreadable: None,
        wifi_error: None,
        ims_error: None,
    }
}

/// A store with these rows and an empty catalog.
fn over(rows: Vec<LocalRow>) -> ProfileStore {
    ProfileStore::with_catalog(rows, Ok(Vec::new()))
}

fn facts(resolved: Option<u64>) -> Option<CatalogFacts> {
    Some(CatalogFacts { pinned: Ok(None), ambiguous: Ok(false), resolved: Ok(resolved) })
}

#[test]
fn catalog_is_listed_and_unknown_carriers_are_not_derived() {
    let catalog = vec![listed("test-v7-23434", "23434", 2), listed("test-v7-23433", "23433", 1)];
    let all = ProfileStore::with_catalog(Vec::new(), Ok(catalog)).list().unwrap();
    assert_eq!(all.len(), 2);
    assert_eq!(all[0].profile_id, "test-v7-23433");
    assert_eq!(all[1].profile_id, "test-v7-23434");
    assert!(all[0].source.starts_with("carrier_catalog:"));
    let unread = ProfileStore::with_catalog(Vec::new(), Err(text("catalog_locked")));
    assert_eq!(unread.list().unwrap_err(), "catalog_locked");
    assert_eq!(ProfileOrigin::Catalog.as_str(), "carrier_catalog");
    assert_eq!(ProfileStore::resolve_by_plmn(&None, None), None);
    assert_eq!(
        over(Vec::new()).resolve_for_imsi_access(
            None,
            "460011234567890",
            None,
            CatalogAccessKind::LteEpc,
            &facts(None)
        ),
        Ok(None)
    );
    let published = ProfileStore::publish(
        &vec![checked("test-v7-23433", "23433", 1, None), checked("test-v7-23434", "23434", 2, None)],
        &vec![matched("234330", listed("test-v7-23433", "23433", 1))],
        &Vec::new(),
        Some(Ok(vec![text("23433"), text("310410")])),
    )
    .unwrap();
    assert_eq!(published.profiles.len(), 2);
    assert_eq!(published.matches[0].profile.profile_id, "test-v7-23433");
    assert_eq!(published.matches[0].prefix, "234330");
    assert_eq!(published.ambiguous, vec![text("23433"), text("310410")]);
}

#[test]
fn local_override_wins_and_delete_restores_catalog() {
    let saved = Some(row("test-v7-23433", "23433", 7));
    let resolved = ProfileStore::resolve_by_plmn(&saved, Some(1)).unwrap();
    assert_eq!(resolved.origin, ProfileOrigin::Database);
    assert_eq!(resolved.profile, 7);

    let restored = ProfileStore::resolve_by_plmn(&None, Some(1)).unwrap();
    assert_eq!(restored.origin, ProfileOrigin::Catalog);
    assert_eq!(restored.profile, 1);

    let catalog = vec![listed("test-v7-23433", "23433", 1), listed("test-v7-23434", "23434", 2)];
    let mut store = ProfileStore::with_catalog(Vec::new(), Ok(catalog));
    store.save(row("test-v7-23433", "23433", 7)).unwrap();
    let all = store.list().unwrap();
    assert_eq!(all.len(), 2);
    assert_eq!((all[0].profile, all[0].source.as_str()), (7, "manual"));
    store.save(row("test-v7-23433", "23433", 8)).unwrap();
    assert_eq!(store.list().unwrap()[0].profile, 8);
    let mut unreadable = row("other", "46000", 9);
    unreadable.unreadable = Some(text("bad_json"));
    store.rows.push(unreadable);
    assert_eq!(store.list().unwrap().len(), 2);
    assert!(store.delete("test-v7-23433"));
    assert!(!store.delete("test-v7-23433"));
    assert_eq!(store.list().unwrap()[0].profile, 1);

    let mut broken = row("test-v7-23433", "23433", 7);
    broken.wifi_error = Some(text("epdg_host_missing"));
    let mut refused = row("test-v7-23433", "23433", 7);
    refused.wifi_error = Some(text("epdg_host_missing"));
    assert_eq!(store.save(refused).unwrap_err(), "epdg_host_missing");
    assert_eq!(store.list().unwrap()[0].profile, 1);
    assert_eq!(
        ProfileStore::resolve_by_plmn(&Some(broken), Some(1)).unwrap().origin,
        ProfileOrigin::Catalog
    );
}

#[test]
fn access_specific_resolution_keeps_lte_and_wifi_apns_separate() {
    let ask = |access: CatalogAccessKind, resolved: u64, store: &ProfileStore| {
        store
            .resolve_for_imsi_access(None, "234330123456789", None, access, &facts(Some(resolved)))
            .unwrap()
            .unwrap()
    };
    let wifi = ask(CatalogAccessKind::WifiEpdg, 11, &over(Vec::new()));
    let lte = ask(CatalogAccessKind::LteEpc, 12, &over(Vec::new()));
    assert_eq!(wifi.profile, 11);
    assert_eq!(lte.profile, 12);
    assert_eq!(CatalogAccessKind::WifiEpdg.as_str(), "wifi_epdg");
    assert_eq!(CatalogAccessKind::LteEpc.as_str(), "lte_epc");

    let mut only_wifi = row("local", "23433", 20);
    only_wifi.ims_error = Some(text("not_for_lte"));
    let rows = over(vec![only_wifi]);
    assert_eq!(ask(CatalogAccessKind::WifiEpdg, 11, &rows).profile, 20);
    assert_eq!(ask(CatalogAccessKind::LteEpc, 12, &rows).profile, 12);
}

#[test]
fn pinned_non_ready_catalog_profile_returns_its_configuration_error() {
    let not_ready = "carrier_catalog_profile_not_ready:test-v7-23433:lte_epc:partial";
    let known = Some(CatalogFacts {
        pinned: Err(text(not_ready)),
        ambiguous: Ok(false),
        resolved: Ok(Some(1)),
    });
    let ask = |pinned: &str, rows: Vec<LocalRow>, known: &Option<CatalogFacts>| {
        over(rows).resolve_for_imsi_access(
            Some(pinned),
            "234330123456789",
            Some("23433"),
            CatalogAccessKind::LteEpc,
            known,
        )
    };
    assert_eq!(ask("test-v7-23433", Vec::new(), &known), Err(text(not_ready)));
    assert_eq!(
        ask("gone", Vec::new(), &facts(Some(1))),
        Err(text("carrier_catalog_profile_not_found:gone:lte_epc"))
    );
    assert_eq!(
        ask("gone", Vec::new(), &None),
        Err(text("carrier_profile_not_found:gone:lte_epc"))
    );
    let mut unread = row("local", "23433", 3);
    unread.unreadable = Some(text("bad_json"));
    assert_eq!(
        ask(" local ", vec![unread], &known),
        Err(text("local_carrier_profile_invalid:local:bad_json"))
    );
    let mut partial = row("local", "23433", 3);
    partial.ims_error = Some(text("ims_domain_missing"));
    assert_eq!(ask("local", vec![partial], &known), Err(text("ims_domain_missing")));
    assert_eq!(
        ask("local", vec![row("local", "23433", 3)], &known),
        Ok(Some(ResolvedProfile { profile: 3, origin: ProfileOrigin::Database }))
    );
}

fn record(profile_id: &str) -> CarrierProfileRecord {
    CarrierProfileRecord {
        profile_id: text(profile_id),
        mcc: text("234"),
        mnc: text("33"),
        plmn: text("23433"),
        source_refs: vec![text("catalog")],
        epdg_host: text("epdg.mnc033.mcc234.example"),
        epdg_port: 500,
        ip_stack: text("dual"),
        apn: Some(text("ims")),
        dns_servers: Vec::new(),
        dns_server: None,
        policy: 99,
    }
}

fn external() -> ExternalVowifiProfile {
    ExternalVowifiProfile {
        profile_id: text("my_test_override"),
        mcc: text("234"),
        mnc: text("33"),
        epdg_host: text("epdg.custom.test"),
        epdg_port: 4500,
        ip_stack: text("ipv4"),
        apn: Some(text("cmims")),
        dns_server: Some(text("8.8.8.8")),
    }
}

#[test]
fn legacy_override_requires_and_preserves_a_catalog_baseline() {
    let mut base = record("my_test_override");
    base.apn = Some(text("cmims"));
    let migrated = migrate_legacy_profile(base, &external());
    assert_eq!(migrated.profile_id, "my_test_override");
    assert_eq!(migrated.epdg_host, "epdg.custom.test");
    assert_eq!(migrated.epdg_port, 4500);
    assert_eq!(migrated.ip_stack, "ipv4");
    assert_eq!(migrated.apn.as_deref(), Some("cmims"));
    assert_eq!(migrated.dns_servers, vec![text("8.8.8.8")]);
    assert_eq!(migrated.source_refs, vec![text("migrated:vowifi-profiles.conf")]);
    assert_eq!(migrated.policy, 99);

    assert_eq!(
        ProfileStore::save_external(None, &external()).unwrap_err(),
        "full_carrier_profile_required"
    );
    let saved = ProfileStore::save_external(Some(record("my_test_override")), &external()).unwrap();
    assert_eq!(saved.epdg_host, "epdg.custom.test");
    assert_eq!(saved.apn.as_deref(), Some("cmims"));
    assert_eq!(saved.policy, 99);
    let shown = ProfileStore::list_as_external(&vec![saved]);
    assert_eq!(shown, vec![external()]);
}

#[test]
fn external_profiles_are_listed_in_order() {
    let mut first = record("b");
    first.mcc = text("460");
    let second = record("a");
    let shown = ProfileStore::list_as_external(&vec![first, second]);
    assert_eq!(shown.len(), 2);
    assert_eq!(shown[0].mcc, "234");
    assert_eq!(shown[1].mcc, "460");
}

#[test]
fn publishing_stops_at_a_catalog_that_is_wrong() {
    assert_eq!(
        ProfileStore::publish(
            &vec![checked("a", "23433", 1, None), checked("b", "23434", 2, Some("bad_b"))],
            &Vec::new(),
            &Vec::new(),
            Some(Ok(vec![text("23433")]))
        )
        .unwrap_err(),
        "bad_b"
    );
    let published = ProfileStore::publish(
        &vec![checked("a", "23433", 1, None), checked("b", "23434", 2, None)],
        &vec![
            matched("234330", listed("a", "23433", 1)),
            matched("234340", listed("b", "23434", 2)),
        ],
        &vec![checked("x", "23433", 7, None), checked("y", "46000", 8, Some("invalid"))],
        Some(Err(text("locked"))),
    )
    .unwrap();
    assert!(published.ambiguous.is_empty());
    assert_eq!(published.profiles.len(), 3);
    assert_eq!(published.matches.len(), 2);
    assert_eq!(published.matches[0].prefix, "23433");
    assert_eq!(published.matches[0].profile.profile, 7);
    assert_eq!(published.matches[1].prefix, "234340");
}

#[test]
fn ambiguous_prefixes_are_those_that_could_be_read() {
    assert_eq!(ambiguous_prefixes(Some(Ok(vec![text("310410")]))), vec![text("310410")]);
    assert!(ambiguous_prefixes(Some(Err(text("locked")))).is_empty());
    assert!(ambiguous_prefixes(None).is_empty());
}

#[test]
fn comment_lines_are_left_out() {
    assert_eq!(without_comment_lines("# a\n{\r\n  # b\n \t#\n\"x\": \"#1\"\n}\n"), "{\n\"x\": \"#1\"\n}");
    assert_eq!(without_comment_lines("#"), "");
    assert_eq!(without_comment_lines("\n#\n\nend"), "\n\nend");
}

#[test]
fn ambiguous_identities_are_not_guessed() {
    let ambiguous = |value: Result<bool, String>| {
        Some(CatalogFacts { pinned: Ok(None), ambiguous: value, resolved: Ok(Some(1)) })
    };
    let ask = |home: Option<&str>, known: &Option<CatalogFacts>| {
        over(Vec::new()).resolve_for_imsi_access(
            None,
            "234330123456789",
            home,
            CatalogAccessKind::LteEpc,
            known,
        )
    };
    assert_eq!(ask(None, &ambiguous(Ok(true))), Ok(None));
    assert_eq!(ask(None, &ambiguous(Err(text("locked")))), Err(text("locked")));
    assert_eq!(
        ask(Some("23433"), &ambiguous(Ok(true))),
        Ok(Some(ResolvedProfile { profile: 1, origin: ProfileOrigin::Catalog }))
    );
    assert_eq!(ask(Some("46000"), &ambiguous(Ok(true))), Ok(None));
}

#[test]
fn columns_are_listed_and_records_are_matched() {
    let mut odd = row("column", "46000", 4);
    odd.record_id = text("own");
    odd.record_plmn = text("23433");
    let store = over(vec![odd]);
    let shown = store.list().unwrap();
    assert_eq!(shown[0].profile_id, "column");
    assert_eq!(shown[0].plmn, "46000");
    let ask = |imsi: &str| {
        store.resolve_for_imsi_access(None, imsi, None, CatalogAccessKind::WifiEpdg, &None)
    };
    let found = ResolvedProfile { profile: 4, origin: ProfileOrigin::Database };
    assert_eq!(ask("234330123456789"), Ok(Some(found)));
    assert_eq!(ask("460001234567890"), Ok(None));
    let published =
        ProfileStore::publish(&Vec::new(), &Vec::new(), &store.local_records(), None).unwrap();
    assert_eq!(published.matches[0].prefix, "23433");
    assert_eq!(published.profiles[0].profile_id, "own");

    let mut store = over(Vec::new());
    let mut saved = row("column", "46000", 5);
    saved.record_id = text("own");
    saved.record_plmn = text("23433");
    store.save(saved).unwrap();
    assert_eq!(store.list().unwrap()[0].profile_id, "own");
    assert_eq!(store.list().unwrap()[0].plmn, "23433");
}

#[test]
fn local_rows_stand_before_the_catalog_by_id() {
    let local = ProfileStore::get(Some(Ok(record("local"))), Some(Ok(Some(record("catalog")))));
    assert_eq!(local.unwrap().unwrap().profile_id, "local");
    assert_eq!(
        ProfileStore::get(Some(Err(text("bad"))), Some(Ok(Some(record("c"))))).unwrap_err(),
        "bad"
    );
    assert!(ProfileStore::get(None, None).unwrap().is_none());
    assert_eq!(
        ProfileStore::get(None, Some(Ok(Some(record("c"))))).unwrap().unwrap().profile_id,
        "c"
    );
}

fn binding(line_id: &str, present: bool) -> ModemBinding {
    ModemBinding {
        line_id: text(line_id),
        modem_id: text("0"),
        modem_path: text("/org/freedesktop/ModemManager1/Modem/0"),
        manufacturer: text("test"),
        model: text("test"),
        primary_port: text("wwan0mbim0"),
        qmi_device: Some(text("/dev/wwan0qmi0")),
        uim_slot: 1,
        sim_path: Some(text("/org/freedesktop/ModemManager1/SIM/0")),
        sim_iccid: text("8986000000000000000"),
        operator_id: text("46000"),
        state: text("registered"),
        present,
        hardware_key: text("test-hardware"),
    }
}

#[test]
fn absent_transition_does_not_change_stable_identity() {
    let mut line = LineRuntime::new(binding("line-a", true), false);
    line.mark_absent();
    assert_eq!(line.binding().line_id, "line-a");
    assert!(!line.binding().present);
}

#[test]
fn refresh_keeps_lines_that_are_gone() {
    let mut registry = LineRuntimeRegistry::new();
    assert_eq!(registry.refresh(vec![binding("line-b", true), binding("line-a", true)]), 2);
    let names: Vec<&str> = registry.all().iter().map(|l| l.binding().line_id.as_str()).collect();
    assert_eq!(names, vec!["line-a", "line-b"]);
    assert_eq!(registry.all().iter().filter(|l| l.seed).count(), 1);
    assert_eq!(registry.refresh(vec![binding("line-b", true)]), 1);
    assert_eq!(registry.all().len(), 2);
    assert!(!registry.get("line-a").unwrap().binding().present);
    assert_eq!(registry.primary().unwrap().binding().line_id, "line-b");
    assert_eq!(
        registry
            .for_modem_path("/org/freedesktop/ModemManager1/Modem/0")
            .unwrap()
            .binding()
            .line_id,
        "line-b"
    );
    assert_eq!(registry.all().iter().filter(|l| l.seed).count(), 1);
    assert_eq!(registry.refresh(Vec::new()), 0);
    assert!(registry.primary().is_none());
    assert!(registry.get("line-c").is_none());
    assert_eq!(registry.present_count(), 0);
}

#[test]
fn maintenance_leaves_busy_lines_alone() {
    let idle = LineUse {
        ims_enabled: false,
        data_enabled: false,
        ims_registered: false,
        data_running: false,
    };
    let busy = LineUse { data_running: true, ..idle };
    let own = Ok(text("line-a"));
    let refused = |status: u16, message: &str| Some(Refusal { status, message: text(message) });
    assert_eq!(target("line-a", None, &own, true, idle), refused(404, "line_not_found"));
    assert_eq!(
        target("line-a", Some(false), &own, true, idle),
        refused(409, "native_line_absent")
    );
    assert_eq!(
        target("line-a", Some(true), &Err(text("no_device")), true, idle),
        refused(409, "no_device")
    );
    assert_eq!(
        target("line-a", Some(true), &Ok(text("line-b")), true, idle),
        refused(409, "native_line_identity_mismatch")
    );
    assert_eq!(
        target("line-a", Some(true), &own, true, busy),
        refused(409, "native_maintenance_disable_ims_and_data_first")
    );
    assert_eq!(target("line-a", Some(true), &own, false, busy), None);
    assert_eq!(target("line-a", Some(true), &own, true, idle), None);
    assert_eq!(applied_status(true), 202);
    assert_eq!(applied_status(false), 200);
}

#[test]
fn restart_brings_data_back_unless_it_was_off() {
    let handler = BasebandRebootHandler;
    assert_eq!(handler.task_type(), "restart_baseband");
    let options = handler.restart_options(true, true);
    assert!(!options.auto_connect_data);
    assert!(options.allow_roaming);
    assert!(handler.restart_options(false, false).auto_connect_data);
}

#[test]
fn a_new_binding_keeps_the_runtime() {
    let mut line = LineRuntime::new(binding("line-a", false), true);
    line.replace_binding(binding("line-a", true));
    assert!(line.binding().present);
    assert!(line.seed);
}
