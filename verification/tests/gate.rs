use kdtv::fixtures::RawFixture;
use kdtv::units::{LinkKind, ZoneId};
use kdtv::{
    required_transmit_ids, FixtureDirection, FixtureId, FixtureSet, GateError,
    PolarityAttestation, PolarityNote, Provenance, RequestedScope, TransmitAuthority,
    TransmitGateConfig, TransmitScope,
};

fn attest_all() -> PolarityAttestation {
    PolarityAttestation {
        notes: LinkKind::all()
            .into_iter()
            .map(|link| PolarityNote {
                link,
                note: "synthetic: A+ on the terminal marked TA".to_owned(),
                attested_on: "2026-01-01".to_owned(),
            })
            .collect(),
    }
}

fn captured() -> Provenance {
    Provenance::Captured {
        file: "synthetic".to_owned(),
        offset: 0,
        phase: 1,
        scenario: 1,
        sha256: hex::encode([0u8; 32]),
    }
}

fn documented() -> Provenance {
    Provenance::Documented {
        source: "research/xagon0/docs/protocols/saturn-protocol.md".to_owned(),
        section: "§ 6".to_owned(),
    }
}

fn raw_set(provenance_of: impl Fn(&str) -> Option<Provenance>) -> Vec<RawFixture> {
    required_transmit_ids()
        .into_iter()
        .filter_map(|id| {
            provenance_of(id).map(|p| RawFixture {
                file: "synthetic.json".to_owned(),
                id: id.to_owned(),
                link: LinkKind::Zone(ZoneId::Zone1),
                direction: FixtureDirection::ToDevice,
                bytes: "aa55".to_owned(),
                provenance: p,
                decoded: "null".to_owned(),
            })
        })
        .collect()
}

/// Every allowlisted operation at tier [A].
fn all_captured() -> FixtureSet {
    FixtureSet::load(raw_set(|_| Some(captured()))).unwrap()
}

/// Every allowlisted operation at tier [C], as the evidence base stands today.
fn all_documented() -> FixtureSet {
    FixtureSet::load(raw_set(|_| Some(documented()))).unwrap()
}

fn attested_cfg(expected: &FixtureSet) -> TransmitGateConfig {
    TransmitGateConfig {
        scope: RequestedScope::RealBusAttested,
        capture_ref: Some("research/diagnostics/2026-09-01-phase1-saturn.bin".to_owned()),
        polarity: attest_all(),
        expected_fixtures_sha256: Some(expected.sha256_hex()),
    }
}

#[test]
fn the_gate_is_closed_in_the_committed_state() {
    let fx = all_documented();
    let cfg = attested_cfg(&fx);

    let err = TransmitAuthority::resolve(&cfg, &fx).unwrap_err();
    let GateError::FixturesNotCaptured { documented, missing } = err else {
        panic!("expected FixturesNotCaptured, got {err:?}");
    };
    assert_eq!(missing, Vec::<FixtureId>::new());
    assert_eq!(documented.len(), required_transmit_ids().len());
    for id in required_transmit_ids() {
        assert!(documented.iter().any(|d| d.as_str() == id), "{id} is not named in the refusal");
    }
}

#[test]
fn the_refusal_names_the_fixtures_in_the_way() {
    let fx = all_documented();
    let err = TransmitAuthority::resolve(&attested_cfg(&fx), &fx).unwrap_err();
    let GateError::FixturesNotCaptured { documented, .. } = err else {
        panic!("expected FixturesNotCaptured, got {err:?}");
    };
    let names: Vec<&str> = documented.iter().map(|d| d.as_str()).collect();
    assert!(names.contains(&"saturn.set_outlets"), "{names:?}");
    assert!(names.contains(&"steam.start"), "{names:?}");
    // Sorted by id, each once.
    let mut want = required_transmit_ids();
    want.sort();
    want.dedup();
    assert_eq!(names, want);
}

#[test]
fn emulator_only_resolves_against_the_committed_fixtures() {
    let fx = all_documented();
    let auth = TransmitAuthority::resolve(&TransmitGateConfig::emulator_only(), &fx).unwrap();
    assert_eq!(auth.scope(), &TransmitScope::EmulatorOnly);
    assert!(!auth.permits_real_bus());
    for link in LinkKind::all() {
        assert!(!auth.permits_real_bus_on(link));
    }
    assert_eq!(auth.fixtures_sha256(), fx.sha256());
    assert_eq!(auth.capture_ref(), None);
    assert_eq!(auth.polarity(), None);
}

#[test]
fn emulator_only_does_not_require_any_fixture() {
    let empty = FixtureSet::from_fixtures(Vec::new()).unwrap();
    let auth = TransmitAuthority::resolve(&TransmitGateConfig::emulator_only(), &empty).unwrap();
    assert!(!auth.permits_real_bus());
}

#[test]
fn a_fully_captured_fixture_set_resolves_to_a_real_bus() {
    let fx = all_captured();
    let auth = TransmitAuthority::resolve(&attested_cfg(&fx), &fx).unwrap();
    assert!(auth.permits_real_bus());
    for link in LinkKind::all() {
        assert!(auth.permits_real_bus_on(link), "{link:?}");
    }
    assert_eq!(auth.capture_ref(), Some("research/diagnostics/2026-09-01-phase1-saturn.bin"));
    assert_eq!(auth.fixtures_sha256_hex(), fx.sha256_hex());
    assert_eq!(auth.polarity(), Some(&attest_all()));
}

#[test]
fn one_documented_fixture_closes_the_gate() {
    let fx = FixtureSet::load(raw_set(|id| {
        Some(if id == "saturn.set_temperature" { documented() } else { captured() })
    }))
    .unwrap();

    let err = TransmitAuthority::resolve(&attested_cfg(&fx), &fx).unwrap_err();
    assert!(matches!(
        err,
        GateError::FixturesNotCaptured { ref documented, ref missing }
            if documented.len() == 1 && missing.is_empty()
    ));
    let GateError::FixturesNotCaptured { documented, .. } = err else { unreachable!() };
    assert_eq!(documented[0].as_str(), "saturn.set_temperature");
}

#[test]
fn a_missing_fixture_closes_the_gate_too() {
    let fx = FixtureSet::load(raw_set(|id| if id == "steam.stop" { None } else { Some(captured()) })).unwrap();

    let err = TransmitAuthority::resolve(&attested_cfg(&fx), &fx).unwrap_err();
    let GateError::FixturesNotCaptured { missing, .. } = &err else {
        panic!("expected FixturesNotCaptured, got {err:?}");
    };
    assert_eq!(missing.len(), 1);
    assert_eq!(missing.first().map(FixtureId::as_str), Some("steam.stop"));
}

#[test]
fn promoting_a_fixture_invalidates_a_stale_pin() {
    let before = all_documented();
    let after = all_captured();
    assert_ne!(before.sha256(), after.sha256());

    let stale = TransmitGateConfig { expected_fixtures_sha256: Some(before.sha256_hex()), ..attested_cfg(&after) };
    let err = TransmitAuthority::resolve(&stale, &after).unwrap_err();
    assert_eq!(
        err,
        GateError::FixtureSetHashMismatch { expected: before.sha256_hex(), found: after.sha256_hex() }
    );
}

#[test]
fn a_stale_pin_is_reported_under_the_emulator_scope_as_well() {
    let fx = all_documented();
    let cfg = TransmitGateConfig {
        expected_fixtures_sha256: Some(hex::encode([0u8; 32])),
        ..TransmitGateConfig::emulator_only()
    };
    assert!(matches!(TransmitAuthority::resolve(&cfg, &fx), Err(GateError::FixtureSetHashMismatch { .. })));
}

#[test]
fn a_real_bus_request_without_a_pin_is_refused() {
    let fx = all_captured();
    let cfg = TransmitGateConfig { expected_fixtures_sha256: None, ..attested_cfg(&fx) };
    let err = TransmitAuthority::resolve(&cfg, &fx).unwrap_err();
    assert_eq!(err, GateError::FixtureSetHashUnpinned { found: fx.sha256_hex() });
}

#[test]
fn a_malformed_pin_is_refused_rather_than_ignored() {
    let fx = all_documented();
    for bad in ["", "zz", "abcd"] {
        let cfg = TransmitGateConfig {
            expected_fixtures_sha256: Some(bad.to_owned()),
            ..TransmitGateConfig::emulator_only()
        };
        assert_eq!(
            TransmitAuthority::resolve(&cfg, &fx),
            Err(GateError::MalformedExpectedHash { value: bad.to_owned() }),
            "{bad:?} was accepted"
        );
    }
}

#[test]
fn a_pin_is_read_in_either_case_and_with_surrounding_space() {
    let fx = all_captured();
    let pin = format!("  {}\n", fx.sha256_hex().to_uppercase());
    let cfg = TransmitGateConfig { expected_fixtures_sha256: Some(pin), ..attested_cfg(&fx) };
    assert!(TransmitAuthority::resolve(&cfg, &fx).unwrap().permits_real_bus());
}

#[test]
fn a_real_bus_request_without_a_capture_reference_is_refused() {
    let fx = all_captured();
    for capture_ref in [None, Some(String::new()), Some("   ".to_owned())] {
        let cfg = TransmitGateConfig { capture_ref, ..attested_cfg(&fx) };
        assert_eq!(TransmitAuthority::resolve(&cfg, &fx), Err(GateError::MissingCaptureRef));
    }
}

#[test]
fn captured_frames_do_not_attest_bus_polarity() {
    let fx = all_captured();
    let cfg = TransmitGateConfig { polarity: PolarityAttestation::default(), ..attested_cfg(&fx) };
    let err = TransmitAuthority::resolve(&cfg, &fx).unwrap_err();
    assert_eq!(err, GateError::BusPolarityUnattested { links: LinkKind::all().to_vec() });
    assert_eq!(LinkKind::all()[0].name(), "zone1");
    assert_eq!(LinkKind::all()[2].name(), "steam");
}

#[test]
fn an_empty_polarity_note_does_not_attest() {
    let note = PolarityNote { link: LinkKind::Steam, note: "  ".to_owned(), attested_on: "2026-01-01".to_owned() };
    assert!(!note.is_attested());
    let undated = PolarityNote { note: "A+ on TA".to_owned(), attested_on: String::new(), ..note.clone() };
    assert!(!undated.is_attested());
    let good = PolarityNote { attested_on: "2026-01-01".to_owned(), ..undated };
    assert!(good.is_attested());
}

#[test]
fn one_zone_does_not_ride_in_on_another_zones_attestation() {
    let fx = all_captured();
    let mut polarity = attest_all();
    polarity.notes.retain(|n| n.link != LinkKind::Steam);
    assert!(!polarity.attests(LinkKind::Steam));
    assert!(polarity.attests(LinkKind::Zone(ZoneId::Zone1)));
    assert_eq!(polarity.unattested(), vec![LinkKind::Steam]);
    let cfg = TransmitGateConfig { polarity, ..attested_cfg(&fx) };
    assert_eq!(
        TransmitAuthority::resolve(&cfg, &fx),
        Err(GateError::BusPolarityUnattested { links: vec![LinkKind::Steam] })
    );

    let auth = TransmitAuthority::resolve(&attested_cfg(&fx), &fx).unwrap();
    let TransmitScope::RealBusAttested { polarity, .. } = auth.scope() else {
        panic!("expected a real-bus scope");
    };
    assert_eq!(polarity.unattested(), Vec::new());
}

#[test]
fn the_convenience_constructor_cannot_grant_a_real_bus() {
    let auth = TransmitAuthority::emulator_only(&all_captured());
    assert!(!auth.permits_real_bus());
    assert_eq!(auth.scope(), &TransmitScope::EmulatorOnly);
}

#[test]
fn the_shipped_configuration_is_emulator_only() {
    let cfg = TransmitGateConfig::emulator_only();
    assert_eq!(cfg.scope, RequestedScope::EmulatorOnly);
    assert_eq!(cfg.capture_ref, None);
    assert_eq!(cfg.expected_fixtures_sha256, None);
    assert_eq!(cfg.polarity, PolarityAttestation::default());
    assert_eq!(RequestedScope::default(), RequestedScope::EmulatorOnly);
    assert_eq!(TransmitGateConfig::default(), cfg);
}

#[test]
fn the_note_found_is_the_first_measured_one_for_the_link() {
    let p = PolarityAttestation {
        notes: vec![
            PolarityNote { link: LinkKind::Steam, note: " ".to_owned(), attested_on: "x".to_owned() },
            PolarityNote { link: LinkKind::Steam, note: "A+ on TA".to_owned(), attested_on: "2026-02-02".to_owned() },
        ],
    };
    assert_eq!(p.note(LinkKind::Steam).map(|n| n.attested_on.as_str()), Some("2026-02-02"));
    assert!(p.note(LinkKind::Zone(ZoneId::Zone2)).is_none());
}

#[test]
fn missing_fixtures_are_named_sorted_by_id() {
    let ids = required_transmit_ids();
    // Two ids that the allowlist gives in descending order, if there are any;
    // otherwise the last two, which the listing must still sort.
    let k = (0..ids.len() - 1).find(|&i| ids[i] > ids[i + 1]).unwrap_or(ids.len() - 2);
    let (a, b) = (ids[k], ids[k + 1]);
    let fx = FixtureSet::load(raw_set(|id| if id == a || id == b { None } else { Some(captured()) })).unwrap();
    let err = TransmitAuthority::resolve(&attested_cfg(&fx), &fx).unwrap_err();
    let GateError::FixturesNotCaptured { missing, documented } = &err else {
        panic!("expected FixturesNotCaptured, got {err:?}");
    };
    assert!(documented.is_empty());
    let names: Vec<&str> = missing.iter().map(FixtureId::as_str).collect();
    let mut want = vec![a, b];
    want.sort();
    assert_eq!(names, want);
}
