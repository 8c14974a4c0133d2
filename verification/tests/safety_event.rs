use kdtv::safety::{DegradeReason, FaultScope, LatchReason, SafetyEvent};
use kdtv::time::Duration;
use kdtv::units::{LinkKind, ZoneId};

fn zone_events() -> Vec<SafetyEvent> {
    vec![
        SafetyEvent::ValveFault { zone: ZoneId::Zone1, raw_code: 7, unrecoverable: false },
        SafetyEvent::ChecksumFailedOnWrite { zone: ZoneId::Zone1 },
        SafetyEvent::MalformedResponse { zone: ZoneId::Zone1, detail: "bad len".into() },
        SafetyEvent::OutOfRangeValue { zone: ZoneId::Zone1, field: "temperature" },
        SafetyEvent::SafetyResponseMissed { zone: ZoneId::Zone1, op: "AllOff".into() },
        SafetyEvent::IndependentOverTemperature {
            zone: ZoneId::Zone1,
            corrected_c_bits: 46.0f32.to_bits(),
            dwell: Duration::from_secs(3),
        },
        SafetyEvent::IndependentRawOverTemperature { zone: ZoneId::Zone1, raw_c_bits: 51.0f32.to_bits() },
        SafetyEvent::RtdFaultRegister { zone: ZoneId::Zone1, bits: 0x04 },
        SafetyEvent::RtdStarved { zone: ZoneId::Zone1, since: Duration::from_secs(6) },
        SafetyEvent::TemperatureDivergence {
            zone: ZoneId::Zone1,
            delta_c_bits: 6.0f32.to_bits(),
            dwell: Duration::from_secs(11),
        },
        SafetyEvent::SessionExpired { zone: ZoneId::Zone1 },
    ]
}

fn shared_events() -> Vec<SafetyEvent> {
    vec![
        SafetyEvent::ConfigCheckFailed { detail: "two zones on one port".into() },
        SafetyEvent::WatchdogMissed,
        SafetyEvent::UsbControllerLost,
        SafetyEvent::ServiceFailure,
    ]
}

#[test]
fn every_zone_event_scopes_to_its_own_zone_and_no_further() {
    for e in zone_events() {
        assert_eq!(e.scope(), FaultScope::Zone(ZoneId::Zone1), "{e:?}");
    }
}

#[test]
fn exactly_four_events_take_everything_down() {
    let shared = shared_events();
    assert_eq!(shared.len(), 4);
    for e in shared {
        assert_eq!(e.scope(), FaultScope::Shared, "{e:?}");
    }
}

#[test]
fn a_lost_port_scopes_to_the_link_because_it_may_be_steam() {
    assert_eq!(SafetyEvent::PortLost { link: LinkKind::Steam }.scope(), FaultScope::Link(LinkKind::Steam));
    assert_eq!(
        SafetyEvent::PortLost { link: LinkKind::Zone(ZoneId::Zone2) }.scope(),
        FaultScope::Link(LinkKind::Zone(ZoneId::Zone2))
    );
    assert_eq!(
        SafetyEvent::SteamLinkDegraded { why: DegradeReason::Nak }.scope(),
        FaultScope::Link(LinkKind::Steam)
    );
}

#[test]
fn a_welded_valve_gets_its_own_latch_reason() {
    let e = SafetyEvent::ValveFault { zone: ZoneId::Zone1, raw_code: 35, unrecoverable: true };
    assert_eq!(e.latch_reason(), Some(LatchReason::Welded));
    assert!(e.latch_reason().unwrap().is_welded());
    let ambiguous = SafetyEvent::ValveFault { zone: ZoneId::Zone1, raw_code: 35, unrecoverable: false };
    assert_eq!(ambiguous.latch_reason(), Some(LatchReason::ValveFault { raw_code: 35 }));
    assert!(!ambiguous.latch_reason().unwrap().is_welded());
}

#[test]
fn a_session_expiry_has_no_latch_reason_because_it_does_not_latch() {
    assert_eq!(SafetyEvent::SessionExpired { zone: ZoneId::Zone1 }.latch_reason(), None);
    for e in zone_events().into_iter().chain(shared_events()) {
        if matches!(e, SafetyEvent::SessionExpired { .. }) {
            continue;
        }
        assert!(e.latch_reason().is_some(), "{e:?} must name why it latched");
    }
}

#[test]
fn only_a_session_expiry_is_routine() {
    assert!(SafetyEvent::SessionExpired { zone: ZoneId::Zone1 }.is_routine());
    for e in zone_events().into_iter().chain(shared_events()) {
        if matches!(e, SafetyEvent::SessionExpired { .. }) {
            continue;
        }
        assert!(!e.is_routine(), "{e:?} must not be routine");
    }
}

#[test]
fn latch_reasons_carry_the_event_fields() {
    assert_eq!(
        SafetyEvent::MalformedResponse { zone: ZoneId::Zone2, detail: "bad len".into() }.latch_reason(),
        Some(LatchReason::MalformedResponse { detail: "bad len".into() })
    );
    assert_eq!(
        SafetyEvent::RtdStarved { zone: ZoneId::Zone1, since: Duration::from_millis(6500) }.latch_reason(),
        Some(LatchReason::RtdStarved { since_s: 6 })
    );
    assert_eq!(
        SafetyEvent::TemperatureDivergence { zone: ZoneId::Zone1, delta_c_bits: 6.0f32.to_bits(), dwell: Duration::from_secs(11) }
            .latch_reason(),
        Some(LatchReason::TemperatureDivergence { delta_c_bits: 6.0f32.to_bits() })
    );
    assert!(SafetyEvent::TemperatureDivergence { zone: ZoneId::Zone1, delta_c_bits: 0, dwell: Duration::zero() }.is_divergence());
    assert!(SafetyEvent::SteamLinkDegraded { why: DegradeReason::Timeouts }.is_steam_degraded());
    assert!(!SafetyEvent::WatchdogMissed.is_steam_degraded());
}
