use kdtv::safety::kernel::WELDED_TEXT;
use kdtv::safety::{
    Bounds, DegradeReason, Denial, Effect, LatchReason, LinkState, SafetyEvent, SafetyKernel,
    StartAuthorization, ValidatedStart,
};
use kdtv::time::{Duration, Monotonic};
use kdtv::units::{BootId, CommandId, Cx2, LinkKind, OpenAuthority, SessionDuration, Slot, SlotSet, ValveSetpoint, ZoneId};

fn slots(ns: &[u8]) -> SlotSet {
    let mut s = SlotSet::empty();
    for n in ns {
        if let Ok(slot) = Slot::new(*n) {
            s = s.insert(slot);
        }
    }
    s
}

fn kernel() -> SafetyKernel {
    SafetyKernel::new(
        BootId(1),
        Bounds {
            session_cap: SessionDuration::clamped(Duration::from_secs(1200)),
            configured_outlets: [(ZoneId::Zone1, slots(&[1, 2, 5])), (ZoneId::Zone2, slots(&[1, 2, 3]))],
        },
    )
}

fn start(zone: ZoneId, outlets: &[u8]) -> ValidatedStart {
    ValidatedStart {
        zone,
        outlets: slots(outlets),
        temperature: ValveSetpoint::try_new(Cx2::from_raw(76)).unwrap(),
        duration: SessionDuration::clamped(Duration::from_secs(300)),
        command: CommandId(1),
    }
}

fn at(s: u64) -> Monotonic {
    Monotonic::from_nanos(s * 1_000_000_000)
}

#[test]
fn a_cold_zone_cannot_start_because_nothing_has_confirmed_it_off() {
    let mut k = kernel();
    let d = k
        .authorize_open(&start(ZoneId::Zone1, &[1]), StartAuthorization::issue(BootId(1), CommandId(1)))
        .expect_err("cold must refuse");
    assert!(matches!(d, Denial::NotReady { phase: "cold", .. }), "{d:?}");
}

#[test]
fn a_ready_zone_starts_and_the_grant_names_it() {
    let mut k = kernel();
    k.mark_ready(LinkKind::Zone(ZoneId::Zone1));
    let mut req = start(ZoneId::Zone1, &[1, 2]);
    req.command = CommandId(4);
    let g = k.authorize_open(&req, StartAuthorization::issue(BootId(1), CommandId(4))).expect("ready must authorise");
    assert_eq!(g.zone(), ZoneId::Zone1);
    assert_eq!(g.command(), CommandId(4));
    assert_eq!(g.boot(), BootId(1));
    assert_eq!(g.authorised_zone(), ZoneId::Zone1);
    assert_eq!(k.state(LinkKind::Zone(ZoneId::Zone1)), &LinkState::Running);
}

#[test]
fn a_grant_names_a_zone_which_is_what_keeps_steam_away_from_outlets() {
    let mut k = kernel();
    k.mark_ready(LinkKind::Zone(ZoneId::Zone2));
    let g = k.authorize_open(&start(ZoneId::Zone2, &[3]), StartAuthorization::issue(BootId(1), CommandId(1))).unwrap();
    assert_eq!(g.zone(), ZoneId::Zone2);
}

#[test]
fn an_authorisation_cannot_authorise_a_different_command() {
    let mut k = kernel();
    k.mark_ready(LinkKind::Zone(ZoneId::Zone1));
    let mut req = start(ZoneId::Zone1, &[1]);
    req.command = CommandId(9);
    let d = k
        .authorize_open(&req, StartAuthorization::issue(BootId(1), CommandId(4)))
        .expect_err("an authorisation for command 4 must not authorise command 9");
    assert_eq!(d, Denial::MismatchedCommand { authorised: CommandId(4), requested: CommandId(9) });
}

#[test]
fn an_authorisation_from_a_previous_boot_is_refused() {
    let mut k = kernel();
    k.mark_ready(LinkKind::Zone(ZoneId::Zone1));
    let d = k
        .authorize_open(&start(ZoneId::Zone1, &[1]), StartAuthorization::issue(BootId(0), CommandId(1)))
        .expect_err("a stale boot id must refuse");
    assert_eq!(d, Denial::StaleSession { token_boot: BootId(0), current_boot: BootId(1) });
}

#[test]
fn an_unconfigured_outlet_is_refused_and_names_itself() {
    let mut k = kernel();
    k.mark_ready(LinkKind::Zone(ZoneId::Zone1));
    let d = k
        .authorize_open(&start(ZoneId::Zone1, &[1, 4]), StartAuthorization::issue(BootId(1), CommandId(1)))
        .expect_err("slot 4 is not configured on zone 1");
    assert!(matches!(d, Denial::UnconfiguredOutlet(s) if s.get() == 4), "{d:?}");
}

#[test]
fn a_start_with_no_outlets_is_refused() {
    let mut k = kernel();
    k.mark_ready(LinkKind::Zone(ZoneId::Zone1));
    assert!(matches!(
        k.authorize_open(&start(ZoneId::Zone1, &[]), StartAuthorization::issue(BootId(1), CommandId(1))),
        Err(Denial::NoOutlets)
    ));
}

#[test]
fn a_zone_fault_takes_that_zone_down_and_leaves_the_other_alone() {
    let mut k = kernel();
    for l in LinkKind::all() {
        k.mark_ready(l);
    }
    let effects = k.on_event(&SafetyEvent::ChecksumFailedOnWrite { zone: ZoneId::Zone1 }, at(1));
    let effects = effects.as_slice();
    assert!(effects.contains(&Effect::AllOff(ZoneId::Zone1)));
    assert!(effects.contains(&Effect::ClosePort(LinkKind::Zone(ZoneId::Zone1))));
    assert!(!effects.contains(&Effect::AllOff(ZoneId::Zone2)), "the other zone is untouched");
    assert!(matches!(k.state(LinkKind::Zone(ZoneId::Zone2)), LinkState::Ready));
    assert!(matches!(k.state(LinkKind::Steam), LinkState::Ready));
    assert!(matches!(k.state(LinkKind::Zone(ZoneId::Zone1)), LinkState::Latched { acknowledged: false, .. }));
}

#[test]
fn a_shared_fault_takes_everything_down() {
    let mut k = kernel();
    for l in LinkKind::all() {
        k.mark_ready(l);
    }
    let effects = k.on_event(&SafetyEvent::WatchdogMissed, at(1));
    for zone in ZoneId::all() {
        assert!(effects.as_slice().contains(&Effect::AllOff(zone)), "zone {zone:?} must be stopped");
    }
    for l in LinkKind::all() {
        assert!(matches!(k.state(l), LinkState::Latched { .. }), "{l:?} must latch");
    }
}

#[test]
fn a_degraded_steam_link_is_told_to_stop_before_it_is_given_up() {
    let mut k = kernel();
    k.mark_ready(LinkKind::Steam);
    let effects = k.on_event(&SafetyEvent::SteamLinkDegraded { why: DegradeReason::Nak }, at(1));
    let effects = effects.as_slice();
    assert!(effects.contains(&Effect::SteamStopThenLatch), "a link that can still transmit must be told to stop first: {effects:?}");
    assert!(!effects.iter().any(|e| matches!(e, Effect::ClosePort(_))));
}

#[test]
fn a_lost_steam_port_cannot_be_told_anything_and_latches_directly() {
    let mut k = kernel();
    k.mark_ready(LinkKind::Steam);
    let effects = k.on_event(&SafetyEvent::PortLost { link: LinkKind::Steam }, at(1));
    assert!(effects.as_slice().contains(&Effect::ClosePort(LinkKind::Steam)));
    assert!(!effects.as_slice().contains(&Effect::SteamStopThenLatch));
}

#[test]
fn a_welded_valve_produces_the_message_that_says_no_controller_can_help() {
    let mut k = kernel();
    k.mark_ready(LinkKind::Zone(ZoneId::Zone1));
    let effects = k.on_event(&SafetyEvent::ValveFault { zone: ZoneId::Zone1, raw_code: 35, unrecoverable: true }, at(1));
    let msg = effects.as_slice().iter().find_map(|e| match e {
        Effect::OperatorMessage { text, .. } => Some(*text),
        _ => None,
    });
    let msg = msg.expect("a welded valve must produce an operator message");
    assert!(msg.contains("service shutoffs"), "{msg}");
    assert_eq!(msg, WELDED_TEXT);
    assert!(matches!(
        k.state(LinkKind::Zone(ZoneId::Zone1)),
        LinkState::Latched { reason: LatchReason::Welded, .. }
    ));
}

#[test]
fn a_session_expiry_stops_water_without_latching() {
    let mut k = kernel();
    k.mark_ready(LinkKind::Zone(ZoneId::Zone1));
    k.authorize_open(&start(ZoneId::Zone1, &[1]), StartAuthorization::issue(BootId(1), CommandId(1))).unwrap();
    let effects = k.on_event(&SafetyEvent::SessionExpired { zone: ZoneId::Zone1 }, at(1200));
    assert_eq!(effects.as_slice(), &[Effect::AllOff(ZoneId::Zone1)]);
    assert!(matches!(k.state(LinkKind::Zone(ZoneId::Zone1)), LinkState::Ready), "reaching the limit is not a fault");
}

#[test]
fn a_latched_zone_refuses_to_start_until_acknowledged_and_reopened() {
    let mut k = kernel();
    k.mark_ready(LinkKind::Zone(ZoneId::Zone1));
    k.on_event(&SafetyEvent::PortLost { link: LinkKind::Zone(ZoneId::Zone1) }, at(1));

    let mut req = start(ZoneId::Zone1, &[1]);
    req.command = CommandId(2);
    let d = k.authorize_open(&req, StartAuthorization::issue(BootId(1), CommandId(2))).expect_err("a latched zone must refuse");
    assert!(matches!(d, Denial::ZoneLatched { .. }), "{d:?}");

    k.acknowledge(LinkKind::Zone(ZoneId::Zone1)).unwrap();
    req.command = CommandId(3);
    assert!(
        k.authorize_open(&req, StartAuthorization::issue(BootId(1), CommandId(3))).is_err(),
        "an acknowledged latch is still a latch until the link is reopened"
    );
    assert!(matches!(k.state(LinkKind::Zone(ZoneId::Zone1)), LinkState::Latched { acknowledged: true, .. }));
}

#[test]
fn every_event_produces_an_all_off_for_the_zone_it_affects() {
    for zone in ZoneId::all() {
        for e in [
            SafetyEvent::ChecksumFailedOnWrite { zone },
            SafetyEvent::MalformedResponse { zone, detail: "x".into() },
            SafetyEvent::OutOfRangeValue { zone, field: "t" },
            SafetyEvent::SafetyResponseMissed { zone, op: "AllOff".into() },
            SafetyEvent::RtdFaultRegister { zone, bits: 1 },
            SafetyEvent::RtdStarved { zone, since: Duration::from_secs(6) },
            SafetyEvent::ValveFault { zone, raw_code: 7, unrecoverable: false },
        ] {
            let mut k = kernel();
            k.mark_ready(LinkKind::Zone(zone));
            let effects = k.on_event(&e, at(1));
            assert!(effects.as_slice().contains(&Effect::AllOff(zone)), "{e:?} did not stop water on {zone:?}");
        }
    }
}

#[test]
fn acknowledging_a_link_that_is_not_latched_is_refused() {
    let mut k = kernel();
    assert!(k.acknowledge(LinkKind::Steam).is_err());
    k.mark_ready(LinkKind::Steam);
    assert!(k.acknowledge(LinkKind::Steam).is_err());
}

#[test]
fn stopping_a_running_zone_makes_it_ready_again() {
    let mut k = kernel();
    k.mark_ready(LinkKind::Zone(ZoneId::Zone2));
    k.authorize_open(&start(ZoneId::Zone2, &[1]), StartAuthorization::issue(BootId(1), CommandId(1))).unwrap();
    assert_eq!(k.state(LinkKind::Zone(ZoneId::Zone2)), &LinkState::Running);
    k.mark_stopped(ZoneId::Zone2);
    assert_eq!(k.state(LinkKind::Zone(ZoneId::Zone2)), &LinkState::Ready);
    assert_eq!(k.session_cap(), SessionDuration::clamped(Duration::from_secs(1200)));
}

#[test]
fn a_divergence_is_recorded_as_a_finding_as_well_as_latched() {
    let mut k = kernel();
    k.mark_ready(LinkKind::Zone(ZoneId::Zone1));
    let effects = k.on_event(
        &SafetyEvent::TemperatureDivergence { zone: ZoneId::Zone1, delta_c_bits: 6.0f32.to_bits(), dwell: Duration::from_secs(11) },
        at(1),
    );
    assert!(effects.as_slice().contains(&Effect::AllOff(ZoneId::Zone1)));
    assert!(effects.as_slice().iter().any(|e| matches!(e, Effect::RecordFinding(_))));
}
