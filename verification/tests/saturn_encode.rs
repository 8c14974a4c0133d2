use kdtv::fixtures::FixtureSet;
use kdtv::gate::TransmitAuthority;
use kdtv::saturn::encode::DiscoveryToken;
use kdtv::saturn::{
    checksum, denied_control_bytes, expected_response_len, EncodeDenied, Encoder, LinkPhase,
    MasterAddr, OutletMapping, OutletTable, PrimaryFlags, SaturnOp, SaturnOpKind, ValveAddr,
    ValveType, BROADCAST, FRAME_OVERHEAD, MAX_DATA_LEN, MAX_FRAME, SYNC1, SYNC2,
};
use kdtv::units::{Cx2, LinkKind, OpenAuthority, Slot, SlotSet, ValveSetpoint, ZoneId};

/// An authority to open outlets in one zone, as the safety kernel would hand
/// one over.
struct Opens(ZoneId);

impl OpenAuthority for Opens {
    fn spec_authorised_zone(&self) -> ZoneId {
        self.0
    }

    fn authorised_zone(&self) -> ZoneId {
        self.0
    }
}

fn slot(n: u8) -> Slot {
    Slot::new(n).unwrap()
}

fn addr(v: u8) -> ValveAddr {
    ValveAddr::new(v).unwrap()
}

fn auth() -> TransmitAuthority {
    TransmitAuthority::emulator_only(&FixtureSet::empty())
}

fn zone1() -> Encoder {
    let maps: Vec<OutletMapping> = (1u8..=5)
        .map(|n| OutletMapping { slot: slot(n), status_index: n, wire_outlet: n - 1 })
        .collect();
    let table = OutletTable::new(ValveType::Dtv6Port, &maps).unwrap();
    Encoder::new(&auth(), LinkKind::Zone(ZoneId::Zone1), MasterAddr::Dtv, table)
}

fn zone2() -> Encoder {
    let maps: Vec<OutletMapping> =
        (1u8..=3).map(|n| OutletMapping { slot: slot(n), status_index: n, wire_outlet: n }).collect();
    let table = OutletTable::new(ValveType::Prompt3Port, &maps).unwrap();
    Encoder::new(&auth(), LinkKind::Zone(ZoneId::Zone2), MasterAddr::Dtv, table)
}

fn token(link: LinkKind) -> DiscoveryToken {
    DiscoveryToken::mint(link, LinkPhase::Discovery).unwrap()
}

fn set(ns: &[u8]) -> SlotSet {
    let mut s = SlotSet::empty();
    for n in ns {
        s = s.insert(slot(*n));
    }
    s
}

/// The authority matching an encoder's own zone.
fn opens_for(e: &Encoder) -> Opens {
    Opens(e.link().zone().unwrap())
}

fn encode(e: &Encoder, a: ValveAddr, op: &SaturnOp, phase: LinkPhase, t: Option<&DiscoveryToken>) -> Result<kdtv::saturn::SaturnFrame, EncodeDenied> {
    let o = opens_for(e);
    e.encode(a, op, phase, t, Some(&o as &dyn OpenAuthority))
}

const ALL_PHASES: [LinkPhase; 6] = [
    LinkPhase::Booting,
    LinkPhase::Discovery,
    LinkPhase::ReadyOff,
    LinkPhase::Running,
    LinkPhase::Paused,
    LinkPhase::Faulted,
];

#[test]
fn golden_write_outlet_states_prompt3_outlet_1() {
    let f = encode(
        &zone2(),
        addr(0x03),
        &SaturnOp::SetOutlets { slots: set(&[1]), flags: PrimaryFlags::captured() },
        LinkPhase::ReadyOff,
        None,
    )
    .unwrap();
    assert_eq!(f.bytes(), &[0xAA, 0x55, 0x03, 0x87, 0x02, 0x04, 0x00, 0x70]);
}

#[test]
fn golden_read_firmware_type() {
    let f = zone1().encode(addr(0x03), &SaturnOp::ReadFirmwareType, LinkPhase::ReadyOff, None, None).unwrap();
    assert_eq!(f.bytes(), &[0xAA, 0x55, 0x03, 0x02, 0x00, 0xFB]);
    assert_ne!(f.bytes().last(), Some(&0xA1));
}

#[test]
fn golden_address_clear_broadcast() {
    let e = zone1();
    let t = token(e.link());
    let f = e.encode(addr(0x03), &SaturnOp::AddressClear, LinkPhase::Discovery, Some(&t), None).unwrap();
    assert_eq!(f.bytes(), &[0xAA, 0x55, 0x0F, 0x3A, 0x01, 0x03, 0xB3]);
    assert_ne!(f.bytes().last(), Some(&0xAE));
    assert_eq!(f.dest(), BROADCAST);
}

#[test]
fn golden_reads_from_valve_0x03() {
    let e = zone1();
    for (op, expected) in [
        (SaturnOp::ReadFirmwareVersion, &[0xAA, 0x55, 0x03, 0x01, 0x00, 0xFC][..]),
        (SaturnOp::ReadTemperature, &[0xAA, 0x55, 0x03, 0x0B, 0x00, 0xF2][..]),
        (SaturnOp::ReadFaults, &[0xAA, 0x55, 0x03, 0x0F, 0x00, 0xEE][..]),
    ] {
        let f = e.encode(addr(0x03), &op, LinkPhase::ReadyOff, None, None).unwrap();
        assert_eq!(f.bytes(), expected, "{op:?}");
    }
}

#[test]
fn discovery_frames_are_derived_from_field_definitions_and_remain_unresolved() {
    let e = zone1();
    let t = token(e.link());

    let enquiry = e.encode(addr(0x03), &SaturnOp::AddressEnquiry, LinkPhase::Discovery, Some(&t), None).unwrap();
    assert_eq!(enquiry.bytes(), &[0xAA, 0x55, 0x0F, 0x3A, 0x01, 0x01, 0xB5]);

    let allocate = e
        .encode(addr(0x03), &SaturnOp::AddressAllocate(addr(0x03)), LinkPhase::Discovery, Some(&t), None)
        .unwrap();
    assert_eq!(allocate.bytes(), &[0xAA, 0x55, 0x0F, 0x3A, 0x02, 0x02, 0x03, 0xB0]);
    assert_eq!(allocate.bytes().get(4), Some(&0x02));
    assert_eq!(checksum(0x0F, 0x3A, 0x01, &[0x02]), 0xB4);

    for f in [&enquiry, &allocate] {
        assert_eq!(f.dest(), BROADCAST);
    }
}

fn every_op(slots: &[u8]) -> Vec<SaturnOp> {
    let mut ops = vec![
        SaturnOp::AllOff,
        SaturnOp::Pause,
        SaturnOp::Resume,
        SaturnOp::ReadFirmwareVersion,
        SaturnOp::ReadFirmwareType,
        SaturnOp::ReadOutlets,
        SaturnOp::ReadTemperature,
        SaturnOp::ReadFlow,
        SaturnOp::ReadFaults,
        SaturnOp::ReadCalibration,
        SaturnOp::ReadConfiguration,
        SaturnOp::ReadSerialNumber,
        SaturnOp::ReadGenericOutlets,
        SaturnOp::ReadExtendedStatus,
        SaturnOp::ReadDiagnostics,
        SaturnOp::AddressEnquiry,
        SaturnOp::AddressClear,
    ];
    for a in ValveAddr::all() {
        ops.push(SaturnOp::AddressAllocate(a));
    }
    for raw in 0u8..=255 {
        if let Ok(sp) = ValveSetpoint::try_new(Cx2::from_raw(raw)) {
            ops.push(SaturnOp::SetTemperature(sp));
        }
    }
    let n = slots.len();
    for mask in 0u32..(1u32 << n) {
        let mut chosen = SlotSet::empty();
        for (i, s) in slots.iter().enumerate() {
            if mask & (1 << i) != 0 {
                chosen = chosen.insert(slot(*s));
            }
        }
        for fb in 0u8..=255 {
            if let Some(flags) = PrimaryFlags::from_bits(fb) {
                ops.push(SaturnOp::SetOutlets { slots: chosen, flags });
            }
        }
    }
    ops
}

#[test]
fn every_encoded_frame_is_well_formed() {
    for (e, valve_slots) in [(zone1(), &[1u8, 2, 3, 4, 5][..]), (zone2(), &[1, 2, 3][..])] {
        let t = token(e.link());
        for op in every_op(valve_slots) {
            for phase in ALL_PHASES {
                let Ok(f) = encode(&e, addr(0x03), &op, phase, Some(&t)) else {
                    continue;
                };
                let b = f.bytes();
                assert_eq!(b.first(), Some(&SYNC1));
                assert_eq!(b.get(1), Some(&SYNC2));
                let data_len = usize::from(*b.get(4).unwrap());
                assert_eq!(b.len(), FRAME_OVERHEAD + data_len);
                assert!(b.len() <= MAX_FRAME);
                assert!(data_len <= usize::from(MAX_DATA_LEN));
                let sum = b.iter().skip(2).fold(0u8, |acc, byte| acc.wrapping_add(*byte));
                assert_eq!(sum, 0, "checksum does not close for {op:?}: {f:?}");
            }
        }
    }
}

#[test]
fn the_allowlist_is_exactly_these_twenty_operations() {
    let expected = [
        SaturnOpKind::AllOff,
        SaturnOpKind::SetOutlets,
        SaturnOpKind::SetTemperature,
        SaturnOpKind::Pause,
        SaturnOpKind::Resume,
        SaturnOpKind::ReadFirmwareVersion,
        SaturnOpKind::ReadFirmwareType,
        SaturnOpKind::ReadOutlets,
        SaturnOpKind::ReadTemperature,
        SaturnOpKind::ReadFlow,
        SaturnOpKind::ReadFaults,
        SaturnOpKind::ReadCalibration,
        SaturnOpKind::ReadConfiguration,
        SaturnOpKind::ReadSerialNumber,
        SaturnOpKind::ReadGenericOutlets,
        SaturnOpKind::ReadExtendedStatus,
        SaturnOpKind::ReadDiagnostics,
        SaturnOpKind::AddressEnquiry,
        SaturnOpKind::AddressAllocate,
        SaturnOpKind::AddressClear,
    ];
    let all = SaturnOpKind::all();
    assert_eq!(all, &expected[..]);
    assert_eq!(all.len(), 20);
    assert_eq!(all.iter().filter(|k| k.is_write()).count(), 5);
    assert_eq!(all.iter().filter(|k| k.is_address_management()).count(), 3);
    assert_eq!(all.iter().filter(|k| !k.is_write() && !k.is_address_management()).count(), 12);
    assert_eq!(all.iter().filter(|k| k.can_open_water()).count(), 1);
    assert!(!SaturnOpKind::AllOff.can_open_water());
}

#[test]
fn no_denied_control_byte_is_reachable() {
    let denied = denied_control_bytes();
    let mut frames = 0u32;
    for (e, valve_slots) in [(zone1(), &[1u8, 2, 3, 4, 5][..]), (zone2(), &[1, 2, 3][..])] {
        let t = token(e.link());
        for op in every_op(valve_slots) {
            for phase in [
                LinkPhase::Discovery,
                LinkPhase::ReadyOff,
                LinkPhase::Running,
                LinkPhase::Paused,
                LinkPhase::Faulted,
            ] {
                for a in ValveAddr::all() {
                    let Ok(f) = encode(&e, a, &op, phase, Some(&t)) else {
                        continue;
                    };
                    frames += 1;
                    let control = *f.bytes().get(3).expect("frames have a control byte");
                    assert_eq!(control, f.control_byte());
                    assert!(!denied.contains(&control), "denied control byte 0x{control:02X} emitted for {op:?}");
                }
            }
        }
    }
    assert!(frames > 10_000, "the scan only built {frames} frames");
}

#[test]
fn the_reachable_control_bytes_are_a_known_five() {
    let mut reachable: Vec<u8> = SaturnOpKind::all().iter().map(|k| k.control_byte()).collect();
    reachable.sort_unstable();
    reachable.dedup();
    assert_eq!(
        reachable,
        vec![0x01, 0x02, 0x07, 0x0B, 0x0C, 0x0F, 0x10, 0x11, 0x15, 0x16, 0x3A, 0x40, 0x54, 0x87, 0x8B, 0x99]
    );
    for d in denied_control_bytes() {
        assert!(!reachable.contains(d), "0x{d:02X} is reachable");
    }
    for byte in [0xC0u8, 0x95, 0x81, 0x82, 0xA4, 0xA1, 0xF4, 0xF6, 0xF7, 0x8C] {
        assert!(!reachable.contains(&byte), "0x{byte:02X} is reachable");
    }
}

#[test]
fn address_management_requires_a_token_and_the_discovery_phase() {
    let e = zone1();
    for phase in [LinkPhase::Booting, LinkPhase::ReadyOff, LinkPhase::Running, LinkPhase::Paused, LinkPhase::Faulted] {
        assert!(DiscoveryToken::mint(e.link(), phase).is_none());
        for op in [SaturnOp::AddressClear, SaturnOp::AddressEnquiry, SaturnOp::AddressAllocate(addr(0x03))] {
            let err = e.encode(addr(0x03), &op, phase, None, None).unwrap_err();
            assert!(matches!(err, EncodeDenied::AddressOpOutsideDiscovery { .. }));
        }
    }
    let t = token(e.link());
    let err = e.encode(addr(0x03), &SaturnOp::AddressClear, LinkPhase::Running, Some(&t), None).unwrap_err();
    assert!(matches!(err, EncodeDenied::AddressOpOutsideDiscovery { .. }));
}

#[test]
fn a_token_is_not_transferable_between_links() {
    let e = zone1();
    let other = token(LinkKind::Zone(ZoneId::Zone2));
    let err = e.encode(addr(0x03), &SaturnOp::AddressClear, LinkPhase::Discovery, Some(&other), None).unwrap_err();
    assert_eq!(
        err,
        EncodeDenied::TokenForWrongLink {
            token: LinkKind::Zone(ZoneId::Zone2),
            encoder: LinkKind::Zone(ZoneId::Zone1),
        }
    );
}

#[test]
fn all_off_is_permitted_in_every_phase_and_needs_nothing() {
    let e = zone1();
    for phase in ALL_PHASES {
        let f = e.encode(addr(0x03), &SaturnOp::AllOff, phase, None, None).unwrap();
        assert_eq!(f.bytes().get(4..7), Some(&[0x02, 0x00, 0x00][..]));
    }
}

#[test]
fn flow_changing_writes_are_refused_before_the_link_is_addressed() {
    let e = zone1();
    for phase in [LinkPhase::Booting, LinkPhase::Discovery] {
        for op in [
            SaturnOp::SetOutlets { slots: set(&[1]), flags: PrimaryFlags::captured() },
            SaturnOp::SetTemperature(ValveSetpoint::try_new(Cx2::from_raw(76)).unwrap()),
            SaturnOp::Pause,
            SaturnOp::Resume,
        ] {
            let err = encode(&e, addr(0x03), &op, phase, None).unwrap_err();
            assert!(matches!(err, EncodeDenied::WriteOutsideOperationalPhase { .. }));
        }
    }
}

#[test]
fn reads_are_permitted_in_every_phase() {
    let e = zone1();
    for phase in ALL_PHASES {
        for op in [SaturnOp::ReadFaults, SaturnOp::ReadCalibration, SaturnOp::ReadConfiguration, SaturnOp::ReadTemperature] {
            assert!(e.encode(addr(0x03), &op, phase, None, None).is_ok());
        }
    }
}

#[test]
fn an_unconfigured_slot_is_refused() {
    let e = zone1();
    let err = encode(
        &e,
        addr(0x03),
        &SaturnOp::SetOutlets { slots: set(&[6]), flags: PrimaryFlags::captured() },
        LinkPhase::ReadyOff,
        None,
    )
    .unwrap_err();
    assert_eq!(err, EncodeDenied::UnconfiguredOutlet(slot(6)));

    let err = encode(
        &e,
        addr(0x03),
        &SaturnOp::SetOutlets { slots: set(&[1, 6]), flags: PrimaryFlags::captured() },
        LinkPhase::ReadyOff,
        None,
    )
    .unwrap_err();
    assert_eq!(err, EncodeDenied::UnconfiguredOutlet(slot(6)));
}

#[test]
fn the_same_slot_reaches_a_different_wire_bit_on_each_valve() {
    let op = SaturnOp::SetOutlets { slots: set(&[1]), flags: PrimaryFlags::captured() };
    let one = encode(&zone1(), addr(0x03), &op, LinkPhase::ReadyOff, None).unwrap();
    let two = encode(&zone2(), addr(0x03), &op, LinkPhase::ReadyOff, None).unwrap();
    assert_eq!(one.bytes().get(5), Some(&0x01));
    assert_eq!(two.bytes().get(5), Some(&0x04));
}

#[test]
fn only_clamped_setpoints_can_be_encoded() {
    let e = zone1();
    let mut emitted = Vec::new();
    for raw in 0u8..=255 {
        let Ok(sp) = ValveSetpoint::try_new(Cx2::from_raw(raw)) else {
            continue;
        };
        let f = e.encode(addr(0x03), &SaturnOp::SetTemperature(sp), LinkPhase::Running, None, None).unwrap();
        let byte = *f.bytes().get(5).unwrap();
        assert_eq!(byte, raw);
        emitted.push(byte);
    }
    assert_eq!(emitted.first(), Some(&60));
    assert_eq!(emitted.last(), Some(&85));
    assert_eq!(emitted.len(), 26);
    assert!(!emitted.contains(&98));
    assert!(!emitted.contains(&90));
}

#[test]
fn undefined_flag_bits_never_reach_the_wire() {
    let e = zone1();
    assert!(PrimaryFlags::from_bits(0x08).is_none());
    let bad = PrimaryFlags::from_bits_retain(0x08);
    let err = encode(&e, addr(0x03), &SaturnOp::SetOutlets { slots: set(&[1]), flags: bad }, LinkPhase::ReadyOff, None)
        .unwrap_err();
    assert_eq!(err, EncodeDenied::UndefinedFlagBits(0x08));
}

#[test]
fn expected_response_lengths_match_the_documented_table() {
    let table = [
        (SaturnOpKind::AddressEnquiry, Some(11u8)),
        (SaturnOpKind::AddressAllocate, Some(6)),
        (SaturnOpKind::AddressClear, None),
        (SaturnOpKind::ReadFirmwareVersion, Some(9)),
        (SaturnOpKind::ReadFirmwareType, Some(7)),
        (SaturnOpKind::ReadOutlets, Some(8)),
        (SaturnOpKind::ReadTemperature, Some(8)),
        (SaturnOpKind::ReadFlow, Some(8)),
        (SaturnOpKind::ReadFaults, Some(8)),
        (SaturnOpKind::ReadCalibration, Some(14)),
        (SaturnOpKind::ReadSerialNumber, Some(12)),
        (SaturnOpKind::ReadConfiguration, Some(12)),
        (SaturnOpKind::ReadGenericOutlets, Some(17)),
        (SaturnOpKind::ReadExtendedStatus, Some(14)),
        (SaturnOpKind::ReadDiagnostics, Some(10)),
        (SaturnOpKind::AllOff, Some(6)),
        (SaturnOpKind::SetOutlets, Some(6)),
        (SaturnOpKind::SetTemperature, Some(6)),
        (SaturnOpKind::Pause, Some(6)),
        (SaturnOpKind::Resume, Some(6)),
    ];
    assert_eq!(table.len(), SaturnOpKind::all().len());
    for (op, expected) in table {
        assert_eq!(expected_response_len(op), expected, "{op:?}");
        if let Some(total) = expected {
            assert!(total >= 6, "{op:?} is shorter than the frame overhead");
            assert!(usize::from(total) <= MAX_FRAME, "{op:?} exceeds 20 bytes");
            let data_len = total - 6;
            assert!(data_len <= MAX_DATA_LEN, "{op:?} needs DATA_LEN {data_len}");
        }
    }
}

#[test]
fn address_clear_expects_no_response() {
    assert_eq!(expected_response_len(SaturnOpKind::AddressClear), None);
}

#[test]
fn the_control_byte_in_the_frame_is_the_control_byte_in_the_table() {
    let e = zone1();
    let t = token(e.link());
    for op in every_op(&[1, 2, 3, 4, 5]) {
        for phase in [LinkPhase::Discovery, LinkPhase::Running] {
            if let Ok(f) = encode(&e, addr(0x03), &op, phase, Some(&t)) {
                assert_eq!(f.bytes().get(3), Some(&op.kind().control_byte()));
                assert_eq!(f.op(), op.kind());
            }
        }
    }
}

#[test]
fn opening_an_outlet_needs_an_authority_for_this_zone() {
    let e = zone1();
    let op = SaturnOp::SetOutlets { slots: set(&[1]), flags: PrimaryFlags::captured() };
    assert_eq!(e.encode(addr(0x03), &op, LinkPhase::ReadyOff, None, None), Err(EncodeDenied::NoOpenAuthority));
    let other = Opens(ZoneId::Zone2);
    assert_eq!(
        e.encode(addr(0x03), &op, LinkPhase::ReadyOff, None, Some(&other as &dyn OpenAuthority)),
        Err(EncodeDenied::AuthorityForOtherZone { authorised: ZoneId::Zone2, encoder: LinkKind::Zone(ZoneId::Zone1) })
    );
    // Closing needs none, and the zone an authority names changes nothing else.
    assert!(e.encode(addr(0x03), &SaturnOp::AllOff, LinkPhase::Running, None, Some(&other as &dyn OpenAuthority)).is_ok());
    assert_eq!(
        e.encode_authorised(addr(0x03), &op, LinkPhase::ReadyOff, None, Some(ZoneId::Zone1)).unwrap().bytes(),
        &[0xAA, 0x55, 0x03, 0x87, 0x02, 0x01, 0x00, 0x73]
    );
}

#[test]
fn an_encoder_reports_what_it_was_built_with() {
    let e = zone2();
    assert_eq!(e.link(), LinkKind::Zone(ZoneId::Zone2));
    assert_eq!(e.master(), MasterAddr::Dtv);
    assert_eq!(e.valve(), ValveType::Prompt3Port);
    assert_eq!(e.outlets().valve(), ValveType::Prompt3Port);
    assert!(!e.authority().permits_real_bus());
}
