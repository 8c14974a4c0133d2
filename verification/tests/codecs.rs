use kdtv::dtv;
use kdtv::dtv::{
    allowlisted_opcodes, denied_opcodes, discovery_opcodes, DevAddr, DeviceId, DtvDirection,
    DtvRxBuffer, DtvTimings, ParamCodec, StatusCarrier, SteamEncoder, SteamErrorFlags, SteamOp,
    SteamOpKind, SteamOpState, SteamStateByte, SteamUiStatus,
};
use kdtv::fixtures::FixtureSet;
use kdtv::gate::TransmitAuthority;
use kdtv::saturn;
use kdtv::saturn::encode::DiscoveryToken;
use kdtv::saturn::frame::{VALVE_ADDR_MAX, VALVE_ADDR_MIN};
use kdtv::saturn::opcode;
use kdtv::saturn::{
    denied_control_bytes, disposition, ControlByte, Direction, Encoder, ErrorTable, Expectation,
    FirmwareType, FirmwareTypeId, LinkPhase, MasterAddr, OutletMapping, OutletTable,
    PrimaryFlags, RawErrorByte, RxBuffer, SaturnOp, SaturnOpKind, Timings, ValveAddr,
    ValveControl, ValveType, FRAME_OVERHEAD, HEADER_LEN, MAX_DATA_LEN, SYNC, SYNC1, SYNC2,
};
use kdtv::units::{Cx2, Fx2, LinkKind, OpenAuthority, Slot, SlotSet, SteamMinutes, SteamSetpoint, ValveSetpoint, ZoneId};

struct TestAuthority(ZoneId);

impl OpenAuthority for TestAuthority {
    fn spec_authorised_zone(&self) -> ZoneId {
        self.0
    }

    fn authorised_zone(&self) -> ZoneId {
        self.0
    }
}

fn auth() -> TransmitAuthority {
    TransmitAuthority::emulator_only(&FixtureSet::empty())
}

fn steam_encoder() -> SteamEncoder {
    SteamEncoder::new(&auth())
}

fn zone2_encoder() -> Encoder {
    let maps: Vec<OutletMapping> = (1u8..=3)
        .map(|n| OutletMapping { slot: Slot::new(n).unwrap(), status_index: n, wire_outlet: n })
        .collect();
    let table = OutletTable::new(ValveType::Prompt3Port, &maps).unwrap();
    Encoder::new(&auth(), LinkKind::Zone(ZoneId::Zone2), MasterAddr::Dtv, table)
}

fn slots(ns: &[u8]) -> SlotSet {
    let mut s = SlotSet::empty();
    for n in ns {
        s = s.insert(Slot::new(*n).unwrap());
    }
    s
}

#[test]
fn req_saturn_protocol_err_01_the_public_surface_names_the_contradictions() {
    assert_eq!(SteamOpKind::all().len(), 8);
    assert_eq!(allowlisted_opcodes().len(), 7);
    assert_eq!(discovery_opcodes().len(), 3);
    assert_eq!(denied_opcodes().len(), 19);
    assert_eq!(StatusCarrier::all().len(), 3);
    assert_eq!(SteamOpState::all().len(), 2);
    assert_eq!(SteamUiStatus::all().len(), 9);
    assert_eq!(DevAddr::all().len(), 5);
    assert_eq!(DeviceId::documented().len(), 11);
    assert_eq!(ParamCodec::default(), ParamCodec::SteamBlock);
    assert_eq!(DtvTimings::documented().retries, 4);
    assert_eq!(DtvTimings::documented().tick.as_millis(), 500);
    assert_eq!(DtvTimings::tick_floor().as_millis(), 150);
    assert_eq!((dtv::SOF, dtv::EOF, dtv::ESC), (0x88, 0x55, 0xAA));
    assert_eq!((dtv::MASTER, dtv::BROADCAST), (0x00, 0xFF));
    assert_eq!((dtv::DEV_ADDR_MIN, dtv::DEV_ADDR_MAX), (0x03, 0x07));
    assert_eq!(dtv::checksum(0x03, 0x00, 0x30, &[]), 0xCD);
    assert!(dtv::checksum_valid(0x03, 0x00, 0x34, &[0x01, 0x55], 0x73));
    assert_eq!(dtv::MAX_FRAME, 42);
    assert_eq!(dtv::BAUD, 9600);
    assert_eq!(SteamErrorFlags::decode(0x24).bits(), 0x24);
}

#[test]
fn mod_a_decoded_frame_cannot_become_a_transmittable_one() {
    let d = dtv::decode_frame(&[0x88, 0x00, 0x03, 0x31, 0xDC, 0xDC, 0x00, 0x00, 0x00, 0x00, 0x14, 0x55]).unwrap();
    assert_eq!(d.cmd, dtv::opcode::STATUS_UPDATE);
    assert_eq!(d.direction, DtvDirection::DeviceToMaster);
    let (carrier, status) = d.steam_status(DevAddr::reference()).unwrap();
    assert_eq!(carrier, StatusCarrier::StatusUpdate);
    assert_eq!(status.state, SteamStateByte::Off);
}

#[test]
fn req_controller_design_ph5_02_req_hardware_spec_steam_08_a_valve_setpoint_and_a_steam_setpoint_reject_each_other_s_bytes() {
    let steam_default = SteamSetpoint::try_new(SteamSetpoint::factory_default()).unwrap();
    assert_eq!(steam_default.wire().raw(), 220);
    // As Cx2 the same byte is 110 °C, past the valve's own 49 °C ceiling (Cx2 98).
    assert!((f32::from(Cx2::from_raw(220).raw()) / 2.0 - 110.0).abs() < f32::EPSILON);
    assert!(Cx2::from_raw(220) > Cx2::from_raw(98));

    assert!(ValveSetpoint::try_new(Cx2::from_raw(220)).is_err());
    for f in (180u8..=250).step_by(2) {
        let sp = SteamSetpoint::try_new(Fx2::from_raw(f)).unwrap();
        assert!(
            ValveSetpoint::try_new(Cx2::from_raw(sp.wire().raw())).is_err(),
            "Fx2 {f} was accepted as a valve setpoint"
        );
    }

    assert!(SteamSetpoint::try_new(Fx2::from_raw(86)).is_err());
    for c in 60u8..=85 {
        let sp = ValveSetpoint::try_new(Cx2::from_raw(c)).unwrap();
        assert!(
            SteamSetpoint::try_new(Fx2::from_raw(sp.wire().raw())).is_err(),
            "Cx2 {c} was accepted as a steam setpoint"
        );
    }
}

#[test]
fn the_two_encoders_emit_temperature_bytes_from_disjoint_ranges() {
    let steam = steam_encoder();
    let valve = zone2_encoder();

    let mut steam_bytes = Vec::new();
    for f in (180u8..=250).step_by(2) {
        let frame = steam
            .encode(
                DevAddr::reference(),
                &SteamOp::Start {
                    temp: SteamSetpoint::try_new(Fx2::from_raw(f)).unwrap(),
                    minutes: SteamMinutes::default_minutes(),
                },
                LinkPhase::Running,
                None,
            )
            .unwrap();
        let d = dtv::decode_frame(frame.bytes()).unwrap();
        steam_bytes.push(*d.payload.first().unwrap());
    }

    let mut valve_bytes = Vec::new();
    for c in 60u8..=85 {
        let frame = valve
            .encode(
                ValveAddr::new(0x03).unwrap(),
                &SaturnOp::SetTemperature(ValveSetpoint::try_new(Cx2::from_raw(c)).unwrap()),
                LinkPhase::Running,
                None,
                None,
            )
            .unwrap();
        valve_bytes.push(*frame.bytes().get(5).unwrap());
    }

    assert_eq!(steam_bytes.first(), Some(&180));
    assert_eq!(steam_bytes.last(), Some(&250));
    assert_eq!(valve_bytes.first(), Some(&60));
    assert_eq!(valve_bytes.last(), Some(&85));
    for s in &steam_bytes {
        assert!(!valve_bytes.contains(s), "byte {s} is legal on both buses");
    }
}

#[test]
fn req_hardware_spec_steam_15_nothing_on_the_steam_path_can_open_a_valve() {
    let steam_opcodes: Vec<u8> = SteamOpKind::all().iter().map(|k| k.opcode()).collect();
    assert!(!steam_opcodes.contains(&opcode::WRITE_OUTLET_STATES));

    let steam_token = DiscoveryToken::mint(LinkKind::Steam, LinkPhase::Discovery).unwrap();
    let valve = zone2_encoder();
    let err = valve
        .encode(ValveAddr::new(0x03).unwrap(), &SaturnOp::AddressClear, LinkPhase::Discovery, Some(&steam_token), None)
        .unwrap_err();
    assert!(matches!(err, saturn::EncodeDenied::TokenForWrongLink { .. }));

    let open = valve
        .encode(
            ValveAddr::new(0x03).unwrap(),
            &SaturnOp::SetOutlets { slots: slots(&[1]), flags: PrimaryFlags::captured() },
            LinkPhase::Running,
            None,
            Some(&TestAuthority(ZoneId::Zone2) as &dyn OpenAuthority),
        )
        .unwrap();
    assert_eq!(open.op(), SaturnOpKind::SetOutlets);
}

#[test]
fn a_saturn_frame_is_not_a_dtv_frame_and_the_reverse() {
    let steam = steam_encoder().encode(DevAddr::reference(), &SteamOp::ReadStatus, LinkPhase::ReadyOff, None).unwrap();
    let valve = zone2_encoder()
        .encode(ValveAddr::new(0x03).unwrap(), &SaturnOp::ReadFaults, LinkPhase::Running, None, None)
        .unwrap();

    let mut rx = DtvRxBuffer::new();
    rx.extend(valve.bytes());
    assert_eq!(dtv::decode(&mut rx).unwrap(), None);
    assert_eq!(rx.skipped(), valve.len());

    let mut srx = RxBuffer::new();
    srx.extend(steam.bytes());
    assert_eq!(saturn::decode(&mut srx, &Expectation::capture(MasterAddr::Dtv)).unwrap(), None);
}

#[test]
fn the_steam_path_never_converts_a_celsius_value() {
    let e = steam_encoder();
    let f = e
        .encode(
            DevAddr::reference(),
            &SteamOp::Start {
                temp: SteamSetpoint::try_new(Fx2::from_raw(220)).unwrap(),
                minutes: SteamMinutes::try_new(10).unwrap(),
            },
            LinkPhase::ReadyOff,
            None,
        )
        .unwrap();
    assert_eq!(f.bytes(), &[0x88, 0x03, 0x00, 0x34, 0xDC, 0xFF, 0x0A, 0xE4, 0x55]);

    let temp = SteamSetpoint::try_new(Fx2::from_raw(220)).unwrap();
    let minutes = SteamMinutes::try_new(10).unwrap();
    let surface = [
        SteamOp::Start { temp, minutes },
        SteamOp::SetTemperature { temp, minutes, state: SteamOpState::On },
        SteamOp::SetDuration { temp, minutes, state: SteamOpState::On },
        SteamOp::Stop { temp, minutes },
        SteamOp::ReadStatus,
    ];
    for op in &surface {
        assert!(e.encode(DevAddr::reference(), op, LinkPhase::Running, None).is_ok());
    }
    assert_eq!(surface.len(), 5);
}

#[test]
fn mod_every_encoded_frame_decodes_back_to_its_own_fields() {
    let e = zone2_encoder();
    let t = DiscoveryToken::mint(e.link(), LinkPhase::Discovery).unwrap();
    let ops = [
        SaturnOp::AllOff,
        SaturnOp::SetOutlets { slots: slots(&[1, 3]), flags: PrimaryFlags::captured() },
        SaturnOp::SetTemperature(ValveSetpoint::try_new(Cx2::from_raw(76)).unwrap()),
        SaturnOp::Pause,
        SaturnOp::Resume,
        SaturnOp::ReadFaults,
        SaturnOp::AddressEnquiry,
        SaturnOp::AddressAllocate(ValveAddr::new(0x05).unwrap()),
        SaturnOp::AddressClear,
    ];
    let opens = TestAuthority(ZoneId::Zone2);
    for op in ops {
        let phase = if op.kind().is_address_management() { LinkPhase::Discovery } else { LinkPhase::Running };
        let f = e
            .encode(ValveAddr::new(0x03).unwrap(), &op, phase, Some(&t), Some(&opens as &dyn OpenAuthority))
            .unwrap();

        let mut rx = RxBuffer::new();
        rx.extend(f.bytes());
        let d = saturn::decode(&mut rx, &Expectation::capture(MasterAddr::Dtv)).unwrap().unwrap();
        assert_eq!(d.address, f.dest());
        assert_eq!(d.control, ControlByte(op.kind().control_byte()));
        assert_eq!(d.wire_len(), f.len());
        assert_eq!(d.inferred_direction, Direction::MasterToValve);
        assert!(rx.is_empty());
    }
}

#[test]
fn a_decoded_frame_cannot_become_a_transmittable_one() {
    let mut rx = RxBuffer::new();
    rx.extend(&[0xAA, 0x55, 0x00, 0x02, 0x01, 0x1E, 0xDF]);
    let d = saturn::decode(&mut rx, &Expectation::capture(MasterAddr::Dtv)).unwrap().unwrap();
    assert_eq!(d.data.as_slice(), &[0x1E]);
    assert_eq!(d.control.as_response(), ValveControl::Echo(opcode::READ_FIRMWARE_TYPE));
    assert_eq!(FirmwareTypeId(0x1E).classify(), FirmwareType::Prompt3Port);
}

#[test]
fn the_public_surface_names_the_contradictions() {
    assert_eq!(MasterAddr::all().len(), 2);
    assert_eq!(ValveType::all().len(), 4);
    assert_eq!(denied_control_bytes().len(), 10);
    assert_eq!(SaturnOpKind::all().len(), 20);
    assert_eq!(Timings::documented().tick.as_millis(), 525);
    assert_eq!(saturn::checksum(0x00, 0x02, 0x01, &[0x1E]), 0xDF);
    assert!(saturn::checksum_valid(0x03, 0x87, 0x02, &[0x04, 0x00], 0x70));
    assert_eq!(saturn::MAX_FRAME, 20);
    assert_eq!(usize::from(MAX_DATA_LEN), saturn::MAX_FRAME - FRAME_OVERHEAD);
    assert_eq!(HEADER_LEN, 5);
    assert_eq!(SYNC, [SYNC1, SYNC2]);
    assert_eq!(saturn::BROADCAST, 0x0F);
    assert_eq!((VALVE_ADDR_MIN, VALVE_ADDR_MAX), (0x03, 0x07));
    assert_eq!(disposition(ErrorTable::ValveControl, RawErrorByte(0)).raw().0, 0);
}
