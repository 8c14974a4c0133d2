use kdtv::dtv::{
    ParamCodec, SteamErrorFlags, SteamOpState, SteamStateByte, SteamStatus, SteamStatusError,
    SteamUiStatus, FIRMWARE_MIN_SETPOINT_FX2, SET_PARAM_PAYLOAD_LEN, SET_PARAM_STATE_OFFSET,
    STATUS_PAYLOAD_LEN, STATUS_STATE_OFFSET,
};
use kdtv::units::SteamSetpoint;

#[test]
fn req_controller_design_deny_08_the_encodable_operation_states_are_off_and_on_only() {
    assert_eq!(SteamOpState::all().len(), 2);
    assert_eq!(SteamOpState::Off.wire(), 0x00);
    assert_eq!(SteamOpState::On.wire(), 0xFF);
    for s in SteamOpState::all() {
        assert_ne!(s.wire(), SteamOpState::POWER_CLEAN_BYTE);
    }
    assert_eq!(SteamOpState::default(), SteamOpState::Off);
}

#[test]
fn every_operation_state_byte_decodes_to_exactly_one_state() {
    for b in 0u8..=255 {
        let s = SteamStateByte::decode(b);
        assert_eq!(s.raw(), b, "0x{b:02X} did not round-trip");
        match b {
            0x00 => assert_eq!(s, SteamStateByte::Off),
            0xFF => assert_eq!(s, SteamStateByte::On),
            0xCC => assert_eq!(s, SteamStateByte::PowerClean),
            other => assert_eq!(s, SteamStateByte::Invalid(other)),
        }
    }
    assert!(SteamStateByte::On.is_producing());
    assert!(SteamStateByte::PowerClean.is_producing());
    assert!(!SteamStateByte::Off.is_producing());
    assert!(!SteamStateByte::Invalid(0x42).is_producing());
}

#[test]
fn the_error_bitmask_decodes_bit_by_bit() {
    assert_eq!(SteamErrorFlags::THERMISTOR, 0x04);
    assert_eq!(SteamErrorFlags::COMMUNICATION, 0x08);
    assert_eq!(SteamErrorFlags::OVERTEMPERATURE, 0x20);
    assert_eq!(SteamErrorFlags::SAFETY_CIRCUIT, 0x40);

    let both = SteamErrorFlags::decode(0x24);
    assert!(both.contains(SteamErrorFlags::THERMISTOR));
    assert!(both.contains(SteamErrorFlags::OVERTEMPERATURE));
    assert!(!both.contains(SteamErrorFlags::COMMUNICATION));
    assert!(!both.contains(SteamErrorFlags::SAFETY_CIRCUIT));

    let all = SteamErrorFlags::decode(0x6C);
    for bit in [
        SteamErrorFlags::THERMISTOR,
        SteamErrorFlags::COMMUNICATION,
        SteamErrorFlags::OVERTEMPERATURE,
        SteamErrorFlags::SAFETY_CIRCUIT,
    ] {
        assert!(all.contains(bit), "{bit:?}");
    }
    assert_eq!(all.reserved_bits_set(), 0);

    assert!(!SteamErrorFlags::decode(0x00).is_fault());
    assert_eq!(SteamErrorFlags::default().bits(), 0);
}

#[test]
fn req_steam_generator_steam_14_undocumented_error_bits_are_preserved_and_are_faults() {
    for b in [0x01u8, 0x02, 0x10, 0x80] {
        let f = SteamErrorFlags::decode(b);
        assert_eq!(f.bits(), b, "0x{b:02X} lost its bit");
        assert!(f.is_fault(), "0x{b:02X} decoded as clean");
        assert_eq!(f.reserved_bits_set(), b);
        assert!(!f.requires_immediate_off(), "0x{b:02X}");
    }
    assert_eq!(SteamErrorFlags::RESERVED_BITS, 0x93);
    for b in 0u8..=255 {
        assert_eq!(SteamErrorFlags::decode(b).is_fault(), b != 0);
        assert_eq!(SteamErrorFlags::decode(b).bits(), b);
    }
}

#[test]
fn overtemperature_safety_and_thermistor_demand_an_immediate_off() {
    for b in [0x04u8, 0x20, 0x40] {
        assert!(SteamErrorFlags::decode(b).requires_immediate_off(), "{b:02X}");
    }
    assert!(SteamErrorFlags::decode(0x08).is_fault());
    assert!(!SteamErrorFlags::decode(0x08).requires_immediate_off());
}

#[test]
fn the_derived_status_payload_decodes_field_by_field() {
    let s = SteamStatus::decode(&[0xDC, 0xDC, 0x00, 0x00, 0x00, 0x00]).unwrap();
    assert_eq!(s.actual.raw(), 220);
    assert_eq!(s.desired.raw(), 220);
    assert_eq!(s.desired, SteamSetpoint::factory_default());
    assert_eq!(s.state, SteamStateByte::Off);
    assert_eq!((s.timer_minutes, s.timer_seconds), (0, 0));
    assert!(!s.errors.is_fault());
    assert_eq!(s.ui_status(), SteamUiStatus::Off);
    assert!(s.setpoint_is_in_policy());
    assert_eq!(s.payload(), [0xDC, 0xDC, 0x00, 0x00, 0x00, 0x00]);

    // Fx2 is half-degrees Fahrenheit: 220 is 110.0 F.
    assert!((f32::from(s.desired.raw()) / 2.0 - 110.0).abs() < f32::EPSILON);
}

#[test]
fn a_faulted_running_status_decodes_and_reports_error() {
    let s = SteamStatus::decode(&[0xD8, 0xDC, 0xFF, 0x09, 0x1E, 0x20]).unwrap();
    assert_eq!(s.state, SteamStateByte::On);
    assert_eq!((s.timer_minutes, s.timer_seconds), (9, 30));
    assert!(s.errors.contains(SteamErrorFlags::OVERTEMPERATURE));
    assert!(s.errors.requires_immediate_off());
    assert_eq!(s.ui_status(), SteamUiStatus::Error);
}

#[test]
fn a_status_payload_of_the_wrong_length_is_rejected_not_read_positionally() {
    for len in 0usize..=8 {
        let payload = vec![0x00u8; len];
        let out = SteamStatus::decode(&payload);
        if len == STATUS_PAYLOAD_LEN {
            assert!(out.is_ok(), "{len} bytes");
        } else {
            assert_eq!(
                out,
                Err(SteamStatusError::WrongLength { found: len, expected: STATUS_PAYLOAD_LEN })
            );
        }
    }
    let five = [0xDC, 0xDC, 0xFF, 0x09, 0x20];
    assert!(SteamStatus::decode(&five).is_err());
}

#[test]
fn an_observed_power_clean_reports_pc_active() {
    let s = SteamStatus::decode(&[0xE6, 0xE6, 0xCC, 0x2D, 0x00, 0x00]).unwrap();
    assert_eq!(s.state, SteamStateByte::PowerClean);
    assert_eq!(s.ui_status(), SteamUiStatus::PowerCleanActive);
    let faulted = SteamStatus::decode(&[0xE6, 0xE6, 0xCC, 0x2D, 0x00, 0x20]).unwrap();
    assert_eq!(faulted.ui_status(), SteamUiStatus::PowerCleanActive);
}

#[test]
fn an_unmodelled_state_byte_reports_invalid_rather_than_a_guess() {
    for b in [0x01u8, 0x02, 0x42, 0xAA, 0xFE] {
        let s = SteamStatus::decode(&[0xDC, 0xDC, b, 0x00, 0x00, 0x00]).unwrap();
        assert_eq!(s.ui_status(), SteamUiStatus::Invalid, "0x{b:02X}");
    }
}

#[test]
fn ui_status_codes_are_exactly_zero_through_eight() {
    let codes: Vec<u8> = SteamUiStatus::all().iter().map(|s| s.code()).collect();
    assert_eq!(codes, (0u8..=8).collect::<Vec<_>>());
}

#[test]
fn req_steam_adapter_limit_04_an_out_of_policy_setpoint_decodes_and_is_flagged() {
    let low = SteamStatus::decode(&[0x96, FIRMWARE_MIN_SETPOINT_FX2, 0x00, 0, 0, 0]).unwrap();
    assert_eq!(low.desired.raw(), 150);
    assert!(!low.setpoint_is_in_policy());
    let floor = SteamStatus::decode(&[0xB4, 0xB4, 0x00, 0, 0, 0]).unwrap();
    assert_eq!(floor.desired, SteamSetpoint::floor());
    assert!(floor.setpoint_is_in_policy());
    let odd = SteamStatus::decode(&[0xDD, 0xDD, 0x00, 0, 0, 0]).unwrap();
    assert!(!odd.setpoint_is_in_policy());
}

#[test]
fn the_timer_fields_are_carried_not_interpreted() {
    let a = SteamStatus::decode(&[0xDC, 0xDC, 0xFF, 0x05, 0x0A, 0x00]).unwrap();
    let b = SteamStatus::decode(&[0xDC, 0xDC, 0xFF, 0x05, 0x2C, 0x00]).unwrap();
    assert!(b.timer_seconds > a.timer_seconds);
    assert_eq!(a.timer_minutes, b.timer_minutes);
}

#[test]
fn the_param_codec_is_configuration_with_a_documented_default() {
    assert_eq!(ParamCodec::default(), ParamCodec::SteamBlock);
    assert_eq!(SET_PARAM_PAYLOAD_LEN, 3);
    assert_eq!(SET_PARAM_STATE_OFFSET, 1);
    assert_eq!(STATUS_PAYLOAD_LEN, 6);
    assert_eq!(STATUS_STATE_OFFSET, 2);
}

#[test]
fn every_status_payload_round_trips_through_decode() {
    for state in [0x00u8, 0xFF, 0xCC, 0x42] {
        let p = [0xB4, 0xC8, state, 0x0C, 0x3B, 0x93];
        assert_eq!(SteamStatus::decode(&p).unwrap().payload(), p);
    }
}
