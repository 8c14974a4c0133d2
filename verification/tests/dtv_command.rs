use kdtv::dtv::opcode;
use kdtv::dtv::{
    allowlisted_opcodes, denied_opcodes, direction_of, discovery_opcodes, name_of, DtvDirection,
};

#[test]
fn corrections_item_8_opcodes_are_all_denied() {
    let item_8: [u8; 13] =
        [0x03, 0x13, 0x18, 0x20, 0x21, 0x22, 0x39, 0x70, 0x71, 0x74, 0x80, 0x91, 0xA1];
    for b in item_8 {
        assert!(denied_opcodes().contains(&b), "0x{b:02X} is missing from denied_opcodes()");
        assert!(name_of(b).is_some(), "0x{b:02X} has no documented name");
    }
    assert_eq!(denied_opcodes().len(), 19);
}

#[test]
fn the_three_opcode_sets_are_disjoint() {
    for a in allowlisted_opcodes() {
        assert!(!denied_opcodes().contains(a), "0x{a:02X}");
        assert!(!discovery_opcodes().contains(a), "0x{a:02X}");
    }
    for d in discovery_opcodes() {
        assert!(!denied_opcodes().contains(d), "0x{d:02X}");
    }
    assert_eq!(allowlisted_opcodes().len(), 7);
    assert_eq!(discovery_opcodes().len(), 3);
}

#[test]
fn every_documented_opcode_is_classified() {
    let mut documented = 0;
    for b in 0u8..=255 {
        let Some(_) = name_of(b) else { continue };
        documented += 1;
        let n = usize::from(allowlisted_opcodes().contains(&b))
            + usize::from(discovery_opcodes().contains(&b))
            + usize::from(denied_opcodes().contains(&b));
        assert_eq!(n, 1, "0x{b:02X} is in {n} sets, not 1");
    }
    assert_eq!(documented, 7 + 3 + 19);
}

#[test]
fn discovery_opcodes_carry_their_own_direction() {
    assert_eq!(direction_of(opcode::DEV_ADDRESS_OPP), DtvDirection::MasterToDevice);
    assert_eq!(direction_of(opcode::DEV_ASSIGN_ADDR), DtvDirection::MasterToDevice);
    assert_eq!(direction_of(opcode::DEV_REQUEST_ADDR), DtvDirection::DeviceToMaster);
    assert_ne!(direction_of(opcode::DEV_REQUEST_ADDR), direction_of(opcode::DEV_ASSIGN_ADDR));
}

#[test]
fn the_status_reply_candidates_are_all_device_to_master() {
    for b in [opcode::STATUS_UPDATE, opcode::DEV_ACK, opcode::DEV_NAK, opcode::ERROR] {
        assert_eq!(direction_of(b), DtvDirection::DeviceToMaster, "0x{b:02X}");
    }
    assert_eq!(direction_of(opcode::GET_DEV_STATUS), DtvDirection::MasterToDevice);
}

#[test]
fn settings_update_is_the_one_documented_either_direction_opcode() {
    assert_eq!(direction_of(opcode::SETTINGS_UPDATE), DtvDirection::Indeterminate);
    assert_eq!(direction_of(0x99), DtvDirection::Indeterminate);
    assert_eq!(name_of(0x99), None);
}

#[test]
fn opcodes_carry_their_documented_names() {
    assert_eq!(name_of(opcode::SET_DEV_PARAM), Some("SET_DEV_PARAM"));
    assert_eq!(name_of(opcode::REBOOT), Some("REBOOT"));
}
