//! The DTV+ command set: which opcodes this master recognises, which are
//! discovery-only, which it will never emit, and which way each one travels.
use vstd::prelude::*;
use crate::dtv::opcode;
use crate::dtv::frame::DtvDirection;

verus! {

const ALLOWLISTED: [u8; 7] = [
    opcode::GET_DEV_STATUS,
    opcode::STATUS_UPDATE,
    opcode::SET_DEV_PARAM,
    opcode::DEV_ACK,
    opcode::DEV_NAK,
    opcode::ERROR,
    opcode::CLEAR_FAULT_FLAGS,
];

const DISCOVERY: [u8; 3] = [opcode::DEV_ADDRESS_OPP, opcode::DEV_REQUEST_ADDR, opcode::DEV_ASSIGN_ADDR];

const DENIED: [u8; 19] = [
    opcode::NETWORK_RESET,
    opcode::SET_EXT_KEY,
    opcode::CHANGE_BAUD,
    opcode::SET_FILE_TRANSFER,
    opcode::FLUSH_MD5,
    opcode::FILE_COMPLETE,
    opcode::SETTINGS_UPDATE,
    opcode::GET_DEV_PARAM,
    opcode::GET_FIRMWARE_VERSION,
    opcode::FIRMWARE_UPDATE,
    opcode::ID_DEV,
    opcode::WRITE_DATA,
    opcode::READ_DATA,
    opcode::GET_DATA_BUFFER,
    opcode::WRITE_LARGE_DATA,
    opcode::REBOOT,
    opcode::GET_TRACK_STR,
    opcode::GET_DIR_ENTRIES,
    opcode::ACTIVATE_BOOT,
];

pub open spec fn spec_allowlisted_opcodes() -> Seq<u8> {
    seq![0x30u8, 0x31, 0x34, 0x35, 0x36, 0x37, 0x3A]
}

pub open spec fn spec_discovery_opcodes() -> Seq<u8> {
    seq![0x05u8, 0x06, 0x07]
}

pub open spec fn spec_denied_opcodes() -> Seq<u8> {
    seq![
        0x03u8, 0x13, 0x18, 0x20, 0x21, 0x22, 0x32, 0x33, 0x38, 0x39, 0x40, 0x70, 0x71, 0x72,
        0x74, 0x80, 0x90, 0x91, 0xA1,
    ]
}

/// The opcodes this master recognises: the ones it sends and the ones the
/// steam device answers with. Not permission to transmit.
pub fn allowlisted_opcodes() -> (v: &'static [u8])
    ensures
        v@ == spec_allowlisted_opcodes(),
{
    let v: &'static [u8] = &ALLOWLISTED;
    proof { assert(v@ =~= spec_allowlisted_opcodes()); }
    v
}

/// The three discovery opcodes, permitted only in discovery with water off.
pub fn discovery_opcodes() -> (v: &'static [u8])
    ensures
        v@ == spec_discovery_opcodes(),
{
    let v: &'static [u8] = &DISCOVERY;
    proof { assert(v@ =~= spec_discovery_opcodes()); }
    v
}

/// Opcodes this system never emits. The denial is the absence of a variant;
/// this list is what the proofs check the encoder against.
pub fn denied_opcodes() -> (v: &'static [u8])
    ensures
        v@ == spec_denied_opcodes(),
{
    let v: &'static [u8] = &DENIED;
    proof { assert(v@ =~= spec_denied_opcodes()); }
    v
}

/// Which side of the bus an opcode can come from. `Indeterminate` for
/// `SETTINGS_UPDATE` and for every opcode no source lists.
pub open spec fn spec_direction_of(cmd: u8) -> DtvDirection {
    match cmd {
        0x03 | 0x05 | 0x07 | 0x13 | 0x18 | 0x20 | 0x21 | 0x22 | 0x30 | 0x33 | 0x34 | 0x38 | 0x39
        | 0x3A | 0x40 | 0x70 | 0x71 | 0x74 | 0x80 | 0x90 | 0x91 | 0xA1 => DtvDirection::MasterToDevice,
        0x06 | 0x31 | 0x35 | 0x36 | 0x37 | 0x72 => DtvDirection::DeviceToMaster,
        _ => DtvDirection::Indeterminate,
    }
}

pub fn direction_of(cmd: u8) -> (d: DtvDirection)
    ensures
        d == spec_direction_of(cmd),
{
    match cmd {
        0x03 | 0x05 | 0x07 | 0x13 | 0x18 | 0x20 | 0x21 | 0x22 | 0x30 | 0x33 | 0x34 | 0x38 | 0x39
        | 0x3A | 0x40 | 0x70 | 0x71 | 0x74 | 0x80 | 0x90 | 0x91 | 0xA1 => DtvDirection::MasterToDevice,
        0x06 | 0x31 | 0x35 | 0x36 | 0x37 | 0x72 => DtvDirection::DeviceToMaster,
        _ => DtvDirection::Indeterminate,
    }
}

/// The documented name of an opcode.
pub open spec fn spec_name_of(cmd: u8) -> Option<&'static str> {
    match cmd {
        0x03 => Some("NETWORK_RESET"),
        0x05 => Some("DEV_ADDRESS_OPP"),
        0x06 => Some("DEV_REQUEST_ADDR"),
        0x07 => Some("DEV_ASSIGN_ADDR"),
        0x13 => Some("SET_EXT_KEY"),
        0x18 => Some("CHANGE_BAUD"),
        0x20 => Some("SET_FILE_TRANSFER"),
        0x21 => Some("FLUSH_MD5"),
        0x22 => Some("FILE_COMPLETE"),
        0x30 => Some("GET_DEV_STATUS"),
        0x31 => Some("STATUS_UPDATE"),
        0x32 => Some("SETTINGS_UPDATE"),
        0x33 => Some("GET_DEV_PARAM"),
        0x34 => Some("SET_DEV_PARAM"),
        0x35 => Some("DEV_ACK"),
        0x36 => Some("DEV_NAK"),
        0x37 => Some("ERROR"),
        0x38 => Some("GET_FIRMWARE_VERSION"),
        0x39 => Some("FIRMWARE_UPDATE"),
        0x3A => Some("CLEAR_FAULT_FLAGS"),
        0x40 => Some("ID_DEV"),
        0x70 => Some("WRITE_DATA"),
        0x71 => Some("READ_DATA"),
        0x72 => Some("GET_DATA_BUFFER"),
        0x74 => Some("WRITE_LARGE_DATA"),
        0x80 => Some("REBOOT"),
        0x90 => Some("GET_TRACK_STR"),
        0x91 => Some("GET_DIR_ENTRIES"),
        0xA1 => Some("ACTIVATE_BOOT"),
        _ => None,
    }
}

/// The documented name of an opcode, or `None` for a byte no source lists.
pub fn name_of(cmd: u8) -> (n: Option<&'static str>)
    ensures
        n == spec_name_of(cmd),
{
    match cmd {
        0x03 => Some("NETWORK_RESET"),
        0x05 => Some("DEV_ADDRESS_OPP"),
        0x06 => Some("DEV_REQUEST_ADDR"),
        0x07 => Some("DEV_ASSIGN_ADDR"),
        0x13 => Some("SET_EXT_KEY"),
        0x18 => Some("CHANGE_BAUD"),
        0x20 => Some("SET_FILE_TRANSFER"),
        0x21 => Some("FLUSH_MD5"),
        0x22 => Some("FILE_COMPLETE"),
        0x30 => Some("GET_DEV_STATUS"),
        0x31 => Some("STATUS_UPDATE"),
        0x32 => Some("SETTINGS_UPDATE"),
        0x33 => Some("GET_DEV_PARAM"),
        0x34 => Some("SET_DEV_PARAM"),
        0x35 => Some("DEV_ACK"),
        0x36 => Some("DEV_NAK"),
        0x37 => Some("ERROR"),
        0x38 => Some("GET_FIRMWARE_VERSION"),
        0x39 => Some("FIRMWARE_UPDATE"),
        0x3A => Some("CLEAR_FAULT_FLAGS"),
        0x40 => Some("ID_DEV"),
        0x70 => Some("WRITE_DATA"),
        0x71 => Some("READ_DATA"),
        0x72 => Some("GET_DATA_BUFFER"),
        0x74 => Some("WRITE_LARGE_DATA"),
        0x80 => Some("REBOOT"),
        0x90 => Some("GET_TRACK_STR"),
        0x91 => Some("GET_DIR_ENTRIES"),
        0xA1 => Some("ACTIVATE_BOOT"),
        _ => None,
    }
}

/// The three lists do not overlap: nothing denied is recognised, and nothing
/// recognised is a discovery opcode.
pub proof fn lemma_opcode_lists_disjoint()
    ensures
        forall|b: u8| spec_denied_opcodes().contains(b) ==> !spec_allowlisted_opcodes().contains(b),
        forall|b: u8| spec_denied_opcodes().contains(b) ==> !spec_discovery_opcodes().contains(b),
        forall|b: u8| spec_allowlisted_opcodes().contains(b) ==> !spec_discovery_opcodes().contains(b),
{
    assert forall|b: u8| spec_denied_opcodes().contains(b) implies !spec_allowlisted_opcodes().contains(b) by {
        let i = choose|i: int| 0 <= i < spec_denied_opcodes().len() && spec_denied_opcodes()[i] == b;
        assert forall|j: int| 0 <= j < 7 implies spec_allowlisted_opcodes()[j] != b by {}
    }
    assert forall|b: u8| spec_denied_opcodes().contains(b) implies !spec_discovery_opcodes().contains(b) by {
        let i = choose|i: int| 0 <= i < spec_denied_opcodes().len() && spec_denied_opcodes()[i] == b;
        assert forall|j: int| 0 <= j < 3 implies spec_discovery_opcodes()[j] != b by {}
    }
    assert forall|b: u8| spec_allowlisted_opcodes().contains(b) implies !spec_discovery_opcodes().contains(b) by {
        let i = choose|i: int| 0 <= i < 7 && spec_allowlisted_opcodes()[i] == b;
        assert forall|j: int| 0 <= j < 3 implies spec_discovery_opcodes()[j] != b by {}
    }
}

} // verus!
