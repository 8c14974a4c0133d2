//! Every documented Saturn control byte, as named constants. Write opcodes are
//! spelled out, never derived from read opcodes: `read | 0x80` breaks for
//! calibration, generic outlet and extended status.
use vstd::prelude::*;

verus! {

/// `0x3A`. The subcommand is `DATA[0]`.
pub const ADDRESS_MANAGEMENT: u8 = 0x3A;
/// `DATA[0]` = `0x01`: discover unaddressed valves.
pub const SUB_ENQUIRY: u8 = 0x01;
/// `DATA[0]` = `0x02`: allocate an address.
pub const SUB_ALLOCATE: u8 = 0x02;
/// `DATA[0]` = `0x03`: clear all assigned addresses.
pub const SUB_CLEAR: u8 = 0x03;

pub const READ_FIRMWARE_VERSION: u8 = 0x01;
pub const READ_FIRMWARE_TYPE: u8 = 0x02;
pub const READ_OUTLET_STATES: u8 = 0x07;
pub const READ_TEMPERATURE: u8 = 0x0B;
pub const READ_FLOW_RATE: u8 = 0x0C;
pub const READ_FAULT_FLAGS: u8 = 0x0F;
pub const READ_CALIBRATION: u8 = 0x10;
pub const READ_SERIAL_NUMBER: u8 = 0x11;
pub const READ_CONFIGURATION: u8 = 0x15;
pub const READ_GENERIC_OUTLET: u8 = 0x16;
pub const READ_EXTENDED_STATUS: u8 = 0x40;
pub const READ_DIAGNOSTICS: u8 = 0x54;

pub const WRITE_FIRMWARE_VERSION: u8 = 0x81;
pub const WRITE_FIRMWARE_TYPE: u8 = 0x82;
pub const WRITE_OUTLET_STATES: u8 = 0x87;
pub const WRITE_TARGET_TEMPERATURE: u8 = 0x8B;
pub const WRITE_TARGET_FLOW_RATE: u8 = 0x8C;
pub const WRITE_CONFIGURATION: u8 = 0x95;
pub const WRITE_PAUSE_STATE: u8 = 0x99;
pub const WRITE_GENERIC_OUTLET: u8 = 0xA1;
pub const WRITE_EXTENDED_CONTROL: u8 = 0xA4;
pub const WRITE_CALIBRATION: u8 = 0xC0;

pub const FACTORY_RESET: u8 = 0xF4;
pub const ENTER_BOOTLOADER: u8 = 0xF6;
pub const CALIBRATE_FLOW_SENSOR: u8 = 0xF7;

/// `0x01` device to master: an ACK. Master to device it is
/// read-firmware-version; resolved by direction.
pub const RESPONSE_ACK: u8 = 0x01;
/// `0x80`. Carries a one-byte error code in `DATA`.
pub const RESPONSE_ERROR: u8 = 0x80;
/// `0xFF`. Command rejected, no data.
pub const RESPONSE_NAK: u8 = 0xFF;

} // verus!
