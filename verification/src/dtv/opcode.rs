//! Every documented DTV+ opcode. A flat enumeration with no read/write bit
//! pattern; `0x30`, `0x31` and `0x40` collide with device identifiers.
use vstd::prelude::*;

verus! {

/// `0x03`. Denied: resets every device address on the bus.
pub const NETWORK_RESET: u8 = 0x03;
/// `0x05`. Master to broadcast: invites unaddressed devices to respond.
pub const DEV_ADDRESS_OPP: u8 = 0x05;
/// `0x06`. Device to master, payload = the device identifier.
pub const DEV_REQUEST_ADDR: u8 = 0x06;
/// `0x07`. Master to the unaddressed device, payload = the assigned address.
pub const DEV_ASSIGN_ADDR: u8 = 0x07;
/// `0x13`. Denied: sets an external authentication key.
pub const SET_EXT_KEY: u8 = 0x13;
/// `0x18`. Denied: changes the UART baud rate.
pub const CHANGE_BAUD: u8 = 0x18;
/// `0x40`. Denied: identify. Numerically the amplifier's device identifier.
pub const ID_DEV: u8 = 0x40;
/// `0x20`. Denied.
pub const SET_FILE_TRANSFER: u8 = 0x20;
/// `0x21`. Denied.
pub const FLUSH_MD5: u8 = 0x21;
/// `0x22`. Denied.
pub const FILE_COMPLETE: u8 = 0x22;
/// `0x70`. Denied.
pub const WRITE_DATA: u8 = 0x70;
/// `0x71`. Denied.
pub const READ_DATA: u8 = 0x71;
/// `0x72`. Denied. Device to master.
pub const GET_DATA_BUFFER: u8 = 0x72;
/// `0x74`. Denied.
pub const WRITE_LARGE_DATA: u8 = 0x74;
/// `0x30`. Master to device: request current status.
pub const GET_DEV_STATUS: u8 = 0x30;
/// `0x31`. Device to master.
pub const STATUS_UPDATE: u8 = 0x31;
/// `0x32`. Either direction. Denied.
pub const SETTINGS_UPDATE: u8 = 0x32;
/// `0x33`. Denied: reads an arbitrary parameter.
pub const GET_DEV_PARAM: u8 = 0x33;
/// `0x34`. Master to device: writes the steam parameter block.
pub const SET_DEV_PARAM: u8 = 0x34;
/// `0x35`. Device to master: positive acknowledgement.
pub const DEV_ACK: u8 = 0x35;
/// `0x36`. Device to master, payload = an error byte.
pub const DEV_NAK: u8 = 0x36;
/// `0x37`. Device to master: error report with a code.
pub const ERROR: u8 = 0x37;
/// `0x38`. Denied.
pub const GET_FIRMWARE_VERSION: u8 = 0x38;
/// `0x39`. Denied: firmware update mode.
pub const FIRMWARE_UPDATE: u8 = 0x39;
/// `0x3A`. Master to device: clears stored fault flags.
pub const CLEAR_FAULT_FLAGS: u8 = 0x3A;
/// `0x80`. Denied: reboots the device.
pub const REBOOT: u8 = 0x80;
/// `0x90`. Denied.
pub const GET_TRACK_STR: u8 = 0x90;
/// `0x91`. Denied.
pub const GET_DIR_ENTRIES: u8 = 0x91;
/// `0xA1`. Denied: activates the bootloader.
pub const ACTIVATE_BOOT: u8 = 0xA1;

} // verus!
