//! The control-byte table, direction-aware, and the firmware type IDs.
//! Nothing here can transmit; it exists so a capture can be read.
use vstd::prelude::*;
use crate::saturn::opcode;

verus! {

const DENIED_CONTROL_BYTES: [u8; 10] = [0x81, 0x82, 0x8C, 0x95, 0xA1, 0xA4, 0xC0, 0xF4, 0xF6, 0xF7];

/// The control bytes this system never emits.
pub open spec fn spec_denied_control_bytes() -> Seq<u8> {
    seq![
        opcode::WRITE_FIRMWARE_VERSION,
        opcode::WRITE_FIRMWARE_TYPE,
        opcode::WRITE_TARGET_FLOW_RATE,
        opcode::WRITE_CONFIGURATION,
        opcode::WRITE_GENERIC_OUTLET,
        opcode::WRITE_EXTENDED_CONTROL,
        opcode::WRITE_CALIBRATION,
        opcode::FACTORY_RESET,
        opcode::ENTER_BOOTLOADER,
        opcode::CALIBRATE_FLOW_SENSOR,
    ]
}

/// Control bytes this system will never emit. Each is denied by the absence
/// of a `SaturnOp` variant; this list is what the encoder's contract is checked
/// against.
pub fn denied_control_bytes() -> (v: &'static [u8])
    ensures
        v@ == spec_denied_control_bytes(),
{
    let v: &'static [u8] = &DENIED_CONTROL_BYTES;
    proof {
        assert(v@ =~= spec_denied_control_bytes());
    }
    v
}

/// A control byte as it appeared on the wire, uninterpreted: interpretation
/// needs the direction.
#[derive(Copy, Clone, PartialEq, Eq, PartialOrd, Ord, Hash, Debug, Structural)]
pub struct ControlByte(pub u8);

impl ControlByte {
    /// What this byte means travelling master to valve.
    pub fn as_command(self) -> (m: MasterControl)
        ensures
            m == spec_master_control(self.0),
    {
        MasterControl::of(self.0)
    }

    /// What this byte means travelling valve to master.
    pub fn as_response(self) -> (v: ValveControl)
        ensures
            v == spec_valve_control(self.0),
    {
        ValveControl::of(self.0)
    }
}

/// The master-to-valve reading of a control byte. Decode-only.
#[derive(Copy, Clone, PartialEq, Eq, Hash, Debug, Structural)]
pub enum MasterControl {
    AddressManagement,
    ReadFirmwareVersion,
    ReadFirmwareType,
    ReadOutletStates,
    ReadTemperature,
    ReadFlowRate,
    ReadFaultFlags,
    ReadCalibration,
    ReadSerialNumber,
    ReadConfiguration,
    ReadGenericOutlet,
    ReadExtendedStatus,
    ReadDiagnostics,
    WriteFirmwareVersion,
    WriteFirmwareType,
    WriteOutletStates,
    WriteTargetTemperature,
    WriteTargetFlowRate,
    WriteConfiguration,
    WritePauseState,
    WriteGenericOutlet,
    WriteExtendedControl,
    WriteCalibration,
    FactoryReset,
    EnterBootloader,
    CalibrateFlowSensor,
    /// Not in any documented table. Never mapped to a default.
    Undocumented(u8),
}

/// The documented master-to-valve table.
pub open spec fn spec_master_control(byte: u8) -> MasterControl {
    if byte == opcode::ADDRESS_MANAGEMENT { MasterControl::AddressManagement }
    else if byte == opcode::READ_FIRMWARE_VERSION { MasterControl::ReadFirmwareVersion }
    else if byte == opcode::READ_FIRMWARE_TYPE { MasterControl::ReadFirmwareType }
    else if byte == opcode::READ_OUTLET_STATES { MasterControl::ReadOutletStates }
    else if byte == opcode::READ_TEMPERATURE { MasterControl::ReadTemperature }
    else if byte == opcode::READ_FLOW_RATE { MasterControl::ReadFlowRate }
    else if byte == opcode::READ_FAULT_FLAGS { MasterControl::ReadFaultFlags }
    else if byte == opcode::READ_CALIBRATION { MasterControl::ReadCalibration }
    else if byte == opcode::READ_SERIAL_NUMBER { MasterControl::ReadSerialNumber }
    else if byte == opcode::READ_CONFIGURATION { MasterControl::ReadConfiguration }
    else if byte == opcode::READ_GENERIC_OUTLET { MasterControl::ReadGenericOutlet }
    else if byte == opcode::READ_EXTENDED_STATUS { MasterControl::ReadExtendedStatus }
    else if byte == opcode::READ_DIAGNOSTICS { MasterControl::ReadDiagnostics }
    else if byte == opcode::WRITE_FIRMWARE_VERSION { MasterControl::WriteFirmwareVersion }
    else if byte == opcode::WRITE_FIRMWARE_TYPE { MasterControl::WriteFirmwareType }
    else if byte == opcode::WRITE_OUTLET_STATES { MasterControl::WriteOutletStates }
    else if byte == opcode::WRITE_TARGET_TEMPERATURE { MasterControl::WriteTargetTemperature }
    else if byte == opcode::WRITE_TARGET_FLOW_RATE { MasterControl::WriteTargetFlowRate }
    else if byte == opcode::WRITE_CONFIGURATION { MasterControl::WriteConfiguration }
    else if byte == opcode::WRITE_PAUSE_STATE { MasterControl::WritePauseState }
    else if byte == opcode::WRITE_GENERIC_OUTLET { MasterControl::WriteGenericOutlet }
    else if byte == opcode::WRITE_EXTENDED_CONTROL { MasterControl::WriteExtendedControl }
    else if byte == opcode::WRITE_CALIBRATION { MasterControl::WriteCalibration }
    else if byte == opcode::FACTORY_RESET { MasterControl::FactoryReset }
    else if byte == opcode::ENTER_BOOTLOADER { MasterControl::EnterBootloader }
    else if byte == opcode::CALIBRATE_FLOW_SENSOR { MasterControl::CalibrateFlowSensor }
    else { MasterControl::Undocumented(byte) }
}

impl MasterControl {
    pub fn of(byte: u8) -> (m: MasterControl)
        ensures
            m == spec_master_control(byte),
    {
        match byte {
            opcode::ADDRESS_MANAGEMENT => MasterControl::AddressManagement,
            opcode::READ_FIRMWARE_VERSION => MasterControl::ReadFirmwareVersion,
            opcode::READ_FIRMWARE_TYPE => MasterControl::ReadFirmwareType,
            opcode::READ_OUTLET_STATES => MasterControl::ReadOutletStates,
            opcode::READ_TEMPERATURE => MasterControl::ReadTemperature,
            opcode::READ_FLOW_RATE => MasterControl::ReadFlowRate,
            opcode::READ_FAULT_FLAGS => MasterControl::ReadFaultFlags,
            opcode::READ_CALIBRATION => MasterControl::ReadCalibration,
            opcode::READ_SERIAL_NUMBER => MasterControl::ReadSerialNumber,
            opcode::READ_CONFIGURATION => MasterControl::ReadConfiguration,
            opcode::READ_GENERIC_OUTLET => MasterControl::ReadGenericOutlet,
            opcode::READ_EXTENDED_STATUS => MasterControl::ReadExtendedStatus,
            opcode::READ_DIAGNOSTICS => MasterControl::ReadDiagnostics,
            opcode::WRITE_FIRMWARE_VERSION => MasterControl::WriteFirmwareVersion,
            opcode::WRITE_FIRMWARE_TYPE => MasterControl::WriteFirmwareType,
            opcode::WRITE_OUTLET_STATES => MasterControl::WriteOutletStates,
            opcode::WRITE_TARGET_TEMPERATURE => MasterControl::WriteTargetTemperature,
            opcode::WRITE_TARGET_FLOW_RATE => MasterControl::WriteTargetFlowRate,
            opcode::WRITE_CONFIGURATION => MasterControl::WriteConfiguration,
            opcode::WRITE_PAUSE_STATE => MasterControl::WritePauseState,
            opcode::WRITE_GENERIC_OUTLET => MasterControl::WriteGenericOutlet,
            opcode::WRITE_EXTENDED_CONTROL => MasterControl::WriteExtendedControl,
            opcode::WRITE_CALIBRATION => MasterControl::WriteCalibration,
            opcode::FACTORY_RESET => MasterControl::FactoryReset,
            opcode::ENTER_BOOTLOADER => MasterControl::EnterBootloader,
            opcode::CALIBRATE_FLOW_SENSOR => MasterControl::CalibrateFlowSensor,
            other => MasterControl::Undocumented(other),
        }
    }
}

/// The valve-to-master reading of a control byte: read commands echo the
/// request's control byte, and only `0x80` and `0xFF` are special.
#[derive(Copy, Clone, PartialEq, Eq, Hash, Debug, Structural)]
pub enum ValveControl {
    /// `0x80`, one-byte error code in `DATA`.
    Error,
    /// `0xFF`, no data.
    Nak,
    /// Any other byte, read as the echo of the request's control byte.
    Echo(u8),
}

pub open spec fn spec_valve_control(byte: u8) -> ValveControl {
    if byte == opcode::RESPONSE_ERROR {
        ValveControl::Error
    } else if byte == opcode::RESPONSE_NAK {
        ValveControl::Nak
    } else {
        ValveControl::Echo(byte)
    }
}

impl ValveControl {
    pub fn of(byte: u8) -> (v: ValveControl)
        ensures
            v == spec_valve_control(byte),
    {
        match byte {
            opcode::RESPONSE_ERROR => ValveControl::Error,
            opcode::RESPONSE_NAK => ValveControl::Nak,
            other => ValveControl::Echo(other),
        }
    }
}

/// The firmware type ID a valve reports, as a raw byte. A separate type from
/// [`ControlByte`]: `0xFF` is Prompt 3 Flow Control here and NAK there.
#[derive(Copy, Clone, PartialEq, Eq, PartialOrd, Ord, Hash, Debug, Structural)]
pub struct FirmwareTypeId(pub u8);

impl FirmwareTypeId {
    pub fn classify(self) -> (t: FirmwareType)
        ensures
            t == spec_firmware_type(self.0),
    {
        FirmwareType::of(self.0)
    }
}

/// The five documented valve firmware types. An unrecognised byte is carried,
/// never defaulted.
#[derive(Copy, Clone, PartialEq, Eq, Hash, Debug, Structural)]
pub enum FirmwareType {
    /// `0x00` — no valve, or an uninitialised one.
    Null,
    /// `0x06` — DTV 6-Port.
    Dtv6Port,
    /// `0x17` — Prompt 2-Port.
    Prompt2Port,
    /// `0x1E` — Prompt 3-Port.
    Prompt3Port,
    /// `0xFF` — Prompt 3 with flow rate control.
    Prompt3FlowControl,
    /// Anything else.
    Unknown(u8),
}

pub open spec fn spec_firmware_type(byte: u8) -> FirmwareType {
    if byte == 0x00 { FirmwareType::Null }
    else if byte == 0x06 { FirmwareType::Dtv6Port }
    else if byte == 0x17 { FirmwareType::Prompt2Port }
    else if byte == 0x1E { FirmwareType::Prompt3Port }
    else if byte == 0xFF { FirmwareType::Prompt3FlowControl }
    else { FirmwareType::Unknown(byte) }
}

impl FirmwareType {
    pub fn of(byte: u8) -> (t: FirmwareType)
        ensures
            t == spec_firmware_type(byte),
    {
        match byte {
            0x00 => FirmwareType::Null,
            0x06 => FirmwareType::Dtv6Port,
            0x17 => FirmwareType::Prompt2Port,
            0x1E => FirmwareType::Prompt3Port,
            0xFF => FirmwareType::Prompt3FlowControl,
            other => FirmwareType::Unknown(other),
        }
    }
}

} // verus!
