//! Error codes, fault bitmaps, and the reason there is no `Healthy`.
//!
//! Two source tables assign incompatible meanings to codes 0, 1, 3, 7, 35, 36,
//! 60 and 71, and the senses of 0 and 1 are exactly inverted. The raw byte is
//! therefore carried through decoding, meaning requires naming a table, and no
//! disposition reachable from a code byte says the valve is healthy.
use vstd::prelude::*;

verus! {

/// The error code byte from a `0x80` response, undecoded.
#[derive(Copy, Clone, PartialEq, Eq, PartialOrd, Ord, Hash, Debug, Structural)]
pub struct RawErrorByte(pub u8);

impl RawErrorByte {
    /// What to do about it, under a named table.
    pub fn disposition(self, table: ErrorTable) -> (d: FaultDisposition)
        ensures
            d == spec_disposition(table, self),
    {
        disposition(table, self)
    }
}

/// Which of the two incompatible tables a caller is applying.
#[derive(Copy, Clone, PartialEq, Eq, Hash, Debug, Structural)]
pub enum ErrorTable {
    /// The 115-entry protocol-and-fault table.
    SaturnProtocol,
    /// The eight-entry device-fault table.
    ValveControl,
}

/// Why a fault latched, coarse enough to be true under either table.
#[derive(Copy, Clone, PartialEq, Eq, Hash, Debug, Structural)]
pub enum LatchReason {
    OverTemperature,
    UnderTemperature,
    TemperatureSensor,
    FlowSensor,
    Motor,
    Relay,
    Eeprom,
    Protocol,
    Communication,
    Calibration,
    Firmware,
    Internal,
    Application,
    /// The table has no entry for this byte; failing closed is the only safe
    /// reading.
    Unclassified,
}

/// What the operator is told about a welded valve.
pub const WELDED_MESSAGE: &'static str = "WELDED (35): the mixing valve is mechanically stuck and no controller command can close it. Remove valve power and close the hot and cold service shutoffs.";

/// What the controller does about an error byte. There is no `Healthy`
/// variant.
#[derive(Copy, Clone, PartialEq, Eq, Debug)]
pub enum FaultDisposition {
    /// The byte does not establish health.
    UnknownHealth { raw: RawErrorByte },
    /// Command every outlet off and latch until an operator clears it.
    AllOffLatch { raw: RawErrorByte, reason: LatchReason },
    /// A fault no controller command can clear.
    Unrecoverable { raw: RawErrorByte, operator_message: &'static str },
}

impl FaultDisposition {
    /// True when this disposition must close the valve.
    pub fn requires_all_off(self) -> (b: bool)
        ensures
            b == !(self is UnknownHealth),
    {
        match self {
            FaultDisposition::UnknownHealth { .. } => false,
            _ => true,
        }
    }

    /// An unrecoverable fault is never retried.
    pub fn is_retryable(self) -> (b: bool)
        ensures
            b == !(self is Unrecoverable),
    {
        match self {
            FaultDisposition::Unrecoverable { .. } => false,
            _ => true,
        }
    }

    /// The byte, always.
    pub fn raw(self) -> (r: RawErrorByte)
        ensures
            r == spec_disposition_raw(self),
    {
        match self {
            FaultDisposition::UnknownHealth { raw } => raw,
            FaultDisposition::AllOffLatch { raw, .. } => raw,
            FaultDisposition::Unrecoverable { raw, .. } => raw,
        }
    }
}

pub open spec fn spec_disposition_raw(d: FaultDisposition) -> RawErrorByte {
    match d {
        FaultDisposition::UnknownHealth { raw } => raw,
        FaultDisposition::AllOffLatch { raw, .. } => raw,
        FaultDisposition::Unrecoverable { raw, .. } => raw,
    }
}

/// The latch reason of a code under the protocol table.
pub open spec fn spec_saturn_protocol_reason(code: u8) -> LatchReason {
    if 2 <= code <= 9 { LatchReason::Protocol }
    else if code == 10 || code == 11 { LatchReason::Eeprom }
    else if code == 12 || code == 13 { LatchReason::TemperatureSensor }
    else if code == 14 || code == 72 || code == 73 { LatchReason::OverTemperature }
    else if code == 15 || code == 71 { LatchReason::UnderTemperature }
    else if 16 <= code <= 18 { LatchReason::FlowSensor }
    else if 19 <= code <= 30 { LatchReason::Motor }
    else if 31 <= code <= 50 { LatchReason::Calibration }
    else if 51 <= code <= 60 { LatchReason::Communication }
    else if 61 <= code <= 70 { LatchReason::Firmware }
    else if 74 <= code <= 100 { LatchReason::Application }
    else if 101 <= code <= 113 { LatchReason::Internal }
    else { LatchReason::Unclassified }
}

/// The latch reason of a code under the device-fault table.
pub open spec fn spec_valve_control_reason(code: u8) -> LatchReason {
    if code == 3 || code == 7 { LatchReason::OverTemperature }
    else if code == 36 { LatchReason::Relay }
    else if code == 60 || code == 71 { LatchReason::Motor }
    else { LatchReason::Unclassified }
}

/// The disposition of an error byte under a named table: codes 0 and 1 never
/// establish health, code 35 under the device table is unrecoverable, and
/// every other byte latches all-off.
pub open spec fn spec_disposition(table: ErrorTable, raw: RawErrorByte) -> FaultDisposition {
    if raw.0 == 0 || raw.0 == 1 {
        FaultDisposition::UnknownHealth { raw }
    } else {
        match table {
            ErrorTable::SaturnProtocol => FaultDisposition::AllOffLatch {
                raw,
                reason: spec_saturn_protocol_reason(raw.0),
            },
            ErrorTable::ValveControl => if raw.0 == 35 {
                FaultDisposition::Unrecoverable { raw, operator_message: WELDED_MESSAGE }
            } else {
                FaultDisposition::AllOffLatch { raw, reason: spec_valve_control_reason(raw.0) }
            },
        }
    }
}

fn saturn_protocol_reason(code: u8) -> (r: LatchReason)
    ensures
        r == spec_saturn_protocol_reason(code),
{
    if 2 <= code && code <= 9 { LatchReason::Protocol }
    else if code == 10 || code == 11 { LatchReason::Eeprom }
    else if code == 12 || code == 13 { LatchReason::TemperatureSensor }
    else if code == 14 || code == 72 || code == 73 { LatchReason::OverTemperature }
    else if code == 15 || code == 71 { LatchReason::UnderTemperature }
    else if 16 <= code && code <= 18 { LatchReason::FlowSensor }
    else if 19 <= code && code <= 30 { LatchReason::Motor }
    else if 31 <= code && code <= 50 { LatchReason::Calibration }
    else if 51 <= code && code <= 60 { LatchReason::Communication }
    else if 61 <= code && code <= 70 { LatchReason::Firmware }
    else if 74 <= code && code <= 100 { LatchReason::Application }
    else if 101 <= code && code <= 113 { LatchReason::Internal }
    else { LatchReason::Unclassified }
}

fn valve_control_reason(code: u8) -> (r: LatchReason)
    ensures
        r == spec_valve_control_reason(code),
{
    if code == 3 || code == 7 { LatchReason::OverTemperature }
    else if code == 36 { LatchReason::Relay }
    else if code == 60 || code == 71 { LatchReason::Motor }
    else { LatchReason::Unclassified }
}

/// The disposition of an error byte under a named table.
pub fn disposition(table: ErrorTable, raw: RawErrorByte) -> (d: FaultDisposition)
    ensures
        d == spec_disposition(table, raw),
{
    if raw.0 == 0 || raw.0 == 1 {
        return FaultDisposition::UnknownHealth { raw };
    }
    let reason = match table {
        ErrorTable::SaturnProtocol => saturn_protocol_reason(raw.0),
        ErrorTable::ValveControl => {
            if raw.0 == 35 {
                return FaultDisposition::Unrecoverable { raw, operator_message: WELDED_MESSAGE };
            }
            valve_control_reason(raw.0)
        },
    };
    FaultDisposition::AllOffLatch { raw, reason }
}

/// **No error byte reports health under either table.** Every disposition
/// keeps its raw byte; only codes 0 and 1 fail to command all-off, and they
/// conclude nothing.
pub proof fn lemma_no_byte_reports_health(table: ErrorTable, raw: RawErrorByte)
    ensures
        spec_disposition_raw(spec_disposition(table, raw)) == raw,
        (spec_disposition(table, raw) is UnknownHealth) <==> raw.0 <= 1,
        spec_disposition(table, raw) is Unrecoverable <==> (table == ErrorTable::ValveControl
            && raw.0 == 35),
{
}

/// The protocol-table reading of an error byte, for logs and capture
/// analysis. Never used to decide whether water may flow.
#[derive(Copy, Clone, PartialEq, Eq, Hash, Debug, Structural)]
pub enum SaturnProtocolCode {
    NoError,
    UnknownCommand,
    InvalidParameter,
    ParameterOutOfRange,
    ChecksumError,
    PacketTooShort,
    PacketTooLong,
    InvalidAddress,
    DeviceBusy,
    NotSupportedInState,
    EepromWriteFailure,
    EepromReadFailure,
    TempSensorOpenCircuit,
    TempSensorShortCircuit,
    OverTemperature,
    UnderTemperature,
    FlowSensorFault,
    NoFlowDetected,
    OverFlowFault,
    MotorStall,
    MotorOvercurrent,
    CalibrationRequired,
    CalibrationInProgress,
    CalibrationFailed,
    CommunicationTimeout,
    BusContention,
    AddressConflict,
    FirmwareUpdateInProgress,
    FirmwareUpdateFailed,
    FirmwareCrcMismatch,
    InletWaterTooCold,
    InletWaterTooHot,
    MixedWaterOverTemperatureSafety,
    OutletBlocked,
    InternalWatchdogReset,
    StackOverflow,
    HeapAllocationFailure,
    AssertionFailure,
    Unclassified,
    /// A range the table marks reserved, carrying the byte and its block.
    Reserved(ReservedBlock, u8),
    /// Outside the table entirely — 115..=255.
    Unknown(u8),
}

/// The reserved blocks the protocol table names but does not enumerate.
#[derive(Copy, Clone, PartialEq, Eq, Hash, Debug, Structural)]
pub enum ReservedBlock {
    MotorActuator,
    Calibration,
    Communication,
    Firmware,
    Application,
    Internal,
}

pub open spec fn spec_saturn_protocol_code(code: u8) -> SaturnProtocolCode {
    if code == 0 { SaturnProtocolCode::NoError }
    else if code == 1 { SaturnProtocolCode::UnknownCommand }
    else if code == 2 { SaturnProtocolCode::InvalidParameter }
    else if code == 3 { SaturnProtocolCode::ParameterOutOfRange }
    else if code == 4 { SaturnProtocolCode::ChecksumError }
    else if code == 5 { SaturnProtocolCode::PacketTooShort }
    else if code == 6 { SaturnProtocolCode::PacketTooLong }
    else if code == 7 { SaturnProtocolCode::InvalidAddress }
    else if code == 8 { SaturnProtocolCode::DeviceBusy }
    else if code == 9 { SaturnProtocolCode::NotSupportedInState }
    else if code == 10 { SaturnProtocolCode::EepromWriteFailure }
    else if code == 11 { SaturnProtocolCode::EepromReadFailure }
    else if code == 12 { SaturnProtocolCode::TempSensorOpenCircuit }
    else if code == 13 { SaturnProtocolCode::TempSensorShortCircuit }
    else if code == 14 { SaturnProtocolCode::OverTemperature }
    else if code == 15 { SaturnProtocolCode::UnderTemperature }
    else if code == 16 { SaturnProtocolCode::FlowSensorFault }
    else if code == 17 { SaturnProtocolCode::NoFlowDetected }
    else if code == 18 { SaturnProtocolCode::OverFlowFault }
    else if code == 19 { SaturnProtocolCode::MotorStall }
    else if code == 20 { SaturnProtocolCode::MotorOvercurrent }
    else if 21 <= code <= 30 { SaturnProtocolCode::Reserved(ReservedBlock::MotorActuator, code) }
    else if code == 31 { SaturnProtocolCode::CalibrationRequired }
    else if code == 32 { SaturnProtocolCode::CalibrationInProgress }
    else if code == 33 { SaturnProtocolCode::CalibrationFailed }
    else if 34 <= code <= 50 { SaturnProtocolCode::Reserved(ReservedBlock::Calibration, code) }
    else if code == 51 { SaturnProtocolCode::CommunicationTimeout }
    else if code == 52 { SaturnProtocolCode::BusContention }
    else if code == 53 { SaturnProtocolCode::AddressConflict }
    else if 54 <= code <= 60 { SaturnProtocolCode::Reserved(ReservedBlock::Communication, code) }
    else if code == 61 { SaturnProtocolCode::FirmwareUpdateInProgress }
    else if code == 62 { SaturnProtocolCode::FirmwareUpdateFailed }
    else if code == 63 { SaturnProtocolCode::FirmwareCrcMismatch }
    else if 64 <= code <= 70 { SaturnProtocolCode::Reserved(ReservedBlock::Firmware, code) }
    else if code == 71 { SaturnProtocolCode::InletWaterTooCold }
    else if code == 72 { SaturnProtocolCode::InletWaterTooHot }
    else if code == 73 { SaturnProtocolCode::MixedWaterOverTemperatureSafety }
    else if code == 74 { SaturnProtocolCode::OutletBlocked }
    else if 75 <= code <= 100 { SaturnProtocolCode::Reserved(ReservedBlock::Application, code) }
    else if code == 101 { SaturnProtocolCode::InternalWatchdogReset }
    else if code == 102 { SaturnProtocolCode::StackOverflow }
    else if code == 103 { SaturnProtocolCode::HeapAllocationFailure }
    else if code == 104 { SaturnProtocolCode::AssertionFailure }
    else if 105 <= code <= 113 { SaturnProtocolCode::Reserved(ReservedBlock::Internal, code) }
    else if code == 114 { SaturnProtocolCode::Unclassified }
    else { SaturnProtocolCode::Unknown(code) }
}

impl SaturnProtocolCode {
    pub fn of(code: u8) -> (c: SaturnProtocolCode)
        ensures
            c == spec_saturn_protocol_code(code),
    {
        match code {
            0 => SaturnProtocolCode::NoError,
            1 => SaturnProtocolCode::UnknownCommand,
            2 => SaturnProtocolCode::InvalidParameter,
            3 => SaturnProtocolCode::ParameterOutOfRange,
            4 => SaturnProtocolCode::ChecksumError,
            5 => SaturnProtocolCode::PacketTooShort,
            6 => SaturnProtocolCode::PacketTooLong,
            7 => SaturnProtocolCode::InvalidAddress,
            8 => SaturnProtocolCode::DeviceBusy,
            9 => SaturnProtocolCode::NotSupportedInState,
            10 => SaturnProtocolCode::EepromWriteFailure,
            11 => SaturnProtocolCode::EepromReadFailure,
            12 => SaturnProtocolCode::TempSensorOpenCircuit,
            13 => SaturnProtocolCode::TempSensorShortCircuit,
            14 => SaturnProtocolCode::OverTemperature,
            15 => SaturnProtocolCode::UnderTemperature,
            16 => SaturnProtocolCode::FlowSensorFault,
            17 => SaturnProtocolCode::NoFlowDetected,
            18 => SaturnProtocolCode::OverFlowFault,
            19 => SaturnProtocolCode::MotorStall,
            20 => SaturnProtocolCode::MotorOvercurrent,
            21..=30 => SaturnProtocolCode::Reserved(ReservedBlock::MotorActuator, code),
            31 => SaturnProtocolCode::CalibrationRequired,
            32 => SaturnProtocolCode::CalibrationInProgress,
            33 => SaturnProtocolCode::CalibrationFailed,
            34..=50 => SaturnProtocolCode::Reserved(ReservedBlock::Calibration, code),
            51 => SaturnProtocolCode::CommunicationTimeout,
            52 => SaturnProtocolCode::BusContention,
            53 => SaturnProtocolCode::AddressConflict,
            54..=60 => SaturnProtocolCode::Reserved(ReservedBlock::Communication, code),
            61 => SaturnProtocolCode::FirmwareUpdateInProgress,
            62 => SaturnProtocolCode::FirmwareUpdateFailed,
            63 => SaturnProtocolCode::FirmwareCrcMismatch,
            64..=70 => SaturnProtocolCode::Reserved(ReservedBlock::Firmware, code),
            71 => SaturnProtocolCode::InletWaterTooCold,
            72 => SaturnProtocolCode::InletWaterTooHot,
            73 => SaturnProtocolCode::MixedWaterOverTemperatureSafety,
            74 => SaturnProtocolCode::OutletBlocked,
            75..=100 => SaturnProtocolCode::Reserved(ReservedBlock::Application, code),
            101 => SaturnProtocolCode::InternalWatchdogReset,
            102 => SaturnProtocolCode::StackOverflow,
            103 => SaturnProtocolCode::HeapAllocationFailure,
            104 => SaturnProtocolCode::AssertionFailure,
            105..=113 => SaturnProtocolCode::Reserved(ReservedBlock::Internal, code),
            114 => SaturnProtocolCode::Unclassified,
            other => SaturnProtocolCode::Unknown(other),
        }
    }
}

/// The device-fault-table reading of the same byte.
#[derive(Copy, Clone, PartialEq, Eq, Hash, Debug, Structural)]
pub enum ValveControlCode {
    Unconfigured,
    ErrorOk,
    OvertempControl,
    OvertempOutlet,
    /// 35. A mechanically stuck mixing valve.
    Welded,
    RelayFault,
    MotorStuck,
    MotorHoming,
    /// Outside the eight-entry table.
    Unknown(u8),
}

pub open spec fn spec_valve_control_code(code: u8) -> ValveControlCode {
    if code == 0 { ValveControlCode::Unconfigured }
    else if code == 1 { ValveControlCode::ErrorOk }
    else if code == 3 { ValveControlCode::OvertempControl }
    else if code == 7 { ValveControlCode::OvertempOutlet }
    else if code == 35 { ValveControlCode::Welded }
    else if code == 36 { ValveControlCode::RelayFault }
    else if code == 60 { ValveControlCode::MotorStuck }
    else if code == 71 { ValveControlCode::MotorHoming }
    else { ValveControlCode::Unknown(code) }
}

impl ValveControlCode {
    pub fn of(code: u8) -> (c: ValveControlCode)
        ensures
            c == spec_valve_control_code(code),
    {
        match code {
            0 => ValveControlCode::Unconfigured,
            1 => ValveControlCode::ErrorOk,
            3 => ValveControlCode::OvertempControl,
            7 => ValveControlCode::OvertempOutlet,
            35 => ValveControlCode::Welded,
            36 => ValveControlCode::RelayFault,
            60 => ValveControlCode::MotorStuck,
            71 => ValveControlCode::MotorHoming,
            other => ValveControlCode::Unknown(other),
        }
    }
}

/// The two-byte fault bitmap from a `0x0F` read. No source gives its bit
/// assignments; any nonzero value fails closed.
#[derive(Copy, Clone, PartialEq, Eq, Hash, Debug, Structural)]
pub struct FaultBitmap(pub u16);

impl FaultBitmap {
    pub fn is_clear(self) -> (b: bool)
        ensures
            b == (self.0 == 0),
    {
        self.0 == 0
    }
}

/// A two-byte response field, carried in both byte orders because no source
/// states the endianness.
#[derive(Copy, Clone, PartialEq, Eq, Hash, Debug)]
pub struct TwoByteField {
    pub raw: [u8; 2],
    pub be: u16,
    pub le: u16,
}

impl TwoByteField {
    pub fn new(raw: [u8; 2]) -> (f: TwoByteField)
        ensures
            f.raw == raw,
            f.be == raw[0] * 256 + raw[1],
            f.le == raw[1] * 256 + raw[0],
    {
        let be: u16 = raw[0] as u16 * 256 + raw[1] as u16;
        let le: u16 = raw[1] as u16 * 256 + raw[0] as u16;
        TwoByteField { raw, be, le }
    }

    /// True when the two readings agree, which they do only for a symmetric
    /// pair.
    pub fn is_ambiguous(self) -> (b: bool)
        ensures
            b == (self.be == self.le),
    {
        self.be == self.le
    }
}

/// The two readings of a two-byte field agree exactly when its two bytes
/// are equal.
pub proof fn lemma_two_byte_field_ambiguous_iff_symmetric(a: u8, b: u8)
    ensures
        (a * 256 + b == b * 256 + a) <==> a == b,
{
}

/// **Under the device table the latch reason is the code's documented
/// meaning.** Every byte other than 0, 1 and the welded code latches all-off
/// and keeps its byte; the over-temperature codes latch as over-temperature,
/// the relay fault as a relay fault, the two motor codes as motor faults, and
/// a byte the table does not list as unclassified. No other byte is read as a
/// relay or a motor fault.
pub proof fn lemma_valve_control_reason_follows_code(raw: RawErrorByte)
    requires
        raw.0 >= 2,
        raw.0 != 35,
    ensures
        spec_disposition(ErrorTable::ValveControl, raw) matches FaultDisposition::AllOffLatch { raw: b, reason }
            && b == raw && ({
            let c = spec_valve_control_code(raw.0);
            &&& (reason == LatchReason::OverTemperature) <==> (c == ValveControlCode::OvertempControl
                || c == ValveControlCode::OvertempOutlet)
            &&& (reason == LatchReason::Relay) <==> c == ValveControlCode::RelayFault
            &&& (reason == LatchReason::Motor) <==> (c == ValveControlCode::MotorStuck
                || c == ValveControlCode::MotorHoming)
            &&& (reason == LatchReason::Unclassified) <==> c is Unknown
        }),
{
}

} // verus!
