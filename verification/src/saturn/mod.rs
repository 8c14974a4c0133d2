//! The Saturn valve protocol: framing, control bytes, outlet tables, fault
//! tables, timings, the decoder and the allowlist encoder.

pub mod frame;
pub mod opcode;
pub mod control;
pub mod faults;
pub mod outlets;
pub mod timing;
pub mod encode;
pub mod decode;

pub use control::{
    ControlByte, FirmwareType, FirmwareTypeId, MasterControl, ValveControl, denied_control_bytes,
};
pub use decode::{
    DecodeError, DecodedFrame, Expectation, MAX_DECODED_DATA, RX_CAPACITY, RxBuffer, decode,
};
pub use encode::{
    DiscoveryToken, EncodeDenied, Encoder, LinkPhase, SaturnFrame, SaturnOp, SaturnOpKind,
    expected_response_len,
};
pub use faults::{
    ErrorTable, FaultBitmap, FaultDisposition, LatchReason, RawErrorByte, ReservedBlock,
    SaturnProtocolCode, TwoByteField, ValveControlCode, disposition,
};
pub use frame::{
    AddrError, BROADCAST, Direction, FRAME_OVERHEAD, HEADER_LEN, MAX_DATA_LEN, MAX_FRAME,
    MasterAddr, SYNC, SYNC1, SYNC2, VALVE_ADDR_MAX, VALVE_ADDR_MIN, ValveAddr, checksum,
    checksum_valid,
};
pub use outlets::{
    OutletBitmap, OutletError, OutletMapping, OutletTable, PrimaryFlags, ValveStateBits, ValveType,
};
pub use timing::{BAUD, DATA_BITS, STOP_BITS, Timings};
