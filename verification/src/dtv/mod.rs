//! The DTV+ protocol and the steam device profile: byte-stuffed framing,
//! addressing, the decoder, the allowlist encoder, status decoding and
//! timings.

pub mod addr;
pub mod opcode;
pub mod command;
pub mod frame;
pub mod steam;
pub mod timing;
pub mod encode;
pub mod decode;

pub use addr::{
    BROADCAST, DEV_ADDR_MAX, DEV_ADDR_MIN, DevAddr, DeviceId, DtvAddrError, MASTER, UNASSIGNED,
};
pub use command::{allowlisted_opcodes, denied_opcodes, direction_of, discovery_opcodes, name_of};
pub use decode::{
    DecodedDtv, DtvDecodeError, DtvRxBuffer, RX_CAPACITY, StatusCarrier, StatusDecodeError, decode,
    decode_frame,
};
pub use encode::{
    DiscoveryStep, DtvEncodeDenied, DtvFrame, SteamEncoder, SteamOp, SteamOpKind, state_byte_offset,
};
pub use frame::{
    BAUD, DATA_BITS, DtvDirection, EOF, ESC, FrameTooLong, LOGICAL_OVERHEAD, MAX_FRAME,
    MAX_LOGICAL, MAX_PAYLOAD, RESERVED, SOF, STOP_BITS, UnescapeError, UnescapeReport, checksum,
    checksum_valid, escape_into, escaped_len, is_reserved, logical_sums_to_zero, unescape_into,
};
pub use steam::{
    FIRMWARE_MIN_SETPOINT_FX2, ParamCodec, SET_PARAM_PAYLOAD_LEN, SET_PARAM_STATE_OFFSET,
    STATUS_PAYLOAD_LEN, STATUS_STATE_OFFSET, SteamErrorFlags, SteamOpState, SteamStateByte,
    SteamStatus, SteamStatusError, SteamUiStatus,
};
pub use timing::{DtvTimings, TimingError};
