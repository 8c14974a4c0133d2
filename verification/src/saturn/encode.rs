//! The allowlist encoder. [`SaturnOp`] is the complete set of frames this
//! system can put on a valve bus; a denied operation has no variant and cannot
//! be spelled.
use vstd::prelude::*;
use crate::saturn::opcode;
use crate::saturn::control::spec_denied_control_bytes;
use crate::saturn::frame::{
    BROADCAST, MAX_DATA, MAX_DATA_LEN, MAX_FRAME, MasterAddr, SYNC1, SYNC2, ValveAddr, bytes_of_14, bytes_of_20,
    checksum, spec_checksum, vec14_new, vec14_push, vec14_slice, vec20_new, vec20_push, vec20_slice,
};
use crate::saturn::outlets::{
    OutletBitmap, OutletError, OutletTable, PrimaryFlags, ValveStateBits, ValveType, PRIMARY_UNDEFINED_BITS,
    spec_bitmap_upto,
};
use crate::units::{LinkKind, OpenAuthority, Slot, SlotSet, ValveSetpoint, ZoneId};
use crate::gate::TransmitAuthority;

verus! {

/// Where a link is in its lifecycle. Gates which operations may be encoded.
#[derive(Copy, Clone, PartialEq, Eq, Hash, Debug, Structural)]
pub enum LinkPhase {
    /// The port is open but nothing is established. Reads only.
    Booting,
    /// Address discovery, with water off.
    Discovery,
    /// Addressed, idle, no outlet open.
    ReadyOff,
    /// At least one outlet open.
    Running,
    /// Outputs held.
    Paused,
    /// Latched. All-off and reads only.
    Faulted,
}

/// Authority to encode an address-management frame. Not `Clone`; the only
/// constructor is [`DiscoveryToken::mint`], which requires
/// [`LinkPhase::Discovery`].
#[derive(Debug)]
pub struct DiscoveryToken {
    link: LinkKind,
}

impl DiscoveryToken {
    pub closed spec fn spec_link(self) -> LinkKind {
        self.link
    }

    /// The only constructor. `None` in every phase but discovery.
    pub fn mint(link: LinkKind, phase: LinkPhase) -> (t: Option<DiscoveryToken>)
        ensures
            t is Some <==> phase == LinkPhase::Discovery,
            t matches Some(tok) ==> tok.spec_link() == link,
    {
        if phase == LinkPhase::Discovery {
            Some(DiscoveryToken { link })
        } else {
            None
        }
    }

    pub fn link(&self) -> (l: LinkKind)
        ensures
            l == self.spec_link(),
    {
        self.link
    }
}

/// **The allowlist.** Every frame this system can put on a valve bus.
#[derive(Clone, PartialEq, Eq, Debug)]
pub enum SaturnOp {
    /// Close every outlet. Never gated on anything.
    AllOff,
    /// Open the named configuration slots.
    SetOutlets { slots: SlotSet, flags: PrimaryFlags },
    /// Write the target temperature; the clamp is in the type.
    SetTemperature(ValveSetpoint),
    Pause,
    Resume,
    ReadFirmwareVersion,
    ReadFirmwareType,
    ReadOutlets,
    ReadTemperature,
    ReadFlow,
    ReadFaults,
    /// `0x10`. Read-only; the `0xC0` write is denied.
    ReadCalibration,
    /// `0x15`. Read-only; the `0x95` write is denied.
    ReadConfiguration,
    ReadSerialNumber,
    ReadGenericOutlets,
    ReadExtendedStatus,
    ReadDiagnostics,
    /// Broadcast enquiry for unaddressed valves. Discovery only.
    AddressEnquiry,
    /// Allocate an address, by broadcast. Discovery only.
    AddressAllocate(ValveAddr),
    /// Clear every assigned address. Broadcast. Discovery only.
    AddressClear,
}

/// A [`SaturnOp`] without its payload.
#[derive(Copy, Clone, PartialEq, Eq, PartialOrd, Ord, Hash, Debug, Structural)]
pub enum SaturnOpKind {
    AllOff,
    SetOutlets,
    SetTemperature,
    Pause,
    Resume,
    ReadFirmwareVersion,
    ReadFirmwareType,
    ReadOutlets,
    ReadTemperature,
    ReadFlow,
    ReadFaults,
    ReadCalibration,
    ReadConfiguration,
    ReadSerialNumber,
    ReadGenericOutlets,
    ReadExtendedStatus,
    ReadDiagnostics,
    AddressEnquiry,
    AddressAllocate,
    AddressClear,
}

pub open spec fn spec_op_kind(op: SaturnOp) -> SaturnOpKind {
    match op {
        SaturnOp::AllOff => SaturnOpKind::AllOff,
        SaturnOp::SetOutlets { .. } => SaturnOpKind::SetOutlets,
        SaturnOp::SetTemperature(_) => SaturnOpKind::SetTemperature,
        SaturnOp::Pause => SaturnOpKind::Pause,
        SaturnOp::Resume => SaturnOpKind::Resume,
        SaturnOp::ReadFirmwareVersion => SaturnOpKind::ReadFirmwareVersion,
        SaturnOp::ReadFirmwareType => SaturnOpKind::ReadFirmwareType,
        SaturnOp::ReadOutlets => SaturnOpKind::ReadOutlets,
        SaturnOp::ReadTemperature => SaturnOpKind::ReadTemperature,
        SaturnOp::ReadFlow => SaturnOpKind::ReadFlow,
        SaturnOp::ReadFaults => SaturnOpKind::ReadFaults,
        SaturnOp::ReadCalibration => SaturnOpKind::ReadCalibration,
        SaturnOp::ReadConfiguration => SaturnOpKind::ReadConfiguration,
        SaturnOp::ReadSerialNumber => SaturnOpKind::ReadSerialNumber,
        SaturnOp::ReadGenericOutlets => SaturnOpKind::ReadGenericOutlets,
        SaturnOp::ReadExtendedStatus => SaturnOpKind::ReadExtendedStatus,
        SaturnOp::ReadDiagnostics => SaturnOpKind::ReadDiagnostics,
        SaturnOp::AddressEnquiry => SaturnOpKind::AddressEnquiry,
        SaturnOp::AddressAllocate(_) => SaturnOpKind::AddressAllocate,
        SaturnOp::AddressClear => SaturnOpKind::AddressClear,
    }
}

impl SaturnOp {
    /// Which kind this is, without its payload.
    pub fn kind(&self) -> (k: SaturnOpKind)
        ensures
            k == spec_op_kind(*self),
    {
        match self {
            SaturnOp::AllOff => SaturnOpKind::AllOff,
            SaturnOp::SetOutlets { .. } => SaturnOpKind::SetOutlets,
            SaturnOp::SetTemperature(_) => SaturnOpKind::SetTemperature,
            SaturnOp::Pause => SaturnOpKind::Pause,
            SaturnOp::Resume => SaturnOpKind::Resume,
            SaturnOp::ReadFirmwareVersion => SaturnOpKind::ReadFirmwareVersion,
            SaturnOp::ReadFirmwareType => SaturnOpKind::ReadFirmwareType,
            SaturnOp::ReadOutlets => SaturnOpKind::ReadOutlets,
            SaturnOp::ReadTemperature => SaturnOpKind::ReadTemperature,
            SaturnOp::ReadFlow => SaturnOpKind::ReadFlow,
            SaturnOp::ReadFaults => SaturnOpKind::ReadFaults,
            SaturnOp::ReadCalibration => SaturnOpKind::ReadCalibration,
            SaturnOp::ReadConfiguration => SaturnOpKind::ReadConfiguration,
            SaturnOp::ReadSerialNumber => SaturnOpKind::ReadSerialNumber,
            SaturnOp::ReadGenericOutlets => SaturnOpKind::ReadGenericOutlets,
            SaturnOp::ReadExtendedStatus => SaturnOpKind::ReadExtendedStatus,
            SaturnOp::ReadDiagnostics => SaturnOpKind::ReadDiagnostics,
            SaturnOp::AddressEnquiry => SaturnOpKind::AddressEnquiry,
            SaturnOp::AddressAllocate(_) => SaturnOpKind::AddressAllocate,
            SaturnOp::AddressClear => SaturnOpKind::AddressClear,
        }
    }
}

const ALL_SATURN_KINDS: [SaturnOpKind; 20] = [
    SaturnOpKind::AllOff,
    SaturnOpKind::SetOutlets,
    SaturnOpKind::SetTemperature,
    SaturnOpKind::Pause,
    SaturnOpKind::Resume,
    SaturnOpKind::ReadFirmwareVersion,
    SaturnOpKind::ReadFirmwareType,
    SaturnOpKind::ReadOutlets,
    SaturnOpKind::ReadTemperature,
    SaturnOpKind::ReadFlow,
    SaturnOpKind::ReadFaults,
    SaturnOpKind::ReadCalibration,
    SaturnOpKind::ReadConfiguration,
    SaturnOpKind::ReadSerialNumber,
    SaturnOpKind::ReadGenericOutlets,
    SaturnOpKind::ReadExtendedStatus,
    SaturnOpKind::ReadDiagnostics,
    SaturnOpKind::AddressEnquiry,
    SaturnOpKind::AddressAllocate,
    SaturnOpKind::AddressClear,
];

/// The explicit opcode table. Not `read | 0x80`.
pub open spec fn spec_control_byte(k: SaturnOpKind) -> u8 {
    match k {
        SaturnOpKind::AllOff | SaturnOpKind::SetOutlets => opcode::WRITE_OUTLET_STATES,
        SaturnOpKind::SetTemperature => opcode::WRITE_TARGET_TEMPERATURE,
        SaturnOpKind::Pause | SaturnOpKind::Resume => opcode::WRITE_PAUSE_STATE,
        SaturnOpKind::ReadFirmwareVersion => opcode::READ_FIRMWARE_VERSION,
        SaturnOpKind::ReadFirmwareType => opcode::READ_FIRMWARE_TYPE,
        SaturnOpKind::ReadOutlets => opcode::READ_OUTLET_STATES,
        SaturnOpKind::ReadTemperature => opcode::READ_TEMPERATURE,
        SaturnOpKind::ReadFlow => opcode::READ_FLOW_RATE,
        SaturnOpKind::ReadFaults => opcode::READ_FAULT_FLAGS,
        SaturnOpKind::ReadCalibration => opcode::READ_CALIBRATION,
        SaturnOpKind::ReadConfiguration => opcode::READ_CONFIGURATION,
        SaturnOpKind::ReadSerialNumber => opcode::READ_SERIAL_NUMBER,
        SaturnOpKind::ReadGenericOutlets => opcode::READ_GENERIC_OUTLET,
        SaturnOpKind::ReadExtendedStatus => opcode::READ_EXTENDED_STATUS,
        SaturnOpKind::ReadDiagnostics => opcode::READ_DIAGNOSTICS,
        SaturnOpKind::AddressEnquiry | SaturnOpKind::AddressAllocate | SaturnOpKind::AddressClear => opcode::ADDRESS_MANAGEMENT,
    }
}

pub open spec fn spec_is_address_management(k: SaturnOpKind) -> bool {
    k == SaturnOpKind::AddressEnquiry || k == SaturnOpKind::AddressAllocate || k == SaturnOpKind::AddressClear
}

pub open spec fn spec_is_write(k: SaturnOpKind) -> bool {
    k == SaturnOpKind::AllOff || k == SaturnOpKind::SetOutlets || k == SaturnOpKind::SetTemperature
        || k == SaturnOpKind::Pause || k == SaturnOpKind::Resume
}

/// Every operation in the allowlist, as kinds.
pub open spec fn spec_all_saturn_kinds() -> Seq<SaturnOpKind> {
    seq![
        SaturnOpKind::AllOff, SaturnOpKind::SetOutlets, SaturnOpKind::SetTemperature,
        SaturnOpKind::Pause, SaturnOpKind::Resume, SaturnOpKind::ReadFirmwareVersion,
        SaturnOpKind::ReadFirmwareType, SaturnOpKind::ReadOutlets, SaturnOpKind::ReadTemperature,
        SaturnOpKind::ReadFlow, SaturnOpKind::ReadFaults, SaturnOpKind::ReadCalibration,
        SaturnOpKind::ReadConfiguration, SaturnOpKind::ReadSerialNumber,
        SaturnOpKind::ReadGenericOutlets, SaturnOpKind::ReadExtendedStatus,
        SaturnOpKind::ReadDiagnostics, SaturnOpKind::AddressEnquiry,
        SaturnOpKind::AddressAllocate, SaturnOpKind::AddressClear,
    ]
}

impl SaturnOpKind {
    /// The complete allowlist, as kinds.
    pub fn all() -> (v: &'static [SaturnOpKind])
        ensures
            v@ == spec_all_saturn_kinds(),
    {
        let v: &'static [SaturnOpKind] = &ALL_SATURN_KINDS;
        proof { assert(v@ =~= spec_all_saturn_kinds()); }
        v
    }

    pub fn control_byte(self) -> (b: u8)
        ensures
            b == spec_control_byte(self),
    {
        match self {
            SaturnOpKind::AllOff | SaturnOpKind::SetOutlets => opcode::WRITE_OUTLET_STATES,
            SaturnOpKind::SetTemperature => opcode::WRITE_TARGET_TEMPERATURE,
            SaturnOpKind::Pause | SaturnOpKind::Resume => opcode::WRITE_PAUSE_STATE,
            SaturnOpKind::ReadFirmwareVersion => opcode::READ_FIRMWARE_VERSION,
            SaturnOpKind::ReadFirmwareType => opcode::READ_FIRMWARE_TYPE,
            SaturnOpKind::ReadOutlets => opcode::READ_OUTLET_STATES,
            SaturnOpKind::ReadTemperature => opcode::READ_TEMPERATURE,
            SaturnOpKind::ReadFlow => opcode::READ_FLOW_RATE,
            SaturnOpKind::ReadFaults => opcode::READ_FAULT_FLAGS,
            SaturnOpKind::ReadCalibration => opcode::READ_CALIBRATION,
            SaturnOpKind::ReadConfiguration => opcode::READ_CONFIGURATION,
            SaturnOpKind::ReadSerialNumber => opcode::READ_SERIAL_NUMBER,
            SaturnOpKind::ReadGenericOutlets => opcode::READ_GENERIC_OUTLET,
            SaturnOpKind::ReadExtendedStatus => opcode::READ_EXTENDED_STATUS,
            SaturnOpKind::ReadDiagnostics => opcode::READ_DIAGNOSTICS,
            SaturnOpKind::AddressEnquiry | SaturnOpKind::AddressAllocate | SaturnOpKind::AddressClear => opcode::ADDRESS_MANAGEMENT,
        }
    }

    /// True for the three operations that require a [`DiscoveryToken`].
    pub fn is_address_management(self) -> (b: bool)
        ensures
            b == spec_is_address_management(self),
    {
        match self {
            SaturnOpKind::AddressEnquiry | SaturnOpKind::AddressAllocate | SaturnOpKind::AddressClear => true,
            _ => false,
        }
    }

    /// True for the operations that can open water. `AllOff` is not one.
    pub fn can_open_water(self) -> (b: bool)
        ensures
            b == (self == SaturnOpKind::SetOutlets),
    {
        match self {
            SaturnOpKind::SetOutlets => true,
            _ => false,
        }
    }

    /// True when the operation changes valve state at all.
    pub fn is_write(self) -> (b: bool)
        ensures
            b == spec_is_write(self),
    {
        match self {
            SaturnOpKind::AllOff | SaturnOpKind::SetOutlets | SaturnOpKind::SetTemperature
            | SaturnOpKind::Pause | SaturnOpKind::Resume => true,
            _ => false,
        }
    }
}

/// The total on-wire length of the response an operation expects, or `None`
/// for the broadcast clear, which has no documented reply.
pub open spec fn spec_expected_response_len(op: SaturnOpKind) -> Option<u8> {
    match op {
        SaturnOpKind::AllOff | SaturnOpKind::SetOutlets | SaturnOpKind::SetTemperature
        | SaturnOpKind::Pause | SaturnOpKind::Resume | SaturnOpKind::AddressAllocate => Some(6),
        SaturnOpKind::ReadFirmwareVersion => Some(9),
        SaturnOpKind::ReadFirmwareType => Some(7),
        SaturnOpKind::ReadOutlets | SaturnOpKind::ReadTemperature | SaturnOpKind::ReadFlow
        | SaturnOpKind::ReadFaults => Some(8),
        SaturnOpKind::ReadCalibration | SaturnOpKind::ReadExtendedStatus => Some(14),
        SaturnOpKind::ReadConfiguration | SaturnOpKind::ReadSerialNumber => Some(12),
        SaturnOpKind::ReadGenericOutlets => Some(17),
        SaturnOpKind::ReadDiagnostics => Some(10),
        SaturnOpKind::AddressEnquiry => Some(11),
        SaturnOpKind::AddressClear => None,
    }
}

pub fn expected_response_len(op: SaturnOpKind) -> (r: Option<u8>)
    ensures
        r == spec_expected_response_len(op),
        r matches Some(n) ==> 6 <= n <= 20,
{
    match op {
        SaturnOpKind::AllOff | SaturnOpKind::SetOutlets | SaturnOpKind::SetTemperature
        | SaturnOpKind::Pause | SaturnOpKind::Resume | SaturnOpKind::AddressAllocate => Some(6),
        SaturnOpKind::ReadFirmwareVersion => Some(9),
        SaturnOpKind::ReadFirmwareType => Some(7),
        SaturnOpKind::ReadOutlets | SaturnOpKind::ReadTemperature | SaturnOpKind::ReadFlow
        | SaturnOpKind::ReadFaults => Some(8),
        SaturnOpKind::ReadCalibration | SaturnOpKind::ReadExtendedStatus => Some(14),
        SaturnOpKind::ReadConfiguration | SaturnOpKind::ReadSerialNumber => Some(12),
        SaturnOpKind::ReadGenericOutlets => Some(17),
        SaturnOpKind::ReadDiagnostics => Some(10),
        SaturnOpKind::AddressEnquiry => Some(11),
        SaturnOpKind::AddressClear => None,
    }
}


/// The bytes of a frame: sync pair, address, control, `DATA_LEN`, the data,
/// and the checksum over address through data.
pub open spec fn spec_frame_bytes(dest: u8, control: u8, data: Seq<u8>) -> Seq<u8> {
    seq![SYNC1, SYNC2, dest, control, data.len() as u8] + data
        + seq![spec_checksum(dest, control, data.len() as u8, data)]
}

/// A frame the encoder produced, and the only thing a link transmits. Private
/// fields and no public constructor: every value came out of
/// [`Encoder::encode`].
#[derive(Clone, PartialEq, Eq, Debug)]
pub struct SaturnFrame {
    bytes: heapless::Vec<u8, MAX_FRAME>,
    op: SaturnOpKind,
    dest: u8,
}

impl SaturnFrame {
    pub closed spec fn spec_bytes(self) -> Seq<u8> {
        bytes_of_20(self.bytes)
    }

    pub closed spec fn spec_op(self) -> SaturnOpKind {
        self.op
    }

    pub closed spec fn spec_dest(self) -> u8 {
        self.dest
    }

    pub fn bytes(&self) -> (b: &[u8])
        ensures
            b@ == self.spec_bytes(),
    {
        vec20_slice(&self.bytes)
    }

    pub fn op(&self) -> (k: SaturnOpKind)
        ensures
            k == self.spec_op(),
    {
        self.op
    }

    /// The `ADDRESS` field: a valve address, or [`BROADCAST`].
    pub fn dest(&self) -> (d: u8)
        ensures
            d == self.spec_dest(),
    {
        self.dest
    }

    pub fn len(&self) -> (n: usize)
        ensures
            n == self.spec_bytes().len(),
    {
        vec20_slice(&self.bytes).len()
    }

    pub fn is_empty(&self) -> (b: bool)
        ensures
            b == (self.spec_bytes().len() == 0),
    {
        vec20_slice(&self.bytes).len() == 0
    }

    /// The control byte, at offset 3.
    pub fn control_byte(&self) -> (b: u8)
        ensures
            b == spec_control_byte(self.spec_op()),
    {
        self.op.control_byte()
    }
}

/// Why an encode was refused. None of these is a denied operation: a denied
/// operation has no variant and cannot reach the encoder.
#[derive(Clone, PartialEq, Eq, Debug)]
pub enum EncodeDenied {
    /// Address management outside [`LinkPhase::Discovery`], or without a token.
    AddressOpOutsideDiscovery { op: SaturnOpKind, phase: LinkPhase },
    /// A token minted for another link.
    TokenForWrongLink { token: LinkKind, encoder: LinkKind },
    /// A write in a phase that does not accept writes.
    WriteOutsideOperationalPhase { op: SaturnOpKind, phase: LinkPhase },
    /// An outlet-opening write with no authority to open water.
    NoOpenAuthority,
    /// An authority that names another zone than this encoder's link.
    AuthorityForOtherZone { authorised: ZoneId, encoder: LinkKind },
    /// A slot this valve has not configured: refused, never dropped.
    UnconfiguredOutlet(Slot),
    /// Any other refusal of the outlet table.
    OutletTable(OutletError),
    /// A bitmap built for a different valve family.
    ValveTypeMismatch { bitmap: ValveType, encoder: ValveType },
    /// A flags byte with an undefined bit set.
    UndefinedFlagBits(u8),
    /// A payload that does not fit a legal frame. No allowlisted operation
    /// produces one; every payload is at most two bytes.
    PayloadLength { op: SaturnOpKind, len: usize, max: u8 },
}

/// The guards on an allowed operation, in the order the encoder checks them:
/// the discovery token, the phase, and for an outlet-opening write the zone
/// the caller's authority names. `None` when every guard passes.
pub open spec fn spec_guard(
    link: LinkKind,
    kind: SaturnOpKind,
    phase: LinkPhase,
    token: Option<LinkKind>,
    authorised: Option<ZoneId>,
) -> Option<EncodeDenied> {
    if spec_is_address_management(kind) {
        match token {
            None => Some(EncodeDenied::AddressOpOutsideDiscovery { op: kind, phase }),
            Some(t) => if t != link {
                Some(EncodeDenied::TokenForWrongLink { token: t, encoder: link })
            } else if phase != LinkPhase::Discovery {
                Some(EncodeDenied::AddressOpOutsideDiscovery { op: kind, phase })
            } else {
                None
            },
        }
    } else if spec_is_write(kind) && kind != SaturnOpKind::AllOff && (phase == LinkPhase::Booting
        || phase == LinkPhase::Discovery) {
        Some(EncodeDenied::WriteOutsideOperationalPhase { op: kind, phase })
    } else if kind == SaturnOpKind::SetOutlets {
        match authorised {
            None => Some(EncodeDenied::NoOpenAuthority),
            Some(z) => if link != LinkKind::Zone(z) {
                Some(EncodeDenied::AuthorityForOtherZone { authorised: z, encoder: link })
            } else {
                None
            },
        }
    } else {
        None
    }
}

/// The destination and `DATA` field of an operation.
pub open spec fn spec_payload(t: OutletTable, target: ValveAddr, op: SaturnOp) -> Result<(u8, Seq<u8>), EncodeDenied> {
    match op {
        SaturnOp::AllOff => Ok((target.spec_get(), seq![0u8, 0u8])),
        SaturnOp::SetOutlets { slots, flags } => if flags.spec_bits() & PRIMARY_UNDEFINED_BITS != 0 {
            Err(EncodeDenied::UndefinedFlagBits(flags.spec_bits()))
        } else {
            match spec_bitmap_upto(t, slots, 6) {
                Ok(b) => Ok((target.spec_get(), seq![b, flags.spec_bits()])),
                Err(OutletError::UnconfiguredSlot(s)) => Err(EncodeDenied::UnconfiguredOutlet(s)),
                Err(e) => Err(EncodeDenied::OutletTable(e)),
            }
        },
        SaturnOp::SetTemperature(sp) => Ok((target.spec_get(), seq![sp.spec_wire()])),
        SaturnOp::Pause => Ok((target.spec_get(), seq![0x02u8])),
        SaturnOp::Resume => Ok((target.spec_get(), seq![0x00u8])),
        SaturnOp::AddressEnquiry => Ok((BROADCAST, seq![opcode::SUB_ENQUIRY])),
        SaturnOp::AddressAllocate(a) => Ok((BROADCAST, seq![opcode::SUB_ALLOCATE, a.spec_get()])),
        SaturnOp::AddressClear => Ok((BROADCAST, seq![opcode::SUB_CLEAR])),
        _ => Ok((target.spec_get(), Seq::empty())),
    }
}

/// What an encode produces: the guard's refusal if any, else the payload's.
pub open spec fn spec_encode(
    e: Encoder,
    target: ValveAddr,
    op: SaturnOp,
    phase: LinkPhase,
    token: Option<LinkKind>,
    authorised: Option<ZoneId>,
) -> Result<(u8, Seq<u8>), EncodeDenied> {
    match spec_guard(e.spec_link(), spec_op_kind(op), phase, token, authorised) {
        Some(d) => Err(d),
        None => spec_payload(e.spec_outlets(), target, op),
    }
}

/// The link a token was minted for, if there is one.
pub open spec fn token_link(disco: Option<&DiscoveryToken>) -> Option<LinkKind> {
    match disco {
        Some(t) => Some(t.spec_link()),
        None => None,
    }
}

/// Builds Saturn frames for one link, under the authority it was built with.
#[derive(Debug)]
pub struct Encoder {
    authority: TransmitAuthority,
    link: LinkKind,
    master: MasterAddr,
    outlets: OutletTable,
}

impl Encoder {
    pub closed spec fn spec_link(self) -> LinkKind {
        self.link
    }

    pub closed spec fn spec_master(self) -> MasterAddr {
        self.master
    }

    pub closed spec fn spec_outlets(self) -> OutletTable {
        self.outlets
    }

    pub closed spec fn spec_authority(self) -> TransmitAuthority {
        self.authority
    }

    /// No authority, no encoder.
    pub fn new(authority: &TransmitAuthority, link: LinkKind, master: MasterAddr, outlets: OutletTable) -> (e: Encoder)
        ensures
            e.spec_link() == link,
            e.spec_master() == master,
            e.spec_outlets() == outlets,
            e.spec_authority().same_grant(*authority),
    {
        Encoder { authority: authority.duplicate(), link, master, outlets }
    }

    /// The authority this encoder was built under.
    pub fn authority(&self) -> (a: &TransmitAuthority)
        ensures
            *a == self.spec_authority(),
    {
        &self.authority
    }

    pub fn link(&self) -> (l: LinkKind)
        ensures
            l == self.spec_link(),
    {
        self.link
    }

    /// The master identity this link speaks as.
    pub fn master(&self) -> (m: MasterAddr)
        ensures
            m == self.spec_master(),
    {
        self.master
    }

    pub fn outlets(&self) -> (t: &OutletTable)
        ensures
            *t == self.spec_outlets(),
    {
        &self.outlets
    }

    pub fn valve(&self) -> (v: ValveType)
        ensures
            v == self.spec_outlets().spec_valve(),
    {
        self.outlets.valve()
    }

    /// Encodes one allowlisted operation. The address operations go to
    /// [`BROADCAST`] whatever `target` says. Only an outlet-opening write asks
    /// `open` which zone it authorises; what that answer is decides nothing
    /// else.
    pub fn encode(
        &self,
        target: ValveAddr,
        op: &SaturnOp,
        phase: LinkPhase,
        disco: Option<&DiscoveryToken>,
        open: Option<&dyn OpenAuthority>,
    ) -> (r: Result<SaturnFrame, EncodeDenied>)
        ensures
            exists|z: Option<ZoneId>| (z is Some <==> open is Some) && spec_encode_result(
                *self, target, *op, phase, token_link(disco), z, r),
            spec_op_kind(*op) != SaturnOpKind::SetOutlets || open is None ==> spec_encode_result(
                *self, target, *op, phase, token_link(disco), None, r),
            open matches Some(a) ==> (spec_op_kind(*op) == SaturnOpKind::SetOutlets ==> spec_encode_result(
                *self, target, *op, phase, token_link(disco), Some(a.spec_authorised_zone()), r)),
    {
        let authorised: Option<ZoneId> = match open {
            Some(a) => if op.kind().can_open_water() {
                Some(a.authorised_zone())
            } else {
                None
            },
            None => None,
        };
        let r = self.encode_authorised(target, op, phase, disco, authorised);
        proof {
            if open is Some && spec_op_kind(*op) != SaturnOpKind::SetOutlets {
                let w = Some(ZoneId::Zone1);
                assert(spec_guard(self.spec_link(), spec_op_kind(*op), phase, token_link(disco), w)
                    == spec_guard(self.spec_link(), spec_op_kind(*op), phase, token_link(disco), None));
                assert(spec_encode_result(*self, target, *op, phase, token_link(disco), w, r));
            }
        }
        r
    }

    /// The encoder proper, given the zone the caller's authority names (or
    /// `None` for no authority).
    pub fn encode_authorised(
        &self,
        target: ValveAddr,
        op: &SaturnOp,
        phase: LinkPhase,
        disco: Option<&DiscoveryToken>,
        authorised: Option<ZoneId>,
    ) -> (r: Result<SaturnFrame, EncodeDenied>)
        ensures
            spec_encode_result(*self, target, *op, phase, token_link(disco), authorised, r),
    {
        let kind = op.kind();
        if kind.is_address_management() {
            match disco {
                None => {
                    return Err(EncodeDenied::AddressOpOutsideDiscovery { op: kind, phase });
                },
                Some(token) => {
                    if token.link() != self.link {
                        return Err(EncodeDenied::TokenForWrongLink { token: token.link(), encoder: self.link });
                    }
                    if phase != LinkPhase::Discovery {
                        return Err(EncodeDenied::AddressOpOutsideDiscovery { op: kind, phase });
                    }
                },
            }
        }
        if kind.is_write() && kind != SaturnOpKind::AllOff && (phase == LinkPhase::Booting
            || phase == LinkPhase::Discovery) {
            return Err(EncodeDenied::WriteOutsideOperationalPhase { op: kind, phase });
        }
        if kind.can_open_water() {
            match authorised {
                None => {
                    return Err(EncodeDenied::NoOpenAuthority);
                },
                Some(z) => {
                    if self.link != LinkKind::Zone(z) {
                        return Err(EncodeDenied::AuthorityForOtherZone { authorised: z, encoder: self.link });
                    }
                },
            }
        }
        let (dest, data) = self.payload(target, op)?;
        assemble(dest, kind, vec14_slice(&data))
    }

    /// The destination and `DATA` field of an operation.
    fn payload(&self, target: ValveAddr, op: &SaturnOp) -> (r: Result<(u8, heapless::Vec<u8, MAX_DATA>), EncodeDenied>)
        ensures
            match spec_payload(self.spec_outlets(), target, *op) {
                Ok((d, data)) => r matches Ok((d2, v)) && d2 == d && bytes_of_14(v) == data,
                Err(e) => r matches Err(e2) && e2 == e,
            },
    {
        let mut data: heapless::Vec<u8, MAX_DATA> = vec14_new();
        let kind = op.kind();
        let dest = match op {
            SaturnOp::AllOff => {
                push(&mut data, kind, 0x00)?;
                push(&mut data, kind, PrimaryFlags::captured().bits())?;
                target.get()
            },
            SaturnOp::SetOutlets { slots, flags } => {
                if flags.bits() & PrimaryFlags::UNDEFINED_BITS != 0 {
                    return Err(EncodeDenied::UndefinedFlagBits(flags.bits()));
                }
                let bitmap: OutletBitmap = match self.outlets.bitmap(*slots) {
                    Ok(b) => b,
                    Err(OutletError::UnconfiguredSlot(s)) => {
                        return Err(EncodeDenied::UnconfiguredOutlet(s));
                    },
                    Err(other) => {
                        return Err(EncodeDenied::OutletTable(other));
                    },
                };
                if bitmap.valve() != self.valve() {
                    return Err(EncodeDenied::ValveTypeMismatch { bitmap: bitmap.valve(), encoder: self.valve() });
                }
                push(&mut data, kind, bitmap.bits())?;
                push(&mut data, kind, flags.bits())?;
                target.get()
            },
            SaturnOp::SetTemperature(sp) => {
                push(&mut data, kind, sp.wire().raw())?;
                target.get()
            },
            SaturnOp::Pause => {
                push(&mut data, kind, 0x02)?;
                target.get()
            },
            SaturnOp::Resume => {
                push(&mut data, kind, 0x00)?;
                target.get()
            },
            SaturnOp::AddressEnquiry => {
                push(&mut data, kind, opcode::SUB_ENQUIRY)?;
                BROADCAST
            },
            SaturnOp::AddressAllocate(a) => {
                push(&mut data, kind, opcode::SUB_ALLOCATE)?;
                push(&mut data, kind, a.get())?;
                BROADCAST
            },
            SaturnOp::AddressClear => {
                push(&mut data, kind, opcode::SUB_CLEAR)?;
                BROADCAST
            },
            _ => target.get(),
        };
        proof {
            assert(bytes_of_14(data) =~= spec_payload(self.spec_outlets(), target, *op)->Ok_0.1);
        }
        Ok((dest, data))
    }
}

/// Appends one `DATA` byte; a full field is refused as a payload that does
/// not fit.
fn push(data: &mut heapless::Vec<u8, MAX_DATA>, op: SaturnOpKind, b: u8) -> (r: Result<(), EncodeDenied>)
    ensures
        r is Ok <==> bytes_of_14(*old(data)).len() < MAX_DATA,
        r is Ok ==> bytes_of_14(*final(data)) == bytes_of_14(*old(data)).push(b),
        r matches Err(e) ==> e == (EncodeDenied::PayloadLength { op, len: (MAX_DATA + 1) as usize, max: MAX_DATA_LEN }),
{
    match vec14_push(data, b) {
        Ok(()) => Ok(()),
        Err(_) => Err(EncodeDenied::PayloadLength { op, len: MAX_DATA + 1, max: MAX_DATA_LEN }),
    }
}

/// The encode contract, over the frame or the refusal.
pub open spec fn spec_encode_result(
    e: Encoder,
    target: ValveAddr,
    op: SaturnOp,
    phase: LinkPhase,
    token: Option<LinkKind>,
    authorised: Option<ZoneId>,
    r: Result<SaturnFrame, EncodeDenied>,
) -> bool {
    match spec_encode(e, target, op, phase, token, authorised) {
        Ok((dest, data)) => r matches Ok(f) && f.spec_bytes() == spec_frame_bytes(
            dest,
            spec_control_byte(spec_op_kind(op)),
            data,
        ) && f.spec_op() == spec_op_kind(op) && f.spec_dest() == dest,
        Err(d) => r == Err::<SaturnFrame, EncodeDenied>(d),
    }
}

/// Lays out a frame around its payload; a payload longer than a legal
/// `DATA_LEN` is refused.
fn assemble(dest: u8, kind: SaturnOpKind, data: &[u8]) -> (r: Result<SaturnFrame, EncodeDenied>)
    ensures
        data@.len() <= MAX_DATA_LEN ==> (r matches Ok(f) && f.spec_bytes() == spec_frame_bytes(
            dest,
            spec_control_byte(kind),
            data@,
        ) && f.spec_op() == kind && f.spec_dest() == dest),
        data@.len() > MAX_DATA_LEN ==> r == Err::<SaturnFrame, EncodeDenied>(
            EncodeDenied::PayloadLength { op: kind, len: data@.len() as usize, max: MAX_DATA_LEN },
        ),
{
    if data.len() > MAX_DATA_LEN as usize {
        return Err(EncodeDenied::PayloadLength { op: kind, len: data.len(), max: MAX_DATA_LEN });
    }
    let data_len: u8 = data.len() as u8;
    let control = kind.control_byte();
    let mut bytes: heapless::Vec<u8, MAX_FRAME> = vec20_new();
    let _ = vec20_push(&mut bytes, SYNC1);
    let _ = vec20_push(&mut bytes, SYNC2);
    let _ = vec20_push(&mut bytes, dest);
    let _ = vec20_push(&mut bytes, control);
    let _ = vec20_push(&mut bytes, data_len);
    proof {
        assert(bytes_of_20(bytes) =~= seq![SYNC1, SYNC2, dest, control, data_len] + data@.take(0));
    }
    let mut i: usize = 0;
    while i < data.len()
        invariant
            i <= data.len(),
            data@.len() <= MAX_DATA_LEN,
            bytes_of_20(bytes) == seq![SYNC1, SYNC2, dest, control, data_len] + data@.take(i as int),
        decreases data.len() - i,
    {
        let _ = vec20_push(&mut bytes, data[i]);
        i = i + 1;
        proof {
            assert(data@.take(i as int) =~= data@.take(i - 1) + seq![data@[i - 1]]);
        }
    }
    let _ = vec20_push(&mut bytes, checksum(dest, control, data_len, data));
    proof {
        assert(data@.take(data.len() as int) =~= data@);
        assert(bytes_of_20(bytes) =~= spec_frame_bytes(dest, control, data@));
    }
    Ok(SaturnFrame { bytes, op: kind, dest })
}

/// No frame this encoder produces carries a denied control byte: the control
/// byte of every allowlisted operation lies outside the denied list.
pub proof fn lemma_no_denied_control_byte(k: SaturnOpKind)
    ensures
        !spec_denied_control_bytes().contains(spec_control_byte(k)),
{
    let d = spec_denied_control_bytes();
    let c = spec_control_byte(k);
    assert forall|i: int| 0 <= i < d.len() implies d[i] != c by {}
}

/// **No encodable frame exceeds the wire limits.** Whatever the encoder
/// accepts carries at most two data bytes, well inside the legal `DATA_LEN`,
/// and lays out a frame within the wire maximum.
pub proof fn lemma_encoded_frames_fit(
    e: Encoder,
    target: ValveAddr,
    op: SaturnOp,
    phase: LinkPhase,
    token: Option<LinkKind>,
    authorised: Option<ZoneId>,
)
    ensures
        spec_encode(e, target, op, phase, token, authorised) matches Ok((dest, data)) ==> data.len() <= 2
            && data.len() <= MAX_DATA_LEN && spec_frame_bytes(dest, spec_control_byte(spec_op_kind(op)), data).len()
            <= MAX_FRAME,
{
}

/// **Only an authority for the encoder's own zone opens water.** A set-outlets
/// frame is built only when an authority was supplied and names the zone of
/// the link this encoder drives; with none, or one naming another zone, the
/// request is refused.
pub proof fn lemma_set_outlets_needs_own_zone(
    e: Encoder,
    target: ValveAddr,
    op: SaturnOp,
    phase: LinkPhase,
    token: Option<LinkKind>,
    authorised: Option<ZoneId>,
    r: Result<SaturnFrame, EncodeDenied>,
)
    requires
        spec_op_kind(op) == SaturnOpKind::SetOutlets,
        spec_encode_result(e, target, op, phase, token, authorised, r),
    ensures
        r is Ok ==> authorised is Some && e.spec_link() == LinkKind::Zone(authorised->Some_0),
{
}

/// **Pause sets the pause bit and resume clears it.** Under the same
/// encoder, target, phase, token and authority, a pause is encoded exactly
/// when a resume is. Both go to the target valve as one-byte writes of the
/// valve state: a pause carries the state byte with only the pause bit set,
/// a resume carries zero, which releases it. So the two frames differ.
pub proof fn lemma_pause_resume_state_byte(
    e: Encoder,
    target: ValveAddr,
    phase: LinkPhase,
    token: Option<LinkKind>,
    authorised: Option<ZoneId>,
    pause: Result<SaturnFrame, EncodeDenied>,
    resume: Result<SaturnFrame, EncodeDenied>,
)
    requires
        spec_encode_result(e, target, SaturnOp::Pause, phase, token, authorised, pause),
        spec_encode_result(e, target, SaturnOp::Resume, phase, token, authorised, resume),
    ensures
        pause is Ok <==> resume is Ok,
        pause matches Ok(f) ==> f.spec_dest() == target.spec_get() && f.spec_bytes().len() == 7
            && f.spec_bytes()[4] == 1 && f.spec_bytes()[5] == ValveStateBits::PAUSE,
        resume matches Ok(f) ==> f.spec_dest() == target.spec_get() && f.spec_bytes().len() == 7
            && f.spec_bytes()[4] == 1 && f.spec_bytes()[5] == 0,
        pause matches Ok(f) ==> (resume matches Ok(g) && f.spec_bytes()[3] == g.spec_bytes()[3]
            && f.spec_bytes() != g.spec_bytes()),
{
    if pause is Ok {
        let f = pause->Ok_0;
        let g = resume->Ok_0;
        assert(f.spec_bytes()[5] != g.spec_bytes()[5]);
    }
}

} // verus!
