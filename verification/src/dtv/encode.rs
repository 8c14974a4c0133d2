//! The steam allowlist encoder. [`SteamOp`] is the complete set of frames
//! this system can put on the DTV+ bus. The power-clean cycle, started by a
//! payload value rather than an opcode, is denied by [`SteamOpState`] having
//! no variant for it.
use vstd::prelude::*;
use crate::dtv::addr::{BROADCAST, DevAddr, MASTER, UNASSIGNED};
use crate::dtv::opcode;
use crate::dtv::command::spec_denied_opcodes;
use crate::dtv::frame::{
    EOF, MAX_FRAME, MAX_PAYLOAD, SOF, bytes_of_16, bytes_of_42, checksum, escape_into, spec_checksum, spec_escape,
    spec_is_reserved, lemma_escape_append, lemma_escape_len, vec16_new, vec16_push, vec16_slice, vec42_new,
    vec42_push, vec42_slice,
};
use crate::saturn::frame::byte_sum;
use crate::dtv::steam::{ParamCodec, SET_PARAM_STATE_OFFSET, SteamOpState, spec_op_state_wire};
use crate::gate::TransmitAuthority;
use crate::saturn::encode::{DiscoveryToken, LinkPhase, token_link};
use crate::units::{LinkKind, SteamMinutes, SteamSetpoint};

verus! {

/// One step of steam-link discovery.
#[derive(Copy, Clone, PartialEq, Eq, Debug, Structural)]
pub enum DiscoveryStep {
    /// `DEV_ADDRESS_OPP`, broadcast.
    AddressOpportunity,
    /// `DEV_ASSIGN_ADDR` to the still-unaddressed device.
    AssignAddress(DevAddr),
}

/// **The allowlist.** Every frame this system can put on the steam bus.
#[derive(Clone, PartialEq, Eq, Debug)]
pub enum SteamOp {
    /// Steam on, at a clamped setpoint and duration.
    Start { temp: SteamSetpoint, minutes: SteamMinutes },
    /// Steam off. Allowed in every phase.
    Stop { temp: SteamSetpoint, minutes: SteamMinutes },
    /// A new setpoint, keeping the given state.
    SetTemperature { temp: SteamSetpoint, minutes: SteamMinutes, state: SteamOpState },
    /// A new duration, keeping the given state.
    SetDuration { temp: SteamSetpoint, minutes: SteamMinutes, state: SteamOpState },
    ReadStatus,
    /// Clears stored fault flags. Idle phases only.
    ClearFaults,
    /// Discovery only.
    Discovery(DiscoveryStep),
}

/// A [`SteamOp`] without its payload.
#[derive(Copy, Clone, PartialEq, Eq, PartialOrd, Ord, Hash, Debug, Structural)]
pub enum SteamOpKind {
    Start,
    Stop,
    SetTemperature,
    SetDuration,
    ReadStatus,
    ClearFaults,
    AddressOpportunity,
    AssignAddress,
}

pub open spec fn spec_steam_kind(op: SteamOp) -> SteamOpKind {
    match op {
        SteamOp::Start { .. } => SteamOpKind::Start,
        SteamOp::Stop { .. } => SteamOpKind::Stop,
        SteamOp::SetTemperature { .. } => SteamOpKind::SetTemperature,
        SteamOp::SetDuration { .. } => SteamOpKind::SetDuration,
        SteamOp::ReadStatus => SteamOpKind::ReadStatus,
        SteamOp::ClearFaults => SteamOpKind::ClearFaults,
        SteamOp::Discovery(DiscoveryStep::AddressOpportunity) => SteamOpKind::AddressOpportunity,
        SteamOp::Discovery(DiscoveryStep::AssignAddress(_)) => SteamOpKind::AssignAddress,
    }
}

/// The operation state a write carries, if it is a write.
pub open spec fn spec_steam_state(op: SteamOp) -> Option<SteamOpState> {
    match op {
        SteamOp::Start { .. } => Some(SteamOpState::On),
        SteamOp::Stop { .. } => Some(SteamOpState::Off),
        SteamOp::SetTemperature { state, .. } => Some(state),
        SteamOp::SetDuration { state, .. } => Some(state),
        _ => None,
    }
}

impl SteamOp {
    pub fn kind(&self) -> (k: SteamOpKind)
        ensures
            k == spec_steam_kind(*self),
    {
        match self {
            SteamOp::Start { .. } => SteamOpKind::Start,
            SteamOp::Stop { .. } => SteamOpKind::Stop,
            SteamOp::SetTemperature { .. } => SteamOpKind::SetTemperature,
            SteamOp::SetDuration { .. } => SteamOpKind::SetDuration,
            SteamOp::ReadStatus => SteamOpKind::ReadStatus,
            SteamOp::ClearFaults => SteamOpKind::ClearFaults,
            SteamOp::Discovery(DiscoveryStep::AddressOpportunity) => SteamOpKind::AddressOpportunity,
            SteamOp::Discovery(DiscoveryStep::AssignAddress(_)) => SteamOpKind::AssignAddress,
        }
    }

    /// The operation state a write puts on the wire.
    pub fn state(&self) -> (s: Option<SteamOpState>)
        ensures
            s == spec_steam_state(*self),
    {
        match self {
            SteamOp::Start { .. } => Some(SteamOpState::On),
            SteamOp::Stop { .. } => Some(SteamOpState::Off),
            SteamOp::SetTemperature { state, .. } => Some(*state),
            SteamOp::SetDuration { state, .. } => Some(*state),
            _ => None,
        }
    }
}

pub open spec fn spec_all_steam_kinds() -> Seq<SteamOpKind> {
    seq![
        SteamOpKind::Start, SteamOpKind::Stop, SteamOpKind::SetTemperature, SteamOpKind::SetDuration,
        SteamOpKind::ReadStatus, SteamOpKind::ClearFaults, SteamOpKind::AddressOpportunity,
        SteamOpKind::AssignAddress,
    ]
}

const ALL_STEAM_KINDS: [SteamOpKind; 8] = [
    SteamOpKind::Start,
    SteamOpKind::Stop,
    SteamOpKind::SetTemperature,
    SteamOpKind::SetDuration,
    SteamOpKind::ReadStatus,
    SteamOpKind::ClearFaults,
    SteamOpKind::AddressOpportunity,
    SteamOpKind::AssignAddress,
];

pub open spec fn spec_steam_opcode(k: SteamOpKind) -> u8 {
    match k {
        SteamOpKind::Start | SteamOpKind::Stop | SteamOpKind::SetTemperature
        | SteamOpKind::SetDuration => opcode::SET_DEV_PARAM,
        SteamOpKind::ReadStatus => opcode::GET_DEV_STATUS,
        SteamOpKind::ClearFaults => opcode::CLEAR_FAULT_FLAGS,
        SteamOpKind::AddressOpportunity => opcode::DEV_ADDRESS_OPP,
        SteamOpKind::AssignAddress => opcode::DEV_ASSIGN_ADDR,
    }
}

pub open spec fn spec_steam_is_discovery(k: SteamOpKind) -> bool {
    k == SteamOpKind::AddressOpportunity || k == SteamOpKind::AssignAddress
}

pub open spec fn spec_steam_is_write(k: SteamOpKind) -> bool {
    k == SteamOpKind::Start || k == SteamOpKind::Stop || k == SteamOpKind::SetTemperature
        || k == SteamOpKind::SetDuration
}

impl SteamOpKind {
    /// The complete steam allowlist, as kinds.
    pub fn all() -> (v: &'static [SteamOpKind])
        ensures
            v@ == spec_all_steam_kinds(),
    {
        let v: &'static [SteamOpKind] = &ALL_STEAM_KINDS;
        proof { assert(v@ =~= spec_all_steam_kinds()); }
        v
    }

    pub fn opcode(self) -> (b: u8)
        ensures
            b == spec_steam_opcode(self),
    {
        match self {
            SteamOpKind::Start | SteamOpKind::Stop | SteamOpKind::SetTemperature
            | SteamOpKind::SetDuration => opcode::SET_DEV_PARAM,
            SteamOpKind::ReadStatus => opcode::GET_DEV_STATUS,
            SteamOpKind::ClearFaults => opcode::CLEAR_FAULT_FLAGS,
            SteamOpKind::AddressOpportunity => opcode::DEV_ADDRESS_OPP,
            SteamOpKind::AssignAddress => opcode::DEV_ASSIGN_ADDR,
        }
    }

    pub fn is_discovery(self) -> (b: bool)
        ensures
            b == spec_steam_is_discovery(self),
    {
        match self {
            SteamOpKind::AddressOpportunity | SteamOpKind::AssignAddress => true,
            _ => false,
        }
    }

    pub fn is_write(self) -> (b: bool)
        ensures
            b == spec_steam_is_write(self),
    {
        match self {
            SteamOpKind::Start | SteamOpKind::Stop | SteamOpKind::SetTemperature
            | SteamOpKind::SetDuration => true,
            _ => false,
        }
    }

    /// Only `Start` can start steam.
    pub fn can_start_steam(self) -> (b: bool)
        ensures
            b == (self == SteamOpKind::Start),
    {
        match self {
            SteamOpKind::Start => true,
            _ => false,
        }
    }
}

/// Where the state byte sits in the payload of an operation that carries one.
pub fn state_byte_offset(kind: SteamOpKind) -> (r: Option<usize>)
    ensures
        r == (if spec_steam_is_write(kind) { Some(SET_PARAM_STATE_OFFSET) } else { None::<usize> }),
{
    if kind.is_write() {
        Some(SET_PARAM_STATE_OFFSET)
    } else {
        None
    }
}

/// The logical bytes of a frame from the master: `DEST`, `SRC` = master,
/// `CMD`, the payload and the checksum.
pub open spec fn spec_dtv_logical(dest: u8, cmd: u8, payload: Seq<u8>) -> Seq<u8> {
    spec_frame_logical(dest, MASTER, cmd, payload)
}

/// The logical bytes of any frame, whoever sends it: `DEST SRC CMD`, the
/// payload, and the checksum over them.
pub open spec fn spec_frame_logical(dest: u8, src: u8, cmd: u8, payload: Seq<u8>) -> Seq<u8> {
    seq![dest, src, cmd] + payload + seq![spec_checksum(dest, src, cmd, payload)]
}

/// The wire bytes of a frame: `SOF`, the stuffed logical bytes, `EOF`.
pub open spec fn spec_dtv_wire(logical: Seq<u8>) -> Seq<u8> {
    seq![SOF] + spec_escape(logical) + seq![EOF]
}

/// A frame the steam encoder produced; the only thing the steam link
/// transmits.
#[derive(Clone, PartialEq, Eq, Debug)]
pub struct DtvFrame {
    bytes: heapless::Vec<u8, MAX_FRAME>,
    op: SteamOpKind,
    dest: u8,
}

impl DtvFrame {
    pub closed spec fn spec_bytes(self) -> Seq<u8> {
        bytes_of_42(self.bytes)
    }

    pub closed spec fn spec_op(self) -> SteamOpKind {
        self.op
    }

    pub closed spec fn spec_dest(self) -> u8 {
        self.dest
    }

    pub fn bytes(&self) -> (b: &[u8])
        ensures
            b@ == self.spec_bytes(),
    {
        vec42_slice(&self.bytes)
    }

    pub fn op(&self) -> (k: SteamOpKind)
        ensures
            k == self.spec_op(),
    {
        self.op
    }

    pub fn dest(&self) -> (d: u8)
        ensures
            d == self.spec_dest(),
    {
        self.dest
    }

    pub fn cmd(&self) -> (c: u8)
        ensures
            c == spec_steam_opcode(self.spec_op()),
    {
        self.op.opcode()
    }

    pub fn len(&self) -> (n: usize)
        ensures
            n == self.spec_bytes().len(),
    {
        vec42_slice(&self.bytes).len()
    }

    pub fn is_empty(&self) -> (b: bool)
        ensures
            b == (self.spec_bytes().len() == 0),
    {
        vec42_slice(&self.bytes).len() == 0
    }
}

/// Why a steam encode was refused.
#[derive(Copy, Clone, PartialEq, Eq, Debug, Structural)]
pub enum DtvEncodeDenied {
    DiscoveryOutsideDiscoveryPhase { op: SteamOpKind, phase: LinkPhase },
    TokenForWrongLink { token: LinkKind, encoder: LinkKind },
    WriteOutsideOperationalPhase { op: SteamOpKind, phase: LinkPhase },
    FaultClearOutsideIdle { op: SteamOpKind, phase: LinkPhase },
    /// A frame above the wire maximum. No allowlisted operation produces one.
    FrameLength { op: SteamOpKind, max: usize },
}

/// The guards on an allowed steam operation, in order.
pub open spec fn spec_steam_guard(kind: SteamOpKind, phase: LinkPhase, token: Option<LinkKind>) -> Option<DtvEncodeDenied> {
    if spec_steam_is_discovery(kind) {
        match token {
            None => Some(DtvEncodeDenied::DiscoveryOutsideDiscoveryPhase { op: kind, phase }),
            Some(t) => if t != LinkKind::Steam {
                Some(DtvEncodeDenied::TokenForWrongLink { token: t, encoder: LinkKind::Steam })
            } else if phase != LinkPhase::Discovery {
                Some(DtvEncodeDenied::DiscoveryOutsideDiscoveryPhase { op: kind, phase })
            } else {
                None
            },
        }
    } else if spec_steam_is_write(kind) && kind != SteamOpKind::Stop && (phase == LinkPhase::Booting
        || phase == LinkPhase::Discovery) {
        Some(DtvEncodeDenied::WriteOutsideOperationalPhase { op: kind, phase })
    } else if kind == SteamOpKind::ClearFaults && !(phase == LinkPhase::ReadyOff || phase
        == LinkPhase::Faulted) {
        Some(DtvEncodeDenied::FaultClearOutsideIdle { op: kind, phase })
    } else {
        None
    }
}

/// The destination and payload of a steam operation.
pub open spec fn spec_steam_payload(dest: DevAddr, op: SteamOp) -> (u8, Seq<u8>) {
    match op {
        SteamOp::Start { temp, minutes } => (dest.spec_get(), seq![temp.spec_wire(), 0xFFu8, minutes.spec_wire()]),
        SteamOp::Stop { temp, minutes } => (dest.spec_get(), seq![temp.spec_wire(), 0x00u8, minutes.spec_wire()]),
        SteamOp::SetTemperature { temp, minutes, state } => (
            dest.spec_get(),
            seq![temp.spec_wire(), spec_op_state_wire(state), minutes.spec_wire()],
        ),
        SteamOp::SetDuration { temp, minutes, state } => (
            dest.spec_get(),
            seq![temp.spec_wire(), spec_op_state_wire(state), minutes.spec_wire()],
        ),
        SteamOp::ReadStatus => (dest.spec_get(), Seq::empty()),
        SteamOp::ClearFaults => (dest.spec_get(), Seq::empty()),
        SteamOp::Discovery(DiscoveryStep::AddressOpportunity) => (BROADCAST, Seq::empty()),
        SteamOp::Discovery(DiscoveryStep::AssignAddress(a)) => (UNASSIGNED, seq![a.spec_get()]),
    }
}

/// The steam encode contract, over the frame or the refusal.
pub open spec fn spec_steam_encode_result(
    dest: DevAddr,
    op: SteamOp,
    phase: LinkPhase,
    token: Option<LinkKind>,
    r: Result<DtvFrame, DtvEncodeDenied>,
) -> bool {
    match spec_steam_guard(spec_steam_kind(op), phase, token) {
        Some(d) => r == Err::<DtvFrame, DtvEncodeDenied>(d),
        None => {
            let (fd, payload) = spec_steam_payload(dest, op);
            let kind = spec_steam_kind(op);
            r matches Ok(f) && f.spec_bytes() == spec_dtv_wire(spec_dtv_logical(fd, spec_steam_opcode(kind), payload))
                && f.spec_op() == kind && f.spec_dest() == fd
        },
    }
}

/// Builds steam frames, under the authority it was built with.
#[derive(Debug)]
pub struct SteamEncoder {
    auth: TransmitAuthority,
    codec: ParamCodec,
}

impl SteamEncoder {
    pub closed spec fn spec_authority(self) -> TransmitAuthority {
        self.auth
    }

    pub closed spec fn spec_codec(self) -> ParamCodec {
        self.codec
    }

    /// No authority, no encoder. The documented parameter codec.
    pub fn new(auth: &TransmitAuthority) -> (e: SteamEncoder)
        ensures
            e.spec_authority().same_grant(*auth),
            e.spec_codec() == ParamCodec::SteamBlock,
    {
        SteamEncoder::with_codec(auth, ParamCodec::SteamBlock)
    }

    pub fn with_codec(auth: &TransmitAuthority, codec: ParamCodec) -> (e: SteamEncoder)
        ensures
            e.spec_authority().same_grant(*auth),
            e.spec_codec() == codec,
    {
        SteamEncoder { auth: auth.duplicate(), codec }
    }

    pub fn authority(&self) -> (a: &TransmitAuthority)
        ensures
            *a == self.spec_authority(),
    {
        &self.auth
    }

    pub fn codec(&self) -> (c: ParamCodec)
        ensures
            c == self.spec_codec(),
    {
        self.codec
    }

    /// The link every steam encoder drives.
    pub fn link(&self) -> (l: LinkKind)
        ensures
            l == LinkKind::Steam,
    {
        LinkKind::Steam
    }

    /// Encodes one allowlisted steam operation.
    pub fn encode(&self, dest: DevAddr, op: &SteamOp, phase: LinkPhase, disco: Option<&DiscoveryToken>) -> (r: Result<DtvFrame, DtvEncodeDenied>)
        ensures
            spec_steam_encode_result(dest, *op, phase, token_link(disco), r),
    {
        let kind = op.kind();
        if kind.is_discovery() {
            match disco {
                None => {
                    return Err(DtvEncodeDenied::DiscoveryOutsideDiscoveryPhase { op: kind, phase });
                },
                Some(token) => {
                    if token.link() != LinkKind::Steam {
                        return Err(DtvEncodeDenied::TokenForWrongLink { token: token.link(), encoder: LinkKind::Steam });
                    }
                    if phase != LinkPhase::Discovery {
                        return Err(DtvEncodeDenied::DiscoveryOutsideDiscoveryPhase { op: kind, phase });
                    }
                },
            }
        }
        if kind.is_write() && kind != SteamOpKind::Stop && (phase == LinkPhase::Booting || phase
            == LinkPhase::Discovery) {
            return Err(DtvEncodeDenied::WriteOutsideOperationalPhase { op: kind, phase });
        }
        if kind == SteamOpKind::ClearFaults && !(phase == LinkPhase::ReadyOff || phase == LinkPhase::Faulted) {
            return Err(DtvEncodeDenied::FaultClearOutsideIdle { op: kind, phase });
        }
        let (frame_dest, payload) = self.payload(dest, op);
        assemble(frame_dest, kind, vec16_slice(&payload))
    }

    fn payload(&self, dest: DevAddr, op: &SteamOp) -> (r: (u8, heapless::Vec<u8, MAX_PAYLOAD>))
        ensures
            r.0 == spec_steam_payload(dest, *op).0,
            bytes_of_16(r.1) == spec_steam_payload(dest, *op).1,
    {
        let mut payload: heapless::Vec<u8, MAX_PAYLOAD> = vec16_new();
        let frame_dest = match op {
            SteamOp::Start { temp, minutes } | SteamOp::Stop { temp, minutes }
            | SteamOp::SetTemperature { temp, minutes, .. }
            | SteamOp::SetDuration { temp, minutes, .. } => {
                let state = match op.state() {
                    Some(s) => s,
                    None => SteamOpState::Off,
                };
                match self.codec {
                    ParamCodec::SteamBlock => {
                        let _ = vec16_push(&mut payload, temp.wire().raw());
                        let _ = vec16_push(&mut payload, state.wire());
                        let _ = vec16_push(&mut payload, minutes.wire());
                    },
                }
                dest.get()
            },
            SteamOp::ReadStatus | SteamOp::ClearFaults => dest.get(),
            SteamOp::Discovery(DiscoveryStep::AddressOpportunity) => BROADCAST,
            SteamOp::Discovery(DiscoveryStep::AssignAddress(a)) => {
                let _ = vec16_push(&mut payload, a.get());
                UNASSIGNED
            },
        };
        proof {
            assert(bytes_of_16(payload) =~= spec_steam_payload(dest, *op).1);
        }
        (frame_dest, payload)
    }
}

/// Lays out a frame around its payload: header, checksum over the logical
/// bytes, byte stuffing, delimiters. A frame that would not fit the wire
/// maximum is refused.
fn assemble(dest: u8, kind: SteamOpKind, payload: &[u8]) -> (r: Result<DtvFrame, DtvEncodeDenied>)
    ensures
        payload@.len() <= 3 ==> (r matches Ok(f) && f.spec_bytes() == spec_dtv_wire(
            spec_dtv_logical(dest, spec_steam_opcode(kind), payload@),
        ) && f.spec_op() == kind && f.spec_dest() == dest),
        r matches Ok(f) ==> f.spec_bytes() == spec_dtv_wire(spec_dtv_logical(dest, spec_steam_opcode(kind), payload@))
            && f.spec_op() == kind && f.spec_dest() == dest,
        r matches Err(e) ==> e == (DtvEncodeDenied::FrameLength { op: kind, max: MAX_FRAME }),
{
    let cmd = kind.opcode();
    let chk = checksum(dest, MASTER, cmd, payload);
    let head: [u8; 3] = [dest, MASTER, cmd];
    let tail: [u8; 1] = [chk];
    let mut bytes: heapless::Vec<u8, MAX_FRAME> = vec42_new();
    if vec42_push(&mut bytes, SOF).is_err() {
        return Err(DtvEncodeDenied::FrameLength { op: kind, max: MAX_FRAME });
    }
    proof {
        lemma_escape_len(head@);
        lemma_escape_len(payload@);
        lemma_escape_len(tail@);
    }
    if escape_into(&head, &mut bytes).is_err() {
        return Err(DtvEncodeDenied::FrameLength { op: kind, max: MAX_FRAME });
    }
    if escape_into(payload, &mut bytes).is_err() {
        return Err(DtvEncodeDenied::FrameLength { op: kind, max: MAX_FRAME });
    }
    if escape_into(&tail, &mut bytes).is_err() {
        return Err(DtvEncodeDenied::FrameLength { op: kind, max: MAX_FRAME });
    }
    if vec42_push(&mut bytes, EOF).is_err() {
        return Err(DtvEncodeDenied::FrameLength { op: kind, max: MAX_FRAME });
    }
    proof {
        let logical = spec_dtv_logical(dest, cmd, payload@);
        assert(logical =~= head@ + payload@ + tail@);
        lemma_escape_append(head@, payload@);
        lemma_escape_append(head@ + payload@, tail@);
        assert(bytes_of_42(bytes) =~= spec_dtv_wire(logical));
    }
    Ok(DtvFrame { bytes, op: kind, dest })
}

/// No steam frame carries a denied opcode.
pub proof fn lemma_no_denied_opcode(k: SteamOpKind)
    ensures
        !spec_denied_opcodes().contains(spec_steam_opcode(k)),
{
    let d = spec_denied_opcodes();
    assert forall|i: int| 0 <= i < d.len() implies d[i] != spec_steam_opcode(k) by {}
}

/// **No power clean.** Whatever operation is encoded, the state byte of its
/// payload is off or on, never the power-clean byte.
pub proof fn lemma_no_power_clean(dest: DevAddr, op: SteamOp)
    ensures
        spec_steam_is_write(spec_steam_kind(op)) ==> spec_steam_payload(dest, op).1.len() == 3
            && (spec_steam_payload(dest, op).1[SET_PARAM_STATE_OFFSET as int] == 0x00
            || spec_steam_payload(dest, op).1[SET_PARAM_STATE_OFFSET as int] == 0xFF),
        spec_steam_payload(dest, op).1.len() <= 3,
{
}

/// Every value an operation carries has passed its clamp.
pub open spec fn steam_op_valid(op: SteamOp) -> bool {
    match op {
        SteamOp::Start { temp, minutes } => temp.wf() && minutes.wf(),
        SteamOp::Stop { temp, minutes } => temp.wf() && minutes.wf(),
        SteamOp::SetTemperature { temp, minutes, .. } => temp.wf() && minutes.wf(),
        SteamOp::SetDuration { temp, minutes, .. } => temp.wf() && minutes.wf(),
        SteamOp::Discovery(DiscoveryStep::AssignAddress(a)) => a.wf(),
        _ => true,
    }
}

/// No byte of `s` is one byte stuffing applies to.
pub open spec fn none_reserved(s: Seq<u8>) -> bool {
    forall|i: int| 0 <= i < s.len() ==> !spec_is_reserved(#[trigger] s[i])
}

/// Stuffing leaves a sequence with no reserved byte as it is.
proof fn lemma_escape_identity(s: Seq<u8>)
    requires
        none_reserved(s),
    ensures
        spec_escape(s) == s,
    decreases s.len(),
{
    if s.len() > 0 {
        assert(none_reserved(s.drop_last()));
        lemma_escape_identity(s.drop_last());
        assert(!spec_is_reserved(s[s.len() - 1]));
        assert(spec_escape(s) =~= s);
    }
}

/// **No steam frame is ever stuffed.** Whatever allowlisted operation the
/// encoder builds, to whichever assigned address, no header, payload or
/// checksum byte is reserved, so the wire frame is `SOF`, the logical bytes
/// as they are, and `EOF`: stuffing is exercised only on receive.
pub proof fn lemma_never_stuffed(dest: DevAddr, op: SteamOp)
    requires
        dest.wf(),
        steam_op_valid(op),
    ensures
        ({
            let (fd, payload) = spec_steam_payload(dest, op);
            let logical = spec_dtv_logical(fd, spec_steam_opcode(spec_steam_kind(op)), payload);
            &&& none_reserved(logical)
            &&& spec_dtv_wire(logical) == seq![SOF] + logical + seq![EOF]
        }),
{
    dest.lemma_wf();
    let (fd, payload) = spec_steam_payload(dest, op);
    let cmd = spec_steam_opcode(spec_steam_kind(op));
    let logical = spec_dtv_logical(fd, cmd, payload);
    match op {
        SteamOp::Start { temp, minutes } | SteamOp::Stop { temp, minutes }
        | SteamOp::SetTemperature { temp, minutes, .. } | SteamOp::SetDuration { temp, minutes, .. } => {
            temp.lemma_wf();
            minutes.lemma_wf();
            let (t, st, m) = (payload[0], payload[1], payload[2]);
            assert(payload =~= seq![t, st, m]);
            assert(st == 0 || st == 0xFF);
            assert(byte_sum(payload) == t as nat + st as nat + m as nat) by {
                reveal_with_fuel(byte_sum, 4);
                assert(payload.drop_last() =~= seq![t, st]);
                assert(payload.drop_last().drop_last() =~= seq![t]);
                assert(payload.drop_last().drop_last().drop_last() =~= Seq::<u8>::empty());
            }
        },
        SteamOp::Discovery(DiscoveryStep::AssignAddress(a)) => {
            a.lemma_wf();
            assert(payload =~= seq![a.spec_get()]);
            assert(byte_sum(payload) == a.spec_get() as nat) by {
                reveal_with_fuel(byte_sum, 2);
                assert(payload.drop_last() =~= Seq::<u8>::empty());
            }
        },
        _ => {
            assert(payload =~= Seq::<u8>::empty());
        },
    }
    assert(none_reserved(logical));
    lemma_escape_identity(logical);
    assert(spec_dtv_wire(logical) =~= seq![SOF] + logical + seq![EOF]);
}

} // verus!
