//! The steam generator's device profile: the operation-state byte, the error
//! bitmask, the status payload and the UI status it maps to.
use vstd::prelude::*;
use crate::units::{Fx2, SteamSetpoint, steam_setpoint_ok};

verus! {

/// The operation states this system can command: off and on. The 45-minute
/// power-clean cycle is started by a byte value, `0xCC`, in the same
/// position; it has no variant here and so cannot be encoded.
#[derive(Copy, Clone, PartialEq, Eq, PartialOrd, Ord, Hash, Debug, Default, Structural)]
pub enum SteamOpState {
    #[default]
    Off,
    On,
}

/// The state byte of an operation state.
pub open spec fn spec_op_state_wire(s: SteamOpState) -> u8 {
    match s {
        SteamOpState::Off => 0x00,
        SteamOpState::On => 0xFF,
    }
}

impl SteamOpState {
    /// The power-clean state byte: decoded, never encoded.
    pub const POWER_CLEAN_BYTE: u8 = 0xCC;

    /// Both encodable states.
    pub fn all() -> (a: [SteamOpState; 2])
        ensures
            a@ == seq![SteamOpState::Off, SteamOpState::On],
    {
        [SteamOpState::Off, SteamOpState::On]
    }

    pub fn wire(self) -> (b: u8)
        ensures
            b == spec_op_state_wire(self),
            b != SteamOpState::POWER_CLEAN_BYTE,
    {
        match self {
            SteamOpState::Off => 0x00,
            SteamOpState::On => 0xFF,
        }
    }

    /// How the state reads in a log line: `off` or `on`.
    pub fn label(self) -> (s: &'static str)
        ensures
            s == (if self == SteamOpState::Off { "off" } else { "on" }),
    {
        match self {
            SteamOpState::Off => "off",
            SteamOpState::On => "on",
        }
    }
}

/// A state byte as the generator reports it. Decoding is total: every byte
/// maps to exactly one value.
#[derive(Copy, Clone, PartialEq, Eq, Hash, Debug, Structural)]
pub enum SteamStateByte {
    Off,
    On,
    PowerClean,
    Invalid(u8),
}

pub open spec fn spec_state_decode(b: u8) -> SteamStateByte {
    if b == 0x00 {
        SteamStateByte::Off
    } else if b == 0xFF {
        SteamStateByte::On
    } else if b == 0xCC {
        SteamStateByte::PowerClean
    } else {
        SteamStateByte::Invalid(b)
    }
}

pub open spec fn spec_state_raw(s: SteamStateByte) -> u8 {
    match s {
        SteamStateByte::Off => 0x00,
        SteamStateByte::On => 0xFF,
        SteamStateByte::PowerClean => 0xCC,
        SteamStateByte::Invalid(b) => b,
    }
}

impl SteamStateByte {
    pub fn decode(b: u8) -> (s: SteamStateByte)
        ensures
            s == spec_state_decode(b),
            spec_state_raw(s) == b,
    {
        if b == 0x00 {
            SteamStateByte::Off
        } else if b == 0xFF {
            SteamStateByte::On
        } else if b == SteamOpState::POWER_CLEAN_BYTE {
            SteamStateByte::PowerClean
        } else {
            SteamStateByte::Invalid(b)
        }
    }

    pub fn raw(self) -> (b: u8)
        ensures
            b == spec_state_raw(self),
    {
        match self {
            SteamStateByte::Off => 0x00,
            SteamStateByte::On => 0xFF,
            SteamStateByte::PowerClean => SteamOpState::POWER_CLEAN_BYTE,
            SteamStateByte::Invalid(b) => b,
        }
    }

    /// True when steam is being produced, including a power clean.
    pub fn is_producing(self) -> (b: bool)
        ensures
            b == (self == SteamStateByte::On || self == SteamStateByte::PowerClean),
    {
        match self {
            SteamStateByte::On | SteamStateByte::PowerClean => true,
            _ => false,
        }
    }
}

/// The generator's error bitmask. Undocumented bits are kept, and any set
/// bit is a fault.
#[derive(Copy, Clone, PartialEq, Eq, Hash, Debug, Default, Structural)]
pub struct SteamErrorFlags {
    bits: u8,
}

impl SteamErrorFlags {
    pub const THERMISTOR: u8 = 0x04;
    pub const COMMUNICATION: u8 = 0x08;
    pub const OVERTEMPERATURE: u8 = 0x20;
    pub const SAFETY_CIRCUIT: u8 = 0x40;
    /// The bits no source defines: `0x01 | 0x02 | 0x10 | 0x80`.
    pub const RESERVED_BITS: u8 = 0x93;
    /// Overtemperature, safety circuit or thermistor: off at once.
    pub const IMMEDIATE_OFF: u8 = 0x64;

    pub closed spec fn spec_bits(self) -> u8 {
        self.bits
    }

    /// Keeps every bit.
    pub fn decode(b: u8) -> (f: SteamErrorFlags)
        ensures
            f.spec_bits() == b,
    {
        SteamErrorFlags { bits: b }
    }

    pub fn bits(self) -> (b: u8)
        ensures
            b == self.spec_bits(),
    {
        self.bits
    }

    /// True when every bit of `flags` is set.
    pub fn contains(self, flags: u8) -> (b: bool)
        ensures
            b == (self.spec_bits() & flags == flags),
    {
        self.bits & flags == flags
    }

    /// Any bit at all, documented or not, is a fault.
    pub fn is_fault(self) -> (b: bool)
        ensures
            b == (self.spec_bits() != 0),
    {
        self.bits != 0
    }

    pub fn reserved_bits_set(self) -> (b: u8)
        ensures
            b == self.spec_bits() & SteamErrorFlags::RESERVED_BITS,
    {
        self.bits & SteamErrorFlags::RESERVED_BITS
    }

    pub fn requires_immediate_off(self) -> (b: bool)
        ensures
            b == (self.spec_bits() & SteamErrorFlags::IMMEDIATE_OFF != 0),
    {
        self.bits & SteamErrorFlags::IMMEDIATE_OFF != 0
    }
}

/// What the user interface shows for the steam generator.
#[derive(Copy, Clone, PartialEq, Eq, PartialOrd, Ord, Hash, Debug, Structural)]
pub enum SteamUiStatus {
    NotInstalled,
    Off,
    On,
    PowerCleanActive,
    PowerCleanWarning,
    PowerCleanRequired,
    Error,
    PurgeActive,
    Invalid,
}

pub open spec fn spec_ui_code(s: SteamUiStatus) -> u8 {
    match s {
        SteamUiStatus::NotInstalled => 0,
        SteamUiStatus::Off => 1,
        SteamUiStatus::On => 2,
        SteamUiStatus::PowerCleanActive => 3,
        SteamUiStatus::PowerCleanWarning => 4,
        SteamUiStatus::PowerCleanRequired => 5,
        SteamUiStatus::Error => 6,
        SteamUiStatus::PurgeActive => 7,
        SteamUiStatus::Invalid => 8,
    }
}

impl SteamUiStatus {
    pub fn all() -> (a: [SteamUiStatus; 9])
        ensures
            forall|i: int| 0 <= i < 9 ==> spec_ui_code(#[trigger] a@[i]) == i,
    {
        [
            SteamUiStatus::NotInstalled, SteamUiStatus::Off, SteamUiStatus::On,
            SteamUiStatus::PowerCleanActive, SteamUiStatus::PowerCleanWarning,
            SteamUiStatus::PowerCleanRequired, SteamUiStatus::Error, SteamUiStatus::PurgeActive,
            SteamUiStatus::Invalid,
        ]
    }

    pub fn code(self) -> (c: u8)
        ensures
            c == spec_ui_code(self),
    {
        match self {
            SteamUiStatus::NotInstalled => 0,
            SteamUiStatus::Off => 1,
            SteamUiStatus::On => 2,
            SteamUiStatus::PowerCleanActive => 3,
            SteamUiStatus::PowerCleanWarning => 4,
            SteamUiStatus::PowerCleanRequired => 5,
            SteamUiStatus::Error => 6,
            SteamUiStatus::PurgeActive => 7,
            SteamUiStatus::Invalid => 8,
        }
    }
}

/// Bytes in a status payload.
pub const STATUS_PAYLOAD_LEN: usize = 6;
/// Where the state byte sits in a status payload.
pub const STATUS_STATE_OFFSET: usize = 2;
/// Bytes in a parameter-write payload.
pub const SET_PARAM_PAYLOAD_LEN: usize = 3;
/// Where the state byte sits in a parameter-write payload.
pub const SET_PARAM_STATE_OFFSET: usize = 1;
/// The firmware's own lowest setpoint, below this system's policy floor.
pub const FIRMWARE_MIN_SETPOINT_FX2: u8 = 150;

/// How a parameter write is laid out. One documented codec.
#[derive(Copy, Clone, PartialEq, Eq, Hash, Debug, Default, Structural)]
pub enum ParamCodec {
    #[default]
    SteamBlock,
}

/// A decoded status payload, field by field.
#[derive(Copy, Clone, PartialEq, Eq, Debug, Structural)]
pub struct SteamStatus {
    pub actual: Fx2,
    pub desired: Fx2,
    pub state: SteamStateByte,
    pub timer_minutes: u8,
    pub timer_seconds: u8,
    pub errors: SteamErrorFlags,
}

/// Why a status payload was refused.
#[derive(Copy, Clone, PartialEq, Eq, Debug, Structural)]
pub enum SteamStatusError {
    WrongLength { found: usize, expected: usize },
}

/// The six payload bytes of a status, in order.
pub open spec fn spec_status_payload(s: SteamStatus) -> Seq<u8> {
    seq![
        s.actual.spec_raw(),
        s.desired.spec_raw(),
        spec_state_raw(s.state),
        s.timer_minutes,
        s.timer_seconds,
        s.errors.spec_bits(),
    ]
}

/// The UI status a reported status maps to.
pub open spec fn spec_ui_status(s: SteamStatus) -> SteamUiStatus {
    match s.state {
        SteamStateByte::PowerClean => SteamUiStatus::PowerCleanActive,
        SteamStateByte::Invalid(_) => SteamUiStatus::Invalid,
        SteamStateByte::On => if s.errors.spec_bits() != 0 {
            SteamUiStatus::Error
        } else {
            SteamUiStatus::On
        },
        SteamStateByte::Off => if s.errors.spec_bits() != 0 {
            SteamUiStatus::Error
        } else {
            SteamUiStatus::Off
        },
    }
}

impl SteamStatus {
    /// Decodes exactly six bytes; any other length is refused rather than
    /// read positionally.
    pub fn decode(payload: &[u8]) -> (r: Result<SteamStatus, SteamStatusError>)
        ensures
            r is Ok <==> payload@.len() == STATUS_PAYLOAD_LEN,
            r matches Ok(s) ==> spec_status_payload(s) == payload@ && status_canonical(s),
            r matches Err(e) ==> e == (SteamStatusError::WrongLength {
                found: payload@.len() as usize,
                expected: STATUS_PAYLOAD_LEN,
            }),
    {
        if payload.len() != STATUS_PAYLOAD_LEN {
            return Err(SteamStatusError::WrongLength { found: payload.len(), expected: STATUS_PAYLOAD_LEN });
        }
        let s = SteamStatus {
            actual: Fx2::from_raw(payload[0]),
            desired: Fx2::from_raw(payload[1]),
            state: SteamStateByte::decode(payload[2]),
            timer_minutes: payload[3],
            timer_seconds: payload[4],
            errors: SteamErrorFlags::decode(payload[5]),
        };
        proof {
            assert(spec_status_payload(s) =~= payload@);
        }
        Ok(s)
    }

    /// The payload this status decodes from.
    pub fn payload(&self) -> (p: [u8; 6])
        ensures
            p@ == spec_status_payload(*self),
    {
        let p = [
            self.actual.raw(),
            self.desired.raw(),
            self.state.raw(),
            self.timer_minutes,
            self.timer_seconds,
            self.errors.bits(),
        ];
        proof {
            assert(p@ =~= spec_status_payload(*self));
        }
        p
    }

    pub fn ui_status(&self) -> (u: SteamUiStatus)
        ensures
            u == spec_ui_status(*self),
    {
        match self.state {
            SteamStateByte::PowerClean => SteamUiStatus::PowerCleanActive,
            SteamStateByte::Invalid(_) => SteamUiStatus::Invalid,
            SteamStateByte::On => if self.errors.is_fault() {
                SteamUiStatus::Error
            } else {
                SteamUiStatus::On
            },
            SteamStateByte::Off => if self.errors.is_fault() {
                SteamUiStatus::Error
            } else {
                SteamUiStatus::Off
            },
        }
    }

    /// True when the reported setpoint is one this system would command.
    pub fn setpoint_is_in_policy(&self) -> (b: bool)
        ensures
            b == steam_setpoint_ok(self.desired.spec_raw()),
    {
        SteamSetpoint::try_new(self.desired).is_ok()
    }
}

/// A status as decoding produces it: its state byte is the canonical value
/// of its own raw byte.
pub open spec fn status_canonical(s: SteamStatus) -> bool {
    spec_state_decode(spec_state_raw(s.state)) == s.state
}

/// Two decoded statuses with the same payload are the same status: decoding
/// is faithful and loses nothing.
pub proof fn lemma_status_payload_injective(s: SteamStatus, t: SteamStatus)
    requires
        status_canonical(s),
        status_canonical(t),
        spec_status_payload(t) == spec_status_payload(s),
    ensures
        t == s,
{
    let p = spec_status_payload(s);
    let q = spec_status_payload(t);
    assert(p[0] == q[0] && p[1] == q[1] && p[2] == q[2] && p[5] == q[5]);
    s.actual.lemma_eq(t.actual);
    s.desired.lemma_eq(t.desired);
    SteamErrorFlags::lemma_eq(s.errors, t.errors);
}

impl SteamErrorFlags {
    /// Two flag bytes with the same bits are the same value.
    pub proof fn lemma_eq(a: SteamErrorFlags, b: SteamErrorFlags)
        requires
            a.spec_bits() == b.spec_bits(),
        ensures
            a == b,
    {
    }
}

/// **Any fault shows as an error, running or not.** For a generator that
/// reports itself off or on, the UI shows an error exactly when the error
/// bitmask has any bit set, whichever of the two states it reports; with no
/// bit set it shows the state as reported. Two such reports that differ only
/// in the state byte agree on whether they show an error.
pub proof fn lemma_fault_shows_error(s: SteamStatus, t: SteamStatus)
    requires
        s.state == SteamStateByte::Off || s.state == SteamStateByte::On,
        t.state == SteamStateByte::Off || t.state == SteamStateByte::On,
        t.errors == s.errors,
    ensures
        (spec_ui_status(s) == SteamUiStatus::Error) <==> s.errors.spec_bits() != 0,
        s.errors.spec_bits() == 0 ==> (spec_ui_status(s) == SteamUiStatus::Off <==> s.state
            == SteamStateByte::Off),
        s.errors.spec_bits() == 0 ==> (spec_ui_status(s) == SteamUiStatus::On <==> s.state
            == SteamStateByte::On),
        (spec_ui_status(s) == SteamUiStatus::Error) == (spec_ui_status(t) == SteamUiStatus::Error),
{
}

} // verus!
