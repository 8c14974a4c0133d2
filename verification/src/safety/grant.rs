//! The tokens that gate opening water: a start authorisation spent by the
//! call that uses it, an operator acknowledgement, and the grant the kernel
//! issues, which is the only permission the valve encoder accepts to open an
//! outlet.
use vstd::prelude::*;
use crate::safety::event::LatchReason;
use crate::units::{BootId, ClampError, CommandId, OpenAuthority, SessionDuration, Slot, SlotSet, ValveSetpoint, ZoneId};

verus! {

/// Permission to ask for one start: minted for one command in one service
/// boot, not `Clone`, and taken by value so it is spent by the call.
#[derive(Debug)]
pub struct StartAuthorization {
    boot: BootId,
    command: CommandId,
}

impl StartAuthorization {
    pub closed spec fn spec_boot(self) -> BootId {
        self.boot
    }

    pub closed spec fn spec_command(self) -> CommandId {
        self.command
    }

    pub fn issue(boot: BootId, command: CommandId) -> (a: StartAuthorization)
        ensures
            a.spec_boot() == boot,
            a.spec_command() == command,
    {
        StartAuthorization { boot, command }
    }

    pub fn boot(&self) -> (b: BootId)
        ensures
            b == self.spec_boot(),
    {
        self.boot
    }

    pub fn command(&self) -> (c: CommandId)
        ensures
            c == self.spec_command(),
    {
        self.command
    }
}

/// The operator's acknowledgement of one latched condition.
#[derive(Debug)]
pub struct OperatorAck {
    command: CommandId,
}

impl OperatorAck {
    pub closed spec fn spec_command(self) -> CommandId {
        self.command
    }

    pub fn issue(command: CommandId) -> (a: OperatorAck)
        ensures
            a.spec_command() == command,
    {
        OperatorAck { command }
    }

    pub fn command(&self) -> (c: CommandId)
        ensures
            c == self.spec_command(),
    {
        self.command
    }
}

/// A start request whose fields have already passed their clamps.
#[derive(Clone, PartialEq, Debug)]
pub struct ValidatedStart {
    pub zone: ZoneId,
    pub outlets: SlotSet,
    pub temperature: ValveSetpoint,
    pub duration: SessionDuration,
    pub command: CommandId,
}

/// The kernel's grant to open water in one zone, for one command, in one
/// boot. Not `Clone` and with no public constructor.
#[derive(Debug)]
pub struct OpenGrant {
    zone: ZoneId,
    command: CommandId,
    boot: BootId,
}

impl OpenGrant {
    pub closed spec fn spec_zone(self) -> ZoneId {
        self.zone
    }

    pub closed spec fn spec_command(self) -> CommandId {
        self.command
    }

    pub closed spec fn spec_boot(self) -> BootId {
        self.boot
    }

    pub(crate) fn new(zone: ZoneId, command: CommandId, boot: BootId) -> (g: OpenGrant)
        ensures
            g.spec_zone() == zone,
            g.spec_command() == command,
            g.spec_boot() == boot,
    {
        OpenGrant { zone, command, boot }
    }

    pub fn zone(&self) -> (z: ZoneId)
        ensures
            z == self.spec_zone(),
    {
        self.zone
    }

    pub fn command(&self) -> (c: CommandId)
        ensures
            c == self.spec_command(),
    {
        self.command
    }

    pub fn boot(&self) -> (b: BootId)
        ensures
            b == self.spec_boot(),
    {
        self.boot
    }
}

/// The grant is the workspace's permission to open water: it authorises
/// exactly its own zone.
impl OpenAuthority for OpenGrant {
    open spec fn spec_authorised_zone(&self) -> ZoneId {
        self.spec_zone()
    }

    fn authorised_zone(&self) -> (z: ZoneId) {
        self.zone
    }
}

/// Why a request to open water was refused. A refusal changes no valve state
/// and transmits nothing.
#[derive(Clone, PartialEq, Eq, Debug)]
pub enum Denial {
    ZoneLatched { zone: ZoneId, reason: LatchReason },
    NotReady { zone: ZoneId, phase: &'static str },
    StaleSession { token_boot: BootId, current_boot: BootId },
    MismatchedCommand { authorised: CommandId, requested: CommandId },
    UnconfiguredOutlet(Slot),
    NoOutlets,
    /// A clamp refused a value.
    Clamp(ClampError),
    HealthUnknown { raw_code: u8 },
}

impl From<ClampError> for Denial {
    fn from(e: ClampError) -> (d: Denial) {
        Denial::Clamp(e)
    }
}

impl vstd::std_specs::convert::FromSpecImpl<ClampError> for Denial {
    open spec fn obeys_from_spec() -> bool {
        true
    }

    open spec fn from_spec(e: ClampError) -> Denial {
        Denial::Clamp(e)
    }
}

} // verus!
