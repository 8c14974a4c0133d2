//! What can go wrong, where, and what the kernel does about it. Every event
//! names its blast radius ([`FaultScope`]) and, unless it is a routine
//! session expiry, the reason it latches. Temperatures travel as the bit
//! patterns of their `f32` readings: the kernel carries them, it never
//! computes with them.
use vstd::prelude::*;
use crate::units::{LinkKind, ZoneId};
use crate::time::Duration;

verus! {

/// How far a fault reaches.
#[derive(Copy, Clone, PartialEq, Eq, Debug, Structural)]
pub enum FaultScope {
    /// One zone's water.
    Zone(ZoneId),
    /// One link, which may be the steam link and so not a zone.
    Link(LinkKind),
    /// The service itself: everything goes down.
    Shared,
}

/// Why a steam link was declared degraded.
#[derive(Copy, Clone, PartialEq, Eq, Debug, Structural)]
pub enum DegradeReason {
    Timeouts,
    Nak,
    ChecksumFailures,
    GeneratorFault,
}

/// A class of finding recorded for later analysis.
#[derive(Copy, Clone, PartialEq, Eq, Debug, Structural)]
pub enum FindingClass {
    TemperatureDivergence,
    UndocumentedWireValue,
}

/// Why a link latched. Shown to the operator and kept until acknowledged.
#[derive(Clone, PartialEq, Eq, Debug)]
pub enum LatchReason {
    ValveFault { raw_code: u8 },
    /// A mechanically stuck valve no controller can close.
    Welded,
    ChecksumFailedOnWrite,
    MalformedResponse { detail: String },
    OutOfRangeValue { field: &'static str },
    SafetyResponseMissed { op: String },
    PortLost,
    SteamLinkDegraded { why: DegradeReason },
    /// The corrected reading, as the bits of its `f32` value in °C.
    IndependentOverTemperature { corrected_c_bits: u32 },
    /// The raw reading, as the bits of its `f32` value in °C.
    IndependentRawOverTemperature { raw_c_bits: u32 },
    RtdFault { bits: u8 },
    RtdStarved { since_s: u64 },
    /// The divergence, as the bits of its `f32` value in °C.
    TemperatureDivergence { delta_c_bits: u32 },
    ConfigCheckFailed { detail: String },
    WatchdogMissed,
    UsbControllerLost,
    ServiceFailure,
}

/// A latch reason as plain values: text as its characters.
pub ghost enum ReasonView {
    ValveFault { raw_code: u8 },
    Welded,
    ChecksumFailedOnWrite,
    MalformedResponse { detail: Seq<char> },
    OutOfRangeValue { field: Seq<char> },
    SafetyResponseMissed { op: Seq<char> },
    PortLost,
    SteamLinkDegraded { why: DegradeReason },
    IndependentOverTemperature { corrected_c_bits: u32 },
    IndependentRawOverTemperature { raw_c_bits: u32 },
    RtdFault { bits: u8 },
    RtdStarved { since_s: u64 },
    TemperatureDivergence { delta_c_bits: u32 },
    ConfigCheckFailed { detail: Seq<char> },
    WatchdogMissed,
    UsbControllerLost,
    ServiceFailure,
}

pub open spec fn reason_view(r: LatchReason) -> ReasonView {
    match r {
        LatchReason::ValveFault { raw_code } => ReasonView::ValveFault { raw_code },
        LatchReason::Welded => ReasonView::Welded,
        LatchReason::ChecksumFailedOnWrite => ReasonView::ChecksumFailedOnWrite,
        LatchReason::MalformedResponse { detail } => ReasonView::MalformedResponse { detail: detail@ },
        LatchReason::OutOfRangeValue { field } => ReasonView::OutOfRangeValue { field: field@ },
        LatchReason::SafetyResponseMissed { op } => ReasonView::SafetyResponseMissed { op: op@ },
        LatchReason::PortLost => ReasonView::PortLost,
        LatchReason::SteamLinkDegraded { why } => ReasonView::SteamLinkDegraded { why },
        LatchReason::IndependentOverTemperature { corrected_c_bits } => ReasonView::IndependentOverTemperature { corrected_c_bits },
        LatchReason::IndependentRawOverTemperature { raw_c_bits } => ReasonView::IndependentRawOverTemperature { raw_c_bits },
        LatchReason::RtdFault { bits } => ReasonView::RtdFault { bits },
        LatchReason::RtdStarved { since_s } => ReasonView::RtdStarved { since_s },
        LatchReason::TemperatureDivergence { delta_c_bits } => ReasonView::TemperatureDivergence { delta_c_bits },
        LatchReason::ConfigCheckFailed { detail } => ReasonView::ConfigCheckFailed { detail: detail@ },
        LatchReason::WatchdogMissed => ReasonView::WatchdogMissed,
        LatchReason::UsbControllerLost => ReasonView::UsbControllerLost,
        LatchReason::ServiceFailure => ReasonView::ServiceFailure,
    }
}

/// Two reasons say the same thing: the same variant with the same fields,
/// text compared by its characters.
pub open spec fn reason_eq(a: LatchReason, b: LatchReason) -> bool {
    reason_view(a) == reason_view(b)
}

impl LatchReason {
    /// A copy that says the same thing.
    pub fn duplicate(&self) -> (r: LatchReason)
        ensures
            reason_eq(r, *self),
    {
        match self {
            LatchReason::ValveFault { raw_code } => LatchReason::ValveFault { raw_code: *raw_code },
            LatchReason::Welded => LatchReason::Welded,
            LatchReason::ChecksumFailedOnWrite => LatchReason::ChecksumFailedOnWrite,
            LatchReason::MalformedResponse { detail } => LatchReason::MalformedResponse { detail: detail.clone() },
            LatchReason::OutOfRangeValue { field } => LatchReason::OutOfRangeValue { field: *field },
            LatchReason::SafetyResponseMissed { op } => LatchReason::SafetyResponseMissed { op: op.clone() },
            LatchReason::PortLost => LatchReason::PortLost,
            LatchReason::SteamLinkDegraded { why } => LatchReason::SteamLinkDegraded { why: *why },
            LatchReason::IndependentOverTemperature { corrected_c_bits } => LatchReason::IndependentOverTemperature {
                corrected_c_bits: *corrected_c_bits,
            },
            LatchReason::IndependentRawOverTemperature { raw_c_bits } => LatchReason::IndependentRawOverTemperature {
                raw_c_bits: *raw_c_bits,
            },
            LatchReason::RtdFault { bits } => LatchReason::RtdFault { bits: *bits },
            LatchReason::RtdStarved { since_s } => LatchReason::RtdStarved { since_s: *since_s },
            LatchReason::TemperatureDivergence { delta_c_bits } => LatchReason::TemperatureDivergence {
                delta_c_bits: *delta_c_bits,
            },
            LatchReason::ConfigCheckFailed { detail } => LatchReason::ConfigCheckFailed { detail: detail.clone() },
            LatchReason::WatchdogMissed => LatchReason::WatchdogMissed,
            LatchReason::UsbControllerLost => LatchReason::UsbControllerLost,
            LatchReason::ServiceFailure => LatchReason::ServiceFailure,
        }
    }

    /// True for the welded valve.
    pub fn is_welded(&self) -> (b: bool)
        ensures
            b == (*self is Welded),
    {
        match self {
            LatchReason::Welded => true,
            _ => false,
        }
    }
}

/// Something the kernel must act on.
#[derive(Clone, PartialEq, Eq, Debug)]
pub enum SafetyEvent {
    ValveFault { zone: ZoneId, raw_code: u8, unrecoverable: bool },
    ChecksumFailedOnWrite { zone: ZoneId },
    MalformedResponse { zone: ZoneId, detail: String },
    OutOfRangeValue { zone: ZoneId, field: &'static str },
    SafetyResponseMissed { zone: ZoneId, op: String },
    PortLost { link: LinkKind },
    SteamLinkDegraded { why: DegradeReason },
    /// The corrected independent reading, as the bits of its `f32` °C value.
    IndependentOverTemperature { zone: ZoneId, corrected_c_bits: u32, dwell: Duration },
    /// The raw independent reading, as the bits of its `f32` °C value.
    IndependentRawOverTemperature { zone: ZoneId, raw_c_bits: u32 },
    RtdFaultRegister { zone: ZoneId, bits: u8 },
    RtdStarved { zone: ZoneId, since: Duration },
    /// The divergence, as the bits of its `f32` °C value.
    TemperatureDivergence { zone: ZoneId, delta_c_bits: u32, dwell: Duration },
    /// A session reached its limit. Routine: it stops water and never latches.
    SessionExpired { zone: ZoneId },
    ConfigCheckFailed { detail: String },
    WatchdogMissed,
    UsbControllerLost,
    ServiceFailure,
}

pub open spec fn spec_scope(e: SafetyEvent) -> FaultScope {
    match e {
        SafetyEvent::ValveFault { zone, .. } => FaultScope::Zone(zone),
        SafetyEvent::ChecksumFailedOnWrite { zone } => FaultScope::Zone(zone),
        SafetyEvent::MalformedResponse { zone, .. } => FaultScope::Zone(zone),
        SafetyEvent::OutOfRangeValue { zone, .. } => FaultScope::Zone(zone),
        SafetyEvent::SafetyResponseMissed { zone, .. } => FaultScope::Zone(zone),
        SafetyEvent::IndependentOverTemperature { zone, .. } => FaultScope::Zone(zone),
        SafetyEvent::IndependentRawOverTemperature { zone, .. } => FaultScope::Zone(zone),
        SafetyEvent::RtdFaultRegister { zone, .. } => FaultScope::Zone(zone),
        SafetyEvent::RtdStarved { zone, .. } => FaultScope::Zone(zone),
        SafetyEvent::TemperatureDivergence { zone, .. } => FaultScope::Zone(zone),
        SafetyEvent::SessionExpired { zone } => FaultScope::Zone(zone),
        SafetyEvent::PortLost { link } => FaultScope::Link(link),
        SafetyEvent::SteamLinkDegraded { .. } => FaultScope::Link(LinkKind::Steam),
        _ => FaultScope::Shared,
    }
}

/// The whole seconds of a span, at most `u64::MAX`.
pub open spec fn whole_secs(d: Duration) -> u64 {
    if d.spec_nanos() / 1_000_000_000 <= u64::MAX {
        (d.spec_nanos() / 1_000_000_000) as u64
    } else {
        u64::MAX
    }
}

fn secs_of(d: Duration) -> (s: u64)
    ensures
        s == whole_secs(d),
{
    let n = d.as_nanos() / 1_000_000_000;
    if n <= u64::MAX as u128 { n as u64 } else { u64::MAX }
}

/// The valve-control code of a welded valve.
pub const WELDED_CODE: u8 = 35;

/// The reason an event latches, or `None` for a routine session expiry.
pub open spec fn spec_latch_reason(e: SafetyEvent) -> Option<LatchReason> {
    match e {
        SafetyEvent::ValveFault { raw_code, unrecoverable, .. } => if unrecoverable && raw_code == WELDED_CODE {
            Some(LatchReason::Welded)
        } else {
            Some(LatchReason::ValveFault { raw_code })
        },
        SafetyEvent::ChecksumFailedOnWrite { .. } => Some(LatchReason::ChecksumFailedOnWrite),
        SafetyEvent::MalformedResponse { detail, .. } => Some(LatchReason::MalformedResponse { detail }),
        SafetyEvent::OutOfRangeValue { field, .. } => Some(LatchReason::OutOfRangeValue { field }),
        SafetyEvent::SafetyResponseMissed { op, .. } => Some(LatchReason::SafetyResponseMissed { op }),
        SafetyEvent::PortLost { .. } => Some(LatchReason::PortLost),
        SafetyEvent::SteamLinkDegraded { why } => Some(LatchReason::SteamLinkDegraded { why }),
        SafetyEvent::IndependentOverTemperature { corrected_c_bits, .. } => Some(
            LatchReason::IndependentOverTemperature { corrected_c_bits },
        ),
        SafetyEvent::IndependentRawOverTemperature { raw_c_bits, .. } => Some(
            LatchReason::IndependentRawOverTemperature { raw_c_bits },
        ),
        SafetyEvent::RtdFaultRegister { bits, .. } => Some(LatchReason::RtdFault { bits }),
        SafetyEvent::RtdStarved { since, .. } => Some(LatchReason::RtdStarved { since_s: whole_secs(since) }),
        SafetyEvent::TemperatureDivergence { delta_c_bits, .. } => Some(
            LatchReason::TemperatureDivergence { delta_c_bits },
        ),
        SafetyEvent::SessionExpired { .. } => None,
        SafetyEvent::ConfigCheckFailed { detail } => Some(LatchReason::ConfigCheckFailed { detail }),
        SafetyEvent::WatchdogMissed => Some(LatchReason::WatchdogMissed),
        SafetyEvent::UsbControllerLost => Some(LatchReason::UsbControllerLost),
        SafetyEvent::ServiceFailure => Some(LatchReason::ServiceFailure),
    }
}

impl SafetyEvent {
    /// How far this event reaches.
    pub fn scope(&self) -> (s: FaultScope)
        ensures
            s == spec_scope(*self),
    {
        match self {
            SafetyEvent::ValveFault { zone, .. } => FaultScope::Zone(*zone),
            SafetyEvent::ChecksumFailedOnWrite { zone } => FaultScope::Zone(*zone),
            SafetyEvent::MalformedResponse { zone, .. } => FaultScope::Zone(*zone),
            SafetyEvent::OutOfRangeValue { zone, .. } => FaultScope::Zone(*zone),
            SafetyEvent::SafetyResponseMissed { zone, .. } => FaultScope::Zone(*zone),
            SafetyEvent::IndependentOverTemperature { zone, .. } => FaultScope::Zone(*zone),
            SafetyEvent::IndependentRawOverTemperature { zone, .. } => FaultScope::Zone(*zone),
            SafetyEvent::RtdFaultRegister { zone, .. } => FaultScope::Zone(*zone),
            SafetyEvent::RtdStarved { zone, .. } => FaultScope::Zone(*zone),
            SafetyEvent::TemperatureDivergence { zone, .. } => FaultScope::Zone(*zone),
            SafetyEvent::SessionExpired { zone } => FaultScope::Zone(*zone),
            SafetyEvent::PortLost { link } => FaultScope::Link(*link),
            SafetyEvent::SteamLinkDegraded { .. } => FaultScope::Link(LinkKind::Steam),
            _ => FaultScope::Shared,
        }
    }

    /// Why this event latches, or `None` for a session expiry, which never
    /// latches.
    pub fn latch_reason(&self) -> (r: Option<LatchReason>)
        ensures
            r is None <==> spec_latch_reason(*self) is None,
            r matches Some(x) ==> reason_eq(x, spec_latch_reason(*self)->Some_0),
    {
        match self {
            SafetyEvent::ValveFault { raw_code, unrecoverable, .. } => {
                if *unrecoverable && *raw_code == WELDED_CODE {
                    Some(LatchReason::Welded)
                } else {
                    Some(LatchReason::ValveFault { raw_code: *raw_code })
                }
            },
            SafetyEvent::ChecksumFailedOnWrite { .. } => Some(LatchReason::ChecksumFailedOnWrite),
            SafetyEvent::MalformedResponse { detail, .. } => Some(LatchReason::MalformedResponse { detail: detail.clone() }),
            SafetyEvent::OutOfRangeValue { field, .. } => Some(LatchReason::OutOfRangeValue { field: *field }),
            SafetyEvent::SafetyResponseMissed { op, .. } => Some(LatchReason::SafetyResponseMissed { op: op.clone() }),
            SafetyEvent::PortLost { .. } => Some(LatchReason::PortLost),
            SafetyEvent::SteamLinkDegraded { why } => Some(LatchReason::SteamLinkDegraded { why: *why }),
            SafetyEvent::IndependentOverTemperature { corrected_c_bits, .. } => Some(
                LatchReason::IndependentOverTemperature { corrected_c_bits: *corrected_c_bits },
            ),
            SafetyEvent::IndependentRawOverTemperature { raw_c_bits, .. } => Some(
                LatchReason::IndependentRawOverTemperature { raw_c_bits: *raw_c_bits },
            ),
            SafetyEvent::RtdFaultRegister { bits, .. } => Some(LatchReason::RtdFault { bits: *bits }),
            SafetyEvent::RtdStarved { since, .. } => Some(LatchReason::RtdStarved { since_s: secs_of(*since) }),
            SafetyEvent::TemperatureDivergence { delta_c_bits, .. } => Some(
                LatchReason::TemperatureDivergence { delta_c_bits: *delta_c_bits },
            ),
            SafetyEvent::SessionExpired { .. } => None,
            SafetyEvent::ConfigCheckFailed { detail } => Some(LatchReason::ConfigCheckFailed { detail: detail.clone() }),
            SafetyEvent::WatchdogMissed => Some(LatchReason::WatchdogMissed),
            SafetyEvent::UsbControllerLost => Some(LatchReason::UsbControllerLost),
            SafetyEvent::ServiceFailure => Some(LatchReason::ServiceFailure),
        }
    }

    /// Only a session expiry is routine.
    pub fn is_routine(&self) -> (b: bool)
        ensures
            b == (*self is SessionExpired),
    {
        match self {
            SafetyEvent::SessionExpired { .. } => true,
            _ => false,
        }
    }

    /// True for a temperature divergence, which is also recorded as a finding.
    pub fn is_divergence(&self) -> (b: bool)
        ensures
            b == (*self is TemperatureDivergence),
    {
        match self {
            SafetyEvent::TemperatureDivergence { .. } => true,
            _ => false,
        }
    }

    /// True for a degraded steam link, which can still send its stop.
    pub fn is_steam_degraded(&self) -> (b: bool)
        ensures
            b == (*self is SteamLinkDegraded),
    {
        match self {
            SafetyEvent::SteamLinkDegraded { .. } => true,
            _ => false,
        }
    }
}

/// An action the kernel asks its caller to carry out, in order.
#[derive(Clone, PartialEq, Eq, Debug)]
pub enum Effect {
    /// Close every outlet in the zone.
    AllOff(ZoneId),
    /// Send the steam stop, wait for its acknowledgement, then latch.
    SteamStopThenLatch,
    ClosePort(LinkKind),
    Latch { link: LinkKind, reason: LatchReason },
    OperatorMessage { link: LinkKind, text: &'static str },
    RecordFinding(FindingClass),
}

/// An effect as plain values.
pub ghost enum EffectView {
    AllOff(ZoneId),
    SteamStopThenLatch,
    ClosePort(LinkKind),
    Latch { link: LinkKind, reason: ReasonView },
    OperatorMessage { link: LinkKind, text: Seq<char> },
    RecordFinding(FindingClass),
}

pub open spec fn effect_view(e: Effect) -> EffectView {
    match e {
        Effect::AllOff(z) => EffectView::AllOff(z),
        Effect::SteamStopThenLatch => EffectView::SteamStopThenLatch,
        Effect::ClosePort(l) => EffectView::ClosePort(l),
        Effect::Latch { link, reason } => EffectView::Latch { link, reason: reason_view(reason) },
        Effect::OperatorMessage { link, text } => EffectView::OperatorMessage { link, text: text@ },
        Effect::RecordFinding(c) => EffectView::RecordFinding(c),
    }
}

} // verus!
