//! One zone's authority over its link, as a state machine: discovery, ready,
//! running, paused, and latched. A latched zone has no link to hand out, so a
//! latched zone cannot transmit.
use vstd::prelude::*;
use crate::safety::event::{LatchReason, reason_eq};
use crate::safety::grant::OperatorAck;
use crate::safety::session::SessionDeadline;
use crate::time::Monotonic;

verus! {

/// One zone's state, holding its link `L` in every state but latched.
#[derive(Debug)]
pub enum ZoneAuthority<L> {
    Discovery { link: L },
    ReadyOff { link: L },
    Running { link: L, session: SessionDeadline },
    Paused { link: L, session: SessionDeadline },
    /// The link is gone until the condition is acknowledged and cleared.
    Latched { reason: LatchReason, since: Monotonic, acknowledged: bool },
}

/// The refusal of a latched zone to hand out its link.
#[derive(Clone, PartialEq, Eq, Debug)]
pub struct IsLatched {
    pub reason: LatchReason,
}

/// The link a zone holds, in every state but latched.
pub open spec fn spec_link<L>(a: ZoneAuthority<L>) -> Option<L> {
    match a {
        ZoneAuthority::Discovery { link } => Some(link),
        ZoneAuthority::ReadyOff { link } => Some(link),
        ZoneAuthority::Running { link, .. } => Some(link),
        ZoneAuthority::Paused { link, .. } => Some(link),
        ZoneAuthority::Latched { .. } => None,
    }
}

/// The same zone, in the same state, holding `link` instead.
pub open spec fn with_link<L>(a: ZoneAuthority<L>, link: L) -> ZoneAuthority<L> {
    match a {
        ZoneAuthority::Discovery { .. } => ZoneAuthority::Discovery { link },
        ZoneAuthority::ReadyOff { .. } => ZoneAuthority::ReadyOff { link },
        ZoneAuthority::Running { session, .. } => ZoneAuthority::Running { link, session },
        ZoneAuthority::Paused { session, .. } => ZoneAuthority::Paused { link, session },
        ZoneAuthority::Latched { reason, since, acknowledged } => ZoneAuthority::Latched { reason, since, acknowledged },
    }
}

/// The phase names, as the operator sees them.
pub open spec fn spec_phase<L>(a: ZoneAuthority<L>) -> &'static str {
    match a {
        ZoneAuthority::Discovery { .. } => "discovery",
        ZoneAuthority::ReadyOff { .. } => "ready-off",
        ZoneAuthority::Running { .. } => "running",
        ZoneAuthority::Paused { .. } => "paused",
        ZoneAuthority::Latched { .. } => "latched",
    }
}

/// The session in force: running or paused only.
pub open spec fn spec_session<L>(a: ZoneAuthority<L>) -> Option<SessionDeadline> {
    match a {
        ZoneAuthority::Running { session, .. } => Some(session),
        ZoneAuthority::Paused { session, .. } => Some(session),
        _ => None,
    }
}

/// Back to ready from any unlatched state; a latched zone stays as it is.
pub open spec fn spec_ready<L>(a: ZoneAuthority<L>) -> ZoneAuthority<L> {
    match a {
        ZoneAuthority::Discovery { link } => ZoneAuthority::ReadyOff { link },
        ZoneAuthority::ReadyOff { link } => ZoneAuthority::ReadyOff { link },
        ZoneAuthority::Running { link, .. } => ZoneAuthority::ReadyOff { link },
        ZoneAuthority::Paused { link, .. } => ZoneAuthority::ReadyOff { link },
        ZoneAuthority::Latched { .. } => a,
    }
}

/// Running from ready only; anything else is handed back.
pub open spec fn spec_start<L>(a: ZoneAuthority<L>, session: SessionDeadline) -> Result<ZoneAuthority<L>, ZoneAuthority<L>> {
    match a {
        ZoneAuthority::ReadyOff { link } => Ok(ZoneAuthority::Running { link, session }),
        _ => Err(a),
    }
}

/// A running session held; anything else unchanged.
pub open spec fn spec_pause<L>(a: ZoneAuthority<L>) -> ZoneAuthority<L> {
    match a {
        ZoneAuthority::Running { link, session } => ZoneAuthority::Paused { link, session },
        _ => a,
    }
}

/// A paused session released; anything else unchanged.
pub open spec fn spec_resume<L>(a: ZoneAuthority<L>) -> ZoneAuthority<L> {
    match a {
        ZoneAuthority::Paused { link, session } => ZoneAuthority::Running { link, session },
        _ => a,
    }
}

impl<L> ZoneAuthority<L> {
    /// Every zone starts in discovery.
    pub fn new(link: L) -> (a: ZoneAuthority<L>)
        ensures
            a == (ZoneAuthority::Discovery { link }),
    {
        ZoneAuthority::Discovery { link }
    }

    pub fn phase(&self) -> (p: &'static str)
        ensures
            p == spec_phase(*self),
    {
        match self {
            ZoneAuthority::Discovery { .. } => "discovery",
            ZoneAuthority::ReadyOff { .. } => "ready-off",
            ZoneAuthority::Running { .. } => "running",
            ZoneAuthority::Paused { .. } => "paused",
            ZoneAuthority::Latched { .. } => "latched",
        }
    }

    pub fn is_latched(&self) -> (b: bool)
        ensures
            b == (*self is Latched),
    {
        match self {
            ZoneAuthority::Latched { .. } => true,
            _ => false,
        }
    }

    /// Running or paused: a session is in force.
    pub fn is_running(&self) -> (b: bool)
        ensures
            b == (*self is Running || *self is Paused),
    {
        match self {
            ZoneAuthority::Running { .. } | ZoneAuthority::Paused { .. } => true,
            _ => false,
        }
    }

    /// The link, in every state but latched; a latched zone says why. What is
    /// written through the reference becomes the zone's link; nothing else
    /// about the zone changes.
    pub fn link_mut(&mut self) -> (r: Result<&mut L, IsLatched>)
        ensures
            r is Err <==> *old(self) is Latched,
            r matches Err(e) ==> reason_eq(e.reason, old(self)->Latched_reason),
            r is Err ==> *final(self) == *old(self),
            r matches Ok(l) ==> spec_link(*old(self)) == Some(*l) && *final(self) == with_link(*old(self), *final(l)),
    {
        match self {
            ZoneAuthority::Discovery { link } => Ok(link),
            ZoneAuthority::ReadyOff { link } => Ok(link),
            ZoneAuthority::Running { link, .. } => Ok(link),
            ZoneAuthority::Paused { link, .. } => Ok(link),
            ZoneAuthority::Latched { reason, .. } => Err(IsLatched { reason: reason.duplicate() }),
        }
    }

    /// The session in force, if running or paused.
    pub fn session(&self) -> (s: Option<&SessionDeadline>)
        ensures
            s matches Some(d) ==> spec_session(*self) == Some(*d),
            s is None <==> spec_session(*self) is None,
    {
        match self {
            ZoneAuthority::Running { session, .. } => Some(session),
            ZoneAuthority::Paused { session, .. } => Some(session),
            _ => None,
        }
    }

    /// Latches from any state, dropping the link. Unacknowledged.
    pub fn latch(self, reason: LatchReason, at: Monotonic) -> (a: ZoneAuthority<L>)
        ensures
            a == (ZoneAuthority::<L>::Latched { reason, since: at, acknowledged: false }),
    {
        ZoneAuthority::Latched { reason, since: at, acknowledged: false }
    }

    /// Back to ready from any unlatched state, ending any session. A latched
    /// zone stays latched.
    pub fn ready(self) -> (a: ZoneAuthority<L>)
        ensures
            a == spec_ready(self),
    {
        match self {
            ZoneAuthority::Discovery { link } => ZoneAuthority::ReadyOff { link },
            ZoneAuthority::ReadyOff { link } => ZoneAuthority::ReadyOff { link },
            ZoneAuthority::Running { link, .. } => ZoneAuthority::ReadyOff { link },
            ZoneAuthority::Paused { link, .. } => ZoneAuthority::ReadyOff { link },
            latched => latched,
        }
    }

    /// Starts a session, from ready only; any other state comes back
    /// unchanged as the error.
    pub fn start(self, session: SessionDeadline) -> (r: Result<ZoneAuthority<L>, ZoneAuthority<L>>)
        ensures
            r == spec_start(self, session),
    {
        match self {
            ZoneAuthority::ReadyOff { link } => Ok(ZoneAuthority::Running { link, session }),
            other => Err(other),
        }
    }

    /// Holds a running session; anything else is unchanged.
    pub fn pause(self) -> (a: ZoneAuthority<L>)
        ensures
            a == spec_pause(self),
    {
        match self {
            ZoneAuthority::Running { link, session } => ZoneAuthority::Paused { link, session },
            other => other,
        }
    }

    /// Releases a paused session; anything else is unchanged.
    pub fn resume(self) -> (a: ZoneAuthority<L>)
        ensures
            a == spec_resume(self),
    {
        match self {
            ZoneAuthority::Paused { link, session } => ZoneAuthority::Running { link, session },
            other => other,
        }
    }

    /// Records the operator's acknowledgement of a latch. Anything but a
    /// latched zone comes back unchanged as the error.
    pub fn acknowledge(self, ack: &OperatorAck) -> (r: Result<ZoneAuthority<L>, ZoneAuthority<L>>)
        ensures
            match self {
                ZoneAuthority::Latched { reason, since, .. } => r == Ok::<ZoneAuthority<L>, ZoneAuthority<L>>(
                    ZoneAuthority::Latched { reason, since, acknowledged: true },
                ),
                _ => r == Err::<ZoneAuthority<L>, ZoneAuthority<L>>(self),
            },
    {
        match self {
            ZoneAuthority::Latched { reason, since, .. } => Ok(ZoneAuthority::Latched { reason, since, acknowledged: true }),
            other => Err(other),
        }
    }

    /// Only an acknowledged latch may be reopened.
    pub fn may_reopen(&self) -> (b: bool)
        ensures
            b == (*self matches ZoneAuthority::Latched { acknowledged, .. } && acknowledged),
    {
        match self {
            ZoneAuthority::Latched { acknowledged, .. } => *acknowledged,
            _ => false,
        }
    }
}

/// **Pausing never extends a session.** Pausing and resuming keep the very
/// deadline the session started with, so no sequence of pauses buys more
/// water time.
pub proof fn lemma_pause_keeps_deadline<L>(a: ZoneAuthority<L>)
    ensures
        spec_session(spec_pause(a)) == spec_session(a),
        spec_session(spec_resume(a)) == spec_session(a),
        spec_session(spec_resume(spec_pause(a))) == spec_session(a),
{
}

/// **Water runs only by way of ready.** A start succeeds only from ready, so
/// discovery has no edge to running; and a latched zone is left latched by
/// every transition but an acknowledgement.
pub proof fn lemma_running_only_from_ready<L>(a: ZoneAuthority<L>, session: SessionDeadline)
    ensures
        spec_start(a, session) is Ok <==> a is ReadyOff,
        spec_start(a, session) matches Ok(r) ==> r is Running,
        a is Latched ==> spec_ready(a) == a && spec_pause(a) == a && spec_resume(a) == a
            && spec_start(a, session) == Err::<ZoneAuthority<L>, ZoneAuthority<L>>(a),
{
}

} // verus!
