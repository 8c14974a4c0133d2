//! The safety kernel: the state of every link, the only issuer of
//! [`OpenGrant`], and the rule for what each fault shuts down. Every link
//! boots cold, nothing persists across a restart, and a latch stays until the
//! operator acknowledges it.
use vstd::prelude::*;
use crate::safety::event::{
    Effect, EffectView, FaultScope, FindingClass, LatchReason, ReasonView, SafetyEvent, WELDED_CODE,
    effect_view, reason_eq, reason_view, spec_latch_reason, spec_scope,
};
use crate::safety::grant::{Denial, OpenGrant, StartAuthorization, ValidatedStart};
use crate::time::Monotonic;
use crate::units::{BootId, CommandId, LinkKind, SessionDuration, SlotSet, ZoneId};

verus! {

/// The effects of one event, in order. Four fit inline; more spill to the
/// heap.
#[verifier::external_body]
#[derive(Debug)]
pub struct Effects {
    inner: smallvec::SmallVec<[Effect; 4]>,
}

/// The effects an [`Effects`] holds, in order.
pub uninterp spec fn effects_of(v: Effects) -> Seq<Effect>;

impl Effects {
    /// `SmallVec::new`: no effects.
    #[verifier::external_body]
    fn new() -> (v: Effects)
        ensures
            effects_of(v) == Seq::<Effect>::empty(),
    {
        Effects { inner: smallvec::SmallVec::new() }
    }

    /// `SmallVec::push`: appends, spilling to the heap past four. It panics
    /// only when the length would overflow `usize`.
    #[verifier::external_body]
    fn push(&mut self, e: Effect)
        requires
            effects_of(*old(self)).len() < usize::MAX,
        ensures
            effects_of(*final(self)) == effects_of(*old(self)).push(e),
    {
        self.inner.push(e)
    }

    /// `SmallVec::as_slice`: the effects, in order.
    #[verifier::external_body]
    fn inner_slice(&self) -> (s: &[Effect])
        ensures
            s@ == effects_of(*self),
    {
        self.inner.as_slice()
    }

    /// The effects, in the order they must be carried out.
    pub fn as_slice(&self) -> (s: &[Effect])
        ensures
            s@ == effects_of(*self),
    {
        self.inner_slice()
    }
}

/// The operator message for a welded valve.
pub const WELDED_TEXT: &'static str = "WELDED: the mixing valve is mechanically stuck and no controller can close it. Remove valve power and close the hot and cold service shutoffs.";

/// Where each link stands.
#[derive(Clone, PartialEq, Eq, Debug)]
pub enum LinkState {
    /// Not yet ready: at boot, and until discovery completes.
    Cold,
    Ready,
    Running,
    /// Until acknowledged, and then until cleared by a restart.
    Latched { reason: LatchReason, acknowledged: bool },
}

/// A link state as plain values.
pub ghost enum StateView {
    Cold,
    Ready,
    Running,
    Latched { reason: ReasonView, acknowledged: bool },
}

pub open spec fn state_view(s: LinkState) -> StateView {
    match s {
        LinkState::Cold => StateView::Cold,
        LinkState::Ready => StateView::Ready,
        LinkState::Running => StateView::Running,
        LinkState::Latched { reason, acknowledged } => StateView::Latched { reason: reason_view(reason), acknowledged },
    }
}

impl LinkState {
    fn duplicate(&self) -> (r: LinkState)
        ensures
            state_view(r) == state_view(*self),
    {
        match self {
            LinkState::Cold => LinkState::Cold,
            LinkState::Ready => LinkState::Ready,
            LinkState::Running => LinkState::Running,
            LinkState::Latched { reason, acknowledged } => LinkState::Latched {
                reason: reason.duplicate(),
                acknowledged: *acknowledged,
            },
        }
    }
}

/// The three link states.
pub ghost struct LinksView {
    pub zone1: StateView,
    pub zone2: StateView,
    pub steam: StateView,
}

impl LinksView {
    pub open spec fn get(self, link: LinkKind) -> StateView {
        match link {
            LinkKind::Zone(ZoneId::Zone1) => self.zone1,
            LinkKind::Zone(ZoneId::Zone2) => self.zone2,
            LinkKind::Steam => self.steam,
        }
    }

    pub open spec fn set(self, link: LinkKind, s: StateView) -> LinksView {
        match link {
            LinkKind::Zone(ZoneId::Zone1) => LinksView { zone1: s, ..self },
            LinkKind::Zone(ZoneId::Zone2) => LinksView { zone2: s, ..self },
            LinkKind::Steam => LinksView { steam: s, ..self },
        }
    }

    /// Every link cold, as at boot.
    pub open spec fn all_cold() -> LinksView {
        LinksView { zone1: StateView::Cold, zone2: StateView::Cold, steam: StateView::Cold }
    }
}

/// The configured limits the kernel enforces.
#[derive(Clone, Debug)]
pub struct Bounds {
    /// No session longer than this, and never longer than the hard limit.
    pub session_cap: SessionDuration,
    /// The slots each zone has configured.
    pub configured_outlets: [(ZoneId, SlotSet); 2],
}

/// Whether slot `n` is configured for `zone`: by the first entry naming the
/// zone, and not at all when none does.
pub open spec fn configured(b: Bounds, zone: ZoneId, n: u8) -> bool {
    if b.configured_outlets[0].0 == zone {
        b.configured_outlets[0].1.has(n)
    } else if b.configured_outlets[1].0 == zone {
        b.configured_outlets[1].1.has(n)
    } else {
        false
    }
}

impl Bounds {
    fn outlets_for(&self, zone: ZoneId) -> (s: SlotSet)
        ensures
            forall|n: u8| s.has(n) == configured(*self, zone, n),
    {
        if self.configured_outlets[0].0 == zone {
            self.configured_outlets[0].1
        } else if self.configured_outlets[1].0 == zone {
            self.configured_outlets[1].1
        } else {
            SlotSet::empty()
        }
    }
}

/// Readying a link: anything but a latched link becomes ready.
pub open spec fn spec_mark_ready(v: LinksView, link: LinkKind) -> LinksView {
    if v.get(link) is Latched {
        v
    } else {
        v.set(link, StateView::Ready)
    }
}

/// Stopping a zone: a running zone becomes ready; nothing else changes.
pub open spec fn spec_mark_stopped(v: LinksView, zone: ZoneId) -> LinksView {
    if v.get(LinkKind::Zone(zone)) is Running {
        v.set(LinkKind::Zone(zone), StateView::Ready)
    } else {
        v
    }
}

/// Whether an open request is granted: the authorisation is from this boot
/// and for this command, the zone is ready, and at least one slot is asked
/// for, every one of them configured.
pub open spec fn spec_grants(v: LinksView, boot: BootId, bounds: Bounds, req: ValidatedStart, auth_boot: BootId, auth_command: CommandId) -> bool {
    &&& auth_boot == boot
    &&& auth_command == req.command
    &&& v.get(LinkKind::Zone(req.zone)) is Ready
    &&& exists|n: u8| req.outlets.has(n)
    &&& forall|n: u8| req.outlets.has(n) ==> configured(bounds, req.zone, n)
}

/// The reason an event latches with; a routine expiry, which never latches,
/// stands in as a service failure.
pub open spec fn event_reason(e: SafetyEvent) -> ReasonView {
    match spec_latch_reason(e) {
        Some(r) => reason_view(r),
        None => ReasonView::ServiceFailure,
    }
}

/// What an event does to the link states.
pub open spec fn spec_on_event(v: LinksView, e: SafetyEvent) -> LinksView {
    let l = StateView::Latched { reason: event_reason(e), acknowledged: false };
    match spec_scope(e) {
        FaultScope::Zone(z) => if e is SessionExpired {
            spec_mark_stopped(v, z)
        } else {
            v.set(LinkKind::Zone(z), l)
        },
        FaultScope::Link(link) => v.set(link, l),
        FaultScope::Shared => LinksView { zone1: l, zone2: l, steam: l },
    }
}

/// The effects an event produces, in the order they must be carried out.
pub open spec fn spec_effects(e: SafetyEvent) -> Seq<EffectView> {
    let r = event_reason(e);
    match spec_scope(e) {
        FaultScope::Zone(z) => if e is SessionExpired {
            seq![EffectView::AllOff(z)]
        } else {
            seq![
                EffectView::AllOff(z),
                EffectView::ClosePort(LinkKind::Zone(z)),
                EffectView::Latch { link: LinkKind::Zone(z), reason: r },
            ] + (if r is Welded {
                seq![EffectView::OperatorMessage { link: LinkKind::Zone(z), text: WELDED_TEXT@ }]
            } else {
                Seq::empty()
            }) + (if e is TemperatureDivergence {
                seq![EffectView::RecordFinding(FindingClass::TemperatureDivergence)]
            } else {
                Seq::empty()
            })
        },
        FaultScope::Link(LinkKind::Steam) => seq![
            if e is SteamLinkDegraded { EffectView::SteamStopThenLatch } else { EffectView::ClosePort(LinkKind::Steam) },
            EffectView::Latch { link: LinkKind::Steam, reason: r },
        ],
        FaultScope::Link(LinkKind::Zone(z)) => seq![
            EffectView::AllOff(z),
            EffectView::ClosePort(LinkKind::Zone(z)),
            EffectView::Latch { link: LinkKind::Zone(z), reason: r },
        ],
        FaultScope::Shared => seq![
            EffectView::AllOff(ZoneId::Zone1),
            EffectView::AllOff(ZoneId::Zone2),
            EffectView::Latch { link: LinkKind::Zone(ZoneId::Zone1), reason: r },
            EffectView::Latch { link: LinkKind::Zone(ZoneId::Zone2), reason: r },
            EffectView::Latch { link: LinkKind::Steam, reason: r },
        ],
    }
}

/// Acknowledging a link: a latched link records the acknowledgement and
/// stays latched with its reason; anything else is unchanged.
pub open spec fn spec_acknowledge(v: LinksView, link: LinkKind) -> LinksView {
    match v.get(link) {
        StateView::Latched { reason, .. } => v.set(link, StateView::Latched { reason, acknowledged: true }),
        _ => v,
    }
}

/// The only issuer of [`OpenGrant`].
#[derive(Debug)]
pub struct SafetyKernel {
    boot: BootId,
    bounds: Bounds,
    zone1: LinkState,
    zone2: LinkState,
    steam: LinkState,
}

impl SafetyKernel {
    pub closed spec fn spec_boot(self) -> BootId {
        self.boot
    }

    pub closed spec fn spec_bounds(self) -> Bounds {
        self.bounds
    }

    /// The state of every link.
    pub closed spec fn links_view(self) -> LinksView {
        LinksView {
            zone1: state_view(self.zone1),
            zone2: state_view(self.zone2),
            steam: state_view(self.steam),
        }
    }

    /// Every link starts cold. Nothing persisted is restored.
    pub fn new(boot: BootId, bounds: Bounds) -> (k: SafetyKernel)
        ensures
            k.spec_boot() == boot,
            k.spec_bounds() == bounds,
            k.links_view() == LinksView::all_cold(),
    {
        SafetyKernel { boot, bounds, zone1: LinkState::Cold, zone2: LinkState::Cold, steam: LinkState::Cold }
    }

    /// The state of one link.
    pub fn state(&self, link: LinkKind) -> (s: &LinkState)
        ensures
            state_view(*s) == self.links_view().get(link),
    {
        match link {
            LinkKind::Zone(ZoneId::Zone1) => &self.zone1,
            LinkKind::Zone(ZoneId::Zone2) => &self.zone2,
            LinkKind::Steam => &self.steam,
        }
    }

    fn set(&mut self, link: LinkKind, state: LinkState)
        ensures
            final(self).links_view() == old(self).links_view().set(link, state_view(state)),
            final(self).spec_boot() == old(self).spec_boot(),
            final(self).spec_bounds() == old(self).spec_bounds(),
    {
        match link {
            LinkKind::Zone(ZoneId::Zone1) => self.zone1 = state,
            LinkKind::Zone(ZoneId::Zone2) => self.zone2 = state,
            LinkKind::Steam => self.steam = state,
        }
    }

    /// Readies a link; a latched link stays latched.
    pub fn mark_ready(&mut self, link: LinkKind)
        ensures
            final(self).links_view() == spec_mark_ready(old(self).links_view(), link),
            final(self).spec_boot() == old(self).spec_boot(),
            final(self).spec_bounds() == old(self).spec_bounds(),
    {
        let latched = match self.state(link) {
            LinkState::Latched { .. } => true,
            _ => false,
        };
        if !latched {
            self.set(link, LinkState::Ready);
        }
    }

    /// Issues the grant to open water, spending the authorisation. Refused,
    /// with nothing changed, unless the authorisation is from this boot and
    /// for this command, the zone is ready, and every requested slot is
    /// configured. A grant marks the zone running.
    pub fn authorize_open(&mut self, req: &ValidatedStart, auth: StartAuthorization) -> (r: Result<OpenGrant, Denial>)
        ensures
            final(self).spec_boot() == old(self).spec_boot(),
            final(self).spec_bounds() == old(self).spec_bounds(),
            r is Ok <==> spec_grants(old(self).links_view(), old(self).spec_boot(), old(self).spec_bounds(), *req, auth.spec_boot(), auth.spec_command()),
            r matches Ok(g) ==> g.spec_zone() == req.zone && g.spec_command() == req.command && g.spec_boot() == old(self).spec_boot()
                && final(self).links_view() == old(self).links_view().set(LinkKind::Zone(req.zone), StateView::Running),
            r is Err ==> final(self).links_view() == old(self).links_view(),
            auth.spec_boot() != old(self).spec_boot() ==> r == Err::<OpenGrant, Denial>(Denial::StaleSession {
                token_boot: auth.spec_boot(),
                current_boot: old(self).spec_boot(),
            }),
            auth.spec_boot() == old(self).spec_boot() && auth.spec_command() != req.command ==> r == Err::<OpenGrant, Denial>(Denial::MismatchedCommand {
                authorised: auth.spec_command(),
                requested: req.command,
            }),
            auth.spec_boot() == old(self).spec_boot() && auth.spec_command() == req.command ==> match old(self).links_view().get(LinkKind::Zone(req.zone)) {
                StateView::Latched { reason, .. } => r matches Err(Denial::ZoneLatched { zone, reason: why }) && zone == req.zone && reason_view(why) == reason,
                StateView::Cold => r == Err::<OpenGrant, Denial>(Denial::NotReady { zone: req.zone, phase: "cold" }),
                StateView::Running => r == Err::<OpenGrant, Denial>(Denial::NotReady { zone: req.zone, phase: "running" }),
                StateView::Ready => if forall|n: u8| !req.outlets.has(n) {
                    r == Err::<OpenGrant, Denial>(Denial::NoOutlets)
                } else if exists|n: u8| req.outlets.has(n) && !configured(old(self).spec_bounds(), req.zone, n) {
                    r matches Err(Denial::UnconfiguredOutlet(s)) && req.outlets.has(s.spec_get())
                        && !configured(old(self).spec_bounds(), req.zone, s.spec_get())
                        && forall|m: u8| m < s.spec_get() && req.outlets.has(m) ==> configured(old(self).spec_bounds(), req.zone, m)
                } else {
                    r is Ok
                },
            },
    {
        if auth.boot() != self.boot {
            return Err(Denial::StaleSession { token_boot: auth.boot(), current_boot: self.boot });
        }
        if auth.command() != req.command {
            return Err(Denial::MismatchedCommand { authorised: auth.command(), requested: req.command });
        }
        let link = LinkKind::Zone(req.zone);
        match self.state(link) {
            LinkState::Latched { reason, .. } => {
                return Err(Denial::ZoneLatched { zone: req.zone, reason: reason.duplicate() });
            },
            LinkState::Cold => {
                return Err(Denial::NotReady { zone: req.zone, phase: "cold" });
            },
            LinkState::Running => {
                return Err(Denial::NotReady { zone: req.zone, phase: "running" });
            },
            LinkState::Ready => {},
        }
        if req.outlets.is_empty() {
            return Err(Denial::NoOutlets);
        }
        let configured_set = self.bounds.outlets_for(req.zone);
        let stray = req.outlets.difference(configured_set);
        match stray.first() {
            Some(bad) => {
                proof {
                    assert forall|m: u8| m < bad.spec_get() && req.outlets.has(m) implies configured(self.spec_bounds(), req.zone, m) by {
                        assert(!stray.has(m));
                    }
                }
                return Err(Denial::UnconfiguredOutlet(bad));
            },
            None => {
                proof {
                    assert forall|n: u8| req.outlets.has(n) implies configured(self.spec_bounds(), req.zone, n) by {
                        assert(!stray.has(n));
                    }
                }
            },
        }
        self.set(link, LinkState::Running);
        Ok(OpenGrant::new(req.zone, req.command, self.boot))
    }

    /// The configured session cap.
    pub fn session_cap(&self) -> (c: SessionDuration)
        ensures
            c == self.spec_bounds().session_cap,
    {
        self.bounds.session_cap
    }

    /// Returns a running zone to ready.
    pub fn mark_stopped(&mut self, zone: ZoneId)
        ensures
            final(self).links_view() == spec_mark_stopped(old(self).links_view(), zone),
            final(self).spec_boot() == old(self).spec_boot(),
            final(self).spec_bounds() == old(self).spec_bounds(),
    {
        let link = LinkKind::Zone(zone);
        let running = match self.state(link) {
            LinkState::Running => true,
            _ => false,
        };
        if running {
            self.set(link, LinkState::Ready);
        }
    }

    /// Acts on one event: updates the link states and returns the effects
    /// the caller must carry out, water first.
    pub fn on_event(&mut self, e: &SafetyEvent, at: Monotonic) -> (out: Effects)
        ensures
            final(self).links_view() == spec_on_event(old(self).links_view(), *e),
            effects_of(out).map_values(|x: Effect| effect_view(x)) == spec_effects(*e),
            final(self).spec_boot() == old(self).spec_boot(),
            final(self).spec_bounds() == old(self).spec_bounds(),
    {
        let mut out = Effects::new();
        let reason = match e.latch_reason() {
            Some(r) => r,
            None => LatchReason::ServiceFailure,
        };
        let ghost r = event_reason(*e);
        assert(reason_view(reason) == r);
        match e.scope() {
            FaultScope::Zone(zone) => {
                out.push(Effect::AllOff(zone));
                if e.is_routine() {
                    self.mark_stopped(zone);
                    proof {
                        assert(effects_of(out).map_values(|x: Effect| effect_view(x)) =~= spec_effects(*e));
                    }
                    return out;
                }
                let link = LinkKind::Zone(zone);
                out.push(Effect::ClosePort(link));
                out.push(Effect::Latch { link, reason: reason.duplicate() });
                let welded = reason.is_welded();
                self.set(link, LinkState::Latched { reason: reason.duplicate(), acknowledged: false });
                let ghost base = effects_of(out);
                if welded {
                    out.push(Effect::OperatorMessage { link, text: WELDED_TEXT });
                }
                let ghost mid = effects_of(out);
                if e.is_divergence() {
                    out.push(Effect::RecordFinding(FindingClass::TemperatureDivergence));
                }
                proof {
                    assert(effects_of(out).map_values(|x: Effect| effect_view(x)) =~= spec_effects(*e));
                }
            },
            FaultScope::Link(LinkKind::Steam) => {
                if e.is_steam_degraded() {
                    out.push(Effect::SteamStopThenLatch);
                } else {
                    out.push(Effect::ClosePort(LinkKind::Steam));
                }
                out.push(Effect::Latch { link: LinkKind::Steam, reason: reason.duplicate() });
                self.set(LinkKind::Steam, LinkState::Latched { reason: reason.duplicate(), acknowledged: false });
                proof {
                    assert(effects_of(out).map_values(|x: Effect| effect_view(x)) =~= spec_effects(*e));
                }
            },
            FaultScope::Link(link) => {
                match link.zone() {
                    Some(zone) => out.push(Effect::AllOff(zone)),
                    None => {},
                }
                out.push(Effect::ClosePort(link));
                out.push(Effect::Latch { link, reason: reason.duplicate() });
                self.set(link, LinkState::Latched { reason: reason.duplicate(), acknowledged: false });
                proof {
                    assert(effects_of(out).map_values(|x: Effect| effect_view(x)) =~= spec_effects(*e));
                }
            },
            FaultScope::Shared => {
                out.push(Effect::AllOff(ZoneId::Zone1));
                out.push(Effect::AllOff(ZoneId::Zone2));
                out.push(Effect::Latch { link: LinkKind::Zone(ZoneId::Zone1), reason: reason.duplicate() });
                self.set(LinkKind::Zone(ZoneId::Zone1), LinkState::Latched { reason: reason.duplicate(), acknowledged: false });
                out.push(Effect::Latch { link: LinkKind::Zone(ZoneId::Zone2), reason: reason.duplicate() });
                self.set(LinkKind::Zone(ZoneId::Zone2), LinkState::Latched { reason: reason.duplicate(), acknowledged: false });
                out.push(Effect::Latch { link: LinkKind::Steam, reason: reason.duplicate() });
                self.set(LinkKind::Steam, LinkState::Latched { reason: reason.duplicate(), acknowledged: false });
                proof {
                    assert(effects_of(out).map_values(|x: Effect| effect_view(x)) =~= spec_effects(*e));
                }
            },
        }
        out
    }

    /// Records the operator's acknowledgement of a latched link. The link
    /// stays latched; anything not latched is refused.
    pub fn acknowledge(&mut self, link: LinkKind) -> (r: Result<(), Denial>)
        ensures
            final(self).links_view() == spec_acknowledge(old(self).links_view(), link),
            r is Ok <==> old(self).links_view().get(link) is Latched,
            r is Err ==> r == Err::<(), Denial>(Denial::NotReady {
                zone: match link {
                    LinkKind::Zone(z) => z,
                    LinkKind::Steam => ZoneId::Zone1,
                },
                phase: "not latched",
            }),
            final(self).spec_boot() == old(self).spec_boot(),
            final(self).spec_bounds() == old(self).spec_bounds(),
    {
        let current = self.state(link).duplicate();
        match current {
            LinkState::Latched { reason, .. } => {
                self.set(link, LinkState::Latched { reason, acknowledged: true });
                Ok(())
            },
            _ => {
                let zone = match link.zone() {
                    Some(z) => z,
                    None => ZoneId::Zone1,
                };
                Err(Denial::NotReady { zone, phase: "not latched" })
            },
        }
    }
}

/// **A latch holds.** Once a link is latched, readying it, stopping it,
/// another event, or an acknowledgement leaves it latched with the same
/// reason; acknowledgement only records the operator's consent.
pub proof fn lemma_latch_holds(v: LinksView, link: LinkKind, other: LinkKind, zone: ZoneId, e: SafetyEvent)
    requires
        v.get(link) is Latched,
    ensures
        spec_mark_ready(v, other).get(link) == v.get(link),
        spec_mark_stopped(v, zone).get(link) == v.get(link),
        spec_on_event(v, e).get(link) is Latched,
        spec_acknowledge(v, other).get(link) is Latched,
        spec_acknowledge(v, other).get(link)->Latched_reason == v.get(link)->Latched_reason,
{
}

/// **No grant without readiness.** A grant is issued only for a zone that is
/// ready, under an authorisation from this boot for this very command, for a
/// non-empty set of slots all configured on that zone. A latched, cold or
/// running zone is never granted.
pub proof fn lemma_grant_needs_ready(v: LinksView, boot: BootId, bounds: Bounds, req: ValidatedStart, auth_boot: BootId, auth_command: CommandId)
    requires
        spec_grants(v, boot, bounds, req, auth_boot, auth_command),
    ensures
        v.get(LinkKind::Zone(req.zone)) == StateView::Ready,
        !(v.get(LinkKind::Zone(req.zone)) is Latched),
        auth_boot == boot,
        auth_command == req.command,
        exists|n: u8| req.outlets.has(n),
        forall|n: u8| req.outlets.has(n) ==> configured(bounds, req.zone, n),
{
}

/// **Water off first.** Every event that concerns a zone's water starts with
/// that zone's all-off, and a shared failure starts with both zones'.
pub proof fn lemma_water_off_first(e: SafetyEvent)
    ensures
        spec_scope(e) matches FaultScope::Zone(z) ==> spec_effects(e)[0] == EffectView::AllOff(z),
        spec_scope(e) matches FaultScope::Link(LinkKind::Zone(z)) ==> spec_effects(e)[0] == EffectView::AllOff(z),
        spec_scope(e) == FaultScope::Shared ==> spec_effects(e)[0] == EffectView::AllOff(ZoneId::Zone1)
            && spec_effects(e)[1] == EffectView::AllOff(ZoneId::Zone2),
{
}

/// **A zone fault stays in its zone.** An event scoped to one zone changes no
/// other link's state.
pub proof fn lemma_zone_fault_is_contained(v: LinksView, e: SafetyEvent, link: LinkKind)
    requires
        spec_scope(e) matches FaultScope::Zone(z) && link != LinkKind::Zone(z),
    ensures
        spec_on_event(v, e).get(link) == v.get(link),
{
}

/// **Expiry is not a fault.** A session reaching its limit stops that zone's
/// water and returns a running zone to ready; it latches nothing.
pub proof fn lemma_expiry_never_latches(v: LinksView, zone: ZoneId, link: LinkKind)
    ensures
        spec_effects(SafetyEvent::SessionExpired { zone }) == seq![EffectView::AllOff(zone)],
        spec_on_event(v, SafetyEvent::SessionExpired { zone }) == spec_mark_stopped(v, zone),
        !(v.get(link) is Latched) ==> !(spec_on_event(v, SafetyEvent::SessionExpired { zone }).get(link) is Latched),
{
}

/// **Every fault latches where it strikes.** Any event other than an expiry
/// latches the links in its scope, unacknowledged, with the event's reason.
pub proof fn lemma_fault_latches(v: LinksView, e: SafetyEvent, link: LinkKind)
    requires
        !(e is SessionExpired),
        match spec_scope(e) {
            FaultScope::Zone(z) => link == LinkKind::Zone(z),
            FaultScope::Link(l) => link == l,
            FaultScope::Shared => true,
        },
    ensures
        spec_on_event(v, e).get(link) == (StateView::Latched { reason: event_reason(e), acknowledged: false }),
{
}

/// **A lost link is closed before it latches.** Every event scoped to one
/// link closes that link's port and then latches it with the event's reason;
/// only a degraded steam link, which must stop steam first, goes through the
/// steam stop instead of a plain close. A zone link's fault is exactly: that
/// zone's water off, its port closed, and the latch, in that order. Every
/// fault scoped to a zone (an expiry aside) closes that zone's port too.
pub proof fn lemma_link_fault_closes_port(e: SafetyEvent, link: LinkKind)
    ensures
        spec_scope(e) matches FaultScope::Link(l) ==> (!(e is SteamLinkDegraded) ==> exists|i: int, j: int|
            0 <= i < j < spec_effects(e).len() && spec_effects(e)[i] == EffectView::ClosePort(l)
                && spec_effects(e)[j] == (EffectView::Latch { link: l, reason: event_reason(e) })),
        spec_scope(e) matches FaultScope::Link(l) ==> (e is SteamLinkDegraded <==> spec_effects(e).contains(
            EffectView::SteamStopThenLatch)),
        spec_scope(e) matches FaultScope::Link(LinkKind::Zone(z)) ==> spec_effects(e) == seq![
            EffectView::AllOff(z),
            EffectView::ClosePort(LinkKind::Zone(z)),
            EffectView::Latch { link: LinkKind::Zone(z), reason: event_reason(e) },
        ],
        spec_scope(e) matches FaultScope::Zone(z) ==> (!(e is SessionExpired) ==> spec_effects(e).contains(
            EffectView::ClosePort(LinkKind::Zone(z)))),
        spec_effects((SafetyEvent::PortLost { link })).contains(EffectView::ClosePort(link)),
{
    let fx = spec_effects(e);
    match spec_scope(e) {
        FaultScope::Link(l) => {
            if !(e is SteamLinkDegraded) {
                match l {
                    LinkKind::Steam => {
                        assert(fx[0] == EffectView::ClosePort(l));
                        assert(fx[1] == (EffectView::Latch { link: l, reason: event_reason(e) }));
                    },
                    LinkKind::Zone(z) => {
                        assert(fx[1] == EffectView::ClosePort(l));
                        assert(fx[2] == (EffectView::Latch { link: l, reason: event_reason(e) }));
                    },
                }
            } else {
                assert(fx[0] == EffectView::SteamStopThenLatch);
            }
        },
        FaultScope::Zone(z) => {
            if !(e is SessionExpired) {
                assert(fx[1] == EffectView::ClosePort(LinkKind::Zone(z)));
            }
        },
        FaultScope::Shared => {},
    }
    let f = spec_effects((SafetyEvent::PortLost { link }));
    match link {
        LinkKind::Steam => assert(f[0] == EffectView::ClosePort(link)),
        LinkKind::Zone(z) => assert(f[1] == EffectView::ClosePort(link)),
    }
}

} // verus!
