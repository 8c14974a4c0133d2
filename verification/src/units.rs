//! The typed quantities the codecs and the kernel speak: zones, links, outlet
//! slots, and the clamped temperatures and durations. Every constructor that
//! can refuse states exactly which raw values it accepts.
use vstd::prelude::*;
use crate::time::Duration;

verus! {

/// Permission to open water in one zone. Implemented by the safety kernel's
/// grant; the valve encoder asks it which zone it authorises.
pub trait OpenAuthority {
    /// The zone this authority opens water in.
    spec fn spec_authorised_zone(&self) -> ZoneId;

    /// The zone this authority opens water in.
    fn authorised_zone(&self) -> (z: ZoneId)
        ensures
            z == self.spec_authorised_zone(),
    ;
}

/// One of the two shower zones.
#[derive(Copy, Clone, PartialEq, Eq, PartialOrd, Ord, Hash, Debug, Structural)]
pub enum ZoneId {
    Zone1,
    Zone2,
}

impl ZoneId {
    /// Both zones, in order.
    pub fn all() -> (v: [ZoneId; 2])
        ensures
            v@ == seq![ZoneId::Zone1, ZoneId::Zone2],
    {
        [ZoneId::Zone1, ZoneId::Zone2]
    }
}

/// A serial link this controller drives: one Saturn bus per zone, and the
/// DTV+ steam link.
#[derive(Copy, Clone, PartialEq, Eq, PartialOrd, Ord, Hash, Debug, Structural)]
pub enum LinkKind {
    Zone(ZoneId),
    Steam,
}

/// Every link, in order.
pub open spec fn all_links() -> Seq<LinkKind> {
    seq![LinkKind::Zone(ZoneId::Zone1), LinkKind::Zone(ZoneId::Zone2), LinkKind::Steam]
}

/// A link's name.
pub open spec fn spec_link_name(l: LinkKind) -> &'static str {
    match l {
        LinkKind::Zone(ZoneId::Zone1) => "zone1",
        LinkKind::Zone(ZoneId::Zone2) => "zone2",
        LinkKind::Steam => "steam",
    }
}

impl LinkKind {
    /// Every link, in order.
    pub fn all() -> (v: [LinkKind; 3])
        ensures
            v@ == all_links(),
    {
        [LinkKind::Zone(ZoneId::Zone1), LinkKind::Zone(ZoneId::Zone2), LinkKind::Steam]
    }

    /// The link's name: `zone1`, `zone2` or `steam`.
    pub fn name(self) -> (s: &'static str)
        ensures
            s == spec_link_name(self),
    {
        match self {
            LinkKind::Zone(ZoneId::Zone1) => "zone1",
            LinkKind::Zone(ZoneId::Zone2) => "zone2",
            LinkKind::Steam => "steam",
        }
    }

    /// The zone a Saturn link serves, or `None` for the steam link.
    pub fn zone(self) -> (z: Option<ZoneId>)
        ensures
            z == (match self {
                LinkKind::Zone(zone) => Some(zone),
                LinkKind::Steam => None,
            }),
    {
        match self {
            LinkKind::Zone(zone) => Some(zone),
            LinkKind::Steam => None,
        }
    }
}

/// A configuration slot, `1..=6`. The only outlet number the public API speaks.
#[derive(Copy, Clone, PartialEq, Eq, PartialOrd, Ord, Hash, Debug, Structural)]
pub struct Slot {
    n: u8,
}

/// Why a raw value was refused by a clamped constructor.
#[derive(Copy, Clone, PartialEq, Eq, Debug, Structural)]
pub enum ClampError {
    /// A slot number outside `1..=6`.
    SlotOutOfRange { requested: u8 },
    /// A valve setpoint outside `Cx2` 60..=85 (30.0–42.5 °C).
    ValveSetpointOutOfRange { raw: u8 },
    /// A steam setpoint that is not an even `Fx2` in 180..=250 (90–125 °F in
    /// whole degrees).
    SteamSetpointOutOfRange { raw: u8 },
    /// A steam duration outside 1..=20 minutes.
    SteamMinutesOutOfRange { requested: u8 },
}

impl Slot {
    /// The slot number, `1..=6`.
    pub closed spec fn spec_get(self) -> u8 {
        self.n
    }

    #[verifier::type_invariant]
    pub closed spec fn wf(self) -> bool {
        1 <= self.n <= 6
    }

    /// The slot with number `n`, as a mathematical value.
    pub closed spec fn spec_of(n: u8) -> Slot {
        Slot { n }
    }

    /// The slot numbered `n` has number `n`, and is well formed in range.
    pub proof fn lemma_spec_of(n: u8)
        ensures
            Slot::spec_of(n).spec_get() == n,
            1 <= n <= 6 ==> Slot::spec_of(n).wf(),
    {
    }

    pub fn new(n: u8) -> (r: Result<Slot, ClampError>)
        ensures
            r is Ok <==> 1 <= n <= 6,
            r matches Ok(s) ==> s.spec_get() == n && s.wf(),
            r matches Err(e) ==> e == (ClampError::SlotOutOfRange { requested: n }),
    {
        if 1 <= n && n <= 6 {
            Ok(Slot { n })
        } else {
            Err(ClampError::SlotOutOfRange { requested: n })
        }
    }

    pub fn get(self) -> (n: u8)
        ensures
            n == self.spec_get(),
    {
        self.n
    }

    /// Zero-based index, `0..=5`.
    pub fn index(self) -> (i: usize)
        ensures
            i == self.spec_get() - 1,
            i < 6,
            1 <= self.spec_get() <= 6,
    {
        proof {
            use_type_invariant(&self);
        }
        (self.n - 1) as usize
    }

    /// A well-formed slot is numbered 1 to 6.
    pub proof fn lemma_wf(self)
        requires
            self.wf(),
        ensures
            1 <= self.spec_get() <= 6,
    {
    }

    /// A slot is its number.
    pub proof fn lemma_eq(self, other: Slot)
        ensures
            (self.spec_get() == other.spec_get()) ==> self == other,
            self == Slot::spec_of(self.spec_get()),
    {
    }
}

/// A set of configuration slots.
#[derive(Copy, Clone, PartialEq, Eq, Hash, Debug)]
pub struct SlotSet {
    present: [bool; 6],
}

impl SlotSet {
    /// Membership, by slot number.
    pub closed spec fn has(self, n: u8) -> bool {
        1 <= n <= 6 && self.present@[n - 1]
    }

    pub fn empty() -> (s: SlotSet)
        ensures
            forall|n: u8| !s.has(n),
    {
        SlotSet { present: [false; 6] }
    }

    pub fn contains(&self, slot: Slot) -> (b: bool)
        ensures
            b == self.has(slot.spec_get()),
    {
        self.present[slot.index()]
    }

    pub fn insert(self, slot: Slot) -> (s: SlotSet)
        ensures
            forall|n: u8| s.has(n) == (self.has(n) || n == slot.spec_get()),
    {
        let mut present = self.present;
        present[slot.index()] = true;
        SlotSet { present }
    }

    pub fn is_empty(&self) -> (b: bool)
        ensures
            b == (forall|n: u8| !self.has(n)),
    {
        let mut i: usize = 0;
        while i < 6
            invariant
                i <= 6,
                forall|j: int| 0 <= j < i ==> !self.present@[j],
            decreases 6 - i,
        {
            if self.present[i] {
                assert(self.has((i + 1) as u8));
                return false;
            }
            i = i + 1;
        }
        proof {
            assert forall|n: u8| !self.has(n) by {
                if 1 <= n <= 6 {
                    assert(!self.present@[n - 1]);
                }
            }
        }
        true
    }

    /// The members in ascending order.
    pub fn to_vec(&self) -> (v: Vec<Slot>)
        ensures
            forall|i: int| 0 <= i < v.len() ==> (#[trigger] v[i]).wf() && self.has(v[i].spec_get()),
            forall|n: u8| self.has(n) ==> exists|i: int| 0 <= i < v.len() && (#[trigger] v[i]).spec_get() == n,
            forall|i: int, j: int| 0 <= i < j < v.len() ==> v[i].spec_get() < v[j].spec_get(),
    {
        let mut v: Vec<Slot> = Vec::new();
        let mut n: u8 = 1;
        while n <= 6
            invariant
                1 <= n <= 7,
                forall|i: int| 0 <= i < v.len() ==> (#[trigger] v[i]).wf() && self.has(v[i].spec_get()) && v[i].spec_get() < n,
                forall|m: u8| self.has(m) && m < n ==> exists|i: int| 0 <= i < v.len() && (#[trigger] v[i]).spec_get() == m,
                forall|i: int, j: int| 0 <= i < j < v.len() ==> v[i].spec_get() < v[j].spec_get(),
            decreases 7 - n,
        {
            let ghost old_v = v@;
            if self.present[(n - 1) as usize] {
                let s = Slot { n };
                proof { assert(s.wf()); }
                v.push(s);
                proof {
                    assert(v[v.len() - 1] == s);
                }
            }
            proof {
                assert forall|m: u8| self.has(m) && m < n + 1 implies exists|i: int| 0 <= i < v.len() && (#[trigger] v[i]).spec_get() == m by {
                    if m == n {
                        assert(v[v.len() - 1].spec_get() == m);
                    } else {
                        let i = choose|i: int| 0 <= i < old_v.len() && (#[trigger] old_v[i]).spec_get() == m;
                        assert(v[i] == old_v[i]);
                    }
                }
            }
            n = n + 1;
        }
        v
    }

    /// The lowest member, if any.
    pub fn first(&self) -> (r: Option<Slot>)
        ensures
            r is None <==> forall|n: u8| !self.has(n),
            r matches Some(s) ==> s.wf() && self.has(s.spec_get()) && forall|m: u8| m < s.spec_get() ==> !self.has(m),
    {
        let mut i: usize = 0;
        while i < 6
            invariant
                i <= 6,
                forall|j: int| 0 <= j < i ==> !self.present@[j],
            decreases 6 - i,
        {
            if self.present[i] {
                let s = Slot { n: (i + 1) as u8 };
                proof {
                    assert(s.wf());
                    assert(self.has(s.spec_get()));
                    assert forall|m: u8| m < s.spec_get() implies !self.has(m) by {
                        if 1 <= m { assert(!self.present@[m - 1]); }
                    }
                }
                return Some(s);
            }
            i = i + 1;
        }
        proof {
            assert forall|n: u8| !self.has(n) by {
                if 1 <= n <= 6 {
                    assert(!self.present@[n - 1]);
                }
            }
        }
        None
    }

    /// The members of `self` that are not in `other`.
    pub fn difference(self, other: SlotSet) -> (s: SlotSet)
        ensures
            forall|n: u8| s.has(n) == (self.has(n) && !other.has(n)),
    {
        let mut present = [false; 6];
        let mut i: usize = 0;
        while i < 6
            invariant
                i <= 6,
                forall|j: int| 0 <= j < i ==> present@[j] == (self.present@[j] && !other.present@[j]),
                forall|j: int| i <= j < 6 ==> !present@[j],
            decreases 6 - i,
        {
            present[i] = self.present[i] && !other.present[i];
            i = i + 1;
        }
        SlotSet { present }
    }
}

/// A temperature in half degrees Celsius, as the Saturn valve carries it.
#[derive(Copy, Clone, PartialEq, Eq, PartialOrd, Ord, Hash, Debug, Structural)]
pub struct Cx2 {
    raw: u8,
}

impl Cx2 {
    pub closed spec fn spec_raw(self) -> u8 {
        self.raw
    }

    pub fn from_raw(raw: u8) -> (c: Cx2)
        ensures
            c.spec_raw() == raw,
    {
        Cx2 { raw }
    }

    pub fn raw(self) -> (r: u8)
        ensures
            r == self.spec_raw(),
    {
        self.raw
    }
}

/// The lowest valve setpoint, `Cx2` 60 (30.0 °C).
pub const VALVE_SETPOINT_MIN: u8 = 60;
/// The highest valve setpoint, `Cx2` 85 (42.5 °C): the 109 °F user limit
/// rounded down to the half-degree step below it.
pub const VALVE_SETPOINT_MAX: u8 = 85;

/// A valve setpoint that has passed the clamp: `Cx2` 60..=85.
#[derive(Copy, Clone, PartialEq, Eq, PartialOrd, Ord, Hash, Debug, Structural)]
pub struct ValveSetpoint {
    cx2: Cx2,
}

impl ValveSetpoint {
    pub closed spec fn spec_wire(self) -> u8 {
        self.cx2.raw
    }

    pub fn try_new(c: Cx2) -> (r: Result<ValveSetpoint, ClampError>)
        ensures
            r is Ok <==> VALVE_SETPOINT_MIN <= c.spec_raw() <= VALVE_SETPOINT_MAX,
            r matches Ok(s) ==> s.spec_wire() == c.spec_raw(),
            r matches Err(e) ==> e == (ClampError::ValveSetpointOutOfRange { raw: c.spec_raw() }),
    {
        if VALVE_SETPOINT_MIN <= c.raw && c.raw <= VALVE_SETPOINT_MAX {
            Ok(ValveSetpoint { cx2: c })
        } else {
            Err(ClampError::ValveSetpointOutOfRange { raw: c.raw })
        }
    }

    /// The clamped value as it goes on the wire.
    pub fn wire(self) -> (c: Cx2)
        ensures
            c.spec_raw() == self.spec_wire(),
    {
        self.cx2
    }
}

/// A temperature in half degrees Fahrenheit, as the steam device carries it.
#[derive(Copy, Clone, PartialEq, Eq, PartialOrd, Ord, Hash, Debug, Structural)]
pub struct Fx2 {
    raw: u8,
}

impl Fx2 {
    pub closed spec fn spec_raw(self) -> u8 {
        self.raw
    }

    pub fn from_raw(raw: u8) -> (f: Fx2)
        ensures
            f.spec_raw() == raw,
    {
        Fx2 { raw }
    }

    pub fn raw(self) -> (r: u8)
        ensures
            r == self.spec_raw(),
    {
        self.raw
    }

    /// Two readings with the same raw byte are the same value.
    pub proof fn lemma_eq(self, other: Fx2)
        ensures
            (self.spec_raw() == other.spec_raw()) ==> self == other,
    {
    }
}

/// True for the steam setpoints this master enforces: 90–125 °F in whole
/// degrees, which is an even `Fx2` in 180..=250.
pub open spec fn steam_setpoint_ok(raw: u8) -> bool {
    180 <= raw <= 250 && raw % 2 == 0
}

/// A steam setpoint that has passed the clamp.
#[derive(Copy, Clone, PartialEq, Eq, PartialOrd, Ord, Hash, Debug, Structural)]
pub struct SteamSetpoint {
    fx2: Fx2,
}

impl SteamSetpoint {
    pub closed spec fn spec_wire(self) -> u8 {
        self.fx2.raw
    }

    pub closed spec fn wf(self) -> bool {
        steam_setpoint_ok(self.fx2.raw)
    }

    /// The operational floor, 90 °F.
    pub fn floor() -> (f: Fx2)
        ensures
            f.spec_raw() == 180,
    {
        Fx2 { raw: 180 }
    }

    /// The factory default, 110 °F.
    pub fn factory_default() -> (f: Fx2)
        ensures
            f.spec_raw() == 220,
    {
        Fx2 { raw: 220 }
    }

    pub fn try_new(f: Fx2) -> (r: Result<SteamSetpoint, ClampError>)
        ensures
            r is Ok <==> steam_setpoint_ok(f.spec_raw()),
            r matches Ok(s) ==> s.spec_wire() == f.spec_raw() && s.wf(),
            r matches Err(e) ==> e == (ClampError::SteamSetpointOutOfRange { raw: f.spec_raw() }),
    {
        if 180 <= f.raw && f.raw <= 250 && f.raw % 2 == 0 {
            Ok(SteamSetpoint { fx2: f })
        } else {
            Err(ClampError::SteamSetpointOutOfRange { raw: f.raw })
        }
    }

    pub fn wire(self) -> (f: Fx2)
        ensures
            f.spec_raw() == self.spec_wire(),
    {
        self.fx2
    }

    /// A well-formed setpoint is one the steam policy accepts.
    pub proof fn lemma_wf(self)
        requires
            self.wf(),
        ensures
            steam_setpoint_ok(self.spec_wire()),
    {
    }
}

/// A steam session length, 1..=20 minutes. There is no zero: a zero timer
/// disables the generator's own shutoff.
#[derive(Copy, Clone, PartialEq, Eq, PartialOrd, Ord, Hash, Debug, Structural)]
pub struct SteamMinutes {
    m: u8,
}

impl SteamMinutes {
    pub closed spec fn spec_wire(self) -> u8 {
        self.m
    }

    pub closed spec fn wf(self) -> bool {
        1 <= self.m <= 20
    }

    pub fn try_new(m: u8) -> (r: Result<SteamMinutes, ClampError>)
        ensures
            r is Ok <==> 1 <= m <= 20,
            r matches Ok(s) ==> s.spec_wire() == m && s.wf(),
            r matches Err(e) ==> e == (ClampError::SteamMinutesOutOfRange { requested: m }),
    {
        if 1 <= m && m <= 20 {
            Ok(SteamMinutes { m })
        } else {
            Err(ClampError::SteamMinutesOutOfRange { requested: m })
        }
    }

    /// Ten minutes, the commissioning default.
    pub fn default_minutes() -> (s: SteamMinutes)
        ensures
            s.spec_wire() == 10,
            s.wf(),
    {
        SteamMinutes { m: 10 }
    }

    pub fn wire(self) -> (m: u8)
        ensures
            m == self.spec_wire(),
    {
        self.m
    }

    /// A well-formed duration is 1 to 20 minutes.
    pub proof fn lemma_wf(self)
        requires
            self.wf(),
        ensures
            1 <= self.spec_wire() <= 20,
    {
    }
}

/// Twenty minutes, the longest any session may run, in nanoseconds.
pub open spec fn session_hard_limit_nanos() -> int {
    1_200_000_000_000
}

/// A requested or configured session length, already clamped to the hard
/// limit.
#[derive(Copy, Clone, PartialEq, Eq, Hash, Debug, Structural)]
pub struct SessionDuration {
    d: Duration,
}

impl SessionDuration {
    pub closed spec fn spec_get(self) -> Duration {
        self.d
    }

    /// The hard limit, twenty minutes.
    pub fn hard_limit() -> (d: Duration)
        ensures
            d.spec_nanos() == session_hard_limit_nanos(),
            d.wf(),
    {
        Duration::from_secs(1200)
    }

    /// `d`, or the hard limit when `d` is longer.
    pub fn clamped(d: Duration) -> (s: SessionDuration)
        ensures
            d.spec_nanos() <= session_hard_limit_nanos() ==> s.spec_get() == d,
            d.spec_nanos() > session_hard_limit_nanos() ==> s.spec_get().spec_nanos()
                == session_hard_limit_nanos(),
            s.spec_get().wf(),
    {
        let limit = Self::hard_limit();
        if d.as_nanos() <= limit.as_nanos() {
            SessionDuration { d }
        } else {
            SessionDuration { d: limit }
        }
    }

    pub fn get(self) -> (d: Duration)
        ensures
            d == self.spec_get(),
    {
        self.d
    }
}

/// The identity of one service boot. A restart changes it.
#[derive(Copy, Clone, PartialEq, Eq, Hash, Debug, Structural)]
pub struct BootId(pub u64);

/// The identity of one operator command.
#[derive(Copy, Clone, PartialEq, Eq, Hash, Debug, Structural)]
pub struct CommandId(pub u64);

} // verus!
