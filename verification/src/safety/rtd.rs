//! The independent temperature chain's alarm logic: which samples prove
//! anything, and when a condition has lasted long enough to act on.
//!
//! The sensor has no authority to open an outlet: its only output is a
//! [`SafetyEvent`]. The temperatures themselves, and the comparisons against
//! the trip points, are worked out by the caller, which holds the correction
//! curve; this module keeps the dwell clocks and decides.
use vstd::prelude::*;
use crate::safety::event::SafetyEvent;
use crate::time::{Duration, Monotonic};
use crate::units::ZoneId;

verus! {

/// The events one sample raises, in order. Two fit inline; more would spill
/// to the heap.
#[verifier::external_body]
#[derive(Debug)]
pub struct RtdEvents {
    inner: smallvec::SmallVec<[SafetyEvent; 2]>,
}

/// The events an [`RtdEvents`] holds, in order.
pub uninterp spec fn rtd_events_of(v: RtdEvents) -> Seq<SafetyEvent>;

impl RtdEvents {
    /// `SmallVec::new`: no events.
    #[verifier::external_body]
    fn new() -> (v: RtdEvents)
        ensures
            rtd_events_of(v) == Seq::<SafetyEvent>::empty(),
    {
        RtdEvents { inner: smallvec::SmallVec::new() }
    }

    /// `SmallVec::push`: appends, spilling to the heap past two. It panics
    /// only when the length would overflow `usize`.
    #[verifier::external_body]
    fn push(&mut self, e: SafetyEvent)
        requires
            rtd_events_of(*old(self)).len() < usize::MAX,
        ensures
            rtd_events_of(*final(self)) == rtd_events_of(*old(self)).push(e),
    {
        self.inner.push(e)
    }

    /// `SmallVec::as_slice`: the events, in order.
    #[verifier::external_body]
    fn inner_slice(&self) -> (s: &[SafetyEvent])
        ensures
            s@ == rtd_events_of(*self),
    {
        self.inner.as_slice()
    }

    /// The events, in the order they were raised.
    pub fn as_slice(&self) -> (s: &[SafetyEvent])
        ensures
            s@ == rtd_events_of(*self),
    {
        self.inner_slice()
    }
}

/// How long a condition must last before it counts, and how long silence
/// may last before it is itself a fault.
#[derive(Copy, Clone, PartialEq, Eq, Debug, Structural)]
pub struct RtdLimits {
    /// The corrected over-temperature must persist this long.
    pub corrected_trip_dwell: Duration,
    /// The disagreement with the valve's own reading must persist this long.
    pub divergence_dwell: Duration,
    /// A gap between samples longer than this is starvation.
    pub starvation: Duration,
}

/// How long a corrected over-temperature must persist, in milliseconds.
pub const CORRECTED_TRIP_DWELL_MS: u64 = 2_000;
/// How long the two readings must disagree, in milliseconds.
pub const DIVERGENCE_DWELL_MS: u64 = 10_000;
/// The longest gap between samples that is not starvation, in milliseconds.
pub const RTD_STARVATION_MS: u64 = 5_000;

impl RtdLimits {
    /// Every limit is a real interval: a zero dwell would let one sample
    /// prove a condition, and a zero starvation limit would call any gap
    /// silence.
    pub open spec fn wf(self) -> bool {
        &&& self.corrected_trip_dwell.spec_nanos() > 0
        &&& self.divergence_dwell.spec_nanos() > 0
        &&& self.starvation.spec_nanos() > 0
    }

    /// The documented limits: a two-second corrected-trip dwell, a
    /// ten-second divergence dwell, and five seconds to starvation.
    pub fn documented() -> (l: RtdLimits)
        ensures
            l.corrected_trip_dwell.spec_nanos() == CORRECTED_TRIP_DWELL_MS * 1_000_000,
            l.divergence_dwell.spec_nanos() == DIVERGENCE_DWELL_MS * 1_000_000,
            l.starvation.spec_nanos() == RTD_STARVATION_MS * 1_000_000,
            l.wf(),
    {
        RtdLimits {
            corrected_trip_dwell: Duration::from_millis(CORRECTED_TRIP_DWELL_MS),
            divergence_dwell: Duration::from_millis(DIVERGENCE_DWELL_MS),
            starvation: Duration::from_millis(RTD_STARVATION_MS),
        }
    }
}

/// One reading from the amplifier, as far as the decisions need it.
#[derive(Copy, Clone, PartialEq, Eq, Debug, Structural)]
pub struct RtdSample {
    /// The raw temperature, °C, as the bits of an `f32`.
    pub raw_c_bits: u32,
    /// The MAX31865 fault register. Any non-zero bit is a fault.
    pub fault_register: u8,
    pub at: Monotonic,
}

/// What the caller's temperature arithmetic concluded about one sample.
#[derive(Copy, Clone, PartialEq, Eq, Debug, Structural)]
pub struct RtdJudgement {
    /// The raw reading is at or above the raw backstop.
    pub raw_over_trip: bool,
    /// The corrected reading is at or above the corrected trip.
    pub corrected_over_trip: bool,
    /// The corrected temperature, °C, as the bits of an `f32`.
    pub corrected_c_bits: u32,
    /// Against the valve's own current reading, when there is one.
    pub divergence: Option<Divergence>,
}

/// How the independent reading compares with the valve's own.
#[derive(Copy, Clone, PartialEq, Eq, Debug, Structural)]
pub struct Divergence {
    /// The two differ by more than the divergence limit.
    pub exceeds: bool,
    /// By how much, °C, as the bits of an `f32`.
    pub delta_c_bits: u32,
}

/// One zone's independent channel: when it last spoke, and how long each
/// dwelling condition has held.
#[derive(Copy, Clone, PartialEq, Eq, Debug, Structural)]
pub struct RtdWatch {
    zone: ZoneId,
    limits: RtdLimits,
    last_sample: Option<Monotonic>,
    over_corrected_since: Option<Monotonic>,
    diverged_since: Option<Monotonic>,
}

/// The dwell clock after a sample: started at the sample if it was not
/// running, kept if it was, and stopped when the condition does not hold.
pub open spec fn next_since(since: Option<Monotonic>, holds: bool, at: Monotonic) -> Option<Monotonic> {
    if holds {
        match since {
            Some(t) => Some(t),
            None => Some(at),
        }
    } else {
        None
    }
}

/// True when a running dwell clock has reached `limit` at `at`.
pub open spec fn dwell_reached(since: Option<Monotonic>, at: Monotonic, limit: Duration) -> bool {
    match since {
        Some(t) => at.span_since(t).spec_nanos() >= limit.spec_nanos(),
        None => false,
    }
}

impl RtdWatch {
    pub closed spec fn spec_zone(self) -> ZoneId {
        self.zone
    }

    pub closed spec fn spec_limits(self) -> RtdLimits {
        self.limits
    }

    /// A watch runs with real intervals as its limits.
    pub open spec fn wf(self) -> bool {
        self.spec_limits().wf()
    }

    pub closed spec fn spec_last_sample(self) -> Option<Monotonic> {
        self.last_sample
    }

    pub closed spec fn spec_over_since(self) -> Option<Monotonic> {
        self.over_corrected_since
    }

    pub closed spec fn spec_diverged_since(self) -> Option<Monotonic> {
        self.diverged_since
    }

    /// A channel that has never sampled, with no dwell running.
    /// A watch with nothing seen yet. The limits must be real intervals.
    pub fn new(zone: ZoneId, limits: RtdLimits) -> (w: RtdWatch)
        requires
            limits.wf(),
        ensures
            w.wf(),
            w.spec_zone() == zone,
            w.spec_limits() == limits,
            w.spec_last_sample() is None,
            w.spec_over_since() is None,
            w.spec_diverged_since() is None,
    {
        RtdWatch { zone, limits, last_sample: None, over_corrected_since: None, diverged_since: None }
    }

    pub fn zone(&self) -> (z: ZoneId)
        ensures
            z == self.spec_zone(),
    {
        self.zone
    }

    pub fn limits(&self) -> (l: RtdLimits)
        ensures
            l == self.spec_limits(),
    {
        self.limits
    }
}

/// The corrected over-temperature dwell clock after a sample: it runs only
/// while the outlet is on and the corrected reading is over the trip.
pub open spec fn over_since_after(w: RtdWatch, s: RtdSample, outlet_on: bool, j: RtdJudgement) -> Option<Monotonic> {
    if s.fault_register != 0 {
        None
    } else {
        next_since(w.spec_over_since(), outlet_on && j.corrected_over_trip, s.at)
    }
}

/// The divergence dwell clock after a sample: it runs only while there is a
/// valve reading to compare with and the two disagree.
pub open spec fn diverged_since_after(w: RtdWatch, s: RtdSample, j: RtdJudgement) -> Option<Monotonic> {
    if s.fault_register != 0 {
        None
    } else {
        next_since(w.spec_diverged_since(), j.divergence matches Some(d) && d.exceeds, s.at)
    }
}

/// The events one sample proves, in order: a faulted amplifier proves only
/// that it is faulted; otherwise the raw backstop (no dwell, no outlet gate),
/// then the corrected over-temperature, then the divergence, each once its
/// dwell has run.
pub open spec fn observed_events(w: RtdWatch, s: RtdSample, outlet_on: bool, j: RtdJudgement) -> Seq<SafetyEvent> {
    let zone = w.spec_zone();
    if s.fault_register != 0 {
        seq![SafetyEvent::RtdFaultRegister { zone, bits: s.fault_register }]
    } else {
        let over = over_since_after(w, s, outlet_on, j);
        let div = diverged_since_after(w, s, j);
        (if j.raw_over_trip {
            seq![SafetyEvent::IndependentRawOverTemperature { zone, raw_c_bits: s.raw_c_bits }]
        } else {
            Seq::empty()
        }) + (if dwell_reached(over, s.at, w.spec_limits().corrected_trip_dwell) {
            seq![
                SafetyEvent::IndependentOverTemperature {
                    zone,
                    corrected_c_bits: j.corrected_c_bits,
                    dwell: s.at.span_since(over->Some_0),
                },
            ]
        } else {
            Seq::empty()
        }) + (if dwell_reached(div, s.at, w.spec_limits().divergence_dwell) {
            seq![
                SafetyEvent::TemperatureDivergence {
                    zone,
                    delta_c_bits: j.divergence->Some_0.delta_c_bits,
                    dwell: s.at.span_since(div->Some_0),
                },
            ]
        } else {
            Seq::empty()
        })
    }
}

/// The starvation event at `now`, if the channel has spoken and has been
/// silent for longer than the limit.
pub open spec fn starvation_at(w: RtdWatch, now: Monotonic) -> Option<SafetyEvent> {
    match w.spec_last_sample() {
        None => None,
        Some(last) => if now.span_since(last).spec_nanos() > w.spec_limits().starvation.spec_nanos() {
            Some(SafetyEvent::RtdStarved { zone: w.spec_zone(), since: now.span_since(last) })
        } else {
            None
        },
    }
}

impl RtdWatch {
    /// Feeds a sample and returns whatever it proves. `judged` is the
    /// caller's reading of this sample; the valve's own reading is used only
    /// for the divergence check, never in place of the independent one.
    pub fn observe(&mut self, sample: RtdSample, outlet_on: bool, judged: RtdJudgement) -> (out: RtdEvents)
        ensures
            final(self).spec_zone() == old(self).spec_zone(),
            final(self).spec_limits() == old(self).spec_limits(),
            old(self).wf() ==> final(self).wf(),
            final(self).spec_last_sample() == Some(sample.at),
            final(self).spec_over_since() == over_since_after(*old(self), sample, outlet_on, judged),
            final(self).spec_diverged_since() == diverged_since_after(*old(self), sample, judged),
            rtd_events_of(out) == observed_events(*old(self), sample, outlet_on, judged),
    {
        let ghost w0 = *self;
        let mut out = RtdEvents::new();
        self.last_sample = Some(sample.at);
        if sample.fault_register != 0 {
            self.over_corrected_since = None;
            self.diverged_since = None;
            out.push(SafetyEvent::RtdFaultRegister { zone: self.zone, bits: sample.fault_register });
            proof {
                assert(rtd_events_of(out) =~= observed_events(w0, sample, outlet_on, judged));
            }
            return out;
        }
        let ghost raw_part: Seq<SafetyEvent> = if judged.raw_over_trip {
            seq![SafetyEvent::IndependentRawOverTemperature { zone: w0.spec_zone(), raw_c_bits: sample.raw_c_bits }]
        } else {
            Seq::empty()
        };
        if judged.raw_over_trip {
            out.push(SafetyEvent::IndependentRawOverTemperature { zone: self.zone, raw_c_bits: sample.raw_c_bits });
        }
        proof {
            assert(rtd_events_of(out) =~= raw_part);
        }
        let ghost over = over_since_after(w0, sample, outlet_on, judged);
        let ghost over_part: Seq<SafetyEvent> = if dwell_reached(over, sample.at, w0.spec_limits().corrected_trip_dwell) {
            seq![
                SafetyEvent::IndependentOverTemperature {
                    zone: w0.spec_zone(),
                    corrected_c_bits: judged.corrected_c_bits,
                    dwell: sample.at.span_since(over->Some_0),
                },
            ]
        } else {
            Seq::empty()
        };
        if outlet_on && judged.corrected_over_trip {
            let since = match self.over_corrected_since {
                Some(t) => t,
                None => sample.at,
            };
            self.over_corrected_since = Some(since);
            let dwell = sample.at.since(since);
            proof {
                sample.at.lemma_span_since(since);
            }
            if !dwell.is_shorter_than(&self.limits.corrected_trip_dwell) {
                out.push(SafetyEvent::IndependentOverTemperature {
                    zone: self.zone,
                    corrected_c_bits: judged.corrected_c_bits,
                    dwell,
                });
            }
        } else {
            self.over_corrected_since = None;
        }
        proof {
            assert(rtd_events_of(out) =~= raw_part + over_part);
        }
        let ghost div = diverged_since_after(w0, sample, judged);
        let ghost div_part: Seq<SafetyEvent> = if dwell_reached(div, sample.at, w0.spec_limits().divergence_dwell) {
            seq![
                SafetyEvent::TemperatureDivergence {
                    zone: w0.spec_zone(),
                    delta_c_bits: judged.divergence->Some_0.delta_c_bits,
                    dwell: sample.at.span_since(div->Some_0),
                },
            ]
        } else {
            Seq::empty()
        };
        match judged.divergence {
            Some(Divergence { exceeds: true, delta_c_bits }) => {
                let since = match self.diverged_since {
                    Some(t) => t,
                    None => sample.at,
                };
                self.diverged_since = Some(since);
                let dwell = sample.at.since(since);
                proof {
                    sample.at.lemma_span_since(since);
                }
                if !dwell.is_shorter_than(&self.limits.divergence_dwell) {
                    out.push(SafetyEvent::TemperatureDivergence { zone: self.zone, delta_c_bits, dwell });
                }
            },
            _ => {
                self.diverged_since = None;
            },
        }
        proof {
            assert(rtd_events_of(out) =~= raw_part + over_part + div_part);
            assert(rtd_events_of(out) =~= observed_events(w0, sample, outlet_on, judged));
        }
        out
    }

    /// Checks for starvation: called on the service's own tick, because the
    /// absence of a sample cannot announce itself. A channel that has never
    /// spoken reports nothing here; see [`RtdWatch::has_never_sampled`].
    pub fn check_starvation(&self, now: Monotonic) -> (r: Option<SafetyEvent>)
        ensures
            r == starvation_at(*self, now),
    {
        match self.last_sample {
            None => None,
            Some(last) => {
                let gap = now.since(last);
                proof {
                    now.lemma_span_since(last);
                }
                if self.limits.starvation.is_shorter_than(&gap) {
                    Some(SafetyEvent::RtdStarved { zone: self.zone, since: gap })
                } else {
                    None
                }
            },
        }
    }

    /// A channel that has never produced a sample: a startup condition,
    /// distinct from starvation.
    pub fn has_never_sampled(&self) -> (b: bool)
        ensures
            b == self.spec_last_sample() is None,
    {
        self.last_sample.is_none()
    }
}

/// **A faulted amplifier proves only that it is faulted.** Whatever else the
/// sample would say, a non-zero fault register yields exactly one event, and
/// both dwell clocks stop.
pub proof fn lemma_fault_suppresses_judgement(w: RtdWatch, s: RtdSample, outlet_on: bool, j: RtdJudgement)
    requires
        s.fault_register != 0,
    ensures
        observed_events(w, s, outlet_on, j) == seq![SafetyEvent::RtdFaultRegister { zone: w.spec_zone(), bits: s.fault_register }],
        over_since_after(w, s, outlet_on, j) is None,
        diverged_since_after(w, s, j) is None,
{
}

/// **One hot sample is not enough.** With no dwell running, a sample over the
/// corrected trip starts the clock and reports nothing about it; and a closed
/// outlet never trips the corrected check.
pub proof fn lemma_corrected_trip_needs_dwell(w: RtdWatch, s: RtdSample, outlet_on: bool, j: RtdJudgement)
    requires
        s.fault_register == 0,
        w.spec_over_since() is None,
        w.wf(),
    ensures
        !observed_events(w, s, outlet_on, j).contains(
            SafetyEvent::IndependentOverTemperature {
                zone: w.spec_zone(),
                corrected_c_bits: j.corrected_c_bits,
                dwell: s.at.span_since(s.at),
            },
        ),
        !outlet_on ==> over_since_after(w, s, outlet_on, j) is None,
{
    s.at.lemma_span_since(s.at);
    let over = over_since_after(w, s, outlet_on, j);
    assert(!dwell_reached(over, s.at, w.spec_limits().corrected_trip_dwell));
    let ev = observed_events(w, s, outlet_on, j);
    let raw_part: Seq<SafetyEvent> = if j.raw_over_trip {
        seq![SafetyEvent::IndependentRawOverTemperature { zone: w.spec_zone(), raw_c_bits: s.raw_c_bits }]
    } else {
        Seq::empty()
    };
    let div = diverged_since_after(w, s, j);
    let div_part: Seq<SafetyEvent> = if dwell_reached(div, s.at, w.spec_limits().divergence_dwell) {
        seq![
            SafetyEvent::TemperatureDivergence {
                zone: w.spec_zone(),
                delta_c_bits: j.divergence->Some_0.delta_c_bits,
                dwell: s.at.span_since(div->Some_0),
            },
        ]
    } else {
        Seq::empty()
    };
    assert(ev =~= raw_part + div_part);
}

/// **A fault restarts the dwell.** After a faulted sample stops the
/// corrected-trip clock, the next healthy sample, however hot, reports no
/// corrected over-temperature: the condition must persist afresh.
pub proof fn lemma_fault_restarts_dwell(
    w: RtdWatch,
    faulted: RtdSample,
    on1: bool,
    j1: RtdJudgement,
    after: RtdWatch,
    next: RtdSample,
    on2: bool,
    j2: RtdJudgement,
)
    requires
        w.wf(),
        faulted.fault_register != 0,
        after.spec_zone() == w.spec_zone(),
        after.spec_limits() == w.spec_limits(),
        after.spec_over_since() == over_since_after(w, faulted, on1, j1),
        next.fault_register == 0,
    ensures
        forall|i: int|
            0 <= i < observed_events(after, next, on2, j2).len() ==> !(
            #[trigger] observed_events(after, next, on2, j2)[i] is IndependentOverTemperature),
{
    next.at.lemma_span_since(next.at);
    let over = over_since_after(after, next, on2, j2);
    assert(!dwell_reached(over, next.at, after.spec_limits().corrected_trip_dwell));
    let ev = observed_events(after, next, on2, j2);
    let raw_part: Seq<SafetyEvent> = if j2.raw_over_trip {
        seq![SafetyEvent::IndependentRawOverTemperature { zone: after.spec_zone(), raw_c_bits: next.raw_c_bits }]
    } else {
        Seq::empty()
    };
    let div = diverged_since_after(after, next, j2);
    let div_part: Seq<SafetyEvent> = if dwell_reached(div, next.at, after.spec_limits().divergence_dwell) {
        seq![
            SafetyEvent::TemperatureDivergence {
                zone: after.spec_zone(),
                delta_c_bits: j2.divergence->Some_0.delta_c_bits,
                dwell: next.at.span_since(div->Some_0),
            },
        ]
    } else {
        Seq::empty()
    };
    assert(ev =~= raw_part + div_part);
}

} // verus!
