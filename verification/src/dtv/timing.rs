//! DTV+ link timings, with both documented readings of the tick and the retry
//! count plumbed as configuration. There is no echo timeout: the converters
//! present no local echo.
use vstd::prelude::*;
use crate::time::Duration;
use crate::saturn::timing::{line_time_nanos, spec_line_time_nanos, spec_worst_case};

verus! {

/// The fast tick reading, and the floor no configuration may go below.
pub const TICK_FAST_MS: u64 = 150;
/// The slow tick reading, and the default.
pub const TICK_SLOW_MS: u64 = 500;
/// The reply deadline.
pub const REPLY_MS: u64 = 300;
/// The address-enquiry deadline.
pub const ADDRESS_ENQUIRY_TIMEOUT_MS: u64 = 400;

/// The complete timing set for the steam link.
#[derive(Copy, Clone, PartialEq, Eq, Debug)]
pub struct DtvTimings {
    /// The configured tick: one of the two candidates below.
    pub tick: Duration,
    pub tick_candidate_fast: Duration,
    pub tick_candidate_slow: Duration,
    pub reply: Duration,
    pub address_enquiry_timeout: Duration,
    /// Retries after the first attempt: 4 or 5 by source, default 4.
    pub retries: u8,
    pub retries_alternate: u8,
    /// Consecutive failed transmissions before the link is declared down.
    pub max_tx_failures: u16,
    /// The ceiling on one transaction.
    pub transaction_budget: Duration,
}

/// Why a timing change was refused.
#[derive(Copy, Clone, PartialEq, Eq, Debug, Structural)]
pub enum TimingError {
    TickBelowFloor { requested_ms: u64, floor_ms: u64 },
    RetriesAboveMaximum { requested: u8, max: u8 },
}

/// The documented starting position.
pub open spec fn is_documented(t: DtvTimings) -> bool {
    &&& t.tick.spec_nanos() == TICK_SLOW_MS * 1_000_000
    &&& t.tick_candidate_fast.spec_nanos() == TICK_FAST_MS * 1_000_000
    &&& t.tick_candidate_slow.spec_nanos() == TICK_SLOW_MS * 1_000_000
    &&& t.reply.spec_nanos() == REPLY_MS * 1_000_000
    &&& t.address_enquiry_timeout.spec_nanos() == ADDRESS_ENQUIRY_TIMEOUT_MS * 1_000_000
    &&& t.retries == 4
    &&& t.retries_alternate == 5
    &&& t.max_tx_failures == 250
    &&& t.transaction_budget.spec_nanos() == TICK_SLOW_MS * 1_000_000
}

/// A duration in whole milliseconds, saturating at `u64::MAX`.
pub open spec fn spec_millis(d: Duration) -> int {
    if d.spec_nanos() / 1_000_000 <= u64::MAX { d.spec_nanos() / 1_000_000 } else { u64::MAX as int }
}

fn millis(d: Duration) -> (m: u64)
    ensures
        m == spec_millis(d),
{
    let ms = d.as_millis();
    if ms <= u64::MAX as u128 { ms as u64 } else { u64::MAX }
}

impl DtvTimings {
    /// Retries for recovery: the default reading.
    pub const RETRIES_RECOVERY: u8 = 4;
    /// Retries by the protocol source, and the ceiling.
    pub const RETRIES_PROTOCOL: u8 = 5;
    pub const RETRIES_MAX: u8 = 5;
    pub const MAX_TX_FAILURES: u16 = 250;

    /// The fast tick candidate, which is also the floor.
    pub fn tick_fast() -> (d: Duration)
        ensures
            d.spec_nanos() == TICK_FAST_MS * 1_000_000,
    {
        Duration::from_millis(TICK_FAST_MS)
    }

    /// The slow tick candidate.
    pub fn tick_slow() -> (d: Duration)
        ensures
            d.spec_nanos() == TICK_SLOW_MS * 1_000_000,
    {
        Duration::from_millis(TICK_SLOW_MS)
    }

    /// The tick floor.
    pub fn tick_floor() -> (d: Duration)
        ensures
            d.spec_nanos() == TICK_FAST_MS * 1_000_000,
    {
        Duration::from_millis(TICK_FAST_MS)
    }

    /// The reply deadline.
    pub fn reply_deadline() -> (d: Duration)
        ensures
            d.spec_nanos() == REPLY_MS * 1_000_000,
    {
        Duration::from_millis(REPLY_MS)
    }

    /// The documented starting position.
    pub fn documented() -> (t: DtvTimings)
        ensures
            is_documented(t),
            t.wf(),
    {
        DtvTimings {
            tick: Duration::from_millis(TICK_SLOW_MS),
            tick_candidate_fast: Duration::from_millis(TICK_FAST_MS),
            tick_candidate_slow: Duration::from_millis(TICK_SLOW_MS),
            reply: Duration::from_millis(REPLY_MS),
            address_enquiry_timeout: Duration::from_millis(ADDRESS_ENQUIRY_TIMEOUT_MS),
            retries: 4,
            retries_alternate: 5,
            max_tx_failures: 250,
            transaction_budget: Duration::from_millis(TICK_SLOW_MS),
        }
    }

    pub open spec fn wf(self) -> bool {
        self.reply.wf() && self.transaction_budget.wf()
    }

    /// Selects another tick; below the floor is refused.
    pub fn with_tick(self, tick: Duration) -> (r: Result<DtvTimings, TimingError>)
        ensures
            r is Ok <==> tick.spec_nanos() >= TICK_FAST_MS * 1_000_000,
            r matches Ok(t) ==> t == (DtvTimings { tick, ..self }),
            r matches Err(e) ==> e == (TimingError::TickBelowFloor {
                requested_ms: spec_millis(tick) as u64,
                floor_ms: TICK_FAST_MS,
            }),
    {
        let floor = DtvTimings::tick_floor();
        if tick.is_shorter_than(&floor) {
            let f = millis(floor);
            return Err(TimingError::TickBelowFloor { requested_ms: millis(tick), floor_ms: f });
        }
        Ok(DtvTimings { tick, ..self })
    }

    /// Selects another retry count; above five is refused.
    pub fn with_retries(self, retries: u8) -> (r: Result<DtvTimings, TimingError>)
        ensures
            r is Ok <==> retries <= DtvTimings::RETRIES_MAX,
            r matches Ok(t) ==> t == (DtvTimings { retries, ..self }),
            r matches Err(e) ==> e == (TimingError::RetriesAboveMaximum {
                requested: retries,
                max: DtvTimings::RETRIES_MAX,
            }),
    {
        if retries > DtvTimings::RETRIES_MAX {
            return Err(TimingError::RetriesAboveMaximum { requested: retries, max: DtvTimings::RETRIES_MAX });
        }
        Ok(DtvTimings { retries, ..self })
    }

    /// The first attempt plus every retry, each waiting a full reply deadline.
    pub fn worst_case_transaction(&self) -> (d: Duration)
        requires
            self.wf(),
        ensures
            d.wf(),
            d.spec_nanos() == spec_worst_case(self.reply, self.retries),
    {
        self.reply.saturating_mul(self.retries as u32 + 1)
    }

    /// True when the retry train cannot finish inside its budget.
    pub fn retry_train_overruns_budget(&self) -> (b: bool)
        requires
            self.wf(),
        ensures
            b == (spec_worst_case(self.reply, self.retries) > self.transaction_budget.spec_nanos()),
    {
        let w = self.worst_case_transaction();
        self.transaction_budget.is_shorter_than(&w)
    }

    /// Line time of a frame at 9600 baud 8N1.
    pub fn line_time(frame_len: usize) -> (d: Duration)
        ensures
            d.wf(),
            d.spec_nanos() == spec_line_time_nanos(frame_len as int),
    {
        line_time_nanos(frame_len)
    }
}

impl Default for DtvTimings {
    fn default() -> (t: DtvTimings)
        ensures
            is_documented(t),
            t.wf(),
    {
        DtvTimings::documented()
    }
}

} // verus!
