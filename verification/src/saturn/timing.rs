//! Saturn link timing. Every figure is third-party and unmeasured here; where
//! the sources disagree both values are carried and neither is declared
//! correct. There is no echo timeout: the converters present no local echo.
use vstd::prelude::*;
use crate::time::Duration;

verus! {

/// Line settings for the Saturn bus.
pub const BAUD: u32 = 9600;
pub const DATA_BITS: u8 = 8;
pub const STOP_BITS: u8 = 1;

/// `VALVE_PORT_TICK_TIME`, ms.
pub const TICK_MS: u64 = 525;
/// Response timeout, candidate A, ms.
pub const RESPONSE_LONG_MS: u64 = 400;
/// Response timeout, candidate B (`VALVE_MESSAGE_TIMEOUT`), ms.
pub const RESPONSE_SHORT_MS: u64 = 320;
/// `ADDRESS_ENQUIRY_TIMEOUT`, ms.
pub const ADDRESS_ENQUIRY_TIMEOUT_MS: u64 = 400;
/// `ADDRESS_ENQUIRY_RATE_TIME`, ms.
pub const ADDRESS_ENQUIRY_RATE_MS: u64 = 2000;
/// `ADDRESS_CLEAR_DELAY_TIME`, ms.
pub const ADDRESS_CLEAR_DELAY_MS: u64 = 2000;
/// `STAGGER_TIME`, ms.
pub const STAGGER_MS: u64 = 500;

/// The complete timing set for one Saturn link.
#[derive(Copy, Clone, PartialEq, Eq, Debug)]
pub struct Timings {
    /// One request per tick per port, no faster.
    pub tick: Duration,
    /// The deadline the decoder enforces: one of the two candidates below.
    pub response: Duration,
    pub response_candidate_long: Duration,
    pub response_candidate_short: Duration,
    pub address_enquiry_timeout: Duration,
    pub address_enquiry_rate: Duration,
    pub address_clear_delay: Duration,
    /// Solenoids are energised one at a time at this spacing.
    pub stagger: Duration,
    /// Retries for an ordinary read or write: 3 or 5 by source, default 3.
    pub retries: u8,
    pub retries_alternate: u8,
    /// Retries for an address enquiry.
    pub address_retries: u8,
    /// The ceiling on one transaction: request, wait, and every retry.
    pub transaction_budget: Duration,
}

/// `a * b`, saturating at `u64::MAX`.
pub open spec fn sat_mul_u64(a: int, b: int) -> int {
    if a * b <= u64::MAX { a * b } else { u64::MAX as int }
}

/// The nanoseconds a frame of `frame_len` bytes takes at 9600 baud 8N1: ten
/// bits per byte, with the arithmetic saturating at `u64::MAX`.
pub open spec fn spec_line_time_nanos(frame_len: int) -> int {
    sat_mul_u64(sat_mul_u64(frame_len, 10), 1_000_000_000) / 9600
}

/// The worst-case wall time of a retry train: the first attempt plus
/// `retries` more, each waiting a full deadline, saturating.
pub open spec fn spec_worst_case(deadline: Duration, retries: u8) -> int {
    if deadline.spec_nanos() * (retries + 1) <= crate::time::duration_max_nanos() {
        deadline.spec_nanos() * (retries + 1)
    } else {
        crate::time::duration_max_nanos()
    }
}

/// Line time of a frame at 9600 baud, ten bits per byte.
pub fn line_time_nanos(frame_len: usize) -> (d: Duration)
    ensures
        d.wf(),
        d.spec_nanos() == spec_line_time_nanos(frame_len as int),
{
    let bits: u64 = if frame_len as u64 <= u64::MAX / 10 { frame_len as u64 * 10 } else { u64::MAX };
    let scaled: u64 = if bits <= u64::MAX / 1_000_000_000 { bits * 1_000_000_000 } else { u64::MAX };
    Duration::from_nanos(scaled / 9600)
}

/// The documented starting position, every value as the sources state it.
pub open spec fn is_documented(t: Timings) -> bool {
    &&& t.tick.spec_nanos() == TICK_MS * 1_000_000
    &&& t.response.spec_nanos() == RESPONSE_SHORT_MS * 1_000_000
    &&& t.response_candidate_long.spec_nanos() == RESPONSE_LONG_MS * 1_000_000
    &&& t.response_candidate_short.spec_nanos() == RESPONSE_SHORT_MS * 1_000_000
    &&& t.address_enquiry_timeout.spec_nanos() == ADDRESS_ENQUIRY_TIMEOUT_MS * 1_000_000
    &&& t.address_enquiry_rate.spec_nanos() == ADDRESS_ENQUIRY_RATE_MS * 1_000_000
    &&& t.address_clear_delay.spec_nanos() == ADDRESS_CLEAR_DELAY_MS * 1_000_000
    &&& t.stagger.spec_nanos() == STAGGER_MS * 1_000_000
    &&& t.retries == 3
    &&& t.retries_alternate == 5
    &&& t.address_retries == 3
    &&& t.transaction_budget.spec_nanos() == TICK_MS * 1_000_000
}

impl Timings {
    /// Retries for an ordinary read or write under one source.
    pub const RETRIES_ROUTINE: u8 = 3;
    /// Retries under the other source.
    pub const RETRIES_CRITICAL: u8 = 5;

    /// The documented starting position.
    pub fn documented() -> (t: Timings)
        ensures
            is_documented(t),
            t.wf(),
    {
        Timings {
            tick: Duration::from_millis(TICK_MS),
            response: Duration::from_millis(RESPONSE_SHORT_MS),
            response_candidate_long: Duration::from_millis(RESPONSE_LONG_MS),
            response_candidate_short: Duration::from_millis(RESPONSE_SHORT_MS),
            address_enquiry_timeout: Duration::from_millis(ADDRESS_ENQUIRY_TIMEOUT_MS),
            address_enquiry_rate: Duration::from_millis(ADDRESS_ENQUIRY_RATE_MS),
            address_clear_delay: Duration::from_millis(ADDRESS_CLEAR_DELAY_MS),
            stagger: Duration::from_millis(STAGGER_MS),
            retries: Self::RETRIES_ROUTINE,
            retries_alternate: Self::RETRIES_CRITICAL,
            address_retries: 3,
            transaction_budget: Duration::from_millis(TICK_MS),
        }
    }

    /// Every duration within the representable ceiling.
    pub open spec fn wf(self) -> bool {
        self.response.wf() && self.transaction_budget.wf()
    }

    /// The worst-case wall time of a full retry train.
    pub fn worst_case_transaction(&self) -> (d: Duration)
        requires
            self.wf(),
        ensures
            d.wf(),
            d.spec_nanos() == spec_worst_case(self.response, self.retries),
    {
        self.response.saturating_mul(self.retries as u32 + 1)
    }

    /// True when the retry train cannot finish inside its budget.
    pub fn retry_train_overruns_budget(&self) -> (b: bool)
        requires
            self.wf(),
        ensures
            b == (spec_worst_case(self.response, self.retries) > self.transaction_budget.spec_nanos()),
    {
        let w = self.worst_case_transaction();
        self.transaction_budget.is_shorter_than(&w)
    }

    /// Line time for a frame at 9600 baud 8N1: ten bits per byte.
    pub fn line_time(frame_len: usize) -> (d: Duration)
        ensures
            d.wf(),
            d.spec_nanos() == spec_line_time_nanos(frame_len as int),
    {
        line_time_nanos(frame_len)
    }
}

impl Default for Timings {
    fn default() -> (t: Timings)
        ensures
            is_documented(t),
            t.wf(),
    {
        Timings::documented()
    }
}

} // verus!
