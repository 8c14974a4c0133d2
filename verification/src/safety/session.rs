//! When a running session must stop. Built from a monotonic reading, so a
//! wall-clock step cannot lengthen or shorten a session, and with no
//! operation that extends one: a longer session is a new session.
use vstd::prelude::*;
use crate::time::{Duration, Monotonic};
use crate::units::{SessionDuration, session_hard_limit_nanos};

verus! {

/// The shortest of three spans, in nanoseconds.
pub open spec fn min3(a: int, b: int, c: int) -> int {
    let ab = if a <= b { a } else { b };
    if ab <= c { ab } else { c }
}

/// A running session's start and expiry.
#[derive(Copy, Clone, PartialEq, Eq, Debug, Structural)]
pub struct SessionDeadline {
    started: Monotonic,
    expires: Monotonic,
}

impl SessionDeadline {
    pub closed spec fn spec_started(self) -> Monotonic {
        self.started
    }

    pub closed spec fn spec_expires(self) -> Monotonic {
        self.expires
    }

    /// Twenty minutes.
    pub fn hard_limit() -> (d: Duration)
        ensures
            d.spec_nanos() == session_hard_limit_nanos(),
    {
        SessionDuration::hard_limit()
    }

    /// Starts a session. Its length is the shortest of the request, the
    /// configured cap and the hard limit; a cap can only shorten. An expiry
    /// past the end of the clock leaves the session already expired.
    pub fn start(now: Monotonic, requested: SessionDuration, cap: SessionDuration) -> (s: SessionDeadline)
        ensures
            s.spec_started() == now,
            ({
                let d = min3(
                    requested.spec_get().spec_nanos(),
                    cap.spec_get().spec_nanos(),
                    session_hard_limit_nanos(),
                );
                s.spec_expires().spec_nanos() == if now.spec_nanos() + d <= u64::MAX {
                    now.spec_nanos() + d
                } else {
                    now.spec_nanos()
                }
            }),
            s.spec_expires().spec_nanos() - s.spec_started().spec_nanos() <= session_hard_limit_nanos(),
            s.spec_expires().spec_nanos() - s.spec_started().spec_nanos() <= cap.spec_get().spec_nanos(),
            s.spec_expires().spec_nanos() - s.spec_started().spec_nanos() <= requested.spec_get().spec_nanos(),
            s.spec_expires().spec_nanos() >= s.spec_started().spec_nanos(),
    {
        let r = requested.get();
        let c = cap.get();
        let h = SessionDuration::hard_limit();
        let d1 = if r.as_nanos() <= c.as_nanos() { r } else { c };
        let d = if d1.as_nanos() <= h.as_nanos() { d1 } else { h };
        let expires = match now.checked_add(d) {
            Some(e) => e,
            None => now,
        };
        proof { now.lemma_range(); }
        SessionDeadline { started: now, expires }
    }

    /// True from the expiry instant on.
    pub fn expired(&self, now: Monotonic) -> (b: bool)
        ensures
            b == (now.spec_nanos() >= self.spec_expires().spec_nanos()),
    {
        now.is_at_or_after(&self.expires)
    }

    /// Time left, or zero once expired.
    pub fn remaining(&self, now: Monotonic) -> (d: Duration)
        ensures
            d.spec_nanos() == if self.spec_expires().spec_nanos() >= now.spec_nanos() {
                self.spec_expires().spec_nanos() - now.spec_nanos()
            } else {
                0
            },
    {
        self.expires.since(now)
    }

    /// Time since the start, or zero before it.
    pub fn elapsed(&self, now: Monotonic) -> (d: Duration)
        ensures
            d.spec_nanos() == if now.spec_nanos() >= self.spec_started().spec_nanos() {
                now.spec_nanos() - self.spec_started().spec_nanos()
            } else {
                0
            },
    {
        now.since(self.started)
    }

    pub fn expires_at(&self) -> (m: Monotonic)
        ensures
            m == self.spec_expires(),
    {
        self.expires
    }
}

/// **No session outlives the hard limit.** Whatever was requested and
/// whatever cap was configured, a session started at `now` has expired by
/// `now` plus twenty minutes.
pub proof fn lemma_session_bounded(s: SessionDeadline, now: Monotonic)
    requires
        s.spec_expires().spec_nanos() - s.spec_started().spec_nanos() <= session_hard_limit_nanos(),
        now.spec_nanos() >= s.spec_started().spec_nanos() + session_hard_limit_nanos(),
    ensures
        now.spec_nanos() >= s.spec_expires().spec_nanos(),
{
}

} // verus!
