//! The message-assurance engine: what a session remembers of the QoS 1 and
//! QoS 2 messages that are on their way, and how it retries them.
//!
//! Time is a number of milliseconds on a clock that the caller reads; every
//! operation that looks at the time takes the reading as an argument.
pub mod sender;

use vstd::prelude::*;

verus! {

/// The retry interval of a fresh inflight message, in milliseconds.
pub const RETRY_BASE: u64 = 200;

/// The longest retry interval, in milliseconds.
pub const RETRY_MAX: u64 = u64::MAX;

/// Where a QoS 1 message stands.
#[derive(Clone, Copy, Debug, PartialEq, Eq, Structural)]
pub enum QoS1Stage {
    /// Sent from here; the PUBACK is awaited.
    Origin,
    /// Arrived here.
    Publish,
    /// Acknowledged; the entry waits to be cleaned up.
    Ack,
}

/// Twice an interval, but no more than `RETRY_MAX`.
pub open spec fn spec_backoff(millis: u64) -> u64 {
    if 2 * millis <= RETRY_MAX {
        (2 * millis) as u64
    } else {
        RETRY_MAX
    }
}

/// An interval that grows under exponential backoff.
pub trait ExponentialBackoff: Sized {
    /// The interval in milliseconds.
    spec fn spec_inner(&self) -> u64;

    /// The next interval under backoff: twice this one, up to `RETRY_MAX`.
    fn exponential(&self) -> (next: u64)
        ensures
            next == spec_backoff(self.spec_inner()),
    ;

    /// The interval in milliseconds.
    fn inner(&self) -> (millis: u64)
        ensures
            millis == self.spec_inner(),
    ;

    fn set_duration(&mut self, dur: u64)
        ensures
            final(self).spec_inner() == dur,
    ;
}

/// The retry interval of an inflight message.
#[derive(Debug, Clone, Copy, PartialEq, Eq, Structural)]
pub struct RetryDuration {
    dur: u64,
}

impl View for RetryDuration {
    type V = u64;

    /// The interval in milliseconds.
    closed spec fn view(&self) -> u64 {
        self.dur
    }
}

impl RetryDuration {
    /// The interval of a fresh inflight message: `RETRY_BASE`.
    pub fn default() -> (d: Self)
        ensures
            d@ == RETRY_BASE,
    {
        Self { dur: RETRY_BASE }
    }
}

impl ExponentialBackoff for RetryDuration {
    closed spec fn spec_inner(&self) -> u64 {
        self.dur
    }

    fn exponential(&self) -> (next: u64) {
        match self.dur.checked_mul(2) {
            Some(next) => next,
            None => RETRY_MAX,
        }
    }

    fn inner(&self) -> (millis: u64) {
        self.dur
    }

    fn set_duration(&mut self, dur: u64) {
        self.dur = dur;
    }
}

/// Backoff never shortens an interval, and doubles it as long as the
/// double is within `RETRY_MAX`.
pub proof fn lemma_backoff_grows(millis: u64)
    ensures
        spec_backoff(millis) >= millis,
        2 * millis <= RETRY_MAX ==> spec_backoff(millis) == 2 * millis,
        spec_backoff(millis) <= RETRY_MAX,
{
}

} // verus!
