//! The download driver's retry policy. Downloads run strictly
//! sequentially; the one recoverable signal from the content service is
//! HTTP 429, which engages a run-wide fixed delay. The policy here decides
//! what each response status means; the loop around it performs the HTTP
//! calls and the sleeps.

use vstd::prelude::*;

verus! {

/// The fixed delay, in seconds, paid before every attempt once the
/// content service has signalled overload.
pub const BACKOFF_DELAY_SECS: u64 = 5;

/// What a response status means for the download in progress.
#[derive(Clone, Copy, PartialEq, Eq, Structural, Debug)]
pub enum StatusOutcome {
    /// First 429 of the run: engage the backoff and warn once.
    RetryEngaged,
    /// A 429 while the backoff is already engaged: warn again, delay
    /// unchanged.
    RetryRepeat,
    /// A 2xx status: the body is the replay, write it out.
    Success,
    /// Any other status: fatal for the run, no retry.
    Fatal,
}

/// The run-wide backoff state: whether the content service has signalled
/// overload at least once. Once engaged it is never reset for the rest of
/// the run.
pub struct Backoff {
    pub engaged: bool,
}

/// Whether a status is a success in the 2xx range.
pub open spec fn spec_is_success(status: u16) -> bool {
    200 <= status < 300
}

impl Backoff {
    /// A fresh run starts with the backoff disengaged.
    pub fn new() -> (b: Backoff)
        ensures
            !b.engaged,
    {
        Backoff { engaged: false }
    }

    /// Whether the fixed delay is owed before the next request: exactly
    /// when the backoff is engaged.
    pub fn delay_before_attempt(&self) -> (d: bool)
        ensures
            d == self.engaged,
    {
        self.engaged
    }

    /// Classify a response status and update the backoff state: 429
    /// engages (or re-signals) the backoff and asks for a retry, a 2xx
    /// status is a success, and anything else is fatal. Only a 429 ever
    /// changes the state, and only from disengaged to engaged.
    pub fn on_status(&mut self, status: u16) -> (o: StatusOutcome)
        ensures
            status == 429 && !old(self).engaged ==> o == StatusOutcome::RetryEngaged,
            status == 429 && old(self).engaged ==> o == StatusOutcome::RetryRepeat,
            status == 429 ==> final(self).engaged,
            status != 429 ==> final(self).engaged == old(self).engaged,
            status != 429 && spec_is_success(status) ==> o == StatusOutcome::Success,
            status != 429 && !spec_is_success(status) ==> o == StatusOutcome::Fatal,
    {
        if status == 429 {
            if self.engaged {
                StatusOutcome::RetryRepeat
            } else {
                self.engaged = true;
                StatusOutcome::RetryEngaged
            }
        } else if 200 <= status && status < 300 {
            StatusOutcome::Success
        } else {
            StatusOutcome::Fatal
        }
    }
}

} // verus!
