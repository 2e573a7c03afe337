//! How the listener recovers from failed accepts, and what draining its queue
//! shows.

use vstd::arithmetic::power2::{lemma2_to64, lemma_pow2_pos, lemma_pow2_unfold, pow2};
use vstd::prelude::*;

use crate::time::{checked_after, moment_after};

verus! {

/// The most sockets that one drain takes before it yields. A full batch is
/// never evidence that the queue is empty.
pub const ACCEPT_DRAIN_BATCH: usize = 256;

/// The first delay after a failed accept, in nanoseconds.
pub const ACCEPT_RETRY_INITIAL: u128 = 5_000_000;

/// The longest delay between accepts, in nanoseconds.
pub const ACCEPT_RETRY_MAX: u128 = 1_000_000_000;

/// What draining the accept queue showed.
#[derive(Clone, Copy, Debug, PartialEq, Eq, Structural)]
pub enum DrainResult {
    /// The queue was seen empty.
    Drained,
    /// A whole batch was taken, and more may wait.
    BatchFull,
    /// The listener failed.
    AcceptFailed,
}

/// What follows from a drain.
#[derive(Clone, Copy, Debug, PartialEq, Eq, Structural)]
pub enum DrainVerdict {
    /// What waited for the drain may happen.
    Proceed,
    /// The drain has to be repeated.
    Retry,
    /// The listener cannot be inspected.
    Unavailable,
}

/// What the accept queue showed.
#[derive(Clone, Copy, Debug, PartialEq, Eq, Structural)]
pub enum AcceptPoll {
    /// A socket was taken from it.
    Accepted,
    /// It was empty.
    Empty,
    Failed,
}

/// A drain as far as it has come.
#[derive(Clone, Copy, Debug, PartialEq, Eq, Structural)]
pub struct Drain {
    /// The sockets that it took.
    pub taken: usize,
}

/// What a drain that took so many sockets shows, once it is over.
pub open spec fn drain_result(taken: int, poll: AcceptPoll) -> Option<DrainResult> {
    match poll {
        AcceptPoll::Empty => Some(DrainResult::Drained),
        AcceptPoll::Failed => Some(DrainResult::AcceptFailed),
        AcceptPoll::Accepted => if taken + 1 < ACCEPT_DRAIN_BATCH {
            None
        } else {
            Some(DrainResult::BatchFull)
        },
    }
}

impl Drain {
    pub fn new() -> (drain: Self)
        ensures
            drain == (Drain { taken: 0 }),
    {
        Drain { taken: 0 }
    }

    /// Take note of one look at the queue. There is no result as long as the
    /// drain goes on.
    pub fn note(&mut self, poll: AcceptPoll) -> (result: Option<DrainResult>)
        requires
            old(self).taken < ACCEPT_DRAIN_BATCH,
        ensures
            result == drain_result(old(self).taken as int, poll),
            final(self).taken == old(self).taken + (if poll == AcceptPoll::Accepted {
                1int
            } else {
                0
            }),
            result is None ==> final(self).taken < ACCEPT_DRAIN_BATCH,
    {
        match poll {
            AcceptPoll::Empty => Some(DrainResult::Drained),
            AcceptPoll::Failed => Some(DrainResult::AcceptFailed),
            AcceptPoll::Accepted => {
                self.taken = self.taken + 1;
                if self.taken < ACCEPT_DRAIN_BATCH {
                    None
                } else {
                    Some(DrainResult::BatchFull)
                }
            },
        }
    }
}

/// Only an empty queue shows that the queue is empty.
pub proof fn law_full_batches_prove_nothing(taken: int, poll: AcceptPoll)
    ensures
        drain_result(taken, poll) == Some(DrainResult::Drained) <==> poll == AcceptPoll::Empty,
{
}

/// The pause between accepts while they fail.
#[derive(Clone, Copy, Debug, PartialEq, Eq, Structural)]
pub struct AcceptBackoff {
    pub delay: u128,
    pub retry_at: Option<u128>,
}

impl Default for AcceptBackoff {
    fn default() -> (backoff: Self)
        ensures
            backoff == at_ease(),
    {
        AcceptBackoff { delay: 0, retry_at: None }
    }
}

/// The listener as long as nothing failed.
pub open spec fn at_ease() -> AcceptBackoff {
    AcceptBackoff { delay: 0, retry_at: None }
}

/// The delay after one more failure: it doubles from five milliseconds to a
/// second.
pub open spec fn doubled(delay: u128) -> u128 {
    if delay == 0 {
        ACCEPT_RETRY_INITIAL
    } else if delay + delay <= ACCEPT_RETRY_MAX {
        (delay + delay) as u128
    } else {
        ACCEPT_RETRY_MAX
    }
}

impl AcceptBackoff {
    pub fn next_delay(&mut self) -> (delay: u128)
        ensures
            delay == doubled(old(self).delay),
            *final(self) == (AcceptBackoff { delay, ..*old(self) }),
    {
        self.delay = if self.delay == 0 {
            ACCEPT_RETRY_INITIAL
        } else {
            let twice: u128 = self.delay.saturating_add(self.delay);
            if twice <= ACCEPT_RETRY_MAX {
                twice
            } else {
                ACCEPT_RETRY_MAX
            }
        };
        self.delay
    }

    /// The backoff after a failure at `now`.
    pub open spec fn failed(self, now: u128, clock_limit: u128) -> AcceptBackoff {
        AcceptBackoff {
            delay: doubled(self.delay),
            retry_at: moment_after(now, doubled(self.delay), clock_limit),
        }
    }

    pub fn fail(&mut self, now: u128, clock_limit: u128)
        ensures
            *final(self) == old(self).failed(now, clock_limit),
    {
        let delay: u128 = self.next_delay();
        self.retry_at = checked_after(now, delay, clock_limit);
    }

    /// The pause is over; the delay is kept until an accept succeeds.
    pub fn resume(&mut self)
        ensures
            *final(self) == (AcceptBackoff { retry_at: None, ..*old(self) }),
    {
        self.retry_at = None;
    }

    /// The listener works again.
    pub fn recover(&mut self)
        ensures
            *final(self) == at_ease(),
    {
        self.delay = 0;
        self.resume();
    }
}

/// No pause is shorter than five milliseconds or longer than a second, and no
/// failure shortens it.
pub proof fn law_backoff_is_bounded(delay: u128)
    requires
        delay == 0 || ACCEPT_RETRY_INITIAL <= delay <= ACCEPT_RETRY_MAX,
    ensures
        ACCEPT_RETRY_INITIAL <= doubled(delay) <= ACCEPT_RETRY_MAX,
        delay <= doubled(delay),
{
}

/// The delay after so many failures in a row.
pub open spec fn delay_after(failures: nat) -> u128
    decreases failures,
{
    if failures == 0 {
        0
    } else {
        doubled(delay_after((failures - 1) as nat))
    }
}

/// Each failure in a row doubles the pause, from five milliseconds on, until it
/// is a second; there it stays.
pub proof fn law_failures_double_the_pause(failures: nat)
    requires
        failures > 0,
    ensures
        delay_after(failures) == (if 5_000_000 * pow2((failures - 1) as nat) <= 1_000_000_000 {
            5_000_000 * pow2((failures - 1) as nat)
        } else {
            1_000_000_000
        }),
    decreases failures,
{
    lemma_pow2_pos((failures - 1) as nat);
    if failures == 1 {
        lemma2_to64();
        reveal_with_fuel(delay_after, 2);
    } else {
        lemma_pow2_pos((failures - 2) as nat);
        law_failures_double_the_pause((failures - 1) as nat);
        lemma_pow2_unfold((failures - 1) as nat);
    }
}

/// What a drain shows after this many sockets and then this look at the queue:
/// fewer sockets than a batch let it go on, and then only what it sees decides.
pub proof fn law_drains_go_on_to_the_batch(taken: int)
    requires
        0 <= taken < 256,
    ensures
        drain_result(taken, AcceptPoll::Accepted) is None <==> taken < 255,
        taken == 255 ==> drain_result(taken, AcceptPoll::Accepted) == Some(DrainResult::BatchFull),
        drain_result(taken, AcceptPoll::Empty) == Some(DrainResult::Drained),
        drain_result(taken, AcceptPoll::Failed) == Some(DrainResult::AcceptFailed),
{
}

} // verus!
