//! The order and the time budget of dial attempts.

use vstd::prelude::*;

use crate::address::SocketAddress;
use crate::time::{checked_after, earlier, earlier_of, moment_after};

verus! {

/// Approved addresses and how many of them have been tried.
#[derive(Debug)]
pub struct DialQueue {
    pub addresses: Vec<SocketAddress>,
    pub tried: usize,
}

/// One dial attempt and the moment by which it must have succeeded.
#[derive(Clone, Copy, Debug, PartialEq, Eq, Structural)]
pub struct DialAttempt {
    pub address: SocketAddress,
    pub deadline: u128,
}

/// The divisor of the time that is left: the attempts that are left, this one
/// included, as far as 32 bits count.
pub open spec fn shares(attempts_left: int) -> int {
    if attempts_left <= u32::MAX {
        attempts_left
    } else {
        u32::MAX as int
    }
}

/// The time that one attempt may take: an equal share of what is left.
pub open spec fn attempt_budget(now: u128, handshake_deadline: u128, attempts_left: int) -> int {
    if now >= handshake_deadline {
        0
    } else {
        (handshake_deadline - now) / shares(attempts_left)
    }
}

/// The moment by which one attempt must have succeeded.
pub open spec fn attempt_deadline(
    now: u128,
    budget: u128,
    handshake_deadline: u128,
    clock_limit: u128,
) -> u128 {
    match moment_after(now, budget, clock_limit) {
        Some(deadline) => earlier(deadline, handshake_deadline),
        None => handshake_deadline,
    }
}

impl DialQueue {
    pub open spec fn well_formed(self) -> bool {
        self.tried <= self.addresses@.len()
    }

    pub fn new(addresses: Vec<SocketAddress>) -> (queue: Self)
        ensures
            queue.well_formed(),
            queue.addresses == addresses,
            queue.tried == 0,
    {
        DialQueue { addresses, tried: 0 }
    }

    /// The next attempt. Dialing ends when every address has been tried, when
    /// the lease was cancelled, or when no time is left for an attempt.
    pub fn next_attempt(
        &mut self,
        cancelled: bool,
        now: u128,
        handshake_deadline: u128,
        clock_limit: u128,
    ) -> (attempt: Option<DialAttempt>)
        requires
            old(self).well_formed(),
        ensures
            final(self).well_formed(),
            final(self).addresses == old(self).addresses,
            ({
                let left = old(self).addresses@.len() - old(self).tried;
                let budget = attempt_budget(now, handshake_deadline, left);
                if left > 0 && !cancelled && budget > 0 {
                    &&& final(self).tried == old(self).tried + 1
                    &&& attempt == Some(
                        DialAttempt {
                            address: old(self).addresses@[old(self).tried as int],
                            deadline: attempt_deadline(
                                now,
                                budget as u128,
                                handshake_deadline,
                                clock_limit,
                            ),
                        },
                    )
                } else {
                    &&& attempt is None
                    &&& final(self).tried == old(self).tried
                }
            }),
    {
        if self.tried >= self.addresses.len() || cancelled {
            return None;
        }
        let left: usize = self.addresses.len() - self.tried;
        let divisor: u128 = if left as u128 <= u32::MAX as u128 {
            left as u128
        } else {
            u32::MAX as u128
        };
        let remaining: u128 = handshake_deadline.saturating_sub(now);
        let budget: u128 = remaining / divisor;
        if budget == 0 {
            return None;
        }
        let deadline: u128 = match checked_after(now, budget, clock_limit) {
            Some(deadline) => earlier_of(deadline, handshake_deadline),
            None => handshake_deadline,
        };
        let address = self.addresses[self.tried];
        self.tried = self.tried + 1;
        Some(DialAttempt { address, deadline })
    }
}

/// No attempt outlives the handshake deadline.
pub proof fn law_attempts_end_by_the_handshake_deadline(
    now: u128,
    budget: u128,
    handshake_deadline: u128,
    clock_limit: u128,
)
    ensures
        attempt_deadline(now, budget, handshake_deadline, clock_limit) <= handshake_deadline,
{
}

/// An attempt that uses up its whole budget leaves the next address no smaller
/// one: a pending address cannot starve the addresses behind it.
pub proof fn law_no_attempt_starves_the_next(
    now: u128,
    later: u128,
    handshake_deadline: u128,
    attempts_left: int,
)
    requires
        1 < attempts_left <= u32::MAX,
        now <= later <= now + attempt_budget(now, handshake_deadline, attempts_left),
    ensures
        attempt_budget(later, handshake_deadline, attempts_left - 1) >= attempt_budget(
            now,
            handshake_deadline,
            attempts_left,
        ),
{
    let budget = attempt_budget(now, handshake_deadline, attempts_left);
    if budget > 0 {
        let left = handshake_deadline - now;
        let spent = later - now;
        assert(budget * attempts_left <= left) by (nonlinear_arith)
            requires
                budget == left / attempts_left,
                attempts_left > 1,
                left >= 0,
        ;
        assert(budget * (attempts_left - 1) <= left - budget) by (nonlinear_arith)
            requires
                budget * attempts_left <= left,
        ;
        assert(budget * (attempts_left - 1) >= 1) by (nonlinear_arith)
            requires
                budget > 0,
                attempts_left > 1,
        ;
        assert(later < handshake_deadline);
        assert((left - spent) / (attempts_left - 1) >= budget) by (nonlinear_arith)
            requires
                budget * (attempts_left - 1) <= left - spent,
                attempts_left > 1,
                budget > 0,
        ;
        assert(handshake_deadline - later == left - spent);
    } else {
        assert(attempt_budget(later, handshake_deadline, attempts_left - 1) >= 0) by {
            if later < handshake_deadline {
                assert((handshake_deadline - later) / (attempts_left - 1) >= 0)
                    by (nonlinear_arith)
                    requires
                        handshake_deadline - later > 0,
                        attempts_left > 1,
                ;
            }
        }
    }
}

/// The moments that bound a handshake: its own deadline, and the one for its
/// header.
pub open spec fn deadlines(
    started: u128,
    handshake_timeout: u128,
    header_timeout: u128,
    clock_limit: u128,
) -> Option<(u128, u128)> {
    match moment_after(started, handshake_timeout, clock_limit) {
        None => None,
        Some(handshake_deadline) => match moment_after(started, header_timeout, clock_limit) {
            Some(header_deadline) => Some(
                (handshake_deadline, earlier(header_deadline, handshake_deadline)),
            ),
            None => Some((handshake_deadline, handshake_deadline)),
        },
    }
}

pub fn connection_deadlines(
    started: u128,
    handshake_timeout: u128,
    header_timeout: u128,
    clock_limit: u128,
) -> (result: Option<(u128, u128)>)
    ensures
        result == deadlines(started, handshake_timeout, header_timeout, clock_limit),
{
    let handshake_deadline: u128 = match checked_after(started, handshake_timeout, clock_limit) {
        Some(deadline) => deadline,
        None => return None,
    };
    let header_deadline: u128 = match checked_after(started, header_timeout, clock_limit) {
        Some(deadline) => earlier_of(deadline, handshake_deadline),
        None => handshake_deadline,
    };
    Some((handshake_deadline, header_deadline))
}

/// The header has to be complete by the end of the handshake at the latest.
pub proof fn law_headers_end_by_the_handshake_deadline(
    started: u128,
    handshake_timeout: u128,
    header_timeout: u128,
    clock_limit: u128,
)
    ensures
        deadlines(started, handshake_timeout, header_timeout, clock_limit) matches Some(
            (handshake, header),
        ) ==> started <= header <= handshake <= clock_limit,
{
}

/// The time that is left is shared out evenly: each attempt gets as much as all
/// the attempts that are left could get, and no more; the last one gets all.
pub proof fn law_attempts_share_the_time(now: u128, handshake_deadline: u128, attempts_left: int)
    requires
        now < handshake_deadline,
        0 < attempts_left <= u32::MAX,
    ensures
        ({
            let budget = attempt_budget(now, handshake_deadline, attempts_left);
            &&& budget * attempts_left <= handshake_deadline - now
            &&& handshake_deadline - now < (budget + 1) * attempts_left
            &&& attempts_left == 1 ==> budget == handshake_deadline - now
        }),
{
    let left = handshake_deadline - now;
    let budget = attempt_budget(now, handshake_deadline, attempts_left);
    assert(budget * attempts_left <= left && left < (budget + 1) * attempts_left)
        by (nonlinear_arith)
        requires
            budget == left / attempts_left,
            attempts_left > 0,
            left > 0,
    ;
}

/// An attempt may use its whole share, wherever the clock can express its end.
pub proof fn law_attempts_get_their_share(
    now: u128,
    handshake_deadline: u128,
    attempts_left: int,
    clock_limit: u128,
)
    requires
        now < handshake_deadline <= clock_limit,
        0 < attempts_left,
    ensures
        attempt_deadline(
            now,
            attempt_budget(now, handshake_deadline, attempts_left) as u128,
            handshake_deadline,
            clock_limit,
        ) == now + attempt_budget(now, handshake_deadline, attempts_left),
        attempts_left == 1 ==> attempt_deadline(
            now,
            attempt_budget(now, handshake_deadline, attempts_left) as u128,
            handshake_deadline,
            clock_limit,
        ) == handshake_deadline,
{
    let left = handshake_deadline - now;
    let count = shares(attempts_left);
    assert(0 <= left / count <= left) by (nonlinear_arith)
        requires
            count > 0,
            left > 0,
    ;
    if attempts_left == 1 {
        assert(left / 1 == left);
    }
}

/// Both deadlines are as far off as they were set, but that the header may take
/// no longer than the handshake. There are none only where the clock cannot
/// express the end of the handshake.
pub proof fn law_deadlines_are_as_configured(
    started: u128,
    handshake_timeout: u128,
    header_timeout: u128,
    clock_limit: u128,
)
    ensures
        deadlines(started, handshake_timeout, header_timeout, clock_limit) is Some <==> started
            + handshake_timeout <= clock_limit,
        deadlines(started, handshake_timeout, header_timeout, clock_limit) matches Some(
            (handshake, header),
        ) ==> handshake == started + handshake_timeout && header == started + (if header_timeout
            <= handshake_timeout {
            header_timeout
        } else {
            handshake_timeout
        }),
{
}

} // verus!
