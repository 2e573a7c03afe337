//! Byte ceilings and idleness of a tunnel.

use vstd::prelude::*;

use crate::time::{checked_after, moment_after};
use crate::usage::saturated;

verus! {

/// Which way bytes travel through a tunnel.
#[derive(Clone, Copy, Debug, PartialEq, Eq, Structural)]
pub enum Direction {
    /// From the guest to the destination.
    Upload,
    /// From the destination to the guest.
    Download,
}

/// What one direction of a tunnel has carried, and the most it may carry.
#[derive(Clone, Copy, Debug)]
pub struct Meter {
    pub limit: Option<u64>,
    pub transferred: u64,
}

/// The most bytes that the next read may take. A read that could pass the
/// limit is held to what is left of it; once nothing is left, an excess byte
/// has to be seen before the limit is exceeded.
pub open spec fn metered_room(meter: Meter, buffer: usize) -> usize {
    match meter.limit {
        Some(limit) => if meter.transferred < limit && limit - meter.transferred < buffer {
            (limit - meter.transferred) as usize
        } else {
            buffer
        },
        None => buffer,
    }
}

impl Meter {
    pub fn new(limit: Option<u64>, transferred: u64) -> (meter: Self)
        ensures
            meter.limit == limit,
            meter.transferred == transferred,
    {
        Meter { limit, transferred }
    }

    pub open spec fn exceeded(self) -> bool {
        match self.limit {
            Some(limit) => self.transferred > limit,
            None => false,
        }
    }

    /// The most bytes that the next read may take into a buffer of this size.
    pub fn read_room(&self, buffer: usize) -> (room: usize)
        ensures
            room == metered_room(*self, buffer),
    {
        match self.limit {
            Some(limit) => {
                let left: u64 = limit.saturating_sub(self.transferred);
                if left > 0 && left < buffer as u64 {
                    left as usize
                } else {
                    buffer
                }
            },
            None => buffer,
        }
    }

    /// Count what a read returned. The answer is whether the limit is exceeded,
    /// and then the bytes of this read go no further.
    pub fn record(&mut self, bytes: u64) -> (exceeded: bool)
        ensures
            final(self).limit == old(self).limit,
            final(self).transferred == saturated(old(self).transferred, bytes),
            exceeded == final(self).exceeded(),
    {
        self.transferred = self.transferred.saturating_add(bytes);
        match self.limit {
            Some(limit) => self.transferred > limit,
            None => false,
        }
    }
}

/// A limit is exceeded only by a byte that was seen past it: a read that fits
/// into the room given never exceeds a limit that was not yet reached.
pub proof fn law_limits_need_an_excess_byte(meter: Meter, buffer: usize, bytes: u64)
    requires
        !meter.exceeded(),
        bytes <= metered_room(meter, buffer),
    ensures
        (Meter { transferred: saturated(meter.transferred, bytes), ..meter }).exceeded() ==> bytes
            > 0 && meter.limit == Some(meter.transferred),
{
}

/// What to do about a tunnel that may have gone idle.
#[derive(Clone, Copy, Debug, PartialEq, Eq, Structural)]
pub enum IdleWait {
    /// Look again at this moment.
    Until(u128),
    /// The clock cannot express the idle deadline: only traffic or
    /// cancellation ends the wait.
    ForActivity,
}

/// How long to wait after the last byte that was seen.
pub fn idle_wait(observed: u128, idle_timeout: u128, clock_limit: u128) -> (wait: IdleWait)
    ensures
        wait == (match moment_after(observed, idle_timeout, clock_limit) {
            Some(deadline) => IdleWait::Until(deadline),
            None => IdleWait::ForActivity,
        }),
{
    match checked_after(observed, idle_timeout, clock_limit) {
        Some(deadline) => IdleWait::Until(deadline),
        None => IdleWait::ForActivity,
    }
}

/// What to do once a wait is over: a tunnel that carried nothing since the wait
/// began is idle, and any other is given the whole timeout again from the last
/// byte that was seen.
pub fn wait_again(
    read_since: bool,
    observed: u128,
    idle_timeout: u128,
    clock_limit: u128,
) -> (wait: Option<IdleWait>)
    ensures
        wait == (if read_since {
            Some(
                match moment_after(observed, idle_timeout, clock_limit) {
                    Some(deadline) => IdleWait::Until(deadline),
                    None => IdleWait::ForActivity,
                },
            )
        } else {
            None
        }),
{
    if read_since {
        Some(idle_wait(observed, idle_timeout, clock_limit))
    } else {
        None
    }
}

/// A read may take the whole buffer, or as much of it as the limit leaves; it is
/// never given nothing. Without a limit it may take the whole buffer, and none
/// is ever exceeded.
pub proof fn law_reads_get_what_the_limit_leaves(meter: Meter, buffer: usize)
    ensures
        metered_room(meter, buffer) <= buffer,
        buffer > 0 ==> metered_room(meter, buffer) > 0,
        meter.limit is None ==> metered_room(meter, buffer) == buffer && !meter.exceeded(),
        meter.limit matches Some(limit) ==> (meter.exceeded() <==> meter.transferred > limit),
        meter.limit matches Some(limit) ==> meter.transferred < limit ==> (metered_room(
            meter,
            buffer,
        ) == buffer || meter.transferred + metered_room(meter, buffer) == limit) && (
        meter.transferred + buffer <= limit ==> metered_room(meter, buffer) == buffer) && (
        meter.transferred + metered_room(meter, buffer) <= limit),
{
}

/// A tunnel that carries exactly its limit is not cut off, whatever the pieces
/// in which the bytes are read.
pub proof fn law_the_whole_limit_may_be_used(meter: Meter, bytes: u64)
    requires
        meter.limit matches Some(limit) ==> meter.transferred + bytes <= limit,
    ensures
        !(Meter { transferred: saturated(meter.transferred, bytes), ..meter }).exceeded(),
{
}

} // verus!
