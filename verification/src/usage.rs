//! Usage counters of one lease.

use vstd::prelude::*;

verus! {

/// A point-in-time usage snapshot.
///
/// Cumulative counters are monotonic and saturate at [`u64::MAX`]. The active
/// connection gauge rises and falls with admitted work.
#[derive(Clone, Copy, Debug, PartialEq, Eq, Structural)]
#[non_exhaustive]
pub struct Usage {
    /// Connections admitted to this lease.
    pub accepted_connections: u64,
    /// Connections currently owned by this lease.
    pub active_connections: u64,
    /// Connections refused at capacity or denied after admission.
    pub denied_connections: u64,
    /// Tunnels that finished normally.
    pub completed_connections: u64,
    /// Bytes read from the guest.
    pub uploaded_bytes: u64,
    /// Bytes read from upstream destinations.
    pub downloaded_bytes: u64,
}

impl Default for Usage {
    fn default() -> (usage: Self)
        ensures
            usage == no_usage(),
    {
        Usage {
            accepted_connections: 0,
            active_connections: 0,
            denied_connections: 0,
            completed_connections: 0,
            uploaded_bytes: 0,
            downloaded_bytes: 0,
        }
    }
}

/// The usage of a lease that has seen nothing.
pub open spec fn no_usage() -> Usage {
    Usage {
        accepted_connections: 0,
        active_connections: 0,
        denied_connections: 0,
        completed_connections: 0,
        uploaded_bytes: 0,
        downloaded_bytes: 0,
    }
}

/// A usage snapshot certified final by successful lease shutdown.
#[derive(Clone, Copy, Debug, PartialEq, Eq, Structural)]
pub struct FinalUsage(pub Usage);

impl Default for FinalUsage {
    fn default() -> (usage: Self)
        ensures
            usage == FinalUsage(no_usage()),
    {
        FinalUsage(Usage::default())
    }
}

impl FinalUsage {
    /// Access the final counters.
    pub fn usage(self) -> (usage: Usage)
        ensures
            usage == self.0,
    {
        self.0
    }
}

/// The sum, held at the largest representable value.
pub open spec fn saturated(left: u64, right: u64) -> u64 {
    if left + right <= u64::MAX {
        (left + right) as u64
    } else {
        u64::MAX
    }
}

/// The usage after one more admitted connection.
pub open spec fn with_admission(usage: Usage) -> Usage {
    Usage {
        accepted_connections: saturated(usage.accepted_connections, 1),
        active_connections: usage.active_connections.wrapping_add(1),
        ..usage
    }
}

/// The usage after the end of one admitted connection.
pub open spec fn with_finish(usage: Usage, completed: bool) -> Usage {
    Usage {
        completed_connections: if completed {
            saturated(usage.completed_connections, 1)
        } else {
            usage.completed_connections
        },
        active_connections: usage.active_connections.wrapping_sub(1),
        ..usage
    }
}

/// The usage after one more denied connection.
pub open spec fn with_denial(usage: Usage) -> Usage {
    Usage { denied_connections: saturated(usage.denied_connections, 1), ..usage }
}

/// The usage after bytes read from the guest.
pub open spec fn with_upload(usage: Usage, bytes: u64) -> Usage {
    Usage { uploaded_bytes: saturated(usage.uploaded_bytes, bytes), ..usage }
}

/// The usage after bytes read from upstream.
pub open spec fn with_download(usage: Usage, bytes: u64) -> Usage {
    Usage { downloaded_bytes: saturated(usage.downloaded_bytes, bytes), ..usage }
}

/// The live counters of one lease.
#[derive(Clone, Copy, Debug)]
pub struct Counters {
    pub usage: Usage,
}

impl Default for Counters {
    fn default() -> (counters: Self)
        ensures
            counters.usage == no_usage(),
    {
        Counters { usage: Usage::default() }
    }
}

impl Counters {
    pub fn snapshot(&self) -> (usage: Usage)
        ensures
            usage == self.usage,
    {
        self.usage
    }

    pub fn final_snapshot(&self) -> (usage: FinalUsage)
        ensures
            usage.0 == self.usage,
    {
        FinalUsage(self.snapshot())
    }

    /// Count one admitted connection.
    pub fn count_admission(&mut self)
        ensures
            final(self).usage == with_admission(old(self).usage),
    {
        saturating_add(&mut self.usage.accepted_connections, 1);
        self.usage.active_connections = self.usage.active_connections.wrapping_add(1);
    }

    /// Count the end of one admitted connection.
    pub fn finish(&mut self, completed: bool)
        ensures
            final(self).usage == with_finish(old(self).usage, completed),
    {
        if completed {
            saturating_add(&mut self.usage.completed_connections, 1);
        }
        self.usage.active_connections = self.usage.active_connections.wrapping_sub(1);
    }

    /// Count one denied connection.
    pub fn deny(&mut self)
        ensures
            final(self).usage == with_denial(old(self).usage),
    {
        saturating_add(&mut self.usage.denied_connections, 1);
    }

    /// Count bytes read from the guest, and return the stored total.
    pub fn record_upload(&mut self, bytes: u64) -> (total: u64)
        ensures
            final(self).usage == with_upload(old(self).usage, bytes),
            total == final(self).usage.uploaded_bytes,
    {
        saturating_add(&mut self.usage.uploaded_bytes, bytes)
    }

    /// Count bytes read from upstream, and return the stored total.
    pub fn record_download(&mut self, bytes: u64) -> (total: u64)
        ensures
            final(self).usage == with_download(old(self).usage, bytes),
            total == final(self).usage.downloaded_bytes,
    {
        saturating_add(&mut self.usage.downloaded_bytes, bytes)
    }
}

/// Add to a cumulative counter without wrapping, and return the stored total.
pub fn saturating_add(counter: &mut u64, amount: u64) -> (total: u64)
    ensures
        *final(counter) == saturated(*old(counter), amount),
        total == *final(counter),
{
    *counter = counter.saturating_add(amount);
    *counter
}

/// Whether no cumulative counter of `after` is below that of `before`.
pub open spec fn never_decreases(before: Usage, after: Usage) -> bool {
    &&& before.accepted_connections <= after.accepted_connections
    &&& before.denied_connections <= after.denied_connections
    &&& before.completed_connections <= after.completed_connections
    &&& before.uploaded_bytes <= after.uploaded_bytes
    &&& before.downloaded_bytes <= after.downloaded_bytes
}

/// Every cumulative counter only grows, and stays at the largest value once it
/// is there.
pub proof fn law_cumulative_counters_never_decrease(usage: Usage, completed: bool, bytes: u64)
    ensures
        never_decreases(usage, with_admission(usage)),
        never_decreases(usage, with_finish(usage, completed)),
        never_decreases(usage, with_denial(usage)),
        never_decreases(usage, with_upload(usage, bytes)),
        never_decreases(usage, with_download(usage, bytes)),
{
}

/// Finishing an admitted connection restores the gauge that its admission
/// raised.
pub proof fn law_finish_undoes_admission_on_the_gauge(usage: Usage, completed: bool)
    ensures
        with_finish(with_admission(usage), completed).active_connections
            == usage.active_connections,
{
}

/// A counter grows by what is counted until it holds the largest number, and
/// stays there.
pub proof fn law_counters_count_up_to_the_largest_number(left: u64, right: u64)
    ensures
        left + right <= u64::MAX ==> saturated(left, right) == left + right,
        left + right > u64::MAX ==> saturated(left, right) == u64::MAX,
{
}

/// Each thing that happens changes the counters that speak of it, and no others.
pub proof fn law_every_event_has_its_counter(usage: Usage, completed: bool, bytes: u64)
    requires
        usage.active_connections < u64::MAX,
    ensures
        with_admission(usage) == (Usage {
            accepted_connections: saturated(usage.accepted_connections, 1),
            active_connections: (usage.active_connections + 1) as u64,
            ..usage
        }),
        usage.active_connections > 0 ==> with_finish(usage, completed) == (Usage {
            completed_connections: if completed {
                saturated(usage.completed_connections, 1)
            } else {
                usage.completed_connections
            },
            active_connections: (usage.active_connections - 1) as u64,
            ..usage
        }),
        with_denial(usage) == (Usage {
            denied_connections: saturated(usage.denied_connections, 1),
            ..usage
        }),
        with_upload(usage, bytes) == (Usage {
            uploaded_bytes: saturated(usage.uploaded_bytes, bytes),
            ..usage
        }),
        with_download(usage, bytes) == (Usage {
            downloaded_bytes: saturated(usage.downloaded_bytes, bytes),
            ..usage
        }),
{
}

} // verus!
