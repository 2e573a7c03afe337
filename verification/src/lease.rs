//! The state of one lease: whom it serves, whether it is open, and what it has
//! done.

use vstd::prelude::*;

use crate::identity::PeerIdentity;
use crate::policy::Policy;
use crate::rate::{after_take, grants, TokenBucket};
use crate::transfer::Direction;
use crate::usage::{
    never_decreases, no_usage, saturated, with_admission, with_denial, with_download, with_finish,
    with_upload, Counters, FinalUsage, Usage,
};

verus! {

/// How far the life of a lease has come.
#[derive(Clone, Copy, Debug, PartialEq, Eq, Structural)]
pub enum Phase {
    Open,
    /// Work is being cancelled. The number counts the sockets that arrived for
    /// the lease since.
    Revoking(u64),
    /// All work is gone and the counters are final, but the owner has not seen
    /// it yet.
    Quiesced,
    Closed,
}

/// One lease.
#[derive(Debug)]
pub struct LeaseState {
    pub id: u64,
    pub identity: PeerIdentity,
    pub policy: Policy,
    pub phase: Phase,
    pub connection_attempts: Option<TokenBucket>,
    pub counters: Counters,
}

/// Whether the counters are final.
pub open spec fn settled(phase: Phase) -> bool {
    phase == Phase::Quiesced || phase == Phase::Closed
}

/// Whether an attempt at `now` is granted. No bucket grants everything.
pub open spec fn attempt_granted(bucket: Option<TokenBucket>, now: u128) -> bool {
    match bucket {
        Some(bucket) => grants(bucket, now),
        None => true,
    }
}

/// The bucket after an attempt at `now`.
pub open spec fn after_attempt(bucket: Option<TokenBucket>, now: u128) -> Option<TokenBucket> {
    match bucket {
        Some(bucket) => Some(after_take(bucket, now)),
        None => None,
    }
}

fn take_attempt(bucket: &mut Option<TokenBucket>, now: u128) -> (granted: bool)
    requires
        *old(bucket) matches Some(held) ==> held.well_formed(),
    ensures
        granted == attempt_granted(*old(bucket), now),
        *final(bucket) == after_attempt(*old(bucket), now),
        *final(bucket) matches Some(held) ==> held.well_formed(),
{
    let mut held: TokenBucket = match *bucket {
        Some(held) => held,
        None => return true,
    };
    let granted: bool = held.try_take(now);
    *bucket = Some(held);
    granted
}

/// An open lease that has seen nothing, with a full attempt bucket.
pub open spec fn opened(
    id: u64,
    identity: PeerIdentity,
    policy: Policy,
    now: u128,
) -> LeaseState {
    LeaseState {
        id,
        identity,
        policy,
        phase: Phase::Open,
        connection_attempts: match policy.connection_attempt_rate {
            Some(limit) => Some(
                TokenBucket { limit, tokens: limit.capacity() as u128, updated_at: now },
            ),
            None => None,
        },
        counters: Counters { usage: no_usage() },
    }
}

impl LeaseState {
    /// No more connections than the policy allows, and none once the counters
    /// are final.
    pub open spec fn well_formed(self) -> bool {
        &&& self.counters.usage.active_connections <= self.policy.max_connections
        &&& settled(self.phase) ==> self.counters.usage.active_connections == 0
        &&& self.connection_attempts matches Some(bucket) ==> bucket.well_formed()
    }

    /// The connections that this lease owns.
    pub open spec fn active(self) -> int {
        self.counters.usage.active_connections as int
    }

    pub open spec fn with_usage(self, usage: Usage) -> LeaseState {
        LeaseState { counters: Counters { usage }, ..self }
    }

    pub fn new(id: u64, identity: PeerIdentity, policy: Policy, now: u128) -> (lease: Self)
        ensures
            lease.well_formed(),
            lease == opened(id, identity, policy, now),
    {
        let connection_attempts = match policy.connection_attempt_rate {
            Some(limit) => Some(TokenBucket::full(limit, now)),
            None => None,
        };
        LeaseState {
            id,
            identity,
            policy,
            phase: Phase::Open,
            connection_attempts,
            counters: Counters::default(),
        }
    }

    pub fn is_closed(&self) -> (closed: bool)
        ensures
            closed == (self.phase == Phase::Closed),
    {
        self.phase == Phase::Closed
    }

    /// The final usage of a closed lease.
    pub fn closed_snapshot(&self) -> (usage: Option<FinalUsage>)
        ensures
            usage == (if self.phase == Phase::Closed {
                Some(FinalUsage(self.counters.usage))
            } else {
                None
            }),
    {
        if self.phase == Phase::Closed {
            Some(self.counters.final_snapshot())
        } else {
            None
        }
    }

    /// The final usage of a lease that is ready to be closed.
    pub fn quiesced_snapshot(&self) -> (usage: Option<FinalUsage>)
        ensures
            usage == (if self.phase == Phase::Quiesced {
                Some(FinalUsage(self.counters.usage))
            } else {
                None
            }),
    {
        if self.phase == Phase::Quiesced {
            Some(self.counters.final_snapshot())
        } else {
            None
        }
    }

    /// How many sockets have arrived since revocation began. A lease that is
    /// not revoking has the number that no quiet interval ends with.
    pub open spec fn generation(self) -> u64 {
        match self.phase {
            Phase::Revoking(generation) => generation,
            _ => u64::MAX,
        }
    }

    pub fn revocation_generation(&self) -> (generation: u64)
        ensures
            generation == self.generation(),
    {
        match self.phase {
            Phase::Revoking(generation) => generation,
            _ => u64::MAX,
        }
    }

    /// The lease after a socket was turned away before admission: counted as a
    /// denial and, during revocation, as an arrival. Final counters stay.
    pub open spec fn turned_away(self) -> LeaseState {
        let usage = with_denial(self.counters.usage);
        match self.phase {
            Phase::Open => self.with_usage(usage),
            Phase::Revoking(generation) => LeaseState {
                phase: if generation < u64::MAX {
                    Phase::Revoking((generation + 1) as u64)
                } else {
                    self.phase
                },
                ..self.with_usage(usage)
            },
            _ => self,
        }
    }

    /// Turn a socket away. The answer is whether a denial was counted, and so
    /// is to be reported.
    pub fn record_unadmitted(&mut self) -> (counted: bool)
        requires
            old(self).well_formed(),
        ensures
            final(self).well_formed(),
            *final(self) == old(self).turned_away(),
            counted == !settled(old(self).phase),
    {
        match self.phase {
            Phase::Open => {
                self.counters.deny();
                true
            },
            Phase::Revoking(generation) => {
                self.counters.deny();
                if let Some(next) = generation.checked_add(1) {
                    self.phase = Phase::Revoking(next);
                }
                true
            },
            _ => false,
        }
    }

    /// Why the next attempt is turned away before admission, if it is, with the
    /// process-wide bucket that all leases share.
    pub open spec fn attempt_refusal(self, global: Option<TokenBucket>, now: u128) -> Option<
        Seq<char>,
    > {
        if self.phase != Phase::Open {
            Some("lease-revoking"@)
        } else if !attempt_granted(self.connection_attempts, now) {
            Some("lease-rate"@)
        } else if !attempt_granted(global, now) {
            Some("global-rate"@)
        } else {
            None
        }
    }

    /// The lease after that attempt: only an open lease takes from its bucket.
    pub open spec fn attempted(self, now: u128) -> LeaseState {
        if self.phase != Phase::Open {
            self
        } else {
            LeaseState {
                connection_attempts: after_attempt(self.connection_attempts, now),
                ..self
            }
        }
    }

    /// The process-wide bucket after that attempt: untouched where the lease
    /// itself turns the attempt away.
    pub open spec fn global_after(self, global: Option<TokenBucket>, now: u128) -> Option<
        TokenBucket,
    > {
        if self.phase != Phase::Open || !attempt_granted(self.connection_attempts, now) {
            global
        } else {
            after_attempt(global, now)
        }
    }

    /// Ask the lease's own bucket, and then the process-wide one.
    ///
    /// # Errors
    ///
    /// Returns the reason code for which the attempt is turned away.
    pub fn allows_connection_attempt(&mut self, global: &mut Option<TokenBucket>, now: u128) -> (
    result: Result<(), &'static str>)
        requires
            old(self).well_formed(),
            *old(global) matches Some(bucket) ==> bucket.well_formed(),
        ensures
            final(self).well_formed(),
            *final(global) matches Some(bucket) ==> bucket.well_formed(),
            *final(self) == old(self).attempted(now),
            *final(global) == old(self).global_after(*old(global), now),
            match result {
                Ok(()) => old(self).attempt_refusal(*old(global), now) is None,
                Err(reason) => old(self).attempt_refusal(*old(global), now) == Some(reason@),
            },
    {
        if self.phase != Phase::Open {
            return Err("lease-revoking");
        }
        if !take_attempt(&mut self.connection_attempts, now) {
            return Err("lease-rate");
        }
        if !take_attempt(global, now) {
            return Err("global-rate");
        }
        Ok(())
    }

    /// Why a socket is not admitted, if it is not.
    pub open spec fn admission_refusal(self) -> Option<Seq<char>> {
        if self.active() >= self.policy.max_connections {
            Some("lease-capacity"@)
        } else if self.phase != Phase::Open {
            Some("lease-revoking"@)
        } else {
            None
        }
    }

    /// The lease with one more connection.
    pub open spec fn admitted(self) -> LeaseState {
        self.with_usage(with_admission(self.counters.usage))
    }

    /// The lease after a socket asked to be admitted.
    pub open spec fn after_request(self) -> LeaseState {
        if self.admission_refusal() is None {
            self.admitted()
        } else {
            self.turned_away()
        }
    }

    /// Admit a socket. A socket that is not admitted is turned away.
    ///
    /// # Errors
    ///
    /// Returns the reason code, and whether a denial was counted.
    pub fn try_admit(&mut self) -> (result: Result<(), (&'static str, bool)>)
        requires
            old(self).well_formed(),
        ensures
            final(self).well_formed(),
            *final(self) == old(self).after_request(),
            match result {
                Ok(()) => old(self).admission_refusal() is None && final(self).active() == old(
                    self,
                ).active() + 1,
                Err((reason, counted)) => old(self).admission_refusal() == Some(reason@) && counted
                    == !settled(old(self).phase),
            },
    {
        if self.counters.usage.active_connections >= self.policy.max_connections as u64 {
            let counted: bool = self.record_unadmitted();
            return Err(("lease-capacity", counted));
        }
        if self.phase != Phase::Open {
            let counted: bool = self.record_unadmitted();
            return Err(("lease-revoking", counted));
        }
        self.counters.count_admission();
        Ok(())
    }

    /// The lease with one connection fewer.
    pub open spec fn finished(self, completed: bool) -> LeaseState {
        self.with_usage(with_finish(self.counters.usage, completed))
    }

    /// End an admitted connection.
    pub fn finish(&mut self, completed: bool)
        requires
            old(self).well_formed(),
            old(self).active() > 0,
        ensures
            final(self).well_formed(),
            *final(self) == old(self).finished(completed),
            final(self).active() == old(self).active() - 1,
    {
        self.counters.finish(completed);
    }

    /// Count the denial of an admitted connection.
    pub fn record_denial(&mut self)
        requires
            old(self).well_formed(),
        ensures
            final(self).well_formed(),
            *final(self) == old(self).with_usage(with_denial(old(self).counters.usage)),
    {
        self.counters.deny();
    }

    /// Count bytes that an admitted connection read.
    pub fn record_transfer(&mut self, direction: Direction, bytes: u64)
        requires
            old(self).well_formed(),
        ensures
            final(self).well_formed(),
            *final(self) == old(self).with_usage(
                match direction {
                    Direction::Upload => with_upload(old(self).counters.usage, bytes),
                    Direction::Download => with_download(old(self).counters.usage, bytes),
                },
            ),
    {
        match direction {
            Direction::Upload => {
                self.counters.record_upload(bytes);
            },
            Direction::Download => {
                self.counters.record_download(bytes);
            },
        }
    }

    /// The lease after revocation began: an open lease starts to count
    /// arrivals, and any other stays as it is.
    pub open spec fn closing(self) -> LeaseState {
        if self.phase == Phase::Open {
            LeaseState { phase: Phase::Revoking(0), ..self }
        } else {
            self
        }
    }

    /// Begin revocation. The answer is whether this call began it, and so the
    /// work of the lease is to be cancelled.
    pub fn begin_close(&mut self) -> (began: bool)
        requires
            old(self).well_formed(),
        ensures
            final(self).well_formed(),
            *final(self) == old(self).closing(),
            began == (old(self).phase == Phase::Open),
    {
        if self.phase == Phase::Open {
            self.phase = Phase::Revoking(0);
            return true;
        }
        false
    }

    /// Whether a quiet interval that began with this many arrivals certifies
    /// the end of the lease.
    pub open spec fn quiet_since(self, expected: u64) -> bool {
        self.phase == Phase::Revoking(expected) && expected != u64::MAX
    }

    /// The lease after the end of a quiet interval that began with this many
    /// arrivals.
    pub open spec fn after_quiet(self, expected: u64) -> LeaseState {
        if self.quiet_since(expected) {
            LeaseState { phase: Phase::Quiesced, ..self }
        } else {
            self
        }
    }

    /// The usage that such an interval certifies.
    pub open spec fn quiet_usage(self, expected: u64) -> Option<FinalUsage> {
        if self.quiet_since(expected) {
            Some(FinalUsage(self.counters.usage))
        } else {
            None
        }
    }

    /// Certify that the lease is quiet: no socket arrived since the number of
    /// arrivals was the expected one. The counters are final only where its work
    /// is gone.
    pub fn quiesce_if_generation(&mut self, expected: u64) -> (usage: Option<FinalUsage>)
        ensures
            old(self).well_formed() && old(self).active() == 0 ==> final(self).well_formed(),
            *final(self) == old(self).after_quiet(expected),
            usage == old(self).quiet_usage(expected),
    {
        if expected == u64::MAX {
            return None;
        }
        if self.phase != Phase::Revoking(expected) {
            return None;
        }
        self.phase = Phase::Quiesced;
        Some(self.counters.final_snapshot())
    }

    /// Close a lease. The counters are final only where its work is gone.
    pub fn mark_closed(&mut self)
        ensures
            old(self).well_formed() && old(self).active() == 0 ==> final(self).well_formed(),
            *final(self) == (LeaseState { phase: Phase::Closed, ..*old(self) }),
    {
        self.phase = Phase::Closed;
    }
}

/// How far a phase has come.
pub open spec fn phase_rank(phase: Phase) -> int {
    match phase {
        Phase::Open => 0,
        Phase::Revoking(_) => 1,
        Phase::Quiesced => 2,
        Phase::Closed => 3,
    }
}

/// Whether a lease can have come from `before` to `after`: it is the same lease
/// with the same rules, no phase comes back, no counter decreases, and final
/// counters stay.
pub open spec fn advanced(before: LeaseState, after: LeaseState) -> bool {
    &&& after.id == before.id
    &&& after.identity == before.identity
    &&& after.policy == before.policy
    &&& phase_rank(before.phase) <= phase_rank(after.phase)
    &&& before.phase is Revoking && after.phase is Revoking ==> before.generation()
        <= after.generation()
    &&& never_decreases(before.counters.usage, after.counters.usage)
    &&& settled(before.phase) ==> after.counters == before.counters
}

/// Final counters stay final: a settled lease owns no connection, admits none,
/// takes no attempt, and does not count a socket that is turned away.
pub proof fn law_settled_leases_never_change(
    lease: LeaseState,
    global: Option<TokenBucket>,
    now: u128,
)
    requires
        lease.well_formed(),
        settled(lease.phase),
    ensures
        lease.active() == 0,
        lease.admission_refusal() is Some,
        lease.attempt_refusal(global, now) is Some,
        lease.turned_away() == lease,
        lease.attempted(now) == lease,
        lease.global_after(global, now) == global,
        lease.closing() == lease,
        forall|expected: u64| !lease.quiet_since(expected),
{
}

/// The lease after so many sockets were turned away.
pub open spec fn after_arrivals(lease: LeaseState, count: nat) -> LeaseState
    decreases count,
{
    if count == 0 {
        lease
    } else {
        after_arrivals(lease, (count - 1) as nat).turned_away()
    }
}

proof fn lemma_arrivals_count(lease: LeaseState, count: nat)
    requires
        lease.phase is Revoking,
        lease.generation() + count <= u64::MAX,
    ensures
        after_arrivals(lease, count).phase == Phase::Revoking((lease.generation() + count) as u64),
        after_arrivals(lease, count).active() == lease.active(),
        after_arrivals(lease, count).counters.usage.denied_connections == saturated(
            lease.counters.usage.denied_connections,
            count as u64,
        ),
    decreases count,
{
    if count > 0 {
        lemma_arrivals_count(lease, (count - 1) as nat);
    }
}

/// Every socket that arrives during revocation is counted and voids the quiet
/// interval: an interval certifies the end of the lease exactly if no socket
/// arrived since it began, and then with the usage that the lease has counted.
/// Otherwise the lease stays revoking, with as many more arrivals.
pub proof fn law_arrivals_restart_the_quiet_interval(lease: LeaseState, count: nat)
    requires
        lease.phase is Revoking,
        lease.generation() + count < u64::MAX,
    ensures
        ({
            let began = lease.generation();
            let late = after_arrivals(lease, count);
            &&& late.quiet_usage(began) is Some <==> count == 0
            &&& count == 0 ==> late.after_quiet(began).phase == Phase::Quiesced
                && late.quiet_usage(began) == Some(FinalUsage(late.counters.usage))
                && late.after_quiet(began).counters == late.counters
            &&& count > 0 ==> late.after_quiet(began) == late && late.phase == Phase::Revoking(
                (began + count) as u64,
            )
            &&& late.counters.usage.denied_connections == saturated(
                lease.counters.usage.denied_connections,
                count as u64,
            )
        }),
{
    lemma_arrivals_count(lease, count);
}

/// How a socket that arrived reaches a lease.
pub enum Approach {
    /// It asks to be admitted.
    Admission,
    /// It is turned away before it could ask.
    Unadmitted,
}

/// The lease after these sockets, one after the other.
pub open spec fn after_approaches(lease: LeaseState, approaches: Seq<Approach>) -> LeaseState
    decreases approaches.len(),
{
    if approaches.len() == 0 {
        lease
    } else {
        let before = after_approaches(lease, approaches.drop_last());
        match approaches.last() {
            Approach::Admission => before.after_request(),
            Approach::Unadmitted => before.turned_away(),
        }
    }
}

/// A revoking lease turns every socket away, whichever way it comes.
proof fn lemma_approaches_are_arrivals(lease: LeaseState, approaches: Seq<Approach>)
    requires
        lease.phase is Revoking,
    ensures
        after_approaches(lease, approaches) == after_arrivals(lease, approaches.len()),
        after_approaches(lease, approaches).phase is Revoking,
    decreases approaches.len(),
{
    if approaches.len() > 0 {
        lemma_approaches_are_arrivals(lease, approaches.drop_last());
    }
}

/// From the moment an open lease began to close, whatever it still owned: read
/// the number of its arrivals after some sockets, and let others come. A quiet
/// interval that began with this number certifies the end of the lease exactly
/// if no others came, and then with the usage that the lease has counted.
/// Otherwise it certifies nothing, and the lease stays revoking.
pub proof fn law_late_arrivals_void_the_quiet_interval(
    lease: LeaseState,
    earlier: Seq<Approach>,
    later: Seq<Approach>,
)
    requires
        lease.phase == Phase::Open,
        earlier.len() + later.len() < u64::MAX,
    ensures
        ({
            let began = after_approaches(lease.closing(), earlier);
            let after = after_approaches(began, later);
            let expected = began.generation();
            &&& expected == earlier.len()
            &&& after.quiet_usage(expected) is Some <==> later.len() == 0
            &&& later.len() == 0 ==> {
                &&& after.quiet_usage(expected) == Some(FinalUsage(after.counters.usage))
                &&& after.after_quiet(expected) == (LeaseState { phase: Phase::Quiesced, ..after })
            }
            &&& later.len() > 0 ==> {
                &&& after.after_quiet(expected) == after
                &&& after.phase == Phase::Revoking((expected + later.len()) as u64)
            }
        }),
{
    let closing = lease.closing();
    let began = after_approaches(closing, earlier);
    lemma_approaches_are_arrivals(closing, earlier);
    lemma_arrivals_count(closing, earlier.len());
    lemma_approaches_are_arrivals(began, later);
    lemma_arrivals_count(began, later.len());
}

/// A lease never admits beyond its ceiling, and never while it is not open.
pub proof fn law_admission_is_bounded(lease: LeaseState)
    requires
        lease.well_formed(),
        lease.admission_refusal() is None,
    ensures
        lease.phase == Phase::Open,
        lease.admitted().well_formed(),
        lease.admitted().active() == lease.active() + 1,
        lease.admitted().active() <= lease.policy.max_connections,
{
}

/// An open lease that owns fewer connections than its policy allows admits the
/// next socket, up to the last one that is allowed, and owns it then.
pub proof fn law_room_is_admission(lease: LeaseState)
    requires
        lease.well_formed(),
        lease.phase == Phase::Open,
    ensures
        lease.admission_refusal() is None <==> lease.active() < lease.policy.max_connections,
        lease.admission_refusal() is None ==> {
            &&& lease.after_request().active() == lease.active() + 1
            &&& lease.after_request().phase == Phase::Open
            &&& lease.after_request().counters.usage.denied_connections
                == lease.counters.usage.denied_connections
        },
        lease.admission_refusal() is Some ==> {
            &&& lease.after_request().active() == lease.active()
            &&& lease.after_request().counters.usage.denied_connections == saturated(
                lease.counters.usage.denied_connections,
                1,
            )
        },
{
}

proof fn lemma_admissions_fill_the_lease(lease: LeaseState, approaches: Seq<Approach>)
    requires
        lease.well_formed(),
        lease.phase == Phase::Open,
        forall|i: int| 0 <= i < approaches.len() ==> #[trigger] approaches[i] is Admission,
    ensures
        ({
            let after = after_approaches(lease, approaches);
            let wanted = lease.active() + approaches.len();
            &&& after.well_formed()
            &&& after.phase == Phase::Open
            &&& after.policy == lease.policy
            &&& after.active() == (if wanted <= lease.policy.max_connections {
                wanted
            } else {
                lease.policy.max_connections as int
            })
        }),
    decreases approaches.len(),
{
    if approaches.len() > 0 {
        let earlier = approaches.drop_last();
        assert forall|i: int| 0 <= i < earlier.len() implies #[trigger] earlier[i] is Admission by {
            assert(earlier[i] == approaches[i]);
        }
        lemma_admissions_fill_the_lease(lease, earlier);
        assert(approaches[approaches.len() - 1] is Admission);
    }
}

/// However many sockets ask an open lease for admission, it ends up with all of
/// them or with exactly as many as its policy allows.
pub proof fn law_admissions_fill_the_lease(lease: LeaseState, approaches: Seq<Approach>)
    requires
        lease.well_formed(),
        lease.phase == Phase::Open,
        forall|i: int| 0 <= i < approaches.len() ==> #[trigger] approaches[i] is Admission,
    ensures
        lease.active() + approaches.len() <= lease.policy.max_connections ==> after_approaches(
            lease,
            approaches,
        ).active() == lease.active() + approaches.len(),
        lease.active() + approaches.len() > lease.policy.max_connections ==> after_approaches(
            lease,
            approaches,
        ).active() == lease.policy.max_connections,
{
    lemma_admissions_fill_the_lease(lease, approaches);
}

/// A new lease is open, has counted nothing, and may use its whole burst at
/// once.
pub proof fn law_new_leases_are_open_and_unused(
    id: u64,
    identity: PeerIdentity,
    policy: Policy,
    now: u128,
)
    ensures
        ({
            let lease = opened(id, identity, policy, now);
            &&& lease.id == id && lease.identity == identity && lease.policy == policy
            &&& lease.phase == Phase::Open
            &&& lease.counters.usage == (Usage {
                accepted_connections: 0,
                active_connections: 0,
                denied_connections: 0,
                completed_connections: 0,
                uploaded_bytes: 0,
                downloaded_bytes: 0,
            })
            &&& policy.connection_attempt_rate is None ==> lease.connection_attempts is None
            &&& policy.connection_attempt_rate matches Some(limit) ==> (
            lease.connection_attempts matches Some(bucket) && bucket.limit == limit
                && bucket.updated_at == now && bucket.tokens == limit.burst * 1_000_000_000)
        }),
{
}

/// What the life of a connection does to its lease: it is owned from its
/// admission to its end, and nothing but the counters that speak of it changes.
pub proof fn law_connections_are_owned_until_they_end(lease: LeaseState, completed: bool)
    requires
        lease.well_formed(),
        lease.phase == Phase::Open,
        lease.active() < lease.policy.max_connections,
    ensures
        ({
            let owning = lease.after_request();
            let after = owning.finished(completed);
            &&& owning.active() == lease.active() + 1
            &&& after.active() == lease.active()
            &&& after.phase == lease.phase
            &&& after.policy == lease.policy
            &&& after.identity == lease.identity
            &&& after.connection_attempts == lease.connection_attempts
            &&& after.counters.usage.accepted_connections == saturated(
                lease.counters.usage.accepted_connections,
                1,
            )
            &&& after.counters.usage.completed_connections == (if completed {
                saturated(lease.counters.usage.completed_connections, 1)
            } else {
                lease.counters.usage.completed_connections
            })
            &&& after.counters.usage.denied_connections == lease.counters.usage.denied_connections
            &&& after.counters.usage.uploaded_bytes == lease.counters.usage.uploaded_bytes
            &&& after.counters.usage.downloaded_bytes == lease.counters.usage.downloaded_bytes
        }),
{
}

/// Closing begins once: an open lease starts to count arrivals from zero, and
/// nothing else of it changes; any other lease stays as it is.
pub proof fn law_closing_begins_once(lease: LeaseState)
    ensures
        lease.phase == Phase::Open ==> lease.closing() == (LeaseState {
            phase: Phase::Revoking(0),
            ..lease
        }),
        lease.phase != Phase::Open ==> lease.closing() == lease,
        lease.closing().closing() == lease.closing(),
        lease.closing().admission_refusal() is Some,
{
}

/// An attempt on an open lease takes from its own bucket, and from the shared
/// one only where its own grants it; any other lease takes nothing. Where both
/// grant, each gives one token.
pub proof fn law_attempts_cost_a_token_each(
    lease: LeaseState,
    global: Option<TokenBucket>,
    now: u128,
)
    ensures
        lease.phase == Phase::Open ==> {
            &&& lease.connection_attempts matches Some(bucket) ==> lease.attempted(
                now,
            ).connection_attempts == Some(after_take(bucket, now))
            &&& lease.connection_attempts is None ==> lease.attempted(now) == lease
            &&& (lease.connection_attempts matches Some(bucket) ==> grants(bucket, now)) ==> (
            global matches Some(bucket) ==> lease.global_after(global, now) == Some(
                after_take(bucket, now),
            ))
            &&& (lease.connection_attempts matches Some(bucket) && !grants(bucket, now))
                ==> lease.global_after(global, now) == global
        },
        lease.phase != Phase::Open ==> lease.attempted(now) == lease && lease.global_after(
            global,
            now,
        ) == global,
{
}

} // verus!
