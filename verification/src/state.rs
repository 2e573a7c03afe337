//! The state behind the listener: which lease owns which identity, what arrives
//! for them, and how they end.

use vstd::prelude::*;

use crate::accept::{at_ease, AcceptBackoff, DrainResult, DrainVerdict};
use crate::address::IpAddress;
use crate::config::ProxyConfig;
use crate::diagnostic::{Delivery, DenialReason, DiagnosticEvent, DiagnosticReporter};
use crate::error::{AttachError, CloseErrorKind};
use crate::identity::PeerIdentity;
use crate::lease::{
    advanced, after_arrivals, attempt_granted, opened, settled, LeaseState, Phase,
};
use crate::policy::Policy;
use crate::rate::{grants, TokenBucket};
use crate::session::{accounted, Action};
use crate::transfer::Direction;
use crate::usage::{no_usage, saturated, with_denial, with_download, with_upload, FinalUsage, Usage};

verus! {


/// The connections that these leases own together.
pub open spec fn total_active(leases: Seq<LeaseState>) -> int
    decreases leases.len(),
{
    if leases.len() == 0 {
        0
    } else {
        total_active(leases.drop_last()) + leases.last().active()
    }
}

proof fn lemma_total_update(leases: Seq<LeaseState>, at: int, lease: LeaseState)
    requires
        0 <= at < leases.len(),
    ensures
        total_active(leases.update(at, lease)) == total_active(leases) - leases[at].active()
            + lease.active(),
    decreases leases.len(),
{
    let updated = leases.update(at, lease);
    if at == leases.len() - 1 {
        assert(updated.drop_last() =~= leases.drop_last());
    } else {
        assert(updated.drop_last() =~= leases.drop_last().update(at, lease));
        lemma_total_update(leases.drop_last(), at, lease);
    }
}

proof fn lemma_total_remove(leases: Seq<LeaseState>, at: int)
    requires
        0 <= at < leases.len(),
    ensures
        total_active(leases.remove(at)) == total_active(leases) - leases[at].active(),
    decreases leases.len(),
{
    let removed = leases.remove(at);
    if at == leases.len() - 1 {
        assert(removed =~= leases.drop_last());
    } else {
        assert(removed.drop_last() =~= leases.drop_last().remove(at));
        assert(removed.last() == leases.last());
        lemma_total_remove(leases.drop_last(), at);
    }
}

proof fn lemma_total_push(leases: Seq<LeaseState>, lease: LeaseState)
    ensures
        total_active(leases.push(lease)) == total_active(leases) + lease.active(),
{
    assert(leases.push(lease).drop_last() =~= leases);
}

/// A lease owns no more than all leases together.
proof fn lemma_total_bounds(leases: Seq<LeaseState>, at: int)
    requires
        0 <= at < leases.len(),
    ensures
        0 <= leases[at].active() <= total_active(leases),
    decreases leases.len(),
{
    if at < leases.len() - 1 {
        lemma_total_bounds(leases.drop_last(), at);
    } else {
        lemma_total_nonnegative(leases.drop_last());
    }
}

proof fn lemma_total_nonnegative(leases: Seq<LeaseState>)
    ensures
        total_active(leases) >= 0,
    decreases leases.len(),
{
    if leases.len() > 0 {
        lemma_total_nonnegative(leases.drop_last());
    }
}

/// The place of the lease with this number.
pub open spec fn place_of(leases: Seq<LeaseState>, id: u64) -> Option<int>
    decreases leases.len(),
{
    if leases.len() == 0 {
        None
    } else {
        match place_of(leases.drop_last(), id) {
            Some(at) => Some(at),
            None => if leases.last().id == id {
                Some(leases.len() - 1)
            } else {
                None
            },
        }
    }
}

/// The place of the lease that owns this identity.
pub open spec fn owner_of(leases: Seq<LeaseState>, identity: PeerIdentity) -> Option<int>
    decreases leases.len(),
{
    if leases.len() == 0 {
        None
    } else {
        match owner_of(leases.drop_last(), identity) {
            Some(at) => Some(at),
            None => if leases.last().identity == identity {
                Some(leases.len() - 1)
            } else {
                None
            },
        }
    }
}

/// Where a lease stands depends on the numbers alone.
pub proof fn lemma_place_by_numbers(leases: Seq<LeaseState>, other: Seq<LeaseState>, id: u64)
    requires
        leases.len() == other.len(),
        forall|i: int| 0 <= i < leases.len() ==> (#[trigger] leases[i]).id == other[i].id,
    ensures
        place_of(leases, id) == place_of(other, id),
    decreases leases.len(),
{
    if leases.len() > 0 {
        lemma_place_by_numbers(leases.drop_last(), other.drop_last(), id);
    }
}

pub proof fn lemma_place_of(leases: Seq<LeaseState>, id: u64)
    ensures
        match place_of(leases, id) {
            Some(at) => 0 <= at < leases.len() && leases[at].id == id,
            None => forall|i: int| 0 <= i < leases.len() ==> (#[trigger] leases[i]).id != id,
        },
    decreases leases.len(),
{
    if leases.len() > 0 {
        lemma_place_of(leases.drop_last(), id);
        if place_of(leases, id) is None {
            assert forall|i: int| 0 <= i < leases.len() implies (#[trigger] leases[i]).id != id by {
                if i < leases.len() - 1 {
                    assert(leases.drop_last()[i].id != id);
                }
            }
        }
    }
}

pub proof fn lemma_owner_of(leases: Seq<LeaseState>, identity: PeerIdentity)
    ensures
        match owner_of(leases, identity) {
            Some(at) => 0 <= at < leases.len() && leases[at].identity == identity,
            None => forall|i: int|
                0 <= i < leases.len() ==> (#[trigger] leases[i]).identity != identity,
        },
    decreases leases.len(),
{
    if leases.len() > 0 {
        lemma_owner_of(leases.drop_last(), identity);
        if owner_of(leases, identity) is None {
            assert forall|i: int| 0 <= i < leases.len() implies (#[trigger] leases[i]).identity
                != identity by {
                if i < leases.len() - 1 {
                    assert(leases.drop_last()[i].identity != identity);
                }
            }
        }
    }
}

/// What became of a socket that the listener accepted.
#[derive(Clone, Copy, Debug)]
pub enum Dispatch {
    /// No lease owns the source address: the socket is dropped unseen.
    Unknown,
    /// The lease turned the socket away. The event is to be handed on.
    Rejected {
        lease_id: u64,
        reason: &'static str,
        event: Option<DiagnosticEvent>,
    },
    /// The lease owns the socket.
    Admitted { lease_id: u64 },
}

/// What the owner of the listener knows: every attached lease, and the ceilings
/// that they share.
#[derive(Debug)]
pub struct ProxyState {
    pub max_connections: usize,
    pub connection_attempts: Option<TokenBucket>,
    pub leases: Vec<LeaseState>,
    pub in_flight: usize,
    pub stopping: bool,
    pub backoff: AcceptBackoff,
    pub diagnostics: DiagnosticReporter,
}

/// What an attempt to attach an identity led to.
#[derive(Debug)]
pub enum AttachStep {
    Attached,
    Refused(AttachError),
    /// More sockets may wait: drain again, and try again with this policy.
    Retry(Policy),
}

/// Whether no two leases share a number or an identity.
pub open spec fn distinct_leases(leases: Seq<LeaseState>) -> bool {
    forall|i: int, j: int|
        0 <= i < j < leases.len() ==> (#[trigger] leases[i]).id != (#[trigger] leases[j]).id
            && leases[i].identity != leases[j].identity
}

/// Whether no lease that is among both went backwards: see [`advanced`].
pub open spec fn evolved(before: Seq<LeaseState>, after: Seq<LeaseState>) -> bool {
    forall|i: int, j: int|
        0 <= i < before.len() && 0 <= j < after.len() && before[i].id == after[j].id
            ==> #[trigger] advanced(before[i], after[j])
}

impl ProxyState {
    /// Every lease is sound and known by its own number and identity, and the
    /// ceiling holds for all of them together.
    pub open spec fn well_formed(self) -> bool {
        &&& distinct_leases(self.leases@)
        &&& forall|i: int|
            0 <= i < self.leases@.len() ==> (#[trigger] self.leases@[i]).well_formed()
        &&& self.in_flight == total_active(self.leases@)
        &&& self.in_flight <= self.max_connections
        &&& self.connection_attempts matches Some(bucket) ==> bucket.well_formed()
    }

    /// The state behind a listener that was just set up for this configuration.
    pub fn new(config: &ProxyConfig, now: u128) -> (state: Self)
        ensures
            state.well_formed(),
            state.max_connections == config.max_connections,
            state.leases@ == Seq::<LeaseState>::empty(),
            state.in_flight == 0,
            !state.stopping,
            state.backoff == at_ease(),
            match config.connection_attempt_rate {
                Some(limit) => state.connection_attempts == Some(
                    TokenBucket { limit, tokens: limit.capacity() as u128, updated_at: now },
                ),
                None => state.connection_attempts is None,
            },
            match config.diagnostics {
                Some(max) => state.diagnostics.state matches Some(reporter)
                    && reporter.max_events_per_second == max && reporter.window_started == now
                    && reporter.emitted == 0 && reporter.suppressed == 0,
                None => state.diagnostics.state is None,
            },
    {
        let connection_attempts = match config.connection_attempt_rate {
            Some(limit) => Some(TokenBucket::full(limit, now)),
            None => None,
        };
        ProxyState {
            max_connections: config.max_connections,
            connection_attempts,
            leases: Vec::new(),
            in_flight: 0,
            stopping: false,
            backoff: AcceptBackoff::default(),
            diagnostics: DiagnosticReporter::new(config.diagnostics, now),
        }
    }

    /// Whether no attached lease has this number.
    pub fn is_unused(&self, id: u64) -> (yes: bool)
        ensures
            yes == (place_of(self.leases@, id) is None),
    {
        self.find(id).is_none()
    }

    fn find(&self, id: u64) -> (at: Option<usize>)
        ensures
            match at {
                Some(at) => place_of(self.leases@, id) == Some(at as int) && at
                    < self.leases@.len() && self.leases@[at as int].id == id,
                None => place_of(self.leases@, id) is None,
            },
    {
        let mut i: usize = 0;
        while i < self.leases.len()
            invariant
                i <= self.leases.len(),
                place_of(self.leases@.take(i as int), id) is None,
            decreases self.leases.len() - i,
        {
            assert(self.leases@.take(i + 1).drop_last() =~= self.leases@.take(i as int));
            if self.leases[i].id == id {
                proof {
                    lemma_place_prefix(self.leases@, i + 1, id);
                }
                return Some(i);
            }
            i += 1;
        }
        assert(self.leases@.take(self.leases@.len() as int) =~= self.leases@);
        None
    }

    fn find_owner(&self, identity: PeerIdentity) -> (at: Option<usize>)
        ensures
            match at {
                Some(at) => owner_of(self.leases@, identity) == Some(at as int) && at
                    < self.leases@.len() && self.leases@[at as int].identity == identity,
                None => owner_of(self.leases@, identity) is None,
            },
    {
        let mut i: usize = 0;
        while i < self.leases.len()
            invariant
                i <= self.leases.len(),
                owner_of(self.leases@.take(i as int), identity) is None,
            decreases self.leases.len() - i,
        {
            assert(self.leases@.take(i + 1).drop_last() =~= self.leases@.take(i as int));
            if self.leases[i].identity == identity {
                proof {
                    lemma_owner_prefix(self.leases@, i + 1, identity);
                }
                return Some(i);
            }
            i += 1;
        }
        assert(self.leases@.take(self.leases@.len() as int) =~= self.leases@);
        None
    }
}

proof fn lemma_place_prefix(leases: Seq<LeaseState>, count: int, id: u64)
    requires
        0 <= count <= leases.len(),
        place_of(leases.take(count), id) is Some,
    ensures
        place_of(leases, id) == place_of(leases.take(count), id),
    decreases leases.len() - count,
{
    if count < leases.len() {
        assert(leases.take(count + 1).drop_last() =~= leases.take(count));
        lemma_place_prefix(leases, count + 1, id);
    } else {
        assert(leases.take(count) =~= leases);
    }
}

proof fn lemma_owner_prefix(leases: Seq<LeaseState>, count: int, identity: PeerIdentity)
    requires
        0 <= count <= leases.len(),
        owner_of(leases.take(count), identity) is Some,
    ensures
        owner_of(leases, identity) == owner_of(leases.take(count), identity),
    decreases leases.len() - count,
{
    if count < leases.len() {
        assert(leases.take(count + 1).drop_last() =~= leases.take(count));
        lemma_owner_prefix(leases, count + 1, identity);
    } else {
        assert(leases.take(count) =~= leases);
    }
}

/// What a lease makes of a socket that arrived for it.
pub struct Arrival {
    pub lease: LeaseState,
    pub connection_attempts: Option<TokenBucket>,
    /// The reason code where the socket is turned away.
    pub refusal: Option<Seq<char>>,
}

/// The rate of attempts is judged first, then the ceiling of the proxy, and
/// then the lease itself. The rate is asked only where some bucket limits it.
pub open spec fn arrival(
    lease: LeaseState,
    connection_attempts: Option<TokenBucket>,
    in_flight: int,
    max_connections: int,
    now: u128,
) -> Arrival {
    let limited = lease.connection_attempts is Some || connection_attempts is Some;
    let asked = if limited {
        lease.attempted(now)
    } else {
        lease
    };
    let shared = if limited {
        lease.global_after(connection_attempts, now)
    } else {
        connection_attempts
    };
    let refusal = if limited && lease.attempt_refusal(connection_attempts, now) is Some {
        lease.attempt_refusal(connection_attempts, now)
    } else if in_flight >= max_connections {
        Some("global-capacity"@)
    } else {
        asked.admission_refusal()
    };
    Arrival {
        lease: if refusal is Some {
            asked.turned_away()
        } else {
            asked.admitted()
        },
        connection_attempts: shared,
        refusal,
    }
}

/// Judge a socket that arrived for a lease.
///
/// # Errors
///
/// Returns the reason code for which the socket is turned away, and whether a
/// denial was counted.
fn judge_arrival(
    lease: &mut LeaseState,
    connection_attempts: &mut Option<TokenBucket>,
    in_flight: usize,
    max_connections: usize,
    now: u128,
) -> (result: Result<(), (&'static str, bool)>)
    requires
        old(lease).well_formed(),
        *old(connection_attempts) matches Some(bucket) ==> bucket.well_formed(),
    ensures
        final(lease).well_formed(),
        *final(connection_attempts) matches Some(bucket) ==> bucket.well_formed(),
        ({
            let outcome = arrival(
                *old(lease),
                *old(connection_attempts),
                in_flight as int,
                max_connections as int,
                now,
            );
            &&& *final(lease) == outcome.lease
            &&& *final(connection_attempts) == outcome.connection_attempts
            &&& match result {
                Ok(()) => outcome.refusal is None && final(lease).active() == old(lease).active()
                    + 1 && in_flight < max_connections,
                Err((reason, counted)) => outcome.refusal == Some(reason@) && counted == !settled(
                    old(lease).phase,
                ) && final(lease).active() == old(lease).active(),
            }
        }),
{
    let limited: bool = lease.connection_attempts.is_some() || connection_attempts.is_some();
    if limited {
        match lease.allows_connection_attempt(connection_attempts, now) {
            Ok(()) => {},
            Err(reason) => {
                let counted: bool = lease.record_unadmitted();
                return Err((reason, counted));
            },
        }
    }
    if in_flight >= max_connections {
        let counted: bool = lease.record_unadmitted();
        return Err(("global-capacity", counted));
    }
    lease.try_admit()
}

/// How a denial of this lease is reported, where it was counted.
pub open spec fn denial_reported(
    before: DiagnosticReporter,
    after: DiagnosticReporter,
    lease: LeaseState,
    reason: &'static str,
    counted: bool,
    now: u128,
    event: Option<DiagnosticEvent>,
) -> bool {
    if counted {
        &&& after == before.after_report(now)
        &&& event == before.event_of(lease.id, lease.identity, DenialReason(reason), now)
    } else {
        &&& after == before
        &&& event is None
    }
}

proof fn lemma_update_keeps_proxy_sound(proxy: ProxyState, at: int, lease: LeaseState)
    requires
        proxy.well_formed(),
        0 <= at < proxy.leases@.len(),
        lease.well_formed(),
        advanced(proxy.leases@[at], lease),
    ensures
        distinct_leases(proxy.leases@.update(at, lease)),
        forall|i: int|
            0 <= i < proxy.leases@.len() ==> (#[trigger] proxy.leases@.update(
                at,
                lease,
            )[i]).well_formed(),
        total_active(proxy.leases@.update(at, lease)) == proxy.in_flight
            - proxy.leases@[at].active() + lease.active(),
        0 <= proxy.leases@[at].active() <= proxy.in_flight,
        evolved(proxy.leases@, proxy.leases@.update(at, lease)),
{
    lemma_total_update(proxy.leases@, at, lease);
    lemma_total_bounds(proxy.leases@, at);
}

impl ProxyState {
    /// Whether everything but the leases, the ceilings in use and the reports
    /// is as before.
    pub open spec fn same_listener(self, other: ProxyState) -> bool {
        &&& self.max_connections == other.max_connections
        &&& self.stopping == other.stopping
        &&& self.backoff == other.backoff
    }

    /// Decide what becomes of a socket that the listener accepted from this
    /// address.
    pub fn dispatch(&mut self, peer: IpAddress, now: u128) -> (dispatch: Dispatch)
        requires
            old(self).well_formed(),
        ensures
            final(self).well_formed(),
            evolved(old(self).leases@, final(self).leases@),
            final(self).same_listener(*old(self)),
            match owner_of(old(self).leases@, PeerIdentity::SourceIp(peer).canonical_spec()) {
                None => dispatch is Unknown && *final(self) == *old(self),
                Some(at) => {
                    let lease = old(self).leases@[at];
                    let outcome = arrival(
                        lease,
                        old(self).connection_attempts,
                        old(self).in_flight as int,
                        old(self).max_connections as int,
                        now,
                    );
                    &&& final(self).leases@ == old(self).leases@.update(at, outcome.lease)
                    &&& final(self).connection_attempts == outcome.connection_attempts
                    &&& match dispatch {
                        Dispatch::Unknown => false,
                        Dispatch::Admitted { lease_id } => {
                            &&& outcome.refusal is None
                            &&& lease_id == lease.id
                            &&& final(self).in_flight == old(self).in_flight + 1
                            &&& final(self).diagnostics == old(self).diagnostics
                        },
                        Dispatch::Rejected { lease_id, reason, event } => {
                            &&& outcome.refusal == Some(reason@)
                            &&& lease_id == lease.id
                            &&& final(self).in_flight == old(self).in_flight
                            &&& denial_reported(
                                old(self).diagnostics,
                                final(self).diagnostics,
                                lease,
                                reason,
                                !settled(lease.phase),
                                now,
                                event,
                            )
                        },
                    }
                },
            },
    {
        let ghost before = *self;
        let identity = PeerIdentity::SourceIp(peer).canonical();
        let at: usize = match self.find_owner(identity) {
            Some(at) => at,
            None => return Dispatch::Unknown,
        };
        let lease_id: u64 = self.leases[at].id;
        let owner: PeerIdentity = self.leases[at].identity;
        let in_flight: usize = self.in_flight;
        let max_connections: usize = self.max_connections;
        let judged = judge_arrival(
            &mut self.leases[at],
            &mut self.connection_attempts,
            in_flight,
            max_connections,
            now,
        );
        proof {
            lemma_update_keeps_proxy_sound(before, at as int, self.leases@[at as int]);
            assert(self.leases@ =~= before.leases@.update(at as int, self.leases@[at as int]));
        }
        match judged {
            Ok(()) => {
                self.in_flight = self.in_flight + 1;
                Dispatch::Admitted { lease_id }
            },
            Err((reason, counted)) => {
                let event = if counted {
                    self.diagnostics.report_at(lease_id, owner, DenialReason::new(reason), now)
                } else {
                    None
                };
                Dispatch::Rejected { lease_id, reason, event }
            },
        }
    }
}

/// Why an identity cannot be attached among these leases, if it cannot.
pub open spec fn refusal_among(
    leases: Seq<LeaseState>,
    stopping: bool,
    identity: PeerIdentity,
) -> Option<AttachError> {
    if stopping {
        Some(AttachError::ProxyStopping)
    } else {
        match owner_of(leases, identity) {
            Some(at) => if leases[at].phase == Phase::Closed {
                None
            } else {
                Some(AttachError::IdentityInUse)
            },
            None => None,
        }
    }
}

/// The leases without the closed lease that owns this identity.
pub open spec fn without_owner(leases: Seq<LeaseState>, identity: PeerIdentity) -> Seq<LeaseState> {
    match owner_of(leases, identity) {
        Some(at) => leases.remove(at),
        None => leases,
    }
}

impl ProxyState {
    /// Why an identity cannot be attached, if it cannot.
    pub open spec fn attach_refusal(self, identity: PeerIdentity) -> Option<AttachError> {
        refusal_among(self.leases@, self.stopping, identity)
    }

    /// Check whether an identity can be attached once the accept queue has been
    /// drained.
    ///
    /// # Errors
    ///
    /// Returns [`AttachError::ProxyStopping`] after proxy-wide shutdown began,
    /// and [`AttachError::IdentityInUse`] until the previous lease has closed.
    pub fn attach_check(&self, identity: PeerIdentity) -> (result: Result<(), AttachError>)
        ensures
            match result {
                Ok(()) => self.attach_refusal(identity) is None,
                Err(error) => self.attach_refusal(identity) == Some(error),
            },
    {
        if self.stopping {
            return Err(AttachError::ProxyStopping);
        }
        match self.find_owner(identity) {
            Some(at) => if self.leases[at].is_closed() {
                Ok(())
            } else {
                Err(AttachError::IdentityInUse)
            },
            None => Ok(()),
        }
    }

    /// The leases without the closed lease that owns this identity.
    pub open spec fn leases_without(self, identity: PeerIdentity) -> Seq<LeaseState> {
        without_owner(self.leases@, identity)
    }

    /// Attach an immutable policy to a peer identity under a number that no
    /// lease has. A closed lease of the same identity is replaced.
    ///
    /// # Errors
    ///
    /// Returns [`AttachError::ProxyStopping`] after proxy-wide shutdown began,
    /// and [`AttachError::IdentityInUse`] until the previous lease has closed.
    fn install(&mut self, id: u64, identity: PeerIdentity, policy: Policy, now: u128) -> (result:
        Result<(), AttachError>)
        requires
            old(self).well_formed(),
            place_of(old(self).leases@, id) is None,
        ensures
            final(self).well_formed(),
            evolved(old(self).leases@, final(self).leases@),
            match result {
                Ok(()) => {
                    &&& old(self).attach_refusal(identity) is None
                    &&& *final(self) == (ProxyState { leases: final(self).leases, ..*old(self) })
                    &&& final(self).leases@ == old(self).leases_without(identity).push(
                        opened(id, identity, policy, now),
                    )
                },
                Err(error) => old(self).attach_refusal(identity) == Some(error) && *final(self)
                    == *old(self),
            },
    {
        let ghost before = *self;
        match self.attach_check(identity) {
            Ok(()) => {},
            Err(error) => return Err(error),
        }
        proof {
            lemma_owner_of(self.leases@, identity);
            lemma_place_of(self.leases@, id);
        }
        if let Some(at) = self.find_owner(identity) {
            let _replaced = self.leases.remove(at);
            proof {
                lemma_total_remove(before.leases@, at as int);
                assert(before.leases@[at as int].active() == 0);
                assert forall|i: int| 0 <= i < self.leases@.len() implies (
                #[trigger] self.leases@[i]).identity != identity by {
                    let j = if i < at {
                        i
                    } else {
                        i + 1
                    };
                    assert(self.leases@[i] == before.leases@[j]);
                    assert(before.leases@[j].identity != before.leases@[at as int].identity);
                }
            }
        }
        let ghost kept = self.leases@;
        let lease = LeaseState::new(id, identity, policy, now);
        proof {
            lemma_total_push(kept, lease);
        }
        self.leases.push(lease);
        Ok(())
    }

    /// Take note of a drain, and say whether what waited for it may happen.
    fn note_drain(&mut self, drain: DrainResult, now: u128, clock_limit: u128) -> (verdict:
        DrainVerdict)
        requires
            old(self).well_formed(),
        ensures
            final(self).well_formed(),
            *final(self) == old(self).after_drain(drain, now, clock_limit),
            verdict == (match drain {
                DrainResult::Drained => DrainVerdict::Proceed,
                DrainResult::BatchFull => DrainVerdict::Retry,
                DrainResult::AcceptFailed => DrainVerdict::Unavailable,
            }),
    {
        match drain {
            DrainResult::Drained => {
                self.backoff.recover();
                DrainVerdict::Proceed
            },
            DrainResult::BatchFull => {
                self.backoff.recover();
                DrainVerdict::Retry
            },
            DrainResult::AcceptFailed => {
                self.backoff.fail(now, clock_limit);
                DrainVerdict::Unavailable
            },
        }
    }

    /// The state after the accept queue was drained, or could not be: accepts
    /// pause only where the listener failed.
    pub open spec fn after_drain(
        self,
        drain: DrainResult,
        now: u128,
        clock_limit: u128,
    ) -> ProxyState {
        ProxyState {
            backoff: if drain == DrainResult::AcceptFailed {
                self.backoff.failed(now, clock_limit)
            } else {
                at_ease()
            },
            ..self
        }
    }

    /// Attach an identity once the accept queue has been drained. Where it was
    /// not seen empty, the policy comes back and the drain has to be repeated.
    pub fn attach_after_drain(
        &mut self,
        id: u64,
        identity: PeerIdentity,
        policy: Policy,
        drain: DrainResult,
        now: u128,
        clock_limit: u128,
    ) -> (step: AttachStep)
        requires
            old(self).well_formed(),
            place_of(old(self).leases@, id) is None,
        ensures
            final(self).well_formed(),
            evolved(old(self).leases@, final(self).leases@),
            ({
                let noted = old(self).after_drain(drain, now, clock_limit);
                match drain {
                    DrainResult::BatchFull => step == AttachStep::Retry(policy) && *final(self)
                        == noted,
                    DrainResult::AcceptFailed => step == AttachStep::Refused(
                        AttachError::ListenerUnavailable,
                    ) && *final(self) == noted,
                    DrainResult::Drained => match old(self).attach_refusal(identity) {
                        Some(error) => step == AttachStep::Refused(error) && *final(self) == noted,
                        None => {
                            &&& step == AttachStep::Attached
                            &&& *final(self) == (ProxyState {
                                leases: final(self).leases,
                                ..noted
                            })
                            &&& final(self).leases@ == old(self).leases_without(identity).push(
                                opened(id, identity, policy, now),
                            )
                        },
                    },
                }
            }),
    {
        match self.note_drain(drain, now, clock_limit) {
            DrainVerdict::Proceed => match self.install(id, identity, policy, now) {
                Ok(()) => AttachStep::Attached,
                Err(error) => AttachStep::Refused(error),
            },
            DrainVerdict::Retry => AttachStep::Retry(policy),
            DrainVerdict::Unavailable => AttachStep::Refused(AttachError::ListenerUnavailable),
        }
    }

    /// Take note of a drain that a closing lease asked for, and answer it. There
    /// is no answer where the drain has to be repeated.
    pub fn drain_reply(&mut self, drain: DrainResult, now: u128, clock_limit: u128) -> (reply:
        Option<Result<(), CloseErrorKind>>)
        requires
            old(self).well_formed(),
        ensures
            final(self).well_formed(),
            evolved(old(self).leases@, final(self).leases@),
            *final(self) == old(self).after_drain(drain, now, clock_limit),
            reply == (match drain {
                DrainResult::Drained => Some(Ok::<(), CloseErrorKind>(())),
                DrainResult::BatchFull => None,
                DrainResult::AcceptFailed => Some(
                    Err::<(), CloseErrorKind>(CloseErrorKind::ListenerUnavailable),
                ),
            }),
    {
        match self.note_drain(drain, now, clock_limit) {
            DrainVerdict::Proceed => Some(Ok(())),
            DrainVerdict::Retry => None,
            DrainVerdict::Unavailable => Some(Err(CloseErrorKind::ListenerUnavailable)),
        }
    }

    /// Whether the next socket is to be accepted: not once the proxy is
    /// stopping, and not during a pause.
    pub fn listens(&self) -> (yes: bool)
        ensures
            yes == (!self.stopping && self.backoff.retry_at is None),
    {
        !self.stopping && self.backoff.retry_at.is_none()
    }

    /// The end of the pause between accepts, while there is one.
    pub fn accept_retry_at(&self) -> (moment: Option<u128>)
        ensures
            moment == self.backoff.retry_at,
    {
        self.backoff.retry_at
    }

    /// The pause between accepts is over.
    pub fn resume_accepting(&mut self)
        requires
            old(self).well_formed(),
        ensures
            final(self).well_formed(),
            evolved(old(self).leases@, final(self).leases@),
            *final(self) == (ProxyState {
                backoff: AcceptBackoff { retry_at: None, ..old(self).backoff },
                ..*old(self)
            }),
    {
        self.backoff.resume();
    }

    /// A socket was accepted.
    pub fn accept_succeeded(&mut self)
        requires
            old(self).well_formed(),
        ensures
            final(self).well_formed(),
            evolved(old(self).leases@, final(self).leases@),
            *final(self) == (ProxyState { backoff: at_ease(), ..*old(self) }),
    {
        self.backoff.recover();
    }

    /// An accept failed.
    pub fn accept_failed(&mut self, now: u128, clock_limit: u128)
        requires
            old(self).well_formed(),
        ensures
            final(self).well_formed(),
            evolved(old(self).leases@, final(self).leases@),
            *final(self) == (ProxyState {
                backoff: old(self).backoff.failed(now, clock_limit),
                ..*old(self)
            }),
    {
        self.backoff.fail(now, clock_limit);
    }

    /// The leases after one of them changed.
    pub open spec fn leases_with(self, id: u64, change: spec_fn(LeaseState) -> LeaseState) -> Seq<
        LeaseState,
    > {
        match place_of(self.leases@, id) {
            Some(at) => self.leases@.update(at, change(self.leases@[at])),
            None => self.leases@,
        }
    }

    /// Whether the lease with this number is attached and satisfies a
    /// condition.
    pub open spec fn lease_is(self, id: u64, condition: spec_fn(LeaseState) -> bool) -> bool {
        match place_of(self.leases@, id) {
            Some(at) => condition(self.leases@[at]),
            None => false,
        }
    }

    /// Whether a lease owns connections, and so can be named by one of them.
    pub open spec fn working(self, id: u64) -> bool {
        self.lease_is(id, |lease: LeaseState| lease.active() > 0)
    }

    /// Whether a lease owns no connection any more.
    pub open spec fn drained(self, id: u64) -> bool {
        self.lease_is(id, |lease: LeaseState| lease.active() == 0)
    }

    pub fn is_drained(&self, id: u64) -> (yes: bool)
        ensures
            yes == self.drained(id),
    {
        match self.find(id) {
            Some(at) => self.leases[at].counters.usage.active_connections == 0,
            None => false,
        }
    }

    /// End a connection of a lease. The answer is whether there was one to end.
    pub fn finish(&mut self, id: u64, completed: bool) -> (ended: bool)
        requires
            old(self).well_formed(),
        ensures
            final(self).well_formed(),
            evolved(old(self).leases@, final(self).leases@),
            ended == old(self).working(id),
            if ended {
                &&& *final(self) == (ProxyState {
                    leases: final(self).leases,
                    in_flight: (old(self).in_flight - 1) as usize,
                    ..*old(self)
                })
                &&& final(self).leases@ == old(self).leases_with(
                    id,
                    |lease: LeaseState| lease.finished(completed),
                )
            } else {
                *final(self) == *old(self)
            },
    {
        let ghost before = *self;
        let at: usize = match self.find(id) {
            Some(at) => at,
            None => return false,
        };
        if self.leases[at].counters.usage.active_connections == 0 {
            return false;
        }
        self.leases[at].finish(completed);
        proof {
            lemma_update_keeps_proxy_sound(before, at as int, self.leases@[at as int]);
            assert(self.leases@ =~= before.leases@.update(at as int, self.leases@[at as int]));
        }
        self.in_flight = self.in_flight - 1;
        true
    }

    /// Count and report the denial of a connection of a lease.
    pub fn deny(&mut self, id: u64, reason: &'static str, now: u128) -> (event: Option<
        DiagnosticEvent,
    >)
        requires
            old(self).well_formed(),
        ensures
            final(self).well_formed(),
            evolved(old(self).leases@, final(self).leases@),
            if old(self).working(id) {
                &&& *final(self) == (ProxyState {
                    leases: final(self).leases,
                    diagnostics: final(self).diagnostics,
                    ..*old(self)
                })
                &&& final(self).leases@ == old(self).leases_with(
                    id,
                    |lease: LeaseState| lease.with_usage(with_denial(lease.counters.usage)),
                )
                &&& denial_reported(
                    old(self).diagnostics,
                    final(self).diagnostics,
                    old(self).leases@[place_of(old(self).leases@, id)->0],
                    reason,
                    true,
                    now,
                    event,
                )
            } else {
                *final(self) == *old(self) && event is None
            },
    {
        let ghost before = *self;
        let at: usize = match self.find(id) {
            Some(at) => at,
            None => return None,
        };
        if self.leases[at].counters.usage.active_connections == 0 {
            return None;
        }
        self.leases[at].record_denial();
        proof {
            lemma_update_keeps_proxy_sound(before, at as int, self.leases@[at as int]);
            assert(self.leases@ =~= before.leases@.update(at as int, self.leases@[at as int]));
        }
        let identity = self.leases[at].identity;
        self.diagnostics.report_at(id, identity, DenialReason::new(reason), now)
    }

    /// Count bytes that a connection of a lease read.
    pub fn transfer(&mut self, id: u64, direction: Direction, bytes: u64)
        requires
            old(self).well_formed(),
        ensures
            final(self).well_formed(),
            evolved(old(self).leases@, final(self).leases@),
            if old(self).working(id) {
                &&& *final(self) == (ProxyState { leases: final(self).leases, ..*old(self) })
                &&& final(self).leases@ == old(self).leases_with(
                    id,
                    |lease: LeaseState|
                        lease.with_usage(
                            match direction {
                                Direction::Upload => with_upload(lease.counters.usage, bytes),
                                Direction::Download => with_download(lease.counters.usage, bytes),
                            },
                        ),
                )
            } else {
                *final(self) == *old(self)
            },
    {
        let ghost before = *self;
        if let Some(at) = self.find(id) {
            if self.leases[at].counters.usage.active_connections != 0 {
                self.leases[at].record_transfer(direction, bytes);
                proof {
                    lemma_update_keeps_proxy_sound(before, at as int, self.leases@[at as int]);
                    assert(self.leases@ =~= before.leases@.update(
                        at as int,
                        self.leases@[at as int],
                    ));
                }
            }
        }
    }

    /// Count what a step of a session of a lease led to: so many uploaded bytes
    /// and, where the action denies the connection, the denial, which is
    /// reported with the reason of the action.
    pub fn account(&mut self, id: u64, action: &Action, uploaded: u64, now: u128) -> (event:
        Option<DiagnosticEvent>)
        requires
            old(self).well_formed(),
        ensures
            final(self).well_formed(),
            evolved(old(self).leases@, final(self).leases@),
            if old(self).working(id) {
                &&& *final(self) == (ProxyState {
                    leases: final(self).leases,
                    diagnostics: final(self).diagnostics,
                    ..*old(self)
                })
                &&& final(self).leases@ == old(self).leases_with(
                    id,
                    |lease: LeaseState|
                        lease.with_usage(accounted(lease.counters.usage, action@, uploaded)),
                )
                &&& match action.denied_for() {
                    Some(reason) => denial_reported(
                        old(self).diagnostics,
                        final(self).diagnostics,
                        old(self).leases@[place_of(old(self).leases@, id)->0],
                        reason,
                        true,
                        now,
                        event,
                    ),
                    None => final(self).diagnostics == old(self).diagnostics && event is None,
                }
            } else {
                *final(self) == *old(self) && event is None
            },
    {
        let ghost before = *self;
        proof {
            lemma_place_of(before.leases@, id);
        }
        self.transfer(id, Direction::Upload, uploaded);
        proof {
            lemma_place_by_numbers(self.leases@, before.leases@, id);
        }
        let event = match action.denial_reason() {
            Some(reason) => self.deny(id, reason, now),
            None => None,
        };
        proof {
            if before.working(id) {
                let at = place_of(before.leases@, id)->0;
                lemma_update_keeps_proxy_sound(before, at, self.leases@[at]);
                assert(self.leases@ =~= before.leases@.update(at, self.leases@[at]));
            }
        }
        event
    }

    /// Take note of what became of a diagnostic event.
    pub fn event_delivered(&mut self, suppressed_before: u64, delivery: Delivery)
        requires
            old(self).well_formed(),
        ensures
            final(self).well_formed(),
            evolved(old(self).leases@, final(self).leases@),
            *final(self) == (ProxyState { diagnostics: final(self).diagnostics, ..*old(self) }),
            final(self).diagnostics == old(self).diagnostics.after_delivery(
                suppressed_before,
                delivery,
            ),
    {
        self.diagnostics.delivered(suppressed_before, delivery);
    }

    /// Begin to revoke a lease. The answer is whether this call began it, and
    /// so the work of the lease is to be cancelled.
    pub fn begin_close(&mut self, id: u64) -> (began: bool)
        requires
            old(self).well_formed(),
        ensures
            final(self).well_formed(),
            evolved(old(self).leases@, final(self).leases@),
            *final(self) == (ProxyState { leases: final(self).leases, ..*old(self) }),
            final(self).leases@ == old(self).leases_with(
                id,
                |lease: LeaseState| lease.closing(),
            ),
            began == old(self).lease_is(id, |lease: LeaseState| lease.phase == Phase::Open),
    {
        let ghost before = *self;
        match self.find(id) {
            Some(at) => {
                let began: bool = self.leases[at].begin_close();
                proof {
                    lemma_update_keeps_proxy_sound(before, at as int, self.leases@[at as int]);
                    assert(self.leases@ =~= before.leases@.update(
                        at as int,
                        self.leases@[at as int],
                    ));
                }
                began
            },
            None => false,
        }
    }

    /// What an attached lease has used so far.
    pub open spec fn usage_of(self, id: u64) -> Option<Usage> {
        match place_of(self.leases@, id) {
            Some(at) => Some(self.leases@[at].counters.usage),
            None => None,
        }
    }

    /// The final usage of a closed lease.
    pub fn closed_snapshot(&self, id: u64) -> (usage: Option<FinalUsage>)
        ensures
            match usage {
                Some(usage) => self.lease_is(
                    id,
                    |lease: LeaseState| lease.phase == Phase::Closed,
                ) && self.usage_of(id) == Some(usage.0),
                None => !self.lease_is(id, |lease: LeaseState| lease.phase == Phase::Closed),
            },
    {
        match self.find(id) {
            Some(at) => self.leases[at].closed_snapshot(),
            None => None,
        }
    }

    /// The final usage of a lease that is ready to be closed.
    pub fn quiesced_snapshot(&self, id: u64) -> (usage: Option<FinalUsage>)
        ensures
            match usage {
                Some(usage) => self.lease_is(
                    id,
                    |lease: LeaseState| lease.phase == Phase::Quiesced,
                ) && self.usage_of(id) == Some(usage.0),
                None => !self.lease_is(id, |lease: LeaseState| lease.phase == Phase::Quiesced),
            },
    {
        match self.find(id) {
            Some(at) => self.leases[at].quiesced_snapshot(),
            None => None,
        }
    }

    /// How many sockets have arrived for a lease since its revocation began.
    pub open spec fn generation_of(self, id: u64) -> u64 {
        match place_of(self.leases@, id) {
            Some(at) => self.leases@[at].generation(),
            None => u64::MAX,
        }
    }

    pub fn revocation_generation(&self, id: u64) -> (generation: u64)
        ensures
            generation == self.generation_of(id),
    {
        match self.find(id) {
            Some(at) => self.leases[at].revocation_generation(),
            None => u64::MAX,
        }
    }

    /// Whether a lease owns no connection and no socket arrived for it since
    /// the number of arrivals was the expected one.
    pub open spec fn quiet(self, id: u64, expected: u64) -> bool {
        self.lease_is(
            id,
            |lease: LeaseState| lease.active() == 0 && lease.quiet_since(expected),
        )
    }

    /// Certify that a lease is quiet.
    pub fn quiesce_if_generation(&mut self, id: u64, expected: u64) -> (usage: Option<FinalUsage>)
        requires
            old(self).well_formed(),
        ensures
            final(self).well_formed(),
            evolved(old(self).leases@, final(self).leases@),
            *final(self) == (ProxyState { leases: final(self).leases, ..*old(self) }),
            final(self).leases@ == (if old(self).quiet(id, expected) {
                old(self).leases_with(
                    id,
                    |lease: LeaseState| LeaseState { phase: Phase::Quiesced, ..lease },
                )
            } else {
                old(self).leases@
            }),
            match usage {
                Some(usage) => old(self).quiet(id, expected) && old(self).usage_of(id) == Some(
                    usage.0,
                ),
                None => !old(self).quiet(id, expected),
            },
    {
        let ghost before = *self;
        match self.find(id) {
            Some(at) => {
                if self.leases[at].counters.usage.active_connections != 0 {
                    return None;
                }
                let usage = self.leases[at].quiesce_if_generation(expected);
                proof {
                    lemma_update_keeps_proxy_sound(before, at as int, self.leases@[at as int]);
                    assert(self.leases@ =~= before.leases@.update(
                        at as int,
                        self.leases@[at as int],
                    ));
                    assert(before.leases@ =~= before.leases@.update(
                        at as int,
                        before.leases@[at as int],
                    ));
                }
                usage
            },
            None => None,
        }
    }

    /// Close a lease whose work is gone. The answer is whether it is closed.
    pub fn mark_closed(&mut self, id: u64) -> (closed: bool)
        requires
            old(self).well_formed(),
        ensures
            final(self).well_formed(),
            evolved(old(self).leases@, final(self).leases@),
            *final(self) == (ProxyState { leases: final(self).leases, ..*old(self) }),
            closed == old(self).drained(id),
            final(self).leases@ == (if closed {
                old(self).leases_with(
                    id,
                    |lease: LeaseState| LeaseState { phase: Phase::Closed, ..lease },
                )
            } else {
                old(self).leases@
            }),
    {
        let ghost before = *self;
        match self.find(id) {
            Some(at) => {
                if self.leases[at].counters.usage.active_connections != 0 {
                    return false;
                }
                self.leases[at].mark_closed();
                proof {
                    lemma_update_keeps_proxy_sound(before, at as int, self.leases@[at as int]);
                    assert(self.leases@ =~= before.leases@.update(
                        at as int,
                        self.leases@[at as int],
                    ));
                }
                true
            },
            None => false,
        }
    }

    /// Release the identity of a closed lease. A lease that has replaced it is
    /// not touched.
    pub fn release(&mut self, id: u64) -> (released: bool)
        requires
            old(self).well_formed(),
        ensures
            final(self).well_formed(),
            evolved(old(self).leases@, final(self).leases@),
            *final(self) == (ProxyState { leases: final(self).leases, ..*old(self) }),
            released == old(self).lease_is(id, |lease: LeaseState| lease.phase == Phase::Closed),
            final(self).leases@ == (if released {
                old(self).leases@.remove(place_of(old(self).leases@, id)->0)
            } else {
                old(self).leases@
            }),
    {
        let ghost before = *self;
        match self.find(id) {
            Some(at) => {
                if !self.leases[at].is_closed() {
                    return false;
                }
                let _released = self.leases.remove(at);
                proof {
                    lemma_total_remove(before.leases@, at as int);
                    assert(before.leases@[at as int].active() == 0);
                    assert forall|i: int| 0 <= i < self.leases@.len() implies (
                    #[trigger] self.leases@[i]).well_formed() by {
                        let j = if i < at {
                            i
                        } else {
                            i + 1
                        };
                        assert(self.leases@[i] == before.leases@[j]);
                    }
                }
                true
            },
            None => false,
        }
    }

    /// Close a lease whose work is gone, and release its identity. The answer is
    /// whether it was attached and its work gone.
    pub fn retire(&mut self, id: u64) -> (retired: bool)
        requires
            old(self).well_formed(),
        ensures
            final(self).well_formed(),
            evolved(old(self).leases@, final(self).leases@),
            *final(self) == (ProxyState { leases: final(self).leases, ..*old(self) }),
            retired == old(self).drained(id),
            final(self).leases@ == (if retired {
                old(self).leases@.remove(place_of(old(self).leases@, id)->0)
            } else {
                old(self).leases@
            }),
    {
        let ghost before = self.leases@;
        let ghost at = place_of(before, id)->0;
        proof {
            lemma_place_of(before, id);
        }
        if !self.mark_closed(id) {
            return false;
        }
        let ghost closed = self.leases@;
        proof {
            lemma_place_by_numbers(closed, before, id);
        }
        let _ = self.release(id);
        proof {
            assert(self.leases@ =~= before.remove(at));
            assert forall|i: int, j: int|
                0 <= i < before.len() && 0 <= j < self.leases@.len() && before[i].id
                    == self.leases@[j].id implies #[trigger] advanced(
                before[i],
                self.leases@[j],
            ) by {
                let k = if j < at {
                    j
                } else {
                    j + 1
                };
                assert(self.leases@[j] == before[k]);
            }
        }
        true
    }

    /// What a lease has used so far; nothing where it is not attached.
    pub fn usage(&self, id: u64) -> (usage: Usage)
        ensures
            usage == (match self.usage_of(id) {
                Some(usage) => usage,
                None => no_usage(),
            }),
    {
        match self.find(id) {
            Some(at) => self.leases[at].counters.snapshot(),
            None => Usage::default(),
        }
    }

    /// Begin proxy-wide shutdown: nothing is attached any more, and every lease
    /// is revoked. The answer lists the leases whose end is to be awaited.
    pub(crate) fn begin_shutdown(&mut self) -> (ids: Vec<u64>)
        requires
            old(self).well_formed(),
        ensures
            final(self).well_formed(),
            evolved(old(self).leases@, final(self).leases@),
            *final(self) == (ProxyState {
                leases: final(self).leases,
                stopping: true,
                ..*old(self)
            }),
            final(self).leases@.len() == old(self).leases@.len(),
            ids@.len() == old(self).leases@.len(),
            forall|i: int|
                0 <= i < old(self).leases@.len() ==> {
                    &&& #[trigger] final(self).leases@[i] == old(self).leases@[i].closing()
                    &&& ids@[i] == old(self).leases@[i].id
                },
    {
        let ghost before = *self;
        self.stopping = true;
        let mut ids: Vec<u64> = Vec::new();
        let mut i: usize = 0;
        while i < self.leases.len()
            invariant
                i <= self.leases@.len(),
                before.well_formed(),
                self.well_formed(),
                *self == (ProxyState { leases: self.leases, stopping: true, ..before }),
                self.leases@.len() == before.leases@.len(),
                ids@.len() == i,
                forall|j: int|
                    0 <= j < i ==> {
                        &&& #[trigger] self.leases@[j] == before.leases@[j].closing()
                        &&& ids@[j] == before.leases@[j].id
                    },
                forall|j: int|
                    i <= j < self.leases@.len() ==> #[trigger] self.leases@[j] == before.leases@[j],
            decreases self.leases@.len() - i,
        {
            let ghost current = *self;
            ids.push(self.leases[i].id);
            let _ = self.leases[i].begin_close();
            proof {
                lemma_update_keeps_proxy_sound(current, i as int, self.leases@[i as int]);
                assert(self.leases@ =~= current.leases@.update(i as int, self.leases@[i as int]));
            }
            i += 1;
        }
        ids
    }
}

/// An identity never has two owners.
pub proof fn law_identities_have_one_owner(state: ProxyState, i: int, j: int)
    requires
        state.well_formed(),
        0 <= i < state.leases@.len(),
        0 <= j < state.leases@.len(),
        state.leases@[i].identity == state.leases@[j].identity,
    ensures
        i == j,
        owner_of(state.leases@, state.leases@[i].identity) == Some(i),
{
    lemma_owner_of(state.leases@, state.leases@[i].identity);
}

/// As long as a lease has not closed, whatever else became of it, its identity
/// cannot be attached again.
pub proof fn law_unclosed_leases_keep_their_identity(state: ProxyState, at: int)
    requires
        state.well_formed(),
        0 <= at < state.leases@.len(),
        state.leases@[at].phase != Phase::Closed,
    ensures
        state.attach_refusal(state.leases@[at].identity) is Some,
{
    law_identities_have_one_owner(state, at, at);
}

/// A certificate is final: whatever happens to the proxy, a closed lease stays
/// closed and its counters stay as they are.
pub proof fn law_certificates_are_final(
    before: Seq<LeaseState>,
    after: Seq<LeaseState>,
    i: int,
    j: int,
)
    requires
        evolved(before, after),
        0 <= i < before.len(),
        0 <= j < after.len(),
        before[i].id == after[j].id,
        before[i].phase == Phase::Closed,
    ensures
        after[j].phase == Phase::Closed,
        after[j].counters == before[i].counters,
        after[j].identity == before[i].identity,
{
    assert(advanced(before[i], after[j]));
}

/// Leases advance through any number of operations as they do through one, as
/// long as no number comes back.
pub proof fn law_evolution_is_transitive(
    first: Seq<LeaseState>,
    second: Seq<LeaseState>,
    third: Seq<LeaseState>,
)
    requires
        evolved(first, second),
        evolved(second, third),
        forall|i: int|
            0 <= i < first.len() && place_of(third, (#[trigger] first[i]).id) is Some
                ==> place_of(second, first[i].id) is Some,
    ensures
        evolved(first, third),
{
    assert forall|i: int, k: int|
        0 <= i < first.len() && 0 <= k < third.len() && first[i].id
            == third[k].id implies #[trigger] advanced(first[i], third[k]) by {
        lemma_place_of(second, first[i].id);
        lemma_place_of(third, first[i].id);
        let j = place_of(second, first[i].id)->0;
        assert(advanced(first[i], second[j]));
        assert(advanced(second[j], third[k]));
    }
}

/// After proxy-wide shutdown began nothing is attached any more.
pub proof fn law_stopping_proxies_attach_nothing(state: ProxyState, identity: PeerIdentity)
    requires
        state.stopping,
    ensures
        state.attach_refusal(identity) == Some(AttachError::ProxyStopping),
{
}

/// A lease that has been replaced is gone: to release it late does not touch
/// the lease that replaced it.
pub proof fn law_late_releases_spare_the_replacement(
    state: ProxyState,
    at: int,
    id: u64,
    policy: Policy,
    now: u128,
)
    requires
        state.well_formed(),
        0 <= at < state.leases@.len(),
        place_of(state.leases@, id) is None,
    ensures
        ({
            let replaced = state.leases@[at];
            let after = state.leases_without(replaced.identity).push(
                opened(id, replaced.identity, policy, now),
            );
            &&& place_of(after, replaced.id) is None
            &&& owner_of(after, replaced.identity) == Some(after.len() - 1)
        }),
{
    let replaced = state.leases@[at];
    law_identities_have_one_owner(state, at, at);
    lemma_place_of(state.leases@, id);
    let kept = state.leases_without(replaced.identity);
    let after = kept.push(opened(id, replaced.identity, policy, now));
    lemma_place_of(after, replaced.id);
    lemma_owner_of(after, replaced.identity);
    assert forall|i: int| 0 <= i < kept.len() implies (#[trigger] after[i]).id != replaced.id
        && after[i].identity != replaced.identity by {
        let j = if i < at {
            i
        } else {
            i + 1
        };
        assert(after[i] == state.leases@[j]);
        assert(state.leases@[j].id != state.leases@[at].id);
    }
}

/// No lease owns more connections than its policy allows, and all leases
/// together own no more than the proxy allows.
pub proof fn law_connections_stay_below_both_ceilings(state: ProxyState, at: int)
    requires
        state.well_formed(),
        0 <= at < state.leases@.len(),
    ensures
        state.leases@[at].active() <= state.leases@[at].policy.max_connections,
        state.leases@[at].active() <= total_active(state.leases@) <= state.max_connections,
{
    lemma_total_bounds(state.leases@, at);
}

/// A socket that arrives for a lease with final counters changes neither the
/// lease nor the shared rate, and is not admitted.
pub proof fn law_final_counters_stay(
    lease: LeaseState,
    connection_attempts: Option<TokenBucket>,
    in_flight: int,
    max_connections: int,
    now: u128,
)
    requires
        lease.well_formed(),
        settled(lease.phase),
    ensures
        ({
            let outcome = arrival(lease, connection_attempts, in_flight, max_connections, now);
            &&& outcome.lease == lease
            &&& outcome.connection_attempts == connection_attempts
            &&& outcome.refusal is Some
        }),
{
}

/// A socket that arrives for a revoking lease is turned away and counted as an
/// arrival, whatever the rates and the ceilings say, and takes nothing from the
/// rate that all leases share.
pub proof fn law_revoking_leases_turn_every_socket_away(
    lease: LeaseState,
    connection_attempts: Option<TokenBucket>,
    in_flight: int,
    max_connections: int,
    now: u128,
)
    requires
        lease.phase is Revoking,
    ensures
        ({
            let outcome = arrival(lease, connection_attempts, in_flight, max_connections, now);
            &&& outcome.lease == lease.turned_away()
            &&& outcome.lease == after_arrivals(lease, 1)
            &&& outcome.connection_attempts == connection_attempts
            &&& outcome.refusal is Some
        }),
{
    reveal_with_fuel(after_arrivals, 2);
}

/// A lease admits a socket only while it is open and both ceilings have room.
pub proof fn law_admission_needs_an_open_lease(
    lease: LeaseState,
    connection_attempts: Option<TokenBucket>,
    in_flight: int,
    max_connections: int,
    now: u128,
)
    requires
        arrival(lease, connection_attempts, in_flight, max_connections, now).refusal is None,
    ensures
        lease.phase == Phase::Open,
        lease.active() < lease.policy.max_connections,
        in_flight < max_connections,
        attempt_granted(lease.connection_attempts, now),
        attempt_granted(connection_attempts, now),
{
}

/// One lease that has used up its own rate takes nothing from the rate that all
/// leases share.
pub proof fn law_exhausted_leases_spare_the_shared_rate(
    lease: LeaseState,
    connection_attempts: Option<TokenBucket>,
    in_flight: int,
    max_connections: int,
    now: u128,
)
    requires
        !attempt_granted(lease.connection_attempts, now),
    ensures
        arrival(
            lease,
            connection_attempts,
            in_flight,
            max_connections,
            now,
        ).connection_attempts == connection_attempts,
{
}

/// A socket that arrives for an open lease is admitted whenever there is room:
/// where the lease and the proxy own fewer connections than they may, and both
/// rates grant the attempt. The lease then owns one connection more, and nothing
/// is counted as a denial.
pub proof fn law_room_and_rate_are_admission(
    lease: LeaseState,
    connection_attempts: Option<TokenBucket>,
    in_flight: int,
    max_connections: int,
    now: u128,
)
    requires
        lease.well_formed(),
        lease.phase == Phase::Open,
        lease.active() < lease.policy.max_connections,
        in_flight < max_connections,
        lease.connection_attempts matches Some(bucket) ==> grants(bucket, now),
        connection_attempts matches Some(bucket) ==> grants(bucket, now),
    ensures
        ({
            let outcome = arrival(lease, connection_attempts, in_flight, max_connections, now);
            &&& outcome.refusal is None
            &&& outcome.lease.active() == lease.active() + 1
            &&& outcome.lease.phase == Phase::Open
            &&& outcome.lease.policy == lease.policy
            &&& outcome.lease.counters.usage.denied_connections
                == lease.counters.usage.denied_connections
        }),
{
}

/// A socket that is turned away is told the reason that holds, and only the
/// first of several: the lease does not serve any more, its own rate, the shared
/// rate, the ceiling of the proxy, the ceiling of the lease. It costs the lease
/// no connection.
pub proof fn law_refusals_name_what_is_missing(
    lease: LeaseState,
    connection_attempts: Option<TokenBucket>,
    in_flight: int,
    max_connections: int,
    now: u128,
)
    requires
        lease.well_formed(),
        lease.phase == Phase::Open,
    ensures
        ({
            let outcome = arrival(lease, connection_attempts, in_flight, max_connections, now);
            let own = lease.connection_attempts matches Some(bucket) ==> grants(bucket, now);
            let shared = connection_attempts matches Some(bucket) ==> grants(bucket, now);
            &&& !own ==> outcome.refusal == Some("lease-rate"@)
            &&& own && !shared ==> outcome.refusal == Some("global-rate"@)
            &&& own && shared && in_flight >= max_connections ==> outcome.refusal == Some(
                "global-capacity"@,
            )
            &&& own && shared && in_flight < max_connections && lease.active()
                >= lease.policy.max_connections ==> outcome.refusal == Some("lease-capacity"@)
            &&& outcome.refusal is Some ==> outcome.lease.active() == lease.active()
                && outcome.lease.counters.usage.denied_connections == saturated(
                lease.counters.usage.denied_connections,
                1,
            )
        }),
{
}

/// The lease with a number, and the owner of an identity, are found wherever
/// they stand, and nothing else is taken for them.
pub proof fn law_leases_are_found_wherever_they_stand(
    leases: Seq<LeaseState>,
    at: int,
    id: u64,
    identity: PeerIdentity,
)
    requires
        distinct_leases(leases),
        0 <= at < leases.len(),
    ensures
        place_of(leases, id) == Some(at) <==> leases[at].id == id,
        owner_of(leases, identity) == Some(at) <==> leases[at].identity == identity,
{
    lemma_place_of(leases, id);
    lemma_owner_of(leases, identity);
}

/// An identity can be attached exactly if the proxy is not stopping and every
/// lease of that identity has closed.
pub proof fn law_free_identities_can_be_attached(
    leases: Seq<LeaseState>,
    stopping: bool,
    identity: PeerIdentity,
)
    requires
        distinct_leases(leases),
    ensures
        refusal_among(leases, stopping, identity) is None <==> !stopping && forall|i: int|
            0 <= i < leases.len() && (#[trigger] leases[i]).identity == identity
                ==> leases[i].phase == Phase::Closed,
{
    lemma_owner_of(leases, identity);
}

/// To attach an identity forgets only a lease of that identity.
pub proof fn law_attaching_spares_other_leases(
    leases: Seq<LeaseState>,
    identity: PeerIdentity,
    at: int,
)
    requires
        distinct_leases(leases),
        0 <= at < leases.len(),
    ensures
        without_owner(leases, identity).contains(leases[at]) <==> leases[at].identity != identity,
        forall|i: int|
            0 <= i < without_owner(leases, identity).len() ==> leases.contains(
                #[trigger] without_owner(leases, identity)[i],
            ),
{
    let kept = without_owner(leases, identity);
    lemma_owner_of(leases, identity);
    assert forall|i: int| 0 <= i < kept.len() implies leases.contains(#[trigger] kept[i]) by {
        let j = match owner_of(leases, identity) {
            Some(owner) => if i < owner {
                i
            } else {
                i + 1
            },
            None => i,
        };
        assert(kept[i] == leases[j]);
    }
    if leases[at].identity != identity {
        let i = match owner_of(leases, identity) {
            Some(owner) => if at < owner {
                at
            } else {
                at - 1
            },
            None => at,
        };
        assert(kept[i] == leases[at]);
    } else {
        law_leases_are_found_wherever_they_stand(leases, at, leases[at].id, identity);
        assert forall|i: int| 0 <= i < kept.len() implies (#[trigger] kept[i]).identity
            != identity by {
            let j = if i < at {
                i
            } else {
                i + 1
            };
            assert(kept[i] == leases[j]);
            assert(leases[j].identity != leases[at].identity);
        }
    }
}

/// What changes one lease changes no other, and no lease comes or goes.
pub proof fn law_changes_concern_one_lease(
    state: ProxyState,
    id: u64,
    change: spec_fn(LeaseState) -> LeaseState,
    at: int,
)
    requires
        state.well_formed(),
        0 <= at < state.leases@.len(),
    ensures
        state.leases_with(id, change).len() == state.leases@.len(),
        state.leases_with(id, change)[at] == (if state.leases@[at].id == id {
            change(state.leases@[at])
        } else {
            state.leases@[at]
        }),
{
    lemma_place_of(state.leases@, id);
}

/// A drain that saw the listener work ends every pause, and one that saw it fail
/// begins a pause that is twice as long as the last; nothing else changes.
pub proof fn law_drains_show_whether_the_listener_works(
    state: ProxyState,
    now: u128,
    clock_limit: u128,
)
    requires
        state.backoff.delay == 0 || 5_000_000 <= state.backoff.delay <= 500_000_000,
    ensures
        state.after_drain(DrainResult::Drained, now, clock_limit) == state.after_drain(
            DrainResult::BatchFull,
            now,
            clock_limit,
        ),
        state.after_drain(DrainResult::Drained, now, clock_limit) == (ProxyState {
            backoff: AcceptBackoff { delay: 0, retry_at: None },
            ..state
        }),
        ({
            let failed = state.after_drain(DrainResult::AcceptFailed, now, clock_limit);
            &&& failed == (ProxyState { backoff: failed.backoff, ..state })
            &&& failed.backoff.delay == (if state.backoff.delay == 0 {
                5_000_000
            } else {
                2 * state.backoff.delay
            })
            &&& now + failed.backoff.delay <= clock_limit ==> failed.backoff.retry_at == Some(
                (now + failed.backoff.delay) as u128,
            )
        }),
{
}

/// An attached lease works exactly as long as it owns a connection, whatever its
/// phase, and is drained otherwise; one that is not attached is neither. What it
/// has used and how many sockets arrived for it is what the lease itself says.
pub proof fn law_leases_work_or_are_drained(state: ProxyState, at: int, id: u64)
    requires
        state.well_formed(),
        0 <= at < state.leases@.len(),
    ensures
        ({
            let lease = state.leases@[at];
            &&& state.working(lease.id) <==> lease.counters.usage.active_connections > 0
            &&& state.drained(lease.id) <==> lease.counters.usage.active_connections == 0
            &&& state.usage_of(lease.id) == Some(lease.counters.usage)
            &&& lease.phase matches Phase::Revoking(arrivals) ==> state.generation_of(lease.id)
                == arrivals
            &&& forall|expected: u64| #[trigger]
                state.quiet(lease.id, expected) <==> lease.counters.usage.active_connections == 0
                    && lease.phase == Phase::Revoking(expected) && expected < u64::MAX
        }),
        (forall|i: int| 0 <= i < state.leases@.len() ==> (#[trigger] state.leases@[i]).id != id)
            ==> !state.working(id) && !state.drained(id) && state.usage_of(id) is None,
{
    lemma_place_of(state.leases@, state.leases@[at].id);
    lemma_place_of(state.leases@, id);
}

/// A counted denial always reaches the reporter, under the number and the
/// identity of its lease and with its reason; one that was not counted never
/// does.
pub proof fn law_counted_denials_are_reported(
    before: DiagnosticReporter,
    after: DiagnosticReporter,
    lease: LeaseState,
    reason: &'static str,
    counted: bool,
    now: u128,
    event: Option<DiagnosticEvent>,
)
    requires
        denial_reported(before, after, lease, reason, counted, now, event),
    ensures
        counted ==> after == before.after_report(now) && event == before.event_of(
            lease.id,
            lease.identity,
            DenialReason(reason),
            now,
        ),
        event matches Some(event) ==> counted && event.lease_id == lease.id && event.identity
            == lease.identity && event.reason.0 == reason,
        !counted ==> after == before && event is None,
{
}

/// A socket that arrives for a lease which is quiet or closed is turned away
/// unseen: the counters of such a lease are final.
pub proof fn law_quiet_and_closed_leases_count_nothing(lease: LeaseState)
    requires
        lease.phase == Phase::Quiesced || lease.phase == Phase::Closed,
    ensures
        settled(lease.phase),
        lease.turned_away() == lease,
        lease.after_request() == lease,
        !settled(Phase::Open),
        forall|arrivals: u64| !#[trigger] settled(Phase::Revoking(arrivals)),
{
}

} // verus!
