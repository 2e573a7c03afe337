//! The management handles: the shared proxy, and the lease of one run.

use vstd::prelude::*;

use crate::address::{is_proxy_endpoint, reaches_endpoint, SocketAddress};
use crate::close::{
    close_finished, close_going, close_step, leases_after, CloseAction, CloseEvent, CloseStage,
};
use crate::config::ProxyConfig;
use crate::error::{
    AttachError, CloseError, CloseErrorKind, ProxyError, ShutdownError, ShutdownErrorKind,
};
use crate::identity::{Endpoint, PeerIdentity};
use crate::lease::{opened, LeaseState, Phase};
use crate::policy::Policy;
use crate::state::{
    distinct_leases, evolved, lemma_owner_of, lemma_place_by_numbers, lemma_place_of, owner_of,
    place_of, refusal_among, without_owner, ProxyState,
};
use crate::text::joined;
use crate::time::{clock_answered, deadline_is_representable, MAX_SPAN};
use crate::usage::{no_usage, FinalUsage, Usage};

verus! {

/// What went wrong before the listener could serve.
#[derive(Debug)]
pub enum StartupFailure {
    /// The configuration does not hold together.
    Configuration(&'static str),
    /// The runtime thread could not be spawned.
    Thread(String),
    Runtime(String),
    Resolver(String),
    Bind(String),
    Address(String),
    /// The runtime thread ended before it was ready.
    Stopped,
}

impl StartupFailure {
    /// The reason that the caller is given, where there is one.
    pub open spec fn reason(self) -> Option<Seq<char>> {
        match self {
            StartupFailure::Configuration(reason) => Some(reason@),
            StartupFailure::Thread(error) => Some(error@),
            StartupFailure::Runtime(error) => Some("runtime creation failed: "@ + error@),
            StartupFailure::Resolver(error) => Some("resolver initialization failed: "@ + error@),
            StartupFailure::Bind(error) => Some("listener bind failed: "@ + error@),
            StartupFailure::Address(error) => Some("listener address failed: "@ + error@),
            StartupFailure::Stopped => None,
        }
    }

    /// The error that the caller of the proxy sees.
    pub fn into_error(self) -> (error: ProxyError)
        ensures
            match self.reason() {
                Some(reason) => error matches ProxyError::Initialization(text) && text@ == reason,
                None => error is RuntimeStopped,
            },
    {
        let reason: String = match self {
            StartupFailure::Configuration(reason) => reason.to_owned(),
            StartupFailure::Thread(error) => error,
            StartupFailure::Runtime(error) => joined("runtime creation failed: ", error.as_str()),
            StartupFailure::Resolver(error) => joined(
                "resolver initialization failed: ",
                error.as_str(),
            ),
            StartupFailure::Bind(error) => joined("listener bind failed: ", error.as_str()),
            StartupFailure::Address(error) => joined("listener address failed: ", error.as_str()),
            StartupFailure::Stopped => return ProxyError::RuntimeStopped,
        };
        ProxyError::Initialization(reason)
    }
}

/// Why a listener at this address may not serve this configuration: a service
/// that the proxy itself uses would be the proxy.
pub open spec fn listener_refusal(config: ProxyConfig, bound: SocketAddress) -> Option<Seq<char>> {
    if config.upstream_proxy is Some && reaches_endpoint(config.upstream_proxy->0, bound) {
        Some("upstream proxy must not be the Sandbox Egress listener"@)
    } else if exists|i: int|
        0 <= i < config.dns_servers@.len() && reaches_endpoint(
            #[trigger] config.dns_servers@[i],
            bound,
        ) {
        Some("explicit DNS server must not be the Sandbox Egress listener"@)
    } else {
        None
    }
}

/// Whether a listener at this address may serve this configuration.
///
/// # Errors
///
/// Returns the reason for which it may not.
pub fn check_listener(config: &ProxyConfig, bound: SocketAddress) -> (result: Result<
    (),
    &'static str,
>)
    ensures
        match result {
            Ok(()) => listener_refusal(*config, bound) is None,
            Err(reason) => listener_refusal(*config, bound) == Some(reason@),
        },
{
    if let Some(proxy) = config.upstream_proxy {
        if is_proxy_endpoint(proxy, bound) {
            return Err("upstream proxy must not be the Sandbox Egress listener");
        }
    }
    let mut i: usize = 0;
    while i < config.dns_servers.len()
        invariant
            i <= config.dns_servers.len(),
            config.upstream_proxy is Some ==> !reaches_endpoint(config.upstream_proxy->0, bound),
            forall|j: int|
                0 <= j < i ==> !reaches_endpoint(#[trigger] config.dns_servers@[j], bound),
        decreases config.dns_servers.len() - i,
    {
        if is_proxy_endpoint(config.dns_servers[i], bound) {
            return Err("explicit DNS server must not be the Sandbox Egress listener");
        }
        i += 1;
    }
    Ok(())
}

/// A lease number that was set aside for an identity.
#[derive(Clone, Copy, Debug, PartialEq, Eq, Structural)]
pub struct Reservation {
    pub id: u64,
    pub identity: PeerIdentity,
}

/// What the runtime answered to a request for shutdown.
#[derive(Clone, Copy, Debug, PartialEq, Eq, Structural)]
pub enum ShutdownReply {
    /// Every lease has stopped, and the runtime thread was awaited. The flag
    /// says whether that thread ended normally.
    Certified { joined: bool },
    /// Work remained at the deadline.
    Refused,
    /// No answer came before the deadline.
    TimedOut,
    /// The runtime is gone.
    Disconnected,
}

/// Shared proxy listener and synchronous management handle.
#[derive(Debug)]
#[must_use]
pub struct Proxy {
    pub endpoint: Endpoint,
    pub next_lease_id: u64,
}

/// Exclusive management handle for one run's proxy identity and work.
#[derive(Debug)]
#[must_use]
pub struct Lease {
    pub id: u64,
    pub endpoint: Endpoint,
}

/// Why no number is set aside for an identity where this is the next one, if
/// none is.
pub open spec fn number_refusal(next: u64, identity: PeerIdentity) -> Option<AttachError> {
    if !identity.canonical_spec().attachable() {
        Some(AttachError::InvalidIdentity)
    } else if next == u64::MAX {
        Some(AttachError::LeaseIdExhausted)
    } else {
        None
    }
}

impl Proxy {
    /// What starting gives, where the host clock gave these two answers about
    /// the header deadline and the quiet period: a configuration that validation
    /// refuses is refused first, whatever became of the listener.
    pub open spec fn started(
        before: ProxyConfig,
        after: ProxyConfig,
        header_fits: bool,
        quiet_fits: bool,
        listener: Result<SocketAddress, StartupFailure>,
        result: Result<Proxy, ProxyError>,
    ) -> bool {
        match (before.refusal(header_fits, quiet_fits), listener) {
            (Some(reason), _) => {
                &&& after == before
                &&& result matches Err(ProxyError::Initialization(text)) && text@ == reason
            },
            (None, Err(failure)) => {
                &&& after == before
                &&& match failure.reason() {
                    Some(reason) => result matches Err(ProxyError::Initialization(text)) && text@
                        == reason,
                    None => result matches Err(ProxyError::RuntimeStopped),
                }
            },
            (None, Ok(bound)) => {
                &&& after == (ProxyConfig { bind_address: bound, ..before })
                &&& match (listener_refusal(before, bound), result) {
                    (Some(reason), Err(ProxyError::Initialization(text))) => text@ == reason,
                    (None, Ok(proxy)) => proxy.endpoint == Endpoint(bound) && proxy.next_lease_id
                        == 1,
                    _ => false,
                }
            },
        }
    }

    /// Start the proxy, given whether the host clock can express the deadlines
    /// of the configuration.
    ///
    /// # Errors
    ///
    /// As for [`Proxy::start`].
    pub fn start_when(
        config: &mut ProxyConfig,
        header_fits: bool,
        quiet_fits: bool,
        listener: Result<SocketAddress, StartupFailure>,
    ) -> (result: Result<Self, ProxyError>)
        ensures
            Proxy::started(
                *old(config),
                *final(config),
                header_fits,
                quiet_fits,
                listener,
                result,
            ),
    {
        match config.validate_when(header_fits, quiet_fits) {
            Ok(()) => {},
            Err(reason) => return Err(StartupFailure::Configuration(reason).into_error()),
        }
        let bound: SocketAddress = match listener {
            Ok(bound) => bound,
            Err(failure) => return Err(failure.into_error()),
        };
        let checked = check_listener(config, bound);
        config.bind_address = bound;
        match checked {
            Ok(()) => Ok(Proxy { endpoint: Endpoint::new(bound), next_lease_id: 1 }),
            Err(reason) => Err(StartupFailure::Configuration(reason).into_error()),
        }
    }

    /// Start the proxy behind a listener that was set up, or was not. The
    /// configuration learns the address that the listener was given. Which spans
    /// above zero the host clock can express is left open; [`Proxy::start_when`]
    /// takes its answers.
    ///
    /// # Errors
    ///
    /// Returns an error when the configuration does not hold together, when the
    /// runtime thread, resolver, or listener could not be initialized, or when
    /// a service that the proxy uses is the proxy itself.
    pub fn start(
        config: &mut ProxyConfig,
        listener: Result<SocketAddress, StartupFailure>,
    ) -> (result: Result<Self, ProxyError>)
        ensures
            exists|header_fits: bool, quiet_fits: bool| #[trigger]
                Proxy::started(
                    *old(config),
                    *final(config),
                    header_fits,
                    quiet_fits,
                    listener,
                    result,
                ) && (old(config).header_timeout > MAX_SPAN ==> !header_fits) && (old(
                    config,
                ).identity_reuse_quiet_period > MAX_SPAN ==> !quiet_fits) && (old(
                    config,
                ).identity_reuse_quiet_period == 0 ==> quiet_fits) && (old(config).header_timeout
                    <= MAX_SPAN ==> clock_answered(old(config).header_timeout, header_fits)) && (
                old(config).identity_reuse_quiet_period <= MAX_SPAN ==> clock_answered(
                    old(config).identity_reuse_quiet_period,
                    quiet_fits,
                )),
    {
        let header_fits: bool = deadline_is_representable(config.header_timeout);
        let quiet_fits: bool = deadline_is_representable(config.identity_reuse_quiet_period);
        Proxy::start_when(config, header_fits, quiet_fits, listener)
    }

    /// Return the listener endpoint shared by all leases.
    ///
    /// A wildcard bind reports its wildcard IP; the host integration chooses
    /// the reachable address it advertises to each guest.
    pub fn endpoint(&self) -> (endpoint: Endpoint)
        ensures
            endpoint == self.endpoint,
    {
        self.endpoint
    }

    /// Why no number is set aside for an identity, if none is.
    pub open spec fn reservation_refusal(self, identity: PeerIdentity) -> Option<AttachError> {
        number_refusal(self.next_lease_id, identity)
    }

    /// Whether every attached lease has a number that this proxy gave out.
    pub open spec fn numbered(self, state: ProxyState) -> bool {
        forall|i: int|
            0 <= i < state.leases@.len() ==> (#[trigger] state.leases@[i]).id < self.next_lease_id
    }

    /// Set a lease number aside for an identity. Numbers are never reused.
    ///
    /// # Errors
    ///
    /// Returns [`AttachError::InvalidIdentity`] for a non-unicast IPv4,
    /// unspecified or multicast IPv6, or scoped IPv6 unicast source address,
    /// and [`AttachError::LeaseIdExhausted`] rather than reusing a number.
    pub fn reserve(&mut self, identity: PeerIdentity) -> (result: Result<Reservation, AttachError>)
        ensures
            match result {
                Ok(reservation) => {
                    &&& old(self).reservation_refusal(identity) is None
                    &&& reservation == (Reservation {
                        id: old(self).next_lease_id,
                        identity: identity.canonical_spec(),
                    })
                    &&& *final(self) == (Proxy {
                        next_lease_id: (old(self).next_lease_id + 1) as u64,
                        ..*old(self)
                    })
                },
                Err(error) => old(self).reservation_refusal(identity) == Some(error)
                    && *final(self) == *old(self),
            },
    {
        let identity = identity.canonical();
        if !identity.is_attachable() {
            return Err(AttachError::InvalidIdentity);
        }
        let id: u64 = self.next_lease_id;
        match id.checked_add(1) {
            Some(next) => {
                self.next_lease_id = next;
                Ok(Reservation { id, identity })
            },
            None => Err(AttachError::LeaseIdExhausted),
        }
    }

    /// Attach an immutable policy to one host-authenticated peer identity: the
    /// runtime answered the request for this reservation, or is gone.
    ///
    /// # Errors
    ///
    /// Returns the answer where it is an error, and
    /// [`AttachError::RuntimeStopped`] where there is none.
    pub fn attach(
        &self,
        reservation: Reservation,
        reply: Option<Result<(), AttachError>>,
    ) -> (result: Result<Lease, AttachError>)
        ensures
            result == (match reply {
                Some(Ok(())) => Ok::<Lease, AttachError>(
                    Lease { id: reservation.id, endpoint: self.endpoint },
                ),
                Some(Err(error)) => Err(error),
                None => Err(AttachError::RuntimeStopped),
            }),
    {
        match reply {
            Some(Ok(())) => Ok(Lease { id: reservation.id, endpoint: self.endpoint }),
            Some(Err(error)) => Err(error),
            None => Err(AttachError::RuntimeStopped),
        }
    }

    /// Why a shutdown failed, if it did.
    pub open spec fn shutdown_refusal(reply: ShutdownReply) -> Option<ShutdownErrorKind> {
        match reply {
            ShutdownReply::Certified { joined } => if joined {
                None
            } else {
                Some(ShutdownErrorKind::RuntimeStopped)
            },
            ShutdownReply::Refused => Some(ShutdownErrorKind::DeadlineExceeded),
            ShutdownReply::TimedOut => Some(ShutdownErrorKind::DeadlineExceeded),
            ShutdownReply::Disconnected => Some(ShutdownErrorKind::RuntimeStopped),
        }
    }

    /// Stop the listener and certify that all leases have stopped.
    ///
    /// # Errors
    ///
    /// Returns a [`ShutdownError`] containing the still-stopping proxy if the
    /// runtime is unavailable or tracked work remained at the deadline. Recover
    /// it with [`ShutdownError::into_proxy`] and retry when the runtime remains
    /// available; new attachments stay refused after the first attempt.
    pub fn shutdown(self, reply: ShutdownReply) -> (result: Result<(), ShutdownError>)
        ensures
            result == (match Proxy::shutdown_refusal(reply) {
                None => Ok::<(), ShutdownError>(()),
                Some(kind) => Err(ShutdownError { kind, proxy: self }),
            }),
    {
        let kind = match reply {
            ShutdownReply::Certified { joined } => if joined {
                return Ok(());
            } else {
                ShutdownErrorKind::RuntimeStopped
            },
            ShutdownReply::Refused => ShutdownErrorKind::DeadlineExceeded,
            ShutdownReply::TimedOut => ShutdownErrorKind::DeadlineExceeded,
            ShutdownReply::Disconnected => ShutdownErrorKind::RuntimeStopped,
        };
        Err(ShutdownError { kind, proxy: self })
    }
}

/// What the runtime answered to a request to close a lease.
#[derive(Clone, Copy, Debug)]
pub enum CloseReply {
    /// All work of the lease is gone, and this usage is final.
    Certified(FinalUsage),
    Failed(CloseErrorKind),
    /// No answer came before the deadline.
    TimedOut,
    /// No answer can come: the runtime is gone, or was not asked.
    Unavailable,
}

impl Lease {
    /// Return the unique process-local sequence for correlating host diagnostics.
    pub fn id(&self) -> (id: u64)
        ensures
            id == self.id,
    {
        self.id
    }

    /// Return the shared proxy listener endpoint for this run.
    ///
    /// A wildcard bind reports its wildcard IP; the host integration chooses
    /// the reachable address it advertises to each guest.
    pub fn endpoint(&self) -> (endpoint: Endpoint)
        ensures
            endpoint == self.endpoint,
    {
        self.endpoint
    }

    /// Read monotonic live counters. A lease that is not attached has none.
    pub fn usage(&self, state: &ProxyState) -> (usage: Usage)
        ensures
            usage == (match state.usage_of(self.id) {
                Some(usage) => usage,
                None => no_usage(),
            }),
    {
        state.usage(self.id)
    }

    /// Whether the lease is attached and closed.
    pub open spec fn closed_in(self, state: ProxyState) -> bool {
        state.lease_is(self.id, |lease: LeaseState| lease.phase == Phase::Closed)
    }

    /// Begin to revoke this lease. The answer is whether the runtime is to be
    /// asked: not for a lease that is closed or is not attached.
    pub fn revoke(&self, state: &mut ProxyState) -> (pending: bool)
        requires
            old(state).well_formed(),
        ensures
            final(state).well_formed(),
            evolved(old(state).leases@, final(state).leases@),
            *final(state) == (ProxyState { leases: final(state).leases, ..*old(state) }),
            final(state).leases@ == old(state).leases_with(
                self.id,
                |lease: LeaseState| lease.closing(),
            ),
            pending == (place_of(old(state).leases@, self.id) is Some && !self.closed_in(
                *old(state),
            )),
    {
        if state.is_unused(self.id) || state.closed_snapshot(self.id).is_some() {
            proof {
                let at = place_of(state.leases@, self.id);
                lemma_place_of(state.leases@, self.id);
                assert(at is Some ==> state.leases@.update(at->0, state.leases@[at->0])
                    =~= state.leases@);
            }
            return false;
        }
        let _ = state.begin_close(self.id);
        true
    }

    /// Whether a reply is one that the runtime can give: what it certifies is
    /// what the lease has counted, and no connection is left.
    pub open spec fn certifies(self, state: ProxyState, reply: CloseReply) -> bool {
        reply matches CloseReply::Certified(usage) ==> state.drained(self.id) && state.usage_of(
            self.id,
        ) == Some(usage.0)
    }

    /// What closing gives after such a reply.
    pub open spec fn close_result(self, state: ProxyState, reply: CloseReply) -> Result<
        FinalUsage,
        CloseError,
    > {
        match reply {
            CloseReply::Certified(usage) => Ok(usage),
            CloseReply::Failed(kind) => Err(CloseError { kind, lease: self }),
            CloseReply::TimedOut => Err(
                CloseError { kind: CloseErrorKind::DeadlineExceeded, lease: self },
            ),
            CloseReply::Unavailable => if self.closed_in(state) {
                Ok(FinalUsage(state.usage_of(self.id)->0))
            } else {
                Err(CloseError { kind: CloseErrorKind::RuntimeStopped, lease: self })
            },
        }
    }

    /// The leases after such a reply: a certified lease is gone, and any other
    /// stays as it is.
    pub open spec fn leases_after_close(self, state: ProxyState, reply: CloseReply) -> Seq<
        LeaseState,
    > {
        if reply is Certified {
            state.leases@.remove(place_of(state.leases@, self.id)->0)
        } else {
            state.leases@
        }
    }

    /// Finish to close this lease: all of its tracked work was destroyed, or
    /// was not. A lease that closed releases its identity.
    ///
    /// # Errors
    ///
    /// On timeout or runtime failure, the returned [`CloseError`] retains the
    /// lease. Recover it with [`CloseError::into_lease`] and retry; the identity
    /// remains unavailable in the meantime. If proxy-wide shutdown already
    /// certified this lease, that usage is final.
    pub fn close(self, state: &mut ProxyState, reply: CloseReply) -> (result: Result<
        FinalUsage,
        CloseError,
    >)
        requires
            old(state).well_formed(),
            self.certifies(*old(state), reply),
        ensures
            final(state).well_formed(),
            evolved(old(state).leases@, final(state).leases@),
            *final(state) == (ProxyState { leases: final(state).leases, ..*old(state) }),
            final(state).leases@ == self.leases_after_close(*old(state), reply),
            result == self.close_result(*old(state), reply),
            result matches Ok(usage) ==> usage.0.active_connections == 0 && old(state).usage_of(
                self.id,
            ) == Some(usage.0),
    {
        proof {
            lemma_place_of(state.leases@, self.id);
        }
        match reply {
            CloseReply::Certified(usage) => {
                let _ = state.retire(self.id);
                Ok(usage)
            },
            CloseReply::Failed(kind) => Err(CloseError { kind, lease: self }),
            CloseReply::TimedOut => Err(
                CloseError { kind: CloseErrorKind::DeadlineExceeded, lease: self },
            ),
            CloseReply::Unavailable => match state.closed_snapshot(self.id) {
                Some(usage) => Ok(usage),
                None => Err(CloseError { kind: CloseErrorKind::RuntimeStopped, lease: self }),
            },
        }
    }
}

/// Lease numbers are never reused: a number that is set aside belongs to no
/// attached lease, and once its lease is attached all numbers lie below the
/// next one.
pub proof fn law_lease_numbers_are_never_reused(
    proxy: Proxy,
    state: ProxyState,
    identity: PeerIdentity,
    policy: Policy,
    now: u128,
)
    requires
        proxy.numbered(state),
        proxy.reservation_refusal(identity) is None,
    ensures
        place_of(state.leases@, proxy.next_lease_id) is None,
        forall|after: ProxyState, next: Proxy|
            after.leases@ == state.leases_without(identity.canonical_spec()).push(
                opened(proxy.next_lease_id, identity.canonical_spec(), policy, now),
            ) && next.next_lease_id == proxy.next_lease_id + 1 ==> #[trigger] next.numbered(after),
{
    lemma_place_of(state.leases@, proxy.next_lease_id);
    lemma_owner_of(state.leases@, identity.canonical_spec());
}

/// The closing law: a close that succeeds reports what the lease has counted,
/// with no connection left, and frees the identity. A close that fails, as at a
/// missed deadline, gives the same lease back and changes nothing, so that the
/// identity stays in use.
pub proof fn law_closing_frees_or_keeps_the_identity(
    lease: Lease,
    state: ProxyState,
    after: ProxyState,
    reply: CloseReply,
)
    requires
        state.well_formed(),
        !state.stopping,
        place_of(state.leases@, lease.id) is Some,
        !lease.closed_in(state),
        lease.certifies(state, reply),
        after == (ProxyState { leases: after.leases, ..state }),
        after.leases@ == lease.leases_after_close(state, reply),
    ensures
        ({
            let identity = state.leases@[place_of(state.leases@, lease.id)->0].identity;
            match lease.close_result(state, reply) {
                Ok(usage) => {
                    &&& usage.0.active_connections == 0
                    &&& state.usage_of(lease.id) == Some(usage.0)
                    &&& place_of(after.leases@, lease.id) is None
                    &&& after.attach_refusal(identity) is None
                },
                Err(error) => {
                    &&& error.lease == lease
                    &&& after.leases@ == state.leases@
                    &&& after.usage_of(lease.id) == state.usage_of(lease.id)
                    &&& after.attach_refusal(identity) == Some(AttachError::IdentityInUse)
                },
            }
        }),
{
    let at = place_of(state.leases@, lease.id)->0;
    lemma_place_of(state.leases@, lease.id);
    let identity = state.leases@[at].identity;
    lemma_owner_of(state.leases@, identity);
    lemma_owner_of(after.leases@, identity);
    lemma_place_of(after.leases@, lease.id);
    if reply is Certified {
        assert forall|i: int| 0 <= i < after.leases@.len() implies (
        #[trigger] after.leases@[i]).identity != identity && after.leases@[i].id != lease.id by {
            let j = if i < at {
                i
            } else {
                i + 1
            };
            assert(after.leases@[i] == state.leases@[j]);
            assert(state.leases@[j].id != state.leases@[at].id);
        }
    }
}

/// A lease that a failed close gave back can be closed again: once its work is
/// gone, a quiet interval and a drained accept queue certify what it has
/// counted, and the close then succeeds with that usage.
pub proof fn law_failed_closes_can_be_retried(
    lease: Lease,
    state: ProxyState,
    certified: ProxyState,
    began: u64,
)
    requires
        state.well_formed(),
        state.drained(lease.id),
        state.leases@[place_of(state.leases@, lease.id)->0].phase == Phase::Revoking(began),
        began != u64::MAX,
        certified.leases@ == leases_after(
            state,
            lease.id,
            CloseStage::Checking(began),
            CloseEvent::QueueChecked(Some(Ok(()))),
        ),
    ensures
        ({
            let usage = FinalUsage(state.usage_of(lease.id)->0);
            let reply = CloseReply::Certified(usage);
            &&& close_step(state, lease.id, CloseStage::Working, CloseEvent::WorkEnded)
                == close_going(CloseStage::Quieting(began), CloseAction::Sleep)
            &&& close_step(state, lease.id, CloseStage::Quieting(began), CloseEvent::Slept)
                == close_going(CloseStage::Checking(began), CloseAction::CheckQueue)
            &&& close_step(
                state,
                lease.id,
                CloseStage::Checking(began),
                CloseEvent::QueueChecked(Some(Ok(()))),
            ).action == CloseAction::Finish(Ok(usage))
            &&& lease.certifies(certified, reply)
            &&& lease.close_result(certified, reply) == Ok::<FinalUsage, CloseError>(usage)
        }),
{
    lemma_place_of(state.leases@, lease.id);
    lemma_place_by_numbers(certified.leases@, state.leases@, lease.id);
}

/// The same holds of a lease whose certificate was lost on its way: it needs no
/// further quiet interval, only a drained accept queue.
pub proof fn law_lost_certificates_can_be_asked_for_again(lease: Lease, state: ProxyState)
    requires
        state.well_formed(),
        place_of(state.leases@, lease.id) is Some,
        state.leases@[place_of(state.leases@, lease.id)->0].phase == Phase::Quiesced,
    ensures
        ({
            let usage = FinalUsage(state.usage_of(lease.id)->0);
            let reply = CloseReply::Certified(usage);
            &&& close_step(state, lease.id, CloseStage::Working, CloseEvent::WorkEnded)
                == close_going(CloseStage::Confirming(usage), CloseAction::CheckQueue)
            &&& close_step(
                state,
                lease.id,
                CloseStage::Confirming(usage),
                CloseEvent::QueueChecked(Some(Ok(()))),
            ) == close_finished(Ok(usage))
            &&& lease.certifies(state, reply)
            &&& lease.close_result(state, reply) == Ok::<FinalUsage, CloseError>(usage)
        }),
{
    lemma_place_of(state.leases@, lease.id);
}

/// What any number of reservations give, in the order in which they are made.
pub open spec fn reserved_numbers(next: u64, identities: Seq<PeerIdentity>) -> Seq<
    Result<u64, AttachError>,
>
    decreases identities.len(),
{
    if identities.len() == 0 {
        Seq::empty()
    } else {
        let rest = identities.skip(1);
        match number_refusal(next, identities[0]) {
            Some(error) => seq![Err::<u64, AttachError>(error)] + reserved_numbers(next, rest),
            None => seq![Ok::<u64, AttachError>(next)] + reserved_numbers((next + 1) as u64, rest),
        }
    }
}

proof fn lemma_one_number_each(next: u64, identities: Seq<PeerIdentity>)
    ensures
        reserved_numbers(next, identities).len() == identities.len(),
        forall|k: int|
            0 <= k < identities.len() ==> (#[trigger] reserved_numbers(
                next,
                identities,
            )[k] matches Ok(id) ==> next <= id),
    decreases identities.len(),
{
    if identities.len() > 0 {
        let rest = identities.skip(1);
        let following = if number_refusal(next, identities[0]) is None {
            (next + 1) as u64
        } else {
            next
        };
        lemma_one_number_each(following, rest);
        let numbers = reserved_numbers(next, identities);
        assert forall|k: int| 0 <= k < identities.len() implies (
        #[trigger] numbers[k] matches Ok(id) ==> next <= id) by {
            if k > 0 {
                assert(numbers[k] == reserved_numbers(following, rest)[k - 1]);
            }
        }
    }
}

/// The numbers that any reservations give differ pairwise, and grow.
pub proof fn law_reserved_numbers_differ_pairwise(
    next: u64,
    identities: Seq<PeerIdentity>,
    i: int,
    j: int,
)
    requires
        0 <= i < j < identities.len(),
        reserved_numbers(next, identities)[i] is Ok,
        reserved_numbers(next, identities)[j] is Ok,
    ensures
        next <= reserved_numbers(next, identities)[i]->Ok_0 < reserved_numbers(
            next,
            identities,
        )[j]->Ok_0,
    decreases identities.len(),
{
    let rest = identities.skip(1);
    let following = if number_refusal(next, identities[0]) is None {
        (next + 1) as u64
    } else {
        next
    };
    let numbers = reserved_numbers(next, identities);
    lemma_one_number_each(next, identities);
    lemma_one_number_each(following, rest);
    assert(numbers[j] == reserved_numbers(following, rest)[j - 1]);
    if i > 0 {
        assert(numbers[i] == reserved_numbers(following, rest)[i - 1]);
        law_reserved_numbers_differ_pairwise(following, rest, i - 1, j - 1);
    }
}

/// A request to attach the identity of a reservation.
pub struct AttachRequest {
    pub reservation: Reservation,
    pub policy: Policy,
    pub now: u128,
}

/// What a request gives where the accept queue is drained: the number of the
/// lease, or the error of the registry.
pub open spec fn attach_outcome(
    leases: Seq<LeaseState>,
    stopping: bool,
    request: AttachRequest,
) -> Result<u64, AttachError> {
    match refusal_among(leases, stopping, request.reservation.identity) {
        Some(error) => Err(error),
        None => Ok(request.reservation.id),
    }
}

/// The leases after such a request.
pub open spec fn attached_leases(
    leases: Seq<LeaseState>,
    stopping: bool,
    request: AttachRequest,
) -> Seq<LeaseState> {
    let Reservation { id, identity } = request.reservation;
    if attach_outcome(leases, stopping, request) is Ok {
        without_owner(leases, identity).push(opened(id, identity, request.policy, request.now))
    } else {
        leases
    }
}

/// What any number of requests give, in the order in which they reach the
/// registry.
pub open spec fn attach_outcomes(
    leases: Seq<LeaseState>,
    stopping: bool,
    requests: Seq<AttachRequest>,
) -> Seq<Result<u64, AttachError>>
    decreases requests.len(),
{
    if requests.len() == 0 {
        Seq::empty()
    } else {
        seq![attach_outcome(leases, stopping, requests[0])] + attach_outcomes(
            attached_leases(leases, stopping, requests[0]),
            stopping,
            requests.skip(1),
        )
    }
}

proof fn lemma_one_outcome_each(
    leases: Seq<LeaseState>,
    stopping: bool,
    requests: Seq<AttachRequest>,
)
    ensures
        attach_outcomes(leases, stopping, requests).len() == requests.len(),
        forall|k: int|
            0 <= k < requests.len() ==> (#[trigger] attach_outcomes(
                leases,
                stopping,
                requests,
            )[k] matches Ok(id) ==> id == requests[k].reservation.id),
    decreases requests.len(),
{
    if requests.len() > 0 {
        let after = attached_leases(leases, stopping, requests[0]);
        let rest = requests.skip(1);
        let outcomes = attach_outcomes(leases, stopping, requests);
        lemma_one_outcome_each(after, stopping, rest);
        assert forall|k: int| 0 <= k < requests.len() implies (
        #[trigger] outcomes[k] matches Ok(id) ==> id == requests[k].reservation.id) by {
            if k > 0 {
                assert(outcomes[k] == attach_outcomes(after, stopping, rest)[k - 1]);
                assert(rest[k - 1] == requests[k]);
            }
        }
    }
}

/// While an unclosed lease owns the identity, every request for it is refused
/// and changes nothing.
proof fn lemma_owned_identity_is_refused(
    leases: Seq<LeaseState>,
    requests: Seq<AttachRequest>,
    identity: PeerIdentity,
    k: int,
)
    requires
        refusal_among(leases, false, identity) == Some(AttachError::IdentityInUse),
        forall|i: int|
            0 <= i < requests.len() ==> (#[trigger] requests[i]).reservation.identity == identity,
        0 <= k < requests.len(),
    ensures
        attach_outcomes(leases, false, requests)[k] == Err::<u64, AttachError>(
            AttachError::IdentityInUse,
        ),
    decreases requests.len(),
{
    lemma_one_outcome_each(leases, false, requests);
    let rest = requests.skip(1);
    assert forall|i: int| 0 <= i < rest.len() implies (
    #[trigger] rest[i]).reservation.identity == identity by {
        assert(rest[i] == requests[i + 1]);
    }
    if k > 0 {
        lemma_owned_identity_is_refused(leases, rest, identity, k - 1);
    }
}

/// Of any number of attaches of one free identity, in whatever spelling they
/// were asked for and order they come in, exactly one succeeds: the first. The
/// others are told that the identity is in use.
pub proof fn law_one_of_many_attaches_owns_the_identity(
    leases: Seq<LeaseState>,
    requests: Seq<AttachRequest>,
    identity: PeerIdentity,
    k: int,
)
    requires
        distinct_leases(leases),
        refusal_among(leases, false, identity) is None,
        forall|i: int|
            0 <= i < requests.len() ==> (#[trigger] requests[i]).reservation.identity == identity,
        0 <= k < requests.len(),
    ensures
        attach_outcomes(leases, false, requests).len() == requests.len(),
        attach_outcomes(leases, false, requests)[k] == (if k == 0 {
            Ok::<u64, AttachError>(requests[0].reservation.id)
        } else {
            Err(AttachError::IdentityInUse)
        }),
{
    lemma_one_outcome_each(leases, false, requests);
    let rest = requests.skip(1);
    let after = attached_leases(leases, false, requests[0]);
    assert forall|i: int| 0 <= i < rest.len() implies (
    #[trigger] rest[i]).reservation.identity == identity by {
        assert(rest[i] == requests[i + 1]);
    }
    if k > 0 {
        lemma_owner_of(leases, identity);
        let kept = without_owner(leases, identity);
        assert forall|i: int| 0 <= i < kept.len() implies (#[trigger] kept[i]).identity
            != identity by {
            if owner_of(leases, identity) is Some {
                let at = owner_of(leases, identity)->0;
                let j = if i < at {
                    i
                } else {
                    i + 1
                };
                assert(kept[i] == leases[j]);
                assert(leases[j].identity != leases[at].identity);
            }
        }
        lemma_owner_of(after, identity);
        assert(after[kept.len() as int].identity == identity);
        assert forall|i: int| 0 <= i < after.len() && after[i].identity == identity implies i
            == kept.len() by {
            if i < kept.len() {
                assert(after[i] == kept[i]);
            }
        }
        lemma_owned_identity_is_refused(after, rest, identity, k - 1);
    }
}

/// The leases that any attaches give have pairwise different numbers: whatever
/// the order in which the reservations reach the registry, two of them at the
/// places `p` and `q` never give the same number.
pub proof fn law_lease_numbers_differ_pairwise(
    next: u64,
    identities: Seq<PeerIdentity>,
    p: int,
    q: int,
    leases: Seq<LeaseState>,
    stopping: bool,
    requests: Seq<AttachRequest>,
    i: int,
    j: int,
)
    requires
        0 <= p < identities.len(),
        0 <= q < identities.len(),
        p != q,
        0 <= i < requests.len(),
        0 <= j < requests.len(),
        reserved_numbers(next, identities)[p] == Ok::<u64, AttachError>(requests[i].reservation.id),
        reserved_numbers(next, identities)[q] == Ok::<u64, AttachError>(requests[j].reservation.id),
        attach_outcomes(leases, stopping, requests)[i] is Ok,
        attach_outcomes(leases, stopping, requests)[j] is Ok,
    ensures
        attach_outcomes(leases, stopping, requests)[i]->Ok_0 != attach_outcomes(
            leases,
            stopping,
            requests,
        )[j]->Ok_0,
{
    lemma_one_outcome_each(leases, stopping, requests);
    if p < q {
        law_reserved_numbers_differ_pairwise(next, identities, p, q);
    } else {
        law_reserved_numbers_differ_pairwise(next, identities, q, p);
    }
}

/// A spelling of an identity that an unclosed lease owns cannot be attached, and
/// the lease keeps its rules and its counters.
pub proof fn law_owned_identities_are_refused_in_every_spelling(
    state: ProxyState,
    at: int,
    request: AttachRequest,
    spelling: PeerIdentity,
)
    requires
        state.well_formed(),
        !state.stopping,
        0 <= at < state.leases@.len(),
        state.leases@[at].phase != Phase::Closed,
        spelling.canonical_spec() == state.leases@[at].identity,
        request.reservation.identity == spelling.canonical_spec(),
    ensures
        attach_outcome(state.leases@, state.stopping, request) == Err::<u64, AttachError>(
            AttachError::IdentityInUse,
        ),
        attached_leases(state.leases@, state.stopping, request) == state.leases@,
{
    lemma_owner_of(state.leases@, state.leases@[at].identity);
}

/// A number is set aside exactly if the identity can be attached and a number is
/// left; and a shutdown succeeds exactly if it was certified and the runtime
/// ended normally.
pub proof fn law_reservations_and_shutdowns(
    next: u64,
    identity: PeerIdentity,
    reply: ShutdownReply,
)
    ensures
        number_refusal(next, identity) is None <==> identity.canonical_spec().attachable() && next
            < u64::MAX,
        Proxy::shutdown_refusal(reply) is None <==> reply == (ShutdownReply::Certified {
            joined: true,
        }),
{
}

/// A listener may serve exactly if neither the upstream proxy nor any of the DNS
/// servers is that listener.
pub proof fn law_listeners_serve_no_service_of_their_own(
    config: ProxyConfig,
    bound: SocketAddress,
    at: int,
)
    ensures
        listener_refusal(config, bound) is None <==> (config.upstream_proxy matches Some(proxy)
            ==> !reaches_endpoint(proxy, bound)) && forall|i: int|
            0 <= i < config.dns_servers@.len() ==> !reaches_endpoint(
                #[trigger] config.dns_servers@[i],
                bound,
            ),
        0 <= at < config.dns_servers@.len() && reaches_endpoint(config.dns_servers@[at], bound)
            ==> listener_refusal(config, bound) is Some,
{
}

/// A sound configuration starts behind every listener that may serve it, with
/// the address of that listener as its endpoint, and with no number given out.
pub proof fn law_sound_configurations_start(
    before: ProxyConfig,
    after: ProxyConfig,
    header_fits: bool,
    quiet_fits: bool,
    bound: SocketAddress,
    result: Result<Proxy, ProxyError>,
)
    requires
        Proxy::started(before, after, header_fits, quiet_fits, Ok(bound), result),
    ensures
        result is Ok <==> before.refusal(header_fits, quiet_fits) is None && listener_refusal(
            before,
            bound,
        ) is None,
        result matches Ok(proxy) ==> proxy.endpoint.0 == bound && proxy.next_lease_id == 1
            && after.bind_address == bound,
        after == (ProxyConfig { bind_address: after.bind_address, ..before }),
{
}

/// A close that fails gives the lease back with the reason that the runtime
/// gave, or the missed deadline, or the end of the runtime; only where the lease
/// had closed before that end does it succeed, with what the lease counted.
pub proof fn law_failed_closes_name_the_reason(
    lease: Lease,
    state: ProxyState,
    kind: CloseErrorKind,
    usage: FinalUsage,
)
    ensures
        lease.close_result(state, CloseReply::Certified(usage)) == Ok::<FinalUsage, CloseError>(
            usage,
        ),
        lease.close_result(state, CloseReply::Failed(kind)) == Err::<FinalUsage, CloseError>(
            CloseError { kind, lease },
        ),
        lease.close_result(state, CloseReply::TimedOut) == Err::<FinalUsage, CloseError>(
            CloseError { kind: CloseErrorKind::DeadlineExceeded, lease },
        ),
        match place_of(state.leases@, lease.id) {
            Some(at) => if state.leases@[at].phase == Phase::Closed {
                lease.close_result(state, CloseReply::Unavailable) == Ok::<FinalUsage, CloseError>(
                    FinalUsage(state.leases@[at].counters.usage),
                )
            } else {
                lease.close_result(state, CloseReply::Unavailable) is Err
            },
            None => lease.close_result(state, CloseReply::Unavailable) is Err,
        },
{
}

} // verus!
