//! What can go wrong at the management boundary.

use vstd::prelude::*;

use crate::proxy::{Lease, Proxy};
use crate::text::joined;

verus! {

/// Failure to create or start the shared proxy.
#[derive(Debug)]
#[non_exhaustive]
pub enum ProxyError {
    /// Listener or runtime initialization failed.
    Initialization(String),
    /// The runtime management thread stopped unexpectedly.
    RuntimeStopped,
}

impl ProxyError {
    /// The text that describes this failure.
    pub open spec fn text(self) -> Seq<char> {
        match self {
            ProxyError::Initialization(reason) => "proxy initialization failed: "@ + reason@,
            ProxyError::RuntimeStopped => "proxy runtime stopped unexpectedly"@,
        }
    }

    pub fn message(&self) -> (text: String)
        ensures
            text@ == self.text(),
    {
        match self {
            ProxyError::Initialization(reason) => joined(
                "proxy initialization failed: ",
                reason.as_str(),
            ),
            ProxyError::RuntimeStopped => "proxy runtime stopped unexpectedly".to_owned(),
        }
    }
}

/// Why proxy-wide certified shutdown did not complete.
#[derive(Clone, Copy, Debug, PartialEq, Eq, Structural)]
#[non_exhaustive]
pub enum ShutdownErrorKind {
    /// Tracked work remained at the caller's deadline.
    DeadlineExceeded,
    /// The proxy runtime stopped before certified shutdown completed.
    RuntimeStopped,
}

impl ShutdownErrorKind {
    /// The text that describes a shutdown which failed for this reason.
    pub open spec fn text(self) -> Seq<char> {
        match self {
            ShutdownErrorKind::DeadlineExceeded => "proxy shutdown exceeded its deadline"@,
            ShutdownErrorKind::RuntimeStopped => "proxy runtime stopped before certified shutdown"@,
        }
    }

    pub fn message(self) -> (text: &'static str)
        ensures
            text@ == self.text(),
    {
        match self {
            ShutdownErrorKind::DeadlineExceeded => "proxy shutdown exceeded its deadline",
            ShutdownErrorKind::RuntimeStopped => "proxy runtime stopped before certified shutdown",
        }
    }
}

/// A failed proxy-wide shutdown that retains the stopping [`Proxy`].
#[derive(Debug)]
pub struct ShutdownError {
    pub kind: ShutdownErrorKind,
    pub proxy: Proxy,
}

impl ShutdownError {
    /// Return the reason shutdown was not certified.
    pub fn kind(&self) -> (kind: ShutdownErrorKind)
        ensures
            kind == self.kind,
    {
        self.kind
    }

    /// Recover the stopping proxy so shutdown can be retried when its runtime
    /// remains available. New leases stay refused after the first attempt.
    pub fn into_proxy(self) -> (proxy: Proxy)
        ensures
            proxy == self.proxy,
    {
        self.proxy
    }

    pub fn message(&self) -> (text: &'static str)
        ensures
            text@ == self.kind.text(),
    {
        self.kind.message()
    }
}

/// Invalid immutable policy construction.
#[derive(Clone, Debug, PartialEq, Eq)]
#[non_exhaustive]
pub enum PolicyError {
    /// A hostname pattern was malformed or ambiguous.
    InvalidHostPattern(String),
    /// TCP destination port zero cannot be connected.
    InvalidPort,
    /// A lease must admit at least one possible connection.
    ZeroConnectionLimit,
    /// A connection limit must fit the asynchronous runtime's semaphore.
    ConnectionLimitTooLarge,
    /// Connection-attempt rate and burst limits must both be positive.
    ZeroConnectionAttemptRate,
    /// Deadlines must be positive.
    ZeroTimeout,
    /// DNS must fit within the absolute handshake budget.
    DnsTimeoutExceedsHandshake,
    /// The operating system cannot represent the configured timeout deadline.
    TimeoutTooLarge,
}

impl PolicyError {
    /// The text that describes this error.
    pub open spec fn text(self) -> Seq<char> {
        match self {
            PolicyError::InvalidHostPattern(pattern) => "invalid hostname pattern: "@ + pattern@,
            PolicyError::InvalidPort => "destination port must be greater than zero"@,
            PolicyError::ZeroConnectionLimit => "connection limit must be greater than zero"@,
            PolicyError::ConnectionLimitTooLarge =>
                "connection limit is too large for the runtime"@,
            PolicyError::ZeroConnectionAttemptRate =>
                "connection attempt rate and burst must be greater than zero"@,
            PolicyError::ZeroTimeout => "timeouts must be greater than zero"@,
            PolicyError::DnsTimeoutExceedsHandshake =>
                "DNS timeout cannot exceed handshake timeout"@,
            PolicyError::TimeoutTooLarge => "timeout is too large to represent safely"@,
        }
    }

    pub fn message(&self) -> (text: String)
        ensures
            text@ == self.text(),
    {
        match self {
            PolicyError::InvalidHostPattern(pattern) => joined(
                "invalid hostname pattern: ",
                pattern.as_str(),
            ),
            PolicyError::InvalidPort => "destination port must be greater than zero".to_owned(),
            PolicyError::ZeroConnectionLimit =>
                "connection limit must be greater than zero".to_owned(),
            PolicyError::ConnectionLimitTooLarge =>
                "connection limit is too large for the runtime".to_owned(),
            PolicyError::ZeroConnectionAttemptRate =>
                "connection attempt rate and burst must be greater than zero".to_owned(),
            PolicyError::ZeroTimeout => "timeouts must be greater than zero".to_owned(),
            PolicyError::DnsTimeoutExceedsHandshake =>
                "DNS timeout cannot exceed handshake timeout".to_owned(),
            PolicyError::TimeoutTooLarge => "timeout is too large to represent safely".to_owned(),
        }
    }
}

/// Failure to attach a run identity to the proxy.
#[derive(Clone, Copy, Debug, PartialEq, Eq, Structural)]
#[non_exhaustive]
pub enum AttachError {
    /// The identity cannot unambiguously identify an accepted TCP connection.
    InvalidIdentity,
    /// Another open or revoking lease owns the identity.
    IdentityInUse,
    /// The proxy cannot assign another unique process-local lease sequence.
    LeaseIdExhausted,
    /// Proxy-wide shutdown has begun, so no new lease may be installed.
    ProxyStopping,
    /// The listener could not be inspected before installing a replacement
    /// policy for this identity.
    ListenerUnavailable,
    /// The proxy runtime stopped before attachment completed.
    RuntimeStopped,
}

impl AttachError {
    /// The text that describes this error.
    pub open spec fn text(self) -> Seq<char> {
        match self {
            AttachError::InvalidIdentity =>
                "peer identity cannot unambiguously identify an accepted connection"@,
            AttachError::IdentityInUse => "peer identity is already attached or still revoking"@,
            AttachError::LeaseIdExhausted => "proxy lease sequence is exhausted"@,
            AttachError::ProxyStopping => "proxy shutdown has begun"@,
            AttachError::ListenerUnavailable => "proxy listener is temporarily unavailable"@,
            AttachError::RuntimeStopped => "proxy runtime stopped during attachment"@,
        }
    }

    pub fn message(self) -> (text: &'static str)
        ensures
            text@ == self.text(),
    {
        match self {
            AttachError::InvalidIdentity =>
                "peer identity cannot unambiguously identify an accepted connection",
            AttachError::IdentityInUse => "peer identity is already attached or still revoking",
            AttachError::LeaseIdExhausted => "proxy lease sequence is exhausted",
            AttachError::ProxyStopping => "proxy shutdown has begun",
            AttachError::ListenerUnavailable => "proxy listener is temporarily unavailable",
            AttachError::RuntimeStopped => "proxy runtime stopped during attachment",
        }
    }
}

/// Why certified lease shutdown did not complete.
#[derive(Clone, Copy, Debug, PartialEq, Eq, Structural)]
#[non_exhaustive]
pub enum CloseErrorKind {
    /// Tracked work remained at the caller's deadline.
    DeadlineExceeded,
    /// The proxy runtime stopped before certifying completion.
    RuntimeStopped,
    /// The listener could not be drained, so identity cleanup was not
    /// certified.
    ListenerUnavailable,
}

impl CloseErrorKind {
    /// The text that describes a close which failed for this reason.
    pub open spec fn text(self) -> Seq<char> {
        match self {
            CloseErrorKind::DeadlineExceeded => "lease shutdown exceeded its deadline"@,
            CloseErrorKind::RuntimeStopped =>
                "proxy runtime stopped before certifying lease shutdown"@,
            CloseErrorKind::ListenerUnavailable =>
                "proxy listener could not be drained for certified shutdown"@,
        }
    }

    pub fn message(self) -> (text: &'static str)
        ensures
            text@ == self.text(),
    {
        match self {
            CloseErrorKind::DeadlineExceeded => "lease shutdown exceeded its deadline",
            CloseErrorKind::RuntimeStopped =>
                "proxy runtime stopped before certifying lease shutdown",
            CloseErrorKind::ListenerUnavailable =>
                "proxy listener could not be drained for certified shutdown",
        }
    }
}

/// A failed close that retains the still-owning [`Lease`].
#[derive(Debug)]
pub struct CloseError {
    pub kind: CloseErrorKind,
    pub lease: Lease,
}

impl CloseError {
    /// Return the reason shutdown was not certified.
    pub fn kind(&self) -> (kind: CloseErrorKind)
        ensures
            kind == self.kind,
    {
        self.kind
    }

    /// Recover ownership so shutdown can be retried.
    pub fn into_lease(self) -> (lease: Lease)
        ensures
            lease == self.lease,
    {
        self.lease
    }

    pub fn message(&self) -> (text: &'static str)
        ensures
            text@ == self.kind.text(),
    {
        self.kind.message()
    }
}

} // verus!
