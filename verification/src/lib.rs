//! Egress policy and certified per-run cleanup for sandbox supervisors.
//!
//! One shared proxy serves many runs. Each run owns a lease with an immutable
//! policy; every decision about a connection, a lease or the listener is made
//! here, on plain values, and the surrounding program performs the input and
//! output that those decisions ask for.

pub mod accept;
pub mod address;
pub mod attach;
pub mod close;
pub mod config;
pub mod connect;
pub mod denial;
pub mod destination;
pub mod diagnostic;
pub mod dial;
pub mod error;
pub mod hostname;
pub mod identity;
pub mod lease;
pub mod policy;
pub mod proxy;
pub mod rate;
pub mod resolver;
pub mod route;
pub mod session;
pub mod shutdown;
pub mod state;
pub mod text;
pub mod time;
pub mod tls;
pub mod transfer;
pub mod upstream;
pub mod usage;

pub use crate::config::{DnsAddressFamily, ProxyConfig};
pub use crate::diagnostic::{DenialReason, DiagnosticEvent};
pub use crate::error::{
    AttachError, CloseError, CloseErrorKind, PolicyError, ProxyError, ShutdownError,
    ShutdownErrorKind,
};
pub use crate::identity::{Endpoint, PeerIdentity};
pub use crate::policy::{EchPolicy, HostPattern, Policy, PolicyBuilder, TlsAuthority};
pub use crate::proxy::{Lease, Proxy};
pub use crate::usage::{FinalUsage, Usage};
