# Sandbox Egress

Network policy and reliable per-run cleanup for sandbox supervisors, with the
decisions proved in Verus.

One shared proxy serves many runs. Each run gets an immutable policy and an
owning lease. The host supplies a source IP that the guest cannot spoof, and
forces all guest egress through the proxy.

## Layout

- `src/` is the verified library. The decisions are made there, on plain
  values: which configuration starts, which lease owns a socket, what a CONNECT
  header asks for, which addresses may be dialed, which `ClientHello` may pass,
  how many bytes may travel, what is counted and reported, and when a lease or
  the whole proxy has ended.
- `app/` is the program around it: the listener, the resolver, the sockets and
  the clock. It performs what the library asks for and hands back what came of
  it.
- `tests/` runs the library on concrete values.

## How the library is used

- `policy::Policy::builder` and `config::ProxyConfig` collect rules and limits.
  Hostnames, networks and ports start denied.
- `state::ProxyState` is what the owner of the listener knows. Its methods
  attach leases, judge arriving sockets, count usage and release identities.
- `session::Session` takes one admitted connection from its header to its
  tunnel: each step takes an event and returns the next action.
- `attach::AttachWait` takes one identity from its reservation to its lease.
- `close::CloseWait` and `shutdown::ShutdownWait` certify the end of one lease
  and of all of them.

Moments and spans are nanoseconds on one monotonic clock.

## What is proved

Each function states what it returns or changes. The proof functions whose
names begin with `law_` state what holds of the library as a whole, among them:

- one denied address denies a whole DNS answer, and only approved addresses are
  dialed;
- denials override grants under every spelling of an address;
- an identity never has two owners, and keeps its lease until that has closed;
- a lease is certified only once its work is gone, the accept queue is drained
  and no socket arrived for a whole quiet interval, and its counters are then
  final;
- only a `ClientHello` whose visible name is the granted host is forwarded.

What the library takes on trust from outside crates is declared next to its
use: address networks from `ipnet`, HTTP heads from `httparse`, authorities from
`http`, the TLS acceptor from `rustls` and the permit limit from `tokio`.
