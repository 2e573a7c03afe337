use sandbox_egress::accept::{
    AcceptBackoff, AcceptPoll, Drain, DrainResult, ACCEPT_RETRY_INITIAL, ACCEPT_RETRY_MAX,
};
use sandbox_egress::address::{IpAddress, SocketAddress};
use sandbox_egress::attach::{AttachAction, AttachEvent, AttachStage, AttachWait};
use sandbox_egress::close::{CloseAction, CloseEvent, CloseWait};
use sandbox_egress::config::ProxyConfig;
use sandbox_egress::connect::HeaderBlock;
use sandbox_egress::denial::{denial_response, Denial};
use sandbox_egress::diagnostic::{Delivery, DiagnosticEvent};
use sandbox_egress::error::{AttachError, CloseErrorKind, ShutdownErrorKind};
use sandbox_egress::identity::PeerIdentity;
use sandbox_egress::lease::{LeaseState, Phase};
use sandbox_egress::policy::{Policy, PolicyBuilder};
use sandbox_egress::proxy::{CloseReply, Lease, Proxy, ShutdownReply};
use sandbox_egress::session::{Action, Event, HeaderOutcome, Session};
use sandbox_egress::shutdown::{
    shutdown_stops, ShutdownAction, ShutdownEvent, ShutdownWait,
};
use sandbox_egress::state::{AttachStep, Dispatch, ProxyState};
use sandbox_egress::transfer::Direction;
use sandbox_egress::usage::{FinalUsage, Usage};

const SECOND: u128 = 1_000_000_000;
const NOW: u128 = 1_000 * SECOND;
const LOCAL: IpAddress = IpAddress::V4(0x7f00_0001);
const IDENTITY: PeerIdentity = PeerIdentity::SourceIp(LOCAL);

fn policy() -> Policy {
    Policy::builder().build().expect("valid policy")
}

fn built(builder: PolicyBuilder) -> Policy {
    builder.build().expect("valid policy")
}

fn mapped(address: u32) -> IpAddress {
    IpAddress::V6(0xffff_0000_0000 | u128::from(address))
}

fn start(config: ProxyConfig) -> (Proxy, ProxyState) {
    let mut config = config;
    let bound = SocketAddress::new(config.bind_address.ip, 4750);
    let proxy = Proxy::start(&mut config, Ok(bound)).expect("start proxy");
    (proxy, ProxyState::new(&config, NOW))
}

fn attach(
    proxy: &mut Proxy,
    state: &mut ProxyState,
    identity: PeerIdentity,
    policy: Policy,
) -> Result<Lease, AttachError> {
    let reservation = proxy.reserve(identity)?;
    assert!(state.is_unused(reservation.id));
    let reply = settle(&mut AttachWait::new(reservation, policy), state);
    proxy.attach(reservation, Some(reply))
}

/// Drives an attaching to its end, with every drain finding the queue empty.
fn settle(wait: &mut AttachWait, state: &mut ProxyState) -> Result<(), AttachError> {
    let mut event = AttachEvent::Received;
    for _ in 0..2 {
        event = match wait.step(state, event, NOW, u128::MAX) {
            AttachAction::Drain => AttachEvent::Drained(DrainResult::Drained),
            AttachAction::Requeue => panic!("drained queue"),
            AttachAction::Finish(result) => return result,
        };
    }
    panic!("attaching never ended");
}

/// Drives a closing to its end, with every drain finding the queue empty.
fn certify(wait: &mut CloseWait, state: &mut ProxyState) -> Result<FinalUsage, CloseErrorKind> {
    let mut event = CloseEvent::WorkEnded;
    for _ in 0..10 {
        event = match wait.step(state, event) {
            CloseAction::Sleep => CloseEvent::Slept,
            CloseAction::CheckQueue => CloseEvent::QueueChecked(Some(Ok(()))),
            CloseAction::Finish(result) => return result,
        };
    }
    panic!("closing never ended");
}

fn close(lease: Lease, state: &mut ProxyState) -> FinalUsage {
    assert!(lease.revoke(state));
    assert!(state.is_drained(lease.id()));
    let usage = certify(&mut CloseWait::new(lease.id()), state).expect("quiet lease");
    lease.close(state, CloseReply::Certified(usage)).expect("closed lease")
}

fn admitted(dispatch: Dispatch) -> u64 {
    match dispatch {
        Dispatch::Admitted { lease_id } => lease_id,
        other => panic!("not admitted: {other:?}"),
    }
}

fn rejected(dispatch: Dispatch) -> (u64, &'static str, Option<DiagnosticEvent>) {
    match dispatch {
        Dispatch::Rejected { lease_id, reason, event } => (lease_id, reason, event),
        other => panic!("not rejected: {other:?}"),
    }
}

fn saturated_usage(global_limit: usize, lease_limit: usize) -> (FinalUsage, &'static str) {
    let (mut proxy, mut state) = start(ProxyConfig::default().with_max_connections(global_limit));
    let limited = built(Policy::builder().max_connections(lease_limit).expect("positive limit"));
    let lease = attach(&mut proxy, &mut state, IDENTITY, limited).expect("attach lease");
    assert_eq!(admitted(state.dispatch(LOCAL, NOW)), lease.id());
    assert_eq!(lease.usage(&state).active_connections, 1);
    let (lease_id, reason, _) = rejected(state.dispatch(LOCAL, NOW));
    assert_eq!(lease_id, lease.id());
    assert!(state.finish(lease.id(), false));
    (close(lease, &mut state), reason)
}

#[test]
fn per_lease_capacity_is_reserved_and_accounted_before_spawn() {
    let (usage, reason) = saturated_usage(2, 1);
    let usage = usage.usage();
    assert_eq!(reason, "lease-capacity");
    assert_eq!(usage.accepted_connections, 1);
    assert_eq!(usage.denied_connections, 1);
    assert_eq!(usage.active_connections, 0);
}

#[test]
fn global_capacity_is_reserved_and_accounted_before_spawn() {
    let (usage, reason) = saturated_usage(1, 2);
    let usage = usage.usage();
    assert_eq!(reason, "global-capacity");
    assert_eq!(usage.accepted_connections, 1);
    assert_eq!(usage.denied_connections, 1);
    assert_eq!(usage.active_connections, 0);
}

fn rate_limited_usage(global: bool) -> (FinalUsage, DiagnosticEvent, u64) {
    let config = if global {
        ProxyConfig::default().with_connection_attempt_rate(1, 1)
    } else {
        ProxyConfig::default()
    }
    .with_diagnostic_channel(10);
    let (mut proxy, mut state) = start(config);
    let mut builder = Policy::builder().max_connections(2).expect("positive lease limit");
    if !global {
        builder = builder.connection_attempt_rate(1, 1).expect("positive attempt rate and burst");
    }
    let lease = attach(&mut proxy, &mut state, IDENTITY, built(builder)).expect("attach lease");
    let lease_id = lease.id();
    admitted(state.dispatch(LOCAL, NOW));
    assert_eq!(lease.usage(&state).active_connections, 1);
    let (_, _, event) = rejected(state.dispatch(LOCAL, NOW));
    assert!(state.finish(lease_id, false));
    (close(lease, &mut state), event.expect("rate-limit diagnostic"), lease_id)
}

#[test]
fn per_lease_connection_attempt_rate_is_reserved_before_spawn() {
    let (final_usage, diagnostic, lease_id) = rate_limited_usage(false);
    let usage = final_usage.usage();
    assert_eq!(usage.accepted_connections, 1);
    assert_eq!(usage.denied_connections, 1);
    assert_eq!(usage.active_connections, 0);
    assert_eq!(diagnostic.lease_id, lease_id);
    assert_eq!(diagnostic.reason.as_str(), "lease-rate");
}

#[test]
fn global_connection_attempt_rate_is_reserved_before_spawn() {
    let (final_usage, diagnostic, lease_id) = rate_limited_usage(true);
    let usage = final_usage.usage();
    assert_eq!(usage.accepted_connections, 1);
    assert_eq!(usage.denied_connections, 1);
    assert_eq!(usage.active_connections, 0);
    assert_eq!(diagnostic.lease_id, lease_id);
    assert_eq!(diagnostic.reason.as_str(), "global-rate");
}

#[test]
fn replacement_lease_starts_with_fresh_connection_attempt_burst() {
    let (mut proxy, mut state) = start(ProxyConfig::default());
    let limited = || built(Policy::builder().connection_attempt_rate(1, 1).expect("rate"));
    let old = attach(&mut proxy, &mut state, IDENTITY, limited()).expect("attach old lease");
    admitted(state.dispatch(LOCAL, NOW));
    assert_eq!(old.usage(&state).active_connections, 1);
    assert!(state.finish(old.id(), false));
    close(old, &mut state);

    let replacement = attach(&mut proxy, &mut state, IDENTITY, limited()).expect("replacement");
    admitted(state.dispatch(LOCAL, NOW));
    assert_eq!(replacement.usage(&state).active_connections, 1);
    assert!(state.finish(replacement.id(), false));
    let usage = close(replacement, &mut state).usage();
    assert_eq!(usage.accepted_connections, 1);
    assert_eq!(usage.denied_connections, 0);
}

#[test]
fn replacement_lease_does_not_reset_global_connection_attempt_bucket() {
    let (mut proxy, mut state) = start(ProxyConfig::default().with_connection_attempt_rate(1, 1));
    let old = attach(&mut proxy, &mut state, IDENTITY, policy()).expect("attach old lease");
    admitted(state.dispatch(LOCAL, NOW));
    assert!(state.finish(old.id(), false));
    close(old, &mut state);

    let replacement = attach(&mut proxy, &mut state, IDENTITY, policy()).expect("replacement");
    let (_, reason, _) = rejected(state.dispatch(LOCAL, NOW));
    assert_eq!(reason, "global-rate");
    let usage = close(replacement, &mut state).usage();
    assert_eq!(usage.accepted_connections, 0);
    assert_eq!(usage.denied_connections, 1);
    assert_eq!(usage.active_connections, 0);
}

#[test]
fn impossible_source_identities_fail_before_consuming_a_lease_id() {
    let (mut proxy, mut state) = start(ProxyConfig::default());
    for address in [
        IpAddress::V4(0),
        IpAddress::V6(0),
        IpAddress::V4(0xe000_0001),
        IpAddress::V6(0xff02_0000_0000_0000_0000_0000_0000_0001),
        mapped(0xe000_0001),
        IpAddress::V4(0xffff_ffff),
        mapped(0xffff_ffff),
    ] {
        assert!(matches!(
            attach(&mut proxy, &mut state, PeerIdentity::SourceIp(address), policy()),
            Err(AttachError::InvalidIdentity)
        ));
    }
    let lease = attach(&mut proxy, &mut state, IDENTITY, policy()).expect("concrete identity");
    assert_eq!(lease.id(), 1);
    close(lease, &mut state);
}

#[test]
fn global_capacity_rejection_is_attributed_and_retry_recovers() {
    let (mut proxy, mut state) = start(ProxyConfig::default().with_max_connections(1));
    let other = IpAddress::V6(1);
    let ipv4_lease = attach(&mut proxy, &mut state, IDENTITY, policy()).expect("IPv4 lease");
    let ipv6_lease =
        attach(&mut proxy, &mut state, PeerIdentity::SourceIp(other), policy())
            .expect("IPv6 lease");
    assert_eq!(admitted(state.dispatch(LOCAL, NOW)), ipv4_lease.id());

    let (lease_id, reason, _) = rejected(state.dispatch(other, NOW));
    assert_eq!((lease_id, reason), (ipv6_lease.id(), "global-capacity"));
    assert_eq!(ipv4_lease.usage(&state).denied_connections, 0);
    assert_eq!(ipv6_lease.usage(&state).accepted_connections, 0);
    assert_eq!(ipv6_lease.usage(&state).denied_connections, 1);

    assert!(state.finish(ipv4_lease.id(), false));
    let ipv4_usage = close(ipv4_lease, &mut state).usage();
    assert_eq!(ipv4_usage.accepted_connections, 1);
    assert_eq!(ipv4_usage.denied_connections, 0);
    assert_eq!(ipv4_usage.active_connections, 0);

    assert_eq!(admitted(state.dispatch(other, NOW)), ipv6_lease.id());
    assert!(state.finish(ipv6_lease.id(), false));
    let ipv6_usage = close(ipv6_lease, &mut state).usage();
    assert_eq!(ipv6_usage.accepted_connections, 1);
    assert_eq!(ipv6_usage.denied_connections, 1);
    assert_eq!(ipv6_usage.active_connections, 0);
}

#[test]
fn identity_cannot_be_attached_twice() {
    let (mut proxy, mut state) = start(ProxyConfig::default());
    let lease = attach(&mut proxy, &mut state, IDENTITY, policy()).expect("first attach");
    assert!(attach(&mut proxy, &mut state, IDENTITY, policy()).is_err());
    close(lease, &mut state);
}

#[test]
fn mapped_ipv4_spelling_cannot_attach_a_second_policy() {
    let (mut proxy, mut state) = start(ProxyConfig::default());
    let lease = attach(&mut proxy, &mut state, IDENTITY, policy()).expect("IPv4 spelling");
    assert!(matches!(
        attach(
            &mut proxy,
            &mut state,
            PeerIdentity::SourceIp(mapped(0x7f00_0001)),
            policy()
        ),
        Err(AttachError::IdentityInUse)
    ));
    close(lease, &mut state);
}

#[test]
fn dual_stack_listener_maps_ipv4_peer_to_the_ipv4_lease() {
    let config = ProxyConfig::default().with_bind_address(SocketAddress::new(IpAddress::V6(0), 0));
    let (mut proxy, mut state) = start(config.clone());
    let granted = built(Policy::builder().allow_port(443));
    let lease = attach(&mut proxy, &mut state, IDENTITY, granted.clone()).expect("IPv4 lease");
    assert_eq!(admitted(state.dispatch(mapped(0x7f00_0001), NOW)), lease.id());
    assert!(matches!(state.dispatch(IpAddress::V6(1), NOW), Dispatch::Unknown));

    let bytes = b"CONNECT denied.test:443 HTTP/1.1\r\nHost: denied.test\r\n\r\n".to_vec();
    let end = bytes.len();
    let event = Event::Header(HeaderOutcome::Read(HeaderBlock { bytes, end }));
    let (action, uploaded) = Session::new().step(&granted, &config, event);
    state.account(lease.id(), &action, uploaded, NOW);
    let Action::Deny(denial) = action else {
        panic!("denied.test was granted");
    };
    let response = denial_response(denial, 0, 1).expect("time for a response");
    assert!(response.starts_with("HTTP/1.1 403"), "{response}");
    assert!(response.contains("host-denied"), "{response}");

    assert!(state.finish(lease.id(), false));
    let usage = close(lease, &mut state).usage();
    assert_eq!(usage.accepted_connections, 1);
    assert_eq!(usage.denied_connections, 1);
}

#[test]
fn successful_close_releases_identity_for_a_new_lease() {
    let (mut proxy, mut state) = start(ProxyConfig::default());
    let lease = attach(&mut proxy, &mut state, IDENTITY, policy()).expect("first attach");
    close(lease, &mut state);
    let replacement = attach(&mut proxy, &mut state, IDENTITY, policy()).expect("replacement");
    close(replacement, &mut state);
}

#[test]
fn successful_close_releases_the_registry_reference() {
    let (mut proxy, mut state) = start(ProxyConfig::default());
    let lease = attach(&mut proxy, &mut state, IDENTITY, policy()).expect("attach lease");
    assert_eq!(state.leases.len(), 1);
    close(lease, &mut state);
    assert!(state.leases.is_empty());
}

#[test]
fn exhausted_lease_sequence_fails_closed_instead_of_wrapping() {
    let (mut proxy, mut state) = start(ProxyConfig::default());
    proxy.next_lease_id = u64::MAX;
    assert!(matches!(
        attach(&mut proxy, &mut state, IDENTITY, policy()),
        Err(AttachError::LeaseIdExhausted)
    ));
    assert_eq!(proxy.next_lease_id, u64::MAX);
}

#[test]
fn delayed_release_cannot_remove_a_replacement_lease() {
    let (mut proxy, mut state) = start(ProxyConfig::default());
    let old = attach(&mut proxy, &mut state, IDENTITY, policy()).expect("old lease");
    assert!(state.begin_close(old.id()));
    assert!(!state.release(old.id()));
    assert!(state.mark_closed(old.id()));
    let replacement = attach(&mut proxy, &mut state, IDENTITY, policy()).expect("replacement");

    assert!(!state.release(old.id()));
    assert_eq!(state.leases.len(), 1);
    assert_eq!(state.leases[0].id, replacement.id());
    assert!(!state.is_unused(replacement.id()));
}

#[test]
fn cleanup_readiness_does_not_release_identity_before_success_is_observed() {
    let (mut proxy, mut state) = start(ProxyConfig::default());
    let lease = attach(&mut proxy, &mut state, IDENTITY, policy()).expect("attach lease");
    assert!(lease.revoke(&mut state));
    let usage = certify(&mut CloseWait::new(lease.id()), &mut state).expect("cleanup ready");

    assert_eq!(usage.usage().active_connections, 0);
    assert_eq!(state.leases[0].phase, Phase::Quiesced);
    assert!(!state.leases[0].is_closed(), "cleanup alone must retain identity ownership");
    let (_, reason, event) = rejected(state.dispatch(LOCAL, NOW));
    assert_eq!(reason, "lease-revoking");
    assert!(event.is_none());
    assert_eq!(lease.usage(&state), usage.usage());

    let retried = certify(&mut CloseWait::new(lease.id()), &mut state)
        .expect("quiesced cleanup is already ready");
    assert_eq!(retried, usage);
    assert_eq!(state.leases[0].phase, Phase::Quiesced);
    assert!(state.mark_closed(lease.id()));
    assert!(state.leases[0].is_closed());
}

#[test]
fn quiesced_close_retry_still_requests_a_fresh_accept_drain() {
    let (mut proxy, mut state) = start(ProxyConfig::default());
    let lease = attach(&mut proxy, &mut state, IDENTITY, policy()).expect("attach lease");
    assert!(state.begin_close(lease.id()));
    let expected = state.quiesce_if_generation(lease.id(), 0).expect("mark cleanup ready");

    let mut wait = CloseWait::new(lease.id());
    assert!(matches!(
        wait.step(&mut state, CloseEvent::WorkEnded),
        CloseAction::CheckQueue
    ));
    let CloseAction::Finish(Ok(actual)) =
        wait.step(&mut state, CloseEvent::QueueChecked(Some(Ok(()))))
    else {
        panic!("quiesced retry");
    };
    assert_eq!(actual, expected);
}

#[test]
fn revoking_arrival_restarts_the_identity_quiet_period() {
    let (mut proxy, mut state) = start(ProxyConfig::default());
    let lease = attach(&mut proxy, &mut state, IDENTITY, policy()).expect("attach lease");
    assert!(lease.revoke(&mut state));
    let mut wait = CloseWait::new(lease.id());
    assert!(matches!(wait.step(&mut state, CloseEvent::WorkEnded), CloseAction::Sleep));

    let (_, reason, _) = rejected(state.dispatch(LOCAL, NOW));
    assert_eq!(reason, "lease-revoking");

    assert!(matches!(wait.step(&mut state, CloseEvent::Slept), CloseAction::CheckQueue));
    assert!(matches!(
        wait.step(&mut state, CloseEvent::QueueChecked(Some(Ok(())))),
        CloseAction::Sleep
    ));
    assert!(matches!(wait.step(&mut state, CloseEvent::Slept), CloseAction::CheckQueue));
    let CloseAction::Finish(Ok(usage)) =
        wait.step(&mut state, CloseEvent::QueueChecked(Some(Ok(()))))
    else {
        panic!("cleanup after a complete quiet period");
    };
    assert_eq!(usage.usage().denied_connections, 1);
    assert_eq!(state.leases[0].phase, Phase::Quiesced);
}

#[test]
fn queued_old_socket_cannot_inherit_replacement_policy_under_command_pressure() {
    let (mut proxy, mut state) = start(ProxyConfig::default());
    let old = attach(&mut proxy, &mut state, IDENTITY, policy()).expect("old lease");
    assert!(old.revoke(&mut state));
    let mut wait = CloseWait::new(old.id());
    assert!(matches!(wait.step(&mut state, CloseEvent::WorkEnded), CloseAction::Sleep));
    assert!(matches!(wait.step(&mut state, CloseEvent::Slept), CloseAction::CheckQueue));
    // The drain itself observes the old socket.
    let (lease_id, _, _) = rejected(state.dispatch(LOCAL, NOW));
    assert_eq!(lease_id, old.id());
    assert!(matches!(
        wait.step(&mut state, CloseEvent::QueueChecked(Some(Ok(())))),
        CloseAction::Sleep
    ));
    let mut wait = CloseWait::new(old.id());
    let usage = certify(&mut wait, &mut state).expect("quiet lease");
    let old_usage = old
        .close(&mut state, CloseReply::Certified(usage))
        .expect("close old lease")
        .usage();
    assert_eq!(old_usage.denied_connections, 1);
    let replacement = attach(&mut proxy, &mut state, IDENTITY, policy()).expect("replacement");
    assert_eq!(replacement.usage(&state).accepted_connections, 0);
    assert_eq!(replacement.usage(&state).denied_connections, 0);
}

#[test]
fn arrivals_that_prevent_quiet_close_return_the_owning_lease() {
    let (mut proxy, mut state) = start(ProxyConfig::default());
    let lease = attach(&mut proxy, &mut state, IDENTITY, policy()).expect("attach lease");
    assert!(lease.revoke(&mut state));
    let mut wait = CloseWait::new(lease.id());
    assert!(matches!(wait.step(&mut state, CloseEvent::WorkEnded), CloseAction::Sleep));
    rejected(state.dispatch(LOCAL, NOW));
    let CloseAction::Finish(Err(kind)) = wait.step(&mut state, CloseEvent::TimedOut) else {
        panic!("continued old arrivals must prevent quiet-period close");
    };
    let error = lease
        .close(&mut state, CloseReply::Failed(kind))
        .expect_err("continued old arrivals must prevent quiet-period close");
    assert_eq!(error.kind(), CloseErrorKind::DeadlineExceeded);
    assert_eq!(error.message(), "lease shutdown exceeded its deadline");
    let lease = error.into_lease();
    assert_eq!(lease.usage(&state).denied_connections, 1);
    assert!(matches!(
        attach(&mut proxy, &mut state, IDENTITY, policy()),
        Err(AttachError::IdentityInUse)
    ));
    close(lease, &mut state);
}

#[test]
fn repeated_failed_close_retries_preserve_identity_and_counters() {
    let (mut proxy, mut state) = start(ProxyConfig::default());
    let mut lease = attach(&mut proxy, &mut state, IDENTITY, policy()).expect("attach lease");
    let lease_id = lease.id();
    admitted(state.dispatch(LOCAL, NOW));
    assert!(state.deny(lease_id, "port-denied", NOW).is_none());
    assert!(state.finish(lease_id, false));
    let expected = lease.usage(&state);
    assert_eq!(expected.accepted_connections, 1);
    assert_eq!(expected.denied_connections, 1);
    assert_eq!(expected.active_connections, 0);

    for attempt in 1..=3 {
        assert!(lease.revoke(&mut state));
        let error = lease
            .close(&mut state, CloseReply::TimedOut)
            .expect_err("short close must retain the lease");
        assert_eq!(error.kind(), CloseErrorKind::DeadlineExceeded);
        lease = error.into_lease();
        assert_eq!(lease.id(), lease_id, "attempt {attempt} changed ownership");
        assert_eq!(lease.usage(&state), expected, "attempt {attempt} changed counters");
        assert!(matches!(
            attach(&mut proxy, &mut state, IDENTITY, policy()),
            Err(AttachError::IdentityInUse)
        ));
    }

    assert_eq!(close(lease, &mut state).usage(), expected);
}

#[test]
fn failed_proxy_shutdown_retains_a_stopping_proxy_for_retry() {
    let (mut proxy, mut state) = start(ProxyConfig::default());
    let lease = attach(&mut proxy, &mut state, IDENTITY, policy()).expect("attach lease");
    admitted(state.dispatch(LOCAL, NOW));

    let wait = ShutdownWait::begin(&mut state);
    assert_eq!(wait.action(), ShutdownAction::AwaitWork(lease.id()));
    assert_eq!(
        ShutdownWait::begin(&mut state).step(&mut state, ShutdownEvent::TimedOut),
        ShutdownAction::Finish(false)
    );
    let error = proxy
        .shutdown(ShutdownReply::Refused)
        .expect_err("slow cancellation must exceed the first deadline");
    assert_eq!(error.kind(), ShutdownErrorKind::DeadlineExceeded);
    assert_eq!(error.message(), "proxy shutdown exceeded its deadline");
    let mut proxy = error.into_proxy();
    assert!(matches!(
        attach(
            &mut proxy,
            &mut state,
            PeerIdentity::SourceIp(IpAddress::V4(0x7f00_0002)),
            policy()
        ),
        Err(AttachError::ProxyStopping)
    ));

    assert!(state.finish(lease.id(), false));
    let mut wait = ShutdownWait::begin(&mut state);
    assert_eq!(wait.action(), ShutdownAction::AwaitWork(lease.id()));
    assert_eq!(
        wait.step(&mut state, ShutdownEvent::WorkEnded),
        ShutdownAction::Finish(true)
    );
    proxy
        .shutdown(ShutdownReply::Certified { joined: true })
        .expect("retry proxy shutdown");
    assert!(!lease.revoke(&mut state));
    let usage = lease
        .close(&mut state, CloseReply::Unavailable)
        .expect("observe proxy-wide certificate")
        .usage();
    assert_eq!(usage.active_connections, 0);
}

#[test]
fn unobserved_proxy_shutdown_success_remains_retryable() {
    let (mut proxy, mut state) = start(ProxyConfig::default());
    assert_eq!(ShutdownWait::begin(&mut state).action(), ShutdownAction::Finish(true));
    assert!(!shutdown_stops(true, false, true));
    assert!(matches!(
        attach(&mut proxy, &mut state, IDENTITY, policy()),
        Err(AttachError::ProxyStopping)
    ));
    assert!(shutdown_stops(true, true, true));
    proxy
        .shutdown(ShutdownReply::Certified { joined: true })
        .expect("retry unobserved shutdown");
}

#[test]
fn the_runtime_stops_when_nobody_can_retry() {
    assert!(shutdown_stops(false, false, false));
    assert!(shutdown_stops(true, false, false));
    assert!(!shutdown_stops(false, true, true));
}

#[test]
fn lease_close_observes_a_completed_proxy_shutdown() {
    let (mut proxy, mut state) = start(ProxyConfig::default());
    let lease = attach(&mut proxy, &mut state, IDENTITY, policy()).expect("attach lease");
    admitted(state.dispatch(LOCAL, NOW));
    state.deny(lease.id(), "port-denied", NOW);
    assert!(state.finish(lease.id(), false));
    let mut wait = ShutdownWait::begin(&mut state);
    assert_eq!(
        wait.step(&mut state, ShutdownEvent::WorkEnded),
        ShutdownAction::Finish(true)
    );
    proxy
        .shutdown(ShutdownReply::Certified { joined: true })
        .expect("certified proxy shutdown");
    assert!(!lease.revoke(&mut state));
    let final_usage = lease
        .close(&mut state, CloseReply::Unavailable)
        .expect("observe proxy-wide certificate")
        .usage();
    assert_eq!(final_usage.active_connections, 0);
    assert_eq!(final_usage.accepted_connections, 1);
    assert_eq!(final_usage.denied_connections, 1);
}

#[test]
fn a_shutdown_awaits_one_lease_after_the_other() {
    let (mut proxy, mut state) = start(ProxyConfig::default());
    let other = IpAddress::V4(0x7f00_0002);
    let third = IpAddress::V4(0x7f00_0003);
    let busy = attach(&mut proxy, &mut state, IDENTITY, policy()).expect("busy lease");
    let idle =
        attach(&mut proxy, &mut state, PeerIdentity::SourceIp(other), policy())
            .expect("idle lease");
    let gone =
        attach(&mut proxy, &mut state, PeerIdentity::SourceIp(third), policy())
            .expect("gone lease");
    admitted(state.dispatch(LOCAL, NOW));
    let mut wait = ShutdownWait::begin(&mut state);
    assert_eq!(wait.ids, vec![busy.id(), idle.id(), gone.id()]);
    assert!(state.leases.iter().all(|lease| lease.phase == Phase::Revoking(0)));
    assert_eq!(wait.action(), ShutdownAction::AwaitWork(busy.id()));
    // Work that is still counted is not certified to be gone.
    assert_eq!(
        wait.step(&mut state, ShutdownEvent::WorkEnded),
        ShutdownAction::Finish(false)
    );
    assert!(state.finish(busy.id(), false));
    assert_eq!(
        wait.step(&mut state, ShutdownEvent::WorkEnded),
        ShutdownAction::AwaitWork(idle.id())
    );
    assert!(state.closed_snapshot(busy.id()).is_some());
    assert!(state.closed_snapshot(idle.id()).is_none());
    assert_eq!(
        wait.step(&mut state, ShutdownEvent::WorkEnded),
        ShutdownAction::AwaitWork(gone.id())
    );
    let gone_id = gone.id();
    assert!(state.mark_closed(gone_id));
    assert!(state.release(gone_id));
    assert_eq!(
        wait.step(&mut state, ShutdownEvent::WorkEnded),
        ShutdownAction::Finish(true)
    );
    assert!(state.leases.iter().all(LeaseState::is_closed));
}

#[test]
fn every_failed_shutdown_has_its_own_kind() {
    for (reply, kind) in [
        (ShutdownReply::Certified { joined: false }, ShutdownErrorKind::RuntimeStopped),
        (ShutdownReply::Refused, ShutdownErrorKind::DeadlineExceeded),
        (ShutdownReply::TimedOut, ShutdownErrorKind::DeadlineExceeded),
        (ShutdownReply::Disconnected, ShutdownErrorKind::RuntimeStopped),
    ] {
        let (proxy, _) = start(ProxyConfig::default());
        let error = proxy.shutdown(reply).expect_err("failed shutdown");
        assert_eq!(error.kind(), kind);
        assert_eq!(error.message(), kind.message());
        assert_eq!(error.into_proxy().endpoint().to_text(), "http://127.0.0.1:4750");
    }
}

#[test]
fn every_failed_close_has_its_own_kind() {
    let (mut proxy, mut state) = start(ProxyConfig::default());
    let mut lease = attach(&mut proxy, &mut state, IDENTITY, policy()).expect("attach lease");
    for (reply, kind) in [
        (
            CloseReply::Failed(CloseErrorKind::ListenerUnavailable),
            CloseErrorKind::ListenerUnavailable,
        ),
        (CloseReply::TimedOut, CloseErrorKind::DeadlineExceeded),
        (CloseReply::Unavailable, CloseErrorKind::RuntimeStopped),
    ] {
        let error = lease.close(&mut state, reply).expect_err("failed close");
        assert_eq!(error.kind(), kind);
        assert_eq!(error.message(), kind.message());
        lease = error.into_lease();
    }
    assert_eq!(lease.endpoint(), proxy.endpoint());
    assert_eq!(
        CloseErrorKind::ListenerUnavailable.message(),
        "proxy listener could not be drained for certified shutdown"
    );
}

#[test]
fn every_failed_attachment_has_its_own_error() {
    let (mut proxy, mut state) = start(ProxyConfig::default());
    let reservation = proxy.reserve(IDENTITY).expect("reservation");
    assert!(matches!(proxy.attach(reservation, None), Err(AttachError::RuntimeStopped)));
    let step = state.attach_after_drain(
        reservation.id,
        reservation.identity,
        policy(),
        DrainResult::AcceptFailed,
        NOW,
        u128::MAX,
    );
    assert!(matches!(step, AttachStep::Refused(AttachError::ListenerUnavailable)));
    assert_eq!(state.accept_retry_at(), Some(NOW + ACCEPT_RETRY_INITIAL));
    let step = state.attach_after_drain(
        reservation.id,
        reservation.identity,
        policy(),
        DrainResult::BatchFull,
        NOW,
        u128::MAX,
    );
    assert!(matches!(step, AttachStep::Retry(_)));
    assert_eq!(state.accept_retry_at(), None);
    assert!(state.leases.is_empty());
    for (error, text) in [
        (
            AttachError::InvalidIdentity,
            "peer identity cannot unambiguously identify an accepted connection",
        ),
        (
            AttachError::IdentityInUse,
            "peer identity is already attached or still revoking",
        ),
        (AttachError::LeaseIdExhausted, "proxy lease sequence is exhausted"),
        (AttachError::ProxyStopping, "proxy shutdown has begun"),
        (
            AttachError::ListenerUnavailable,
            "proxy listener is temporarily unavailable",
        ),
        (AttachError::RuntimeStopped, "proxy runtime stopped during attachment"),
    ] {
        assert_eq!(error.message(), text);
    }
}

#[test]
fn a_closing_fails_where_the_queue_cannot_be_drained() {
    let (mut proxy, mut state) = start(ProxyConfig::default());
    let lease = attach(&mut proxy, &mut state, IDENTITY, policy()).expect("attach lease");
    assert!(lease.revoke(&mut state));
    for (reply, kind) in [
        (
            Some(Err(CloseErrorKind::ListenerUnavailable)),
            CloseErrorKind::ListenerUnavailable,
        ),
        (None, CloseErrorKind::RuntimeStopped),
    ] {
        let mut wait = CloseWait::new(lease.id());
        assert!(matches!(wait.step(&mut state, CloseEvent::WorkEnded), CloseAction::Sleep));
        assert!(matches!(wait.step(&mut state, CloseEvent::Slept), CloseAction::CheckQueue));
        let CloseAction::Finish(Err(found)) =
            wait.step(&mut state, CloseEvent::QueueChecked(reply))
        else {
            panic!("failed drain");
        };
        assert_eq!(found, kind);
        assert_eq!(state.leases[0].phase, Phase::Revoking(0));
    }
}

#[test]
fn a_drain_answers_a_closing_lease() {
    let (_, mut state) = start(ProxyConfig::default());
    assert_eq!(state.drain_reply(DrainResult::Drained, NOW, u128::MAX), Some(Ok(())));
    assert_eq!(state.drain_reply(DrainResult::BatchFull, NOW, u128::MAX), None);
    assert_eq!(
        state.drain_reply(DrainResult::AcceptFailed, NOW, u128::MAX),
        Some(Err(CloseErrorKind::ListenerUnavailable))
    );
    assert!(!state.listens());
    state.resume_accepting();
    assert!(state.listens());
    state.accept_failed(NOW, u128::MAX);
    assert_eq!(state.accept_retry_at(), Some(NOW + 2 * ACCEPT_RETRY_INITIAL));
    state.accept_succeeded();
    assert!(state.listens());
    ShutdownWait::begin(&mut state);
    assert!(!state.listens());
}

#[test]
fn accept_retry_backoff_is_bounded_and_resets_after_success() {
    let mut backoff = AcceptBackoff::default();
    assert_eq!(backoff.next_delay(), ACCEPT_RETRY_INITIAL);
    assert_eq!(backoff.next_delay(), ACCEPT_RETRY_INITIAL * 2);
    for _ in 0..16 {
        backoff.next_delay();
    }
    assert_eq!(backoff.next_delay(), ACCEPT_RETRY_MAX);

    backoff.recover();
    assert_eq!(backoff.next_delay(), ACCEPT_RETRY_INITIAL);
}

#[test]
fn accept_delays_double_from_five_milliseconds_to_a_second() {
    let mut backoff = AcceptBackoff::default();
    let delays: Vec<u128> = (0..10).map(|_| backoff.next_delay() / 1_000_000).collect();
    assert_eq!(delays, vec![5, 10, 20, 40, 80, 160, 320, 640, 1_000, 1_000]);
    backoff.fail(7, 7);
    assert_eq!(backoff.retry_at, None);
}

#[test]
fn diagnostics_retain_lease_attribution_across_identity_reuse() {
    let (mut proxy, mut state) = start(ProxyConfig::default().with_diagnostic_channel(10));
    let lease = attach(&mut proxy, &mut state, IDENTITY, policy()).expect("attach lease");
    let old_lease_id = lease.id();
    admitted(state.dispatch(LOCAL, NOW));
    let old_event = state.deny(old_lease_id, "host-denied", NOW).expect("old denial diagnostic");
    state.event_delivered(old_event.suppressed_before, Delivery::Sent);
    assert!(state.finish(old_lease_id, false));
    close(lease, &mut state);

    let replacement = attach(&mut proxy, &mut state, IDENTITY, policy()).expect("reuse identity");
    admitted(state.dispatch(LOCAL, NOW));
    let event = state.deny(replacement.id(), "host-denied", NOW).expect("replacement diagnostic");
    assert_eq!(old_event.lease_id, old_lease_id);
    assert_eq!(old_event.identity, IDENTITY);
    assert_eq!(old_event.reason.as_str(), "host-denied");
    assert_eq!(old_event.suppressed_before, 0);
    assert_ne!(replacement.id(), old_lease_id);
    assert_eq!(event.lease_id, replacement.id());
    assert_eq!(event.identity, IDENTITY);
    assert_eq!(event.reason.as_str(), "host-denied");
    assert_eq!(event.suppressed_before, 0);
}

#[test]
fn undelivered_events_are_counted_on_the_next_one() {
    let (mut proxy, mut state) = start(ProxyConfig::default().with_diagnostic_channel(10));
    let lease = attach(&mut proxy, &mut state, IDENTITY, policy()).expect("attach lease");
    admitted(state.dispatch(LOCAL, NOW));
    let event = state.deny(lease.id(), "host-denied", NOW).expect("first event");
    state.event_delivered(event.suppressed_before, Delivery::Full);
    let event = state.deny(lease.id(), "host-denied", NOW).expect("second event");
    assert_eq!(event.suppressed_before, 1);
}

#[test]
fn transfers_are_counted_for_the_owning_lease() {
    let (mut proxy, mut state) = start(ProxyConfig::default());
    let lease = attach(&mut proxy, &mut state, IDENTITY, policy()).expect("attach lease");
    state.transfer(lease.id(), Direction::Upload, 3);
    assert_eq!(lease.usage(&state).uploaded_bytes, 0);
    admitted(state.dispatch(LOCAL, NOW));
    state.transfer(lease.id(), Direction::Upload, 3);
    state.transfer(lease.id(), Direction::Download, 5);
    state.transfer(lease.id() + 1, Direction::Download, 7);
    assert!(state.finish(lease.id(), true));
    assert!(!state.finish(lease.id(), true));
    let usage = close(lease, &mut state).usage();
    assert_eq!(usage.uploaded_bytes, 3);
    assert_eq!(usage.downloaded_bytes, 5);
    assert_eq!(usage.completed_connections, 1);
}

#[test]
fn the_end_of_the_arrival_count_certifies_nothing() {
    let mut lease = LeaseState::new(1, IDENTITY, policy(), NOW);
    assert_eq!(lease.revocation_generation(), u64::MAX);
    assert!(lease.begin_close());
    assert!(!lease.begin_close());
    assert_eq!(lease.revocation_generation(), 0);
    lease.phase = Phase::Revoking(u64::MAX);
    assert!(lease.record_unadmitted());
    assert_eq!(lease.phase, Phase::Revoking(u64::MAX));
    assert!(lease.quiesce_if_generation(u64::MAX).is_none());
}

#[test]
fn a_revoking_lease_does_not_take_from_its_bucket() {
    let limited = built(Policy::builder().connection_attempt_rate(1, 1).expect("rate"));
    let mut lease = LeaseState::new(1, IDENTITY, limited, NOW);
    let mut global = None;
    lease.begin_close();
    assert_eq!(
        lease.allows_connection_attempt(&mut global, NOW),
        Err("lease-revoking")
    );
    lease.phase = Phase::Open;
    assert_eq!(lease.allows_connection_attempt(&mut global, NOW), Ok(()));
    assert_eq!(lease.allows_connection_attempt(&mut global, NOW), Err("lease-rate"));
}

#[test]
fn a_lease_over_its_own_rate_leaves_the_shared_rate_alone() {
    let (mut proxy, mut state) = start(ProxyConfig::default().with_connection_attempt_rate(1, 2));
    let other = IpAddress::V4(0x7f00_0002);
    let limited = built(Policy::builder().connection_attempt_rate(1, 1).expect("rate"));
    attach(&mut proxy, &mut state, IDENTITY, limited).expect("limited lease");
    let neighbour =
        attach(&mut proxy, &mut state, PeerIdentity::SourceIp(other), policy()).expect("neighbour");
    admitted(state.dispatch(LOCAL, NOW));
    for _ in 0..5 {
        assert_eq!(rejected(state.dispatch(LOCAL, NOW)).1, "lease-rate");
    }
    assert_eq!(admitted(state.dispatch(other, NOW)), neighbour.id());
    assert_eq!(rejected(state.dispatch(other, NOW)).1, "global-rate");
}

#[test]
fn a_full_batch_is_no_evidence_of_an_empty_queue() {
    let mut drain = Drain::new();
    for _ in 0..255 {
        assert_eq!(drain.note(AcceptPoll::Accepted), None);
    }
    assert_eq!(drain.note(AcceptPoll::Accepted), Some(DrainResult::BatchFull));
    assert_eq!(Drain::new().note(AcceptPoll::Empty), Some(DrainResult::Drained));
    assert_eq!(Drain::new().note(AcceptPoll::Failed), Some(DrainResult::AcceptFailed));
}

/// Reserves a number for every contender, and lets the reservations reach the
/// registry in the opposite order.
fn contend(
    proxy: &mut Proxy,
    state: &mut ProxyState,
    contenders: Vec<PeerIdentity>,
) -> (Vec<Lease>, usize) {
    let reservations: Vec<_> = contenders
        .into_iter()
        .map(|identity| proxy.reserve(identity).expect("reservation"))
        .collect();
    let mut winners = Vec::new();
    let mut rejected = 0;
    for reservation in reservations.into_iter().rev() {
        assert!(state.is_unused(reservation.id));
        let reply = settle(&mut AttachWait::new(reservation, policy()), state);
        match proxy.attach(reservation, Some(reply)) {
            Ok(lease) => winners.push(lease),
            Err(AttachError::IdentityInUse) => rejected += 1,
            Err(error) => panic!("unexpected attach result: {error:?}"),
        }
    }
    (winners, rejected)
}

#[test]
fn exactly_one_concurrent_attach_owns_an_identity() {
    const CONTENDERS: usize = 32;

    let (mut proxy, mut state) = start(ProxyConfig::default());
    let (mut winners, rejected) =
        contend(&mut proxy, &mut state, vec![IDENTITY; CONTENDERS]);
    assert_eq!(rejected, CONTENDERS - 1);
    let lease = winners.pop().expect("one attach must win");
    assert!(winners.is_empty(), "multiple leases won");
    assert!(matches!(
        attach(&mut proxy, &mut state, IDENTITY, policy()),
        Err(AttachError::IdentityInUse)
    ));
    close(lease, &mut state);
    proxy
        .shutdown(ShutdownReply::Certified { joined: true })
        .expect("proxy shutdown");
}

#[test]
fn spellings_contend_and_identities_do_not() {
    let (mut proxy, mut state) = start(
        ProxyConfig::default().with_bind_address(SocketAddress::new(IpAddress::V6(0), 0)),
    );
    let other = IpAddress::V4(0x7f00_0002);
    let contenders = [LOCAL, mapped(0x7f00_0001), IpAddress::V6(1), other, LOCAL]
        .into_iter()
        .map(PeerIdentity::SourceIp)
        .collect();
    let (winners, rejected) = contend(&mut proxy, &mut state, contenders);
    let ids: Vec<u64> = winners.iter().map(Lease::id).collect();
    assert_eq!(ids, vec![5, 4, 3]);
    assert_eq!(rejected, 2);
}

#[test]
fn every_late_arrival_voids_the_quiet_interval() {
    for arrivals in 0..4 {
        let mut lease = LeaseState::new(1, IDENTITY, policy(), NOW);
        assert!(lease.begin_close());
        let began = lease.revocation_generation();
        for _ in 0..arrivals {
            assert!(lease.try_admit().is_err());
        }
        let usage = lease.quiesce_if_generation(began);
        assert_eq!(usage.is_some(), arrivals == 0);
        if arrivals == 0 {
            assert_eq!(lease.phase, Phase::Quiesced);
            assert_eq!(usage, Some(lease.counters.final_snapshot()));
        } else {
            assert_eq!(lease.phase, Phase::Revoking(began + arrivals));
        }
        assert_eq!(lease.counters.snapshot().denied_connections, arrivals);
    }
}

#[test]
fn a_lost_certificate_can_be_asked_for_again() {
    let (mut proxy, mut state) = start(ProxyConfig::default());
    let lease = attach(&mut proxy, &mut state, IDENTITY, policy()).expect("attach lease");
    assert!(lease.revoke(&mut state));
    let lost = certify(&mut CloseWait::new(lease.id()), &mut state).expect("quiet lease");
    let error = lease.close(&mut state, CloseReply::TimedOut).expect_err("reply came too late");
    let lease = error.into_lease();
    assert!(matches!(
        attach(&mut proxy, &mut state, IDENTITY, policy()),
        Err(AttachError::IdentityInUse)
    ));
    assert_eq!(close(lease, &mut state), lost);
    assert!(attach(&mut proxy, &mut state, IDENTITY, policy()).is_ok());
}

#[test]
fn steps_of_a_session_reach_the_counters_and_the_reports() {
    let (mut proxy, mut state) = start(ProxyConfig::default().with_diagnostic_channel(8));
    let lease = attach(&mut proxy, &mut state, IDENTITY, policy()).expect("attach lease");
    let denial = Action::Deny(Denial::new(403, "port-denied"));
    assert!(state.account(lease.id(), &denial, 3, NOW).is_none());
    assert_eq!(lease.usage(&state), Usage::default());

    admitted(state.dispatch(LOCAL, NOW));
    assert!(state.account(lease.id(), &Action::ReadHello(4), 5, NOW).is_none());
    assert!(state.account(lease.id(), &Action::Complete, 0, NOW).is_none());
    assert!(state.account(lease.id(), &Action::Abort, 0, NOW).is_none());
    assert_eq!(lease.usage(&state).uploaded_bytes, 5);
    assert_eq!(lease.usage(&state).denied_connections, 0);
    let mut denied = 0;
    for (action, reason) in [
        (denial, "port-denied"),
        (Action::Reject("client-hello-eof"), "client-hello-eof"),
        (Action::Drop("transfer-limit"), "transfer-limit"),
    ] {
        denied += 1;
        let event = state.account(lease.id(), &action, 2, NOW).expect("denial event");
        assert_eq!(event.reason.as_str(), reason);
        assert_eq!(event.lease_id, lease.id());
        let usage = lease.usage(&state);
        assert_eq!(usage.denied_connections, denied);
        assert_eq!(usage.uploaded_bytes, 5 + 2 * denied);
        assert_eq!(usage.active_connections, 1);
    }
}

#[test]
fn a_session_counts_at_most_one_denial() {
    let config = ProxyConfig::default();
    let (mut proxy, mut state) = start(config.clone());
    let lease = attach(&mut proxy, &mut state, IDENTITY, policy()).expect("attach lease");
    admitted(state.dispatch(LOCAL, NOW));
    let mut session = Session::new();
    for _ in 0..3 {
        let event = Event::Header(HeaderOutcome::TimedOut);
        let (action, uploaded) = session.step(&policy(), &config, event);
        state.account(lease.id(), &action, uploaded, NOW);
        assert_eq!(lease.usage(&state).denied_connections, 1);
        assert_eq!(lease.usage(&state).uploaded_bytes, 0);
    }
}

#[test]
fn an_identity_is_attached_only_behind_an_empty_queue() {
    let (mut proxy, mut state) = start(ProxyConfig::default());
    let reservation = proxy.reserve(IDENTITY).expect("reservation");
    let mut wait = AttachWait::new(reservation, policy());
    for _ in 0..2 {
        let action = wait.step(&mut state, AttachEvent::Received, NOW, u128::MAX);
        assert_eq!(action, AttachAction::Drain);
        assert!(state.is_unused(reservation.id));
        let full = AttachEvent::Drained(DrainResult::BatchFull);
        assert_eq!(wait.step(&mut state, full, NOW, u128::MAX), AttachAction::Requeue);
        assert!(state.is_unused(reservation.id));
    }
    assert_eq!(settle(&mut wait, &mut state), Ok(()));
    assert!(matches!(wait.stage, AttachStage::Finished));
    assert!(!state.is_unused(reservation.id));

    // A taken identity is refused without a drain.
    let second = proxy.reserve(IDENTITY).expect("reservation");
    let mut wait = AttachWait::new(second, policy());
    assert_eq!(
        wait.step(&mut state, AttachEvent::Received, NOW, u128::MAX),
        AttachAction::Finish(Err(AttachError::IdentityInUse))
    );

    let other = PeerIdentity::SourceIp(IpAddress::V4(0x7f00_0002));
    let third = proxy.reserve(other).expect("reservation");
    let mut wait = AttachWait::new(third, policy());
    assert_eq!(
        wait.step(&mut state, AttachEvent::Received, NOW, u128::MAX),
        AttachAction::Drain
    );
    let failed = AttachEvent::Drained(DrainResult::AcceptFailed);
    assert_eq!(
        wait.step(&mut state, failed, NOW, u128::MAX),
        AttachAction::Finish(Err(AttachError::ListenerUnavailable))
    );
    assert!(state.is_unused(third.id));
    assert_eq!(
        wait.step(&mut state, AttachEvent::Received, NOW, u128::MAX),
        AttachAction::Finish(Err(AttachError::RuntimeStopped))
    );
}

#[test]
fn arrivals_void_the_interval_whatever_the_lease_still_owns() {
    let mut lease = LeaseState::new(1, IDENTITY, policy(), NOW);
    assert!(lease.try_admit().is_ok());
    assert!(lease.begin_close());
    assert!(lease.try_admit().is_err());
    let began = lease.revocation_generation();
    assert!(lease.record_unadmitted());
    assert!(lease.try_admit().is_err());
    assert_eq!(lease.quiesce_if_generation(began), None);
    assert_eq!(lease.phase, Phase::Revoking(began + 2));
    let usage = lease.quiesce_if_generation(began + 2);
    assert_eq!(usage, Some(lease.counters.final_snapshot()));
    assert_eq!(lease.phase, Phase::Quiesced);
    lease.mark_closed();
    assert!(lease.is_closed());
}
