use sandbox_egress::address::IpAddress;
use sandbox_egress::diagnostic::{
    Delivery, DenialReason, DiagnosticEvent, DiagnosticReporter, DIAGNOSTIC_WINDOW,
};
use sandbox_egress::identity::PeerIdentity;
use std::sync::mpsc::{sync_channel, SyncSender, TrySendError};

const REASON: DenialReason = DenialReason("test-denial");
const IDENTITY: PeerIdentity = PeerIdentity::SourceIp(IpAddress::V4(0x7f00_0001));
const STARTED: u128 = 5_000_000_000;

fn report(reporter: &mut DiagnosticReporter, sender: &SyncSender<DiagnosticEvent>, now: u128) {
    if let Some(event) = reporter.report_at(3, IDENTITY, REASON, now) {
        let delivery = match sender.try_send(event) {
            Ok(()) => Delivery::Sent,
            Err(TrySendError::Full(_)) => Delivery::Full,
            Err(TrySendError::Disconnected(_)) => Delivery::Disconnected,
        };
        reporter.delivered(event.suppressed_before, delivery);
    }
}

#[test]
fn rate_limit_reports_suppression_in_the_next_window() {
    let (sender, receiver) = sync_channel(4);
    let mut reporter = DiagnosticReporter::new(Some(2), STARTED);

    report(&mut reporter, &sender, STARTED);
    report(&mut reporter, &sender, STARTED);
    report(&mut reporter, &sender, STARTED);
    report(&mut reporter, &sender, STARTED + DIAGNOSTIC_WINDOW);

    let events: Vec<DiagnosticEvent> = receiver.try_iter().collect();
    assert_eq!(events.len(), 3);
    assert_eq!(events[0].suppressed_before, 0);
    assert_eq!(events[1].suppressed_before, 0);
    assert_eq!(events[2].suppressed_before, 1);
}

#[test]
fn full_channel_is_nonblocking_and_counted_as_suppressed() {
    let (sender, receiver) = sync_channel(1);
    let mut reporter = DiagnosticReporter::new(Some(2), STARTED);

    report(&mut reporter, &sender, STARTED);
    report(&mut reporter, &sender, STARTED);
    assert_eq!(receiver.recv().expect("first event").suppressed_before, 0);
    report(&mut reporter, &sender, STARTED + DIAGNOSTIC_WINDOW);

    assert_eq!(
        receiver
            .recv()
            .expect("next-window event")
            .suppressed_before,
        1
    );
}

#[test]
fn an_event_names_the_lease_the_peer_and_the_reason() {
    let mut reporter = DiagnosticReporter::new(Some(1), STARTED);
    let event = reporter
        .report_at(17, IDENTITY, DenialReason::new("host-denied"), STARTED)
        .expect("first event");
    assert_eq!(event.lease_id, 17);
    assert_eq!(event.identity, IDENTITY);
    assert_eq!(event.reason.as_str(), "host-denied");
    assert_eq!(event.suppressed_before, 0);
}

#[test]
fn a_silent_reporter_and_a_lost_receiver_report_nothing() {
    let mut reporter = DiagnosticReporter::new(None, STARTED);
    assert!(reporter.report_at(1, IDENTITY, REASON, STARTED).is_none());

    let (sender, receiver) = sync_channel(1);
    drop(receiver);
    let mut reporter = DiagnosticReporter::new(Some(1), STARTED);
    report(&mut reporter, &sender, STARTED);
    let event = reporter
        .report_at(1, IDENTITY, REASON, STARTED + DIAGNOSTIC_WINDOW)
        .expect("next-window event");
    assert_eq!(event.suppressed_before, 0);
}

#[test]
fn a_window_ends_after_one_second_and_not_before() {
    let mut reporter = DiagnosticReporter::new(Some(1), STARTED);
    assert!(reporter.report_at(1, IDENTITY, REASON, STARTED).is_some());
    assert!(reporter.report_at(1, IDENTITY, REASON, STARTED + 999_999_999).is_none());
    let event = reporter
        .report_at(1, IDENTITY, REASON, STARTED + 1_000_000_000)
        .expect("next-window event");
    assert_eq!(event.suppressed_before, 1);
}

#[test]
fn delivered_events_account_for_every_denial() {
    let (sender, receiver) = sync_channel(2);
    let mut reporter = DiagnosticReporter::new(Some(3), STARTED);
    let mut told = 0;
    let mut reports = 0;
    for second in 0..4 {
        let now = STARTED + second * DIAGNOSTIC_WINDOW;
        for _ in 0..5 {
            report(&mut reporter, &sender, now);
            reports += 1;
        }
        let events: Vec<DiagnosticEvent> = receiver.try_iter().collect();
        assert_eq!(events.len(), 2);
        told += events.iter().map(|event| 1 + event.suppressed_before).sum::<u64>();
    }
    report(&mut reporter, &sender, STARTED + 4 * DIAGNOSTIC_WINDOW);
    reports += 1;
    told += 1 + receiver.recv().expect("last event").suppressed_before;
    assert_eq!(told, reports);
}

#[test]
fn one_moment_delivers_at_most_the_limit() {
    let mut reporter = DiagnosticReporter::new(Some(3), STARTED);
    let now = STARTED + 7 * DIAGNOSTIC_WINDOW;
    let events = (0..10)
        .filter(|_| reporter.report_at(1, IDENTITY, REASON, now).is_some())
        .count();
    assert_eq!(events, 3);
}
