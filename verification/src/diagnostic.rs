//! Rate-limited denial events.

use vstd::prelude::*;

use crate::identity::PeerIdentity;
use crate::usage::saturated;

verus! {

/// The interval within which events are counted, in nanoseconds.
pub const DIAGNOSTIC_WINDOW: u128 = 1_000_000_000;

/// A stable, bounded machine reason for a denied connection.
#[derive(Clone, Copy, Debug, PartialEq, Eq, Hash)]
pub struct DenialReason(pub &'static str);

impl DenialReason {
    pub fn new(code: &'static str) -> (reason: Self)
        ensures
            reason.0 == code,
    {
        DenialReason(code)
    }

    /// Return the lowercase, hyphen-separated reason code.
    pub fn as_str(self) -> (code: &'static str)
        ensures
            code == self.0,
    {
        self.0
    }
}

/// A nonblocking operational event emitted for a denied connection.
#[derive(Clone, Copy, Debug, PartialEq, Eq)]
pub struct DiagnosticEvent {
    /// The lease that owned the denied connection.
    pub lease_id: u64,
    /// Host-authenticated identity that owned the denied connection.
    pub identity: PeerIdentity,
    /// Stable denial code. This never contains guest-provided text.
    pub reason: DenialReason,
    /// Events suppressed by rate or channel capacity before this event.
    pub suppressed_before: u64,
}

/// What became of an event that was handed to the channel.
#[derive(Clone, Copy, Debug, PartialEq, Eq, Structural)]
pub enum Delivery {
    Sent,
    Full,
    Disconnected,
}

/// The events of the current interval.
#[derive(Clone, Copy, Debug)]
pub struct ReporterState {
    pub max_events_per_second: u32,
    pub window_started: u128,
    pub emitted: u32,
    pub suppressed: u64,
}

/// Decides which denials become events. A reporter without state reports
/// nothing.
#[derive(Clone, Copy, Debug)]
pub struct DiagnosticReporter {
    pub state: Option<ReporterState>,
}

/// The state at `now`, with a new interval begun where the last one is over.
pub open spec fn in_window(state: ReporterState, now: u128) -> ReporterState {
    if now - state.window_started >= DIAGNOSTIC_WINDOW {
        ReporterState { window_started: now, emitted: 0, ..state }
    } else {
        state
    }
}

/// Whether a denial at `now` becomes an event.
pub open spec fn emits(state: ReporterState, now: u128) -> bool {
    in_window(state, now).emitted < state.max_events_per_second
}

/// The state after a denial at `now`.
pub open spec fn reported(state: ReporterState, now: u128) -> ReporterState {
    let current = in_window(state, now);
    if emits(state, now) {
        ReporterState { emitted: (current.emitted + 1) as u32, suppressed: 0, ..current }
    } else {
        ReporterState { suppressed: saturated(current.suppressed, 1), ..current }
    }
}

/// The state after the channel took an event that carried this count, or did
/// not.
pub open spec fn after_handover(
    state: ReporterState,
    suppressed_before: u64,
    delivery: Delivery,
) -> ReporterState {
    if delivery == Delivery::Full {
        ReporterState {
            suppressed: saturated(saturated(state.suppressed, suppressed_before), 1),
            ..state
        }
    } else {
        state
    }
}

impl DiagnosticReporter {
    /// The reporter after a denial at `now`.
    pub open spec fn after_report(self, now: u128) -> DiagnosticReporter {
        match self.state {
            Some(state) => DiagnosticReporter { state: Some(reported(state, now)) },
            None => self,
        }
    }

    /// The event that a denial at `now` becomes, if it becomes one. It carries
    /// every denial that was suppressed before it.
    pub open spec fn event_of(
        self,
        lease_id: u64,
        identity: PeerIdentity,
        reason: DenialReason,
        now: u128,
    ) -> Option<DiagnosticEvent> {
        match self.state {
            Some(state) => if emits(state, now) {
                Some(
                    DiagnosticEvent {
                        lease_id,
                        identity,
                        reason,
                        suppressed_before: state.suppressed,
                    },
                )
            } else {
                None
            },
            None => None,
        }
    }

    /// The reporter after the channel took an event, or did not.
    pub open spec fn after_delivery(
        self,
        suppressed_before: u64,
        delivery: Delivery,
    ) -> DiagnosticReporter {
        match self.state {
            Some(state) => DiagnosticReporter {
                state: Some(after_handover(state, suppressed_before, delivery)),
            },
            None => self,
        }
    }

    pub fn new(max_events_per_second: Option<u32>, now: u128) -> (reporter: Self)
        ensures
            match max_events_per_second {
                Some(max) => reporter.state == Some(
                    ReporterState {
                        max_events_per_second: max,
                        window_started: now,
                        emitted: 0,
                        suppressed: 0,
                    },
                ),
                None => reporter.state is None,
            },
    {
        match max_events_per_second {
            Some(max_events_per_second) => DiagnosticReporter {
                state: Some(
                    ReporterState {
                        max_events_per_second,
                        window_started: now,
                        emitted: 0,
                        suppressed: 0,
                    },
                ),
            },
            None => DiagnosticReporter { state: None },
        }
    }

    /// Report a denial, and return the event to hand to the channel, if any.
    pub fn report_at(
        &mut self,
        lease_id: u64,
        identity: PeerIdentity,
        reason: DenialReason,
        now: u128,
    ) -> (event: Option<DiagnosticEvent>)
        ensures
            *final(self) == old(self).after_report(now),
            event == old(self).event_of(lease_id, identity, reason, now),
    {
        let mut state: ReporterState = match self.state {
            Some(state) => state,
            None => return None,
        };
        if now.saturating_sub(state.window_started) >= DIAGNOSTIC_WINDOW {
            state.window_started = now;
            state.emitted = 0;
        }
        if state.emitted >= state.max_events_per_second {
            state.suppressed = state.suppressed.saturating_add(1);
            self.state = Some(state);
            return None;
        }
        state.emitted = state.emitted + 1;
        let suppressed_before: u64 = state.suppressed;
        state.suppressed = 0;
        self.state = Some(state);
        Some(DiagnosticEvent { lease_id, identity, reason, suppressed_before })
    }

    /// Take note of what became of an event. An event for which the channel had
    /// no room counts as suppressed, with those suppressed before it.
    pub fn delivered(&mut self, suppressed_before: u64, delivery: Delivery)
        ensures
            *final(self) == old(self).after_delivery(suppressed_before, delivery),
    {
        match self.state {
            Some(state) => {
                if delivery == Delivery::Full {
                    self.state = Some(
                        ReporterState {
                            suppressed: state.suppressed.saturating_add(
                                suppressed_before,
                            ).saturating_add(1),
                            ..state
                        },
                    );
                }
            },
            None => {},
        }
    }
}

/// Every denial is accounted for: it is suppressed and counted, or it becomes
/// an event that carries the whole count. An event that finds the channel full
/// leaves the count as if it had been suppressed in the first place.
pub proof fn law_suppression_is_conserved(state: ReporterState, now: u128)
    ensures
        !emits(state, now) ==> reported(state, now).suppressed == saturated(state.suppressed, 1),
        emits(state, now) ==> saturated(
            saturated(reported(state, now).suppressed, state.suppressed),
            1,
        ) == saturated(state.suppressed, 1),
{
}

/// No interval carries more events than the limit.
pub proof fn law_events_per_window_are_bounded(state: ReporterState, now: u128)
    requires
        state.emitted <= state.max_events_per_second,
    ensures
        reported(state, now).emitted <= state.max_events_per_second,
        reported(state, now).max_events_per_second == state.max_events_per_second,
        now - state.window_started < DIAGNOSTIC_WINDOW ==> reported(state, now).emitted
            >= state.emitted,
{
}

/// A denial: when it came, and what becomes of its event where it gets one.
pub struct Report {
    pub now: u128,
    pub delivery: Delivery,
}

/// The state after a denial and the handover of its event.
pub open spec fn after_denial(state: ReporterState, report: Report) -> ReporterState {
    if emits(state, report.now) {
        after_handover(reported(state, report.now), state.suppressed, report.delivery)
    } else {
        reported(state, report.now)
    }
}

/// The state after these denials, one after the other.
pub open spec fn after_denials(state: ReporterState, reports: Seq<Report>) -> ReporterState
    decreases reports.len(),
{
    if reports.len() == 0 {
        state
    } else {
        after_denial(after_denials(state, reports.drop_last()), reports.last())
    }
}

/// Whether a denial becomes an event that is delivered.
pub open spec fn delivers(state: ReporterState, report: Report) -> bool {
    emits(state, report.now) && report.delivery == Delivery::Sent
}

/// How many of these denials become delivered events.
pub open spec fn events_delivered(state: ReporterState, reports: Seq<Report>) -> nat
    decreases reports.len(),
{
    if reports.len() == 0 {
        0
    } else {
        let before = after_denials(state, reports.drop_last());
        events_delivered(state, reports.drop_last()) + if delivers(before, reports.last()) {
            1nat
        } else {
            0nat
        }
    }
}

/// How many denials the delivered events speak of: each of its own, and of those
/// suppressed before it.
pub open spec fn denials_told(state: ReporterState, reports: Seq<Report>) -> nat
    decreases reports.len(),
{
    if reports.len() == 0 {
        0
    } else {
        let before = after_denials(state, reports.drop_last());
        denials_told(state, reports.drop_last()) + if delivers(before, reports.last()) {
            (1 + before.suppressed) as nat
        } else {
            0nat
        }
    }
}

proof fn lemma_told_or_suppressed(state: ReporterState, reports: Seq<Report>)
    requires
        state.suppressed + reports.len() <= u64::MAX,
        forall|i: int| 0 <= i < reports.len() ==> (#[trigger] reports[i]).delivery
            != Delivery::Disconnected,
    ensures
        denials_told(state, reports) + after_denials(state, reports).suppressed
            == state.suppressed + reports.len(),
    decreases reports.len(),
{
    if reports.len() > 0 {
        let earlier = reports.drop_last();
        assert forall|i: int| 0 <= i < earlier.len() implies (#[trigger] earlier[i]).delivery
            != Delivery::Disconnected by {
            assert(earlier[i] == reports[i]);
        }
        lemma_told_or_suppressed(state, earlier);
        assert(reports.last() == reports[reports.len() - 1]);
    }
}

/// As long as the receiver stays connected no denial is lost: whether the rate
/// or a full channel held an event back, the delivered events and the count that
/// the next one will carry speak of every denial. So once the last of them is
/// delivered, the delivered events speak of all denials since a reporter began.
pub proof fn law_delivered_events_account_for_every_denial(
    state: ReporterState,
    reports: Seq<Report>,
)
    requires
        state.suppressed + reports.len() <= u64::MAX,
        forall|i: int| 0 <= i < reports.len() ==> (#[trigger] reports[i]).delivery
            != Delivery::Disconnected,
    ensures
        denials_told(state, reports) + after_denials(state, reports).suppressed
            == state.suppressed + reports.len(),
        reports.len() > 0 && delivers(
            after_denials(state, reports.drop_last()),
            reports.last(),
        ) ==> denials_told(state, reports) == state.suppressed + reports.len(),
{
    lemma_told_or_suppressed(state, reports);
}

/// Denials at one moment become at most as many events as the limit allows,
/// whatever became of the events before.
pub proof fn law_one_moment_delivers_at_most_the_limit(
    state: ReporterState,
    reports: Seq<Report>,
    now: u128,
)
    requires
        forall|i: int| 0 <= i < reports.len() ==> (#[trigger] reports[i]).now == now,
    ensures
        events_delivered(state, reports) <= state.max_events_per_second,
{
    lemma_one_moment(state, reports, now);
}

proof fn lemma_one_moment(state: ReporterState, reports: Seq<Report>, now: u128)
    requires
        forall|i: int| 0 <= i < reports.len() ==> (#[trigger] reports[i]).now == now,
    ensures
        ({
            let after = after_denials(state, reports);
            let current = in_window(after, now);
            &&& after.max_events_per_second == state.max_events_per_second
            &&& events_delivered(state, reports) <= state.max_events_per_second
            &&& events_delivered(state, reports) <= current.emitted
        }),
    decreases reports.len(),
{
    if reports.len() > 0 {
        let earlier = reports.drop_last();
        assert forall|i: int| 0 <= i < earlier.len() implies (#[trigger] earlier[i]).now == now by {
            assert(earlier[i] == reports[i]);
        }
        lemma_one_moment(state, earlier, now);
        assert(reports.last() == reports[reports.len() - 1]);
    }
}

proof fn lemma_events_until_full(state: ReporterState, reports: Seq<Report>, now: u128)
    requires
        forall|i: int|
            0 <= i < reports.len() ==> (#[trigger] reports[i]).now == now && reports[i].delivery
                == Delivery::Sent,
        in_window(state, now).emitted <= state.max_events_per_second,
    ensures
        ({
            let room = state.max_events_per_second - in_window(state, now).emitted;
            let after = after_denials(state, reports);
            &&& events_delivered(state, reports) == (if reports.len() <= room {
                reports.len() as int
            } else {
                room
            })
            &&& in_window(after, now).emitted == in_window(state, now).emitted + events_delivered(
                state,
                reports,
            )
            &&& after.max_events_per_second == state.max_events_per_second
        }),
    decreases reports.len(),
{
    if reports.len() > 0 {
        let earlier = reports.drop_last();
        assert forall|i: int| 0 <= i < earlier.len() implies (#[trigger] earlier[i]).now == now
            && earlier[i].delivery == Delivery::Sent by {
            assert(earlier[i] == reports[i]);
        }
        lemma_events_until_full(state, earlier, now);
        assert(reports.last() == reports[reports.len() - 1]);
    }
}

/// Denials become events as long as their interval has room: of any number at
/// one moment, all are delivered, or as many as the limit still allows. Once an
/// interval of a second is over, the next has the whole limit again.
pub proof fn law_denials_become_events_up_to_the_limit(
    state: ReporterState,
    reports: Seq<Report>,
    now: u128,
)
    requires
        forall|i: int|
            0 <= i < reports.len() ==> (#[trigger] reports[i]).now == now && reports[i].delivery
                == Delivery::Sent,
        state.emitted <= state.max_events_per_second,
    ensures
        now >= state.window_started + 1_000_000_000 ==> events_delivered(state, reports) == (
        if reports.len() <= state.max_events_per_second {
            reports.len() as int
        } else {
            state.max_events_per_second as int
        }),
        now < state.window_started + 1_000_000_000 ==> events_delivered(state, reports) == (
        if state.emitted + reports.len() <= state.max_events_per_second {
            reports.len() as int
        } else {
            state.max_events_per_second - state.emitted
        }),
{
    lemma_events_until_full(state, reports, now);
}

/// An event names the lease, the identity and the reason of its denial, and
/// every denial suppressed before it.
pub proof fn law_events_name_their_denial(
    reporter: DiagnosticReporter,
    lease_id: u64,
    identity: PeerIdentity,
    reason: DenialReason,
    now: u128,
)
    ensures
        reporter.event_of(lease_id, identity, reason, now) matches Some(event) ==> {
            &&& event.lease_id == lease_id
            &&& event.identity == identity
            &&& event.reason == reason
            &&& reporter.state matches Some(state) && event.suppressed_before == state.suppressed
        },
        reporter.event_of(lease_id, identity, reason, now) is Some <==> (reporter.state matches
            Some(state) && emits(state, now)),
{
}

} // verus!
