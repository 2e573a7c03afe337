//! How the end of a revoked lease is certified: its work ends, and then no
//! socket arrives for it through a whole quiet interval.

use vstd::prelude::*;

use crate::error::CloseErrorKind;
use crate::lease::{advanced, settled, LeaseState, Phase};
use crate::state::{evolved, lemma_place_by_numbers, lemma_place_of, place_of, ProxyState};
use crate::usage::FinalUsage;

verus! {

/// What happened while a lease was being closed.
#[derive(Clone, Copy, Debug)]
pub enum CloseEvent {
    /// All tracked work of the lease is gone.
    WorkEnded,
    /// The quiet period has passed.
    Slept,
    /// The owner of the listener drained the accept queue, or could not. There
    /// is no answer where that owner is gone.
    QueueChecked(Option<Result<(), CloseErrorKind>>),
    /// The deadline has passed.
    TimedOut,
}

/// What to do next to close a lease.
#[derive(Clone, Copy, Debug)]
pub enum CloseAction {
    /// Let the quiet period pass.
    Sleep,
    /// Have the accept queue drained.
    CheckQueue,
    /// The lease can be closed with this usage, or cannot.
    Finish(Result<FinalUsage, CloseErrorKind>),
}

/// How far the closing has come.
#[derive(Clone, Copy, Debug)]
pub enum CloseStage {
    /// Tracked work may remain.
    Working,
    /// A quiet interval runs. So many sockets had arrived when it began.
    Quieting(u64),
    /// The quiet interval has passed, and the accept queue is being drained.
    Checking(u64),
    /// The usage is final already, and the accept queue is being drained.
    Confirming(FinalUsage),
    Finished,
}

/// The closing of one lease.
#[derive(Clone, Copy, Debug)]
pub struct CloseWait {
    pub id: u64,
    pub stage: CloseStage,
}

/// What one event leads to.
pub struct CloseStep {
    pub stage: CloseStage,
    pub action: CloseAction,
    /// Whether the lease is certified to be quiet.
    pub quiesces: bool,
}

pub open spec fn close_going(stage: CloseStage, action: CloseAction) -> CloseStep {
    CloseStep { stage, action, quiesces: false }
}

pub open spec fn close_finished(result: Result<FinalUsage, CloseErrorKind>) -> CloseStep {
    close_going(CloseStage::Finished, CloseAction::Finish(result))
}

/// Where a quiet interval may begin: final counters need none.
pub open spec fn observed(state: ProxyState, id: u64) -> CloseStep {
    if state.lease_is(id, |lease: LeaseState| lease.phase == Phase::Quiesced) {
        close_going(
            CloseStage::Confirming(FinalUsage(state.usage_of(id)->0)),
            CloseAction::CheckQueue,
        )
    } else {
        close_going(CloseStage::Quieting(state.generation_of(id)), CloseAction::Sleep)
    }
}

/// What a drain of the accept queue shows.
pub open spec fn queue_result(reply: Option<Result<(), CloseErrorKind>>) -> Result<
    (),
    CloseErrorKind,
> {
    match reply {
        Some(result) => result,
        None => Err(CloseErrorKind::RuntimeStopped),
    }
}

/// The next step of a closing. The arrivals are counted again after the accept
/// queue was drained: an old socket in it makes the interval start over.
pub open spec fn close_step(
    state: ProxyState,
    id: u64,
    stage: CloseStage,
    event: CloseEvent,
) -> CloseStep {
    match (stage, event) {
        (CloseStage::Finished, _) => close_finished(Err(CloseErrorKind::RuntimeStopped)),
        (_, CloseEvent::TimedOut) => close_finished(Err(CloseErrorKind::DeadlineExceeded)),
        (CloseStage::Working, CloseEvent::WorkEnded) => observed(state, id),
        (CloseStage::Quieting(before), CloseEvent::Slept) => close_going(
            CloseStage::Checking(before),
            CloseAction::CheckQueue,
        ),
        (CloseStage::Checking(before), CloseEvent::QueueChecked(reply)) => match queue_result(
            reply,
        ) {
            Err(kind) => close_finished(Err(kind)),
            Ok(()) => if state.quiet(id, before) {
                CloseStep {
                    quiesces: true,
                    ..close_finished(Ok(FinalUsage(state.usage_of(id)->0)))
                }
            } else {
                observed(state, id)
            },
        },
        (CloseStage::Confirming(usage), CloseEvent::QueueChecked(reply)) => match queue_result(
            reply,
        ) {
            Err(kind) => close_finished(Err(kind)),
            Ok(()) => close_finished(Ok(usage)),
        },
        _ => close_finished(Err(CloseErrorKind::RuntimeStopped)),
    }
}

/// The leases after a step of a closing.
pub open spec fn leases_after(
    state: ProxyState,
    id: u64,
    stage: CloseStage,
    event: CloseEvent,
) -> Seq<LeaseState> {
    if close_step(state, id, stage, event).quiesces {
        state.leases_with(id, |lease: LeaseState| LeaseState { phase: Phase::Quiesced, ..lease })
    } else {
        state.leases@
    }
}

impl CloseWait {
    /// A closing that waits for the tracked work of the lease to end.
    pub fn new(id: u64) -> (wait: Self)
        ensures
            wait == (CloseWait { id, stage: CloseStage::Working }),
    {
        CloseWait { id, stage: CloseStage::Working }
    }

    fn observe(&mut self, state: &ProxyState) -> (action: CloseAction)
        ensures
            final(self).id == old(self).id,
            observed(*state, old(self).id) == close_going(final(self).stage, action),
    {
        match state.quiesced_snapshot(self.id) {
            Some(usage) => {
                self.stage = CloseStage::Confirming(usage);
                CloseAction::CheckQueue
            },
            None => {
                self.stage = CloseStage::Quieting(state.revocation_generation(self.id));
                CloseAction::Sleep
            },
        }
    }

    /// Take an event, and say what to do next.
    pub fn step(&mut self, state: &mut ProxyState, event: CloseEvent) -> (action: CloseAction)
        requires
            old(state).well_formed(),
        ensures
            final(state).well_formed(),
            evolved(old(state).leases@, final(state).leases@),
            final(self).id == old(self).id,
            ({
                let step = close_step(*old(state), old(self).id, old(self).stage, event);
                final(self).stage == step.stage && action == step.action
            }),
            *final(state) == (ProxyState { leases: final(state).leases, ..*old(state) }),
            final(state).leases@ == leases_after(
                *old(state),
                old(self).id,
                old(self).stage,
                event,
            ),
    {
        let stage = self.stage;
        self.stage = CloseStage::Finished;
        match (stage, event) {
            (CloseStage::Finished, _) => CloseAction::Finish(Err(CloseErrorKind::RuntimeStopped)),
            (_, CloseEvent::TimedOut) => CloseAction::Finish(
                Err(CloseErrorKind::DeadlineExceeded),
            ),
            (CloseStage::Working, CloseEvent::WorkEnded) => self.observe(state),
            (CloseStage::Quieting(before), CloseEvent::Slept) => {
                self.stage = CloseStage::Checking(before);
                CloseAction::CheckQueue
            },
            (CloseStage::Checking(before), CloseEvent::QueueChecked(reply)) => match reply {
                None => CloseAction::Finish(Err(CloseErrorKind::RuntimeStopped)),
                Some(Err(kind)) => CloseAction::Finish(Err(kind)),
                Some(Ok(())) => match state.quiesce_if_generation(self.id, before) {
                    Some(usage) => CloseAction::Finish(Ok(usage)),
                    None => self.observe(state),
                },
            },
            (CloseStage::Confirming(usage), CloseEvent::QueueChecked(reply)) => match reply {
                None => CloseAction::Finish(Err(CloseErrorKind::RuntimeStopped)),
                Some(Err(kind)) => CloseAction::Finish(Err(kind)),
                Some(Ok(())) => CloseAction::Finish(Ok(usage)),
            },
            _ => CloseAction::Finish(Err(CloseErrorKind::RuntimeStopped)),
        }
    }
}

/// A quiet interval certifies a lease only if none of its connections is left
/// and no socket arrived for it since the interval began; the usage that is
/// then reported is what the lease has counted, and its counters are final.
pub proof fn law_certified_leases_are_quiet(
    state: ProxyState,
    id: u64,
    before: u64,
    event: CloseEvent,
)
    requires
        state.well_formed(),
        close_step(
            state,
            id,
            CloseStage::Checking(before),
            event,
        ).action matches CloseAction::Finish(Ok(_)),
    ensures
        ({
            let at = place_of(state.leases@, id)->0;
            let after = leases_after(state, id, CloseStage::Checking(before), event);
            &&& place_of(state.leases@, id) is Some
            &&& state.leases@[at].active() == 0
            &&& state.leases@[at].phase == Phase::Revoking(before)
            &&& place_of(after, id) == Some(at)
            &&& after[at].phase == Phase::Quiesced
            &&& after[at].counters == state.leases@[at].counters
            &&& close_step(state, id, CloseStage::Checking(before), event).action
                == CloseAction::Finish(Ok(FinalUsage(after[at].counters.usage)))
        }),
{
    lemma_place_of(state.leases@, id);
    lemma_place_by_numbers(
        leases_after(state, id, CloseStage::Checking(before), event),
        state.leases@,
        id,
    );
}

/// Nothing certifies a lease but a drained accept queue: where the drain failed
/// or nobody drained, the closing fails.
pub proof fn law_certificates_need_a_drained_queue(
    state: ProxyState,
    id: u64,
    stage: CloseStage,
    event: CloseEvent,
)
    requires
        close_step(state, id, stage, event).action matches CloseAction::Finish(Ok(_)),
    ensures
        event matches CloseEvent::QueueChecked(Some(Ok(()))),
{
}

/// A closing that is tried again reports the same usage: what was final when it
/// began to confirm is what the lease has counted whenever it ends, whatever
/// happened to the proxy in between.
pub proof fn law_confirmed_usage_is_final(
    state: ProxyState,
    later: ProxyState,
    id: u64,
    usage: FinalUsage,
    event: CloseEvent,
    result: FinalUsage,
)
    requires
        observed(state, id).stage == CloseStage::Confirming(usage),
        evolved(state.leases@, later.leases@),
        place_of(later.leases@, id) is Some,
        close_step(later, id, CloseStage::Confirming(usage), event).action == CloseAction::Finish(
            Ok(result),
        ),
    ensures
        later.usage_of(id) == Some(result.0),
        settled(later.leases@[place_of(later.leases@, id)->0].phase),
{
    lemma_place_of(state.leases@, id);
    lemma_place_of(later.leases@, id);
    let before = state.leases@[place_of(state.leases@, id)->0];
    let after = later.leases@[place_of(later.leases@, id)->0];
    assert(advanced(before, after));
}

/// A quiet interval that an arrival disturbed, or that ended before the work was
/// gone, starts over with the arrivals counted by then; one that nothing
/// disturbed certifies the lease at once.
pub proof fn law_disturbed_intervals_start_over(
    state: ProxyState,
    id: u64,
    before: u64,
)
    requires
        state.well_formed(),
        place_of(state.leases@, id) is Some,
        state.leases@[place_of(state.leases@, id)->0].phase is Revoking,
    ensures
        ({
            let lease = state.leases@[place_of(state.leases@, id)->0];
            let step = close_step(
                state,
                id,
                CloseStage::Checking(before),
                CloseEvent::QueueChecked(Some(Ok(()))),
            );
            &&& lease.active() == 0 && lease.phase == Phase::Revoking(before) && before < u64::MAX
                ==> step.quiesces && step.action == CloseAction::Finish(
                Ok(FinalUsage(lease.counters.usage)),
            )
            &&& lease.phase != Phase::Revoking(before) || lease.active() > 0 ==> !step.quiesces
                && step.action == CloseAction::Sleep && step.stage == CloseStage::Quieting(
                lease.generation(),
            )
        }),
{
}

} // verus!
