//! How an identity is attached: it has to be free, and then the accept queue has
//! to be seen empty, so that no socket of the previous run meets the new rules.

use vstd::prelude::*;

use crate::accept::DrainResult;
use crate::error::AttachError;
use crate::lease::{opened, LeaseState};
use crate::policy::Policy;
use crate::proxy::Reservation;
use crate::state::{evolved, place_of, AttachStep, ProxyState};

verus! {

/// What happened while an identity was being attached.
#[derive(Clone, Copy, Debug)]
pub enum AttachEvent {
    /// The request reached the owner of the listener.
    Received,
    /// The accept queue was drained, or could not be.
    Drained(DrainResult),
}

/// What to do next to attach an identity.
#[derive(Clone, Copy, Debug, PartialEq, Eq)]
pub enum AttachAction {
    /// Drain the accept queue.
    Drain,
    /// Let what waits go first, and then receive the request again.
    Requeue,
    /// The identity is attached, or cannot be.
    Finish(Result<(), AttachError>),
}

/// How far the attaching has come.
#[derive(Debug)]
pub enum AttachStage {
    /// The request waits for the owner of the listener.
    Requested(Policy),
    /// The identity was free, and the accept queue is being drained.
    Draining(Policy),
    Finished,
}

/// The attaching of one reserved identity.
#[derive(Debug)]
pub struct AttachWait {
    pub reservation: Reservation,
    pub stage: AttachStage,
}

/// What one event leads to.
pub struct AttachResult {
    pub stage: AttachStage,
    pub action: AttachAction,
    /// The rules of the lease that is attached, where one is.
    pub attaches: Option<Policy>,
}

pub open spec fn attach_going(stage: AttachStage, action: AttachAction) -> AttachResult {
    AttachResult { stage, action, attaches: None }
}

pub open spec fn attach_refused(error: AttachError) -> AttachResult {
    attach_going(AttachStage::Finished, AttachAction::Finish(Err(error)))
}

/// The next step of an attaching. A taken identity is refused without a drain,
/// and a full batch is no evidence that the queue is empty.
pub open spec fn attach_step(
    state: ProxyState,
    reservation: Reservation,
    stage: AttachStage,
    event: AttachEvent,
) -> AttachResult {
    let refusal = state.attach_refusal(reservation.identity);
    match (stage, event) {
        (AttachStage::Requested(policy), AttachEvent::Received) => match refusal {
            Some(error) => attach_refused(error),
            None => attach_going(AttachStage::Draining(policy), AttachAction::Drain),
        },
        (AttachStage::Draining(policy), AttachEvent::Drained(drain)) => match drain {
            DrainResult::BatchFull => attach_going(
                AttachStage::Requested(policy),
                AttachAction::Requeue,
            ),
            DrainResult::AcceptFailed => attach_refused(AttachError::ListenerUnavailable),
            DrainResult::Drained => match refusal {
                Some(error) => attach_refused(error),
                None => AttachResult {
                    stage: AttachStage::Finished,
                    action: AttachAction::Finish(Ok(())),
                    attaches: Some(policy),
                },
            },
        },
        _ => attach_refused(AttachError::RuntimeStopped),
    }
}

/// The leases after a step of an attaching.
pub open spec fn leases_after_attach(
    state: ProxyState,
    reservation: Reservation,
    stage: AttachStage,
    event: AttachEvent,
    now: u128,
) -> Seq<LeaseState> {
    let Reservation { id, identity } = reservation;
    match attach_step(state, reservation, stage, event).attaches {
        Some(policy) => state.leases_without(identity).push(opened(id, identity, policy, now)),
        None => state.leases@,
    }
}

/// The state that a drain of the accept queue leaves, where the attaching asked
/// for it.
pub open spec fn drain_noted(
    state: ProxyState,
    stage: AttachStage,
    event: AttachEvent,
    now: u128,
    clock_limit: u128,
) -> ProxyState {
    match (stage, event) {
        (AttachStage::Draining(_), AttachEvent::Drained(drain)) => state.after_drain(
            drain,
            now,
            clock_limit,
        ),
        _ => state,
    }
}

impl AttachWait {
    /// An attaching that waits for the owner of the listener.
    pub fn new(reservation: Reservation, policy: Policy) -> (wait: Self)
        ensures
            wait == (AttachWait { reservation, stage: AttachStage::Requested(policy) }),
    {
        AttachWait { reservation, stage: AttachStage::Requested(policy) }
    }

    /// Take an event, and say what to do next. The number of the reservation is
    /// one that no lease has.
    pub fn step(
        &mut self,
        state: &mut ProxyState,
        event: AttachEvent,
        now: u128,
        clock_limit: u128,
    ) -> (action: AttachAction)
        requires
            old(state).well_formed(),
            place_of(old(state).leases@, old(self).reservation.id) is None,
        ensures
            final(state).well_formed(),
            evolved(old(state).leases@, final(state).leases@),
            final(self).reservation == old(self).reservation,
            ({
                let step = attach_step(
                    *old(state),
                    old(self).reservation,
                    old(self).stage,
                    event,
                );
                final(self).stage == step.stage && action == step.action
            }),
            *final(state) == (ProxyState {
                leases: final(state).leases,
                ..drain_noted(*old(state), old(self).stage, event, now, clock_limit)
            }),
            final(state).leases@ == leases_after_attach(
                *old(state),
                old(self).reservation,
                old(self).stage,
                event,
                now,
            ),
    {
        let Reservation { id, identity } = self.reservation;
        let mut stage = AttachStage::Finished;
        std::mem::swap(&mut stage, &mut self.stage);
        match (stage, event) {
            (AttachStage::Requested(policy), AttachEvent::Received) => match state.attach_check(
                identity,
            ) {
                Err(error) => AttachAction::Finish(Err(error)),
                Ok(()) => {
                    self.stage = AttachStage::Draining(policy);
                    AttachAction::Drain
                },
            },
            (AttachStage::Draining(policy), AttachEvent::Drained(drain)) =>
                match state.attach_after_drain(id, identity, policy, drain, now, clock_limit) {
                    AttachStep::Attached => AttachAction::Finish(Ok(())),
                    AttachStep::Refused(error) => AttachAction::Finish(Err(error)),
                    AttachStep::Retry(policy) => {
                        self.stage = AttachStage::Requested(policy);
                        AttachAction::Requeue
                    },
                },
            _ => AttachAction::Finish(Err(AttachError::RuntimeStopped)),
        }
    }
}

/// An identity is attached only where it is free and the accept queue was seen
/// empty, under the rules of the request and with no usage; nothing else
/// attaches a lease.
pub proof fn law_attaching_needs_a_drained_queue(
    state: ProxyState,
    reservation: Reservation,
    stage: AttachStage,
    event: AttachEvent,
    now: u128,
)
    ensures
        ({
            let step = attach_step(state, reservation, stage, event);
            let after = leases_after_attach(state, reservation, stage, event, now);
            &&& step.action == AttachAction::Finish(Ok(())) ==> {
                &&& state.attach_refusal(reservation.identity) is None
                &&& event == AttachEvent::Drained(DrainResult::Drained)
                &&& stage matches AttachStage::Draining(policy) && after.last() == opened(
                    reservation.id,
                    reservation.identity,
                    policy,
                    now,
                )
            }
            &&& step.action != AttachAction::Finish(Ok(())) ==> after == state.leases@
        }),
{
}

/// A free identity is attached as soon as the queue was seen empty: the request
/// leads to a drain, a full batch to another try with the same rules, and an
/// empty queue to the lease.
pub proof fn law_free_identities_are_attached(
    state: ProxyState,
    reservation: Reservation,
    policy: Policy,
    now: u128,
)
    requires
        state.attach_refusal(reservation.identity) is None,
    ensures
        attach_step(
            state,
            reservation,
            AttachStage::Requested(policy),
            AttachEvent::Received,
        ) == attach_going(AttachStage::Draining(policy), AttachAction::Drain),
        attach_step(
            state,
            reservation,
            AttachStage::Draining(policy),
            AttachEvent::Drained(DrainResult::BatchFull),
        ) == attach_going(AttachStage::Requested(policy), AttachAction::Requeue),
        attach_step(
            state,
            reservation,
            AttachStage::Draining(policy),
            AttachEvent::Drained(DrainResult::Drained),
        ).action == AttachAction::Finish(Ok(())),
        leases_after_attach(
            state,
            reservation,
            AttachStage::Draining(policy),
            AttachEvent::Drained(DrainResult::Drained),
            now,
        ) == state.leases_without(reservation.identity).push(
            opened(reservation.id, reservation.identity, policy, now),
        ),
{
}

} // verus!
