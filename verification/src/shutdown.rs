//! How the end of the whole proxy is certified: one revoked lease after the
//! other, until each of them has closed.

use vstd::prelude::*;

use crate::lease::{LeaseState, Phase};
use crate::state::{evolved, lemma_place_by_numbers, lemma_place_of, place_of, ProxyState};

verus! {

/// What happened while the proxy was shutting down.
#[derive(Clone, Copy, Debug, PartialEq, Eq, Structural)]
pub enum ShutdownEvent {
    /// All tracked work of the awaited lease is gone.
    WorkEnded,
    /// The deadline has passed.
    TimedOut,
}

/// What to do next to shut the proxy down.
#[derive(Clone, Copy, Debug, PartialEq, Eq, Structural)]
pub enum ShutdownAction {
    /// Wait for the tracked work of this lease to end.
    AwaitWork(u64),
    /// Every lease has closed, or not.
    Finish(bool),
}

/// A shutdown as far as it has come. The leases before `next` have closed.
#[derive(Debug)]
pub struct ShutdownWait {
    pub ids: Vec<u64>,
    pub next: usize,
}

/// What to do once the leases before `next` have closed.
pub open spec fn awaited(ids: Seq<u64>, next: int) -> ShutdownAction {
    if next < ids.len() {
        ShutdownAction::AwaitWork(ids[next])
    } else {
        ShutdownAction::Finish(true)
    }
}

/// Whether the work of a lease is certified to be gone: it owns no connection,
/// or it has been released already.
pub open spec fn workless(state: ProxyState, id: u64) -> bool {
    place_of(state.leases@, id) is None || state.drained(id)
}

/// Whether the shutdown comes one lease further.
pub open spec fn proceeds(
    state: ProxyState,
    ids: Seq<u64>,
    next: int,
    event: ShutdownEvent,
) -> bool {
    event == ShutdownEvent::WorkEnded && next < ids.len() && workless(state, ids[next])
}

/// The next action. A deadline that passes, or work that is not gone, ends the
/// shutdown without a certificate.
pub open spec fn shutdown_step(
    state: ProxyState,
    ids: Seq<u64>,
    next: int,
    event: ShutdownEvent,
) -> ShutdownAction {
    if proceeds(state, ids, next, event) {
        awaited(ids, next + 1)
    } else if event == ShutdownEvent::WorkEnded && next >= ids.len() {
        ShutdownAction::Finish(true)
    } else {
        ShutdownAction::Finish(false)
    }
}

/// The leases after a step: the awaited one has closed, if its work is gone.
pub open spec fn leases_closed(
    state: ProxyState,
    ids: Seq<u64>,
    next: int,
    event: ShutdownEvent,
) -> Seq<LeaseState> {
    if proceeds(state, ids, next, event) {
        state.leases_with(
            ids[next],
            |lease: LeaseState| LeaseState { phase: Phase::Closed, ..lease },
        )
    } else {
        state.leases@
    }
}

impl ShutdownWait {
    pub open spec fn well_formed(self) -> bool {
        self.next <= self.ids@.len()
    }

    /// Begin to shut the proxy down: nothing is attached any more, and every
    /// lease is revoked. The work of all of them is to be cancelled.
    pub fn begin(state: &mut ProxyState) -> (wait: Self)
        requires
            old(state).well_formed(),
        ensures
            wait.well_formed(),
            wait.next == 0,
            wait.ids@ == old(state).leases@.map_values(|lease: LeaseState| lease.id),
            final(state).well_formed(),
            evolved(old(state).leases@, final(state).leases@),
            *final(state) == (ProxyState {
                leases: final(state).leases,
                stopping: true,
                ..*old(state)
            }),
            final(state).leases@ == old(state).leases@.map_values(
                |lease: LeaseState| lease.closing(),
            ),
    {
        let ghost before = *state;
        let ids = state.begin_shutdown();
        assert forall|i: int| 0 <= i < ids@.len() implies ids@[i] == before.leases@[i].id by {
            assert(state.leases@[i] == before.leases@[i].closing());
        }
        assert(ids@ =~= before.leases@.map_values(|lease: LeaseState| lease.id));
        assert(state.leases@ =~= before.leases@.map_values(|lease: LeaseState| lease.closing()));
        ShutdownWait { ids, next: 0 }
    }

    /// What to do first.
    pub fn action(&self) -> (action: ShutdownAction)
        ensures
            action == awaited(self.ids@, self.next as int),
    {
        if self.next < self.ids.len() {
            ShutdownAction::AwaitWork(self.ids[self.next])
        } else {
            ShutdownAction::Finish(true)
        }
    }

    /// Take an event, and say what to do next.
    pub fn step(&mut self, state: &mut ProxyState, event: ShutdownEvent) -> (action: ShutdownAction)
        requires
            old(self).well_formed(),
            old(state).well_formed(),
        ensures
            final(self).well_formed(),
            final(self).ids == old(self).ids,
            final(self).next == (if proceeds(
                *old(state),
                old(self).ids@,
                old(self).next as int,
                event,
            ) {
                old(self).next + 1
            } else {
                old(self).next as int
            }),
            action == shutdown_step(*old(state), old(self).ids@, old(self).next as int, event),
            final(state).well_formed(),
            evolved(old(state).leases@, final(state).leases@),
            *final(state) == (ProxyState { leases: final(state).leases, ..*old(state) }),
            final(state).leases@ == leases_closed(
                *old(state),
                old(self).ids@,
                old(self).next as int,
                event,
            ),
    {
        match event {
            ShutdownEvent::TimedOut => ShutdownAction::Finish(false),
            ShutdownEvent::WorkEnded => {
                if self.next >= self.ids.len() {
                    return ShutdownAction::Finish(true);
                }
                let id: u64 = self.ids[self.next];
                if !state.is_unused(id) && !state.mark_closed(id) {
                    return ShutdownAction::Finish(false);
                }
                self.next = self.next + 1;
                self.action()
            },
        }
    }
}

/// Whether a lease has closed, or is gone.
pub open spec fn closed_or_gone(leases: Seq<LeaseState>, id: u64) -> bool {
    match place_of(leases, id) {
        Some(at) => leases[at].phase == Phase::Closed,
        None => true,
    }
}

/// A certificate of shutdown means that every lease has closed and owns no
/// connection: where the leases before the awaited one have closed, a step that
/// ends with a certificate leaves none that has not.
pub proof fn law_certified_shutdown_closes_every_lease(
    state: ProxyState,
    ids: Seq<u64>,
    next: int,
    event: ShutdownEvent,
    id: u64,
)
    requires
        state.well_formed(),
        0 <= next <= ids.len(),
        forall|k: int| 0 <= k < next ==> closed_or_gone(state.leases@, #[trigger] ids[k]),
        ids.contains(id),
        shutdown_step(state, ids, next, event) == ShutdownAction::Finish(true),
    ensures
        closed_or_gone(leases_closed(state, ids, next, event), id),
        ({
            let after = leases_closed(state, ids, next, event);
            place_of(after, id) is Some ==> after[place_of(after, id)->0].active() == 0
        }),
{
    let k = choose|k: int| 0 <= k < ids.len() && ids[k] == id;
    let after = leases_closed(state, ids, next, event);
    lemma_place_of(state.leases@, id);
    if next < ids.len() {
        lemma_place_of(state.leases@, ids[next]);
    }
    lemma_place_by_numbers(after, state.leases@, id);
}

/// What has closed stays closed: no step of a shutdown opens a lease that an
/// earlier step closed.
pub proof fn law_shutdown_never_reopens(
    state: ProxyState,
    ids: Seq<u64>,
    next: int,
    event: ShutdownEvent,
    id: u64,
)
    requires
        state.well_formed(),
        0 <= next <= ids.len(),
        closed_or_gone(state.leases@, id),
    ensures
        closed_or_gone(leases_closed(state, ids, next, event), id),
{
    lemma_place_of(state.leases@, id);
    if next < ids.len() {
        lemma_place_of(state.leases@, ids[next]);
    }
    lemma_place_by_numbers(leases_closed(state, ids, next, event), state.leases@, id);
}

/// Whether the runtime stops after a shutdown attempt: always where nobody can
/// retry, and otherwise only once the caller has seen the success.
pub fn shutdown_stops(success: bool, delivered: bool, retryable: bool) -> (stops: bool)
    ensures
        stops == (!retryable || (success && delivered)),
{
    !retryable || (success && delivered)
}

/// A shutdown awaits one lease after the other and leaves none out: where the
/// work of the awaited lease is gone it goes on to the next, and behind the last
/// it is certified. A deadline that passes, or work that is left, ends it
/// without a certificate.
pub proof fn law_shutdown_awaits_every_lease(state: ProxyState, ids: Seq<u64>, next: int)
    requires
        0 <= next < ids.len(),
    ensures
        awaited(ids, next) == ShutdownAction::AwaitWork(ids[next]),
        awaited(ids, ids.len() as int) == ShutdownAction::Finish(true),
        (place_of(state.leases@, ids[next]) is None || state.drained(ids[next])) ==> shutdown_step(
            state,
            ids,
            next,
            ShutdownEvent::WorkEnded,
        ) == (if next + 1 < ids.len() {
            ShutdownAction::AwaitWork(ids[next + 1])
        } else {
            ShutdownAction::Finish(true)
        }),
        !(place_of(state.leases@, ids[next]) is None || state.drained(ids[next])) ==> shutdown_step(
            state,
            ids,
            next,
            ShutdownEvent::WorkEnded,
        ) == ShutdownAction::Finish(false),
        shutdown_step(state, ids, next, ShutdownEvent::TimedOut) == ShutdownAction::Finish(false),
{
}

} // verus!
