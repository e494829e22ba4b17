//! The schedulable unit: a computation together with the number under which
//! the ready queue knows it.

use crate::computation::{plan_after_poll, poll_outcome, wakes_due, PollResult, Resumable};
use crate::notifier::WakeNotifier;
use crate::queue::{after_submits, room, ReadyQueue};
use vstd::prelude::*;

verus! {

/// A task: one resumable computation and the number that is queued and
/// dequeued in its place.
pub struct Task<C> {
    id: usize,
    computation: C,
}

impl<C: Resumable> Task<C> {
    /// The number by which the ready queue names the task.
    pub closed spec fn spec_id(&self) -> usize {
        self.id
    }

    /// The computation that the task wraps.
    pub closed spec fn spec_computation(&self) -> C {
        self.computation
    }

    /// What is left of the computation.
    pub open spec fn plan(&self) -> Seq<nat> {
        self.spec_computation().plan()
    }

    /// Wraps `computation` as the task number `id`.
    pub fn new(id: usize, computation: C) -> (task: Task<C>)
        ensures
            task.id() == id,
            task.spec_computation() == computation,
    {
        Task { id, computation }
    }

    /// The number by which the ready queue names the task.
    #[verifier::when_used_as_spec(spec_id)]
    pub fn id(&self) -> (id: usize)
        ensures
            id == self.id(),
    {
        self.id
    }

    /// The computation that the task wraps.
    pub fn computation(&self) -> (computation: &C)
        ensures
            *computation == self.spec_computation(),
    {
        &self.computation
    }

    /// Polls the computation once, with a wake notifier that is bound to
    /// the task and submits to `queue`.
    ///
    /// The task is not put back on the queue by the poll itself: it comes
    /// back only as often as the computation wakes it.
    pub fn poll(&mut self, queue: &mut ReadyQueue) -> (result: PollResult)
        ensures
            final(queue).capacity() == old(queue).capacity(),
            final(queue)@ == after_submits(
                old(queue)@,
                old(queue).capacity() as nat,
                old(self).id(),
                wakes_due(old(self).plan()),
            ),
            final(self).id() == old(self).id(),
            final(self).plan() == plan_after_poll(old(self).plan()),
            old(self).spec_computation().poll_leaves(
                room(old(queue)@.len(), old(queue).capacity() as nat),
                &final(self).spec_computation(),
            ),
            result == poll_outcome(old(self).plan()),
    {
        let mut lent = ReadyQueue::new(0);
        core::mem::swap(queue, &mut lent);
        let mut notifier = WakeNotifier::new(self.id, lent);
        let result = self.computation.poll(&mut notifier);
        *queue = notifier.into_queue();
        result
    }
}

} // verus!
