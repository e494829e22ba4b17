//! The capability by which a pending computation asks to be polled again.

use crate::queue::{after_submits, lemma_one_submit, room, ReadyQueue, SubmitError};
use vstd::prelude::*;

verus! {

/// A wake notifier: the producer side of the ready queue, bound to one task.
///
/// It is made for one poll of that task and holds the queue for as long as
/// the poll lasts.  Its one operation, [`WakeNotifier::wake`], submits the
/// task once more.  It keeps no count and removes no duplicates: two wakes
/// are two entries.
pub struct WakeNotifier {
    task: usize,
    queue: ReadyQueue,
}

impl WakeNotifier {
    /// The task that a wake submits.
    pub closed spec fn spec_task(&self) -> usize {
        self.task
    }

    /// The entries of the queue it submits to.
    pub closed spec fn queue(&self) -> Seq<usize> {
        self.queue@
    }

    /// The bound of the queue it submits to.
    pub closed spec fn capacity(&self) -> nat {
        self.queue.capacity() as nat
    }

    /// The number of wakes that it can still pass on before the queue is at
    /// its bound.
    pub open spec fn room(&self) -> nat {
        room(self.queue().len(), self.capacity())
    }

    /// Binds `queue` to `task` for the length of one poll.
    pub fn new(task: usize, queue: ReadyQueue) -> (notifier: WakeNotifier)
        ensures
            notifier.task() == task,
            notifier.queue() == queue@,
            notifier.capacity() == queue.capacity(),
    {
        WakeNotifier { task, queue }
    }

    /// Gives the queue back when the poll is over.
    pub fn into_queue(self) -> (queue: ReadyQueue)
        ensures
            queue@ == self.queue(),
            queue.capacity() == self.capacity(),
    {
        self.queue
    }

    /// The task that a wake submits.
    #[verifier::when_used_as_spec(spec_task)]
    pub fn task(&self) -> (task: usize)
        ensures
            task == self.task(),
    {
        self.task
    }

    /// Submits the bound task to the ready queue: one more entry at the
    /// back, or `Err(SubmitError::Full)` and no change when the queue is at
    /// its bound.  Every call counts for itself, whether the task is queued
    /// already or not.
    pub fn wake(&mut self) -> (result: Result<(), SubmitError>)
        ensures
            final(self).task() == old(self).task(),
            final(self).capacity() == old(self).capacity(),
            final(self).queue() == after_submits(
                old(self).queue(),
                old(self).capacity(),
                old(self).task(),
                1,
            ),
            old(self).room() > 0 ==> {
                &&& result == Ok::<(), SubmitError>(())
                &&& final(self).queue() == old(self).queue().push(old(self).task())
            },
            old(self).room() == 0 ==> {
                &&& result == Err::<(), SubmitError>(SubmitError::Full)
                &&& final(self).queue() == old(self).queue()
            },
    {
        proof {
            lemma_one_submit(self.queue(), self.capacity(), self.task());
        }
        self.queue.submit(self.task)
    }
}

} // verus!
