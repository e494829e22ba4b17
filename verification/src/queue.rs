//! The bounded first-in first-out queue of tasks that are ready to be polled.

use std::collections::VecDeque;
use vstd::prelude::*;

verus! {

/// Why a task was not put on the ready queue.
///
/// A producer reaches the queue only through the executor that owns it, so
/// the queue is never gone while somebody submits.  The one refusal there is
/// says that the queue is at its bound.
#[derive(Clone, Copy, Debug, PartialEq, Eq, Structural)]
pub enum SubmitError {
    /// The queue already holds as many entries as its bound allows.
    Full,
}

/// How many more entries a queue with `len` entries and the bound `capacity`
/// accepts.
pub open spec fn room(len: nat, capacity: nat) -> nat {
    if len >= capacity {
        0
    } else {
        (capacity - len) as nat
    }
}

/// How many of `wakes` submissions in a row a queue with room for `room`
/// entries accepts: all of them while there is room, and no more.
pub open spec fn granted(room: nat, wakes: nat) -> nat {
    if wakes <= room {
        wakes
    } else {
        room
    }
}

/// The contents of a queue that held `queue` after `wakes` submissions of
/// `task` in a row: one new entry at the back for each accepted submission.
pub open spec fn after_submits(queue: Seq<usize>, capacity: nat, task: usize, wakes: nat) -> Seq<
    usize,
> {
    queue + Seq::new(granted(room(queue.len(), capacity), wakes), |i: int| task)
}

/// Submitting nothing leaves the queue as it is.
pub proof fn lemma_no_submit(queue: Seq<usize>, capacity: nat, task: usize)
    ensures
        after_submits(queue, capacity, task, 0) == queue,
{
}

/// One submission appends the task when there is room and changes nothing
/// when there is none.
pub proof fn lemma_one_submit(queue: Seq<usize>, capacity: nat, task: usize)
    ensures
        queue.len() < capacity ==> after_submits(queue, capacity, task, 1) == queue.push(task),
        queue.len() >= capacity ==> after_submits(queue, capacity, task, 1) == queue,
{
}

/// Submitting `first` times and then `second` times is submitting
/// `first + second` times.
pub proof fn lemma_submits_add(
    queue: Seq<usize>,
    capacity: nat,
    task: usize,
    first: nat,
    second: nat,
)
    ensures
        after_submits(after_submits(queue, capacity, task, first), capacity, task, second)
            == after_submits(queue, capacity, task, first + second),
{
    assert(after_submits(after_submits(queue, capacity, task, first), capacity, task, second)
        =~= after_submits(queue, capacity, task, first + second));
}

/// A bounded queue of task numbers, served in arrival order.
pub struct ReadyQueue {
    entries: VecDeque<usize>,
    bound: usize,
}

impl ReadyQueue {
    /// The queued task numbers, the next one to be served first.
    pub closed spec fn view(&self) -> Seq<usize> {
        self.entries@
    }

    /// The largest number of entries the queue holds at a time.
    pub closed spec fn spec_capacity(&self) -> usize {
        self.bound
    }

    /// The queue holds no more entries than its bound allows.  A new queue
    /// does, and neither submitting nor taking changes that.
    pub open spec fn wf(&self) -> bool {
        self@.len() <= self.capacity()
    }

    /// An empty queue that holds at most `capacity` entries.
    pub fn new(capacity: usize) -> (queue: ReadyQueue)
        ensures
            queue@ == Seq::<usize>::empty(),
            queue.capacity() == capacity,
    {
        ReadyQueue { entries: VecDeque::new(), bound: capacity }
    }

    /// The bound that the queue was made with.
    #[verifier::when_used_as_spec(spec_capacity)]
    pub fn capacity(&self) -> (capacity: usize)
        ensures
            capacity == self.capacity(),
    {
        self.bound
    }

    /// The number of queued entries.
    pub fn len(&self) -> (len: usize)
        ensures
            len == self@.len(),
    {
        self.entries.len()
    }

    /// Whether nothing is queued.
    pub fn is_empty(&self) -> (empty: bool)
        ensures
            empty <==> self@.len() == 0,
    {
        self.entries.len() == 0
    }

    /// Whether the next submission will be refused.
    pub fn is_full(&self) -> (full: bool)
        ensures
            full <==> self@.len() >= self.capacity(),
    {
        self.entries.len() >= self.bound
    }

    /// Puts `task` at the back of the queue, or refuses it when the queue is
    /// at its bound.  A refused submission changes nothing, and no
    /// submission waits for room.
    pub fn submit(&mut self, task: usize) -> (result: Result<(), SubmitError>)
        ensures
            final(self).capacity() == old(self).capacity(),
            old(self)@.len() < old(self).capacity() ==> {
                &&& result == Ok::<(), SubmitError>(())
                &&& final(self)@ == old(self)@.push(task)
            },
            old(self)@.len() >= old(self).capacity() ==> {
                &&& result == Err::<(), SubmitError>(SubmitError::Full)
                &&& final(self)@ == old(self)@
            },
    {
        if self.entries.len() < self.bound {
            self.entries.push_back(task);
            Ok(())
        } else {
            Err(SubmitError::Full)
        }
    }

    /// Takes the entry at the front of the queue, if there is one.
    pub fn pop(&mut self) -> (front: Option<usize>)
        ensures
            final(self).capacity() == old(self).capacity(),
            old(self)@.len() == 0 ==> front == None::<usize> && final(self)@ == old(self)@,
            old(self)@.len() > 0 ==> front == Some(old(self)@[0]) && final(self)@ == old(
                self,
            )@.drop_first(),
    {
        self.entries.pop_front()
    }
}

} // verus!
