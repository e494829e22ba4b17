//! The mathematical state of an executor and what polling does to it.

use crate::computation::{plan_after_poll, wakes_due};
use crate::queue::after_submits;
use vstd::prelude::*;

verus! {

/// The state of an executor as far as scheduling goes.
pub struct Schedule {
    /// The plan of every task ever spawned, by task number.
    pub plans: Seq<Seq<nat>>,
    /// The ready queue, the next task to be polled first.
    pub queue: Seq<usize>,
    /// The bound of the ready queue.
    pub capacity: nat,
}

/// The number of entries in all of `plans` together.
pub open spec fn total_len(plans: Seq<Seq<nat>>) -> nat
    decreases plans.len(),
{
    if plans.len() == 0 {
        0
    } else {
        total_len(plans.drop_last()) + plans.last().len()
    }
}

/// Replacing one plan changes the total by the difference of the lengths.
pub proof fn lemma_total_len_update(plans: Seq<Seq<nat>>, task: int, plan: Seq<nat>)
    requires
        0 <= task < plans.len(),
    ensures
        total_len(plans.update(task, plan)) + plans[task].len() == total_len(plans) + plan.len(),
    decreases plans.len(),
{
    let updated = plans.update(task, plan);
    if task == plans.len() - 1 {
        assert(updated.drop_last() =~= plans.drop_last());
    } else {
        assert(updated.drop_last() =~= plans.drop_last().update(task, plan));
        lemma_total_len_update(plans.drop_last(), task, plan);
    }
}

impl Schedule {
    /// The queue is within its bound and names only tasks that exist.
    pub open spec fn wf(self) -> bool {
        &&& self.queue.len() <= self.capacity
        &&& forall|i: int|
            0 <= i < self.queue.len() ==> (#[trigger] self.queue[i]) < self.plans.len()
    }

    /// A schedule with no task and an empty queue of the given bound.
    pub open spec fn empty(capacity: nat) -> Schedule {
        Schedule { plans: Seq::empty(), queue: Seq::empty(), capacity }
    }

    /// Whether a submission would be refused.
    pub open spec fn is_full(self) -> bool {
        self.queue.len() >= self.capacity
    }

    /// The schedule after a computation with the plan `plan` was spawned
    /// while there was room: it is the newest task and the last in the queue.
    pub open spec fn spawn(self, plan: Seq<nat>) -> Schedule {
        Schedule {
            plans: self.plans.push(plan),
            queue: self.queue.push(self.plans.len() as usize),
            capacity: self.capacity,
        }
    }

    /// The schedule after the task at the front of the queue was taken off
    /// and polled once.  Each wake that the poll asks for puts the task at
    /// the back of the queue, as long as there is room.  With an empty queue
    /// nothing happens.  An entry that names no task is taken off and nothing
    /// else: a well-formed schedule has none.
    pub open spec fn step(self) -> Schedule {
        if self.queue.len() == 0 {
            self
        } else {
            let task = self.queue[0];
            if task < self.plans.len() {
                Schedule {
                    plans: self.plans.update(task as int, plan_after_poll(self.plans[task as int])),
                    queue: after_submits(
                        self.queue.drop_first(),
                        self.capacity,
                        task,
                        wakes_due(self.plans[task as int]),
                    ),
                    capacity: self.capacity,
                }
            } else {
                Schedule {
                    plans: self.plans,
                    queue: self.queue.drop_first(),
                    capacity: self.capacity,
                }
            }
        }
    }

    /// The number of plan entries that no poll has consumed yet.
    pub open spec fn work(self) -> nat {
        total_len(self.plans)
    }

    /// The schedule that is left when the queue has been served until it is
    /// empty.
    pub open spec fn run(self) -> Schedule
        decreases self.work(), self.queue.len(),
    {
        if self.queue.len() == 0 {
            self
        } else {
            proof {
                self.lemma_step_decreases();
            }
            self.step().run()
        }
    }

    /// The tasks polled while the queue is served until it is empty, in the
    /// order of their polls.
    pub open spec fn trace(self) -> Seq<usize>
        decreases self.work(), self.queue.len(),
    {
        if self.queue.len() == 0 {
            Seq::empty()
        } else {
            proof {
                self.lemma_step_decreases();
            }
            seq![self.queue[0]] + self.step().trace()
        }
    }

    /// A poll either consumes a plan entry or, in the terminal state, leaves
    /// the plans alone and shortens the queue.
    pub proof fn lemma_step_decreases(self)
        requires
            self.queue.len() > 0,
        ensures
            self.step().work() < self.work() || (self.step().work() == self.work()
                && self.step().queue.len() < self.queue.len()),
    {
        let task = self.queue[0];
        if task < self.plans.len() {
            let plan = self.plans[task as int];
            lemma_total_len_update(self.plans, task as int, plan_after_poll(plan));
        }
    }

    /// Polling keeps the queue within its bound and among the known tasks.
    pub proof fn lemma_step_wf(self)
        requires
            self.wf(),
        ensures
            self.step().wf(),
            self.step().capacity == self.capacity,
            self.step().plans.len() == self.plans.len(),
    {
    }
}

} // verus!
