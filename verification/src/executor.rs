//! The executor and the handle through which computations are given to it.

use crate::computation::{poll_outcome, PollResult, Resumable};
use crate::queue::{room, ReadyQueue, SubmitError};
use crate::schedule::Schedule;
use crate::task::Task;
use vstd::prelude::*;

verus! {

/// The bound of the ready queue of an executor made by [`Executor::new`].
pub const DEFAULT_CAPACITY: usize = 1024;

/// The producer side of an executor: the table of its tasks and its ready
/// queue.
///
/// An executor lends it out through [`Executor::get_spawner`].  Whoever
/// holds it can add tasks and nothing else.  The loan ends before the
/// executor can run, so a running executor has no producer left but the
/// wake notifier of the task that it is polling.
pub struct Spawner<C> {
    tasks: Vec<Task<C>>,
    queue: ReadyQueue,
}

/// What one step of an executor did.
#[derive(Clone, Copy, Debug, PartialEq, Eq, Structural)]
pub struct Polled {
    /// The task that was polled.
    pub task: usize,
    /// What its poll reported.
    pub result: PollResult,
}

/// A cooperative executor: it owns the ready queue, takes one task after the
/// other off it and polls each once.
pub struct Executor<C> {
    spawner: Spawner<C>,
}

/// Whether `after` are the tasks that are left of `before` when the task at
/// the front of the queue of `schedule` has been polled once: that task went
/// through one poll, with the room that the queue had once the task was
/// taken off, and no other task changed.
pub open spec fn step_leaves<C: Resumable>(
    before: Seq<Task<C>>,
    schedule: Schedule,
    after: Seq<Task<C>>,
) -> bool {
    if schedule.queue.len() == 0 {
        after == before
    } else {
        let task = schedule.queue[0] as int;
        &&& after.len() == before.len()
        &&& forall|i: int| 0 <= i < before.len() && i != task ==> after[i] == before[i]
        &&& task < before.len() ==> {
            &&& after[task].id() == before[task].id()
            &&& before[task].spec_computation().poll_leaves(
                room((schedule.queue.len() - 1) as nat, schedule.capacity),
                &after[task].spec_computation(),
            )
        }
    }
}

/// Whether `after` are the tasks that are left of `before` when the queue of
/// `schedule` has been served until it is empty, one poll after the other.
pub open spec fn run_leaves<C: Resumable>(
    before: Seq<Task<C>>,
    schedule: Schedule,
    after: Seq<Task<C>>,
) -> bool
    decreases schedule.work(), schedule.queue.len(),
{
    if schedule.queue.len() == 0 {
        after == before
    } else {
        proof {
            schedule.lemma_step_decreases();
        }
        exists|between: Seq<Task<C>>|
            step_leaves(before, schedule, between) && run_leaves(between, schedule.step(), after)
    }
}

impl<C: Resumable> Spawner<C> {
    /// Every task sits at its own number, and the queue is within its bound
    /// and names only tasks of the table.
    pub open spec fn wf(&self) -> bool {
        &&& self@.wf()
        &&& forall|i: int| 0 <= i < self.tasks().len() ==> (#[trigger] self.tasks()[i]).id() == i
    }

    /// The tasks spawned so far, by number.
    pub closed spec fn tasks(&self) -> Seq<Task<C>> {
        self.tasks@
    }

    /// The entries of the ready queue.
    pub closed spec fn queue(&self) -> Seq<usize> {
        self.queue@
    }

    /// The bound of the ready queue.
    pub closed spec fn capacity(&self) -> nat {
        self.queue.capacity() as nat
    }

    /// The schedule: the plan of every task, the queue and its bound.
    pub open spec fn view(&self) -> Schedule {
        Schedule {
            plans: Seq::new(self.tasks().len(), |i: int| self.tasks()[i].plan()),
            queue: self.queue(),
            capacity: self.capacity(),
        }
    }

    /// Wraps `computation` in a new task and submits that task once.
    ///
    /// When the ready queue is at its bound the computation is refused with
    /// `Err(SubmitError::Full)` and nothing changes.  Otherwise the new task
    /// gets the next free number and is the last entry of the queue.
    pub fn spawn(&mut self, computation: C) -> (result: Result<(), SubmitError>)
        ensures
            old(self).wf() ==> final(self).wf(),
            old(self)@.is_full() ==> {
                &&& result == Err::<(), SubmitError>(SubmitError::Full)
                &&& final(self)@ == old(self)@
                &&& final(self).tasks() == old(self).tasks()
            },
            !old(self)@.is_full() ==> {
                &&& result == Ok::<(), SubmitError>(())
                &&& final(self)@ == old(self)@.spawn(computation.plan())
                &&& final(self).tasks().len() == old(self).tasks().len() + 1
                &&& final(self).tasks().drop_last() == old(self).tasks()
                &&& final(self).tasks().last().id() == old(self).tasks().len()
                &&& final(self).tasks().last().spec_computation() == computation
            },
    {
        if self.queue.is_full() {
            return Err(SubmitError::Full);
        }
        let id: usize = self.tasks.len();
        self.tasks.push(Task::new(id, computation));
        let result = self.queue.submit(id);
        proof {
            assert(final(self)@.plans =~= old(self)@.plans.push(computation.plan()));
        }
        result
    }
}

impl<C: Resumable> Executor<C> {
    /// The producer side as a value.
    pub closed spec fn spawner(&self) -> Spawner<C> {
        self.spawner
    }

    /// The executor's tasks and queue are well formed.
    pub open spec fn wf(&self) -> bool {
        self.spawner().wf()
    }

    /// The tasks spawned so far, by number.
    pub open spec fn tasks(&self) -> Seq<Task<C>> {
        self.spawner().tasks()
    }

    /// The schedule: the plan of every task, the queue and its bound.
    pub open spec fn view(&self) -> Schedule {
        self.spawner()@
    }

    /// An executor with no task and an empty ready queue that holds at most
    /// `DEFAULT_CAPACITY` entries.
    pub fn new() -> (executor: Executor<C>)
        ensures
            executor.wf(),
            executor@ == Schedule::empty(DEFAULT_CAPACITY as nat),
            executor.tasks() == Seq::<Task<C>>::empty(),
    {
        Executor::with_capacity(DEFAULT_CAPACITY)
    }

    /// An executor with no task and an empty ready queue that holds at most
    /// `capacity` entries.
    pub fn with_capacity(capacity: usize) -> (executor: Executor<C>)
        ensures
            executor.wf(),
            executor@ == Schedule::empty(capacity as nat),
            executor.tasks() == Seq::<Task<C>>::empty(),
    {
        let executor = Executor {
            spawner: Spawner { tasks: Vec::new(), queue: ReadyQueue::new(capacity) },
        };
        proof {
            assert(executor@.plans =~= Seq::<Seq<nat>>::empty());
        }
        executor
    }

    /// The bound of the ready queue.
    pub fn capacity(&self) -> (capacity: usize)
        ensures
            capacity == self@.capacity,
    {
        self.spawner.queue.capacity()
    }

    /// The number of tasks spawned so far.
    pub fn task_count(&self) -> (count: usize)
        ensures
            count == self.tasks().len(),
    {
        self.spawner.tasks.len()
    }

    /// The number of entries that wait in the ready queue.
    pub fn ready_count(&self) -> (count: usize)
        ensures
            count == self@.queue.len(),
    {
        self.spawner.queue.len()
    }

    /// The task number `id`, if there is one.
    pub fn task(&self, id: usize) -> (task: Option<&Task<C>>)
        ensures
            id < self.tasks().len() ==> task == Some(&self.tasks()[id as int]),
            id >= self.tasks().len() ==> task == None::<&Task<C>>,
    {
        if id < self.spawner.tasks.len() {
            Some(&self.spawner.tasks[id])
        } else {
            None
        }
    }

    /// Lends out the producer side.  What the holder makes of it is what the
    /// executor is left with.
    pub fn get_spawner(&mut self) -> (spawner: &mut Spawner<C>)
        ensures
            *spawner == old(self).spawner(),
            final(self).spawner() == *final(spawner),
    {
        &mut self.spawner
    }

    /// Takes the task at the front of the ready queue and polls it once.
    ///
    /// With an empty queue nothing happens and the result is `None`.  No
    /// other task is touched, and the polled task returns to the queue only
    /// through the wakes that its computation asked for.
    pub fn step(&mut self) -> (polled: Option<Polled>)
        requires
            old(self).wf(),
        ensures
            final(self).wf(),
            final(self)@ == old(self)@.step(),
            step_leaves(old(self).tasks(), old(self)@, final(self).tasks()),
            old(self)@.queue.len() == 0 ==> polled == None::<Polled>,
            old(self)@.queue.len() > 0 ==> polled == Some(
                (Polled {
                    task: old(self)@.queue[0],
                    result: poll_outcome(old(self)@.plans[old(self)@.queue[0] as int]),
                }),
            ),
    {
        match self.spawner.queue.pop() {
            None => None,
            Some(task) => {
                let result = self.spawner.tasks[task].poll(&mut self.spawner.queue);
                proof {
                    assert(final(self)@.plans =~= old(self)@.step().plans);
                }
                Some(Polled { task, result })
            },
        }
    }

    /// Serves the ready queue until it is empty and returns the number of
    /// polls that this took, or `usize::MAX` if there were more.
    ///
    /// While the executor runs nobody but the task being polled can submit,
    /// so an empty queue is a queue that stays empty: the run ends there.  A
    /// task that was not woken is left as it stands, finished or not.
    pub fn run(&mut self) -> (polls: usize)
        requires
            old(self).wf(),
        ensures
            final(self).wf(),
            final(self)@ == old(self)@.run(),
            final(self)@.queue.len() == 0,
            run_leaves(old(self).tasks(), old(self)@, final(self).tasks()),
            final(self).tasks().len() == old(self).tasks().len(),
            old(self)@.trace().len() <= usize::MAX ==> polls == old(self)@.trace().len(),
            old(self)@.trace().len() > usize::MAX ==> polls == usize::MAX,
            forall|i: int|
                0 <= i < old(self).tasks().len() && !old(self)@.trace().contains(i as usize)
                    ==> final(self).tasks()[i] == old(self).tasks()[i],
    {
        let mut polls: usize = 0;
        let ghost mut served: Seq<usize> = Seq::empty();
        while !self.spawner.queue.is_empty()
            invariant
                self.wf(),
                self@.run() == old(self)@.run(),
                forall|end: Seq<Task<C>>| #[trigger]
                    run_leaves(self.tasks(), self@, end) ==> run_leaves(
                        old(self).tasks(),
                        old(self)@,
                        end,
                    ),
                old(self)@.trace() == served + self@.trace(),
                self.tasks().len() == old(self).tasks().len(),
                served.len() <= usize::MAX ==> polls == served.len(),
                served.len() > usize::MAX ==> polls == usize::MAX,
                forall|i: int|
                    0 <= i < old(self).tasks().len() && !served.contains(i as usize)
                        ==> self.tasks()[i] == old(self).tasks()[i],
            decreases self@.work(), self@.queue.len(),
        {
            let ghost before = self@;
            let ghost tasks_before = self.tasks();
            proof {
                before.lemma_step_decreases();
            }
            let _ = self.step();
            if polls < usize::MAX {
                polls = polls + 1;
            }
            proof {
                let task = before.queue[0];
                let longer = served.push(task);
                assert forall|i: int|
                    0 <= i < old(self).tasks().len() && !longer.contains(
                        i as usize,
                    ) implies self.tasks()[i] == old(self).tasks()[i] by {
                    assert(longer[served.len() as int] == task);
                    if served.contains(i as usize) {
                        let k = choose|k: int| 0 <= k < served.len() && served[k] == i as usize;
                        assert(longer[k] == i as usize);
                    }
                }
                assert forall|end: Seq<Task<C>>| #[trigger]
                    run_leaves(self.tasks(), self@, end) implies run_leaves(
                    old(self).tasks(),
                    old(self)@,
                    end,
                ) by {
                    assert(run_leaves(tasks_before, before, end));
                }
                served = longer;
            }
        }
        proof {
            assert(run_leaves(self.tasks(), self@, self.tasks()));
        }
        polls
    }
}

} // verus!
