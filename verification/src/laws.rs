//! What holds of every schedule: how many polls a run takes, in which order
//! tasks are served, and that the ready queue stays within its bound.

use crate::executor::{run_leaves, step_leaves};
use crate::hello::{Hello, HelloState};
use crate::queue::after_submits;
use crate::schedule::Schedule;
use crate::task::Task;
use vstd::prelude::*;

verus! {

/// `count` entries, all of them `task`.
pub open spec fn repeated(task: usize, count: nat) -> Seq<usize> {
    Seq::new(count, |i: int| task)
}

/// The number of wakes that a plan asks for over all its polls.
pub open spec fn total_wakes(plan: Seq<nat>) -> nat
    decreases plan.len(),
{
    if plan.len() == 0 {
        0
    } else {
        plan[0] + total_wakes(plan.drop_first())
    }
}

/// A run keeps the schedule well formed, keeps every task and the bound,
/// and ends with an empty queue.
pub proof fn lemma_run_wf(s: Schedule)
    requires
        s.wf(),
    ensures
        s.run().wf(),
        s.run().queue.len() == 0,
        s.run().capacity == s.capacity,
        s.run().plans.len() == s.plans.len(),
    decreases s.work(), s.queue.len(),
{
    if s.queue.len() > 0 {
        s.lemma_step_decreases();
        s.lemma_step_wf();
        lemma_run_wf(s.step());
    }
}

/// A computation that wakes its task exactly once at each pending poll is
/// polled once for each entry of its plan and once more for the poll that
/// reports the end, when it is the only task queued.  The run then ends with
/// the computation in its terminal state, whatever the bound of the queue.
pub proof fn lemma_one_wake_per_poll(s: Schedule, task: usize)
    requires
        s.wf(),
        s.queue == seq![task],
        forall|i: int| 0 <= i < s.plans[task as int].len() ==> s.plans[task as int][i] == 1,
    ensures
        s.trace() == repeated(task, s.plans[task as int].len() + 1),
        s.run().queue.len() == 0,
        s.run().plans == s.plans.update(task as int, Seq::empty()),
    decreases s.plans[task as int].len(),
{
    let plan = s.plans[task as int];
    let next = s.step();
    s.lemma_step_wf();
    if plan.len() == 0 {
        assert(plan =~= Seq::<nat>::empty());
        assert(next.trace() =~= Seq::<usize>::empty());
        assert(next.run() == next);
    } else {
        assert(next.queue =~= seq![task]);
        lemma_one_wake_per_poll(next, task);
    }
}

/// Two wakes during one pending poll put the task on the queue twice, behind
/// whatever was waiting, when the queue has room for both.
pub proof fn lemma_two_wakes_two_entries(s: Schedule)
    requires
        s.wf(),
        s.queue.len() > 0,
        s.queue.len() < s.capacity,
        s.plans[s.queue[0] as int].len() > 0,
        s.plans[s.queue[0] as int][0] == 2,
    ensures
        s.step().queue == s.queue.drop_first().push(s.queue[0]).push(s.queue[0]),
{
    let task = s.queue[0];
    assert(after_submits(s.queue.drop_first(), s.capacity, task, 2) =~= s.queue.drop_first().push(
        task,
    ).push(task));
}

/// Every wake is answered by exactly one poll: a task that is queued `q`
/// times and whose computation wakes it at least once at each pending poll
/// is polled `q` times and once more for each wake it asks for, when no
/// other task is queued and the queue never runs full.  Polls that come
/// after the end change nothing: the run ends with the computation in its
/// terminal state.
pub proof fn lemma_every_wake_is_polled(s: Schedule, task: usize)
    requires
        s.wf(),
        s.queue.len() > 0,
        s.queue == repeated(task, s.queue.len()),
        forall|i: int| 0 <= i < s.plans[task as int].len() ==> s.plans[task as int][i] >= 1,
        s.queue.len() + total_wakes(s.plans[task as int]) <= s.capacity + 1,
    ensures
        s.trace() == repeated(task, s.queue.len() + total_wakes(s.plans[task as int])),
        s.run().queue.len() == 0,
        s.run().plans == s.plans.update(task as int, Seq::empty()),
    decreases s.plans[task as int].len(), s.queue.len(),
{
    let plan = s.plans[task as int];
    let next = s.step();
    let rest = s.queue.drop_first();
    assert(rest =~= repeated(task, (s.queue.len() - 1) as nat));
    s.lemma_step_wf();
    if plan.len() == 0 {
        assert(plan =~= Seq::<nat>::empty());
        if rest.len() == 0 {
            assert(next.trace() =~= Seq::<usize>::empty());
            assert(next.run() == next);
        } else {
            lemma_every_wake_is_polled(next, task);
        }
    } else {
        let wakes = plan[0];
        assert(next.queue =~= repeated(task, (s.queue.len() - 1 + wakes) as nat));
        lemma_every_wake_is_polled(next, task);
    }
}

/// First ready, first served: the tasks that are queued are polled before
/// anything that is queued later, in the order in which they stand.
pub proof fn lemma_queue_served_first(s: Schedule)
    ensures
        s.queue.len() <= s.trace().len(),
        s.trace().subrange(0, s.queue.len() as int) == s.queue,
    decreases s.work(), s.queue.len(),
{
    if s.queue.len() > 0 {
        s.lemma_step_decreases();
        let next = s.step();
        lemma_queue_served_first(next);
        let served = next.trace().subrange(0, next.queue.len() as int);
        assert forall|i: int| 0 < i < s.queue.len() implies s.trace()[i] == s.queue[i] by {
            assert(served[i - 1] == next.queue[i - 1]);
        }
    }
}

/// Of two tasks that wait in the queue, the one that stands first has its
/// first poll first: if `first` occurs for the first time at the place
/// `i` and `second` for the first time at a later place `j`, then the poll
/// number `i` is the first poll of `first`, and `second` is not polled before
/// the poll number `j`.
pub proof fn lemma_first_polls_in_order(s: Schedule, i: int, j: int)
    requires
        0 <= i < j < s.queue.len(),
        forall|k: int| 0 <= k < i ==> s.queue[k] != s.queue[i],
        forall|k: int| 0 <= k < j ==> s.queue[k] != s.queue[j],
    ensures
        j < s.trace().len(),
        s.trace()[i] == s.queue[i],
        s.trace()[j] == s.queue[j],
        forall|k: int| 0 <= k < i ==> s.trace()[k] != s.queue[i],
        forall|k: int| 0 <= k < j ==> s.trace()[k] != s.queue[j],
{
    lemma_queue_served_first(s);
    let served = s.trace().subrange(0, s.queue.len() as int);
    assert forall|k: int| 0 <= k < s.queue.len() implies s.trace()[k] == s.queue[k] by {
        assert(served[k] == s.queue[k]);
    }
}

/// Spawned first, polled first: of two computations that are spawned one
/// after the other, the first has its first poll right after the tasks that
/// were waiting already, and the second has its first poll right after that.
pub proof fn lemma_spawn_order_is_poll_order(s: Schedule, first: Seq<nat>, second: Seq<nat>)
    requires
        s.wf(),
        s.queue.len() + 2 <= s.capacity,
        s.plans.len() + 2 <= usize::MAX,
    ensures
        ({
            let both = s.spawn(first).spawn(second);
            let waiting = s.queue.len() as int;
            &&& both.wf()
            &&& waiting + 2 <= both.trace().len()
            &&& both.trace()[waiting] == s.plans.len()
            &&& both.trace()[waiting + 1] == s.plans.len() + 1
            &&& forall|k: int| 0 <= k < waiting ==> both.trace()[k] < s.plans.len()
        }),
{
    let both = s.spawn(first).spawn(second);
    let waiting = s.queue.len() as int;
    lemma_queue_served_first(both);
    let served = both.trace().subrange(0, both.queue.len() as int);
    assert forall|k: int| 0 <= k < both.queue.len() implies both.trace()[k] == both.queue[k] by {
        assert(served[k] == both.queue[k]);
    }
}

/// The greeting on its own: when a greeting that has written nothing is the
/// one task queued, a run polls it three times, the greeting ends in `End`
/// with `"Hello, "` and `"World!\n"` added to what it had written, in that
/// order, and no other task changes.
pub proof fn lemma_greeting_alone(
    before: Seq<Task<Hello>>,
    s: Schedule,
    task: usize,
    after: Seq<Task<Hello>>,
)
    requires
        s.wf(),
        s.queue == seq![task],
        before.len() == s.plans.len(),
        s.plans[task as int] == before[task as int].plan(),
        before[task as int].spec_computation().state() == HelloState::Hello,
        run_leaves(before, s, after),
    ensures
        s.trace() == repeated(task, 3),
        after.len() == before.len(),
        after[task as int].id() == before[task as int].id(),
        after[task as int].spec_computation().state() == HelloState::End,
        after[task as int].spec_computation().written() == before[task as int]
            .spec_computation().written().push("Hello, ").push("World!\n"),
        forall|i: int| 0 <= i < before.len() && i != task ==> after[i] == before[i],
{
    lemma_one_wake_per_poll(s, task);
    let first = s.step();
    let one = choose|between: Seq<Task<Hello>>|
        step_leaves(before, s, between) && run_leaves(between, first, after);
    let second = first.step();
    let two = choose|between: Seq<Task<Hello>>|
        step_leaves(one, first, between) && run_leaves(between, second, after);
    let third = second.step();
    assert(exists|between: Seq<Task<Hello>>|
        step_leaves(two, second, between) && run_leaves(between, third, after));
}

} // verus!
