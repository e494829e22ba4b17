//! What the executor asks of the computations it drives.

use crate::notifier::WakeNotifier;
use crate::queue::after_submits;
use vstd::prelude::*;

verus! {

/// What one poll of a computation reports.
#[derive(Clone, Copy, Debug, PartialEq, Eq, Structural)]
pub enum PollResult {
    /// Not finished yet.  The computation has asked for whatever wake it
    /// needs in order to be polled again.
    Pending,
    /// Finished.  The computation has nothing more to do.
    Final,
}

/// The number of wakes that the next poll of a computation with the plan
/// `plan` asks for.
pub open spec fn wakes_due(plan: Seq<nat>) -> nat {
    if plan.len() == 0 {
        0
    } else {
        plan[0]
    }
}

/// The plan that is left after one poll of a computation with the plan
/// `plan`.
pub open spec fn plan_after_poll(plan: Seq<nat>) -> Seq<nat> {
    if plan.len() == 0 {
        plan
    } else {
        plan.drop_first()
    }
}

/// What a poll of a computation with the plan `plan` reports.
pub open spec fn poll_outcome(plan: Seq<nat>) -> PollResult {
    if plan.len() == 0 {
        PollResult::Final
    } else {
        PollResult::Pending
    }
}

/// A resumable computation: a unit of work that is advanced by polling it.
///
/// A computation moves through a finite progression of internal states that
/// ends in one terminal state.  Each poll takes it one step along, and the
/// computation alone decides whether it is polled again: the executor puts
/// nothing back on the queue that was not woken.
pub trait Resumable {
    /// What is left of the progression: one entry for each poll that will
    /// still be answered `Pending`, holding the number of times that poll
    /// calls `wake`.  The plan is empty in the terminal state.
    ///
    /// An entry of zero is a poll that parks the computation: nothing in
    /// this library will poll it again.  An entry above one asks for polls
    /// that the computation has to put up with, in whatever state they find
    /// it.
    spec fn plan(&self) -> Seq<nat>;

    /// Whether `after` is what one poll makes of this computation when the
    /// ready queue has room for `room` more entries at the start of the
    /// poll.  This says what the poll does beyond advancing the plan.
    spec fn poll_leaves(&self, room: nat, after: &Self) -> bool;

    /// Advances the computation by one step.
    ///
    /// Outside the terminal state the poll takes the first entry off the
    /// plan, calls `notifier.wake()` that many times and reports `Pending`.
    /// In the terminal state it reports `Final`, wakes nobody and stays
    /// terminal, however often it is repeated.
    fn poll(&mut self, notifier: &mut WakeNotifier) -> (result: PollResult)
        ensures
            final(notifier).task() == old(notifier).task(),
            final(notifier).capacity() == old(notifier).capacity(),
            final(notifier).queue() == after_submits(
                old(notifier).queue(),
                old(notifier).capacity(),
                old(notifier).task(),
                wakes_due(old(self).plan()),
            ),
            final(self).plan() == plan_after_poll(old(self).plan()),
            old(self).poll_leaves(old(notifier).room(), final(self)),
            result == poll_outcome(old(self).plan()),
    ;
}

} // verus!
