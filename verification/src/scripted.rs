//! A computation that follows a plan written down in advance.

use crate::computation::{PollResult, Resumable};
use crate::notifier::WakeNotifier;
use crate::queue::{after_submits, granted, lemma_no_submit, lemma_submits_add, room};
use vstd::prelude::*;

verus! {

/// `count + more`, or `usize::MAX` where that does not fit.
pub open spec fn saturating_sum(count: usize, more: nat) -> usize {
    if count + more <= usize::MAX {
        (count + more) as usize
    } else {
        usize::MAX
    }
}

/// A computation that is made from the list of wakes it will ask for: at its
/// first poll it wakes its task `wakes[0]` times, at the next `wakes[1]`
/// times, and so on; the poll after the last entry reports the end.
///
/// It counts the polls it gets and the wakes that were refused, so that a
/// caller can see afterwards what the executor did with it.
pub struct Scripted {
    wakes: Vec<usize>,
    position: usize,
    polls: usize,
    refused: usize,
}

impl Scripted {
    /// The list of wakes it was made from.
    pub closed spec fn script(&self) -> Seq<usize> {
        self.wakes@
    }

    /// The number of entries of the script that polls have consumed.
    pub closed spec fn spec_position(&self) -> usize {
        self.position
    }

    /// The number of polls received, up to `usize::MAX`.
    pub closed spec fn spec_polls(&self) -> usize {
        self.polls
    }

    /// The number of wakes that the queue refused, up to `usize::MAX`.
    pub closed spec fn spec_refused(&self) -> usize {
        self.refused
    }

    /// Whether every entry of the script is consumed.
    pub open spec fn spec_is_finished(&self) -> bool {
        self.position() >= self.script().len()
    }

    /// A computation that will follow `wakes` from its first entry.
    pub fn new(wakes: Vec<usize>) -> (scripted: Scripted)
        ensures
            scripted.script() == wakes@,
            scripted.position() == 0,
            scripted.polls() == 0,
            scripted.refused() == 0,
    {
        Scripted { wakes, position: 0, polls: 0, refused: 0 }
    }

    /// The number of entries of the script that polls have consumed.
    #[verifier::when_used_as_spec(spec_position)]
    pub fn position(&self) -> (position: usize)
        ensures
            position == self.position(),
    {
        self.position
    }

    /// The number of polls received, up to `usize::MAX`.
    #[verifier::when_used_as_spec(spec_polls)]
    pub fn polls(&self) -> (polls: usize)
        ensures
            polls == self.polls(),
    {
        self.polls
    }

    /// The number of wakes that the queue refused, up to `usize::MAX`.
    #[verifier::when_used_as_spec(spec_refused)]
    pub fn refused(&self) -> (refused: usize)
        ensures
            refused == self.refused(),
    {
        self.refused
    }

    /// Whether every entry of the script is consumed, so that the next poll
    /// reports the end.
    #[verifier::when_used_as_spec(spec_is_finished)]
    pub fn is_finished(&self) -> (finished: bool)
        ensures
            finished == self.is_finished(),
    {
        self.position >= self.wakes.len()
    }
}

impl Resumable for Scripted {
    open spec fn plan(&self) -> Seq<nat> {
        if self.is_finished() {
            Seq::empty()
        } else {
            Seq::new(
                (self.script().len() - self.position()) as nat,
                |i: int| self.script()[self.position() + i] as nat,
            )
        }
    }

    /// The poll is counted.  Outside the terminal state one entry of the
    /// script is consumed, and the wakes that it asks for beyond the room in
    /// the queue are counted as refused.
    open spec fn poll_leaves(&self, room: nat, after: &Self) -> bool {
        &&& after.script() == self.script()
        &&& after.polls() == saturating_sum(self.polls(), 1)
        &&& self.is_finished() ==> {
            &&& after.position() == self.position()
            &&& after.refused() == self.refused()
        }
        &&& !self.is_finished() ==> {
            &&& after.position() == self.position() + 1
            &&& after.refused() == saturating_sum(
                self.refused(),
                (self.script()[self.position() as int] - granted(
                    room,
                    self.script()[self.position() as int] as nat,
                )) as nat,
            )
        }
    }

    /// Counts the poll.  Outside the terminal state it then consumes one
    /// entry of the script, calls `wake` as often as the entry says and
    /// counts the calls that were refused.
    fn poll(&mut self, notifier: &mut WakeNotifier) -> (result: PollResult)
    {
        if self.polls < usize::MAX {
            self.polls = self.polls + 1;
        }
        if self.position >= self.wakes.len() {
            proof {
                lemma_no_submit(notifier.queue(), notifier.capacity(), notifier.task());
            }
            return PollResult::Final;
        }
        let wakes: usize = self.wakes[self.position];
        let ghost queue = notifier.queue();
        let ghost capacity = notifier.capacity();
        let ghost task = notifier.task();
        let mut done: usize = 0;
        proof {
            lemma_no_submit(queue, capacity, task);
        }
        while done < wakes
            invariant
                done <= wakes,
                notifier.task() == task,
                notifier.capacity() == capacity,
                notifier.queue() == after_submits(queue, capacity, task, done as nat),
                self.wakes == old(self).wakes,
                self.position == old(self).position,
                self.polls == saturating_sum(old(self).polls, 1),
                self.refused == saturating_sum(
                    old(self).refused,
                    (done - granted(room(queue.len(), capacity), done as nat)) as nat,
                ),
            decreases wakes - done,
        {
            proof {
                lemma_submits_add(queue, capacity, task, done as nat, 1);
            }
            match notifier.wake() {
                Ok(()) => {},
                Err(_) => {
                    if self.refused < usize::MAX {
                        self.refused = self.refused + 1;
                    }
                },
            }
            done = done + 1;
        }
        self.position = self.position + 1;
        proof {
        }
        PollResult::Pending
    }
}

} // verus!
