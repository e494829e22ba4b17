//! A sample computation that writes a greeting in two steps.

use crate::computation::{PollResult, Resumable};
use crate::notifier::WakeNotifier;
use crate::queue::{lemma_no_submit, lemma_one_submit};
use vstd::prelude::*;

verus! {

/// Where a [`Hello`] stands.
#[derive(Clone, Copy, Debug, PartialEq, Eq, Structural)]
pub enum HelloState {
    /// Nothing written yet.
    Hello,
    /// The first half is written.
    World,
    /// Both halves are written: the terminal state.
    End,
}

/// The plan of a greeting in the state `state`: one wake for each of the
/// polls that write something.
pub open spec fn hello_plan(state: HelloState) -> Seq<nat> {
    match state {
        HelloState::Hello => seq![1nat, 1nat],
        HelloState::World => seq![1nat],
        HelloState::End => Seq::<nat>::empty(),
    }
}

/// A greeting that takes three polls: the first writes `"Hello, "`, the
/// second writes `"World!\n"`, the third reports that it is finished.
///
/// What it writes is kept as a list of pieces, in the order written, for the
/// caller to send to whatever stream it likes.
pub struct Hello {
    state: HelloState,
    written: Vec<&'static str>,
}

impl Hello {
    /// The current state.
    pub closed spec fn spec_state(&self) -> HelloState {
        self.state
    }

    /// The pieces written so far.
    pub closed spec fn written(&self) -> Seq<&'static str> {
        self.written@
    }

    /// A greeting that has written nothing yet.
    pub fn new() -> (hello: Hello)
        ensures
            hello.state() == HelloState::Hello,
            hello.written() == Seq::<&'static str>::empty(),
    {
        Hello { state: HelloState::Hello, written: Vec::new() }
    }

    /// The current state.
    #[verifier::when_used_as_spec(spec_state)]
    pub fn state(&self) -> (state: HelloState)
        ensures
            state == self.state(),
    {
        self.state
    }

    /// The pieces written so far, oldest first.
    pub fn output(&self) -> (written: &Vec<&'static str>)
        ensures
            written@ == self.written(),
    {
        &self.written
    }
}

impl Resumable for Hello {
    open spec fn plan(&self) -> Seq<nat> {
        hello_plan(self.state())
    }

    /// In `Hello` and in `World` the poll writes its piece and moves to the
    /// next state; in `End` it changes nothing.  The room in the queue makes
    /// no difference to it.
    open spec fn poll_leaves(&self, room: nat, after: &Self) -> bool {
        match self.state() {
            HelloState::Hello => {
                &&& after.state() == HelloState::World
                &&& after.written() == self.written().push("Hello, ")
            },
            HelloState::World => {
                &&& after.state() == HelloState::End
                &&& after.written() == self.written().push("World!\n")
            },
            HelloState::End => {
                &&& after.state() == HelloState::End
                &&& after.written() == self.written()
            },
        }
    }

    /// Writes the piece of the current state, moves on and wakes the task
    /// once.  A refused wake is not tried again: the greeting is then parked
    /// in the state it has reached.
    fn poll(&mut self, notifier: &mut WakeNotifier) -> (result: PollResult)
    {
        proof {
            lemma_no_submit(notifier.queue(), notifier.capacity(), notifier.task());
            lemma_one_submit(notifier.queue(), notifier.capacity(), notifier.task());
        }
        match self.state {
            HelloState::Hello => {
                self.written.push("Hello, ");
                self.state = HelloState::World;
                let _ = notifier.wake();
                PollResult::Pending
            },
            HelloState::World => {
                self.written.push("World!\n");
                self.state = HelloState::End;
                let _ = notifier.wake();
                PollResult::Pending
            },
            HelloState::End => PollResult::Final,
        }
    }
}

} // verus!
