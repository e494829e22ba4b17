//! A minimal cooperative task executor.
//!
//! Computations are driven to completion by polling them one step at a
//! time.  A computation that is not finished asks its wake notifier to put
//! its task back on the bounded ready queue; the executor takes tasks off
//! that queue in arrival order and polls each one once.
//!
//! Everything here runs in one execution context.  The state of an executor
//! is described by a mathematical schedule, and every operation states which
//! schedule it leaves behind.

pub mod computation;
pub mod executor;
pub mod hello;
pub mod laws;
pub mod notifier;
pub mod queue;
pub mod schedule;
pub mod scripted;
pub mod task;

pub use computation::{PollResult, Resumable};
pub use executor::{Executor, Polled, Spawner, DEFAULT_CAPACITY};
pub use hello::{Hello, HelloState};
pub use notifier::WakeNotifier;
pub use queue::{ReadyQueue, SubmitError};
pub use schedule::Schedule;
pub use scripted::Scripted;
pub use task::Task;
