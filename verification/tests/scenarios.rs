use coroutine::{
    Executor, Hello, HelloState, PollResult, Polled, ReadyQueue, Resumable, Scripted, SubmitError,
    Task, WakeNotifier, DEFAULT_CAPACITY,
};

#[test]
fn hello_world_takes_three_polls() {
    let mut executor: Executor<Hello> = Executor::new();
    assert_eq!(executor.get_spawner().spawn(Hello::new()), Ok(()));
    assert_eq!(executor.run(), 3);
    let hello = executor.task(0).unwrap().computation();
    assert_eq!(hello.state(), HelloState::End);
    assert_eq!(hello.output(), &vec!["Hello, ", "World!\n"]);
    assert_eq!(hello.output().concat(), "Hello, World!\n");
    assert_eq!(executor.ready_count(), 0);
}

#[test]
fn hello_world_poll_by_poll() {
    let mut executor: Executor<Hello> = Executor::new();
    assert_eq!(executor.get_spawner().spawn(Hello::new()), Ok(()));
    assert!(executor.task(0).unwrap().computation().output().is_empty());

    assert_eq!(executor.step(), Some(Polled { task: 0, result: PollResult::Pending }));
    assert_eq!(executor.task(0).unwrap().computation().output(), &vec!["Hello, "]);
    assert_eq!(executor.task(0).unwrap().computation().state(), HelloState::World);
    assert_eq!(executor.ready_count(), 1);

    assert_eq!(executor.step(), Some(Polled { task: 0, result: PollResult::Pending }));
    assert_eq!(executor.task(0).unwrap().computation().output(), &vec!["Hello, ", "World!\n"]);
    assert_eq!(executor.task(0).unwrap().computation().state(), HelloState::End);
    assert_eq!(executor.ready_count(), 1);

    assert_eq!(executor.step(), Some(Polled { task: 0, result: PollResult::Final }));
    assert_eq!(executor.task(0).unwrap().computation().output(), &vec!["Hello, ", "World!\n"]);
    assert_eq!(executor.ready_count(), 0);

    assert_eq!(executor.step(), None);
}

#[test]
fn run_without_tasks_returns_at_once() {
    let mut executor: Executor<Hello> = Executor::new();
    {
        let _spawner = executor.get_spawner();
    }
    assert_eq!(executor.run(), 0);
    assert_eq!(executor.task_count(), 0);
    assert_eq!(executor.step(), None);
}

#[test]
fn new_executor_is_empty_with_default_bound() {
    let executor: Executor<Scripted> = Executor::new();
    assert_eq!(DEFAULT_CAPACITY, 1024);
    assert_eq!(executor.capacity(), 1024);
    assert_eq!(executor.task_count(), 0);
    assert_eq!(executor.ready_count(), 0);
    assert!(executor.task(0).is_none());
}

#[test]
fn one_wake_per_poll_takes_one_poll_per_state() {
    for steps in [0usize, 1, 2, 5, 40] {
        let mut executor: Executor<Scripted> = Executor::with_capacity(1);
        assert_eq!(executor.get_spawner().spawn(Scripted::new(vec![1; steps])), Ok(()));
        assert_eq!(executor.run(), steps + 1);
        let scripted = executor.task(0).unwrap().computation();
        assert_eq!(scripted.polls(), steps + 1);
        assert_eq!(scripted.position(), steps);
        assert_eq!(scripted.refused(), 0);
        assert!(scripted.is_finished());
    }
}

#[test]
fn two_wakes_queue_the_task_twice() {
    let mut executor: Executor<Scripted> = Executor::new();
    assert_eq!(executor.get_spawner().spawn(Scripted::new(vec![2])), Ok(()));
    assert_eq!(executor.step(), Some(Polled { task: 0, result: PollResult::Pending }));
    assert_eq!(executor.ready_count(), 2);
    assert_eq!(executor.task(0).unwrap().computation().position(), 1);
    assert_eq!(executor.step(), Some(Polled { task: 0, result: PollResult::Final }));
    assert_eq!(executor.step(), Some(Polled { task: 0, result: PollResult::Final }));
    assert_eq!(executor.step(), None);
    let scripted = executor.task(0).unwrap().computation();
    assert_eq!(scripted.polls(), 3);
    assert_eq!(scripted.position(), 1);
    assert!(scripted.is_finished());
}

#[test]
fn extra_polls_never_move_a_computation_backwards() {
    let mut executor: Executor<Scripted> = Executor::new();
    assert_eq!(executor.get_spawner().spawn(Scripted::new(vec![2, 1, 3])), Ok(()));
    let mut last_position: usize = 0;
    let mut polls: usize = 0;
    while let Some(polled) = executor.step() {
        polls += 1;
        let scripted = executor.task(polled.task).unwrap().computation();
        assert!(scripted.position() >= last_position);
        assert!(scripted.position() <= 3);
        assert_eq!(scripted.polls(), polls);
        assert_eq!(polled.result == PollResult::Final, last_position == 3);
        last_position = scripted.position();
    }
    // One poll for the entry that spawning queued and one for each wake.
    assert_eq!(polls, 1 + 2 + 1 + 3);
    assert_eq!(executor.task(0).unwrap().computation().position(), 3);
}

#[test]
fn every_wake_is_answered_by_one_poll() {
    let mut executor: Executor<Scripted> = Executor::new();
    assert_eq!(executor.get_spawner().spawn(Scripted::new(vec![3, 1, 2, 4])), Ok(()));
    assert_eq!(executor.run(), 1 + 3 + 1 + 2 + 4);
    assert_eq!(executor.task(0).unwrap().computation().polls(), 11);
    assert_eq!(executor.task(0).unwrap().computation().refused(), 0);
}

#[test]
fn a_poll_without_a_wake_parks_the_task() {
    let mut executor: Executor<Scripted> = Executor::new();
    assert_eq!(executor.get_spawner().spawn(Scripted::new(vec![1, 0, 1])), Ok(()));
    assert_eq!(executor.run(), 2);
    let scripted = executor.task(0).unwrap().computation();
    assert_eq!(scripted.position(), 2);
    assert!(!scripted.is_finished());
}

#[test]
fn tasks_are_first_polled_in_the_order_spawned() {
    let mut executor: Executor<Scripted> = Executor::new();
    for _ in 0..3 {
        assert_eq!(executor.get_spawner().spawn(Scripted::new(vec![1, 1])), Ok(()));
    }
    let mut order = Vec::new();
    while let Some(polled) = executor.step() {
        order.push(polled.task);
    }
    assert_eq!(order, vec![0, 1, 2, 0, 1, 2, 0, 1, 2]);
}

#[test]
fn a_woken_task_goes_behind_those_that_wait() {
    let mut executor: Executor<Scripted> = Executor::new();
    assert_eq!(executor.get_spawner().spawn(Scripted::new(vec![2])), Ok(()));
    assert_eq!(executor.get_spawner().spawn(Scripted::new(vec![])), Ok(()));
    let mut order = Vec::new();
    let mut results = Vec::new();
    while let Some(polled) = executor.step() {
        order.push(polled.task);
        results.push(polled.result);
    }
    assert_eq!(order, vec![0, 1, 0, 0]);
    assert_eq!(
        results,
        vec![PollResult::Pending, PollResult::Final, PollResult::Final, PollResult::Final]
    );
}

#[test]
fn spawning_beyond_the_bound_is_refused() {
    let mut executor: Executor<Hello> = Executor::new();
    for _ in 0..1024 {
        assert_eq!(executor.get_spawner().spawn(Hello::new()), Ok(()));
    }
    assert_eq!(executor.ready_count(), 1024);
    assert_eq!(executor.get_spawner().spawn(Hello::new()), Err(SubmitError::Full));
    assert_eq!(executor.task_count(), 1024);
    assert_eq!(executor.ready_count(), 1024);
    // Nothing that was accepted is lost: every task runs to its end.
    assert_eq!(executor.run(), 3 * 1024);
    for id in 0..1024 {
        assert_eq!(executor.task(id).unwrap().computation().state(), HelloState::End);
    }
    assert_eq!(executor.get_spawner().spawn(Hello::new()), Ok(()));
    assert_eq!(executor.task(1024).unwrap().id(), 1024);
}

#[test]
fn waking_beyond_the_bound_is_refused() {
    let mut executor: Executor<Scripted> = Executor::with_capacity(3);
    assert_eq!(executor.get_spawner().spawn(Scripted::new(vec![5, 1])), Ok(()));
    assert_eq!(executor.step(), Some(Polled { task: 0, result: PollResult::Pending }));
    assert_eq!(executor.ready_count(), 3);
    assert_eq!(executor.task(0).unwrap().computation().refused(), 2);
    assert_eq!(executor.get_spawner().spawn(Scripted::new(vec![])), Err(SubmitError::Full));
    assert_eq!(executor.task_count(), 1);
    // The next poll consumes the last entry; the three after it report the end.
    assert_eq!(executor.run(), 4);
    assert_eq!(executor.task(0).unwrap().computation().polls(), 5);
    assert_eq!(executor.task(0).unwrap().computation().refused(), 2);
}

#[test]
fn a_queue_without_room_refuses_everything() {
    let mut executor: Executor<Hello> = Executor::with_capacity(0);
    assert_eq!(executor.get_spawner().spawn(Hello::new()), Err(SubmitError::Full));
    assert_eq!(executor.task_count(), 0);
    assert_eq!(executor.run(), 0);
}

#[test]
fn ready_queue_is_first_in_first_out_and_bounded() {
    let mut queue = ReadyQueue::new(2);
    assert_eq!(queue.capacity(), 2);
    assert!(queue.is_empty());
    assert!(!queue.is_full());
    assert_eq!(queue.pop(), None);
    assert_eq!(queue.submit(7), Ok(()));
    assert_eq!(queue.submit(4), Ok(()));
    assert!(queue.is_full());
    assert_eq!(queue.len(), 2);
    assert_eq!(queue.submit(9), Err(SubmitError::Full));
    assert_eq!(queue.len(), 2);
    assert_eq!(queue.pop(), Some(7));
    assert_eq!(queue.submit(9), Ok(()));
    assert_eq!(queue.pop(), Some(4));
    assert_eq!(queue.pop(), Some(9));
    assert_eq!(queue.pop(), None);
    assert!(queue.is_empty());
}

#[test]
fn wake_submits_the_bound_task_each_time() {
    let mut notifier = WakeNotifier::new(5, ReadyQueue::new(2));
    assert_eq!(notifier.task(), 5);
    assert_eq!(notifier.wake(), Ok(()));
    assert_eq!(notifier.wake(), Ok(()));
    assert_eq!(notifier.wake(), Err(SubmitError::Full));
    let mut queue = notifier.into_queue();
    assert_eq!(queue.len(), 2);
    assert_eq!(queue.pop(), Some(5));
    assert_eq!(queue.pop(), Some(5));
    assert_eq!(queue.pop(), None);
}

#[test]
fn hello_polled_by_hand() {
    let mut hello = Hello::new();
    assert_eq!(hello.state(), HelloState::Hello);
    let mut notifier = WakeNotifier::new(0, ReadyQueue::new(8));
    assert_eq!(hello.poll(&mut notifier), PollResult::Pending);
    assert_eq!(hello.state(), HelloState::World);
    assert_eq!(hello.poll(&mut notifier), PollResult::Pending);
    assert_eq!(hello.state(), HelloState::End);
    assert_eq!(hello.poll(&mut notifier), PollResult::Final);
    assert_eq!(hello.poll(&mut notifier), PollResult::Final);
    assert_eq!(hello.state(), HelloState::End);
    assert_eq!(hello.output(), &vec!["Hello, ", "World!\n"]);
    assert_eq!(notifier.into_queue().len(), 2);
}

#[test]
fn hello_keeps_going_when_its_wake_is_refused() {
    let mut hello = Hello::new();
    let mut notifier = WakeNotifier::new(0, ReadyQueue::new(0));
    assert_eq!(hello.poll(&mut notifier), PollResult::Pending);
    assert_eq!(hello.state(), HelloState::World);
    assert_eq!(notifier.into_queue().len(), 0);
}

#[test]
fn a_task_polls_its_computation_with_its_own_number() {
    let mut task = Task::new(7, Scripted::new(vec![2]));
    assert_eq!(task.id(), 7);
    let mut queue = ReadyQueue::new(4);
    assert_eq!(queue.submit(1), Ok(()));
    assert_eq!(task.poll(&mut queue), PollResult::Pending);
    assert_eq!(queue.capacity(), 4);
    assert_eq!(queue.len(), 3);
    assert_eq!(queue.pop(), Some(1));
    assert_eq!(queue.pop(), Some(7));
    assert_eq!(queue.pop(), Some(7));
    assert_eq!(queue.pop(), None);
    assert_eq!(task.computation().polls(), 1);
    assert_eq!(task.poll(&mut queue), PollResult::Final);
    assert!(queue.is_empty());
    assert_eq!(task.id(), 7);
}

#[test]
fn scripted_counts_what_happens_to_it() {
    let mut scripted = Scripted::new(vec![3, 0]);
    assert_eq!(scripted.position(), 0);
    assert_eq!(scripted.polls(), 0);
    assert_eq!(scripted.refused(), 0);
    assert!(!scripted.is_finished());
    let mut notifier = WakeNotifier::new(2, ReadyQueue::new(2));
    assert_eq!(scripted.poll(&mut notifier), PollResult::Pending);
    assert_eq!((scripted.position(), scripted.polls(), scripted.refused()), (1, 1, 1));
    assert_eq!(scripted.poll(&mut notifier), PollResult::Pending);
    assert_eq!((scripted.position(), scripted.polls(), scripted.refused()), (2, 2, 1));
    assert!(scripted.is_finished());
    assert_eq!(scripted.poll(&mut notifier), PollResult::Final);
    assert_eq!((scripted.position(), scripted.polls(), scripted.refused()), (2, 3, 1));
    assert_eq!(notifier.into_queue().len(), 2);
    assert!(Scripted::new(Vec::new()).is_finished());
}
