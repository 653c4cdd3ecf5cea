use squeak::executor::{Dequeued, Executor, PollAction, PollOutcome, SpawnError, Task};

fn runnable(d: Dequeued<&'static str, u64>) -> (Task<&'static str>, u64) {
    match d {
        Dequeued::Runnable(t, w) => (t, w),
        _ => panic!("expected a runnable task"),
    }
}

#[test]
fn spawned_task_is_handed_out_with_a_fresh_waker() {
    let mut ex: Executor<&'static str, u64> = Executor::new();
    assert_eq!(ex.spawn(Task::new(7, "seven")), Ok(()));
    assert!(ex.contains_task(7));
    let (t, w) = runnable(ex.pop_ready(&|id: u64| id * 10));
    assert_eq!(t.id, 7);
    assert_eq!(t.future, "seven");
    assert_eq!(w, 70);
    assert!(!ex.contains_task(7));
    assert!(matches!(ex.pop_ready(&|id: u64| id), Dequeued::Idle));
}

#[test]
fn pending_task_comes_back_with_its_cached_waker() {
    let mut ex: Executor<&'static str, u64> = Executor::new();
    ex.spawn(Task::new(1, "one")).unwrap();
    let (t, w) = runnable(ex.pop_ready(&|_id: u64| 5));
    assert_eq!(ex.finish_poll(t, w, PollOutcome::Pending), PollAction::Continue);
    assert!(ex.contains_task(1));
    // the waker requeues the task; the cached waker is handed out again
    assert_eq!(ex.task_queue().push(1), Ok(()));
    let (t, w) = runnable(ex.pop_ready(&|_id: u64| 99));
    assert_eq!(t.id, 1);
    assert_eq!(w, 5);
}

#[test]
fn completed_task_is_removed_and_its_id_goes_stale() {
    let mut ex: Executor<&'static str, u64> = Executor::new();
    ex.spawn(Task::new(3, "three")).unwrap();
    let (t, w) = runnable(ex.pop_ready(&|_id: u64| 0));
    assert_eq!(ex.finish_poll(t, w, PollOutcome::Ready), PollAction::Continue);
    assert!(!ex.contains_task(3));
    ex.task_queue().push(3).unwrap();
    assert!(matches!(ex.pop_ready(&|_id: u64| 0), Dequeued::Stale(3)));
}

#[test]
fn dead_pending_task_is_dropped() {
    let mut ex: Executor<&'static str, u64> = Executor::new();
    let mut task = Task::new(4, "four");
    task.dead = true;
    ex.spawn(task).unwrap();
    let (t, w) = runnable(ex.pop_ready(&|_id: u64| 0));
    assert_eq!(ex.finish_poll(t, w, PollOutcome::Pending), PollAction::Continue);
    assert!(!ex.contains_task(4));
}

#[test]
fn panic_is_propagated_when_the_drain_finished() {
    let mut ex: Executor<&'static str, u64> = Executor::new();
    ex.spawn(Task::new(5, "five")).unwrap();
    let (t, w) = runnable(ex.pop_ready(&|_id: u64| 0));
    let action = ex.finish_poll(t, w, PollOutcome::Panicked { drain_panicked: false });
    assert_eq!(action, PollAction::ResumePanic);
    assert!(ex.contains_task(5));
}

#[test]
fn panic_twice_drops_the_task() {
    let mut ex: Executor<&'static str, u64> = Executor::new();
    ex.spawn(Task::new(6, "six")).unwrap();
    let (t, w) = runnable(ex.pop_ready(&|_id: u64| 0));
    let action = ex.finish_poll(t, w, PollOutcome::Panicked { drain_panicked: true });
    assert_eq!(action, PollAction::Continue);
    assert!(!ex.contains_task(6));
}

#[test]
fn full_queue_refuses_to_queue_but_registers() {
    let mut ex: Executor<u32, u64> = Executor::new();
    for i in 0..100u64 {
        assert_eq!(ex.spawn(Task::new(i, 0)), Ok(()));
    }
    assert_eq!(ex.spawn(Task::new(100, 0)), Err(SpawnError::QueueFull(100)));
    assert!(ex.contains_task(100));
}

#[test]
fn tasks_run_in_spawn_order() {
    let mut ex: Executor<u32, u64> = Executor::new();
    ex.spawn(Task::new(10, 0)).unwrap();
    ex.spawn(Task::new(20, 0)).unwrap();
    let (a, _) = match ex.pop_ready(&|_id: u64| 0) {
        Dequeued::Runnable(t, w) => (t, w),
        _ => panic!(),
    };
    let (b, _) = match ex.pop_ready(&|_id: u64| 0) {
        Dequeued::Runnable(t, w) => (t, w),
        _ => panic!(),
    };
    assert_eq!((a.id, b.id), (10, 20));
}

#[test]
fn take_ready_acts_on_the_popped_id() {
    let mut ex: Executor<&'static str, u64> = Executor::new();
    ex.spawn(Task::new(8, "eight")).unwrap();
    assert!(matches!(ex.take_ready(None, &|_id: u64| 0), Dequeued::Idle));
    assert!(matches!(ex.take_ready(Some(9), &|_id: u64| 0), Dequeued::Stale(9)));
    let (t, w) = runnable(ex.take_ready(Some(8), &|id: u64| id + 1));
    assert_eq!((t.id, t.future, w), (8, "eight", 9));
    assert!(!ex.contains_task(8));
}

#[test]
fn draining_polls_each_queued_task_once_in_order() {
    let mut ex: Executor<u32, u64> = Executor::new();
    for id in [3u64, 1, 2] {
        ex.spawn(Task::new(id, 0)).unwrap();
    }
    let mut polled = Vec::new();
    loop {
        match ex.pop_ready(&|_id: u64| 0) {
            Dequeued::Idle => break,
            Dequeued::Stale(_) => continue,
            Dequeued::Runnable(t, w) => {
                polled.push(t.id);
                let outcome = if t.id == 1 { PollOutcome::Ready } else { PollOutcome::Pending };
                ex.finish_poll(t, w, outcome);
            }
        }
    }
    assert_eq!(polled, vec![3, 1, 2]);
    assert!(ex.contains_task(3) && ex.contains_task(2) && !ex.contains_task(1));
}
