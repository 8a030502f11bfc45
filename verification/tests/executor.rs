use fbcon::executor::{Executor, Task, TaskId};

#[test]
fn completing_every_task_empties_the_table() {
    let mut executor: Executor<u32> = Executor::new();

    for i in 0..5u32 {
        executor.spawn(Task::new(i));
    }
    assert_eq!(executor.task_count(), 5);

    let mut polled = Vec::new();
    while let Some((id, task)) = executor.next_ready() {
        polled.push(task.future);
        executor.complete(id);
    }

    assert!(executor.is_empty());
    assert_eq!(polled, vec![0, 1, 2, 3, 4]);
}

#[test]
fn only_one_task_is_out_at_a_time() {
    let mut executor: Executor<&str> = Executor::new();
    let first = executor.spawn(Task::new("first"));
    executor.spawn(Task::new("second"));

    // The first spawned task is handed out first; until its poll reports
    // back, nothing else can be polled.
    let (id, task) = executor.next_ready().unwrap();
    assert_eq!(id, first);
    assert_eq!(task.future, "first");

    executor.suspend(id, task);

    // The suspended task waits for its waker; the second task is next.
    let (id2, task2) = executor.next_ready().unwrap();
    assert_eq!(task2.future, "second");
    executor.complete(id2);

    // Still waiting: the suspended task is not ready.
    assert!(executor.next_ready().is_none());
    assert_eq!(executor.task_count(), 1);

    // Its waker fires, and it runs again.
    executor.wake(id);
    let (id3, task3) = executor.next_ready().unwrap();
    assert_eq!(id3, id);
    assert_eq!(task3.future, "first");
    executor.complete(id3);

    assert!(executor.is_empty());
}

#[test]
fn waking_an_unknown_id_changes_nothing() {
    let mut executor: Executor<()> = Executor::new();
    executor.spawn(Task::new(()));
    executor.wake(TaskId(999));
    assert_eq!(executor.task_count(), 1);
}

#[test]
fn suspended_tasks_rejoin_at_the_back() {
    let mut executor: Executor<u32> = Executor::new();
    executor.spawn(Task::new(1));
    executor.spawn(Task::new(2));

    let (id1, t1) = executor.next_ready().unwrap();
    executor.suspend(id1, t1);
    executor.wake(id1);

    // Task 2 now stands before the resuspended task 1.
    let (_, t2) = executor.next_ready().unwrap();
    assert_eq!(t2.future, 2);
}

#[test]
fn pending_queue_spawning_is_unavailable() {
    assert!(!fbcon::executor::spawn_task(Task::new(7u8)));
}
