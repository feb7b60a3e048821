use std::collections::HashSet;

use project_blaze::task::Task;
use project_blaze::task_queue::{PopStep, TaskQueue};

fn ready_id(step: PopStep) -> Option<u64> {
    match step {
        PopStep::Ready(task) => Some(task.id),
        _ => None,
    }
}

#[test]
fn push_fails_after_close() {
    let mut queue = TaskQueue::new();
    queue.close();
    let result = queue.push(Task::new(1, "late"));
    assert!(result.is_err());
}

#[test]
fn tasks_are_consumed_once() {
    let mut queue = TaskQueue::new();
    let total_tasks = 100;
    for id in 0..total_tasks {
        queue
            .push(Task::new(id, &format!("task-{id}")))
            .expect("task queue closed");
    }

    // Four consumers take turns until the queue is drained.
    let consumers = 4;
    let mut seen: HashSet<u64> = HashSet::new();
    let mut done = false;
    while !done {
        for _ in 0..consumers {
            match queue.try_pop() {
                Some(task) => {
                    // Each task id should be observed at most once.
                    assert!(seen.insert(task.id));
                }
                None => done = true,
            }
        }
    }
    assert_eq!(seen.len(), total_tasks as usize);
    assert_eq!(queue.len(), 0);
}

#[test]
fn pop_blocking_wakes_on_push() {
    let mut queue = TaskQueue::new();
    // An empty open queue makes the consumer wait.
    assert!(matches!(queue.pop_blocking_or_closed(), PopStep::Wait));
    queue.push(Task::new(99, "wake")).expect("task queue closed");
    let received = ready_id(queue.pop_blocking_or_closed()).expect("task queue closed");
    assert_eq!(received, 99);
}

#[test]
fn blocking_consumers_each_get_unique_task() {
    let mut queue = TaskQueue::new();
    let consumers = 4;
    for _ in 0..consumers {
        assert!(matches!(queue.pop_blocking_or_closed(), PopStep::Wait));
    }
    // Provide exactly one task per consumer.
    for id in 0..consumers as u64 {
        queue
            .push(Task::new(id, &format!("task-{id}")))
            .expect("task queue closed");
    }
    let mut seen = HashSet::new();
    for _ in 0..consumers {
        let id = ready_id(queue.pop_blocking_or_closed()).expect("task queue closed");
        assert!(seen.insert(id));
    }
    assert_eq!(queue.len(), 0);
}

#[test]
fn pop_blocking_or_closed_unblocks_on_close() {
    let mut queue = TaskQueue::new();
    assert!(matches!(queue.pop_blocking_or_closed(), PopStep::Wait));
    queue.close();
    assert!(matches!(queue.pop_blocking_or_closed(), PopStep::Closed));
}

#[test]
fn tasks_come_out_in_push_order() {
    let mut queue = TaskQueue::new();
    for id in [5u64, 3, 9] {
        queue.push(Task::new(id, "t")).expect("task queue closed");
    }
    assert_eq!(queue.try_pop().map(|t| t.id), Some(5));
    queue.push(Task::new(1, "t")).expect("task queue closed");
    assert_eq!(queue.try_pop().map(|t| t.id), Some(3));
    assert_eq!(queue.try_pop().map(|t| t.id), Some(9));
    assert_eq!(queue.try_pop().map(|t| t.id), Some(1));
    assert!(queue.try_pop().is_none());
}

#[test]
fn close_keeps_queued_tasks() {
    let mut queue = TaskQueue::new();
    queue.push(Task::new(1, "first")).expect("task queue closed");
    queue.push(Task::new(2, "second")).expect("task queue closed");
    queue.close();
    assert!(queue.is_closed());
    let refused = queue.push(Task::new(3, "third")).unwrap_err();
    assert_eq!(refused.id, 3);
    assert_eq!(refused.description, "third");
    assert_eq!(queue.len(), 2);
    assert_eq!(ready_id(queue.pop_blocking_or_closed()), Some(1));
    assert_eq!(queue.pop_blocking().map(|t| t.id), Some(2));
    assert!(matches!(queue.pop_blocking_or_closed(), PopStep::Closed));
}

#[test]
fn pop_blocking_waits_on_open_empty_queue() {
    let mut queue = TaskQueue::new();
    assert!(queue.pop_blocking().is_none());
    queue.push(Task::new(4, "x")).expect("task queue closed");
    assert_eq!(queue.pop_blocking().map(|t| t.id), Some(4));
}

#[test]
fn task_new_keeps_fields() {
    let task = Task::new(12, "deliver-12");
    assert_eq!(task.id, 12);
    assert_eq!(task.description, "deliver-12");
}

#[test]
fn drain_counts_leftover_tasks() {
    let mut queue = TaskQueue::new();
    for id in 0..5u64 {
        queue.push(Task::new(id, "left")).expect("task queue closed");
    }
    assert_eq!(queue.drain(), 5);
    assert_eq!(queue.len(), 0);
    assert!(!queue.is_closed());
    assert_eq!(queue.drain(), 0);
}
