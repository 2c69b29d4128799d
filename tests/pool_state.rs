use std::sync::mpsc;
use threadpool::{Message, PoolError, PoolState};

type Job = Box<dyn FnOnce() + Send + 'static>;

/// Runs `workers` workers in turn on this thread, each taking one message per
/// round, until every one has taken a `Kill`. Returns the number of takes.
fn drive_to_completion(state: &mut PoolState<Job>, workers: usize) -> usize {
    let mut running = vec![true; workers];
    let mut takes = 0;
    while running.iter().any(|r| *r) {
        for w in 0..workers {
            if !running[w] {
                continue;
            }
            match state.take() {
                Some(Message::Task(job)) => {
                    takes += 1;
                    job();
                }
                Some(Message::Kill) => {
                    takes += 1;
                    running[w] = false;
                }
                None => panic!("a running worker found the queue empty during teardown"),
            }
        }
    }
    takes
}

#[test]
fn new_rejects_zero_workers() {
    assert!(matches!(PoolState::<u32>::new(0), Err(PoolError::ZeroWorkers)));
}

#[test]
fn new_pool_starts_empty() {
    let s = PoolState::<u32>::new(3).unwrap();
    assert_eq!(s.pool_size(), 3);
    assert!(s.is_empty());
    assert_eq!(s.len(), 0);
    assert!(!s.is_shutting_down());
    assert_eq!(s.workers_stopped(), 0);
}

#[test]
fn take_from_empty_queue_is_none() {
    let mut s = PoolState::<u32>::new(2).unwrap();
    assert!(s.take().is_none());
    assert_eq!(s.len(), 0);
}

#[test]
fn tasks_come_out_in_submission_order() {
    let mut s = PoolState::<u32>::new(2).unwrap();
    for v in [5u32, 1, 9] {
        s.submit(v);
    }
    assert_eq!(s.len(), 3);
    let mut out = Vec::new();
    while let Some(m) = s.take() {
        match m {
            Message::Task(v) => out.push(v),
            Message::Kill => panic!("no kill before teardown"),
        }
    }
    assert_eq!(out, vec![5, 1, 9]);
    assert_eq!(s.workers_stopped(), 0);
}

#[test]
fn shutdown_appends_one_kill_per_worker_after_tasks() {
    let mut s = PoolState::<u32>::new(3).unwrap();
    s.submit(7);
    s.submit(8);
    s.begin_shutdown();
    assert!(s.is_shutting_down());
    assert_eq!(s.len(), 5);
    assert!(matches!(s.take(), Some(Message::Task(7))));
    assert!(matches!(s.take(), Some(Message::Task(8))));
    for stopped in 1..=3u32 {
        let m = s.take().unwrap();
        assert!(m.is_kill());
        assert_eq!(s.workers_stopped(), stopped);
    }
    assert!(s.take().is_none());
}

#[test]
fn kill_count_does_not_depend_on_task_count() {
    for tasks in [0u32, 1, 6] {
        let mut s = PoolState::<u32>::new(4).unwrap();
        for t in 0..tasks {
            s.submit(t);
        }
        s.begin_shutdown();
        let mut kills = 0;
        while let Some(m) = s.take() {
            if m.is_kill() {
                kills += 1;
            }
        }
        assert_eq!(kills, 4);
        assert_eq!(s.workers_stopped(), 4);
    }
}

#[test]
fn teardown_runs_every_task_exactly_once() {
    let (tx, rx) = mpsc::channel();
    let mut s = PoolState::<Job>::new(3).unwrap();
    for i in 0..20u32 {
        let tx = tx.clone();
        s.submit(Box::new(move || tx.send(i).unwrap()));
    }
    s.begin_shutdown();
    let takes = drive_to_completion(&mut s, 3);
    assert_eq!(takes, 23);
    assert!(s.is_empty());
    drop(tx);
    let mut seen: Vec<u32> = rx.iter().collect();
    seen.sort();
    assert_eq!(seen, (0..20).collect::<Vec<u32>>());
}

#[test]
fn single_worker_runs_in_submission_order() {
    let (tx, rx) = mpsc::channel();
    let mut s = PoolState::<Job>::new(1).unwrap();
    for i in [3u32, 0, 4, 1] {
        let tx = tx.clone();
        s.submit(Box::new(move || tx.send(i).unwrap()));
    }
    s.begin_shutdown();
    drive_to_completion(&mut s, 1);
    drop(tx);
    assert_eq!(rx.iter().collect::<Vec<u32>>(), vec![3, 0, 4, 1]);
}

#[test]
fn one_worker_delivers_value() {
    let (tx, rx) = mpsc::channel();
    let mut s = PoolState::<Job>::new(1).unwrap();
    s.submit(Box::new(move || tx.send(14).unwrap()));
    let job = match s.take() {
        Some(Message::Task(job)) => job,
        _ => panic!("the submitted task should be at the head"),
    };
    job();
    assert_eq!(14, rx.recv().unwrap());
}

#[test]
fn four_workers_sum_ten_tasks() {
    let mut s = PoolState::<Job>::new(4).unwrap();
    let (tx, rx) = mpsc::channel();
    for i in 1..=10u32 {
        let tx_copy = tx.clone();
        s.submit(Box::new(move || {
            let computed_value = i * 10;
            tx_copy.send(computed_value).unwrap();
        }));
    }
    s.begin_shutdown();
    drive_to_completion(&mut s, 4);
    let mut sum = 0;
    for _ in 1..=10 {
        sum += rx.recv().unwrap();
    }
    assert_eq!(sum, 550);
}

#[test]
fn teardown_right_after_submit_still_runs_task() {
    let (tx, rx) = mpsc::channel();
    let mut s = PoolState::<Job>::new(2).unwrap();
    s.submit(Box::new(move || tx.send(1u8).unwrap()));
    s.begin_shutdown();
    assert_eq!(drive_to_completion(&mut s, 2), 3);
    assert_eq!(s.workers_stopped(), 2);
    assert_eq!(rx.try_recv(), Ok(1));
}
