use abc::{Task, TaskGenerator};

#[test]
fn basic_cycle() {
    let mut tg = TaskGenerator::new(3, 2).max_rounds(2);
    let mut gathered: Vec<Task> = Vec::new();
    while let Some(task) = tg.next() {
        gathered.push(task);
    }
    let expected = [
        Task::Worker(0),
        Task::Worker(1),
        Task::Worker(2),
        Task::Observer(0),
        Task::Observer(1),
        Task::Worker(0),
        Task::Worker(1),
        Task::Worker(2),
        Task::Observer(0),
        Task::Observer(1),
    ];
    assert_eq!(gathered.len(), expected.len());
    assert!(gathered.iter().zip(expected.iter()).all(|(x, y)| *x == *y));
}

#[test]
fn exhausted_generator_stays_exhausted() {
    let mut tg = TaskGenerator::new(3, 2).max_rounds(2);
    for _ in 0..10 {
        assert!(tg.next().is_some());
    }
    assert_eq!(tg.next(), None);
    assert_eq!(tg.next(), None);
}

#[test]
fn round_advances_after_observer_subcycle() {
    let mut tg = TaskGenerator::new(2, 1).max_rounds(3);
    assert_eq!(tg.round(), 0);
    assert_eq!(tg.next(), Some(Task::Worker(0)));
    assert_eq!(tg.next(), Some(Task::Worker(1)));
    assert_eq!(tg.round(), 0);
    assert_eq!(tg.next(), Some(Task::Observer(0)));
    assert_eq!(tg.round(), 1);
}

#[test]
fn zero_observers_complete_rounds_at_worker_subcycle() {
    // With no observers the round completes at the end of the worker
    // sub-cycle, so a bounded run still exhausts.
    let mut tg = TaskGenerator::new(2, 0).max_rounds(2);
    let mut gathered: Vec<Task> = Vec::new();
    while let Some(task) = tg.next() {
        gathered.push(task);
    }
    let expected = [
        Task::Worker(0),
        Task::Worker(1),
        Task::Worker(0),
        Task::Worker(1),
    ];
    assert_eq!(gathered.len(), expected.len());
    assert!(gathered.iter().zip(expected.iter()).all(|(x, y)| *x == *y));
}

#[test]
fn stop_exhausts_immediately() {
    let mut tg = TaskGenerator::new(4, 4);
    assert_eq!(tg.next(), Some(Task::Worker(0)));
    tg.stop();
    assert_eq!(tg.next(), None);
}

#[test]
fn zero_max_rounds_still_runs_one_round() {
    // The bound is only checked when a round completes, so a bound of zero
    // yields exactly one full round.
    let mut tg = TaskGenerator::new(1, 1).max_rounds(0);
    assert_eq!(tg.next(), Some(Task::Worker(0)));
    assert_eq!(tg.next(), Some(Task::Observer(0)));
    assert_eq!(tg.next(), None);
}
