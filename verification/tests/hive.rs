use std::sync::mpsc::channel;

use abc::{Candidate, Context, HiveBuilder};

/// A deterministic context whose exploration always improves the slot by 1.
struct Rising;

impl Context for Rising {
    type Solution = u64;

    fn make(&self) -> u64 {
        10
    }

    fn evaluate_fitness(&self, solution: &u64) -> u64 {
        *solution
    }

    fn explore(&self, field: &Vec<Candidate<u64>>, index: usize) -> u64 {
        field[index].solution + 1
    }
}

/// A deterministic context whose exploration never improves anything, so
/// slots keep depleting and get scouted.
struct Stuck;

impl Context for Stuck {
    type Solution = u64;

    fn make(&self) -> u64 {
        5
    }

    fn evaluate_fitness(&self, solution: &u64) -> u64 {
        *solution
    }

    fn explore(&self, _field: &Vec<Candidate<u64>>, _index: usize) -> u64 {
        0
    }
}

#[test]
fn build_seeds_best_with_the_fittest_initial_candidate() {
    let hive = HiveBuilder::new(Rising, 4).build().unwrap();
    assert_eq!(hive.get().unwrap().fitness, 10);
    assert_eq!(hive.current_working().len(), 4);
    for slot in hive.current_working() {
        assert_eq!(slot.fitness, 10);
    }
}

#[test]
fn consecutive_runs_never_lower_the_best() {
    let mut hive = HiveBuilder::new(Rising, 3).build().unwrap();
    let best_first = hive.run_for_rounds(5).unwrap();
    let best_second = hive.run_for_rounds(5).unwrap();
    assert!(best_second.fitness >= best_first.fitness);
    let best_third = hive.run_for_rounds(0).unwrap();
    assert!(best_third.fitness >= best_second.fitness);
}

#[test]
fn bounded_run_terminates_with_best_at_least_every_slot() {
    let mut hive = HiveBuilder::new(Rising, 5)
        .set_observers(5)
        .set_retries(5)
        .set_threads(4)
        .build()
        .unwrap();
    let best = hive.run_for_rounds(1000).unwrap();
    for slot in hive.current_working() {
        assert!(best.fitness >= slot.fitness);
    }
    assert!(best.fitness > 10);
}

#[test]
fn stuck_population_is_scouted_and_survives() {
    // Every attempt fails to improve, so slots expire after one retry and
    // are regenerated; the run still terminates and the best stays at the
    // initial maximum.
    let mut hive = HiveBuilder::new(Stuck, 3).set_retries(1).build().unwrap();
    let best = hive.run_for_rounds(20).unwrap();
    assert_eq!(best.fitness, 5);
    for slot in hive.current_working() {
        assert!(best.fitness >= slot.fitness);
    }
}

#[test]
fn round_is_reported_only_while_a_run_is_installed() {
    let mut hive = HiveBuilder::new(Rising, 2).build().unwrap();
    assert_eq!(hive.get_round().unwrap(), None);
    hive.run_for_rounds(2).unwrap();
    // The generator slot is cleared once the run completes.
    assert_eq!(hive.get_round().unwrap(), None);
}

#[test]
fn stop_before_any_run_is_a_no_op() {
    let mut hive = HiveBuilder::new(Rising, 2).build().unwrap();
    assert!(hive.stop().is_ok());
    let best = hive.run_for_rounds(1).unwrap();
    assert!(best.fitness >= 10);
}

#[test]
fn attaching_a_sender_pushes_the_current_best() {
    let mut hive = HiveBuilder::new(Rising, 2).build().unwrap();
    let (sender, receiver) = channel();
    hive.set_sender(sender);
    assert_eq!(receiver.recv().unwrap().fitness, 10);
}

#[test]
fn improvements_are_streamed_in_order() {
    let mut hive = HiveBuilder::new(Rising, 2).set_observers(0).build().unwrap();
    let (sender, receiver) = channel();
    hive.set_sender(sender);
    hive.run_for_rounds(3).unwrap();
    let seen: Vec<u64> = receiver.try_iter().map(|c| c.fitness).collect();
    assert!(seen.len() > 1);
    assert_eq!(seen[0], 10);
    for pair in seen.windows(2) {
        assert!(pair[1] > pair[0]);
    }
}

#[test]
fn disconnected_consumer_stops_the_run_at_the_next_improvement() {
    let mut hive = HiveBuilder::new(Rising, 3).build().unwrap();
    let (sender, receiver) = channel();
    hive.set_sender(sender);
    drop(receiver);
    // The bound is enormous; the run returns promptly only because the
    // first improvement observes the disconnect and stops the scheduler.
    let best = hive.run_for_rounds(1_000_000_000).unwrap();
    assert!(best.fitness > 10);
}

#[test]
fn context_is_reachable_through_the_hive() {
    let hive = HiveBuilder::new(Rising, 2).build().unwrap();
    assert_eq!(hive.context().make(), 10);
}
