use abc::{Candidate, WorkingCandidate};

#[test]
fn candidate_caches_its_fitness() {
    let candidate = Candidate::new(vec![1i32, 2, 3], 42);
    assert_eq!(candidate.fitness, 42);
    assert_eq!(candidate.solution, vec![1, 2, 3]);
}

#[test]
fn not_expired_until_depleted_retries_times() {
    let retries = 4;
    let mut slot = WorkingCandidate::new(Candidate::new(0u32, 7), retries);
    for _ in 0..retries - 1 {
        slot.deplete();
        assert!(!slot.expired());
    }
    slot.deplete();
    assert!(slot.expired());
}

#[test]
fn zero_retries_is_expired_immediately() {
    let slot = WorkingCandidate::new(Candidate::new(0u32, 7), 0);
    assert!(slot.expired());
}

#[test]
fn depleting_an_expired_slot_keeps_it_at_zero() {
    let mut slot = WorkingCandidate::new(Candidate::new(0u32, 7), 1);
    slot.deplete();
    slot.deplete();
    assert!(slot.expired());
    assert_eq!(slot.retries, 0);
}

#[test]
fn expire_forces_expiry_regardless_of_budget() {
    let mut slot = WorkingCandidate::new(Candidate::new(0u32, 7), 100);
    assert!(!slot.expired());
    slot.expire();
    assert!(slot.expired());
}
