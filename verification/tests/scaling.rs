use abc::scaling::{power, power_rank, proportionate, rank};

#[test]
fn proportionate_is_identity() {
    let fitnesses: Vec<u64> = vec![1, 2, 3];
    assert_eq!(proportionate().apply(&fitnesses), vec![1, 2, 3]);
}

#[test]
fn power_squares() {
    let fitnesses: Vec<u64> = vec![1, 2, 3];
    assert_eq!(power(2).apply(&fitnesses), vec![1, 4, 9]);
}

#[test]
fn power_zero_gives_unit_weights() {
    let fitnesses: Vec<u64> = vec![5, 0, 17];
    assert_eq!(power(0).apply(&fitnesses), vec![1, 1, 1]);
}

#[test]
fn power_saturates_at_the_cap() {
    let fitnesses: Vec<u64> = vec![u64::MAX, 2];
    assert_eq!(power(2).apply(&fitnesses), vec![u64::MAX, 4]);
    let big: Vec<u64> = vec![2];
    assert_eq!(power(64).apply(&big), vec![u64::MAX]);
    assert_eq!(power(63).apply(&big), vec![1u64 << 63]);
}

#[test]
fn rank_orders_ascending_by_fitness() {
    // Rank 1 goes to the lowest fitness, N to the highest; weight = rank.
    let fitnesses: Vec<u64> = vec![10, 30, 20];
    assert_eq!(rank().apply(&fitnesses), vec![1, 3, 2]);
}

#[test]
fn rank_breaks_ties_by_position() {
    let fitnesses: Vec<u64> = vec![5, 5, 1];
    assert_eq!(rank().apply(&fitnesses), vec![2, 3, 1]);
}

#[test]
fn power_rank_squares_the_rank_vector() {
    let fitnesses: Vec<u64> = vec![10, 30, 20];
    assert_eq!(power_rank(2).apply(&fitnesses), vec![1, 9, 4]);
}
