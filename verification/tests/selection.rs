use abc::roulette_pick;

#[test]
fn roulette_returns_first_index_whose_cumulative_weight_exceeds_the_draw() {
    let weights: Vec<u64> = vec![2, 3];
    let scouting = vec![false, false];
    assert_eq!(roulette_pick(&weights, &scouting, 0), 0);
    assert_eq!(roulette_pick(&weights, &scouting, 1), 0);
    assert_eq!(roulette_pick(&weights, &scouting, 2), 1);
    assert_eq!(roulette_pick(&weights, &scouting, 3), 1);
    assert_eq!(roulette_pick(&weights, &scouting, 4), 1);
}

#[test]
fn roulette_never_returns_a_scouting_index() {
    // The middle slot is mid-regeneration: the eligible cumulative weights
    // are 1 (slot 0) and 2 (slot 2), so every draw lands outside slot 1.
    let weights: Vec<u64> = vec![1, 1, 1];
    let scouting = vec![false, true, false];
    for draw in 0..2u128 {
        let picked = roulette_pick(&weights, &scouting, draw);
        assert!(!scouting[picked]);
    }
    assert_eq!(roulette_pick(&weights, &scouting, 0), 0);
    assert_eq!(roulette_pick(&weights, &scouting, 1), 2);
}

#[test]
fn roulette_skips_zero_weight_entries() {
    let weights: Vec<u64> = vec![0, 5, 0, 5];
    let scouting = vec![false, false, false, false];
    assert_eq!(roulette_pick(&weights, &scouting, 0), 1);
    assert_eq!(roulette_pick(&weights, &scouting, 4), 1);
    assert_eq!(roulette_pick(&weights, &scouting, 5), 3);
    assert_eq!(roulette_pick(&weights, &scouting, 9), 3);
}
