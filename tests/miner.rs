use qiner::miner::{compute_score, mask_links, reset_values, Miner, NeuronData};
use qiner::types::{NEURON_MOD_BITS, NUMBER_OF_NEURONS};

fn link_word(a: u64, b: u64) -> u64 {
    a | (b << 32)
}

#[test]
fn masking_vector_all_ones() {
    let mut links = vec![0xFFFF_FFFF_FFFF_FFFFu64];
    mask_links(&mut links);
    assert_eq!(links[0] & 0xFFFF_FFFF, 0x003F_FFFF);
    assert_eq!(links[0] >> 32, 0x003F_FFFF);
    assert_eq!((NUMBER_OF_NEURONS - 1) as u64, 0x003F_FFFF);
}

#[test]
fn masked_links_are_below_neuron_count() {
    let mut links = vec![0u64; 1000];
    qiner::math::random_64(&[1, 2, 3, 4], &[5, 6, 7, 8], &mut links);
    let raw = links.clone();
    mask_links(&mut links);
    for (w, r) in links.iter().zip(raw.iter()) {
        assert_eq!(*w, *r & NEURON_MOD_BITS);
        assert!(((*w & 0xFFFF_FFFF) as usize) < NUMBER_OF_NEURONS);
        assert!(((*w >> 32) as usize) < NUMBER_OF_NEURONS);
    }
}

#[test]
fn reset_values_sets_every_byte() {
    let mut values = vec![0u8, 1, 2, 0xFF, 7];
    reset_values(&mut values);
    assert_eq!(values, vec![0xFFu8; 5]);
}

#[test]
fn threshold_gating_a_then_b_event() {
    // neuron 0 toggles; neuron 2 follows its negation; neuron 3 reads neuron 2
    // before the update, so the last neuron moves first and the one before it next.
    let links = vec![link_word(0, 0), link_word(1, 1), link_word(0, 0), link_word(2, 2)];
    let mut values = vec![0xFFu8; 4];
    let tape = vec![1u64];
    let score = compute_score(&links, &mut values, &tape);
    assert_eq!(score, 2);
    assert!(score >= 1);
}

#[test]
fn a_event_on_clear_bit_ends_the_loop() {
    let links = vec![link_word(0, 0), link_word(1, 1), link_word(0, 0), link_word(2, 2)];
    let mut values = vec![0xFFu8; 4];
    let tape = vec![0u64];
    assert_eq!(compute_score(&links, &mut values, &tape), 0);
    assert_eq!(values, vec![0x00, 0x00, 0xFF, 0x00]);
}

#[test]
fn b_event_on_set_bit_ends_the_loop() {
    let links = vec![link_word(0, 0), link_word(1, 1), link_word(0, 0), link_word(2, 2)];
    let mut values = vec![0xFFu8; 4];
    let tape = vec![0b11u64];
    assert_eq!(compute_score(&links, &mut values, &tape), 1);
}

#[test]
fn quiet_rounds_run_out() {
    // both neurons change every round: no event, the quiet budget runs out
    let links = vec![link_word(0, 0), link_word(0, 0)];
    let mut values = vec![0xFFu8; 2];
    let tape = vec![u64::MAX; 4];
    assert_eq!(compute_score(&links, &mut values, &tape), 0);
    assert_eq!(values, vec![0xFFu8; 2]);
}

#[test]
fn fixed_circuit_runs_out_of_quiet_rounds() {
    // every neuron reads values that keep it where it is: nothing ever changes
    let mut values = vec![0xFFu8, 0xFF, 0x00, 0xFF];
    let links = vec![link_word(0, 2), link_word(1, 2), link_word(3, 3), link_word(2, 2)];
    let tape = vec![0u64; 16];
    assert_eq!(compute_score(&links, &mut values, &tape), 0);
}

#[test]
fn score_stops_when_every_tape_bit_matches() {
    // the last neuron toggles alone every round: an A-event each time
    let links = vec![link_word(0, 2), link_word(1, 2), link_word(1, 1), link_word(3, 3)];
    let mut values = vec![0xFFu8, 0xFF, 0x00, 0xFF];
    let tape = vec![u64::MAX; 2];
    assert_eq!(compute_score(&links, &mut values, &tape), 128);
}

fn miner_with_threshold(threshold: usize) -> Miner {
    let mut seed = [0u8; 32];
    for (i, b) in seed.iter_mut().enumerate() {
        *b = (i * 7 + 3) as u8;
    }
    Miner::new([11, 22, 33, 44], 2, &seed, threshold)
}

#[test]
fn zero_threshold_accepts_first_attempt() {
    let miner = miner_with_threshold(0);
    let mut data = NeuronData::new();
    assert!(miner.find_solution(&[1, 2, 3, 4], &mut data));
}

#[test]
fn threshold_above_tape_rejects() {
    let miner = miner_with_threshold(65_537);
    let mut data = NeuronData::new();
    assert!(!miner.find_solution(&[1, 2, 3, 4], &mut data));
    assert_eq!(miner.get_solution_threshold(), 65_537);
    assert_eq!(miner.get_num_threads(), 2);
}

#[test]
fn scoring_is_deterministic() {
    let miner = miner_with_threshold(1);
    let mut data = NeuronData::new();
    let first = miner.score(&[9, 8, 7, 6], &mut data);
    let found = miner.find_solution(&[9, 8, 7, 6], &mut data);
    let mut other = NeuronData::new();
    let _ = miner.score(&[1, 1, 1, 1], &mut other);
    let second = miner.score(&[9, 8, 7, 6], &mut other);
    assert_eq!(first, second);
    assert_eq!(found, first >= 1);
    assert!(first <= 65_536);
}
