use snark_wrapper_verifier::field::{GoldilocksElement, GL_MODULUS};
use snark_wrapper_verifier::native::NativeOutput;
use snark_wrapper_verifier::transcript::{CircuitPoseidon2Transcript, get_challenges_from_num};

fn gl(x: u64) -> GoldilocksElement {
    GoldilocksElement::from_u64(x)
}

#[test]
fn challenges_are_deterministic() {
    let feed = vec![gl(5), gl(17), gl(900), gl(3)];
    let cap = vec![NativeOutput::from_u64(77), NativeOutput::from_u64(88)];
    let mut t1 = CircuitPoseidon2Transcript::new();
    let mut t2 = CircuitPoseidon2Transcript::new();
    t1.witness_field_elements(&feed);
    t2.witness_field_elements(&feed);
    t1.witness_merkle_tree_cap(&cap);
    t2.witness_merkle_tree_cap(&cap);
    for _ in 0..10 {
        assert_eq!(t1.get_challenge().value, t2.get_challenge().value);
    }
}

#[test]
fn packing_round_trip_in_one_call_or_one_at_a_time() {
    for chunk_by in 1..=3usize {
        let elements = vec![gl(9), gl(8), gl(7), gl(6), gl(5), gl(4), gl(3)];
        let mut bulk = CircuitPoseidon2Transcript::new_with_chunk_size(chunk_by);
        bulk.witness_field_elements(&elements);
        let mut single = CircuitPoseidon2Transcript::new_with_chunk_size(chunk_by);
        for el in elements.iter() {
            single.witness_field_elements(&vec![*el]);
        }
        assert_eq!(bulk.buffer, single.buffer);
        assert_eq!(bulk.last_filled, single.last_filled);
        // and both continue to the same challenge
        assert_eq!(bulk.get_challenge().value, single.get_challenge().value);
    }
}

#[test]
fn packing_splits_agree() {
    let left = vec![gl(1), gl(2)];
    let right = vec![gl(3), gl(4), gl(5)];
    let mut whole = CircuitPoseidon2Transcript::new();
    whole.witness_field_elements(&vec![gl(1), gl(2), gl(3), gl(4), gl(5)]);
    let mut split = CircuitPoseidon2Transcript::new();
    split.witness_field_elements(&left);
    split.witness_field_elements(&right);
    assert_eq!(whole.buffer, split.buffer);
    assert_eq!(whole.last_filled, split.last_filled);
}

#[test]
fn cap_absorption_starts_a_fresh_chunk() {
    let mut t = CircuitPoseidon2Transcript::new();
    t.witness_field_elements(&vec![gl(1)]);
    assert_eq!(t.last_filled, 1);
    t.witness_merkle_tree_cap(&vec![NativeOutput::from_u64(42)]);
    assert_eq!(t.last_filled, 0);
    assert_eq!(t.buffer.len(), 2);
}

#[test]
fn pool_exhaustion_triggers_a_resqueeze() {
    let mut t = CircuitPoseidon2Transcript::new();
    t.witness_field_elements(&vec![gl(1), gl(2), gl(3), gl(4)]);
    let first = t.get_challenge();
    // one absorption yields six pooled candidates; the first was served
    assert_eq!(t.available_challenges.len(), 5);
    assert!(t.buffer.is_empty());
    let mut seen = vec![first];
    for _ in 0..9 {
        seen.push(t.get_challenge());
    }
    // ten challenges forced a re-squeeze with no new input after the first six
    assert_eq!(t.available_challenges.len(), 2);
    // replaying the same operations reproduces the full stream
    let mut replay = CircuitPoseidon2Transcript::new();
    replay.witness_field_elements(&vec![gl(1), gl(2), gl(3), gl(4)]);
    for expected in seen.iter() {
        assert_eq!(replay.get_challenge().value, expected.value);
    }
}

#[test]
fn buffered_data_replaces_the_pool() {
    let mut t = CircuitPoseidon2Transcript::new();
    t.witness_field_elements(&vec![gl(1)]);
    let _ = t.get_challenge();
    assert_eq!(t.available_challenges.len(), 5);
    t.witness_field_elements(&vec![gl(2)]);
    let _ = t.get_challenge();
    // the stale pool was discarded and a fresh batch derived
    assert_eq!(t.available_challenges.len(), 5);
}

#[test]
fn challenges_from_num_reduce_the_low_limbs() {
    let num = NativeOutput { l0: GL_MODULUS, l1: 7, l2: 9, l3: 0 };
    let challenges = get_challenges_from_num(&num);
    assert_eq!(challenges.len(), 3);
    assert_eq!(challenges[0].value, 0);
    assert_eq!(challenges[1].value, 7);
    assert_eq!(challenges[2].value, 9);
}
