use snark_wrapper_verifier::field::GoldilocksElement;
use snark_wrapper_verifier::native::NativeOutput;
use snark_wrapper_verifier::sponge::CircuitPoseidon2Sponge;
use snark_wrapper_verifier::tree_hasher::AbsorptionModeReplacement;

fn gl(x: u64) -> GoldilocksElement {
    GoldilocksElement::from_u64(x)
}

#[test]
fn swap_nodes_false_keeps_order() {
    let a = NativeOutput::from_u64(11);
    let b = NativeOutput::from_u64(22);
    let (l, r) = CircuitPoseidon2Sponge::swap_nodes(false, &a, &b, 0);
    assert_eq!((l, r), (a, b));
}

#[test]
fn swap_nodes_true_reverses() {
    let a = NativeOutput::from_u64(11);
    let b = NativeOutput::from_u64(22);
    let (l, r) = CircuitPoseidon2Sponge::swap_nodes(true, &a, &b, 0);
    assert_eq!((l, r), (b, a));
}

#[test]
fn select_cap_node_picks_every_index() {
    let cap: Vec<NativeOutput> = (0..8u64).map(|i| NativeOutput::from_u64(100 + i)).collect();
    for idx in 0..8usize {
        let bits = vec![idx & 1 != 0, idx & 2 != 0, idx & 4 != 0];
        let selected = CircuitPoseidon2Sponge::select_cap_node(&bits, &cap);
        assert_eq!(selected, cap[idx]);
    }
}

#[test]
fn leaf_hash_agrees_with_incremental_absorption() {
    let elements = vec![gl(1), gl(2), gl(3), gl(4), gl(5), gl(6), gl(7)];
    let one_shot = CircuitPoseidon2Sponge::hash_into_leaf(&elements);
    let mut hasher = CircuitPoseidon2Sponge::new();
    for el in elements.iter() {
        hasher.accumulate_into_leaf(el);
    }
    let incremental = hasher.finalize_into_leaf_hash_and_reset();
    assert_eq!(one_shot, incremental);
    let owned = CircuitPoseidon2Sponge::hash_into_leaf_owned(elements);
    assert_eq!(one_shot, owned);
}

#[test]
fn hash_into_node_mixes_its_inputs() {
    let a = NativeOutput::from_u64(1);
    let b = NativeOutput::from_u64(2);
    let ab = CircuitPoseidon2Sponge::hash_into_node(&a, &b, 0);
    let ba = CircuitPoseidon2Sponge::hash_into_node(&b, &a, 0);
    // the permutation actually ran: the result is neither input and the
    // compression is not symmetric
    assert_ne!(ab, a);
    assert_ne!(ab, b);
    assert_ne!(ab, ba);
    // and it is a function of its inputs
    assert_eq!(ab, CircuitPoseidon2Sponge::hash_into_node(&a, &b, 0));
}

#[test]
fn leaf_hash_depends_on_every_element() {
    let h1 = CircuitPoseidon2Sponge::hash_into_leaf(&vec![gl(1), gl(2)]);
    let h2 = CircuitPoseidon2Sponge::hash_into_leaf(&vec![gl(1), gl(3)]);
    let h3 = CircuitPoseidon2Sponge::hash_into_leaf(&vec![gl(1)]);
    assert_ne!(h1, h2);
    assert_ne!(h1, h3);
}

#[test]
fn compare_output_is_value_equality() {
    let a = NativeOutput::from_u64(7);
    let b = NativeOutput::from_u64(7);
    let c = NativeOutput::from_u64(8);
    assert!(CircuitPoseidon2Sponge::compare_output(&a, &b));
    assert!(!CircuitPoseidon2Sponge::compare_output(&a, &c));
}

#[test]
fn placeholder_output_is_zero() {
    let z = CircuitPoseidon2Sponge::placeholder_output();
    assert_eq!(z, NativeOutput::from_u64(0));
}

#[test]
fn absorption_mode_replaces() {
    let mut dst = NativeOutput::from_u64(5);
    let src = NativeOutput::from_u64(9);
    AbsorptionModeReplacement::absorb(&mut dst, &src);
    assert_eq!(dst, src);
}
