use vstd::prelude::*;
use vstd::arithmetic::power2::pow2;
use crate::field::GoldilocksElement;
use crate::native::NativeOutput;
use crate::sponge::{
    CircuitPoseidon2Sponge, SpongeModel, spec_absorb_single_gl, spec_finalize_reset,
};
use crate::tree_hasher::{spec_hash_into_leaf, spec_hash_into_node, spec_bits_to_index};

verus! {

/// The interface of a tree hasher over base-field leaves: the verifier is
/// written against this surface, so another sponge construction can stand in
/// for the provided one as long as it honours the same state machine.
pub trait CircuitGLTreeHasher: Sized {
    /// The sponge state the hasher holds.
    spec fn hasher_model(&self) -> SpongeModel;

    /// Well-formedness of the hasher's state.
    spec fn hasher_wf(&self) -> bool;

    fn new() -> (r: Self)
        ensures
            r.hasher_wf(),
            r.hasher_model() == SpongeModel::empty(),
    ;

    fn placeholder_output() -> (r: NativeOutput)
        ensures
            r.value() == 0,
            r.valid(),
    ;

    fn accumulate_into_leaf(&mut self, value: &GoldilocksElement)
        requires
            old(self).hasher_wf(),
            value.valid(),
        ensures
            final(self).hasher_wf(),
            final(self).hasher_model() == spec_absorb_single_gl(
                old(self).hasher_model(),
                value.value as int,
            ),
    ;

    fn finalize_into_leaf_hash_and_reset(&mut self) -> (r: NativeOutput)
        requires
            old(self).hasher_wf(),
        ensures
            final(self).hasher_wf(),
            final(self).hasher_model() == SpongeModel::empty(),
            r.value() == spec_finalize_reset(old(self).hasher_model()).0[0],
            r.valid(),
    ;

    fn hash_into_leaf(source: &Vec<GoldilocksElement>) -> (r: NativeOutput)
        requires
            forall|i: int| 0 <= i < source@.len() ==> (#[trigger] source@[i]).valid(),
        ensures
            r.value() == spec_hash_into_leaf(
                source@.map(|i: int, v: GoldilocksElement| v.value as int),
            ),
            r.valid(),
    ;

    fn hash_into_leaf_owned(source: Vec<GoldilocksElement>) -> (r: NativeOutput)
        requires
            forall|i: int| 0 <= i < source@.len() ==> (#[trigger] source@[i]).valid(),
        ensures
            r.value() == spec_hash_into_leaf(
                source@.map(|i: int, v: GoldilocksElement| v.value as int),
            ),
            r.valid(),
    ;

    fn swap_nodes(should_swap: bool, left: &NativeOutput, right: &NativeOutput, depth: usize) -> (r:
        (NativeOutput, NativeOutput))
        ensures
            !should_swap ==> r == (*left, *right),
            should_swap ==> r == (*right, *left),
    ;

    fn hash_into_node(left: &NativeOutput, right: &NativeOutput, depth: usize) -> (r: NativeOutput)
        requires
            left.valid(),
            right.valid(),
        ensures
            r.value() == spec_hash_into_node(left.value(), right.value()),
            r.valid(),
    ;

    fn select_cap_node(cap_bits: &Vec<bool>, cap: &Vec<NativeOutput>) -> (r: NativeOutput)
        requires
            cap_bits@.len() > 0,
            cap_bits@.len() < 30,
            cap@.len() == pow2(cap_bits@.len()),
        ensures
            r == cap@[spec_bits_to_index(cap_bits@)],
    ;

    fn compare_output(a: &NativeOutput, b: &NativeOutput) -> (r: bool)
        ensures
            r == (a.value() == b.value()),
    ;
}

impl CircuitGLTreeHasher for CircuitPoseidon2Sponge {
    open spec fn hasher_model(&self) -> SpongeModel {
        self.model()
    }

    open spec fn hasher_wf(&self) -> bool {
        self.wf()
    }

    fn new() -> (r: Self) {
        CircuitPoseidon2Sponge::new()
    }

    fn placeholder_output() -> (r: NativeOutput) {
        CircuitPoseidon2Sponge::placeholder_output()
    }

    fn accumulate_into_leaf(&mut self, value: &GoldilocksElement) {
        CircuitPoseidon2Sponge::accumulate_into_leaf(self, value)
    }

    fn finalize_into_leaf_hash_and_reset(&mut self) -> (r: NativeOutput) {
        CircuitPoseidon2Sponge::finalize_into_leaf_hash_and_reset(self)
    }

    fn hash_into_leaf(source: &Vec<GoldilocksElement>) -> (r: NativeOutput) {
        CircuitPoseidon2Sponge::hash_into_leaf(source)
    }

    fn hash_into_leaf_owned(source: Vec<GoldilocksElement>) -> (r: NativeOutput) {
        CircuitPoseidon2Sponge::hash_into_leaf_owned(source)
    }

    fn swap_nodes(should_swap: bool, left: &NativeOutput, right: &NativeOutput, depth: usize) -> (r:
        (NativeOutput, NativeOutput)) {
        CircuitPoseidon2Sponge::swap_nodes(should_swap, left, right, depth)
    }

    fn hash_into_node(left: &NativeOutput, right: &NativeOutput, depth: usize) -> (r:
        NativeOutput) {
        CircuitPoseidon2Sponge::hash_into_node(left, right, depth)
    }

    fn select_cap_node(cap_bits: &Vec<bool>, cap: &Vec<NativeOutput>) -> (r: NativeOutput) {
        CircuitPoseidon2Sponge::select_cap_node(cap_bits, cap)
    }

    fn compare_output(a: &NativeOutput, b: &NativeOutput) -> (r: bool) {
        CircuitPoseidon2Sponge::compare_output(a, b)
    }
}

/// The interface of a proof-of-work check over transcript challenges: the
/// backend embedding the verifier implements it; no implementation belongs
/// to this crate.
pub trait RecursivePoWRunner {
    /// Checks the proof-of-work challenge against the seed and returns the
    /// validity flag with the challenge in two base-field limbs.
    fn verify_from_field_elements(
        seed: Vec<GoldilocksElement>,
        pow_challenge: Vec<bool>,
        pow_bits: usize,
    ) -> (r: (bool, GoldilocksElement, GoldilocksElement));
}

} // verus!
