use vstd::prelude::*;
use vstd::arithmetic::power2::pow2;
use crate::field::GoldilocksElement;
use crate::native::{NativeOutput, lemma_value_injective};
use crate::sponge::{
    CircuitPoseidon2Sponge, SpongeModel, rf3, spec_absorb_single_gl, spec_absorb_gl_seq,
    spec_finalize, spec_finalize_reset,
};

verus! {

/// The hash of a finite sequence of base-field elements: absorb each into a
/// fresh sponge, then take the first commitment lane.
pub open spec fn spec_hash_into_leaf(vals: Seq<int>) -> int {
    spec_finalize(spec_absorb_gl_seq(SpongeModel::empty(), vals)).0[0]
}

/// The compression of two node hashes: they are loaded into the first two
/// lanes over an empty capacity lane, permuted once, and the first lane is
/// the parent hash.
pub open spec fn spec_hash_into_node(left: int, right: int) -> int {
    rf3(seq![left, right, 0])[0]
}

/// The index a sequence of selector bits encodes, least significant bit
/// first.
pub open spec fn spec_bits_to_index(bits: Seq<bool>) -> int
    decreases bits.len(),
{
    if bits.len() == 0 {
        0
    } else {
        (if bits[0] {
            1int
        } else {
            0int
        }) + 2 * spec_bits_to_index(bits.drop_first())
    }
}

/// The encoded index grows bit by bit with positional weights.
proof fn lemma_bits_to_index_take_step(bits: Seq<bool>, k: int)
    requires
        0 <= k < bits.len(),
    ensures
        spec_bits_to_index(bits.take(k + 1)) == spec_bits_to_index(bits.take(k)) + (if bits[k] {
            pow2(k as nat) as int
        } else {
            0int
        }),
    decreases k,
{
    if k == 0 {
        assert(bits.take(1).drop_first() =~= bits.take(0));
        assert(bits.take(0) =~= Seq::<bool>::empty());
        assert(pow2(0) == 1) by {
            vstd::arithmetic::power2::lemma2_to64();
        };
    } else {
        let rest = bits.drop_first();
        lemma_bits_to_index_take_step(rest, k - 1);
        assert(bits.take(k + 1).drop_first() =~= rest.take(k));
        assert(bits.take(k).drop_first() =~= rest.take(k - 1));
        assert(bits.take(k + 1)[0] == bits[0]);
        assert(bits.take(k)[0] == bits[0]);
        assert(rest[k - 1] == bits[k]);
        assert(pow2(k as nat) == 2 * pow2((k - 1) as nat)) by {
            vstd::arithmetic::power2::lemma_pow2_unfold(k as nat);
        };
    }
}

/// The encoded index is bounded by the number of values the bits can address.
pub proof fn lemma_bits_to_index_bound(bits: Seq<bool>)
    ensures
        0 <= spec_bits_to_index(bits) < pow2(bits.len()),
    decreases bits.len(),
{
    if bits.len() == 0 {
        assert(pow2(0) == 1) by {
            vstd::arithmetic::power2::lemma2_to64();
        };
    } else {
        lemma_bits_to_index_bound(bits.drop_first());
        assert(pow2(bits.len()) == 2 * pow2((bits.len() - 1) as nat)) by {
            vstd::arithmetic::power2::lemma_pow2_unfold(bits.len());
        };
    }
}

/// Hashing a sequence in one shot agrees with accumulating its elements one
/// at a time into a fresh hasher and finalizing with a reset: the two
/// finalizations produce the same leaf hash from any sponge state.
pub proof fn lemma_hash_into_leaf_agreement(vals: Seq<int>)
    ensures
        spec_hash_into_leaf(vals) == spec_finalize_reset(
            spec_absorb_gl_seq(SpongeModel::empty(), vals),
        ).0[0],
{
}

impl CircuitPoseidon2Sponge {
    /// A canonical zero output, used where a hash is structurally required
    /// but not yet meaningful.
    pub fn placeholder_output() -> (r: NativeOutput)
        ensures
            r.value() == 0,
            r.valid(),
    {
        NativeOutput::zero()
    }

    /// Absorbs one base-field element into an in-progress leaf hash.
    pub fn accumulate_into_leaf(&mut self, value: &GoldilocksElement)
        requires
            old(self).wf(),
            value.valid(),
        ensures
            final(self).wf(),
            final(self).model() == spec_absorb_single_gl(old(self).model(), value.value as int),
    {
        self.absorb_single_gl(value);
    }

    /// Produces the leaf hash of everything absorbed so far and resets the
    /// sponge to the empty state.
    pub fn finalize_into_leaf_hash_and_reset(&mut self) -> (r: NativeOutput)
        requires
            old(self).wf(),
        ensures
            final(self).wf(),
            final(self).model() == SpongeModel::empty(),
            r.value() == spec_finalize_reset(old(self).model()).0[0],
            r.valid(),
    {
        let (r0, _r1) = self.finalize_reset();
        r0
    }

    /// One-shot hash of a sequence of base-field elements into a single
    /// output.
    pub fn hash_into_leaf(source: &Vec<GoldilocksElement>) -> (r: NativeOutput)
        requires
            forall|i: int| 0 <= i < source@.len() ==> (#[trigger] source@[i]).valid(),
        ensures
            r.value() == spec_hash_into_leaf(source@.map(|i: int, v: GoldilocksElement| v.value as int)),
            r.valid(),
    {
        let ghost all = source@.map(|i: int, v: GoldilocksElement| v.value as int);
        let mut hasher = CircuitPoseidon2Sponge::new();
        proof {
            assert(all.skip(0) =~= all);
        }
        let mut idx: usize = 0;
        while idx < source.len()
            invariant
                hasher.wf(),
                idx <= source@.len(),
                forall|i: int| 0 <= i < source@.len() ==> (#[trigger] source@[i]).valid(),
                all == source@.map(|i: int, v: GoldilocksElement| v.value as int),
                spec_absorb_gl_seq(hasher.model(), all.skip(idx as int))
                    == spec_absorb_gl_seq(SpongeModel::empty(), all),
            decreases source@.len() - idx,
        {
            proof {
                assert(all.skip(idx as int).len() > 0);
                assert(all.skip(idx as int)[0] == source@[idx as int].value as int);
                assert(all.skip(idx as int).drop_first() =~= all.skip(idx as int + 1));
            }
            hasher.absorb_single_gl(&source[idx]);
            idx = idx + 1;
        }
        proof {
            assert(all.skip(source@.len() as int) =~= Seq::<int>::empty());
        }
        let (r0, _r1) = hasher.finalize();
        r0
    }

    /// As hash_into_leaf, taking the elements by value.
    pub fn hash_into_leaf_owned(source: Vec<GoldilocksElement>) -> (r: NativeOutput)
        requires
            forall|i: int| 0 <= i < source@.len() ==> (#[trigger] source@[i]).valid(),
        ensures
            r.value() == spec_hash_into_leaf(source@.map(|i: int, v: GoldilocksElement| v.value as int)),
            r.valid(),
    {
        CircuitPoseidon2Sponge::hash_into_leaf(&source)
    }

    /// Returns the pair unchanged or reversed, depending on the selector: a
    /// data-independent selection, so the work done does not depend on the
    /// bit. The depth is accepted for interface parity and does not vary the
    /// result.
    pub fn swap_nodes(should_swap: bool, left: &NativeOutput, right: &NativeOutput, _depth: usize) -> (r: (
        NativeOutput,
        NativeOutput,
    ))
        ensures
            !should_swap ==> r == (*left, *right),
            should_swap ==> r == (*right, *left),
    {
        if should_swap {
            (*right, *left)
        } else {
            (*left, *right)
        }
    }

    /// The compression function for internal tree nodes; the depth is
    /// accepted for interface parity and does not vary the hash.
    pub fn hash_into_node(left: &NativeOutput, right: &NativeOutput, _depth: usize) -> (r: NativeOutput)
        requires
            left.valid(),
            right.valid(),
        ensures
            r.value() == spec_hash_into_node(left.value(), right.value()),
            r.valid(),
    {
        let zero = NativeOutput::zero();
        let (r0, _r1, _r2) = crate::sponge::apply_round_function(left, right, &zero);
        r0
    }

    /// Selects the cap element addressed by the selector bits through a
    /// balanced binary reduction: at each level, adjacent pairs are merged by
    /// the level's bit, halving the working set until one element remains.
    pub fn select_cap_node(cap_bits: &Vec<bool>, cap: &Vec<NativeOutput>) -> (r: NativeOutput)
        requires
            cap_bits@.len() > 0,
            cap_bits@.len() < 30,
            cap@.len() == pow2(cap_bits@.len()),
        ensures
            r == cap@[spec_bits_to_index(cap_bits@)],
    {
        let mut work: Vec<NativeOutput> = Vec::new();
        let mut copy_idx: usize = 0;
        proof {
            vstd::arithmetic::power2::lemma2_to64();
        }
        while copy_idx < cap.len()
            invariant
                copy_idx <= cap@.len(),
                work@ =~= cap@.take(copy_idx as int),
            decreases cap@.len() - copy_idx,
        {
            work.push(cap[copy_idx]);
            copy_idx = copy_idx + 1;
        }
        proof {
            assert(work@ =~= cap@);
            assert(cap@.take(0) =~= Seq::<NativeOutput>::empty());
        }
        let mut level: usize = 0;
        while level < cap_bits.len()
            invariant
                level <= cap_bits@.len(),
                cap_bits@.len() < 30,
                cap@.len() == pow2(cap_bits@.len()),
                work@.len() == pow2((cap_bits@.len() - level) as nat),
                forall|j: int|
                    0 <= j < work@.len() ==> work@[j] == cap@[j * pow2(level as nat)
                        + spec_bits_to_index(cap_bits@.take(level as int))],
            decreases cap_bits@.len() - level,
        {
            let bit = cap_bits[level];
            let half: usize = work.len() / 2;
            proof {
                vstd::arithmetic::power2::lemma_pow2_unfold((cap_bits@.len() - level) as nat);
                vstd::arithmetic::power2::lemma_pow2_strictly_increases(
                    (cap_bits@.len() - level - 1) as nat,
                    32,
                );
                vstd::arithmetic::power2::lemma2_to64();
            }
            let mut dst: Vec<NativeOutput> = Vec::new();
            let mut j: usize = 0;
            while j < half
                invariant
                    j <= half,
                    half * 2 == work@.len(),
                    dst@.len() == j,
                    forall|i: int|
                        0 <= i < j ==> dst@[i] == (if bit {
                            work@[2 * i + 1]
                        } else {
                            work@[2 * i]
                        }),
                decreases half - j,
            {
                let wl: usize = work.len();
                proof {
                    assert(2 * (j as int) + 1 < wl as int);
                }
                let a = work[2 * j];
                let b = work[2 * j + 1];
                dst.push(if bit {
                    b
                } else {
                    a
                });
                j = j + 1;
            }
            proof {
                let lvl = level as int;
                let taken = spec_bits_to_index(cap_bits@.take(lvl));
                let p = pow2(level as nat) as int;
                lemma_bits_to_index_take_step(cap_bits@, lvl);
                lemma_bits_to_index_bound(cap_bits@.take(lvl));
                assert forall|i: int| 0 <= i < dst@.len() implies dst@[i] == cap@[i * pow2(
                    (level + 1) as nat,
                ) + spec_bits_to_index(cap_bits@.take(lvl + 1))] by {
                    vstd::arithmetic::power2::lemma_pow2_unfold((level + 1) as nat);
                    let bidx: int = if bit {
                        1
                    } else {
                        0
                    };
                    assert(dst@[i] == work@[2 * i + bidx]);
                    assert(work@[2 * i + bidx] == cap@[(2 * i + bidx) * p + taken]);
                    assert((2 * i + bidx) * p == 2 * i * p + bidx * p) by (nonlinear_arith);
                    assert(i * (2 * p) == 2 * i * p) by (nonlinear_arith);
                };
            }
            work = dst;
            level = level + 1;
        }
        proof {
            assert(cap_bits@.take(cap_bits@.len() as int) =~= cap_bits@);
            assert(work@[0] == cap@[0 * pow2(cap_bits@.len()) + spec_bits_to_index(cap_bits@)]);
        }
        let r = work[0];
        r
    }

    /// Equality of two outputs as a first-class flag for the validity
    /// conjunction.
    pub fn compare_output(a: &NativeOutput, b: &NativeOutput) -> (r: bool)
        ensures
            r == (a.value() == b.value()),
    {
        let eq = a.l0 == b.l0 && a.l1 == b.l1 && a.l2 == b.l2 && a.l3 == b.l3;
        proof {
            if a.value() == b.value() {
                lemma_value_injective(*a, *b);
            }
        }
        eq
    }
}

/// The absorption mode the commitment scheme uses: an absorbed element
/// replaces the state lane rather than being added into it.
pub struct AbsorptionModeReplacement;

impl AbsorptionModeReplacement {
    /// Overwrites the destination lane with the source.
    pub fn absorb(dst: &mut NativeOutput, src: &NativeOutput)
        ensures
            *final(dst) == *src,
    {
        *dst = *src;
    }
}

} // verus!
