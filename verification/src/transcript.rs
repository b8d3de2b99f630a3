use vstd::prelude::*;
use crate::field::{GoldilocksElement, GL_MODULUS};
use crate::native::{NativeOutput, spec_limb, spec_limb_weight, limb_radix, lemma_limbs_are_digits};
use crate::sponge::{
    CircuitPoseidon2Sponge, SpongeModel, rf3, spec_absorb_seq, spec_finalize,
};

verus! {

/// The mathematical state of the Fiat-Shamir transcript: the pending buffer
/// of packed native values, the partial occupancy of its last entry, the
/// packing width, the pool of derived but unconsumed challenges, and the
/// sponge.
pub struct TranscriptModel {
    pub buffer: Seq<int>,
    pub last_filled: nat,
    pub chunk_by: nat,
    pub pool: Seq<int>,
    pub sponge: SpongeModel,
}

impl TranscriptModel {
    pub open spec fn empty(chunk_by: nat) -> TranscriptModel {
        TranscriptModel {
            buffer: Seq::empty(),
            last_filled: 0,
            chunk_by,
            pool: Seq::empty(),
            sponge: SpongeModel::empty(),
        }
    }
}

/// Buffering one base-field element: a fresh chunk starts a new buffer entry;
/// a partial chunk continues filling the last entry at the next 64-bit
/// position. No permutation runs.
pub open spec fn spec_witness_one(t: TranscriptModel, v: int) -> TranscriptModel {
    let buffer = if t.last_filled == 0 {
        t.buffer.push(v)
    } else {
        t.buffer.update(
            t.buffer.len() - 1,
            t.buffer[t.buffer.len() - 1] + v * spec_limb_weight(t.last_filled as int),
        )
    };
    TranscriptModel {
        buffer,
        last_filled: ((t.last_filled + 1) % t.chunk_by) as nat,
        ..t
    }
}

/// Buffering a sequence of base-field elements, one at a time.
pub open spec fn spec_witness_seq(t: TranscriptModel, vs: Seq<int>) -> TranscriptModel
    decreases vs.len(),
{
    if vs.len() == 0 {
        t
    } else {
        spec_witness_seq(spec_witness_one(t, vs[0]), vs.drop_first())
    }
}

/// Absorbing a commitment cap: the packing counter resets, so a cap is never
/// packed together with preceding field elements, and the cap's elements are
/// appended as whole entries.
pub open spec fn spec_witness_cap(t: TranscriptModel, cap: Seq<int>) -> TranscriptModel {
    TranscriptModel { buffer: t.buffer + cap, last_filled: 0, ..t }
}

/// The three base-field challenges carried by one native value: its three
/// low 64-bit digits, each reduced into the base field.
pub open spec fn spec_challenges_from_value(v: int) -> Seq<int> {
    let r = limb_radix();
    let p = GL_MODULUS as int;
    seq![(v % r) % p, ((v / r) % r) % p, ((v / (r * r)) % r) % p]
}

/// The challenge batch derived from a commitment: three challenges from each
/// of the two commitment lanes.
pub open spec fn spec_pool_from_commitment(c0: int, c1: int) -> Seq<int> {
    spec_challenges_from_value(c0) + spec_challenges_from_value(c1)
}

/// One challenge request. With challenges pooled and nothing buffered, the
/// first pooled challenge is consumed. With the buffer empty and the pool
/// exhausted, the permutation is re-run with no new input and a fresh batch
/// is derived from the commitment. With data buffered, the whole buffer is
/// absorbed, the pool is replaced by the batch derived from the new
/// commitment, and the first of it is consumed.
#[verifier::opaque]
pub open spec fn spec_get_challenge(t: TranscriptModel) -> (int, TranscriptModel) {
    if t.buffer.len() == 0 {
        if t.pool.len() > 0 {
            (t.pool[0], TranscriptModel { pool: t.pool.drop_first(), ..t })
        } else {
            let state = rf3(t.sponge.state);
            let pool = spec_pool_from_commitment(state[0], state[1]);
            (
                pool[0],
                TranscriptModel {
                    pool: pool.drop_first(),
                    sponge: SpongeModel { state, ..t.sponge },
                    ..t
                },
            )
        }
    } else {
        let m1 = spec_absorb_seq(t.sponge, t.buffer);
        let fin = spec_finalize(m1);
        let pool = spec_pool_from_commitment(fin.0[0], fin.0[1]);
        (
            pool[0],
            TranscriptModel {
                buffer: Seq::empty(),
                last_filled: 0,
                chunk_by: t.chunk_by,
                pool: pool.drop_first(),
                sponge: fin.1,
            },
        )
    }
}

/// The stream of challenges a transcript state yields under repeated
/// requests.
pub open spec fn spec_challenge_stream(t: TranscriptModel, n: nat) -> Seq<int>
    decreases n,
{
    if n == 0 {
        Seq::empty()
    } else {
        let step = spec_get_challenge(t);
        seq![step.0] + spec_challenge_stream(step.1, (n - 1) as nat)
    }
}

/// Reduces one native value into three base-field challenge candidates: its
/// three low 64-bit digits, each reduced modulo the base-field prime.
pub fn get_challenges_from_num(num: &NativeOutput) -> (r: Vec<GoldilocksElement>)
    ensures
        r@.map(|i: int, c: GoldilocksElement| c.value as int) == spec_challenges_from_value(
            num.value(),
        ),
        r@.len() == 3,
        forall|i: int| 0 <= i < r@.len() ==> (#[trigger] r@[i]).valid(),
{
    let mut result: Vec<GoldilocksElement> = Vec::new();
    result.push(GoldilocksElement::from_u64(num.limb(0)));
    result.push(GoldilocksElement::from_u64(num.limb(1)));
    result.push(GoldilocksElement::from_u64(num.limb(2)));
    proof {
        lemma_limbs_are_digits(*num);
        assert(result@.map(|i: int, c: GoldilocksElement| c.value as int)
            =~= spec_challenges_from_value(num.value()));
    }
    result
}

/// The Fiat-Shamir transcript: it buffers absorbed data packed for
/// efficiency, and squeezes reproducible base-field challenges on demand.
#[derive(Clone, Debug)]
pub struct CircuitPoseidon2Transcript {
    pub buffer: Vec<NativeOutput>,
    pub last_filled: usize,
    pub chunk_by: usize,
    pub available_challenges: Vec<GoldilocksElement>,
    pub sponge: CircuitPoseidon2Sponge,
}

impl CircuitPoseidon2Transcript {
    /// The mathematical state this transcript holds.
    pub open spec fn model(self) -> TranscriptModel {
        TranscriptModel {
            buffer: self.buffer@.map(|i: int, v: NativeOutput| v.value()),
            last_filled: self.last_filled as nat,
            chunk_by: self.chunk_by as nat,
            pool: self.available_challenges@.map(|i: int, c: GoldilocksElement| c.value as int),
            sponge: self.sponge.model(),
        }
    }

    /// Well-formedness: the packing counter marks partial occupancy of the
    /// last buffer entry, every held value is reduced, and the sponge holds
    /// no partially absorbed data (flush-before-squeeze).
    pub open spec fn wf(self) -> bool {
        &&& 1 <= self.chunk_by <= 3
        &&& self.last_filled < self.chunk_by
        &&& self.sponge.wf()
        &&& self.sponge.filled == 0
        &&& forall|i: int| 0 <= i < self.buffer@.len() ==> (#[trigger] self.buffer@[i]).valid()
        &&& forall|i: int|
            0 <= i < self.available_challenges@.len() ==> (
            #[trigger] self.available_challenges@[i]).valid()
        &&& (self.last_filled > 0 ==> self.buffer@.len() > 0)
        &&& (self.last_filled > 0 ==> self.buffer@[self.buffer@.len() - 1].l3 == 0)
        &&& (self.last_filled == 1 ==> self.buffer@[self.buffer@.len() - 1].l1 == 0)
        &&& (self.last_filled > 0 ==> self.buffer@[self.buffer@.len() - 1].l2 == 0)
    }

    /// A fresh transcript, packing three base-field elements per native
    /// entry, as the native field's capacity allows.
    pub fn new() -> (r: Self)
        ensures
            r.wf(),
            r.model() == TranscriptModel::empty(3),
    {
        Self::new_with_chunk_size(3)
    }

    /// A fresh transcript with a chosen packing width.
    pub fn new_with_chunk_size(chunk_by: usize) -> (r: Self)
        requires
            1 <= chunk_by <= 3,
        ensures
            r.wf(),
            r.model() == TranscriptModel::empty(chunk_by as nat),
    {
        let r = CircuitPoseidon2Transcript {
            buffer: Vec::new(),
            last_filled: 0,
            chunk_by,
            available_challenges: Vec::new(),
            sponge: CircuitPoseidon2Sponge::new(),
        };
        proof {
            assert(r.model().buffer =~= TranscriptModel::empty(chunk_by as nat).buffer);
            assert(r.model().pool =~= TranscriptModel::empty(chunk_by as nat).pool);
        }
        r
    }

    /// Appends base-field elements to the pending buffer under the packing
    /// scheme: each element lands in the next 64-bit position of the current
    /// chunk, and a new chunk opens whenever the previous one is complete.
    /// No permutation runs: this is pure buffering.
    pub fn witness_field_elements(&mut self, field_els: &Vec<GoldilocksElement>)
        requires
            old(self).wf(),
            forall|i: int| 0 <= i < field_els@.len() ==> (#[trigger] field_els@[i]).valid(),
        ensures
            final(self).wf(),
            final(self).model() == spec_witness_seq(
                old(self).model(),
                field_els@.map(|i: int, v: GoldilocksElement| v.value as int),
            ),
    {
        let ghost all = field_els@.map(|i: int, v: GoldilocksElement| v.value as int);
        proof {
            assert(all.skip(0) =~= all);
        }
        let mut idx: usize = 0;
        while idx < field_els.len()
            invariant
                self.wf(),
                self.chunk_by == old(self).chunk_by,
                idx <= field_els@.len(),
                forall|i: int| 0 <= i < field_els@.len() ==> (#[trigger] field_els@[i]).valid(),
                all == field_els@.map(|i: int, v: GoldilocksElement| v.value as int),
                spec_witness_seq(self.model(), all.skip(idx as int)) == spec_witness_seq(
                    old(self).model(),
                    all,
                ),
            decreases field_els@.len() - idx,
        {
            proof {
                assert(all.skip(idx as int).len() > 0);
                assert(all.skip(idx as int)[0] == field_els@[idx as int].value as int);
                assert(all.skip(idx as int).drop_first() =~= all.skip(idx as int + 1));
            }
            let el = &field_els[idx];
            let ghost pre = self.model();
            if self.last_filled == 0 {
                let entry = NativeOutput::from_u64(el.value);
                self.buffer.push(entry);
                proof {
                    assert(self.model().buffer =~= spec_witness_one(pre, el.value as int).buffer);
                    assert(self.buffer@[self.buffer@.len() - 1] == entry);
                }
            } else {
                let last = self.buffer.pop().unwrap();
                let updated = last.with_limb(self.last_filled, el.value);
                self.buffer.push(updated);
                proof {
                    assert(self.model().buffer =~= spec_witness_one(pre, el.value as int).buffer);
                    assert(self.buffer@[self.buffer@.len() - 1] == updated);
                    assert(spec_limb(updated, 1) == spec_limb(last, 1) || self.last_filled == 1);
                    assert(spec_limb(updated, 2) == spec_limb(last, 2) || self.last_filled == 2);
                }
            }
            let next: usize = self.last_filled + 1;
            proof {
                if next == self.chunk_by {
                    vstd::arithmetic::div_mod::lemma_mod_self_0(self.chunk_by as int);
                } else {
                    vstd::arithmetic::div_mod::lemma_small_mod(next as nat, self.chunk_by as nat);
                }
            }
            self.last_filled = if next == self.chunk_by {
                0
            } else {
                next
            };
            idx = idx + 1;
            proof {
                assert(self.model() == spec_witness_one(pre, el.value as int));
            }
        }
        proof {
            assert(all.skip(field_els@.len() as int) =~= Seq::<int>::empty());
        }
    }

    /// Resets the packing counter and appends the cap's elements to the
    /// buffer as whole entries: a cap commitment always starts a fresh chunk.
    pub fn witness_merkle_tree_cap(&mut self, cap: &Vec<NativeOutput>)
        requires
            old(self).wf(),
            forall|i: int| 0 <= i < cap@.len() ==> (#[trigger] cap@[i]).valid(),
        ensures
            final(self).wf(),
            final(self).model() == spec_witness_cap(
                old(self).model(),
                cap@.map(|i: int, v: NativeOutput| v.value()),
            ),
    {
        self.last_filled = 0;
        let mut idx: usize = 0;
        while idx < cap.len()
            invariant
                self.wf(),
                self.last_filled == 0,
                self.chunk_by == old(self).chunk_by,
                idx <= cap@.len(),
                forall|i: int| 0 <= i < cap@.len() ==> (#[trigger] cap@[i]).valid(),
                self.buffer@ =~= old(self).buffer@ + cap@.take(idx as int),
                self.available_challenges@ == old(self).available_challenges@,
                self.sponge == old(self).sponge,
            decreases cap@.len() - idx,
        {
            self.buffer.push(cap[idx]);
            idx = idx + 1;
        }
        proof {
            assert(cap@.take(cap@.len() as int) =~= cap@);
            assert(self.model().buffer =~= spec_witness_cap(
                old(self).model(),
                cap@.map(|i: int, v: NativeOutput| v.value()),
            ).buffer);
        }
    }

    /// Returns one base-field challenge, refilling the pool from the sponge
    /// when it runs dry, exactly as the protocol's prover side does.
    pub fn get_challenge(&mut self) -> (r: GoldilocksElement)
        requires
            old(self).wf(),
        ensures
            final(self).wf(),
            r.valid(),
            r.value as int == spec_get_challenge(old(self).model()).0,
            final(self).model() == spec_get_challenge(old(self).model()).1,
    {
        proof {
            reveal(spec_get_challenge);
        }
        if self.buffer.len() == 0 {
            if self.available_challenges.len() > 0 {
                let first = self.available_challenges.remove(0);
                proof {
                    assert(self.model().pool =~= spec_get_challenge(old(self).model()).1.pool);
                }
                return first;
            }
            self.sponge.run_round_function();
            let c0 = self.sponge.s0;
            let c1 = self.sponge.s1;
            let mut pool = get_challenges_from_num(&c0);
            let mut more = get_challenges_from_num(&c1);
            pool.append(&mut more);
            let first = pool.remove(0);
            self.available_challenges = pool;
            proof {
                let expected = spec_get_challenge(old(self).model());
                assert(self.model().pool =~= expected.1.pool);
                assert(self.model().sponge.buffer =~= expected.1.sponge.buffer);
            }
            return first;
        }
        self.sponge.absorb(&self.buffer);
        self.buffer = Vec::new();
        self.last_filled = 0;
        let (c0, c1) = self.sponge.finalize();
        let mut pool = get_challenges_from_num(&c0);
        let mut more = get_challenges_from_num(&c1);
        pool.append(&mut more);
        let first = pool.remove(0);
        self.available_challenges = pool;
        proof {
            let expected = spec_get_challenge(old(self).model());
            assert(self.model().buffer =~= expected.1.buffer);
            assert(self.model().pool =~= expected.1.pool);
        }
        first
    }
}

/// Determinism of the transcript: two transcripts in the same state yield
/// the same challenge stream, of any length, under repeated requests.
pub proof fn lemma_transcript_determinism(t1: TranscriptModel, t2: TranscriptModel, n: nat)
    requires
        t1 == t2,
    ensures
        spec_challenge_stream(t1, n) == spec_challenge_stream(t2, n),
{
}

/// The packing round trip: buffering a concatenation of element sequences in
/// one call leaves exactly the state of buffering the pieces one after the
/// other, for every split and every packing width.
pub proof fn lemma_witness_field_elements_split(t: TranscriptModel, xs: Seq<int>, ys: Seq<int>)
    ensures
        spec_witness_seq(t, xs + ys) == spec_witness_seq(spec_witness_seq(t, xs), ys),
    decreases xs.len(),
{
    if xs.len() == 0 {
        assert(xs + ys =~= ys);
    } else {
        lemma_witness_field_elements_split(spec_witness_one(t, xs[0]), xs.drop_first(), ys);
        assert((xs + ys).drop_first() =~= xs.drop_first() + ys);
        assert((xs + ys)[0] == xs[0]);
    }
}

/// Exhausting the challenge pool: with nothing buffered and no pooled
/// challenges left, a request re-runs the permutation with no new input and
/// serves the first of a fresh batch of six challenges.
pub proof fn lemma_challenge_pool_exhaustion(t: TranscriptModel)
    requires
        t.buffer.len() == 0,
        t.pool.len() == 0,
    ensures
        spec_get_challenge(t).1.sponge.state == rf3(t.sponge.state),
        spec_get_challenge(t).1.pool.len() == 5,
        spec_get_challenge(t).0 == spec_pool_from_commitment(
            rf3(t.sponge.state)[0],
            rf3(t.sponge.state)[1],
        )[0],
{
    reveal(spec_get_challenge);
}

} // verus!
