use vstd::prelude::*;
use crate::field::GoldilocksElement;
use crate::native::{NativeOutput, spec_limb, spec_limb_weight, limb_radix, native_modulus};
use franklin_crypto::bellman::pairing::bn256::{Bn256, Fr, FrRepr};
use franklin_crypto::bellman::pairing::ff::PrimeField;
use franklin_crypto::rescue::bn256::Bn256RescueParams;
use franklin_crypto::rescue::rescue_mimc;

verus! {

/// How many native lanes are overwritten per absorption.
pub const SPONGE_RATE: usize = 2;

/// The width of the permutation's state in native elements.
pub const SPONGE_WIDTH: usize = 3;

/// How many base-field elements are packed into one native lane: the native
/// field's capacity of 253 bits holds three 64-bit words.
pub const CHUNK_BY: usize = 3;

/// The permutation at the heart of the tree hasher, as a pure map on the
/// values of a width-3 state.
pub uninterp spec fn round_function_of(state: Seq<int>) -> Seq<int>;

/// The three lanes of the permuted state.
pub open spec fn rf3(state: Seq<int>) -> Seq<int> {
    seq![
        round_function_of(state)[0],
        round_function_of(state)[1],
        round_function_of(state)[2],
    ]
}

/// Relies on franklin_crypto::rescue::rescue_mimc with the checked 2-into-1
/// Bn256 parameter set (state width 3, rate 2): the algebraic sponge
/// permutation over the native field. The result is a function of the state
/// alone, each output lane is a canonical (reduced) native element, and the
/// width is preserved.
#[verifier::external_body]
pub(crate) fn apply_round_function(s0: &NativeOutput, s1: &NativeOutput, s2: &NativeOutput) -> (r: (NativeOutput, NativeOutput, NativeOutput))
    requires
        s0.valid(),
        s1.valid(),
        s2.valid(),
    ensures
        r.0.value() == round_function_of(seq![s0.value(), s1.value(), s2.value()])[0],
        r.1.value() == round_function_of(seq![s0.value(), s1.value(), s2.value()])[1],
        r.2.value() == round_function_of(seq![s0.value(), s1.value(), s2.value()])[2],
        r.0.valid(),
        r.1.valid(),
        r.2.valid(),
{
    let params = Bn256RescueParams::new_checked_2_into_1();
    let to_fr = |x: &NativeOutput| Fr::from_repr(FrRepr([x.l0, x.l1, x.l2, x.l3])).unwrap();
    let out = rescue_mimc::<Bn256>(&params, &[to_fr(s0), to_fr(s1), to_fr(s2)]);
    let of_fr = |f: &Fr| {
        let repr = f.into_repr();
        let s = repr.as_ref();
        NativeOutput { l0: s[0], l1: s[1], l2: s[2], l3: s[3] }
    };
    (of_fr(&out[0]), of_fr(&out[1]), of_fr(&out[2]))
}

/// The mathematical state of a sponge: three state lanes, two buffer lanes,
/// and the count of occupied base-field slots in the buffer.
pub struct SpongeModel {
    pub state: Seq<int>,
    pub buffer: Seq<int>,
    pub filled: nat,
}

impl SpongeModel {
    pub open spec fn empty() -> SpongeModel {
        SpongeModel { state: seq![0, 0, 0], buffer: seq![0, 0], filled: 0 }
    }

    pub open spec fn wf(self) -> bool {
        self.state.len() == 3 && self.buffer.len() == 2 && self.filled < 6
    }
}

/// Absorption by replacement: the buffer overwrites the rate portion of the
/// state, the capacity lane is kept, and the permutation runs.
pub open spec fn spec_absorb_buffer(state: Seq<int>, buffer: Seq<int>) -> SpongeModel {
    SpongeModel {
        state: rf3(seq![buffer[0], buffer[1], state[2]]),
        buffer: seq![0, 0],
        filled: 0,
    }
}

/// Absorbing one base-field element: it is packed into the next free 64-bit
/// slot of the buffer; a full buffer is absorbed into the state.
pub open spec fn spec_absorb_single_gl(m: SpongeModel, v: int) -> SpongeModel {
    let pos = m.filled / 3;
    let exp = m.filled % 3;
    let buffer = m.buffer.update(pos as int, m.buffer[pos as int] + v * spec_limb_weight(exp as int));
    if m.filled + 1 == 6 {
        spec_absorb_buffer(m.state, buffer)
    } else {
        SpongeModel { state: m.state, buffer, filled: m.filled + 1 }
    }
}

/// Absorbing one whole native element: it occupies a full buffer lane; a
/// partially packed lane is abandoned and the next lane is used.
pub open spec fn spec_absorb_single(m: SpongeModel, v: int) -> SpongeModel {
    let pos = m.filled / 3;
    let exp = m.filled % 3;
    if exp == 0 {
        let buffer = m.buffer.update(pos as int, v);
        if m.filled + 3 == 6 {
            spec_absorb_buffer(m.state, buffer)
        } else {
            SpongeModel { state: m.state, buffer, filled: m.filled + 3 }
        }
    } else {
        if pos == 1 {
            let m2 = spec_absorb_buffer(m.state, m.buffer);
            SpongeModel { state: m2.state, buffer: seq![v, 0], filled: 3 }
        } else {
            spec_absorb_buffer(m.state, m.buffer.update(1, v))
        }
    }
}

/// Absorbing a sequence of whole native elements, one at a time.
pub open spec fn spec_absorb_seq(m: SpongeModel, vs: Seq<int>) -> SpongeModel
    decreases vs.len(),
{
    if vs.len() == 0 {
        m
    } else {
        spec_absorb_seq(spec_absorb_single(m, vs[0]), vs.drop_first())
    }
}

/// Absorbing a sequence of base-field elements, one at a time.
pub open spec fn spec_absorb_gl_seq(m: SpongeModel, vs: Seq<int>) -> SpongeModel
    decreases vs.len(),
{
    if vs.len() == 0 {
        m
    } else {
        spec_absorb_gl_seq(spec_absorb_single_gl(m, vs[0]), vs.drop_first())
    }
}

/// Padding with a single base-field one, then flushing whatever remains in
/// the buffer; the commitment is the rate portion of the state.
pub open spec fn spec_finalize(m: SpongeModel) -> (Seq<int>, SpongeModel) {
    let m1 = spec_absorb_single_gl(m, 1);
    let m2 = if m1.filled > 0 {
        spec_absorb_buffer(m1.state, m1.buffer)
    } else {
        m1
    };
    (seq![m2.state[0], m2.state[1]], m2)
}

/// As spec_finalize, but the sponge itself is reset to the empty state while
/// the output is computed from the state before the reset.
pub open spec fn spec_finalize_reset(m: SpongeModel) -> (Seq<int>, SpongeModel) {
    let m1 = spec_absorb_single_gl(m, 1);
    let out_state = if m1.filled > 0 {
        rf3(seq![m1.buffer[0], m1.buffer[1], m1.state[2]])
    } else {
        m1.state
    };
    (seq![out_state[0], out_state[1]], SpongeModel::empty())
}

/// The sponge the tree hasher and the transcript are built on: a width-3
/// native state absorbed by replacement, with base-field elements packed
/// three to a lane.
#[derive(Clone, Copy, Debug)]
pub struct CircuitPoseidon2Sponge {
    pub s0: NativeOutput,
    pub s1: NativeOutput,
    pub s2: NativeOutput,
    pub b0: NativeOutput,
    pub b1: NativeOutput,
    pub filled: usize,
}

impl CircuitPoseidon2Sponge {
    /// The mathematical state this sponge holds.
    pub open spec fn model(self) -> SpongeModel {
        SpongeModel {
            state: seq![self.s0.value(), self.s1.value(), self.s2.value()],
            buffer: seq![self.b0.value(), self.b1.value()],
            filled: self.filled as nat,
        }
    }

    /// The 64-bit packing slot `s` of the buffer.
    pub open spec fn spec_slot(self, s: int) -> int {
        if s < 3 {
            spec_limb(self.b0, s)
        } else {
            spec_limb(self.b1, s - 3)
        }
    }

    /// Well-formedness: reduced lanes, a filled counter in range, all packing
    /// slots at and above the counter empty, and no partially packed lane
    /// using the top limb.
    pub open spec fn wf(self) -> bool {
        &&& self.s0.valid()
        &&& self.s1.valid()
        &&& self.s2.valid()
        &&& self.b0.valid()
        &&& self.b1.valid()
        &&& self.filled < 6
        &&& forall|s: int| self.filled <= s < 6 ==> self.spec_slot(s) == 0
        &&& (self.filled <= 2 ==> self.b0.l3 == 0)
        &&& self.b1.l3 == 0
    }

    pub fn new() -> (r: Self)
        ensures
            r.wf(),
            r.model() == SpongeModel::empty(),
    {
        let z = NativeOutput::zero();
        let r = CircuitPoseidon2Sponge { s0: z, s1: z, s2: z, b0: z, b1: z, filled: 0 };
        proof {
            assert(r.model().state =~= SpongeModel::empty().state);
            assert(r.model().buffer =~= SpongeModel::empty().buffer);
        }
        r
    }

    /// Overwrites the rate lanes with the buffer, runs the permutation, and
    /// clears the buffer.
    pub fn absorb_buffer_to_state(&mut self)
        requires
            old(self).s0.valid(),
            old(self).s1.valid(),
            old(self).s2.valid(),
            old(self).b0.valid(),
            old(self).b1.valid(),
        ensures
            final(self).wf(),
            final(self).model() == spec_absorb_buffer(old(self).model().state, old(self).model().buffer),
            final(self).filled == 0,
    {
        let (r0, r1, r2) = apply_round_function(&self.b0, &self.b1, &self.s2);
        self.s0 = r0;
        self.s1 = r1;
        self.s2 = r2;
        self.b0 = NativeOutput::zero();
        self.b1 = NativeOutput::zero();
        self.filled = 0;
        proof {
            let expected = spec_absorb_buffer(old(self).model().state, old(self).model().buffer);
            assert(self.model().state =~= expected.state);
            assert(self.model().buffer =~= expected.buffer);
            assert forall|s: int| self.filled <= s < 6 implies self.spec_slot(s) == 0 by {
            };
        }
    }

    /// Runs the permutation on the state alone, with no new input.
    pub fn run_round_function(&mut self)
        requires
            old(self).wf(),
        ensures
            final(self).wf(),
            final(self).model().state == rf3(old(self).model().state),
            final(self).model().buffer == old(self).model().buffer,
            final(self).model().filled == old(self).model().filled,
    {
        let (r0, r1, r2) = apply_round_function(&self.s0, &self.s1, &self.s2);
        self.s0 = r0;
        self.s1 = r1;
        self.s2 = r2;
        proof {
            assert(self.model().state =~= rf3(old(self).model().state));
            assert(self.model().buffer =~= old(self).model().buffer);
            assert forall|s: int| self.filled <= s < 6 implies self.spec_slot(s) == 0 by {
                assert(old(self).spec_slot(s) == 0);
            };
        }
    }

    /// Absorbs one base-field element into the next free packing slot.
    pub fn absorb_single_gl(&mut self, value: &GoldilocksElement)
        requires
            old(self).wf(),
            value.valid(),
        ensures
            final(self).wf(),
            final(self).model() == spec_absorb_single_gl(old(self).model(), value.value as int),
    {
        let pos: usize = self.filled / 3;
        let exp: usize = self.filled % 3;
        proof {
            if pos == 0 {
                assert(old(self).spec_slot(self.filled as int) == 0);
                assert(spec_limb(self.b0, exp as int) == 0);
            } else {
                assert(old(self).spec_slot(self.filled as int) == 0);
                assert(spec_limb(self.b1, exp as int) == 0);
            }
        }
        if pos == 0 {
            self.b0 = self.b0.with_limb(exp, value.value);
        } else {
            self.b1 = self.b1.with_limb(exp, value.value);
        }
        self.filled = self.filled + 1;
        proof {
            let expected = spec_absorb_single_gl(old(self).model(), value.value as int);
            assert forall|s: int| self.filled <= s < 6 implies self.spec_slot(s) == 0 by {
                assert(old(self).spec_slot(s) == 0);
                if pos == 0 {
                    assert(spec_limb(self.b0, s) == spec_limb(old(self).b0, s)) by {
                        assert(s != exp as int);
                    };
                } else {
                    if s >= 3 {
                        assert(spec_limb(self.b1, s - 3) == spec_limb(old(self).b1, s - 3)) by {
                            assert(s - 3 != exp as int);
                        };
                    }
                }
            };
            if self.filled < 6 {
                assert(self.model().buffer =~= expected.buffer);
                assert(self.model().state =~= expected.state);
            } else {
                assert(self.model().buffer =~= old(self).model().buffer.update(
                    1int, old(self).model().buffer[1] + value.value as int * spec_limb_weight(exp as int)));
            }
        }
        if self.filled == 6 {
            self.absorb_buffer_to_state();
            proof {
                let expected = spec_absorb_single_gl(old(self).model(), value.value as int);
                assert(self.model().state =~= expected.state);
                assert(self.model().buffer =~= expected.buffer);
            }
        }
    }

    /// Absorbs one whole native element, taking a full buffer lane.
    pub fn absorb_single(&mut self, value: &NativeOutput)
        requires
            old(self).wf(),
            value.valid(),
        ensures
            final(self).wf(),
            final(self).model() == spec_absorb_single(old(self).model(), value.value()),
    {
        let pos: usize = self.filled / 3;
        let exp: usize = self.filled % 3;
        if exp == 0 {
            if pos == 0 {
                self.b0 = *value;
            } else {
                self.b1 = *value;
            }
            self.filled = self.filled + 3;
            proof {
                let expected = spec_absorb_single(old(self).model(), value.value());
                assert forall|s: int| self.filled <= s < 6 implies self.spec_slot(s) == 0 by {
                    assert(old(self).spec_slot(s) == 0);
                };
                if self.filled < 6 {
                    assert(self.model().buffer =~= old(self).model().buffer.update(
                        pos as int, value.value()));
                    assert(self.model().state =~= expected.state);
                } else {
                    assert(self.model().buffer =~= old(self).model().buffer.update(
                        pos as int, value.value()));
                }
            }
            if self.filled == 6 {
                self.absorb_buffer_to_state();
                proof {
                    let expected = spec_absorb_single(old(self).model(), value.value());
                    assert(self.model().state =~= expected.state);
                    assert(self.model().buffer =~= expected.buffer);
                }
            }
        } else {
            if pos == 1 {
                self.absorb_buffer_to_state();
                self.b0 = *value;
                self.filled = 3;
                proof {
                    let expected = spec_absorb_single(old(self).model(), value.value());
                    assert(self.model().state =~= expected.state);
                    assert(self.model().buffer =~= expected.buffer);
                    assert forall|s: int| 3 <= s < 6 implies self.spec_slot(s) == 0 by {
                        assert(spec_limb(self.b1, s - 3) == 0);
                    };
                }
            } else {
                self.b1 = *value;
                self.filled = 6;
                proof {
                    assert(self.model().buffer =~= old(self).model().buffer.update(1, value.value()));
                }
                self.absorb_buffer_to_state();
                proof {
                    let expected = spec_absorb_single(old(self).model(), value.value());
                    assert(self.model().state =~= expected.state);
                    assert(self.model().buffer =~= expected.buffer);
                }
            }
        }
    }

    /// Absorbs a sequence of whole native elements, one lane at a time.
    pub fn absorb(&mut self, values: &Vec<NativeOutput>)
        requires
            old(self).wf(),
            forall|i: int| 0 <= i < values@.len() ==> (#[trigger] values@[i]).valid(),
        ensures
            final(self).wf(),
            final(self).model() == spec_absorb_seq(
                old(self).model(),
                values@.map(|i: int, v: NativeOutput| v.value()),
            ),
    {
        let ghost all = values@.map(|i: int, v: NativeOutput| v.value());
        proof {
            assert(all.skip(0) =~= all);
        }
        let mut idx: usize = 0;
        while idx < values.len()
            invariant
                self.wf(),
                idx <= values@.len(),
                forall|i: int| 0 <= i < values@.len() ==> (#[trigger] values@[i]).valid(),
                all == values@.map(|i: int, v: NativeOutput| v.value()),
                spec_absorb_seq(self.model(), all.skip(idx as int))
                    == spec_absorb_seq(old(self).model(), all),
            decreases values@.len() - idx,
        {
            proof {
                assert(all.skip(idx as int).len() > 0);
                assert(all.skip(idx as int)[0] == values@[idx as int].value());
                assert(all.skip(idx as int).drop_first() =~= all.skip(idx as int + 1));
            }
            self.absorb_single(&values[idx]);
            idx = idx + 1;
        }
        proof {
            assert(all.skip(values@.len() as int) =~= Seq::<int>::empty());
        }
    }

    /// The rate lanes of the state, available only when no absorbed data is
    /// pending in the buffer.
    pub fn try_get_commitment(&self) -> (r: Option<(NativeOutput, NativeOutput)>)
        requires
            self.wf(),
        ensures
            self.filled == 0 ==> r == Some((self.s0, self.s1)),
            self.filled != 0 ==> r is None,
    {
        if self.filled != 0 {
            return None;
        }
        Some((self.s0, self.s1))
    }

    /// Pads, flushes, and returns the commitment lanes.
    pub fn finalize(&mut self) -> (r: (NativeOutput, NativeOutput))
        requires
            old(self).wf(),
        ensures
            final(self).wf(),
            final(self).model() == spec_finalize(old(self).model()).1,
            seq![r.0.value(), r.1.value()] == spec_finalize(old(self).model()).0,
            r.0.valid(),
            r.1.valid(),
            final(self).filled == 0,
    {
        let one = GoldilocksElement::one();
        self.absorb_single_gl(&one);
        if self.filled > 0 {
            self.absorb_buffer_to_state();
        }
        let r = (self.s0, self.s1);
        proof {
            assert(seq![r.0.value(), r.1.value()] =~= spec_finalize(old(self).model()).0);
        }
        r
    }

    /// Pads and produces the commitment as finalize does, while resetting the
    /// sponge to the empty state.
    pub fn finalize_reset(&mut self) -> (r: (NativeOutput, NativeOutput))
        requires
            old(self).wf(),
        ensures
            final(self).wf(),
            final(self).model() == SpongeModel::empty(),
            seq![r.0.value(), r.1.value()] == spec_finalize_reset(old(self).model()).0,
            r.0.valid(),
            r.1.valid(),
    {
        let one = GoldilocksElement::one();
        self.absorb_single_gl(&one);
        let r: (NativeOutput, NativeOutput);
        if self.filled > 0 {
            let (r0, r1, _r2) = apply_round_function(&self.b0, &self.b1, &self.s2);
            r = (r0, r1);
        } else {
            r = (self.s0, self.s1);
        }
        let z = NativeOutput::zero();
        self.s0 = z;
        self.s1 = z;
        self.s2 = z;
        self.b0 = z;
        self.b1 = z;
        self.filled = 0;
        proof {
            assert(seq![r.0.value(), r.1.value()] =~= spec_finalize_reset(old(self).model()).0);
            assert(self.model().state =~= SpongeModel::empty().state);
            assert(self.model().buffer =~= SpongeModel::empty().buffer);
        }
        r
    }
}

} // verus!
