use vstd::prelude::*;
use crate::extension::{GoldilocksExtElement, ext_mul};
use crate::field::GoldilocksElement;
use crate::native::NativeOutput;
use crate::transcript::{
    CircuitPoseidon2Transcript, TranscriptModel, spec_get_challenge, spec_witness_cap,
};

verus! {

/// Drawing one extension-field challenge: two consecutive base-field
/// challenges become its coefficients.
pub open spec fn spec_draw_ext(t: TranscriptModel) -> ((int, int), TranscriptModel) {
    let s1 = spec_get_challenge(t);
    let s2 = spec_get_challenge(s1.1);
    ((s1.0, s2.0), s2.1)
}

/// The e-th power of an extension element, by serial multiplication.
pub open spec fn spec_ext_pow(b: (int, int), e: nat) -> (int, int)
    decreases e,
{
    if e == 0 {
        (1int, 0int)
    } else {
        ext_mul(spec_ext_pow(b, (e - 1) as nat), b)
    }
}

/// The k successive squarings of a challenge: c, c^2, c^4, and so on. These
/// are the per-step folding challenges of one round.
pub open spec fn spec_challenge_powers(c: (int, int), k: nat) -> Seq<(int, int)>
    decreases k,
{
    if k == 0 {
        Seq::empty()
    } else {
        seq![c] + spec_challenge_powers(ext_mul(c, c), (k - 1) as nat)
    }
}

/// One FRI round's transcript work: absorb the round's commitment cap, draw
/// one extension challenge, and expand it by repeated squaring.
pub open spec fn spec_fri_round(t: TranscriptModel, cap: Seq<int>, k: nat) -> (
    Seq<(int, int)>,
    TranscriptModel,
) {
    let t1 = spec_witness_cap(t, cap);
    let d = spec_draw_ext(t1);
    (spec_challenge_powers(d.0, k), d.1)
}

/// The transcript work of all FRI rounds in order.
pub open spec fn spec_fri_rounds(t: TranscriptModel, caps: Seq<Seq<int>>, schedule: Seq<usize>) -> (
    Seq<Seq<(int, int)>>,
    TranscriptModel,
)
    decreases schedule.len(),
{
    if schedule.len() == 0 {
        (Seq::empty(), t)
    } else {
        let r0 = spec_fri_round(t, caps[0], schedule[0] as nat);
        let rest = spec_fri_rounds(r0.1, caps.drop_first(), schedule.drop_first());
        (seq![r0.0] + rest.0, rest.1)
    }
}

/// The coefficient pairs of a vector of extension elements.
pub open spec fn ext_vec_view(v: Seq<GoldilocksExtElement>) -> Seq<(int, int)> {
    v.map(|i: int, e: GoldilocksExtElement| e.spec_coeffs())
}

/// Draws one extension-field challenge from the transcript.
pub fn draw_extension_challenge(transcript: &mut CircuitPoseidon2Transcript) -> (r:
    GoldilocksExtElement)
    requires
        old(transcript).wf(),
    ensures
        final(transcript).wf(),
        final(transcript).model() == spec_draw_ext(old(transcript).model()).1,
        r.spec_coeffs() == spec_draw_ext(old(transcript).model()).0,
        r.valid(),
{
    let c0 = transcript.get_challenge();
    let c1 = transcript.get_challenge();
    GoldilocksExtElement::from_coeffs_in_base(c0, c1)
}

/// The sequence 1, c, c^2, ... of serial powers of a challenge.
pub fn materialize_powers_serial(base: GoldilocksExtElement, size: usize) -> (r: Vec<
    GoldilocksExtElement,
>)
    requires
        base.valid(),
    ensures
        r@.len() == size,
        forall|i: int|
            0 <= i < size ==> (#[trigger] r@[i]).spec_coeffs() == spec_ext_pow(
                base.spec_coeffs(),
                i as nat,
            ),
        forall|i: int| 0 <= i < size ==> (#[trigger] r@[i]).valid(),
{
    let mut storage: Vec<GoldilocksExtElement> = Vec::new();
    if size == 0 {
        return storage;
    }
    let mut current = GoldilocksExtElement::one();
    let mut idx: usize = 0;
    while idx < size
        invariant
            base.valid(),
            current.valid(),
            idx <= size,
            storage@.len() == idx,
            current.spec_coeffs() == spec_ext_pow(base.spec_coeffs(), idx as nat),
            forall|i: int|
                0 <= i < idx ==> (#[trigger] storage@[i]).spec_coeffs() == spec_ext_pow(
                    base.spec_coeffs(),
                    i as nat,
                ),
            forall|i: int| 0 <= i < idx ==> (#[trigger] storage@[i]).valid(),
        decreases size - idx,
    {
        storage.push(current);
        current = current.mul(base);
        idx = idx + 1;
    }
    storage
}

/// The folding challenges of one round: the drawn challenge and its repeated
/// squarings.
fn round_challenge_powers(challenge: GoldilocksExtElement, k: usize) -> (r: Vec<
    GoldilocksExtElement,
>)
    requires
        challenge.valid(),
    ensures
        ext_vec_view(r@) == spec_challenge_powers(challenge.spec_coeffs(), k as nat),
        r@.len() == k,
        forall|i: int| 0 <= i < r@.len() ==> (#[trigger] r@[i]).valid(),
{
    let mut powers: Vec<GoldilocksExtElement> = Vec::new();
    let mut current = challenge;
    let mut idx: usize = 0;
    while idx < k
        invariant
            current.valid(),
            idx <= k,
            powers@.len() == idx,
            forall|i: int| 0 <= i < idx ==> (#[trigger] powers@[i]).valid(),
            ext_vec_view(powers@) + spec_challenge_powers(current.spec_coeffs(), (k - idx) as nat)
                == spec_challenge_powers(challenge.spec_coeffs(), k as nat),
        decreases k - idx,
    {
        proof {
            assert(ext_vec_view(powers@.push(current)) =~= ext_vec_view(powers@) + seq![
                current.spec_coeffs(),
            ]);
            assert(ext_vec_view(powers@) + (seq![current.spec_coeffs()] + spec_challenge_powers(
                ext_mul(current.spec_coeffs(), current.spec_coeffs()),
                (k - idx - 1) as nat,
            )) =~= (ext_vec_view(powers@) + seq![current.spec_coeffs()]) + spec_challenge_powers(
                ext_mul(current.spec_coeffs(), current.spec_coeffs()),
                (k - idx - 1) as nat,
            ));
        }
        powers.push(current);
        current = current.square();
        idx = idx + 1;
    }
    proof {
        assert(ext_vec_view(powers@) + spec_challenge_powers(current.spec_coeffs(), 0nat)
            =~= ext_vec_view(powers@));
    }
    powers
}

/// One FRI round's transcript work: the round's cap is absorbed, a folding
/// challenge is drawn, and its repeated squarings are returned.
fn fri_round_step(
    transcript: &mut CircuitPoseidon2Transcript,
    cap: &Vec<NativeOutput>,
    k: usize,
) -> (r: Vec<GoldilocksExtElement>)
    requires
        old(transcript).wf(),
        forall|i: int| 0 <= i < cap@.len() ==> (#[trigger] cap@[i]).valid(),
    ensures
        final(transcript).wf(),
        final(transcript).model() == spec_fri_round(
            old(transcript).model(),
            cap@.map(|i: int, v: NativeOutput| v.value()),
            k as nat,
        ).1,
        ext_vec_view(r@) == spec_fri_round(
            old(transcript).model(),
            cap@.map(|i: int, v: NativeOutput| v.value()),
            k as nat,
        ).0,
        r@.len() == k,
        forall|i: int| 0 <= i < r@.len() ==> (#[trigger] r@[i]).valid(),
{
    transcript.witness_merkle_tree_cap(cap);
    let challenge = draw_extension_challenge(transcript);
    round_challenge_powers(challenge, k)
}

/// The scalar challenges the verification run derives: the evaluation point,
/// its domain shift, the quotient-aggregation challenge powers, and the
/// per-round folding challenges.
#[derive(Clone, Debug)]
pub struct ChallengesHolder {
    pub z: GoldilocksExtElement,
    pub z_omega: GoldilocksExtElement,
    pub challenges_for_fri_quotiening: Vec<GoldilocksExtElement>,
    pub fri_intermediate_challenges: Vec<Vec<GoldilocksExtElement>>,
}

impl ChallengesHolder {
    pub fn new() -> (r: Self)
        ensures
            r.z.spec_coeffs() == (0int, 0int),
            r.z_omega.spec_coeffs() == (0int, 0int),
            r.z.valid(),
            r.z_omega.valid(),
            r.challenges_for_fri_quotiening@.len() == 0,
            r.fri_intermediate_challenges@.len() == 0,
    {
        ChallengesHolder {
            z: GoldilocksExtElement::zero(),
            z_omega: GoldilocksExtElement::zero(),
            challenges_for_fri_quotiening: Vec::new(),
            fri_intermediate_challenges: Vec::new(),
        }
    }

    /// Derives the quotient-aggregation challenge pair and expands it to the
    /// requested number of sequential powers, the separation challenges of
    /// the quotient combination.
    pub fn get_challenges_for_fri_quotiening(
        &mut self,
        transcript: &mut CircuitPoseidon2Transcript,
        total_num_challenges: usize,
    )
        requires
            old(transcript).wf(),
        ensures
            final(transcript).wf(),
            final(transcript).model() == spec_draw_ext(old(transcript).model()).1,
            final(self).challenges_for_fri_quotiening@.len() == total_num_challenges,
            forall|i: int|
                0 <= i < total_num_challenges ==> (
                #[trigger] final(self).challenges_for_fri_quotiening@[i]).spec_coeffs()
                    == spec_ext_pow(spec_draw_ext(old(transcript).model()).0, i as nat),
            forall|i: int|
                0 <= i < total_num_challenges ==> (
                #[trigger] final(self).challenges_for_fri_quotiening@[i]).valid(),
            final(self).z == old(self).z,
            final(self).z_omega == old(self).z_omega,
            final(self).fri_intermediate_challenges == old(self).fri_intermediate_challenges,
    {
        let challenge = draw_extension_challenge(transcript);
        self.challenges_for_fri_quotiening = materialize_powers_serial(
            challenge,
            total_num_challenges,
        );
    }

    /// Walks the FRI rounds: absorbs each round's commitment cap (the base
    /// oracle's directly, then each intermediate oracle's), draws the round's
    /// folding challenge, and expands it by repeated squaring to the round's
    /// folding-degree log.
    #[verifier::rlimit(100)]
    pub fn get_fri_intermediate_challenges(
        &mut self,
        transcript: &mut CircuitPoseidon2Transcript,
        proof: &crate::verifier_structs::Proof,
        fixed_parameters: &crate::verifier_structs::FixedParameters,
    )
        requires
            old(transcript).wf(),
            fixed_parameters.fri_folding_schedule@.len() >= 1,
            proof.fri_intermediate_oracles_caps@.len() + 1
                == fixed_parameters.fri_folding_schedule@.len(),
            forall|i: int|
                0 <= i < proof.fri_base_oracle_cap@.len() ==> (
                #[trigger] proof.fri_base_oracle_cap@[i]).valid(),
            forall|r: int, i: int|
                0 <= r < proof.fri_intermediate_oracles_caps@.len() && 0 <= i
                    < proof.fri_intermediate_oracles_caps@[r]@.len() ==> (
                #[trigger] proof.fri_intermediate_oracles_caps@[r]@[i]).valid(),
            forall|r: int, i: int|
                0 <= r < old(self).fri_intermediate_challenges@.len() && 0 <= i < old(
                    self,
                ).fri_intermediate_challenges@[r]@.len() ==> (#[trigger] old(
                    self,
                ).fri_intermediate_challenges@[r]@[i]).valid(),
        ensures
            final(transcript).wf(),
            final(transcript).model() == spec_fri_rounds(
                old(transcript).model(),
                spec_all_caps(*proof),
                fixed_parameters.fri_folding_schedule@,
            ).1,
            forall|r: int|
                0 <= r < fixed_parameters.fri_folding_schedule@.len()
                    ==> ext_vec_view(#[trigger] final(self).fri_intermediate_challenges@[
                        old(self).fri_intermediate_challenges@.len() + r]@)
                    == spec_fri_rounds(
                        old(transcript).model(),
                        spec_all_caps(*proof),
                        fixed_parameters.fri_folding_schedule@,
                    ).0[r],
            final(self).fri_intermediate_challenges@.len() == old(
                self,
            ).fri_intermediate_challenges@.len() + fixed_parameters.fri_folding_schedule@.len(),
            forall|r: int, i: int|
                0 <= r < final(self).fri_intermediate_challenges@.len()
                    && 0 <= i < final(self).fri_intermediate_challenges@[r]@.len()
                    ==> (#[trigger] final(self).fri_intermediate_challenges@[r]@[i]).valid(),
            forall|r: int|
                0 <= r < old(self).fri_intermediate_challenges@.len()
                    ==> #[trigger] final(self).fri_intermediate_challenges@[r]
                    == old(self).fri_intermediate_challenges@[r],
            forall|r: int|
                0 <= r < fixed_parameters.fri_folding_schedule@.len()
                    ==> #[trigger] final(self).fri_intermediate_challenges@[
                        old(self).fri_intermediate_challenges@.len() + r]@.len()
                    == fixed_parameters.fri_folding_schedule@[r],
            final(self).z == old(self).z,
            final(self).z_omega == old(self).z_omega,
            final(self).challenges_for_fri_quotiening == old(self).challenges_for_fri_quotiening,
    {
        let ghost full = spec_fri_rounds(
            old(transcript).model(),
            spec_all_caps(*proof),
            fixed_parameters.fri_folding_schedule@,
        );
        let ghost caps = spec_all_caps(*proof);
        let ghost sched = fixed_parameters.fri_folding_schedule@;
        let ghost base_len = old(self).fri_intermediate_challenges@.len();
        proof {
            assert(caps.skip(0) =~= caps);
            assert(sched.skip(0) =~= sched);
            assert(full.0.skip(0) =~= full.0);
            lemma_fri_rounds_len(old(transcript).model(), caps, sched);
        }
        let mut round: usize = 0;
        let num_rounds: usize = fixed_parameters.fri_folding_schedule.len();
        while round < num_rounds
            invariant
                transcript.wf(),
                round <= num_rounds,
                num_rounds == sched.len(),
                sched == fixed_parameters.fri_folding_schedule@,
                caps == spec_all_caps(*proof),
                full == spec_fri_rounds(old(transcript).model(), caps, sched),
                full.0.len() == num_rounds,
                proof.fri_intermediate_oracles_caps@.len() + 1 == num_rounds,
                forall|i: int|
                    0 <= i < proof.fri_base_oracle_cap@.len() ==> (
                    #[trigger] proof.fri_base_oracle_cap@[i]).valid(),
                forall|r: int, i: int|
                    0 <= r < proof.fri_intermediate_oracles_caps@.len() && 0 <= i
                        < proof.fri_intermediate_oracles_caps@[r]@.len() ==> (
                    #[trigger] proof.fri_intermediate_oracles_caps@[r]@[i]).valid(),
                spec_fri_rounds(transcript.model(), caps.skip(round as int), sched.skip(round as int))
                    == (full.0.skip(round as int), full.1),
                self.fri_intermediate_challenges@.len() == base_len + round,
                forall|r: int|
                    0 <= r < round ==> ext_vec_view(
                        #[trigger] self.fri_intermediate_challenges@[base_len + r]@,
                    ) == full.0[r],
                forall|r: int|
                    0 <= r < base_len ==> self.fri_intermediate_challenges@[r] == old(
                        self,
                    ).fri_intermediate_challenges@[r],
                forall|r: int|
                    0 <= r < round ==> (#[trigger] self.fri_intermediate_challenges@[base_len
                        + r]@.len()) == sched[r],
                forall|r: int, i: int|
                    0 <= r < self.fri_intermediate_challenges@.len() && 0 <= i
                        < self.fri_intermediate_challenges@[r]@.len() ==> (
                    #[trigger] self.fri_intermediate_challenges@[r]@[i]).valid(),
                self.z == old(self).z,
                self.z_omega == old(self).z_omega,
                self.challenges_for_fri_quotiening == old(self).challenges_for_fri_quotiening,
            decreases num_rounds - round,
        {
            proof {
                assert(caps.skip(round as int).len() > 0);
                assert(caps.skip(round as int)[0] == caps[round as int]);
                assert(caps.skip(round as int).drop_first() =~= caps.skip(round as int + 1));
                assert(sched.skip(round as int)[0] == sched[round as int]);
                assert(sched.skip(round as int).drop_first() =~= sched.skip(round as int + 1));
            }
            let reduction_degree_log_2: usize = fixed_parameters.fri_folding_schedule[round];
            let challenge_powers: Vec<GoldilocksExtElement>;
            if round == 0 {
                proof {
                    assert(proof.fri_base_oracle_cap@.map(|i: int, v: NativeOutput| v.value())
                        =~= caps[0]);
                }
                challenge_powers = fri_round_step(
                    transcript,
                    &proof.fri_base_oracle_cap,
                    reduction_degree_log_2,
                );
            } else {
                proof {
                    assert(proof.fri_intermediate_oracles_caps@[round - 1]@.map(
                        |i: int, v: NativeOutput| v.value(),
                    ) =~= caps[round as int]);
                }
                challenge_powers = fri_round_step(
                    transcript,
                    &proof.fri_intermediate_oracles_caps[round - 1],
                    reduction_degree_log_2,
                );
            }
            self.fri_intermediate_challenges.push(challenge_powers);
            round = round + 1;
            proof {
                assert(full.0.skip(round - 1int).drop_first() =~= full.0.skip(round as int));
                assert(full.0.skip(round - 1int)[0] == full.0[round - 1int]);
            }
        }
        proof {
            assert(caps.skip(num_rounds as int) =~= Seq::<Seq<int>>::empty());
            assert(sched.skip(num_rounds as int) =~= Seq::<usize>::empty());
            lemma_fri_rounds_len(old(transcript).model(), caps, sched);
        }
    }
}

/// There is one sequence of folding challenges per scheduled round.
pub proof fn lemma_fri_rounds_len(t: TranscriptModel, caps: Seq<Seq<int>>, schedule: Seq<usize>)
    ensures
        spec_fri_rounds(t, caps, schedule).0.len() == schedule.len(),
    decreases schedule.len(),
{
    if schedule.len() > 0 {
        let r0 = spec_fri_round(t, caps[0], schedule[0] as nat);
        lemma_fri_rounds_len(r0.1, caps.drop_first(), schedule.drop_first());
    }
}

/// The commitment caps of all FRI rounds in order: the base oracle's cap,
/// then each intermediate oracle's.
pub open spec fn spec_all_caps(proof: crate::verifier_structs::Proof) -> Seq<Seq<int>> {
    seq![proof.fri_base_oracle_cap@.map(|i: int, v: NativeOutput| v.value())]
        + proof.fri_intermediate_oracles_caps@.map(
        |r: int, cap: Vec<NativeOutput>| cap@.map(|i: int, v: NativeOutput| v.value()),
    )
}

} // verus!
