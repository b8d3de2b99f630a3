use vstd::prelude::*;
use crate::field::{
    GoldilocksElement, GL_MODULUS, GL_MULTIPLICATIVE_GENERATOR, gl_mul, gl_pow, gl_sub,
    spec_domain_generator, domain_generator_for_size_log2,
};
use crate::extension::{GoldilocksExtElement, ext_add, ext_sub, ext_mul, ext_mul_by_base};
use crate::native::{NativeOutput, limb_radix, native_modulus};
use crate::transcript::{
    CircuitPoseidon2Transcript, TranscriptModel, spec_witness_cap, spec_witness_seq,
};
use crate::challenges::{spec_draw_ext, draw_extension_challenge, lemma_fri_rounds_len};
use crate::verifier_structs::{
    FixedParameters, VerificationKey, Proof, ConstantsHolder, GateRelation, VerificationError,
    spec_constants,
};

verus! {

/// A vector of extension values flattened to the stream of base-field
/// coefficients in which it is absorbed.
pub open spec fn spec_flatten_ext(vs: Seq<(int, int)>) -> Seq<int>
    decreases vs.len(),
{
    if vs.len() == 0 {
        Seq::empty()
    } else {
        seq![vs[0].0, vs[0].1] + spec_flatten_ext(vs.drop_first())
    }
}

/// Squaring an extension element k times.
pub open spec fn spec_ext_square_iter(b: (int, int), k: nat) -> (int, int)
    decreases k,
{
    if k == 0 {
        b
    } else {
        let prev = spec_ext_square_iter(b, (k - 1) as nat);
        ext_mul(prev, prev)
    }
}

/// Raises an extension element to the power 2^k by repeated squaring.
pub fn ext_square_iter(x: GoldilocksExtElement, k: usize) -> (r: GoldilocksExtElement)
    requires
        x.valid(),
    ensures
        r.valid(),
        r.spec_coeffs() == spec_ext_square_iter(x.spec_coeffs(), k as nat),
{
    let mut current = x;
    let mut i: usize = 0;
    while i < k
        invariant
            i <= k,
            current.valid(),
            current.spec_coeffs() == spec_ext_square_iter(x.spec_coeffs(), i as nat),
        decreases k - i,
    {
        current = current.square();
        i = i + 1;
    }
    current
}

/// Absorbs the claimed openings, each extension value entering the
/// transcript as its two base-field coefficients.
pub fn absorb_openings(
    transcript: &mut CircuitPoseidon2Transcript,
    values: &Vec<GoldilocksExtElement>,
)
    requires
        old(transcript).wf(),
        forall|i: int| 0 <= i < values@.len() ==> (#[trigger] values@[i]).valid(),
    ensures
        final(transcript).wf(),
        final(transcript).model() == spec_witness_seq(
            old(transcript).model(),
            spec_flatten_ext(values@.map(|i: int, e: GoldilocksExtElement| e.spec_coeffs())),
        ),
{
    let ghost all = spec_flatten_ext(values@.map(|i: int, e: GoldilocksExtElement| e.spec_coeffs()));
    let ghost views = values@.map(|i: int, e: GoldilocksExtElement| e.spec_coeffs());
    proof {
        assert(views.skip(0) =~= views);
    }
    let mut idx: usize = 0;
    while idx < values.len()
        invariant
            transcript.wf(),
            idx <= values@.len(),
            forall|i: int| 0 <= i < values@.len() ==> (#[trigger] values@[i]).valid(),
            views == values@.map(|i: int, e: GoldilocksExtElement| e.spec_coeffs()),
            all == spec_flatten_ext(views),
            spec_witness_seq(transcript.model(), spec_flatten_ext(views.skip(idx as int)))
                == spec_witness_seq(old(transcript).model(), all),
        decreases values@.len() - idx,
    {
        let v = &values[idx];
        let mut pair: Vec<GoldilocksElement> = Vec::new();
        pair.push(v.c0);
        pair.push(v.c1);
        proof {
            let suffix = views.skip(idx as int);
            assert(suffix[0] == views[idx as int]);
            assert(suffix.drop_first() =~= views.skip(idx as int + 1));
            assert(pair@.map(|i: int, g: GoldilocksElement| g.value as int) =~= seq![
                views[idx as int].0,
                views[idx as int].1,
            ]);
            crate::transcript::lemma_witness_field_elements_split(
                transcript.model(),
                seq![views[idx as int].0, views[idx as int].1],
                spec_flatten_ext(views.skip(idx as int + 1)),
            );
            assert(seq![views[idx as int].0, views[idx as int].1] + spec_flatten_ext(
                views.skip(idx as int + 1),
            ) =~= spec_flatten_ext(suffix));
        }
        transcript.witness_field_elements(&pair);
        idx = idx + 1;
    }
    proof {
        assert(views.skip(values@.len() as int).len() == 0);
    }
}

/// The first-step transcript work: the setup cap is absorbed, each public
/// input is committed individually, the base oracle's cap is absorbed, the
/// evaluation point is drawn, and the claimed openings are absorbed.
pub open spec fn spec_first_step_transcript(
    t0: TranscriptModel,
    proof: Proof,
    vk: VerificationKey,
) -> ((int, int), TranscriptModel) {
    let t1 = spec_witness_cap(t0, vk.setup_merkle_tree_cap@.map(|i: int, v: NativeOutput| v.value()));
    let t2 = spec_witness_seq(
        t1,
        proof.public_inputs@.map(|i: int, g: GoldilocksElement| g.value as int),
    );
    let t3 = spec_witness_cap(t2, proof.base_oracle_cap@.map(|i: int, v: NativeOutput| v.value()));
    let d = spec_draw_ext(t3);
    let t4 = spec_witness_seq(
        d.1,
        spec_flatten_ext(proof.values_at_z@.map(|i: int, e: GoldilocksExtElement| e.spec_coeffs())),
    );
    let t5 = spec_witness_seq(
        t4,
        spec_flatten_ext(
            proof.values_at_z_omega@.map(|i: int, e: GoldilocksExtElement| e.spec_coeffs()),
        ),
    );
    let t6 = spec_witness_seq(
        t5,
        spec_flatten_ext(proof.values_at_0@.map(|i: int, e: GoldilocksExtElement| e.spec_coeffs())),
    );
    (d.0, t6)
}

/// The opening tuples of the public inputs: each value is expected at the
/// domain point of its row, in its column.
pub open spec fn spec_public_input_tuples(fp: FixedParameters, publics: Seq<int>, omega: int) -> Seq<
    (int, int, int),
> {
    Seq::new(
        fp.public_inputs_locations@.len(),
        |i: int|
            (
                gl_pow(omega, fp.public_inputs_locations@[i].1 as nat),
                fp.public_inputs_locations@[i].0 as int,
                publics[i],
            ),
    )
}

/// Commits the public inputs, absorbs the commitments and openings in
/// protocol order, derives the evaluation point and its domain shift, and
/// buckets the public inputs by their opening points.
pub fn verify_first_step(
    proof: &Proof,
    vk: &VerificationKey,
    transcript: &mut CircuitPoseidon2Transcript,
    fixed_parameters: &FixedParameters,
) -> (r: (GoldilocksExtElement, GoldilocksExtElement, Vec<(GoldilocksElement, usize, GoldilocksElement)>))
    requires
        old(transcript).wf(),
        fixed_parameters.wf(),
        proof.public_inputs@.len() == fixed_parameters.public_inputs_locations@.len(),
        forall|i: int|
            0 <= i < vk.setup_merkle_tree_cap@.len() ==> (
            #[trigger] vk.setup_merkle_tree_cap@[i]).valid(),
        forall|i: int|
            0 <= i < proof.base_oracle_cap@.len() ==> (#[trigger] proof.base_oracle_cap@[i]).valid(),
        forall|i: int|
            0 <= i < proof.public_inputs@.len() ==> (#[trigger] proof.public_inputs@[i]).valid(),
        forall|i: int| 0 <= i < proof.values_at_z@.len() ==> (#[trigger] proof.values_at_z@[i]).valid(),
        forall|i: int|
            0 <= i < proof.values_at_z_omega@.len() ==> (
            #[trigger] proof.values_at_z_omega@[i]).valid(),
        forall|i: int| 0 <= i < proof.values_at_0@.len() ==> (#[trigger] proof.values_at_0@[i]).valid(),
    ensures
        final(transcript).wf(),
        final(transcript).model() == spec_first_step_transcript(
            old(transcript).model(),
            *proof,
            *vk,
        ).1,
        r.0.spec_coeffs() == spec_first_step_transcript(old(transcript).model(), *proof, *vk).0,
        r.1.spec_coeffs() == ext_mul_by_base(
            spec_first_step_transcript(old(transcript).model(), *proof, *vk).0,
            spec_domain_generator(fixed_parameters.domain_size_log2 as nat),
        ),
        r.0.valid(),
        r.1.valid(),
        r.2@.map(|i: int, t: (GoldilocksElement, usize, GoldilocksElement)| (
            t.0.value as int,
            t.1 as int,
            t.2.value as int,
        )) == spec_public_input_tuples(
            *fixed_parameters,
            proof.public_inputs@.map(|i: int, g: GoldilocksElement| g.value as int),
            spec_domain_generator(fixed_parameters.domain_size_log2 as nat),
        ),
        forall|i: int| 0 <= i < r.2@.len() ==> (#[trigger] r.2@[i]).0.valid() && r.2@[i].2.valid(),
        r.2@.len() == fixed_parameters.public_inputs_locations@.len(),
{
    transcript.witness_merkle_tree_cap(&vk.setup_merkle_tree_cap);
    transcript.witness_field_elements(&proof.public_inputs);
    transcript.witness_merkle_tree_cap(&proof.base_oracle_cap);
    let z = draw_extension_challenge(transcript);
    absorb_openings(transcript, &proof.values_at_z);
    absorb_openings(transcript, &proof.values_at_z_omega);
    absorb_openings(transcript, &proof.values_at_0);
    let omega = domain_generator_for_size_log2(fixed_parameters.domain_size_log2 as u64);
    let z_omega = z.mul_by_base(omega);
    let ghost tuple_spec = spec_public_input_tuples(
        *fixed_parameters,
        proof.public_inputs@.map(|i: int, g: GoldilocksElement| g.value as int),
        spec_domain_generator(fixed_parameters.domain_size_log2 as nat),
    );
    let mut tuples: Vec<(GoldilocksElement, usize, GoldilocksElement)> = Vec::new();
    let mut i: usize = 0;
    while i < fixed_parameters.public_inputs_locations.len()
        invariant
            i <= fixed_parameters.public_inputs_locations@.len(),
            proof.public_inputs@.len() == fixed_parameters.public_inputs_locations@.len(),
            forall|j: int|
                0 <= j < proof.public_inputs@.len() ==> (#[trigger] proof.public_inputs@[j]).valid(),
            omega.valid(),
            omega.value == spec_domain_generator(fixed_parameters.domain_size_log2 as nat),
            tuple_spec == spec_public_input_tuples(
                *fixed_parameters,
                proof.public_inputs@.map(|j: int, g: GoldilocksElement| g.value as int),
                spec_domain_generator(fixed_parameters.domain_size_log2 as nat),
            ),
            tuples@.len() == i,
            forall|j: int|
                0 <= j < i ==> (#[trigger] tuples@[j]).0.valid() && tuples@[j].2.valid(),
            forall|j: int|
                0 <= j < i ==> ((#[trigger] tuples@[j]).0.value as int, tuples@[j].1 as int,
                    tuples@[j].2.value as int) == tuple_spec[j],
        decreases fixed_parameters.public_inputs_locations@.len() - i,
    {
        let (column, row) = fixed_parameters.public_inputs_locations[i];
        let open_at = omega.pow(row);
        let value = proof.public_inputs[i];
        tuples.push((open_at, column, value));
        i = i + 1;
    }
    proof {
        assert(tuples@.map(
            |k: int, t: (GoldilocksElement, usize, GoldilocksElement)| (
                t.0.value as int,
                t.1 as int,
                t.2.value as int,
            ),
        ) =~= tuple_spec);
    }
    (z, z_omega, tuples)
}

/// One relation's value at the evaluation point, over the opened column
/// values.
pub open spec fn spec_relation_eval(rel: GateRelation, values: Seq<(int, int)>) -> (int, int) {
    match rel {
        GateRelation::Product { a, b, out } => ext_sub(
            ext_mul(values[a as int], values[b as int]),
            values[out as int],
        ),
        GateRelation::Sum { a, b, out } => ext_sub(
            ext_add(values[a as int], values[b as int]),
            values[out as int],
        ),
    }
}

/// The quotient-consistency flags at the evaluation point: each relation,
/// evaluated over the claimed openings, must equal its claimed quotient
/// contribution times the vanishing value z^N - 1.
pub open spec fn spec_quotient_flags(
    fp: FixedParameters,
    values: Seq<(int, int)>,
    z: (int, int),
) -> Seq<bool> {
    let vanishing = ext_sub(spec_ext_square_iter(z, fp.domain_size_log2 as nat), (1int, 0int));
    Seq::new(
        fp.relations@.len(),
        |i: int|
            spec_relation_eval(fp.relations@[i], values) == ext_mul(
                values[fp.num_witness_polys + i],
                vanishing,
            ),
    )
}

/// Checks quotient-polynomial self-consistency at the evaluation point:
/// every algebraic relation must evaluate to its claimed quotient
/// contribution; a mismatch contributes a false flag, never an abort.
pub fn check_quotient_contributions_in_z(
    proof: &Proof,
    z: GoldilocksExtElement,
    fixed_parameters: &FixedParameters,
) -> (r: Vec<bool>)
    requires
        fixed_parameters.wf(),
        z.valid(),
        proof.values_at_z@.len() == fixed_parameters.num_witness_polys
            + fixed_parameters.relations@.len(),
        forall|i: int| 0 <= i < proof.values_at_z@.len() ==> (#[trigger] proof.values_at_z@[i]).valid(),
    ensures
        r@ == spec_quotient_flags(
            *fixed_parameters,
            proof.values_at_z@.map(|i: int, e: GoldilocksExtElement| e.spec_coeffs()),
            z.spec_coeffs(),
        ),
{
    let ghost values = proof.values_at_z@.map(|i: int, e: GoldilocksExtElement| e.spec_coeffs());
    let z_pow = ext_square_iter(z, fixed_parameters.domain_size_log2);
    let vanishing = z_pow.sub(GoldilocksExtElement::one());
    let mut flags: Vec<bool> = Vec::new();
    let mut i: usize = 0;
    while i < fixed_parameters.relations.len()
        invariant
            i <= fixed_parameters.relations@.len(),
            fixed_parameters.wf(),
            z.valid(),
            vanishing.valid(),
            vanishing.spec_coeffs() == ext_sub(
                spec_ext_square_iter(z.spec_coeffs(), fixed_parameters.domain_size_log2 as nat),
                (1int, 0int),
            ),
            proof.values_at_z@.len() == fixed_parameters.num_witness_polys
                + fixed_parameters.relations@.len(),
            forall|j: int|
                0 <= j < proof.values_at_z@.len() ==> (#[trigger] proof.values_at_z@[j]).valid(),
            values == proof.values_at_z@.map(|j: int, e: GoldilocksExtElement| e.spec_coeffs()),
            flags@.len() == i,
            forall|j: int|
                0 <= j < i ==> flags@[j] == (spec_relation_eval(fixed_parameters.relations@[j], values)
                    == ext_mul(
                    values[fixed_parameters.num_witness_polys + j],
                    ext_sub(
                        spec_ext_square_iter(
                            z.spec_coeffs(),
                            fixed_parameters.domain_size_log2 as nat,
                        ),
                        (1int, 0int),
                    ),
                )),
        decreases fixed_parameters.relations@.len() - i,
    {
        let rel = fixed_parameters.relations[i];
        let eval: GoldilocksExtElement = match rel {
            GateRelation::Product { a, b, out } => {
                proof {
                    assert(fixed_parameters.relations@[i as int].columns_in_range(
                        fixed_parameters.num_witness_polys as int,
                    ));
                }
                proof.values_at_z[a].mul(proof.values_at_z[b]).sub(proof.values_at_z[out])
            },
            GateRelation::Sum { a, b, out } => {
                proof {
                    assert(fixed_parameters.relations@[i as int].columns_in_range(
                        fixed_parameters.num_witness_polys as int,
                    ));
                }
                proof.values_at_z[a].add(proof.values_at_z[b]).sub(proof.values_at_z[out])
            },
        };
        let claimed = proof.values_at_z[fixed_parameters.num_witness_polys + i];
        let expected = claimed.mul(vanishing);
        let flag = eval.c0.value == expected.c0.value && eval.c1.value == expected.c1.value;
        flags.push(flag);
        i = i + 1;
    }
    proof {
        assert(flags@ =~= spec_quotient_flags(*fixed_parameters, values, z.spec_coeffs()));
    }
    flags
}

/// Whether a native element is a canonical (reduced) representative, decided
/// by limb-wise lexicographic comparison against the native modulus.
pub fn native_is_canonical(n: &NativeOutput) -> (r: bool)
    ensures
        r == n.valid(),
{
    let m3: u64 = 0x30644e72e131a029;
    let m2: u64 = 0xb85045b68181585d;
    let m1: u64 = 0x2833e84879b97091;
    let m0: u64 = 0x43e1f593f0000001;
    let r = if n.l3 != m3 {
        n.l3 < m3
    } else if n.l2 != m2 {
        n.l2 < m2
    } else if n.l1 != m1 {
        n.l1 < m1
    } else {
        n.l0 < m0
    };
    proof {
        let b = limb_radix();
        let m = NativeOutput { l0: m0, l1: m1, l2: m2, l3: m3 };
        assert(m.value() == native_modulus());
        lemma_limb_order(*n, m);
    }
    r
}

/// Lexicographic limb order decides the value order.
proof fn lemma_limb_order(a: NativeOutput, m: NativeOutput)
    ensures
        (a.value() < m.value()) == (if a.l3 != m.l3 {
            a.l3 < m.l3
        } else if a.l2 != m.l2 {
            a.l2 < m.l2
        } else if a.l1 != m.l1 {
            a.l1 < m.l1
        } else {
            a.l0 < m.l0
        }),
{
    let b = limb_radix();
    assert((a.value() < m.value()) == (if a.l3 != m.l3 {
        a.l3 < m.l3
    } else if a.l2 != m.l2 {
        a.l2 < m.l2
    } else if a.l1 != m.l1 {
        a.l1 < m.l1
    } else {
        a.l0 < m.l0
    })) by (nonlinear_arith)
        requires
            b == limb_radix(),
            a.l0 < b && a.l1 < b && a.l2 < b && a.l3 < b,
            m.l0 < b && m.l1 < b && m.l2 < b && m.l3 < b,
            a.value() == a.l0 as int + a.l1 as int * b + a.l2 as int * b * b
                + a.l3 as int * b * b * b,
            m.value() == m.l0 as int + m.l1 as int * b + m.l2 as int * b * b
                + m.l3 as int * b * b * b;
}

/// The precomputed generator powers: the generator of each power-of-two
/// subgroup up to the full evaluation domain.
pub open spec fn spec_omegas(max_bits: int) -> Seq<int> {
    Seq::new((max_bits + 1) as nat, |i: int| spec_domain_generator(i as nat))
}

/// The inverses of the precomputed generator powers.
pub open spec fn spec_omegas_inv(max_bits: int) -> Seq<int> {
    Seq::new(
        (max_bits + 1) as nat,
        |i: int| gl_pow(spec_domain_generator(i as nat), (GL_MODULUS - 2) as nat),
    )
}

/// The interpolation steps: the per-pair offsets of one folding level, built
/// from the inverse fourth- and eighth-roots of unity.
pub open spec fn spec_steps(oinv: Seq<int>) -> Seq<int> {
    seq![1int, oinv[2], oinv[3], gl_mul(oinv[2], oinv[3])]
}

/// The query loop: each repetition draws its index bits from the transcript
/// and contributes the flags of its checks.
#[verifier::opaque]
pub open spec fn spec_queries_loop(
    avail: Seq<bool>,
    t: TranscriptModel,
    proof: Proof,
    fp: FixedParameters,
    cst: ConstantsHolder,
    z: (int, int),
    z_omega: (int, int),
    chals: Seq<(int, int)>,
    round_chals: Seq<Seq<(int, int)>>,
    tuples: Seq<(int, int, int)>,
    omegas: Seq<int>,
    oinv: Seq<int>,
    steps: Seq<int>,
    queries: Seq<crate::verifier_structs::SingleRoundQueries>,
) -> (Seq<bool>, Seq<bool>, TranscriptModel)
    decreases queries.len(),
{
    if queries.len() == 0 {
        (Seq::empty(), avail, t)
    } else {
        let filled = crate::fri::spec_fill_bits(
            avail,
            t,
            cst.max_needed_bits as int,
            cst.max_needed_bits as nat,
        );
        let bits = filled.0.take(cst.max_needed_bits as int);
        let avail2 = filled.0.skip(cst.max_needed_bits as int);
        let flags = crate::fri::spec_fri_query(
            proof,
            fp,
            cst,
            z,
            z_omega,
            chals,
            round_chals,
            tuples,
            omegas,
            oinv,
            steps,
            queries[0],
            bits,
        );
        let rest = spec_queries_loop(
            avail2,
            filled.1,
            proof,
            fp,
            cst,
            z,
            z_omega,
            chals,
            round_chals,
            tuples,
            omegas,
            oinv,
            steps,
            queries.drop_first(),
        );
        (flags + rest.0, rest.1, rest.2)
    }
}

/// Each query repetition contributes the same number of flags.
pub proof fn lemma_queries_loop_len(
    avail: Seq<bool>,
    t: TranscriptModel,
    proof: Proof,
    fp: FixedParameters,
    cst: ConstantsHolder,
    z: (int, int),
    z_omega: (int, int),
    chals: Seq<(int, int)>,
    round_chals: Seq<Seq<(int, int)>>,
    tuples: Seq<(int, int, int)>,
    omegas: Seq<int>,
    oinv: Seq<int>,
    steps: Seq<int>,
    queries: Seq<crate::verifier_structs::SingleRoundQueries>,
)
    ensures
        spec_queries_loop(
            avail,
            t,
            proof,
            fp,
            cst,
            z,
            z_omega,
            chals,
            round_chals,
            tuples,
            omegas,
            oinv,
            steps,
            queries,
        ).0.len() == queries.len() * (3 + 3 * fp.fri_folding_schedule@.len()),
    decreases queries.len(),
{
    reveal(spec_queries_loop);
    if queries.len() > 0 {
        let filled = crate::fri::spec_fill_bits(
            avail,
            t,
            cst.max_needed_bits as int,
            cst.max_needed_bits as nat,
        );
        let bits = filled.0.take(cst.max_needed_bits as int);
        crate::fri::lemma_fri_query_len(
            proof,
            fp,
            cst,
            z,
            z_omega,
            chals,
            round_chals,
            tuples,
            omegas,
            oinv,
            steps,
            queries[0],
            bits,
        );
        lemma_queries_loop_len(
            filled.0.skip(cst.max_needed_bits as int),
            filled.1,
            proof,
            fp,
            cst,
            z,
            z_omega,
            chals,
            round_chals,
            tuples,
            omegas,
            oinv,
            steps,
            queries.drop_first(),
        );
        assert(queries.len() * (3 + 3 * fp.fri_folding_schedule@.len()) == (3 + 3
            * fp.fri_folding_schedule@.len()) + (queries.len() - 1) * (3 + 3
            * fp.fri_folding_schedule@.len())) by (nonlinear_arith);
    }
}

/// The static environment one query check needs: the parameters are well
/// formed, the derived constants match, the proof's committed geometry and
/// every held element check out, and the challenge holder carries the
/// expected challenge views.
#[verifier::opaque]
pub open spec fn spec_query_env_ok(
    proof: Proof,
    fp: FixedParameters,
    cst: ConstantsHolder,
    ch: crate::challenges::ChallengesHolder,
    chals: Seq<(int, int)>,
    rchals: Seq<Seq<(int, int)>>,
    tuples: Seq<(GoldilocksElement, usize, GoldilocksElement)>,
    omegas: Seq<GoldilocksElement>,
    omegas_inv: Seq<GoldilocksElement>,
    steps: Seq<GoldilocksElement>,
) -> bool {
    &&& fp.wf()
    &&& cst == crate::verifier_structs::spec_constants(fp)
    &&& cst.max_needed_bits < 30
    &&& forall|i: int|
        0 <= i < proof.queries_per_fri_repetition@.len() ==> crate::fri::spec_query_shape_ok(
            proof,
            fp,
            cst,
            #[trigger] proof.queries_per_fri_repetition@[i],
        )
    &&& proof.base_oracle_cap@.len() == vstd::arithmetic::power2::pow2(fp.cap_size_log2 as nat)
    &&& proof.fri_base_oracle_cap@.len() == vstd::arithmetic::power2::pow2(fp.cap_size_log2 as nat)
    &&& proof.fri_intermediate_oracles_caps@.len() + 1 == fp.fri_folding_schedule@.len()
    &&& forall|r: int|
        0 <= r < proof.fri_intermediate_oracles_caps@.len() ==> (
        #[trigger] proof.fri_intermediate_oracles_caps@[r])@.len()
            == vstd::arithmetic::power2::pow2(fp.cap_size_log2 as nat)
    &&& forall|i: int|
        0 <= i < proof.base_oracle_cap@.len() ==> (#[trigger] proof.base_oracle_cap@[i]).valid()
    &&& forall|i: int|
        0 <= i < proof.fri_base_oracle_cap@.len() ==> (
        #[trigger] proof.fri_base_oracle_cap@[i]).valid()
    &&& forall|r: int, i: int|
        0 <= r < proof.fri_intermediate_oracles_caps@.len() && 0 <= i
            < proof.fri_intermediate_oracles_caps@[r]@.len() ==> (
        #[trigger] proof.fri_intermediate_oracles_caps@[r]@[i]).valid()
    &&& proof.values_at_z@.len() == cst.num_poly_values_at_z
    &&& proof.values_at_z_omega@.len() == 1
    &&& proof.values_at_0@.len() == cst.num_poly_values_at_zero
    &&& forall|i: int| 0 <= i < proof.values_at_z@.len() ==> (#[trigger] proof.values_at_z@[i]).valid()
    &&& forall|i: int|
        0 <= i < proof.values_at_z_omega@.len() ==> (#[trigger] proof.values_at_z_omega@[i]).valid()
    &&& forall|i: int| 0 <= i < proof.values_at_0@.len() ==> (#[trigger] proof.values_at_0@[i]).valid()
    &&& proof.final_fri_monomials_c0@.len() == proof.final_fri_monomials_c1@.len()
    &&& forall|i: int|
        0 <= i < proof.final_fri_monomials_c0@.len() ==> (
        #[trigger] proof.final_fri_monomials_c0@[i]).valid()
    &&& forall|i: int|
        0 <= i < proof.final_fri_monomials_c1@.len() ==> (
        #[trigger] proof.final_fri_monomials_c1@[i]).valid()
    &&& ch.z.valid()
    &&& ch.z_omega.valid()
    &&& ch.challenges_for_fri_quotiening@.len() == cst.total_num_challenges_for_fri_quotiening
    &&& forall|i: int|
        0 <= i < ch.challenges_for_fri_quotiening@.len() ==> (
        #[trigger] ch.challenges_for_fri_quotiening@[i]).valid()
    &&& ch.fri_intermediate_challenges@.len() == fp.fri_folding_schedule@.len()
    &&& forall|r: int|
        0 <= r < ch.fri_intermediate_challenges@.len() ==> (
        #[trigger] ch.fri_intermediate_challenges@[r])@.len() == fp.fri_folding_schedule@[r]
    &&& forall|r: int, i: int|
        0 <= r < ch.fri_intermediate_challenges@.len() && 0 <= i
            < ch.fri_intermediate_challenges@[r]@.len() ==> (
        #[trigger] ch.fri_intermediate_challenges@[r]@[i]).valid()
    &&& ch.challenges_for_fri_quotiening@.map(
        |i: int, e: crate::extension::GoldilocksExtElement| e.spec_coeffs(),
    ) == chals
    &&& ch.fri_intermediate_challenges@.map(
        |r: int, inner: Vec<crate::extension::GoldilocksExtElement>| inner@.map(
            |i: int, e: crate::extension::GoldilocksExtElement| e.spec_coeffs(),
        ),
    ) == rchals
    &&& tuples.len() == cst.num_public_inputs
    &&& forall|i: int| 0 <= i < tuples.len() ==> (#[trigger] tuples[i]).0.valid() && tuples[i].2.valid()
    &&& forall|i: int| 0 <= i < tuples.len() ==> (#[trigger] tuples[i]).1 < fp.num_witness_polys
    &&& omegas.len() == cst.max_needed_bits + 1
    &&& omegas_inv.len() == cst.max_needed_bits + 1
    &&& forall|i: int| 0 <= i < omegas.len() ==> (#[trigger] omegas[i]).valid()
    &&& forall|i: int| 0 <= i < omegas_inv.len() ==> (#[trigger] omegas_inv[i]).valid()
    &&& omegas.map(|i: int, g: GoldilocksElement| g.value as int) == spec_omegas(
        cst.max_needed_bits as int,
    )
    &&& omegas_inv.map(|i: int, g: GoldilocksElement| g.value as int) == spec_omegas_inv(
        cst.max_needed_bits as int,
    )
    &&& steps.len() == 4
    &&& forall|i: int| 0 <= i < steps.len() ==> (#[trigger] steps[i]).valid()
    &&& steps.map(|i: int, g: GoldilocksElement| g.value as int) == spec_steps(
        spec_omegas_inv(cst.max_needed_bits as int),
    )
}

/// One query repetition: draws the index bits and runs the query's checks.
#[verifier::rlimit(100)]
fn fri_query_step(
    proof: &Proof,
    fixed_parameters: &FixedParameters,
    constants: &ConstantsHolder,
    challenges: &crate::challenges::ChallengesHolder,
    tuples: &Vec<(GoldilocksElement, usize, GoldilocksElement)>,
    omegas: &Vec<GoldilocksElement>,
    omegas_inv: &Vec<GoldilocksElement>,
    steps: &Vec<GoldilocksElement>,
    bools_buffer: &mut crate::fri::BoolsBuffer,
    transcript: &mut CircuitPoseidon2Transcript,
    q: &crate::verifier_structs::SingleRoundQueries,
    Ghost(chalspec): Ghost<Seq<(int, int)>>,
    Ghost(rchals): Ghost<Seq<Seq<(int, int)>>>,
) -> (qf: Vec<bool>)
    requires
        spec_query_env_ok(
            *proof,
            *fixed_parameters,
            *constants,
            *challenges,
            chalspec,
            rchals,
            tuples@,
            omegas@,
            omegas_inv@,
            steps@,
        ),
        crate::fri::spec_query_shape_ok(*proof, *fixed_parameters, *constants, *q),
        old(transcript).wf(),
        old(bools_buffer).max_needed == constants.max_needed_bits,
    ensures
        final(transcript).wf(),
        final(bools_buffer).max_needed == constants.max_needed_bits,
        ({
            let filled = crate::fri::spec_fill_bits(
                old(bools_buffer).available@,
                old(transcript).model(),
                constants.max_needed_bits as int,
                constants.max_needed_bits as nat,
            );
            &&& qf@ == crate::fri::spec_fri_query(
                *proof,
                *fixed_parameters,
                *constants,
                challenges.z.spec_coeffs(),
                challenges.z_omega.spec_coeffs(),
                chalspec,
                rchals,
                tuples@.map(|i: int, t: (GoldilocksElement, usize, GoldilocksElement)| (
                    t.0.value as int,
                    t.1 as int,
                    t.2.value as int,
                )),
                spec_omegas(constants.max_needed_bits as int),
                spec_omegas_inv(constants.max_needed_bits as int),
                spec_steps(spec_omegas_inv(constants.max_needed_bits as int)),
                *q,
                filled.0.take(constants.max_needed_bits as int),
            )
            &&& final(bools_buffer).available@ == filled.0.skip(constants.max_needed_bits as int)
            &&& final(transcript).model() == filled.1
            &&& qf@.len() == 3 + 3 * fixed_parameters.fri_folding_schedule@.len()
        }),
{
    proof {
        reveal(spec_query_env_ok);
        crate::fri::lemma_fill_bits_len(
            old(bools_buffer).available@,
            old(transcript).model(),
            constants.max_needed_bits as int,
            constants.max_needed_bits as nat,
        );
    }
    let bits = bools_buffer.get_bits(transcript, constants.max_needed_bits);
    let qf = crate::fri::verify_fri_query(
        proof,
        fixed_parameters,
        constants,
        challenges,
        tuples,
        omegas,
        omegas_inv,
        steps,
        q,
        &bits,
    );
    proof {
        assert(qf@.len() == 3 + 3 * fixed_parameters.fri_folding_schedule@.len());
    }
    qf
}

/// Derives the remaining challenges, absorbs the final monomials, and runs
/// every query's checks, producing one first-class flag per sub-check.
#[verifier::rlimit(100)]
pub fn verify_fri_part(
    proof: &Proof,
    challenges: &mut crate::challenges::ChallengesHolder,
    transcript: &mut CircuitPoseidon2Transcript,
    tuples: &Vec<(GoldilocksElement, usize, GoldilocksElement)>,
    fixed_parameters: &FixedParameters,
    constants: &ConstantsHolder,
) -> (flags: Vec<bool>)
    requires
        old(transcript).wf(),
        old(challenges).z.valid(),
        old(challenges).z_omega.valid(),
        old(challenges).fri_intermediate_challenges@.len() == 0,
        fixed_parameters.wf(),
        *constants == crate::verifier_structs::spec_constants(*fixed_parameters),
        forall|i: int|
            0 <= i < proof.queries_per_fri_repetition@.len() ==> crate::fri::spec_query_shape_ok(
                *proof,
                *fixed_parameters,
                *constants,
                #[trigger] proof.queries_per_fri_repetition@[i],
            ),
        proof.queries_per_fri_repetition@.len() == constants.num_fri_repetitions,
        proof.base_oracle_cap@.len() == vstd::arithmetic::power2::pow2(
            fixed_parameters.cap_size_log2 as nat,
        ),
        proof.fri_base_oracle_cap@.len() == vstd::arithmetic::power2::pow2(
            fixed_parameters.cap_size_log2 as nat,
        ),
        proof.fri_intermediate_oracles_caps@.len() + 1
            == fixed_parameters.fri_folding_schedule@.len(),
        forall|r: int|
            0 <= r < proof.fri_intermediate_oracles_caps@.len() ==> (
            #[trigger] proof.fri_intermediate_oracles_caps@[r])@.len()
                == vstd::arithmetic::power2::pow2(fixed_parameters.cap_size_log2 as nat),
        forall|i: int|
            0 <= i < proof.base_oracle_cap@.len() ==> (#[trigger] proof.base_oracle_cap@[i]).valid(),
        forall|i: int|
            0 <= i < proof.fri_base_oracle_cap@.len() ==> (
            #[trigger] proof.fri_base_oracle_cap@[i]).valid(),
        forall|r: int, i: int|
            0 <= r < proof.fri_intermediate_oracles_caps@.len() && 0 <= i
                < proof.fri_intermediate_oracles_caps@[r]@.len() ==> (
            #[trigger] proof.fri_intermediate_oracles_caps@[r]@[i]).valid(),
        proof.values_at_z@.len() == constants.num_poly_values_at_z,
        proof.values_at_z_omega@.len() == 1,
        proof.values_at_0@.len() == constants.num_poly_values_at_zero,
        forall|i: int| 0 <= i < proof.values_at_z@.len() ==> (#[trigger] proof.values_at_z@[i]).valid(),
        forall|i: int|
            0 <= i < proof.values_at_z_omega@.len() ==> (
            #[trigger] proof.values_at_z_omega@[i]).valid(),
        forall|i: int| 0 <= i < proof.values_at_0@.len() ==> (#[trigger] proof.values_at_0@[i]).valid(),
        proof.final_fri_monomials_c0@.len() == constants.final_expected_degree,
        proof.final_fri_monomials_c1@.len() == constants.final_expected_degree,
        forall|i: int|
            0 <= i < proof.final_fri_monomials_c0@.len() ==> (
            #[trigger] proof.final_fri_monomials_c0@[i]).valid(),
        forall|i: int|
            0 <= i < proof.final_fri_monomials_c1@.len() ==> (
            #[trigger] proof.final_fri_monomials_c1@[i]).valid(),
        tuples@.len() == constants.num_public_inputs,
        forall|i: int|
            0 <= i < tuples@.len() ==> (#[trigger] tuples@[i]).0.valid() && tuples@[i].2.valid(),
        forall|i: int|
            0 <= i < tuples@.len() ==> (#[trigger] tuples@[i]).1 < fixed_parameters.num_witness_polys,
    ensures
        final(transcript).wf(),
        ({
            let d = spec_draw_ext(old(transcript).model());
            let chals = Seq::new(
                constants.total_num_challenges_for_fri_quotiening as nat,
                |i: int| crate::challenges::spec_ext_pow(d.0, i as nat),
            );
            let fr = crate::challenges::spec_fri_rounds(
                d.1,
                crate::challenges::spec_all_caps(*proof),
                fixed_parameters.fri_folding_schedule@,
            );
            let t_m1 = spec_witness_seq(
                fr.1,
                proof.final_fri_monomials_c0@.map(|i: int, g: GoldilocksElement| g.value as int),
            );
            let t_m2 = spec_witness_seq(
                t_m1,
                proof.final_fri_monomials_c1@.map(|i: int, g: GoldilocksElement| g.value as int),
            );
            let oinv = spec_omegas_inv(constants.max_needed_bits as int);
            let ql = spec_queries_loop(
                Seq::empty(),
                t_m2,
                *proof,
                *fixed_parameters,
                *constants,
                old(challenges).z.spec_coeffs(),
                old(challenges).z_omega.spec_coeffs(),
                chals,
                fr.0,
                tuples@.map(|i: int, t: (GoldilocksElement, usize, GoldilocksElement)| (
                    t.0.value as int,
                    t.1 as int,
                    t.2.value as int,
                )),
                spec_omegas(constants.max_needed_bits as int),
                oinv,
                spec_steps(oinv),
                proof.queries_per_fri_repetition@,
            );
            flags@ == ql.0 && final(transcript).model() == ql.2
        }),
{
    let ghost t0 = old(transcript).model();
    challenges.get_challenges_for_fri_quotiening(
        transcript,
        constants.total_num_challenges_for_fri_quotiening,
    );
    challenges.get_fri_intermediate_challenges(transcript, proof, fixed_parameters);
    transcript.witness_field_elements(&proof.final_fri_monomials_c0);
    transcript.witness_field_elements(&proof.final_fri_monomials_c1);
    let ghost d = spec_draw_ext(t0);
    let ghost chalspec = Seq::new(
        constants.total_num_challenges_for_fri_quotiening as nat,
        |i: int| crate::challenges::spec_ext_pow(d.0, i as nat),
    );
    let ghost fr = crate::challenges::spec_fri_rounds(
        d.1,
        crate::challenges::spec_all_caps(*proof),
        fixed_parameters.fri_folding_schedule@,
    );
    proof {
        crate::challenges::lemma_fri_rounds_len(
            d.1,
            crate::challenges::spec_all_caps(*proof),
            fixed_parameters.fri_folding_schedule@,
        );
        assert(challenges.challenges_for_fri_quotiening@.map(
            |i: int, e: crate::extension::GoldilocksExtElement| e.spec_coeffs(),
        ) =~= chalspec);
        assert(challenges.fri_intermediate_challenges@.map(
            |r: int, inner: Vec<crate::extension::GoldilocksExtElement>| inner@.map(
                |i: int, e: crate::extension::GoldilocksExtElement| e.spec_coeffs(),
            ),
        ) =~= fr.0) by {
            assert forall|r: int|
                0 <= r < fixed_parameters.fri_folding_schedule@.len() implies crate::challenges::ext_vec_view(
                challenges.fri_intermediate_challenges@[r]@,
            ) == fr.0[r] by {
                assert(challenges.fri_intermediate_challenges@[0 + r]
                    == challenges.fri_intermediate_challenges@[r]);
            };
        };
    }
    // precomputed generator powers and their inverses
    let max_bits: usize = constants.max_needed_bits;
    let mut omegas: Vec<GoldilocksElement> = Vec::new();
    let mut omegas_inv: Vec<GoldilocksElement> = Vec::new();
    let mut oi: usize = 0;
    while oi <= max_bits
        invariant
            oi <= max_bits + 1,
            max_bits <= 32,
            omegas@.len() == oi,
            omegas_inv@.len() == oi,
            forall|i: int| 0 <= i < oi ==> (#[trigger] omegas@[i]).valid(),
            forall|i: int| 0 <= i < oi ==> (#[trigger] omegas_inv@[i]).valid(),
            forall|i: int|
                0 <= i < oi ==> (#[trigger] omegas@[i]).value as int == spec_domain_generator(
                    i as nat,
                ),
            forall|i: int|
                0 <= i < oi ==> (#[trigger] omegas_inv@[i]).value as int == gl_pow(
                    spec_domain_generator(i as nat),
                    (GL_MODULUS - 2) as nat,
                ),
        decreases max_bits + 1 - oi,
    {
        let omega = domain_generator_for_size_log2(oi as u64);
        omegas.push(omega);
        omegas_inv.push(omega.inverse());
        oi = oi + 1;
    }
    proof {
        assert(omegas@.map(|i: int, g: GoldilocksElement| g.value as int) =~= spec_omegas(
            max_bits as int,
        ));
        assert(omegas_inv@.map(|i: int, g: GoldilocksElement| g.value as int) =~= spec_omegas_inv(
            max_bits as int,
        ));
    }
    let mut steps: Vec<GoldilocksElement> = Vec::new();
    steps.push(GoldilocksElement::one());
    steps.push(omegas_inv[2]);
    steps.push(omegas_inv[3]);
    steps.push(omegas_inv[2].mul(omegas_inv[3]));
    proof {
        assert(steps@.map(|i: int, g: GoldilocksElement| g.value as int) =~= spec_steps(
            spec_omegas_inv(max_bits as int),
        ));
    }
    let ghost tuplespec = tuples@.map(|i: int, t: (GoldilocksElement, usize, GoldilocksElement)| (
        t.0.value as int,
        t.1 as int,
        t.2.value as int,
    ));
    let ghost t_start = transcript.model();
    let ghost full_loop = spec_queries_loop(
        Seq::empty(),
        t_start,
        *proof,
        *fixed_parameters,
        *constants,
        challenges.z.spec_coeffs(),
        challenges.z_omega.spec_coeffs(),
        chalspec,
        fr.0,
        tuplespec,
        spec_omegas(max_bits as int),
        spec_omegas_inv(max_bits as int),
        spec_steps(spec_omegas_inv(max_bits as int)),
        proof.queries_per_fri_repetition@,
    );
    let mut bools_buffer = crate::fri::BoolsBuffer { available: Vec::new(), max_needed: max_bits };
    let mut flags: Vec<bool> = Vec::new();
    let num_queries: usize = constants.num_fri_repetitions;
    let ghost qseq = proof.queries_per_fri_repetition@;
    proof {
        assert(qseq.skip(0) =~= qseq);
        assert(bools_buffer.available@ =~= Seq::<bool>::empty());
    }
    proof {
        reveal(spec_queries_loop);
        lemma_queries_loop_len(
            Seq::empty(),
            t_start,
            *proof,
            *fixed_parameters,
            *constants,
            challenges.z.spec_coeffs(),
            challenges.z_omega.spec_coeffs(),
            chalspec,
            fr.0,
            tuplespec,
            spec_omegas(max_bits as int),
            spec_omegas_inv(max_bits as int),
            spec_steps(spec_omegas_inv(max_bits as int)),
            proof.queries_per_fri_repetition@,
        );
        assert forall|r: int|
            0 <= r < challenges.fri_intermediate_challenges@.len() implies (
        #[trigger] challenges.fri_intermediate_challenges@[r])@.len()
            == fixed_parameters.fri_folding_schedule@[r] by {
            assert(challenges.fri_intermediate_challenges@[0 + r]
                == challenges.fri_intermediate_challenges@[r]);
        };
    }
    proof {
        reveal(spec_query_env_ok);
        assert(spec_query_env_ok(
            *proof,
            *fixed_parameters,
            *constants,
            *challenges,
            chalspec,
            fr.0,
            tuples@,
            omegas@,
            omegas_inv@,
            steps@,
        ));
    }
    let mut qi: usize = 0;
    while qi < num_queries
        invariant
            qi <= num_queries,
            num_queries == qseq.len(),
            qseq == proof.queries_per_fri_repetition@,
            transcript.wf(),
            max_bits == constants.max_needed_bits,
            bools_buffer.max_needed == max_bits,
            spec_query_env_ok(
                *proof,
                *fixed_parameters,
                *constants,
                *challenges,
                chalspec,
                fr.0,
                tuples@,
                omegas@,
                omegas_inv@,
                steps@,
            ),
            full_loop.0.len() == num_queries * (3 + 3 * fixed_parameters.fri_folding_schedule@.len()),
            flags@.len() == qi * (3 + 3 * fixed_parameters.fri_folding_schedule@.len()),
            tuplespec == tuples@.map(|i: int, t: (GoldilocksElement, usize, GoldilocksElement)| (
                t.0.value as int,
                t.1 as int,
                t.2.value as int,
            )),
            forall|i: int|
                0 <= i < qseq.len() ==> crate::fri::spec_query_shape_ok(
                    *proof,
                    *fixed_parameters,
                    *constants,
                    #[trigger] qseq[i],
                ),
            spec_queries_loop(
                bools_buffer.available@,
                transcript.model(),
                *proof,
                *fixed_parameters,
                *constants,
                challenges.z.spec_coeffs(),
                challenges.z_omega.spec_coeffs(),
                chalspec,
                fr.0,
                tuplespec,
                spec_omegas(max_bits as int),
                spec_omegas_inv(max_bits as int),
                spec_steps(spec_omegas_inv(max_bits as int)),
                qseq.skip(qi as int),
            ) == (full_loop.0.skip(flags@.len() as int), full_loop.1, full_loop.2),
            flags@ =~= full_loop.0.take(flags@.len() as int),
        decreases num_queries - qi,
    {
        let ghost avail_pre = bools_buffer.available@;
        let ghost t_pre = transcript.model();
        proof {
            assert(qseq.skip(qi as int)[0] == qseq[qi as int]);
            assert(qseq.skip(qi as int).drop_first() =~= qseq.skip(qi as int + 1));
        }
        let ghost pre_len = flags@.len();
        let mut query_flags = fri_query_step(
            proof,
            fixed_parameters,
            constants,
            challenges,
            tuples,
            &omegas,
            &omegas_inv,
            &steps,
            &mut bools_buffer,
            transcript,
            &proof.queries_per_fri_repetition[qi],
            Ghost(chalspec),
            Ghost(fr.0),
        );
        let ghost qf = query_flags@;
        flags.append(&mut query_flags);
        qi = qi + 1;
        proof {
            let ghost step = spec_queries_loop(
                avail_pre,
                t_pre,
                *proof,
                *fixed_parameters,
                *constants,
                challenges.z.spec_coeffs(),
                challenges.z_omega.spec_coeffs(),
                chalspec,
                fr.0,
                tuplespec,
                spec_omegas(max_bits as int),
                spec_omegas_inv(max_bits as int),
                spec_steps(spec_omegas_inv(max_bits as int)),
                qseq.skip(qi - 1),
            );
            let ghost rest = spec_queries_loop(
                bools_buffer.available@,
                transcript.model(),
                *proof,
                *fixed_parameters,
                *constants,
                challenges.z.spec_coeffs(),
                challenges.z_omega.spec_coeffs(),
                chalspec,
                fr.0,
                tuplespec,
                spec_omegas(max_bits as int),
                spec_omegas_inv(max_bits as int),
                spec_steps(spec_omegas_inv(max_bits as int)),
                qseq.skip(qi as int),
            );
            assert(qf.len() == 3 + 3 * fixed_parameters.fri_folding_schedule@.len());
            assert(pre_len as int + qf.len() as int <= full_loop.0.len()) by (nonlinear_arith)
                requires
                    qi <= num_queries,
                    pre_len == (qi - 1) * (3 + 3 * fixed_parameters.fri_folding_schedule@.len()),
                    qf.len() == 3 + 3 * fixed_parameters.fri_folding_schedule@.len(),
                    full_loop.0.len() == num_queries * (3 + 3
                        * fixed_parameters.fri_folding_schedule@.len());
            assert(flags@.len() == qi * (3 + 3 * fixed_parameters.fri_folding_schedule@.len()))
                by (nonlinear_arith)
                requires
                    flags@.len() == pre_len + qf.len(),
                    pre_len == (qi - 1) * (3 + 3 * fixed_parameters.fri_folding_schedule@.len()),
                    qf.len() == 3 + 3 * fixed_parameters.fri_folding_schedule@.len();
            assert(step == (qf + rest.0, rest.1, rest.2)) by {
                reveal(spec_queries_loop);
            };
            assert(step.0 == full_loop.0.skip(pre_len as int));
            assert((qf + rest.0).skip(qf.len() as int) =~= rest.0);
            assert(flags@.len() == pre_len + qf.len());
            assert(full_loop.0.skip(pre_len as int).skip(qf.len() as int) =~= full_loop.0.skip(
                pre_len as int + qf.len() as int,
            ));
            assert(rest.0 =~= full_loop.0.skip(flags@.len() as int));
            assert forall|i: int| 0 <= i < flags@.len() implies flags@[i] == full_loop.0[i] by {
                if i >= pre_len {
                    assert(full_loop.0.skip(pre_len as int)[i - pre_len] == (qf + rest.0)[i
                        - pre_len]);
                }
            };
            assert(flags@ =~= full_loop.0.take(flags@.len() as int));
        }
    }
    proof {
        reveal(spec_queries_loop);
        assert(qseq.skip(num_queries as int).len() == 0);
        assert(full_loop.0.take(flags@.len() as int) =~= full_loop.0);
    }
    flags
}

/// Every flag in a list holds.
pub open spec fn spec_all_true(s: Seq<bool>) -> bool {
    forall|i: int| 0 <= i < s.len() ==> s[i]
}

/// All base-field elements of a vector are reduced.
fn check_gl_vec(v: &Vec<GoldilocksElement>) -> (r: bool)
    ensures
        r == forall|i: int| 0 <= i < v@.len() ==> (#[trigger] v@[i]).valid(),
{
    let mut i: usize = 0;
    let mut ok = true;
    while i < v.len()
        invariant
            i <= v@.len(),
            ok == forall|j: int| 0 <= j < i ==> (#[trigger] v@[j]).valid(),
        decreases v@.len() - i,
    {
        ok = ok && v[i].value < GL_MODULUS;
        i = i + 1;
    }
    ok
}

/// All extension elements of a vector are reduced.
fn check_ext_vec(v: &Vec<crate::extension::GoldilocksExtElement>) -> (r: bool)
    ensures
        r == forall|i: int| 0 <= i < v@.len() ==> (#[trigger] v@[i]).valid(),
{
    let mut i: usize = 0;
    let mut ok = true;
    while i < v.len()
        invariant
            i <= v@.len(),
            ok == forall|j: int| 0 <= j < i ==> (#[trigger] v@[j]).valid(),
        decreases v@.len() - i,
    {
        ok = ok && v[i].c0.value < GL_MODULUS && v[i].c1.value < GL_MODULUS;
        i = i + 1;
    }
    ok
}

/// All native elements of a vector are canonical.
fn check_native_vec(v: &Vec<NativeOutput>) -> (r: bool)
    ensures
        r == forall|i: int| 0 <= i < v@.len() ==> (#[trigger] v@[i]).valid(),
{
    let mut i: usize = 0;
    let mut ok = true;
    while i < v.len()
        invariant
            i <= v@.len(),
            ok == forall|j: int| 0 <= j < i ==> (#[trigger] v@[j]).valid(),
        decreases v@.len() - i,
    {
        ok = ok && native_is_canonical(&v[i]);
        i = i + 1;
    }
    ok
}

/// Checks the structural validity of the parameters themselves.
pub fn check_fixed_parameters(fp: &FixedParameters) -> (r: bool)
    ensures
        r == fp.wf(),
{
    let basic = 1 <= fp.domain_size_log2 && fp.domain_size_log2 <= 28 && 1 <= fp.lde_factor_log2
        && fp.lde_factor_log2 <= 4 && 1 <= fp.cap_size_log2 && fp.cap_size_log2 <= 10
        && fp.cap_size_log2 < fp.domain_size_log2 + fp.lde_factor_log2 && fp.domain_size_log2
        + fp.lde_factor_log2 >= 4 && fp.domain_size_log2 + fp.lde_factor_log2 <= 28
        && 1 <= fp.fri_folding_schedule.len() && fp.fri_folding_schedule.len() <= 16
        && 1 <= fp.num_witness_polys && fp.num_witness_polys <= 64 && fp.relations.len() <= 64
        && fp.num_values_at_0 <= fp.num_witness_polys && fp.public_inputs_locations.len() <= 64
        && 1 <= fp.num_queries && fp.num_queries <= 128;
    if !basic {
        return false;
    }
    let mut i: usize = 0;
    let mut sched_ok = true;
    while i < fp.fri_folding_schedule.len()
        invariant
            i <= fp.fri_folding_schedule@.len(),
            sched_ok == forall|j: int|
                0 <= j < i ==> 1 <= #[trigger] fp.fri_folding_schedule@[j] <= 3,
        decreases fp.fri_folding_schedule@.len() - i,
    {
        sched_ok = sched_ok && 1 <= fp.fri_folding_schedule[i] && fp.fri_folding_schedule[i] <= 3;
        i = i + 1;
    }
    if !sched_ok {
        return false;
    }
    let total = crate::verifier_structs::sum_of_schedule(&fp.fri_folding_schedule);
    if !(total <= fp.domain_size_log2 && total + fp.cap_size_log2 <= fp.domain_size_log2
        + fp.lde_factor_log2) {
        return false;
    }
    let mut k: usize = 0;
    let mut rel_ok = true;
    while k < fp.relations.len()
        invariant
            k <= fp.relations@.len(),
            rel_ok == forall|j: int|
                0 <= j < k ==> (#[trigger] fp.relations@[j]).columns_in_range(
                    fp.num_witness_polys as int,
                ),
        decreases fp.relations@.len() - k,
    {
        let this_ok = match fp.relations[k] {
            crate::verifier_structs::GateRelation::Product { a, b, out } => a
                < fp.num_witness_polys && b < fp.num_witness_polys && out < fp.num_witness_polys,
            crate::verifier_structs::GateRelation::Sum { a, b, out } => a < fp.num_witness_polys
                && b < fp.num_witness_polys && out < fp.num_witness_polys,
        };
        rel_ok = rel_ok && this_ok;
        k = k + 1;
    }
    if !rel_ok {
        return false;
    }
    let mut p: usize = 0;
    let mut loc_ok = true;
    while p < fp.public_inputs_locations.len()
        invariant
            p <= fp.public_inputs_locations@.len(),
            loc_ok == forall|j: int|
                0 <= j < p ==> (#[trigger] fp.public_inputs_locations@[j]).0
                    < fp.num_witness_polys,
        decreases fp.public_inputs_locations@.len() - p,
    {
        loc_ok = loc_ok && fp.public_inputs_locations[p].0 < fp.num_witness_polys;
        p = p + 1;
    }
    loc_ok
}

/// The public inputs are structurally acceptable.
pub open spec fn spec_publics_ok(proof: Proof, fp: FixedParameters) -> bool {
    &&& proof.public_inputs@.len() == fp.public_inputs_locations@.len()
    &&& forall|i: int| 0 <= i < proof.public_inputs@.len() ==> (#[trigger] proof.public_inputs@[i]).valid()
}

/// The commitment caps are structurally acceptable.
pub open spec fn spec_caps_ok(proof: Proof, vk: VerificationKey, fp: FixedParameters) -> bool {
    let cap_len = vstd::arithmetic::power2::pow2(fp.cap_size_log2 as nat);
    &&& vk.setup_merkle_tree_cap@.len() == cap_len
    &&& proof.base_oracle_cap@.len() == cap_len
    &&& proof.fri_base_oracle_cap@.len() == cap_len
    &&& proof.fri_intermediate_oracles_caps@.len() + 1 == fp.fri_folding_schedule@.len()
    &&& forall|r: int|
        0 <= r < proof.fri_intermediate_oracles_caps@.len() ==> (
        #[trigger] proof.fri_intermediate_oracles_caps@[r])@.len() == cap_len
    &&& forall|i: int|
        0 <= i < vk.setup_merkle_tree_cap@.len() ==> (#[trigger] vk.setup_merkle_tree_cap@[i]).valid()
    &&& forall|i: int|
        0 <= i < proof.base_oracle_cap@.len() ==> (#[trigger] proof.base_oracle_cap@[i]).valid()
    &&& forall|i: int|
        0 <= i < proof.fri_base_oracle_cap@.len() ==> (
        #[trigger] proof.fri_base_oracle_cap@[i]).valid()
    &&& forall|r: int, i: int|
        0 <= r < proof.fri_intermediate_oracles_caps@.len() && 0 <= i
            < proof.fri_intermediate_oracles_caps@[r]@.len() ==> (
        #[trigger] proof.fri_intermediate_oracles_caps@[r]@[i]).valid()
}

/// The claimed openings are structurally acceptable.
pub open spec fn spec_openings_ok(proof: Proof, cst: ConstantsHolder) -> bool {
    &&& proof.values_at_z@.len() == cst.num_poly_values_at_z
    &&& proof.values_at_z_omega@.len() == 1
    &&& proof.values_at_0@.len() == cst.num_poly_values_at_zero
    &&& forall|i: int| 0 <= i < proof.values_at_z@.len() ==> (#[trigger] proof.values_at_z@[i]).valid()
    &&& forall|i: int|
        0 <= i < proof.values_at_z_omega@.len() ==> (#[trigger] proof.values_at_z_omega@[i]).valid()
    &&& forall|i: int| 0 <= i < proof.values_at_0@.len() ==> (#[trigger] proof.values_at_0@[i]).valid()
}

/// The final monomial form is structurally acceptable.
pub open spec fn spec_monomials_ok(proof: Proof, cst: ConstantsHolder) -> bool {
    &&& proof.final_fri_monomials_c0@.len() == cst.final_expected_degree
    &&& proof.final_fri_monomials_c1@.len() == cst.final_expected_degree
    &&& forall|i: int|
        0 <= i < proof.final_fri_monomials_c0@.len() ==> (
        #[trigger] proof.final_fri_monomials_c0@[i]).valid()
    &&& forall|i: int|
        0 <= i < proof.final_fri_monomials_c1@.len() ==> (
        #[trigger] proof.final_fri_monomials_c1@[i]).valid()
}

/// The queries are structurally acceptable.
pub open spec fn spec_queries_ok(proof: Proof, fp: FixedParameters, cst: ConstantsHolder) -> bool {
    &&& proof.queries_per_fri_repetition@.len() == cst.num_fri_repetitions
    &&& forall|i: int|
        0 <= i < proof.queries_per_fri_repetition@.len() ==> crate::fri::spec_query_shape_ok(
            proof,
            fp,
            cst,
            #[trigger] proof.queries_per_fri_repetition@[i],
        )
}

/// Every structural requirement a verification run relies on.
pub open spec fn spec_shape_ok(proof: Proof, vk: VerificationKey, fp: FixedParameters) -> bool {
    &&& fp.wf()
    &&& spec_publics_ok(proof, fp)
    &&& spec_caps_ok(proof, vk, fp)
    &&& spec_openings_ok(proof, spec_constants(fp))
    &&& spec_monomials_ok(proof, spec_constants(fp))
    &&& spec_queries_ok(proof, fp, spec_constants(fp))
}

/// Checks the structural validity of one query.
fn check_query_shape(
    proof: &Proof,
    fp: &FixedParameters,
    cst: &ConstantsHolder,
    q: &crate::verifier_structs::SingleRoundQueries,
) -> (r: bool)
    requires
        fp.wf(),
        *cst == spec_constants(*fp),
    ensures
        r == crate::fri::spec_query_shape_ok(*proof, *fp, *cst, *q),
{
    if !(q.base_query.leaf_elements.len() == cst.num_polys && q.base_query.proof.len()
        == cst.base_oracle_depth && q.fri_queries.len() == fp.fri_folding_schedule.len()) {
        return false;
    }
    if !(check_gl_vec(&q.base_query.leaf_elements) && check_native_vec(&q.base_query.proof)) {
        return false;
    }
    let ghost schedseq = fp.fri_folding_schedule@;
    let mut cum: usize = 0;
    let mut r: usize = 0;
    let mut ok = true;
    proof {
        assert(schedseq.take(0) =~= Seq::<usize>::empty());
        crate::verifier_structs::lemma_sum_nonneg(schedseq);
    }
    while r < q.fri_queries.len()
        invariant
            r <= q.fri_queries@.len(),
            q.fri_queries@.len() == schedseq.len(),
            schedseq == fp.fri_folding_schedule@,
            fp.wf(),
            *cst == spec_constants(*fp),
            cum == crate::verifier_structs::spec_sum_of(schedseq.take(r as int)),
            0 <= cum <= crate::verifier_structs::spec_sum_of(schedseq),
            ok == forall|j: int|
                0 <= j < r ==> {
                    let fq = #[trigger] q.fri_queries@[j];
                    fq.leaf_elements@.len() == 2 * vstd::arithmetic::power2::pow2(
                        schedseq[j] as nat,
                    ) && fq.proof@.len() == cst.base_oracle_depth
                        - crate::verifier_structs::spec_sum_of(schedseq.take(j + 1)) && (forall|
                        i: int,
                    |
                        0 <= i < fq.leaf_elements@.len() ==> (
                        #[trigger] fq.leaf_elements@[i]).valid()) && (forall|i: int|
                        0 <= i < fq.proof@.len() ==> (#[trigger] fq.proof@[i]).valid())
                },
        decreases q.fri_queries@.len() - r,
    {
        proof {
            crate::verifier_structs::lemma_sum_take_step(schedseq, r as int);
            crate::verifier_structs::lemma_sum_take_le(schedseq, r as int + 1);
        }
        let s: usize = fp.fri_folding_schedule[r];
        let deg: usize = crate::verifier_structs::pow2_usize(s);
        let fq = &q.fri_queries[r];
        proof {
            assert(cum + s == crate::verifier_structs::spec_sum_of(schedseq.take(r as int + 1)));
            assert(cum + s <= cst.base_oracle_depth);
            vstd::arithmetic::power2::lemma_pow2_strictly_increases(s as nat, 4);
            vstd::arithmetic::power2::lemma2_to64();
        }
        let expected_path: usize = cst.base_oracle_depth - (cum + s);
        let this_ok = fq.leaf_elements.len() == 2 * deg && fq.proof.len() == expected_path
            && check_gl_vec(&fq.leaf_elements) && check_native_vec(&fq.proof);
        ok = ok && this_ok;
        cum = cum + s;
        r = r + 1;
    }
    ok
}

/// The single boolean the protocol produces: true exactly when every
/// sub-check of the verification run holds for this proof against this
/// verification key.
#[verifier::opaque]
pub open spec fn spec_verify(proof: Proof, vk: VerificationKey, fp: FixedParameters) -> bool {
    let cst = spec_constants(fp);
    let t0 = TranscriptModel::empty(3);
    let fs = spec_first_step_transcript(t0, proof, vk);
    let z = fs.0;
    let omega = spec_domain_generator(fp.domain_size_log2 as nat);
    let z_omega = ext_mul_by_base(z, omega);
    let tuples = spec_public_input_tuples(
        fp,
        proof.public_inputs@.map(|i: int, g: GoldilocksElement| g.value as int),
        omega,
    );
    let qflags = spec_quotient_flags(
        fp,
        proof.values_at_z@.map(|i: int, e: GoldilocksExtElement| e.spec_coeffs()),
        z,
    );
    let d = spec_draw_ext(fs.1);
    let chals = Seq::new(
        cst.total_num_challenges_for_fri_quotiening as nat,
        |i: int| crate::challenges::spec_ext_pow(d.0, i as nat),
    );
    let fr = crate::challenges::spec_fri_rounds(
        d.1,
        crate::challenges::spec_all_caps(proof),
        fp.fri_folding_schedule@,
    );
    let t_m1 = spec_witness_seq(
        fr.1,
        proof.final_fri_monomials_c0@.map(|i: int, g: GoldilocksElement| g.value as int),
    );
    let t_m2 = spec_witness_seq(
        t_m1,
        proof.final_fri_monomials_c1@.map(|i: int, g: GoldilocksElement| g.value as int),
    );
    let oinv = spec_omegas_inv(cst.max_needed_bits as int);
    let ql = spec_queries_loop(
        Seq::empty(),
        t_m2,
        proof,
        fp,
        cst,
        z,
        z_omega,
        chals,
        fr.0,
        tuples,
        spec_omegas(cst.max_needed_bits as int),
        oinv,
        spec_steps(oinv),
        proof.queries_per_fri_repetition@,
    );
    spec_all_true(qflags + ql.0)
}

/// Verifies one proof against a verification key: a structural violation is
/// an immediate abort, while adversarial proof content always yields a
/// computed false. The sub-checks run unconditionally and their flags are
/// conjoined without short-circuiting.
#[verifier::rlimit(100)]
pub fn verify(proof: &Proof, vk: &VerificationKey, fixed_parameters: &FixedParameters) -> (r:
    Result<bool, VerificationError>)
    ensures
        r is Ok <==> spec_shape_ok(*proof, *vk, *fixed_parameters),
        r is Ok ==> r->Ok_0 == spec_verify(*proof, *vk, *fixed_parameters),
        !fixed_parameters.wf() ==> r == Err::<bool, VerificationError>(
            VerificationError::InvalidFixedParameters,
        ),
{
    if !check_fixed_parameters(fixed_parameters) {
        return Err(VerificationError::InvalidFixedParameters);
    }
    let constants = ConstantsHolder::generate(fixed_parameters);
    if !(proof.public_inputs.len() == fixed_parameters.public_inputs_locations.len()
        && check_gl_vec(&proof.public_inputs)) {
        return Err(VerificationError::InvalidNumberOfPublicInputs);
    }
    let cap_len = crate::verifier_structs::pow2_usize(fixed_parameters.cap_size_log2);
    let caps_basic = vk.setup_merkle_tree_cap.len() == cap_len && proof.base_oracle_cap.len()
        == cap_len && proof.fri_base_oracle_cap.len() == cap_len
        && proof.fri_intermediate_oracles_caps.len() == fixed_parameters.fri_folding_schedule.len()
            - 1
        && check_native_vec(&vk.setup_merkle_tree_cap) && check_native_vec(&proof.base_oracle_cap)
        && check_native_vec(&proof.fri_base_oracle_cap);
    if !caps_basic {
        return Err(VerificationError::CapSizeMismatch);
    }
    let mut ic: usize = 0;
    let mut icaps_ok = true;
    while ic < proof.fri_intermediate_oracles_caps.len()
        invariant
            ic <= proof.fri_intermediate_oracles_caps@.len(),
            cap_len == vstd::arithmetic::power2::pow2(fixed_parameters.cap_size_log2 as nat),
            icaps_ok == forall|j: int|
                0 <= j < ic ==> (#[trigger] proof.fri_intermediate_oracles_caps@[j])@.len()
                    == cap_len && (forall|i: int|
                    0 <= i < proof.fri_intermediate_oracles_caps@[j]@.len() ==> (
                    #[trigger] proof.fri_intermediate_oracles_caps@[j]@[i]).valid()),
        decreases proof.fri_intermediate_oracles_caps@.len() - ic,
    {
        let this_ok = proof.fri_intermediate_oracles_caps[ic].len() == cap_len && check_native_vec(
            &proof.fri_intermediate_oracles_caps[ic],
        );
        icaps_ok = icaps_ok && this_ok;
        ic = ic + 1;
    }
    if !icaps_ok {
        return Err(VerificationError::CapSizeMismatch);
    }
    if !(proof.values_at_z.len() == constants.num_poly_values_at_z && proof.values_at_z_omega.len()
        == 1 && proof.values_at_0.len() == constants.num_poly_values_at_zero && check_ext_vec(
        &proof.values_at_z,
    ) && check_ext_vec(&proof.values_at_z_omega) && check_ext_vec(&proof.values_at_0)) {
        return Err(VerificationError::OpeningsMismatch);
    }
    if !(proof.final_fri_monomials_c0.len() == constants.final_expected_degree
        && proof.final_fri_monomials_c1.len() == constants.final_expected_degree && check_gl_vec(
        &proof.final_fri_monomials_c0,
    ) && check_gl_vec(&proof.final_fri_monomials_c1)) {
        return Err(VerificationError::MonomialsMismatch);
    }
    let mut qc: usize = 0;
    let mut queries_ok = proof.queries_per_fri_repetition.len() == constants.num_fri_repetitions;
    while qc < proof.queries_per_fri_repetition.len()
        invariant
            qc <= proof.queries_per_fri_repetition@.len(),
            fixed_parameters.wf(),
            constants == spec_constants(*fixed_parameters),
            queries_ok == (proof.queries_per_fri_repetition@.len()
                == constants.num_fri_repetitions && forall|j: int|
                0 <= j < qc ==> crate::fri::spec_query_shape_ok(
                    *proof,
                    *fixed_parameters,
                    constants,
                    #[trigger] proof.queries_per_fri_repetition@[j],
                )),
        decreases proof.queries_per_fri_repetition@.len() - qc,
    {
        let this_ok = check_query_shape(
            proof,
            fixed_parameters,
            &constants,
            &proof.queries_per_fri_repetition[qc],
        );
        queries_ok = queries_ok && this_ok;
        qc = qc + 1;
    }
    if !queries_ok {
        return Err(VerificationError::QueriesMismatch);
    }

    let mut transcript = CircuitPoseidon2Transcript::new();
    let mut challenges = crate::challenges::ChallengesHolder::new();
    let (z, z_omega, tuples) = verify_first_step(proof, vk, &mut transcript, fixed_parameters);
    challenges.z = z;
    challenges.z_omega = z_omega;
    let mut validity_flags = check_quotient_contributions_in_z(proof, z, fixed_parameters);
    let ghost qflags = validity_flags@;
    proof {
        let tspec = spec_public_input_tuples(
            *fixed_parameters,
            proof.public_inputs@.map(|i: int, g: GoldilocksElement| g.value as int),
            spec_domain_generator(fixed_parameters.domain_size_log2 as nat),
        );
        assert forall|i: int|
            0 <= i < tuples@.len() implies (#[trigger] tuples@[i]).1
            < fixed_parameters.num_witness_polys by {
            assert(tuples@.map(|j: int, t: (GoldilocksElement, usize, GoldilocksElement)| (
                t.0.value as int,
                t.1 as int,
                t.2.value as int,
            ))[i] == tspec[i]);
            assert((fixed_parameters.public_inputs_locations@[i]).0
                < fixed_parameters.num_witness_polys);
        };
    }
    let mut fri_flags = verify_fri_part(
        proof,
        &mut challenges,
        &mut transcript,
        &tuples,
        fixed_parameters,
        &constants,
    );
    let ghost fflags = fri_flags@;
    validity_flags.append(&mut fri_flags);
    proof {
        reveal(spec_verify);
        assert(validity_flags@ == qflags + fflags);
        let d = spec_draw_ext(spec_first_step_transcript(
            TranscriptModel::empty(3),
            *proof,
            *vk,
        ).1);
        let chals2 = Seq::new(
            constants.total_num_challenges_for_fri_quotiening as nat,
            |i: int| crate::challenges::spec_ext_pow(d.0, i as nat),
        );
        let fr2 = crate::challenges::spec_fri_rounds(
            d.1,
            crate::challenges::spec_all_caps(*proof),
            fixed_parameters.fri_folding_schedule@,
        );
        let t_m1 = spec_witness_seq(
            fr2.1,
            proof.final_fri_monomials_c0@.map(|i: int, g: GoldilocksElement| g.value as int),
        );
        let t_m2 = spec_witness_seq(
            t_m1,
            proof.final_fri_monomials_c1@.map(|i: int, g: GoldilocksElement| g.value as int),
        );
        let oinv2 = spec_omegas_inv(constants.max_needed_bits as int);
        lemma_queries_loop_len(
            Seq::empty(),
            t_m2,
            *proof,
            *fixed_parameters,
            constants,
            z.spec_coeffs(),
            z_omega.spec_coeffs(),
            chals2,
            fr2.0,
            tuples@.map(|i: int, t: (GoldilocksElement, usize, GoldilocksElement)| (
                t.0.value as int,
                t.1 as int,
                t.2.value as int,
            )),
            spec_omegas(constants.max_needed_bits as int),
            oinv2,
            spec_steps(oinv2),
            proof.queries_per_fri_repetition@,
        );
        assert(fflags.len() >= 3) by (nonlinear_arith)
            requires
                fflags.len() == proof.queries_per_fri_repetition@.len() * (3 + 3
                    * fixed_parameters.fri_folding_schedule@.len()),
                proof.queries_per_fri_repetition@.len() >= 1,
                fixed_parameters.fri_folding_schedule@.len() >= 1;
    }
    let correct = crate::smart_and(&validity_flags);
    proof {
        reveal(spec_verify);
        assert(correct == spec_verify(*proof, *vk, *fixed_parameters));
    }
    Ok(correct)
}

} // verus!
