use snark_wrapper_verifier::field::{GoldilocksElement, domain_generator_for_size_log2};
use snark_wrapper_verifier::extension::GoldilocksExtElement;
use snark_wrapper_verifier::native::NativeOutput;
use snark_wrapper_verifier::sponge::CircuitPoseidon2Sponge;
use snark_wrapper_verifier::transcript::CircuitPoseidon2Transcript;
use snark_wrapper_verifier::fri::{BoolsBuffer, pow_from_precomputations, bits_of_u64};
use snark_wrapper_verifier::verifier_structs::{
    FixedParameters, VerificationKey, Proof, OracleQuery, SingleRoundQueries, GateRelation,
    VerificationError,
};
use snark_wrapper_verifier::verifier_main::verify;
use snark_wrapper_verifier::verifier_structs::allocate_num_elements;

fn gl(x: u64) -> GoldilocksElement {
    GoldilocksElement::from_u64(x)
}

fn ext(c0: GoldilocksElement, c1: GoldilocksElement) -> GoldilocksExtElement {
    GoldilocksExtElement::from_coeffs_in_base(c0, c1)
}

fn eval_gl(coeffs: &[u64], x: GoldilocksElement) -> GoldilocksElement {
    let mut acc = gl(0);
    for c in coeffs.iter().rev() {
        acc = acc.mul(x).add(gl(*c));
    }
    acc
}

fn eval_ext(coeffs: &[u64], x: GoldilocksExtElement) -> GoldilocksExtElement {
    let mut acc = GoldilocksExtElement::zero();
    for c in coeffs.iter().rev() {
        acc = acc.mul(x).add(GoldilocksExtElement::from_base(gl(*c)));
    }
    acc
}

fn bitrev(t: usize, bits: usize) -> usize {
    let mut r = 0usize;
    for i in 0..bits {
        if t & (1 << i) != 0 {
            r |= 1 << (bits - 1 - i);
        }
    }
    r
}

struct MerkleTree {
    levels: Vec<Vec<NativeOutput>>,
    cap_size: usize,
}

impl MerkleTree {
    fn build(leaf_hashes: Vec<NativeOutput>, cap_size: usize) -> MerkleTree {
        let mut levels = vec![leaf_hashes];
        while levels.last().unwrap().len() > cap_size {
            let prev = levels.last().unwrap();
            let mut next = Vec::new();
            for i in 0..prev.len() / 2 {
                next.push(CircuitPoseidon2Sponge::hash_into_node(&prev[2 * i], &prev[2 * i + 1], 0));
            }
            levels.push(next);
        }
        MerkleTree { levels, cap_size }
    }

    fn cap(&self) -> Vec<NativeOutput> {
        self.levels.last().unwrap().clone()
    }

    fn path(&self, mut idx: usize) -> Vec<NativeOutput> {
        let mut out = Vec::new();
        for level in self.levels.iter() {
            if level.len() <= self.cap_size {
                break;
            }
            out.push(level[idx ^ 1]);
            idx >>= 1;
        }
        out
    }
}

/// Folds one leaf's values exactly as the verifier does, returning the
/// folded value; the coset inverse evolves identically for every leaf of a
/// round, so the caller tracks it separately.
fn fold_leaf(
    vals: &[GoldilocksExtElement],
    round_powers: &[GoldilocksExtElement],
    base_pow: GoldilocksElement,
    steps: &[GoldilocksElement],
    coset_inv: GoldilocksElement,
) -> GoldilocksExtElement {
    let mut elems = vals.to_vec();
    let mut pow = base_pow;
    let mut cinv = coset_inv;
    for chal in round_powers.iter() {
        let mut next = Vec::new();
        for i in 0..elems.len() / 2 {
            let a = elems[2 * i];
            let b = elems[2 * i + 1];
            let invx = pow.mul(steps[i]).mul(cinv);
            next.push(a.add(b).add(a.sub(b).mul(*chal).mul_by_base(invx)));
        }
        elems = next;
        pow = pow.mul(pow);
        cinv = cinv.mul(cinv);
    }
    elems[0]
}

struct Instance {
    fp: FixedParameters,
    vk: VerificationKey,
    proof: Proof,
}

/// Builds a self-consistent proof for a tiny instance: three witness columns
/// with one product relation, two public inputs, a cap of four, and a
/// two-round folding schedule of [3, 2].
fn honest_instance() -> Instance {
    let n_log = 6usize; // domain of 64
    let lde_log = 1usize; // evaluation domain of 128
    let cap_log = 2usize; // caps of 4
    let full_bits = n_log + lde_log; // 7
    let m = 1usize << full_bits; // 128
    let schedule = vec![3usize, 2usize];
    let relations = vec![GateRelation::Product { a: 0, b: 1, out: 2 }];
    let locations = vec![(0usize, 3u64), (1usize, 5u64)];
    let fp = FixedParameters {
        domain_size_log2: n_log,
        lde_factor_log2: lde_log,
        cap_size_log2: cap_log,
        public_inputs_locations: locations.clone(),
        fri_folding_schedule: schedule.clone(),
        num_witness_polys: 3,
        relations,
        num_values_at_0: 1,
        num_queries: 2,
    };

    // witness columns satisfying the relation identically, and the zero
    // quotient column
    let a_coeffs = [1u64, 1];
    let b_coeffs = [3u64, 2];
    let c_coeffs = [3u64, 5, 2];
    let q_coeffs = [0u64];
    let all_coeffs: [&[u64]; 4] = [&a_coeffs, &b_coeffs, &c_coeffs, &q_coeffs];

    let omega_n = domain_generator_for_size_log2(n_log as u64);
    let omega_m = domain_generator_for_size_log2(full_bits as u64);
    let generator = gl(7);

    // evaluations over the shifted coset, in bit-reversed enumeration
    let mut points = Vec::new();
    let mut columns: Vec<Vec<GoldilocksElement>> = vec![Vec::new(); 4];
    for t in 0..m {
        let x = generator.mul(omega_m.pow(bitrev(t, full_bits) as u64));
        points.push(x);
        for (k, coeffs) in all_coeffs.iter().enumerate() {
            columns[k].push(eval_gl(coeffs, x));
        }
    }
    let base_leaves: Vec<Vec<GoldilocksElement>> = (0..m)
        .map(|t| (0..4).map(|k| columns[k][t]).collect())
        .collect();
    let base_tree = MerkleTree::build(
        base_leaves.iter().map(|l| CircuitPoseidon2Sponge::hash_into_leaf(l)).collect(),
        1 << cap_log,
    );

    let public_inputs = vec![
        eval_gl(&a_coeffs, omega_n.pow(3)),
        eval_gl(&b_coeffs, omega_n.pow(5)),
    ];

    let vk = VerificationKey {
        setup_merkle_tree_cap: (0..4u64).map(|i| NativeOutput::from_u64(1000 + i)).collect(),
    };

    // the prover drives the same transcript the verifier will
    let mut tr = CircuitPoseidon2Transcript::new();
    tr.witness_merkle_tree_cap(&vk.setup_merkle_tree_cap);
    tr.witness_field_elements(&public_inputs);
    tr.witness_merkle_tree_cap(&base_tree.cap());
    let z = ext(tr.get_challenge(), tr.get_challenge());
    let z_omega = z.mul_by_base(omega_n);

    let values_at_z: Vec<GoldilocksExtElement> =
        all_coeffs.iter().map(|c| eval_ext(c, z)).collect();
    let values_at_z_omega = vec![eval_ext(&a_coeffs, z_omega)];
    let values_at_0 = vec![eval_ext(&a_coeffs, GoldilocksExtElement::zero())];
    for v in values_at_z.iter().chain(values_at_z_omega.iter()).chain(values_at_0.iter()) {
        tr.witness_field_elements(&vec![v.c0, v.c1]);
    }

    // quotient-aggregation challenges: eight sequential powers
    let chal = ext(tr.get_challenge(), tr.get_challenge());
    let mut chals = vec![GoldilocksExtElement::one()];
    for _ in 1..8 {
        chals.push(chals.last().unwrap().mul(chal));
    }

    // the simulated quotient over the whole evaluation domain
    let open_pub0 = omega_n.pow(3);
    let open_pub1 = omega_n.pow(5);
    let mut h = Vec::new();
    for t in 0..m {
        let x = GoldilocksExtElement::from_base(points[t]);
        let col = |k: usize| GoldilocksExtElement::from_base(columns[k][t]);
        let mut acc_z = GoldilocksExtElement::zero();
        for k in 0..4 {
            acc_z = acc_z.add(col(k).sub(values_at_z[k]).mul(chals[k]));
        }
        let mut value = acc_z.mul(x.sub(z).inverse());
        value = value.add(col(0).sub(values_at_z_omega[0]).mul(chals[4]).mul(
            x.sub(z_omega).inverse(),
        ));
        value = value.add(col(0).sub(values_at_0[0]).mul(chals[5]).mul(x.inverse()));
        value = value.add(
            col(0)
                .sub(GoldilocksExtElement::from_base(public_inputs[0]))
                .mul(chals[6])
                .mul(x.sub(GoldilocksExtElement::from_base(open_pub0)).inverse()),
        );
        value = value.add(
            col(1)
                .sub(GoldilocksExtElement::from_base(public_inputs[1]))
                .mul(chals[7])
                .mul(x.sub(GoldilocksExtElement::from_base(open_pub1)).inverse()),
        );
        h.push(value);
    }

    // precomputed inverse generator powers and the interpolation steps
    let mut oinv = Vec::new();
    for i in 0..=full_bits {
        oinv.push(domain_generator_for_size_log2(i as u64).inverse());
    }
    let steps = vec![gl(1), oinv[2], oinv[3], oinv[2].mul(oinv[3])];

    // round 0: commit the simulated quotient, grouped eight to a leaf
    let fri0_leaves: Vec<Vec<GoldilocksElement>> = (0..m / 8)
        .map(|tt| {
            let mut leaf: Vec<GoldilocksElement> = (0..8).map(|j| h[8 * tt + j].c0).collect();
            leaf.extend((0..8).map(|j| h[8 * tt + j].c1));
            leaf
        })
        .collect();
    let fri0_tree = MerkleTree::build(
        fri0_leaves.iter().map(|l| CircuitPoseidon2Sponge::hash_into_leaf(l)).collect(),
        1 << cap_log,
    );
    tr.witness_merkle_tree_cap(&fri0_tree.cap());
    let r0 = ext(tr.get_challenge(), tr.get_challenge());
    let r0_powers = vec![r0, r0.square(), r0.square().square()];
    let coset_inv0 = gl(7).inverse();
    let mut h1 = Vec::new();
    for tt in 0..m / 8 {
        let chunk = pow_from_precomputations(&oinv, 4, &bits_of_u64(tt as u64, 4), 0);
        h1.push(fold_leaf(&h[8 * tt..8 * tt + 8], &r0_powers, chunk, &steps, coset_inv0));
    }
    let coset_inv1 = {
        let mut c = coset_inv0;
        for _ in 0..3 {
            c = c.mul(c);
        }
        c
    };

    // round 1: commit the folded layer, grouped four to a leaf
    let fri1_leaves: Vec<Vec<GoldilocksElement>> = (0..h1.len() / 4)
        .map(|tt| {
            let mut leaf: Vec<GoldilocksElement> = (0..4).map(|j| h1[4 * tt + j].c0).collect();
            leaf.extend((0..4).map(|j| h1[4 * tt + j].c1));
            leaf
        })
        .collect();
    let fri1_tree = MerkleTree::build(
        fri1_leaves.iter().map(|l| CircuitPoseidon2Sponge::hash_into_leaf(l)).collect(),
        1 << cap_log,
    );
    tr.witness_merkle_tree_cap(&fri1_tree.cap());
    let r1 = ext(tr.get_challenge(), tr.get_challenge());
    let r1_powers = vec![r1, r1.square()];
    let mut h2 = Vec::new();
    for tt in 0..h1.len() / 4 {
        let chunk = pow_from_precomputations(&oinv, 3, &bits_of_u64(tt as u64, 2), 0);
        h2.push(fold_leaf(&h1[4 * tt..4 * tt + 4], &r1_powers, chunk, &steps, coset_inv1));
    }

    // the final layer is linear in x^32: interpolate its monomial form
    let g32 = gl(7).pow(32);
    let omega4 = domain_generator_for_size_log2(2);
    let y = |tt: usize| g32.mul(omega4.pow(bitrev(tt, 2) as u64));
    let m1 = h2[0].sub(h2[1]).mul_by_base(y(0).sub(y(1)).inverse());
    let m0 = h2[0].sub(m1.mul_by_base(y(0)));
    for tt in 0..4 {
        let expect = m0.add(m1.mul_by_base(y(tt)));
        assert_eq!((expect.c0.value, expect.c1.value), (h2[tt].c0.value, h2[tt].c1.value));
    }
    let final_fri_monomials_c0 = vec![m0.c0, m1.c0];
    let final_fri_monomials_c1 = vec![m0.c1, m1.c1];
    tr.witness_field_elements(&final_fri_monomials_c0);
    tr.witness_field_elements(&final_fri_monomials_c1);

    // the query indices come from the transcript, exactly as in verification
    let mut buf = BoolsBuffer { available: Vec::new(), max_needed: full_bits };
    let mut queries = Vec::new();
    for _ in 0..fp.num_queries {
        let bits = buf.get_bits(&mut tr, full_bits);
        let mut t = 0usize;
        for (i, b) in bits.iter().enumerate() {
            if *b {
                t |= 1 << i;
            }
        }
        let base_query = OracleQuery { leaf_elements: base_leaves[t].clone(), proof: base_tree.path(t) };
        let fri_queries = vec![
            OracleQuery { leaf_elements: fri0_leaves[t >> 3].clone(), proof: fri0_tree.path(t >> 3) },
            OracleQuery { leaf_elements: fri1_leaves[t >> 5].clone(), proof: fri1_tree.path(t >> 5) },
        ];
        queries.push(SingleRoundQueries { base_query, fri_queries });
    }

    let proof = Proof {
        public_inputs,
        base_oracle_cap: base_tree.cap(),
        values_at_z,
        values_at_z_omega,
        values_at_0,
        fri_base_oracle_cap: fri0_tree.cap(),
        fri_intermediate_oracles_caps: vec![fri1_tree.cap()],
        final_fri_monomials_c0,
        final_fri_monomials_c1,
        queries_per_fri_repetition: queries,
    };
    Instance { fp, vk, proof }
}

#[test]
fn end_to_end_scenario() {
    let instance = honest_instance();

    // a self-consistent proof verifies
    assert_eq!(verify(&instance.proof, &instance.vk, &instance.fp), Ok(true));

    // flipping a claimed opening produces a computed false
    let mut tampered = instance.proof.clone();
    tampered.values_at_z[1] = tampered.values_at_z[1].add(GoldilocksExtElement::one());
    assert_eq!(verify(&tampered, &instance.vk, &instance.fp), Ok(false));

    // flipping an opened leaf element produces a computed false
    let mut tampered_leaf = instance.proof.clone();
    tampered_leaf.queries_per_fri_repetition[0].base_query.leaf_elements[0] =
        tampered_leaf.queries_per_fri_repetition[0].base_query.leaf_elements[0].add(gl(1));
    assert_eq!(verify(&tampered_leaf, &instance.vk, &instance.fp), Ok(false));

    // truncating the base oracle cap is a structural abort, not a false
    let mut truncated = instance.proof.clone();
    truncated.base_oracle_cap.pop();
    assert_eq!(
        verify(&truncated, &instance.vk, &instance.fp),
        Err(VerificationError::CapSizeMismatch)
    );

    // a wrong public-input count is a structural abort
    let mut missing_public = instance.proof.clone();
    missing_public.public_inputs.pop();
    assert_eq!(
        verify(&missing_public, &instance.vk, &instance.fp),
        Err(VerificationError::InvalidNumberOfPublicInputs)
    );

    // degenerate parameters are refused outright
    let mut bad_fp = instance.fp.clone();
    bad_fp.cap_size_log2 = 0;
    assert_eq!(
        verify(&instance.proof, &instance.vk, &bad_fp),
        Err(VerificationError::InvalidFixedParameters)
    );

    // a truncated openings vector is a structural abort
    let mut missing_opening = instance.proof.clone();
    missing_opening.values_at_z.pop();
    assert_eq!(
        verify(&missing_opening, &instance.vk, &instance.fp),
        Err(VerificationError::OpeningsMismatch)
    );

    // missing monomials are a structural abort
    let mut missing_monomial = instance.proof.clone();
    missing_monomial.final_fri_monomials_c0.pop();
    assert_eq!(
        verify(&missing_monomial, &instance.vk, &instance.fp),
        Err(VerificationError::MonomialsMismatch)
    );

    // a short query path is a structural abort
    let mut short_query = instance.proof.clone();
    short_query.queries_per_fri_repetition[0].base_query.proof.pop();
    assert_eq!(
        verify(&short_query, &instance.vk, &instance.fp),
        Err(VerificationError::QueriesMismatch)
    );

    // a wrong verification-key commitment makes the challenges diverge and
    // the proof rejects
    let mut other_vk = VerificationKey {
        setup_merkle_tree_cap: (0..4u64).map(|i| NativeOutput::from_u64(2000 + i)).collect(),
    };
    let outcome = verify(&instance.proof, &other_vk, &instance.fp);
    assert_eq!(outcome, Ok(false));
    other_vk.setup_merkle_tree_cap = instance.vk.setup_merkle_tree_cap.clone();
    assert_eq!(verify(&instance.proof, &other_vk, &instance.fp), Ok(true));
}

#[test]
fn allocating_witness_elements_checks_the_count() {
    assert_eq!(allocate_num_elements(3, Some(vec![1u64, 2, 3])), Ok(vec![1u64, 2, 3]));
    assert_eq!(
        allocate_num_elements(3, Some(vec![1u64, 2])),
        Err(VerificationError::OpeningsMismatch)
    );
    assert_eq!(
        allocate_num_elements(2, Some(vec![1u64, 2, 3])),
        Err(VerificationError::OpeningsMismatch)
    );
    assert_eq!(
        allocate_num_elements::<u64>(2, None),
        Err(VerificationError::OpeningsMismatch)
    );
}
