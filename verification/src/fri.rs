use vstd::prelude::*;
use vstd::arithmetic::power2::pow2;
use crate::field::{GoldilocksElement, GL_MODULUS, gl_mul, gl_add, gl_sub, gl_pow};
use crate::extension::{
    GoldilocksExtElement, ext_add, ext_sub, ext_mul, ext_mul_by_base, ext_inverse,
};
use crate::native::NativeOutput;
use crate::sponge::CircuitPoseidon2Sponge;
use crate::tree_hasher::{spec_hash_into_leaf, spec_hash_into_node, spec_bits_to_index};
use crate::transcript::{CircuitPoseidon2Transcript, TranscriptModel, spec_get_challenge};
use crate::challenges::{ChallengesHolder, spec_all_caps};
use crate::verifier_structs::{Proof, ConstantsHolder, OracleQuery, SingleRoundQueries};

verus! {

/// The k low bits of a value, least significant first.
pub open spec fn spec_bits_of(v: int, k: nat) -> Seq<bool>
    decreases k,
{
    if k == 0 {
        Seq::empty()
    } else {
        seq![v % 2 == 1] + spec_bits_of(v / 2, (k - 1) as nat)
    }
}

/// Refilling a bit pool from the transcript until it holds `need` bits: each
/// drawn challenge contributes its low (64 - reserved) bits.
pub open spec fn spec_fill_bits(avail: Seq<bool>, t: TranscriptModel, need: int, reserved: nat) -> (
    Seq<bool>,
    TranscriptModel,
)
    decreases need + 64 - avail.len(),
        when reserved < 64
        via spec_fill_bits_decreases
{
    if avail.len() >= need || reserved >= 64 {
        (avail, t)
    } else {
        let s = spec_get_challenge(t);
        spec_fill_bits(avail + spec_bits_of(s.0, (64 - reserved) as nat), s.1, need, reserved)
    }
}

/// Each bit sequence has exactly the requested length.
pub proof fn lemma_bits_of_len(v: int, k: nat)
    ensures
        spec_bits_of(v, k).len() == k,
    decreases k,
{
    if k > 0 {
        lemma_bits_of_len(v / 2, (k - 1) as nat);
    }
}

/// Filling never shortens the pool and always reaches the requested count.
pub proof fn lemma_fill_bits_len(avail: Seq<bool>, t: TranscriptModel, need: int, reserved: nat)
    requires
        reserved < 64,
    ensures
        spec_fill_bits(avail, t, need, reserved).0.len() >= need,
        spec_fill_bits(avail, t, need, reserved).0.len() >= avail.len(),
    decreases need + 64 - avail.len(),
{
    if avail.len() >= need {
    } else {
        let s = spec_get_challenge(t);
        lemma_bits_of_len(s.0, (64 - reserved) as nat);
        lemma_fill_bits_len(
            avail + spec_bits_of(s.0, (64 - reserved) as nat),
            s.1,
            need,
            reserved,
        );
    }
}

#[via_fn]
proof fn spec_fill_bits_decreases(avail: Seq<bool>, t: TranscriptModel, need: int, reserved: nat) {
    if !(avail.len() >= need || reserved >= 64) {
        let s = spec_get_challenge(t);
        lemma_bits_of_len(s.0, (64 - reserved) as nat);
    }
}

/// The low k bits of a machine word, least significant first.
pub fn bits_of_u64(v: u64, k: usize) -> (r: Vec<bool>)
    requires
        k <= 64,
    ensures
        r@ == spec_bits_of(v as int, k as nat),
        r@.len() == k,
{
    let mut bits: Vec<bool> = Vec::new();
    let mut cur: u64 = v;
    let mut i: usize = 0;
    while i < k
        invariant
            i <= k,
            bits@.len() == i,
            bits@ + spec_bits_of(cur as int, (k - i) as nat) == spec_bits_of(v as int, k as nat),
        decreases k - i,
    {
        proof {
            assert((bits@ + (seq![cur as int % 2 == 1] + spec_bits_of(
                cur as int / 2,
                (k - i - 1) as nat,
            ))) =~= (bits@ + seq![cur as int % 2 == 1]) + spec_bits_of(
                cur as int / 2,
                (k - i - 1) as nat,
            ));
            assert(bits@.push(cur % 2 == 1) =~= bits@ + seq![cur as int % 2 == 1]);
        }
        bits.push(cur % 2 == 1);
        cur = cur / 2;
        i = i + 1;
    }
    proof {
        assert(bits@ + spec_bits_of(cur as int, 0) =~= bits@);
    }
    bits
}

/// The pool of index bits the queries draw from: challenges are spread into
/// bits and consumed in order, with the top `max_needed` positions of each
/// challenge left unused.
pub struct BoolsBuffer {
    pub available: Vec<bool>,
    pub max_needed: usize,
}

impl BoolsBuffer {
    /// Hands out the next `num_bits` index bits, refilling the pool from the
    /// transcript as needed.
    pub fn get_bits(
        &mut self,
        transcript: &mut CircuitPoseidon2Transcript,
        num_bits: usize,
    ) -> (r: Vec<bool>)
        requires
            old(transcript).wf(),
            old(self).max_needed < 64,
            num_bits <= 64,
        ensures
            final(transcript).wf(),
            final(self).max_needed == old(self).max_needed,
            ({
                let filled = spec_fill_bits(
                    old(self).available@,
                    old(transcript).model(),
                    num_bits as int,
                    old(self).max_needed as nat,
                );
                r@ == filled.0.take(num_bits as int) && final(self).available@ == filled.0.skip(
                    num_bits as int,
                ) && final(transcript).model() == filled.1
            }),
    {
        while self.available.len() < num_bits
            invariant
                transcript.wf(),
                self.max_needed == old(self).max_needed,
                self.max_needed < 64,
                spec_fill_bits(
                    self.available@,
                    transcript.model(),
                    num_bits as int,
                    self.max_needed as nat,
                ) == spec_fill_bits(
                    old(self).available@,
                    old(transcript).model(),
                    num_bits as int,
                    old(self).max_needed as nat,
                ),
            decreases num_bits + 64 - self.available@.len(),
        {
            let field_el = transcript.get_challenge();
            let bits_available: usize = 64 - self.max_needed;
            let mut el_bits = bits_of_u64(field_el.value, bits_available);
            proof {
                assert(self.available@ + el_bits@ == self.available@ + spec_bits_of(
                    field_el.value as int,
                    (64 - self.max_needed) as nat,
                ));
            }
            self.available.append(&mut el_bits);
        }
        let mut given: Vec<bool> = Vec::new();
        let mut i: usize = 0;
        while i < num_bits
            invariant
                i <= num_bits,
                num_bits <= self.available@.len(),
                given@ =~= self.available@.take(i as int),
            decreases num_bits - i,
        {
            given.push(self.available[i]);
            i = i + 1;
        }
        let mut rest: Vec<bool> = Vec::new();
        let mut j: usize = num_bits;
        while j < self.available.len()
            invariant
                num_bits <= j <= self.available@.len(),
                rest@ =~= self.available@.subrange(num_bits as int, j as int),
            decreases self.available@.len() - j,
        {
            rest.push(self.available[j]);
            j = j + 1;
        }
        proof {
            assert(rest@ =~= self.available@.skip(num_bits as int));
        }
        self.available = rest;
        given
    }
}

/// The accumulated product of the selected bases: each set bit multiplies
/// the matching base into the accumulator.
pub open spec fn spec_pow_bits_acc(acc: int, bases: Seq<int>, bits: Seq<bool>) -> int
    decreases bases.len(), bits.len(),
{
    if bases.len() == 0 || bits.len() == 0 {
        acc
    } else {
        spec_pow_bits_acc(
            if bits[0] {
                gl_mul(acc, bases[0])
            } else {
                acc
            },
            bases.drop_first(),
            bits.drop_first(),
        )
    }
}

/// The power of the domain generator addressed by the index bits, assembled
/// from the precomputed generator powers starting at `base_start` and the
/// index bits starting at `bit_start`.
pub fn pow_from_precomputations(
    bases: &Vec<GoldilocksElement>,
    base_start: usize,
    bits: &Vec<bool>,
    bit_start: usize,
) -> (r: GoldilocksElement)
    requires
        base_start <= bases@.len(),
        bit_start <= bits@.len(),
        forall|i: int| 0 <= i < bases@.len() ==> (#[trigger] bases@[i]).valid(),
    ensures
        r.value as int == spec_pow_bits_acc(
            1,
            bases@.map(|i: int, b: GoldilocksElement| b.value as int).skip(base_start as int),
            bits@.skip(bit_start as int),
        ),
        r.valid(),
{
    let ghost base_vals = bases@.map(|i: int, b: GoldilocksElement| b.value as int);
    let mut result = GoldilocksElement::one();
    let mut bi: usize = base_start;
    let mut ti: usize = bit_start;
    while bi < bases.len() && ti < bits.len()
        invariant
            base_start <= bi <= bases@.len(),
            bit_start <= ti <= bits@.len(),
            bi - base_start == ti - bit_start,
            base_vals == bases@.map(|i: int, b: GoldilocksElement| b.value as int),
            forall|i: int| 0 <= i < bases@.len() ==> (#[trigger] bases@[i]).valid(),
            result.valid(),
            spec_pow_bits_acc(
                result.value as int,
                base_vals.skip(bi as int),
                bits@.skip(ti as int),
            ) == spec_pow_bits_acc(
                1,
                base_vals.skip(base_start as int),
                bits@.skip(bit_start as int),
            ),
        decreases bases@.len() - bi,
    {
        proof {
            assert(base_vals.skip(bi as int).len() > 0);
            assert(bits@.skip(ti as int).len() > 0);
            assert(base_vals.skip(bi as int)[0] == base_vals[bi as int]);
            assert(bits@.skip(ti as int)[0] == bits@[ti as int]);
            assert(base_vals.skip(bi as int).drop_first() =~= base_vals.skip(bi as int + 1));
            assert(bits@.skip(ti as int).drop_first() =~= bits@.skip(ti as int + 1));
        }
        let tmp = result.mul(bases[bi]);
        result = if bits[ti] {
            tmp
        } else {
            result
        };
        bi = bi + 1;
        ti = ti + 1;
    }
    proof {
        if bi == bases@.len() {
            assert(base_vals.skip(bi as int).len() == 0);
        } else {
            assert(bits@.skip(ti as int).len() == 0);
        }
    }
    result
}

/// The root a leaf hash and its sibling path reconstruct: at each level the
/// pair is ordered by the path bit and compressed.
pub open spec fn spec_merkle_root(leaf: int, siblings: Seq<int>, bits: Seq<bool>) -> int
    decreases siblings.len(),
{
    if siblings.len() == 0 {
        leaf
    } else {
        let parent = if bits[0] {
            spec_hash_into_node(siblings[0], leaf)
        } else {
            spec_hash_into_node(leaf, siblings[0])
        };
        spec_merkle_root(parent, siblings.drop_first(), bits.drop_first())
    }
}

/// Verifies a sibling path against the capped root: the path reconstructs a
/// node on the cap level, and the index's remaining bits select the cap
/// element it must equal.
pub fn verify_proof_over_cap(
    proof: &Vec<NativeOutput>,
    cap: &Vec<NativeOutput>,
    leaf_hash: &NativeOutput,
    path: &Vec<bool>,
) -> (r: bool)
    requires
        path@.len() >= proof@.len(),
        path@.len() - proof@.len() >= 1,
        path@.len() - proof@.len() < 30,
        cap@.len() == pow2((path@.len() - proof@.len()) as nat),
        leaf_hash.valid(),
        forall|i: int| 0 <= i < proof@.len() ==> (#[trigger] proof@[i]).valid(),
    ensures
        r == (spec_merkle_root(
            leaf_hash.value(),
            proof@.map(|i: int, v: NativeOutput| v.value()),
            path@.take(proof@.len() as int),
        ) == cap@[spec_bits_to_index(path@.skip(proof@.len() as int))].value()),
{
    let ghost siblings = proof@.map(|i: int, v: NativeOutput| v.value());
    let mut current: NativeOutput = *leaf_hash;
    let mut i: usize = 0;
    proof {
        assert(siblings.skip(0) =~= siblings);
        assert(path@.take(proof@.len() as int).skip(0) =~= path@.take(proof@.len() as int));
    }
    while i < proof.len()
        invariant
            i <= proof@.len(),
            path@.len() >= proof@.len(),
            siblings == proof@.map(|j: int, v: NativeOutput| v.value()),
            forall|j: int| 0 <= j < proof@.len() ==> (#[trigger] proof@[j]).valid(),
            current.valid(),
            spec_merkle_root(current.value(), siblings.skip(i as int), path@.take(
                proof@.len() as int,
            ).skip(i as int)) == spec_merkle_root(
                leaf_hash.value(),
                siblings,
                path@.take(proof@.len() as int),
            ),
        decreases proof@.len() - i,
    {
        proof {
            let pbits = path@.take(proof@.len() as int);
            assert(siblings.skip(i as int)[0] == siblings[i as int]);
            assert(pbits.skip(i as int)[0] == path@[i as int]);
            assert(siblings.skip(i as int).drop_first() =~= siblings.skip(i as int + 1));
            assert(pbits.skip(i as int).drop_first() =~= pbits.skip(i as int + 1));
        }
        let sibling = &proof[i];
        let bit = path[i];
        let (left, right) = CircuitPoseidon2Sponge::swap_nodes(bit, &current, sibling, 0);
        current = CircuitPoseidon2Sponge::hash_into_node(&left, &right, 0);
        i = i + 1;
    }
    proof {
        assert(siblings.skip(proof@.len() as int).len() == 0);
    }
    let mut cap_bits: Vec<bool> = Vec::new();
    let mut j: usize = proof.len();
    while j < path.len()
        invariant
            proof@.len() <= j <= path@.len(),
            cap_bits@ =~= path@.subrange(proof@.len() as int, j as int),
        decreases path@.len() - j,
    {
        cap_bits.push(path[j]);
        j = j + 1;
    }
    proof {
        assert(cap_bits@ =~= path@.skip(proof@.len() as int));
        crate::tree_hasher::lemma_bits_to_index_bound(cap_bits@);
    }
    let selected_cap_el = CircuitPoseidon2Sponge::select_cap_node(&cap_bits, cap);
    CircuitPoseidon2Sponge::compare_output(&current, &selected_cap_el)
}

/// Hashes the leaf's elements and verifies its inclusion against the capped
/// root.
pub fn check_if_included(
    leaf_elements: &Vec<GoldilocksElement>,
    proof: &Vec<NativeOutput>,
    tree_cap: &Vec<NativeOutput>,
    path: &Vec<bool>,
) -> (r: bool)
    requires
        path@.len() >= proof@.len(),
        path@.len() - proof@.len() >= 1,
        path@.len() - proof@.len() < 30,
        tree_cap@.len() == pow2((path@.len() - proof@.len()) as nat),
        forall|i: int| 0 <= i < leaf_elements@.len() ==> (#[trigger] leaf_elements@[i]).valid(),
        forall|i: int| 0 <= i < proof@.len() ==> (#[trigger] proof@[i]).valid(),
    ensures
        r == (spec_merkle_root(
            spec_hash_into_leaf(leaf_elements@.map(|i: int, v: GoldilocksElement| v.value as int)),
            proof@.map(|i: int, v: NativeOutput| v.value()),
            path@.take(proof@.len() as int),
        ) == tree_cap@[spec_bits_to_index(path@.skip(proof@.len() as int))].value()),
{
    let leaf_hash = CircuitPoseidon2Sponge::hash_into_leaf(leaf_elements);
    verify_proof_over_cap(proof, tree_cap, &leaf_hash, path)
}

/// The running sum of challenge-weighted differences between opened values
/// and claimed evaluations.
pub open spec fn spec_quotening_acc(
    acc: (int, int),
    polys: Seq<(int, int)>,
    values: Seq<(int, int)>,
    challenges: Seq<(int, int)>,
) -> (int, int)
    decreases polys.len(),
{
    if polys.len() == 0 {
        acc
    } else {
        spec_quotening_acc(
            ext_add(acc, ext_mul(ext_sub(polys[0], values[0]), challenges[0])),
            polys.drop_first(),
            values.drop_first(),
            challenges.drop_first(),
        )
    }
}

/// The quotiening at one opening point: the challenge-weighted differences,
/// divided by (x - at), accumulate into the destination.
pub open spec fn spec_quotening(
    dst: (int, int),
    polys: Seq<(int, int)>,
    values: Seq<(int, int)>,
    x: int,
    at: (int, int),
    challenges: Seq<(int, int)>,
) -> (int, int) {
    let denom_inv = ext_inverse(ext_sub((x, 0int), at));
    let acc = spec_quotening_acc((0int, 0int), polys, values, challenges);
    ext_add(dst, ext_mul(acc, denom_inv))
}

/// Accumulates one opening point's contribution to the simulated quotient:
/// sum of challenge-weighted differences (f(x) - f(at)), multiplied by the
/// inverse of (x - at).
pub fn quotening_operation(
    dst: &mut GoldilocksExtElement,
    polynomial_values: &Vec<GoldilocksExtElement>,
    values_at: &Vec<GoldilocksExtElement>,
    domain_element: GoldilocksElement,
    at: GoldilocksExtElement,
    challenges: &Vec<GoldilocksExtElement>,
    challenge_offset: usize,
) -> (used: usize)
    requires
        old(dst).valid(),
        domain_element.valid(),
        at.valid(),
        polynomial_values@.len() == values_at@.len(),
        challenge_offset + polynomial_values@.len() <= challenges@.len(),
        forall|i: int|
            0 <= i < polynomial_values@.len() ==> (#[trigger] polynomial_values@[i]).valid(),
        forall|i: int| 0 <= i < values_at@.len() ==> (#[trigger] values_at@[i]).valid(),
        forall|i: int| 0 <= i < challenges@.len() ==> (#[trigger] challenges@[i]).valid(),
    ensures
        final(dst).valid(),
        used == polynomial_values@.len(),
        final(dst).spec_coeffs() == spec_quotening(
            old(dst).spec_coeffs(),
            polynomial_values@.map(|i: int, e: GoldilocksExtElement| e.spec_coeffs()),
            values_at@.map(|i: int, e: GoldilocksExtElement| e.spec_coeffs()),
            domain_element.value as int,
            at.spec_coeffs(),
            challenges@.map(|i: int, e: GoldilocksExtElement| e.spec_coeffs()).subrange(
                challenge_offset as int,
                challenge_offset + polynomial_values@.len(),
            ),
        ),
{
    let ghost polys = polynomial_values@.map(|i: int, e: GoldilocksExtElement| e.spec_coeffs());
    let ghost vals = values_at@.map(|i: int, e: GoldilocksExtElement| e.spec_coeffs());
    let ghost chals = challenges@.map(|i: int, e: GoldilocksExtElement| e.spec_coeffs()).subrange(
        challenge_offset as int,
        challenge_offset + polynomial_values@.len(),
    );
    let mut denom = GoldilocksExtElement::from_base(domain_element);
    denom = denom.sub(at);
    let denom_inv = denom.inverse();
    let mut acc = GoldilocksExtElement::zero();
    let mut i: usize = 0;
    proof {
        assert(polys.skip(0) =~= polys);
        assert(vals.skip(0) =~= vals);
        assert(chals.skip(0) =~= chals);
    }
    while i < polynomial_values.len()
        invariant
            i <= polynomial_values@.len(),
            polynomial_values@.len() == values_at@.len(),
            challenge_offset + polynomial_values@.len() <= challenges@.len(),
            forall|j: int|
                0 <= j < polynomial_values@.len() ==> (#[trigger] polynomial_values@[j]).valid(),
            forall|j: int| 0 <= j < values_at@.len() ==> (#[trigger] values_at@[j]).valid(),
            forall|j: int| 0 <= j < challenges@.len() ==> (#[trigger] challenges@[j]).valid(),
            polys == polynomial_values@.map(|j: int, e: GoldilocksExtElement| e.spec_coeffs()),
            vals == values_at@.map(|j: int, e: GoldilocksExtElement| e.spec_coeffs()),
            chals == challenges@.map(|j: int, e: GoldilocksExtElement| e.spec_coeffs()).subrange(
                challenge_offset as int,
                challenge_offset + polynomial_values@.len(),
            ),
            acc.valid(),
            spec_quotening_acc(
                acc.spec_coeffs(),
                polys.skip(i as int),
                vals.skip(i as int),
                chals.skip(i as int),
            ) == spec_quotening_acc((0int, 0int), polys, vals, chals),
        decreases polynomial_values@.len() - i,
    {
        proof {
            assert(polys.skip(i as int)[0] == polys[i as int]);
            assert(vals.skip(i as int)[0] == vals[i as int]);
            assert(chals.skip(i as int)[0] == chals[i as int]);
            assert(polys.skip(i as int).drop_first() =~= polys.skip(i as int + 1));
            assert(vals.skip(i as int).drop_first() =~= vals.skip(i as int + 1));
            assert(chals.skip(i as int).drop_first() =~= chals.skip(i as int + 1));
        }
        let cl: usize = challenges.len();
        proof {
            assert(challenge_offset + i < cl);
        }
        let mut tmp = polynomial_values[i];
        tmp = tmp.sub(values_at[i]);
        tmp = tmp.mul(challenges[challenge_offset + i]);
        acc = acc.add(tmp);
        i = i + 1;
    }
    proof {
        assert(polys.skip(polynomial_values@.len() as int).len() == 0);
    }
    let contribution = acc.mul(denom_inv);
    *dst = dst.add(contribution);
    polynomial_values.len()
}

/// One folding step of a pair: their sum plus the challenge-weighted
/// difference divided by the pair's domain point.
pub open spec fn spec_fold_pair(a: (int, int), b: (int, int), c: (int, int), inv_x: int) -> (
    int,
    int,
) {
    ext_add(ext_add(a, b), ext_mul_by_base(ext_mul(ext_sub(a, b), c), inv_x))
}

/// One folding level: adjacent pairs collapse under the level's challenge,
/// with per-pair inverse points assembled from the base power, the
/// interpolation steps, and the coset inverse.
pub open spec fn spec_fold_level(
    elems: Seq<(int, int)>,
    c: (int, int),
    base_pow: int,
    steps: Seq<int>,
    coset_inv: int,
) -> Seq<(int, int)> {
    Seq::new(
        (elems.len() / 2) as nat,
        |i: int|
            spec_fold_pair(
                elems[2 * i],
                elems[2 * i + 1],
                c,
                gl_mul(gl_mul(base_pow, steps[i]), coset_inv),
            ),
    )
}

/// A full round of folding: one level per challenge, squaring the base power
/// and the coset inverse between levels.
pub open spec fn spec_fold_round(
    elems: Seq<(int, int)>,
    challenges: Seq<(int, int)>,
    base_pow: int,
    steps: Seq<int>,
    coset_inv: int,
) -> Seq<(int, int)>
    decreases challenges.len(),
{
    if challenges.len() == 0 {
        elems
    } else {
        spec_fold_round(
            spec_fold_level(elems, challenges[0], base_pow, steps, coset_inv),
            challenges.drop_first(),
            gl_mul(base_pow, base_pow),
            steps,
            gl_mul(coset_inv, coset_inv),
        )
    }
}

/// Evaluation of the final polynomial from its monomial coefficients by the
/// Horner rule, highest coefficient first.
pub open spec fn spec_horner(coeffs: Seq<(int, int)>, x: int) -> (int, int)
    decreases coeffs.len(),
{
    if coeffs.len() == 0 {
        (0int, 0int)
    } else {
        ext_add(coeffs[0], ext_mul_by_base(spec_horner(coeffs.drop_first(), x), x))
    }
}

/// Evaluates the final FRI polynomial, given coefficient-wise, at a base
/// domain point by the Horner rule.
pub fn evaluate_final_monomials(
    c0s: &Vec<GoldilocksElement>,
    c1s: &Vec<GoldilocksElement>,
    x: GoldilocksElement,
) -> (r: GoldilocksExtElement)
    requires
        c0s@.len() == c1s@.len(),
        x.valid(),
        forall|i: int| 0 <= i < c0s@.len() ==> (#[trigger] c0s@[i]).valid(),
        forall|i: int| 0 <= i < c1s@.len() ==> (#[trigger] c1s@[i]).valid(),
    ensures
        r.valid(),
        r.spec_coeffs() == spec_horner(spec_monomials(c0s@, c1s@), x.value as int),
{
    let ghost coeffs = spec_monomials(c0s@, c1s@);
    let mut result = GoldilocksExtElement::zero();
    let mut i: usize = c0s.len();
    proof {
        assert(coeffs.skip(c0s@.len() as int).len() == 0);
    }
    while i > 0
        invariant
            i <= c0s@.len(),
            c0s@.len() == c1s@.len(),
            x.valid(),
            forall|j: int| 0 <= j < c0s@.len() ==> (#[trigger] c0s@[j]).valid(),
            forall|j: int| 0 <= j < c1s@.len() ==> (#[trigger] c1s@[j]).valid(),
            coeffs == spec_monomials(c0s@, c1s@),
            result.valid(),
            result.spec_coeffs() == spec_horner(coeffs.skip(i as int), x.value as int),
        decreases i,
    {
        i = i - 1;
        proof {
            assert(coeffs.skip(i as int)[0] == coeffs[i as int]);
            assert(coeffs.skip(i as int).drop_first() =~= coeffs.skip(i as int + 1));
            assert(coeffs[i as int] == (c0s@[i as int].value as int, c1s@[i as int].value as int));
        }
        let coeff = GoldilocksExtElement::from_coeffs_in_base(c0s[i], c1s[i]);
        result = coeff.add(result.mul_by_base(x));
    }
    proof {
        assert(coeffs.skip(0) =~= coeffs);
    }
    result
}

/// The monomial coefficients of the final polynomial, as pairs.
pub open spec fn spec_monomials(c0s: Seq<GoldilocksElement>, c1s: Seq<GoldilocksElement>) -> Seq<
    (int, int),
> {
    Seq::new(c0s.len(), |i: int| (c0s[i].value as int, c1s[i].value as int))
}

/// Converts index bits to the machine index they encode.
pub fn bits_to_index_exec(bits: &Vec<bool>) -> (r: usize)
    requires
        bits@.len() < 30,
    ensures
        r == spec_bits_to_index(bits@),
        r < pow2(bits@.len()),
{
    proof {
        crate::tree_hasher::lemma_bits_to_index_bound(bits@);
        vstd::arithmetic::power2::lemma_pow2_strictly_increases(bits@.len(), 30);
        vstd::arithmetic::power2::lemma2_to64();
    }
    let mut result: usize = 0;
    let mut i: usize = bits.len();
    proof {
        assert(bits@.skip(bits@.len() as int) =~= Seq::<bool>::empty());
    }
    while i > 0
        invariant
            i <= bits@.len(),
            bits@.len() < 30,
            result == spec_bits_to_index(bits@.skip(i as int)),
            result < pow2((bits@.len() - i) as nat),
        decreases i,
    {
        i = i - 1;
        proof {
            assert(bits@.skip(i as int)[0] == bits@[i as int]);
            assert(bits@.skip(i as int).drop_first() =~= bits@.skip(i as int + 1));
            crate::tree_hasher::lemma_bits_to_index_bound(bits@.skip(i as int));
            vstd::arithmetic::power2::lemma_pow2_strictly_increases(
                (bits@.len() - i) as nat, 30);
            vstd::arithmetic::power2::lemma_pow2_unfold((bits@.len() - i) as nat);
            vstd::arithmetic::power2::lemma2_to64();
        }
        result = 2 * result + (if bits[i] { 1 } else { 0 });
    }
    proof {
        assert(bits@.skip(0) =~= bits@);
    }
    result
}

/// One folding level over a vector of extension elements.
fn fold_level(
    elems: &Vec<GoldilocksExtElement>,
    challenge: GoldilocksExtElement,
    base_pow: GoldilocksElement,
    steps: &Vec<GoldilocksElement>,
    coset_inv: GoldilocksElement,
) -> (r: Vec<GoldilocksExtElement>)
    requires
        elems@.len() % 2 == 0,
        elems@.len() / 2 <= steps@.len(),
        challenge.valid(),
        base_pow.valid(),
        coset_inv.valid(),
        forall|i: int| 0 <= i < elems@.len() ==> (#[trigger] elems@[i]).valid(),
        forall|i: int| 0 <= i < steps@.len() ==> (#[trigger] steps@[i]).valid(),
    ensures
        r@.len() == elems@.len() / 2,
        r@.map(|i: int, e: GoldilocksExtElement| e.spec_coeffs()) == spec_fold_level(
            elems@.map(|i: int, e: GoldilocksExtElement| e.spec_coeffs()),
            challenge.spec_coeffs(),
            base_pow.value as int,
            steps@.map(|i: int, s: GoldilocksElement| s.value as int),
            coset_inv.value as int,
        ),
        forall|i: int| 0 <= i < r@.len() ==> (#[trigger] r@[i]).valid(),
{
    let ghost evals = elems@.map(|i: int, e: GoldilocksExtElement| e.spec_coeffs());
    let ghost stepvals = steps@.map(|i: int, s: GoldilocksElement| s.value as int);
    let half: usize = elems.len() / 2;
    let mut next: Vec<GoldilocksExtElement> = Vec::new();
    let mut i: usize = 0;
    while i < half
        invariant
            i <= half,
            half == elems@.len() / 2,
            elems@.len() % 2 == 0,
            half <= steps@.len(),
            challenge.valid(),
            base_pow.valid(),
            coset_inv.valid(),
            forall|j: int| 0 <= j < elems@.len() ==> (#[trigger] elems@[j]).valid(),
            forall|j: int| 0 <= j < steps@.len() ==> (#[trigger] steps@[j]).valid(),
            evals == elems@.map(|j: int, e: GoldilocksExtElement| e.spec_coeffs()),
            stepvals == steps@.map(|j: int, s: GoldilocksElement| s.value as int),
            next@.len() == i,
            forall|j: int| 0 <= j < i ==> (#[trigger] next@[j]).valid(),
            forall|j: int|
                0 <= j < i ==> (#[trigger] next@[j]).spec_coeffs() == spec_fold_pair(
                    evals[2 * j],
                    evals[2 * j + 1],
                    challenge.spec_coeffs(),
                    gl_mul(gl_mul(base_pow.value as int, stepvals[j]), coset_inv.value as int),
                ),
        decreases half - i,
    {
        let el: usize = elems.len();
        proof {
            assert(2 * (i as int) + 1 < el as int);
        }
        let a = elems[2 * i];
        let b = elems[2 * i + 1];
        let mut result = a.add(b);
        let mut diff = a.sub(b);
        diff = diff.mul(challenge);
        let mut pow = base_pow.mul(steps[i]);
        pow = pow.mul(coset_inv);
        result = result.add(diff.mul_by_base(pow));
        next.push(result);
        i = i + 1;
    }
    proof {
        assert(next@.map(|j: int, e: GoldilocksExtElement| e.spec_coeffs()) =~= spec_fold_level(
            evals,
            challenge.spec_coeffs(),
            base_pow.value as int,
            stepvals,
            coset_inv.value as int,
        ));
    }
    next
}

/// One round of folding: a level per challenge, squaring the base power and
/// the coset inverse between levels; returns the folded elements and the
/// coset inverse carried into the next round.
fn fold_round(
    elems: Vec<GoldilocksExtElement>,
    challenges: &Vec<GoldilocksExtElement>,
    base_pow: GoldilocksElement,
    steps: &Vec<GoldilocksElement>,
    coset_inv: GoldilocksElement,
) -> (r: (Vec<GoldilocksExtElement>, GoldilocksElement))
    requires
        challenges@.len() <= 3,
        elems@.len() == pow2(challenges@.len()),
        steps@.len() == 4,
        base_pow.valid(),
        coset_inv.valid(),
        forall|i: int| 0 <= i < elems@.len() ==> (#[trigger] elems@[i]).valid(),
        forall|i: int| 0 <= i < steps@.len() ==> (#[trigger] steps@[i]).valid(),
        forall|i: int| 0 <= i < challenges@.len() ==> (#[trigger] challenges@[i]).valid(),
    ensures
        r.0@.map(|i: int, e: GoldilocksExtElement| e.spec_coeffs()) == spec_fold_round(
            elems@.map(|i: int, e: GoldilocksExtElement| e.spec_coeffs()),
            challenges@.map(|i: int, e: GoldilocksExtElement| e.spec_coeffs()),
            base_pow.value as int,
            steps@.map(|i: int, s: GoldilocksElement| s.value as int),
            coset_inv.value as int,
        ),
        r.0@.len() == 1,
        forall|i: int| 0 <= i < r.0@.len() ==> (#[trigger] r.0@[i]).valid(),
        r.1.value as int == crate::field::spec_square_iter(
            coset_inv.value as int,
            challenges@.len(),
        ),
        r.1.valid(),
{
    let ghost chals = challenges@.map(|i: int, e: GoldilocksExtElement| e.spec_coeffs());
    let ghost stepvals = steps@.map(|i: int, s: GoldilocksElement| s.value as int);
    let ghost full = spec_fold_round(
        elems@.map(|i: int, e: GoldilocksExtElement| e.spec_coeffs()),
        chals,
        base_pow.value as int,
        stepvals,
        coset_inv.value as int,
    );
    let mut work = elems;
    let mut pow = base_pow;
    let mut cinv = coset_inv;
    let mut level: usize = 0;
    let num_levels: usize = challenges.len();
    proof {
        assert(chals.skip(0) =~= chals);
        vstd::arithmetic::power2::lemma2_to64();
    }
    while level < num_levels
        invariant
            level <= num_levels,
            num_levels == challenges@.len(),
            num_levels <= 3,
            steps@.len() == 4,
            chals == challenges@.map(|i: int, e: GoldilocksExtElement| e.spec_coeffs()),
            stepvals == steps@.map(|i: int, s: GoldilocksElement| s.value as int),
            work@.len() == pow2((num_levels - level) as nat),
            pow.valid(),
            cinv.valid(),
            forall|i: int| 0 <= i < work@.len() ==> (#[trigger] work@[i]).valid(),
            forall|i: int| 0 <= i < steps@.len() ==> (#[trigger] steps@[i]).valid(),
            forall|i: int| 0 <= i < challenges@.len() ==> (#[trigger] challenges@[i]).valid(),
            cinv.value as int == crate::field::spec_square_iter(
                coset_inv.value as int,
                level as nat,
            ),
            spec_fold_round(
                work@.map(|i: int, e: GoldilocksExtElement| e.spec_coeffs()),
                chals.skip(level as int),
                pow.value as int,
                stepvals,
                cinv.value as int,
            ) == full,
        decreases num_levels - level,
    {
        proof {
            assert(chals.skip(level as int)[0] == chals[level as int]);
            assert(chals.skip(level as int).drop_first() =~= chals.skip(level as int + 1));
            vstd::arithmetic::power2::lemma_pow2_unfold((num_levels - level) as nat);
            vstd::arithmetic::power2::lemma2_to64();
        }
        let next = fold_level(&work, challenges[level], pow, steps, cinv);
        work = next;
        pow = pow.mul(pow);
        cinv = cinv.mul(cinv);
        level = level + 1;
    }
    proof {
        assert(chals.skip(num_levels as int).len() == 0);
        assert(pow2(0) == 1) by {
            vstd::arithmetic::power2::lemma2_to64();
        };
    }
    (work, cinv)
}

/// Inclusion of a leaf under a capped root: the reconstructed node must
/// equal the cap element the index's high bits select.
pub open spec fn spec_merkle_ok(
    leaf: Seq<int>,
    siblings: Seq<int>,
    cap: Seq<int>,
    path: Seq<bool>,
) -> bool {
    spec_merkle_root(spec_hash_into_leaf(leaf), siblings, path.take(siblings.len() as int))
        == cap[spec_bits_to_index(path.skip(siblings.len() as int))]
}

/// The public inputs' contributions to the simulated quotient, one opening
/// point per tuple, consuming one separation challenge each.
pub open spec fn spec_public_quotening(
    dst: (int, int),
    tuples: Seq<(int, int, int)>,
    leaf: Seq<int>,
    x: int,
    chals: Seq<(int, int)>,
) -> (int, int)
    decreases tuples.len(),
{
    if tuples.len() == 0 {
        dst
    } else {
        let t = tuples[0];
        let d2 = spec_quotening(
            dst,
            seq![(leaf[t.1], 0int)],
            seq![(t.2, 0int)],
            x,
            (t.0, 0int),
            chals.take(1),
        );
        spec_public_quotening(d2, tuples.drop_first(), leaf, x, chals.skip(1))
    }
}

/// The per-round base powers: for each round, the inverse-generator power
/// addressed by the index bits above the round's folded positions.
pub open spec fn spec_power_chunks(
    omegainv: Seq<int>,
    bits: Seq<bool>,
    sched: Seq<usize>,
    skip_acc: int,
) -> Seq<int>
    decreases sched.len(),
{
    if sched.len() == 0 {
        Seq::empty()
    } else {
        seq![
            spec_pow_bits_acc(
                1,
                omegainv.skip(1 + sched[0]),
                bits.skip(skip_acc + sched[0]),
            ),
        ] + spec_power_chunks(omegainv, bits, sched.drop_first(), skip_acc + sched[0])
    }
}

/// The per-round checks of one query: the current folded value must match
/// the round leaf at the folded position, the leaf must be included under
/// the round's cap, and the leaf folds into the next round's value.
pub open spec fn spec_query_rounds(
    folded: (int, int),
    subidx: Seq<bool>,
    coset_inv: int,
    chunks: Seq<int>,
    round_chals: Seq<Seq<(int, int)>>,
    sched: Seq<usize>,
    queries: Seq<OracleQuery>,
    caps: Seq<Seq<int>>,
    steps: Seq<int>,
) -> (Seq<bool>, (int, int))
    decreases sched.len(),
{
    if sched.len() == 0 {
        (Seq::empty(), folded)
    } else {
        let s = sched[0] as int;
        let deg = pow2(sched[0] as nat) as int;
        let leaf = queries[0].leaf_elements@.map(|i: int, g: GoldilocksElement| g.value as int);
        let pos = spec_bits_to_index(subidx.take(s));
        let f0 = folded.0 == leaf[pos];
        let f1 = folded.1 == leaf[deg + pos];
        let incl = spec_merkle_ok(
            leaf,
            queries[0].proof@.map(|i: int, v: NativeOutput| v.value()),
            caps[0],
            subidx.skip(s),
        );
        let elems = Seq::new(deg as nat, |i: int| (leaf[i], leaf[deg + i]));
        let folded2 = spec_fold_round(elems, round_chals[0], chunks[0], steps, coset_inv)[0];
        let coset2 = crate::field::spec_square_iter(coset_inv, sched[0] as nat);
        let rest = spec_query_rounds(
            folded2,
            subidx.skip(s),
            coset2,
            chunks.drop_first(),
            round_chals.drop_first(),
            sched.drop_first(),
            queries.drop_first(),
            caps.drop_first(),
            steps,
        );
        (seq![f0, f1, incl] + rest.0, rest.1)
    }
}

/// Each round contributes three flags.
pub proof fn lemma_query_rounds_len(
    folded: (int, int),
    subidx: Seq<bool>,
    coset_inv: int,
    chunks: Seq<int>,
    round_chals: Seq<Seq<(int, int)>>,
    sched: Seq<usize>,
    queries: Seq<OracleQuery>,
    caps: Seq<Seq<int>>,
    steps: Seq<int>,
)
    ensures
        spec_query_rounds(
            folded,
            subidx,
            coset_inv,
            chunks,
            round_chals,
            sched,
            queries,
            caps,
            steps,
        ).0.len() == 3 * sched.len(),
    decreases sched.len(),
{
    if sched.len() > 0 {
        let s = sched[0] as int;
        let deg = pow2(sched[0] as nat) as int;
        let leaf = queries[0].leaf_elements@.map(|i: int, g: GoldilocksElement| g.value as int);
        let elems = Seq::new(deg as nat, |i: int| (leaf[i], leaf[deg + i]));
        lemma_query_rounds_len(
            spec_fold_round(elems, round_chals[0], chunks[0], steps, coset_inv)[0],
            subidx.skip(s),
            crate::field::spec_square_iter(coset_inv, sched[0] as nat),
            chunks.drop_first(),
            round_chals.drop_first(),
            sched.drop_first(),
            queries.drop_first(),
            caps.drop_first(),
            steps,
        );
    }
}

/// The flags one query produces: inclusion of the base-oracle leaf, the
/// quotiening of the claimed openings against that leaf, the per-round
/// folding checks, and the final comparison against the monomial form.
/// The simulated quotient at one domain point: every opening set's
/// challenge-weighted contribution, divided by its pole, summed.
pub open spec fn spec_simulated_quotient(
    leaf: Seq<int>,
    zvals: Seq<(int, int)>,
    zwvals: Seq<(int, int)>,
    v0vals: Seq<(int, int)>,
    z: (int, int),
    z_omega: (int, int),
    chals: Seq<(int, int)>,
    tuples: Seq<(int, int, int)>,
    x: int,
    np: int,
    n0: int,
) -> (int, int) {
    let cast_all = Seq::new(np as nat, |i: int| (leaf[i], 0int));
    let s1 = spec_quotening((0int, 0int), cast_all, zvals, x, z, chals.subrange(0, np));
    let s2 = spec_quotening(s1, seq![(leaf[0], 0int)], zwvals, x, z_omega, chals.subrange(np, np + 1));
    let s3 = spec_quotening(
        s2,
        Seq::new(n0 as nat, |i: int| (leaf[i], 0int)),
        v0vals,
        x,
        (0int, 0int),
        chals.subrange(np + 1, np + 1 + n0),
    );
    spec_public_quotening(s3, tuples, leaf, x, chals.skip(np + 1 + n0))
}

#[verifier::opaque]
pub open spec fn spec_fri_query(
    proof: Proof,
    fp: crate::verifier_structs::FixedParameters,
    cst: ConstantsHolder,
    z: (int, int),
    z_omega: (int, int),
    chals: Seq<(int, int)>,
    round_chals: Seq<Seq<(int, int)>>,
    tuples: Seq<(int, int, int)>,
    omegas: Seq<int>,
    omegainv: Seq<int>,
    steps: Seq<int>,
    q: SingleRoundQueries,
    bits: Seq<bool>,
) -> Seq<bool> {
    let leaf = q.base_query.leaf_elements@.map(|i: int, g: GoldilocksElement| g.value as int);
    let incl = spec_merkle_ok(
        leaf,
        q.base_query.proof@.map(|i: int, v: NativeOutput| v.value()),
        proof.base_oracle_cap@.map(|i: int, v: NativeOutput| v.value()),
        bits,
    );
    let x = gl_mul(
        spec_pow_bits_acc(1, omegas.skip(1), bits),
        crate::field::GL_MULTIPLICATIVE_GENERATOR as int,
    );
    let np = cst.num_polys as int;
    let n0 = cst.num_poly_values_at_zero as int;
    let zvals = proof.values_at_z@.map(|i: int, e: GoldilocksExtElement| e.spec_coeffs());
    let zwvals = proof.values_at_z_omega@.map(|i: int, e: GoldilocksExtElement| e.spec_coeffs());
    let v0vals = proof.values_at_0@.map(|i: int, e: GoldilocksExtElement| e.spec_coeffs());
    let s4 = spec_simulated_quotient(
        leaf,
        zvals,
        zwvals,
        v0vals,
        z,
        z_omega,
        chals,
        tuples,
        x,
        np,
        n0,
    );
    let chunks = spec_power_chunks(omegainv, bits, fp.fri_folding_schedule@, 0);
    let coset0 = gl_pow(
        crate::field::GL_MULTIPLICATIVE_GENERATOR as int,
        (crate::field::GL_MODULUS - 2) as nat,
    );
    let rounds = spec_query_rounds(
        s4,
        bits,
        coset0,
        chunks,
        round_chals,
        fp.fri_folding_schedule@,
        q.fri_queries@,
        spec_all_caps(proof),
        steps,
    );
    let x_interp = crate::field::spec_square_iter(x, fp.spec_schedule_sum() as nat);
    let horner = spec_horner(
        spec_monomials(proof.final_fri_monomials_c0@, proof.final_fri_monomials_c1@),
        x_interp,
    );
    seq![incl] + rounds.0 + seq![horner.0 == rounds.1.0, horner.1 == rounds.1.1]
}

/// One query always yields one inclusion flag, three flags per round, and
/// the two final comparisons.
pub proof fn lemma_fri_query_len(
    proof: Proof,
    fp: crate::verifier_structs::FixedParameters,
    cst: ConstantsHolder,
    z: (int, int),
    z_omega: (int, int),
    chals: Seq<(int, int)>,
    round_chals: Seq<Seq<(int, int)>>,
    tuples: Seq<(int, int, int)>,
    omegas: Seq<int>,
    omegainv: Seq<int>,
    steps: Seq<int>,
    q: SingleRoundQueries,
    bits: Seq<bool>,
)
    ensures
        spec_fri_query(
            proof,
            fp,
            cst,
            z,
            z_omega,
            chals,
            round_chals,
            tuples,
            omegas,
            omegainv,
            steps,
            q,
            bits,
        ).len() == 3 + 3 * fp.fri_folding_schedule@.len(),
{
    reveal(spec_fri_query);
    let leaf = q.base_query.leaf_elements@.map(|i: int, g: GoldilocksElement| g.value as int);
    let x = gl_mul(
        spec_pow_bits_acc(1, omegas.skip(1), bits),
        crate::field::GL_MULTIPLICATIVE_GENERATOR as int,
    );
    let np = cst.num_polys as int;
    let n0 = cst.num_poly_values_at_zero as int;
    let zvals = proof.values_at_z@.map(|i: int, e: GoldilocksExtElement| e.spec_coeffs());
    let zwvals = proof.values_at_z_omega@.map(|i: int, e: GoldilocksExtElement| e.spec_coeffs());
    let v0vals = proof.values_at_0@.map(|i: int, e: GoldilocksExtElement| e.spec_coeffs());
    let s4 = spec_simulated_quotient(
        leaf,
        zvals,
        zwvals,
        v0vals,
        z,
        z_omega,
        chals,
        tuples,
        x,
        np,
        n0,
    );
    let chunks = spec_power_chunks(omegainv, bits, fp.fri_folding_schedule@, 0);
    let coset0 = gl_pow(
        crate::field::GL_MULTIPLICATIVE_GENERATOR as int,
        (crate::field::GL_MODULUS - 2) as nat,
    );
    lemma_query_rounds_len(
        s4,
        bits,
        coset0,
        chunks,
        round_chals,
        fp.fri_folding_schedule@,
        q.fri_queries@,
        spec_all_caps(proof),
        steps,
    );
}

/// Structural requirements of one query against the parameters: every
/// length matches the committed geometry, and every element is reduced.
pub open spec fn spec_query_shape_ok(
    proof: Proof,
    fp: crate::verifier_structs::FixedParameters,
    cst: ConstantsHolder,
    q: SingleRoundQueries,
) -> bool {
    &&& q.base_query.leaf_elements@.len() == cst.num_polys
    &&& q.base_query.proof@.len() == cst.base_oracle_depth
    &&& forall|i: int|
        0 <= i < q.base_query.leaf_elements@.len() ==> (
        #[trigger] q.base_query.leaf_elements@[i]).valid()
    &&& forall|i: int|
        0 <= i < q.base_query.proof@.len() ==> (#[trigger] q.base_query.proof@[i]).valid()
    &&& q.fri_queries@.len() == fp.fri_folding_schedule@.len()
    &&& forall|r: int|
        0 <= r < q.fri_queries@.len() ==> (#[trigger] q.fri_queries@[r]).leaf_elements@.len() == 2
            * pow2(fp.fri_folding_schedule@[r] as nat)
    &&& forall|r: int|
        0 <= r < q.fri_queries@.len() ==> (#[trigger] q.fri_queries@[r]).proof@.len()
            == cst.base_oracle_depth - crate::verifier_structs::spec_sum_of(
            fp.fri_folding_schedule@.take(r + 1),
        )
    &&& forall|r: int, i: int|
        0 <= r < q.fri_queries@.len() && 0 <= i < q.fri_queries@[r].leaf_elements@.len() ==> (
        #[trigger] q.fri_queries@[r].leaf_elements@[i]).valid()
    &&& forall|r: int, i: int|
        0 <= r < q.fri_queries@.len() && 0 <= i < q.fri_queries@[r].proof@.len() ==> (
        #[trigger] q.fri_queries@[r].proof@[i]).valid()
}

/// 2^k squarings of a base-field element.
fn gl_square_iter_exec(x: GoldilocksElement, k: usize) -> (r: GoldilocksElement)
    requires
        x.valid(),
    ensures
        r.valid(),
        r.value as int == crate::field::spec_square_iter(x.value as int, k as nat),
{
    let mut current = x;
    let mut i: usize = 0;
    while i < k
        invariant
            i <= k,
            current.valid(),
            current.value as int == crate::field::spec_square_iter(x.value as int, i as nat),
        decreases k - i,
    {
        current = current.mul(current);
        i = i + 1;
    }
    current
}


/// Performs the quotiening at one domain point: for each opening set, the
/// challenge-weighted differences between the opened leaf values and the
/// claimed evaluations, divided by the set's pole, accumulate into the
/// simulated quotient value.
#[verifier::rlimit(100)]
fn simulate_quotient(
    proof: &Proof,
    fixed_parameters: &crate::verifier_structs::FixedParameters,
    constants: &ConstantsHolder,
    challenges: &ChallengesHolder,
    tuples: &Vec<(GoldilocksElement, usize, GoldilocksElement)>,
    q: &SingleRoundQueries,
    x: GoldilocksElement,
) -> (r: GoldilocksExtElement)
    requires
        fixed_parameters.wf(),
        *constants == crate::verifier_structs::spec_constants(*fixed_parameters),
        x.valid(),
        q.base_query.leaf_elements@.len() == constants.num_polys,
        forall|i: int|
            0 <= i < q.base_query.leaf_elements@.len() ==> (
            #[trigger] q.base_query.leaf_elements@[i]).valid(),
        proof.values_at_z@.len() == constants.num_poly_values_at_z,
        proof.values_at_z_omega@.len() == 1,
        proof.values_at_0@.len() == constants.num_poly_values_at_zero,
        forall|i: int| 0 <= i < proof.values_at_z@.len() ==> (#[trigger] proof.values_at_z@[i]).valid(),
        forall|i: int|
            0 <= i < proof.values_at_z_omega@.len() ==> (
            #[trigger] proof.values_at_z_omega@[i]).valid(),
        forall|i: int| 0 <= i < proof.values_at_0@.len() ==> (#[trigger] proof.values_at_0@[i]).valid(),
        challenges.z.valid(),
        challenges.z_omega.valid(),
        challenges.challenges_for_fri_quotiening@.len()
            == constants.total_num_challenges_for_fri_quotiening,
        forall|i: int|
            0 <= i < challenges.challenges_for_fri_quotiening@.len() ==> (
            #[trigger] challenges.challenges_for_fri_quotiening@[i]).valid(),
        tuples@.len() == constants.num_public_inputs,
        forall|i: int|
            0 <= i < tuples@.len() ==> (#[trigger] tuples@[i]).0.valid() && tuples@[i].2.valid(),
        forall|i: int|
            0 <= i < tuples@.len() ==> (#[trigger] tuples@[i]).1 < fixed_parameters.num_witness_polys,
    ensures
        r.valid(),
        r.spec_coeffs() == spec_simulated_quotient(
            q.base_query.leaf_elements@.map(|i: int, g: GoldilocksElement| g.value as int),
            proof.values_at_z@.map(|i: int, e: GoldilocksExtElement| e.spec_coeffs()),
            proof.values_at_z_omega@.map(|i: int, e: GoldilocksExtElement| e.spec_coeffs()),
            proof.values_at_0@.map(|i: int, e: GoldilocksExtElement| e.spec_coeffs()),
            challenges.z.spec_coeffs(),
            challenges.z_omega.spec_coeffs(),
            challenges.challenges_for_fri_quotiening@.map(
                |i: int, e: GoldilocksExtElement| e.spec_coeffs(),
            ),
            tuples@.map(|i: int, t: (GoldilocksElement, usize, GoldilocksElement)| (
                t.0.value as int,
                t.1 as int,
                t.2.value as int,
            )),
            x.value as int,
            constants.num_polys as int,
            constants.num_poly_values_at_zero as int,
        ),
{
    let ghost leaf = q.base_query.leaf_elements@.map(|i: int, g: GoldilocksElement| g.value as int);
    let ghost tuplespec = tuples@.map(|i: int, t: (GoldilocksElement, usize, GoldilocksElement)| (
        t.0.value as int,
        t.1 as int,
        t.2.value as int,
    ));
    let ghost chalvals = challenges.challenges_for_fri_quotiening@.map(
        |i: int, e: GoldilocksExtElement| e.spec_coeffs(),
    );
    // quotiening of the claimed openings
    let mut simulated = GoldilocksExtElement::zero();
    let np: usize = constants.num_polys;
    let n0: usize = constants.num_poly_values_at_zero;
    let mut cast_all: Vec<GoldilocksExtElement> = Vec::new();
    let mut ci: usize = 0;
    while ci < np
        invariant
            ci <= np,
            np == constants.num_polys,
            q.base_query.leaf_elements@.len() == np,
            forall|i: int|
                0 <= i < q.base_query.leaf_elements@.len() ==> (
                #[trigger] q.base_query.leaf_elements@[i]).valid(),
            leaf == q.base_query.leaf_elements@.map(|i: int, g: GoldilocksElement| g.value as int),
            cast_all@.len() == ci,
            forall|i: int| 0 <= i < ci ==> (#[trigger] cast_all@[i]).valid(),
            forall|i: int|
                0 <= i < ci ==> (#[trigger] cast_all@[i]).spec_coeffs() == (leaf[i], 0int),
        decreases np - ci,
    {
        cast_all.push(GoldilocksExtElement::from_base(q.base_query.leaf_elements[ci]));
        ci = ci + 1;
    }
    proof {
        assert(cast_all@.map(|i: int, e: GoldilocksExtElement| e.spec_coeffs()) =~= Seq::new(
            np as nat,
            |i: int| (leaf[i], 0int),
        ));
    }
    let _u1 = quotening_operation(
        &mut simulated,
        &cast_all,
        &proof.values_at_z,
        x,
        challenges.z,
        &challenges.challenges_for_fri_quotiening,
        0,
    );
    proof {
        assert(chalvals.subrange(0, np as int) =~= chalvals.subrange(0, np as int));
    }
    let mut cast_one: Vec<GoldilocksExtElement> = Vec::new();
    cast_one.push(GoldilocksExtElement::from_base(q.base_query.leaf_elements[0]));
    proof {
        assert(cast_one@.map(|i: int, e: GoldilocksExtElement| e.spec_coeffs()) =~= seq![
            (leaf[0], 0int),
        ]);
    }
    let _u2 = quotening_operation(
        &mut simulated,
        &cast_one,
        &proof.values_at_z_omega,
        x,
        challenges.z_omega,
        &challenges.challenges_for_fri_quotiening,
        np,
    );
    let mut cast_zero: Vec<GoldilocksExtElement> = Vec::new();
    let mut zi: usize = 0;
    while zi < n0
        invariant
            zi <= n0,
            n0 <= np,
            np == constants.num_polys,
            q.base_query.leaf_elements@.len() == np,
            forall|i: int|
                0 <= i < q.base_query.leaf_elements@.len() ==> (
                #[trigger] q.base_query.leaf_elements@[i]).valid(),
            leaf == q.base_query.leaf_elements@.map(|i: int, g: GoldilocksElement| g.value as int),
            cast_zero@.len() == zi,
            forall|i: int| 0 <= i < zi ==> (#[trigger] cast_zero@[i]).valid(),
            forall|i: int|
                0 <= i < zi ==> (#[trigger] cast_zero@[i]).spec_coeffs() == (leaf[i], 0int),
        decreases n0 - zi,
    {
        cast_zero.push(GoldilocksExtElement::from_base(q.base_query.leaf_elements[zi]));
        zi = zi + 1;
    }
    proof {
        assert(cast_zero@.map(|i: int, e: GoldilocksExtElement| e.spec_coeffs()) =~= Seq::new(
            n0 as nat,
            |i: int| (leaf[i], 0int),
        ));
    }
    let at_zero = GoldilocksExtElement::zero();
    let _u3 = quotening_operation(
        &mut simulated,
        &cast_zero,
        &proof.values_at_0,
        x,
        at_zero,
        &challenges.challenges_for_fri_quotiening,
        np + 1,
    );
    let ghost s3 = simulated.spec_coeffs();
    let mut toff: usize = np + 1 + n0;
    let mut ti: usize = 0;
    proof {
        assert(tuplespec.skip(0) =~= tuplespec);
    }
    while ti < tuples.len()
        invariant
            ti <= tuples@.len(),
            toff == np + 1 + n0 + ti,
            np == constants.num_polys,
            n0 == constants.num_poly_values_at_zero,
            tuples@.len() == constants.num_public_inputs,
            challenges.challenges_for_fri_quotiening@.len()
                == constants.total_num_challenges_for_fri_quotiening,
            constants.total_num_challenges_for_fri_quotiening == np + 1 + n0 + tuples@.len(),
            forall|i: int|
                0 <= i < challenges.challenges_for_fri_quotiening@.len() ==> (
                #[trigger] challenges.challenges_for_fri_quotiening@[i]).valid(),
            chalvals == challenges.challenges_for_fri_quotiening@.map(
                |i: int, e: GoldilocksExtElement| e.spec_coeffs(),
            ),
            q.base_query.leaf_elements@.len() == np,
            forall|i: int|
                0 <= i < q.base_query.leaf_elements@.len() ==> (
                #[trigger] q.base_query.leaf_elements@[i]).valid(),
            leaf == q.base_query.leaf_elements@.map(|i: int, g: GoldilocksElement| g.value as int),
            tuplespec == tuples@.map(|i: int, t: (GoldilocksElement, usize, GoldilocksElement)| (
                t.0.value as int,
                t.1 as int,
                t.2.value as int,
            )),
            forall|i: int|
                0 <= i < tuples@.len() ==> (#[trigger] tuples@[i]).0.valid() && tuples@[i].2.valid(),
            forall|i: int|
                0 <= i < tuples@.len() ==> (#[trigger] tuples@[i]).1
                    < fixed_parameters.num_witness_polys,
            fixed_parameters.num_witness_polys <= np,
            x.valid(),
            simulated.valid(),
            spec_public_quotening(
                simulated.spec_coeffs(),
                tuplespec.skip(ti as int),
                leaf,
                x.value as int,
                chalvals.skip(toff as int),
            ) == spec_public_quotening(s3, tuplespec, leaf, x.value as int, chalvals.skip(
                np + 1 + n0,
            )),
        decreases tuples@.len() - ti,
    {
        proof {
            assert(tuplespec.skip(ti as int)[0] == tuplespec[ti as int]);
            assert(tuplespec.skip(ti as int).drop_first() =~= tuplespec.skip(ti as int + 1));
            assert(chalvals.skip(toff as int).skip(1) =~= chalvals.skip(toff as int + 1));
        }
        let tup = tuples[ti];
        let mut src: Vec<GoldilocksExtElement> = Vec::new();
        src.push(GoldilocksExtElement::from_base(q.base_query.leaf_elements[tup.1]));
        let mut val: Vec<GoldilocksExtElement> = Vec::new();
        val.push(GoldilocksExtElement::from_base(tup.2));
        let at = GoldilocksExtElement::from_base(tup.0);
        proof {
            assert(src@.map(|i: int, e: GoldilocksExtElement| e.spec_coeffs()) =~= seq![
                (leaf[tup.1 as int], 0int),
            ]);
            assert(val@.map(|i: int, e: GoldilocksExtElement| e.spec_coeffs()) =~= seq![
                (tuplespec[ti as int].2, 0int),
            ]);
            assert(chalvals.subrange(toff as int, toff as int + 1) =~= chalvals.skip(
                toff as int,
            ).take(1));
        }
        let _u = quotening_operation(
            &mut simulated,
            &src,
            &val,
            x,
            at,
            &challenges.challenges_for_fri_quotiening,
            toff,
        );
        toff = toff + 1;
        ti = ti + 1;
    }
    proof {
        assert(tuplespec.skip(tuples@.len() as int).len() == 0);
    }
    simulated
}

/// Runs every check one query demands and returns its validity flags, one
/// first-class boolean per sub-check.
#[verifier::rlimit(100)]
pub fn verify_fri_query(
    proof: &Proof,
    fixed_parameters: &crate::verifier_structs::FixedParameters,
    constants: &ConstantsHolder,
    challenges: &ChallengesHolder,
    tuples: &Vec<(GoldilocksElement, usize, GoldilocksElement)>,
    omegas: &Vec<GoldilocksElement>,
    omegas_inv: &Vec<GoldilocksElement>,
    steps: &Vec<GoldilocksElement>,
    q: &SingleRoundQueries,
    bits: &Vec<bool>,
) -> (flags: Vec<bool>)
    requires
        fixed_parameters.wf(),
        *constants == crate::verifier_structs::spec_constants(*fixed_parameters),
        spec_query_shape_ok(*proof, *fixed_parameters, *constants, *q),
        bits@.len() == constants.max_needed_bits,
        constants.max_needed_bits < 30,
        proof.base_oracle_cap@.len() == pow2(fixed_parameters.cap_size_log2 as nat),
        proof.fri_base_oracle_cap@.len() == pow2(fixed_parameters.cap_size_log2 as nat),
        proof.fri_intermediate_oracles_caps@.len() + 1 == fixed_parameters.fri_folding_schedule@.len(),
        forall|r: int|
            0 <= r < proof.fri_intermediate_oracles_caps@.len() ==> (
            #[trigger] proof.fri_intermediate_oracles_caps@[r])@.len() == pow2(
                fixed_parameters.cap_size_log2 as nat,
            ),
        forall|i: int|
            0 <= i < proof.base_oracle_cap@.len() ==> (#[trigger] proof.base_oracle_cap@[i]).valid(),
        forall|i: int|
            0 <= i < proof.fri_base_oracle_cap@.len() ==> (
            #[trigger] proof.fri_base_oracle_cap@[i]).valid(),
        forall|r: int, i: int|
            0 <= r < proof.fri_intermediate_oracles_caps@.len() && 0 <= i
                < proof.fri_intermediate_oracles_caps@[r]@.len() ==> (
            #[trigger] proof.fri_intermediate_oracles_caps@[r]@[i]).valid(),
        proof.values_at_z@.len() == constants.num_poly_values_at_z,
        proof.values_at_z_omega@.len() == 1,
        proof.values_at_0@.len() == constants.num_poly_values_at_zero,
        forall|i: int| 0 <= i < proof.values_at_z@.len() ==> (#[trigger] proof.values_at_z@[i]).valid(),
        forall|i: int|
            0 <= i < proof.values_at_z_omega@.len() ==> (
            #[trigger] proof.values_at_z_omega@[i]).valid(),
        forall|i: int| 0 <= i < proof.values_at_0@.len() ==> (#[trigger] proof.values_at_0@[i]).valid(),
        proof.final_fri_monomials_c0@.len() == proof.final_fri_monomials_c1@.len(),
        forall|i: int|
            0 <= i < proof.final_fri_monomials_c0@.len() ==> (
            #[trigger] proof.final_fri_monomials_c0@[i]).valid(),
        forall|i: int|
            0 <= i < proof.final_fri_monomials_c1@.len() ==> (
            #[trigger] proof.final_fri_monomials_c1@[i]).valid(),
        challenges.z.valid(),
        challenges.z_omega.valid(),
        challenges.challenges_for_fri_quotiening@.len()
            == constants.total_num_challenges_for_fri_quotiening,
        forall|i: int|
            0 <= i < challenges.challenges_for_fri_quotiening@.len() ==> (
            #[trigger] challenges.challenges_for_fri_quotiening@[i]).valid(),
        challenges.fri_intermediate_challenges@.len() == fixed_parameters.fri_folding_schedule@.len(),
        forall|r: int|
            0 <= r < challenges.fri_intermediate_challenges@.len() ==> (
            #[trigger] challenges.fri_intermediate_challenges@[r])@.len()
                == fixed_parameters.fri_folding_schedule@[r],
        forall|r: int, i: int|
            0 <= r < challenges.fri_intermediate_challenges@.len() && 0 <= i
                < challenges.fri_intermediate_challenges@[r]@.len() ==> (
            #[trigger] challenges.fri_intermediate_challenges@[r]@[i]).valid(),
        tuples@.len() == constants.num_public_inputs,
        forall|i: int|
            0 <= i < tuples@.len() ==> (#[trigger] tuples@[i]).0.valid() && tuples@[i].2.valid(),
        forall|i: int|
            0 <= i < tuples@.len() ==> (#[trigger] tuples@[i]).1 < fixed_parameters.num_witness_polys,
        omegas@.len() == constants.max_needed_bits + 1,
        omegas_inv@.len() == constants.max_needed_bits + 1,
        forall|i: int| 0 <= i < omegas@.len() ==> (#[trigger] omegas@[i]).valid(),
        forall|i: int| 0 <= i < omegas_inv@.len() ==> (#[trigger] omegas_inv@[i]).valid(),
        steps@.len() == 4,
        forall|i: int| 0 <= i < steps@.len() ==> (#[trigger] steps@[i]).valid(),
    ensures
        flags@ == spec_fri_query(
            *proof,
            *fixed_parameters,
            *constants,
            challenges.z.spec_coeffs(),
            challenges.z_omega.spec_coeffs(),
            challenges.challenges_for_fri_quotiening@.map(
                |i: int, e: GoldilocksExtElement| e.spec_coeffs(),
            ),
            challenges.fri_intermediate_challenges@.map(
                |r: int, inner: Vec<GoldilocksExtElement>| inner@.map(
                    |i: int, e: GoldilocksExtElement| e.spec_coeffs(),
                ),
            ),
            tuples@.map(|i: int, t: (GoldilocksElement, usize, GoldilocksElement)| (
                t.0.value as int,
                t.1 as int,
                t.2.value as int,
            )),
            omegas@.map(|i: int, g: GoldilocksElement| g.value as int),
            omegas_inv@.map(|i: int, g: GoldilocksElement| g.value as int),
            steps@.map(|i: int, g: GoldilocksElement| g.value as int),
            *q,
            bits@,
        ),
        flags@.len() == 3 + 3 * fixed_parameters.fri_folding_schedule@.len(),
{
    let ghost leaf = q.base_query.leaf_elements@.map(|i: int, g: GoldilocksElement| g.value as int);
    let ghost tuplespec = tuples@.map(|i: int, t: (GoldilocksElement, usize, GoldilocksElement)| (
        t.0.value as int,
        t.1 as int,
        t.2.value as int,
    ));
    let ghost omegavals = omegas@.map(|i: int, g: GoldilocksElement| g.value as int);
    let ghost omegainvvals = omegas_inv@.map(|i: int, g: GoldilocksElement| g.value as int);
    let ghost stepvals = steps@.map(|i: int, g: GoldilocksElement| g.value as int);
    let ghost chalvals = challenges.challenges_for_fri_quotiening@.map(
        |i: int, e: GoldilocksExtElement| e.spec_coeffs(),
    );
    let mut flags: Vec<bool> = Vec::new();

    // inclusion of the base-oracle leaf
    proof {
        vstd::arithmetic::power2::lemma_pow2_strictly_increases(
            fixed_parameters.cap_size_log2 as nat, 30);
        vstd::arithmetic::power2::lemma2_to64();
    }
    let incl = check_if_included(
        &q.base_query.leaf_elements,
        &q.base_query.proof,
        &proof.base_oracle_cap,
        bits,
    );
    flags.push(incl);
    proof {
        assert(proof.base_oracle_cap@.map(|i: int, v: NativeOutput| v.value())[
            spec_bits_to_index(bits@.skip(q.base_query.proof@.len() as int))]
            == proof.base_oracle_cap@[spec_bits_to_index(bits@.skip(q.base_query.proof@.len() as int))].value()) by {
            crate::tree_hasher::lemma_bits_to_index_bound(bits@.skip(q.base_query.proof@.len() as int));
        };
    }

    // the shifted domain point of this query
    let pow = pow_from_precomputations(omegas, 1, bits, 0);
    let generator = GoldilocksElement::from_u64(crate::field::GL_MULTIPLICATIVE_GENERATOR);
    let x = pow.mul(generator);

    // quotiening of the claimed openings
    let simulated = simulate_quotient(proof, fixed_parameters, constants, challenges, tuples, q, x);

    proof {
        assert(tuplespec.skip(tuples@.len() as int).len() == 0);
    }

    // per-round base powers
    let sched_len: usize = fixed_parameters.fri_folding_schedule.len();
    let ghost schedseq = fixed_parameters.fri_folding_schedule@;
    let mut chunks: Vec<GoldilocksElement> = Vec::new();
    let mut skip_acc: usize = 0;
    let mut ri: usize = 0;
    proof {
        assert(schedseq.take(0) =~= Seq::<usize>::empty());
        assert(schedseq.skip(0) =~= schedseq);
        assert(chunks@.map(|i: int, g: GoldilocksElement| g.value as int)
            =~= Seq::<int>::empty());
    }
    while ri < sched_len
        invariant
            ri <= sched_len,
            sched_len == schedseq.len(),
            schedseq == fixed_parameters.fri_folding_schedule@,
            fixed_parameters.wf(),
            skip_acc == crate::verifier_structs::spec_sum_of(schedseq.take(ri as int)),
            skip_acc <= constants.max_needed_bits,
            *constants == crate::verifier_structs::spec_constants(*fixed_parameters),
            bits@.len() == constants.max_needed_bits,
            omegas_inv@.len() == constants.max_needed_bits + 1,
            forall|i: int| 0 <= i < omegas_inv@.len() ==> (#[trigger] omegas_inv@[i]).valid(),
            omegainvvals == omegas_inv@.map(|i: int, g: GoldilocksElement| g.value as int),
            chunks@.len() == ri,
            forall|i: int| 0 <= i < ri ==> (#[trigger] chunks@[i]).valid(),
            chunks@.map(|i: int, g: GoldilocksElement| g.value as int) + spec_power_chunks(
                omegainvvals,
                bits@,
                schedseq.skip(ri as int),
                skip_acc as int,
            ) == spec_power_chunks(omegainvvals, bits@, schedseq, 0),
        decreases sched_len - ri,
    {
        proof {
            assert(schedseq.skip(ri as int)[0] == schedseq[ri as int]);
            assert(schedseq.skip(ri as int).drop_first() =~= schedseq.skip(ri as int + 1));
            crate::verifier_structs::lemma_sum_take_step(schedseq, ri as int);
            crate::verifier_structs::lemma_sum_take_le(schedseq, ri as int + 1);
        }
        let s: usize = fixed_parameters.fri_folding_schedule[ri];
        let chunk = pow_from_precomputations(omegas_inv, 1 + s, bits, skip_acc + s);
        proof {
            let oldmap = chunks@.map(|i: int, g: GoldilocksElement| g.value as int);
            assert(chunks@.push(chunk).map(|i: int, g: GoldilocksElement| g.value as int)
                =~= oldmap.push(chunk.value as int));
            assert(oldmap.push(chunk.value as int) + spec_power_chunks(
                omegainvvals,
                bits@,
                schedseq.skip(ri as int + 1),
                skip_acc + s,
            ) =~= oldmap + (seq![chunk.value as int] + spec_power_chunks(
                omegainvvals,
                bits@,
                schedseq.skip(ri as int + 1),
                skip_acc + s,
            )));
        }
        chunks.push(chunk);
        skip_acc = skip_acc + s;
        ri = ri + 1;
    }
    proof {
        assert(spec_power_chunks(omegainvvals, bits@, schedseq.skip(sched_len as int), skip_acc as int)
            =~= Seq::<int>::empty());
        assert(chunks@.map(|i: int, g: GoldilocksElement| g.value as int) + Seq::<int>::empty()
            =~= chunks@.map(|i: int, g: GoldilocksElement| g.value as int));
    }
    let ghost chunkvals = chunks@.map(|i: int, g: GoldilocksElement| g.value as int);
    let ghost roundchals = challenges.fri_intermediate_challenges@.map(
        |r: int, inner: Vec<GoldilocksExtElement>| inner@.map(
            |i: int, e: GoldilocksExtElement| e.spec_coeffs(),
        ),
    );
    let ghost caps = spec_all_caps(*proof);

    // folding across the rounds
    let coset_start = generator.inverse();
    let ghost rounds_full = spec_query_rounds(
        simulated.spec_coeffs(),
        bits@,
        coset_start.value as int,
        chunkvals,
        roundchals,
        schedseq,
        q.fri_queries@,
        caps,
        stepvals,
    );
    let mut folded = simulated;
    let mut cinv = coset_start;
    let mut subidx: Vec<bool> = Vec::new();
    let mut bi2: usize = 0;
    while bi2 < bits.len()
        invariant
            bi2 <= bits@.len(),
            subidx@ =~= bits@.take(bi2 as int),
        decreases bits@.len() - bi2,
    {
        subidx.push(bits[bi2]);
        bi2 = bi2 + 1;
    }
    proof {
        assert(subidx@ =~= bits@);
        lemma_query_rounds_len(
            simulated.spec_coeffs(),
            bits@,
            coset_start.value as int,
            chunkvals,
            roundchals,
            schedseq,
            q.fri_queries@,
            caps,
            stepvals,
        );
        assert(chunkvals.skip(0) =~= chunkvals);
        assert(roundchals.skip(0) =~= roundchals);
        assert(q.fri_queries@.skip(0) =~= q.fri_queries@);
        assert(caps.skip(0) =~= caps);
        assert(rounds_full.0.skip(0) =~= rounds_full.0);
        assert(rounds_full.0.take(0) =~= Seq::<bool>::empty());
        assert(flags@ =~= seq![incl] + rounds_full.0.take(0));
        assert(schedseq.take(0) =~= Seq::<usize>::empty());
    }
    let mut rr: usize = 0;
    let ghost caplen = pow2(fixed_parameters.cap_size_log2 as nat) as int;
    while rr < sched_len
        invariant
            rr <= sched_len,
            sched_len == schedseq.len(),
            schedseq == fixed_parameters.fri_folding_schedule@,
            fixed_parameters.wf(),
            *constants == crate::verifier_structs::spec_constants(*fixed_parameters),
            spec_query_shape_ok(*proof, *fixed_parameters, *constants, *q),
            caplen == pow2(fixed_parameters.cap_size_log2 as nat),
            proof.fri_base_oracle_cap@.len() == caplen,
            proof.fri_intermediate_oracles_caps@.len() + 1 == sched_len,
            forall|r: int|
                0 <= r < proof.fri_intermediate_oracles_caps@.len() ==> (
                #[trigger] proof.fri_intermediate_oracles_caps@[r])@.len() == caplen,
            forall|i: int|
                0 <= i < proof.fri_base_oracle_cap@.len() ==> (
                #[trigger] proof.fri_base_oracle_cap@[i]).valid(),
            forall|r: int, i: int|
                0 <= r < proof.fri_intermediate_oracles_caps@.len() && 0 <= i
                    < proof.fri_intermediate_oracles_caps@[r]@.len() ==> (
                #[trigger] proof.fri_intermediate_oracles_caps@[r]@[i]).valid(),
            challenges.fri_intermediate_challenges@.len() == sched_len,
            forall|r: int|
                0 <= r < challenges.fri_intermediate_challenges@.len() ==> (
                #[trigger] challenges.fri_intermediate_challenges@[r])@.len() == schedseq[r],
            forall|r: int, i: int|
                0 <= r < challenges.fri_intermediate_challenges@.len() && 0 <= i
                    < challenges.fri_intermediate_challenges@[r]@.len() ==> (
                #[trigger] challenges.fri_intermediate_challenges@[r]@[i]).valid(),
            roundchals == challenges.fri_intermediate_challenges@.map(
                |r: int, inner: Vec<GoldilocksExtElement>| inner@.map(
                    |i: int, e: GoldilocksExtElement| e.spec_coeffs(),
                ),
            ),
            chunks@.len() == sched_len,
            forall|i: int| 0 <= i < chunks@.len() ==> (#[trigger] chunks@[i]).valid(),
            chunkvals == chunks@.map(|i: int, g: GoldilocksElement| g.value as int),
            steps@.len() == 4,
            forall|i: int| 0 <= i < steps@.len() ==> (#[trigger] steps@[i]).valid(),
            stepvals == steps@.map(|i: int, g: GoldilocksElement| g.value as int),
            caps == spec_all_caps(*proof),
            bits@.len() == constants.max_needed_bits,
            constants.max_needed_bits < 30,
            folded.valid(),
            cinv.valid(),
            subidx@ =~= bits@.skip(crate::verifier_structs::spec_sum_of(schedseq.take(rr as int))),
            0 <= crate::verifier_structs::spec_sum_of(schedseq.take(rr as int))
                <= crate::verifier_structs::spec_sum_of(schedseq),
            spec_query_rounds(
                folded.spec_coeffs(),
                subidx@,
                cinv.value as int,
                chunkvals.skip(rr as int),
                roundchals.skip(rr as int),
                schedseq.skip(rr as int),
                q.fri_queries@.skip(rr as int),
                caps.skip(rr as int),
                stepvals,
            ) == (rounds_full.0.skip(3 * rr), rounds_full.1),
            rounds_full.0.len() == 3 * sched_len,
            flags@ =~= seq![incl] + rounds_full.0.take(3 * rr),
        decreases sched_len - rr,
    {
        proof {
            assert(schedseq.skip(rr as int)[0] == schedseq[rr as int]);
            assert(schedseq.skip(rr as int).drop_first() =~= schedseq.skip(rr as int + 1));
            assert(chunkvals.skip(rr as int)[0] == chunkvals[rr as int]);
            assert(chunkvals.skip(rr as int).drop_first() =~= chunkvals.skip(rr as int + 1));
            assert(roundchals.skip(rr as int)[0] == roundchals[rr as int]);
            assert(roundchals.skip(rr as int).drop_first() =~= roundchals.skip(rr as int + 1));
            assert(q.fri_queries@.skip(rr as int)[0] == q.fri_queries@[rr as int]);
            assert(q.fri_queries@.skip(rr as int).drop_first() =~= q.fri_queries@.skip(
                rr as int + 1,
            ));
            assert(caps.skip(rr as int)[0] == caps[rr as int]);
            assert(caps.skip(rr as int).drop_first() =~= caps.skip(rr as int + 1));
            crate::verifier_structs::lemma_sum_take_step(schedseq, rr as int);
            crate::verifier_structs::lemma_sum_take_le(schedseq, rr as int + 1);
        }
        let s: usize = fixed_parameters.fri_folding_schedule[rr];
        let deg: usize = crate::verifier_structs::pow2_usize(s);
        let sl: usize = subidx.len();
        proof {
            crate::verifier_structs::lemma_sum_nonneg(schedseq.take(rr as int));
            assert(sl >= s);
        }
        let mut sub_in_leaf: Vec<bool> = Vec::new();
        let mut k1: usize = 0;
        while k1 < s
            invariant
                k1 <= s,
                s <= subidx@.len(),
                sub_in_leaf@ =~= subidx@.take(k1 as int),
            decreases s - k1,
        {
            sub_in_leaf.push(subidx[k1]);
            k1 = k1 + 1;
        }
        let mut tree_idx: Vec<bool> = Vec::new();
        let mut k2: usize = s;
        while k2 < subidx.len()
            invariant
                s <= k2 <= subidx@.len(),
                tree_idx@ =~= subidx@.subrange(s as int, k2 as int),
            decreases subidx@.len() - k2,
        {
            tree_idx.push(subidx[k2]);
            k2 = k2 + 1;
        }
        proof {
            assert(sub_in_leaf@ =~= subidx@.take(s as int));
            assert(tree_idx@ =~= subidx@.skip(s as int));
        }
        let pos = bits_to_index_exec(&sub_in_leaf);
        let fq = &q.fri_queries[rr];
        let ghost rleaf = fq.leaf_elements@.map(|i: int, g: GoldilocksElement| g.value as int);
        proof {
            assert(fq.leaf_elements@.len() == 2 * pow2(s as nat));
            assert(pos < pow2(s as nat));
        }
        let fl0: usize = fq.leaf_elements.len();
        proof {
            assert(deg + pos < fl0);
        }
        let c0sel = fq.leaf_elements[pos];
        let c1sel = fq.leaf_elements[deg + pos];
        flags.push(folded.c0.value == c0sel.value);
        flags.push(folded.c1.value == c1sel.value);
        let incl_r: bool;
        if rr == 0 {
            incl_r = check_if_included(
                &fq.leaf_elements,
                &fq.proof,
                &proof.fri_base_oracle_cap,
                &tree_idx,
            );
            proof {
                assert(caps[0] =~= proof.fri_base_oracle_cap@.map(
                    |i: int, v: NativeOutput| v.value(),
                ));
            }
        } else {
            incl_r = check_if_included(
                &fq.leaf_elements,
                &fq.proof,
                &proof.fri_intermediate_oracles_caps[rr - 1],
                &tree_idx,
            );
            proof {
                assert(caps[rr as int] =~= proof.fri_intermediate_oracles_caps@[rr - 1]@.map(
                    |i: int, v: NativeOutput| v.value(),
                ));
            }
        }
        proof {
            crate::tree_hasher::lemma_bits_to_index_bound(
                tree_idx@.skip(fq.proof@.len() as int),
            );
            assert(incl_r == spec_merkle_ok(
                rleaf,
                fq.proof@.map(|i: int, v: NativeOutput| v.value()),
                caps[rr as int],
                tree_idx@,
            ));
        }
        flags.push(incl_r);
        let mut elems: Vec<GoldilocksExtElement> = Vec::new();
        let mut k3: usize = 0;
        while k3 < deg
            invariant
                k3 <= deg,
                2 * deg == fq.leaf_elements@.len(),
                forall|i: int|
                    0 <= i < fq.leaf_elements@.len() ==> (#[trigger] fq.leaf_elements@[i]).valid(),
                rleaf == fq.leaf_elements@.map(|i: int, g: GoldilocksElement| g.value as int),
                elems@.len() == k3,
                forall|i: int| 0 <= i < k3 ==> (#[trigger] elems@[i]).valid(),
                forall|i: int|
                    0 <= i < k3 ==> (#[trigger] elems@[i]).spec_coeffs() == (
                        rleaf[i],
                        rleaf[deg + i],
                    ),
            decreases deg - k3,
        {
            let fl: usize = fq.leaf_elements.len();
            proof {
                assert(deg + k3 < fl);
            }
            elems.push(
                GoldilocksExtElement::from_coeffs_in_base(
                    fq.leaf_elements[k3],
                    fq.leaf_elements[deg + k3],
                ),
            );
            k3 = k3 + 1;
        }
        proof {
            assert(elems@.map(|i: int, e: GoldilocksExtElement| e.spec_coeffs()) =~= Seq::new(
                deg as nat,
                |i: int| (rleaf[i], rleaf[deg + i]),
            ));
        }
        let ghost pre_folded = folded.spec_coeffs();
        let ghost pre_subidx = subidx@;
        let ghost pre_cinv = cinv.value as int;
        let (folded_vec, cinv2) = fold_round(
            elems,
            &challenges.fri_intermediate_challenges[rr],
            chunks[rr],
            steps,
            cinv,
        );
        folded = folded_vec[0];
        cinv = cinv2;
        subidx = tree_idx;
        rr = rr + 1;
        proof {
            let prev = rr - 1;
            let suffix = spec_query_rounds(
                pre_folded,
                pre_subidx,
                pre_cinv,
                chunkvals.skip(prev),
                roundchals.skip(prev),
                schedseq.skip(prev),
                q.fri_queries@.skip(prev),
                caps.skip(prev),
                stepvals,
            );
            assert(suffix == (rounds_full.0.skip(3 * prev), rounds_full.1));
            // the unfolded head of the suffix matches this round's work
            assert(roundchals[prev] =~= challenges.fri_intermediate_challenges@[prev]@.map(
                |i: int, e: GoldilocksExtElement| e.spec_coeffs(),
            ));
            assert(spec_query_rounds(
                folded.spec_coeffs(),
                subidx@,
                cinv.value as int,
                chunkvals.skip(rr as int),
                roundchals.skip(rr as int),
                schedseq.skip(rr as int),
                q.fri_queries@.skip(rr as int),
                caps.skip(rr as int),
                stepvals,
            ) == (rounds_full.0.skip(3 * prev).skip(3), rounds_full.1));
            assert(rounds_full.0.skip(3 * prev).skip(3) =~= rounds_full.0.skip(3 * rr));
            assert(rounds_full.0.take(3 * rr) =~= rounds_full.0.take(3 * prev) + seq![
                rounds_full.0[3 * prev],
                rounds_full.0[3 * prev + 1],
                rounds_full.0[3 * prev + 2],
            ]);
            assert(rounds_full.0.skip(3 * prev)[0] == rounds_full.0[3 * prev]);
            assert(rounds_full.0.skip(3 * prev)[1] == rounds_full.0[3 * prev + 1]);
            assert(rounds_full.0.skip(3 * prev)[2] == rounds_full.0[3 * prev + 2]);
            assert(sub_in_leaf@ =~= pre_subidx.take(schedseq[prev] as int));
            assert(pos == spec_bits_to_index(pre_subidx.take(schedseq[prev] as int)));
            assert(rounds_full.0[3 * prev] == (pre_folded.0 == rleaf[pos as int]));
            assert(rounds_full.0[3 * prev + 1] == (pre_folded.1 == rleaf[pow2(s as nat) + pos]));
            assert(rounds_full.0[3 * prev + 2] == spec_merkle_ok(
                rleaf,
                fq.proof@.map(|i: int, v: NativeOutput| v.value()),
                caps[prev],
                tree_idx@,
            ));
            assert(flags@ =~= seq![incl] + rounds_full.0.take(3 * rr));
            assert(subidx@ =~= bits@.skip(
                crate::verifier_structs::spec_sum_of(schedseq.take(rr as int)),
            ));
        }
    }
    proof {
        assert(schedseq.skip(sched_len as int).len() == 0);
        assert(rounds_full.0.take(3 * sched_len) =~= rounds_full.0);
    }

    // the final polynomial in monomial form must agree with the folded value
    let total: usize = crate::verifier_structs::sum_of_schedule(
        &fixed_parameters.fri_folding_schedule,
    );
    let x_interp = gl_square_iter_exec(x, total);
    let horner = evaluate_final_monomials(
        &proof.final_fri_monomials_c0,
        &proof.final_fri_monomials_c1,
        x_interp,
    );
    flags.push(horner.c0.value == folded.c0.value);
    flags.push(horner.c1.value == folded.c1.value);
    proof {
        assert(flags@ =~= spec_fri_query(
            *proof,
            *fixed_parameters,
            *constants,
            challenges.z.spec_coeffs(),
            challenges.z_omega.spec_coeffs(),
            chalvals,
            roundchals,
            tuplespec,
            omegavals,
            omegainvvals,
            stepvals,
            *q,
            bits@,
        )) by {
            reveal(spec_fri_query);
        };
    }
    flags
}

} // verus!
