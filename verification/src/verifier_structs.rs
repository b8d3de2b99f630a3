use vstd::prelude::*;
use vstd::arithmetic::power2::pow2;
use crate::field::GoldilocksElement;
use crate::extension::GoldilocksExtElement;
use crate::native::NativeOutput;

verus! {

/// 2^k as a machine word, for the small exponents the protocol uses.
pub fn pow2_usize(k: usize) -> (r: usize)
    requires
        k < 30,
    ensures
        r == pow2(k as nat),
        r >= 1,
{
    let mut result: usize = 1;
    let mut i: usize = 0;
    proof {
        vstd::arithmetic::power2::lemma2_to64();
    }
    while i < k
        invariant
            i <= k,
            k < 30,
            result == pow2(i as nat),
            result <= pow2(29),
        decreases k - i,
    {
        proof {
            vstd::arithmetic::power2::lemma_pow2_unfold((i + 1) as nat);
            vstd::arithmetic::power2::lemma_pow2_strictly_increases((i + 1) as nat, 30nat);
            vstd::arithmetic::power2::lemma2_to64();
        }
        result = result * 2;
        i = i + 1;
    }
    result
}

/// One algebraic relation the circuit enforces, over the witness columns, as
/// a tagged variant of the closed set of gate kinds. Each relation has its
/// own quotient column.
#[derive(Clone, Copy, PartialEq, Eq, Structural, Debug)]
pub enum GateRelation {
    /// col_a * col_b - col_out must vanish over the domain.
    Product { a: usize, b: usize, out: usize },
    /// col_a + col_b - col_out must vanish over the domain.
    Sum { a: usize, b: usize, out: usize },
}

impl GateRelation {
    /// All column indices the relation reads lie among the witness columns.
    pub open spec fn columns_in_range(self, num_witness_polys: int) -> bool {
        match self {
            GateRelation::Product { a, b, out } => a < num_witness_polys && b < num_witness_polys
                && out < num_witness_polys,
            GateRelation::Sum { a, b, out } => a < num_witness_polys && b < num_witness_polys
                && out < num_witness_polys,
        }
    }
}

/// The fixed, verification-key-side parameters: they size every loop bound
/// of the verifier and are validated against the proof's structural lengths
/// before use. All power-of-two sizes are carried as logarithms.
#[derive(Clone, Debug)]
pub struct FixedParameters {
    pub domain_size_log2: usize,
    pub lde_factor_log2: usize,
    pub cap_size_log2: usize,
    /// The (column, row) locations of the public inputs.
    pub public_inputs_locations: Vec<(usize, u64)>,
    /// Per-round folding-degree logs.
    pub fri_folding_schedule: Vec<usize>,
    pub num_witness_polys: usize,
    pub relations: Vec<GateRelation>,
    /// How many of the leading witness columns are opened at zero.
    pub num_values_at_0: usize,
    pub num_queries: usize,
}

impl FixedParameters {
    /// The sum of the folding schedule.
    pub open spec fn spec_schedule_sum(self) -> int {
        spec_sum_of(self.fri_folding_schedule@)
    }

    /// Structural validity of the parameters themselves.
    pub open spec fn wf(self) -> bool {
        &&& 1 <= self.domain_size_log2 <= 28
        &&& 1 <= self.lde_factor_log2 <= 4
        &&& 1 <= self.cap_size_log2 <= 10
        &&& self.cap_size_log2 < self.domain_size_log2 + self.lde_factor_log2
        &&& self.domain_size_log2 + self.lde_factor_log2 >= 4
        &&& self.domain_size_log2 + self.lde_factor_log2 <= 28
        &&& self.fri_folding_schedule@.len() >= 1
        &&& self.fri_folding_schedule@.len() <= 16
        &&& forall|i: int|
            0 <= i < self.fri_folding_schedule@.len() ==> 1 <= #[trigger] self.fri_folding_schedule@[i] <= 3
        &&& self.spec_schedule_sum() <= self.domain_size_log2
        &&& self.spec_schedule_sum() + self.cap_size_log2 <= self.domain_size_log2
            + self.lde_factor_log2
        &&& self.num_witness_polys >= 1
        &&& self.num_witness_polys <= 64
        &&& self.relations@.len() <= 64
        &&& forall|i: int|
            0 <= i < self.relations@.len() ==> (#[trigger] self.relations@[i]).columns_in_range(
                self.num_witness_polys as int,
            )
        &&& self.num_values_at_0 <= self.num_witness_polys
        &&& self.public_inputs_locations@.len() <= 64
        &&& forall|i: int|
            0 <= i < self.public_inputs_locations@.len()
                ==> (#[trigger] self.public_inputs_locations@[i]).0 < self.num_witness_polys
        &&& 1 <= self.num_queries <= 128
    }
}

/// The sum of a sequence of machine words.
pub open spec fn spec_sum_of(s: Seq<usize>) -> int
    decreases s.len(),
{
    if s.len() == 0 {
        0
    } else {
        s[0] + spec_sum_of(s.drop_first())
    }
}

/// The verification key: the capped root committing to the setup.
#[derive(Clone, Debug)]
pub struct VerificationKey {
    pub setup_merkle_tree_cap: Vec<NativeOutput>,
}

/// One oracle opening: the leaf's elements and the path of sibling hashes up
/// to the cap.
#[derive(Clone, Debug)]
pub struct OracleQuery {
    pub leaf_elements: Vec<GoldilocksElement>,
    pub proof: Vec<NativeOutput>,
}

/// The openings one query round needs: the base oracle and one per FRI
/// round.
#[derive(Clone, Debug)]
pub struct SingleRoundQueries {
    pub base_query: OracleQuery,
    pub fri_queries: Vec<OracleQuery>,
}

/// The proof as the verifier consumes it.
#[derive(Clone, Debug)]
pub struct Proof {
    pub public_inputs: Vec<GoldilocksElement>,
    /// The cap of the base oracle, committing the evaluated columns.
    pub base_oracle_cap: Vec<NativeOutput>,
    pub values_at_z: Vec<GoldilocksExtElement>,
    pub values_at_z_omega: Vec<GoldilocksExtElement>,
    pub values_at_0: Vec<GoldilocksExtElement>,
    pub fri_base_oracle_cap: Vec<NativeOutput>,
    pub fri_intermediate_oracles_caps: Vec<Vec<NativeOutput>>,
    pub final_fri_monomials_c0: Vec<GoldilocksElement>,
    pub final_fri_monomials_c1: Vec<GoldilocksElement>,
    pub queries_per_fri_repetition: Vec<SingleRoundQueries>,
}

/// The derived loop bounds and counts the verifier uses, computed from the
/// fixed parameters alone.
#[derive(Clone, Debug)]
pub struct ConstantsHolder {
    /// Witness columns plus one quotient column per relation.
    pub num_polys: usize,
    pub num_poly_values_at_z: usize,
    pub num_poly_values_at_z_omega: usize,
    pub num_poly_values_at_zero: usize,
    pub num_public_inputs: usize,
    pub num_fri_repetitions: usize,
    pub final_expected_degree: usize,
    pub total_num_challenges_for_fri_quotiening: usize,
    pub base_oracle_depth: usize,
    pub max_needed_bits: usize,
}

/// The constants a parameter set induces.
pub open spec fn spec_constants(fp: FixedParameters) -> ConstantsHolder {
    let num_polys = (fp.num_witness_polys + fp.relations@.len()) as usize;
    ConstantsHolder {
        num_polys,
        num_poly_values_at_z: num_polys,
        num_poly_values_at_z_omega: 1,
        num_poly_values_at_zero: fp.num_values_at_0,
        num_public_inputs: fp.public_inputs_locations@.len() as usize,
        num_fri_repetitions: fp.num_queries,
        final_expected_degree: pow2((fp.domain_size_log2 - spec_sum_of(
            fp.fri_folding_schedule@,
        )) as nat) as usize,
        total_num_challenges_for_fri_quotiening: (num_polys + 1 + fp.num_values_at_0
            + fp.public_inputs_locations@.len()) as usize,
        base_oracle_depth: (fp.domain_size_log2 + fp.lde_factor_log2 - fp.cap_size_log2) as usize,
        max_needed_bits: (fp.domain_size_log2 + fp.lde_factor_log2) as usize,
    }
}

impl ConstantsHolder {
    /// Derives every loop bound from the fixed parameters.
    pub fn generate(fp: &FixedParameters) -> (r: ConstantsHolder)
        requires
            fp.wf(),
        ensures
            r == spec_constants(*fp),
    {
        let num_polys: usize = fp.num_witness_polys + fp.relations.len();
        let schedule_sum: usize = sum_of_schedule(&fp.fri_folding_schedule);
        let final_expected_degree: usize = pow2_usize(fp.domain_size_log2 - schedule_sum);
        ConstantsHolder {
            num_polys,
            num_poly_values_at_z: num_polys,
            num_poly_values_at_z_omega: 1,
            num_poly_values_at_zero: fp.num_values_at_0,
            num_public_inputs: fp.public_inputs_locations.len(),
            num_fri_repetitions: fp.num_queries,
            final_expected_degree,
            total_num_challenges_for_fri_quotiening: num_polys + 1 + fp.num_values_at_0
                + fp.public_inputs_locations.len(),
            base_oracle_depth: fp.domain_size_log2 + fp.lde_factor_log2 - fp.cap_size_log2,
            max_needed_bits: fp.domain_size_log2 + fp.lde_factor_log2,
        }
    }
}

/// The sum of the folding schedule, as a machine word.
pub fn sum_of_schedule(schedule: &Vec<usize>) -> (r: usize)
    requires
        schedule@.len() <= 16,
        forall|i: int| 0 <= i < schedule@.len() ==> 1 <= #[trigger] schedule@[i] <= 3,
    ensures
        r == spec_sum_of(schedule@),
{
    let mut total: usize = 0;
    let mut i: usize = 0;
    proof {
        assert(schedule@.skip(0) =~= schedule@);
    }
    while i < schedule.len()
        invariant
            i <= schedule@.len(),
            schedule@.len() <= 16,
            forall|j: int| 0 <= j < schedule@.len() ==> 1 <= #[trigger] schedule@[j] <= 3,
            total <= 3 * i,
            total + spec_sum_of(schedule@.skip(i as int)) == spec_sum_of(schedule@),
        decreases schedule@.len() - i,
    {
        proof {
            assert(schedule@.skip(i as int).len() > 0);
            assert(schedule@.skip(i as int)[0] == schedule@[i as int]);
            assert(schedule@.skip(i as int).drop_first() =~= schedule@.skip(i as int + 1));
        }
        total = total + schedule[i];
        i = i + 1;
    }
    proof {
        assert(schedule@.skip(schedule@.len() as int) =~= Seq::<usize>::empty());
    }
    total
}

/// The errors of a structural (protocol-format) violation: a malformed proof
/// object or a mismatched verification key, surfaced as an immediate abort
/// rather than a computed rejection.
#[derive(Clone, Copy, PartialEq, Eq, Structural, Debug)]
pub enum VerificationError {
    InvalidFixedParameters,
    InvalidNumberOfPublicInputs,
    CapSizeMismatch,
    OpeningsMismatch,
    MonomialsMismatch,
    QueriesMismatch,
}

/// Takes exactly `num_elements` witness values from an optional source:
/// absent or miscounted witness data is a structural failure.
pub fn allocate_num_elements<T>(num_elements: usize, source: Option<Vec<T>>) -> (r: Result<
    Vec<T>,
    VerificationError,
>)
    ensures
        r is Ok <==> (source is Some && source->Some_0@.len() == num_elements),
        r is Ok ==> r->Ok_0@ == source->Some_0@,
        r is Err ==> r->Err_0 == VerificationError::OpeningsMismatch,
{
    match source {
        None => Err(VerificationError::OpeningsMismatch),
        Some(v) => {
            if v.len() == num_elements {
                Ok(v)
            } else {
                Err(VerificationError::OpeningsMismatch)
            }
        },
    }
}

/// The sum of a concatenation splits.
pub proof fn lemma_sum_append(a: Seq<usize>, b: Seq<usize>)
    ensures
        spec_sum_of(a + b) == spec_sum_of(a) + spec_sum_of(b),
    decreases a.len(),
{
    if a.len() == 0 {
        assert(a + b =~= b);
    } else {
        lemma_sum_append(a.drop_first(), b);
        assert((a + b).drop_first() =~= a.drop_first() + b);
        assert((a + b)[0] == a[0]);
    }
}

/// A sum of machine words is never negative.
pub proof fn lemma_sum_nonneg(s: Seq<usize>)
    ensures
        spec_sum_of(s) >= 0,
    decreases s.len(),
{
    if s.len() > 0 {
        lemma_sum_nonneg(s.drop_first());
    }
}

/// A prefix sum never exceeds the whole sum.
pub proof fn lemma_sum_take_le(s: Seq<usize>, i: int)
    requires
        0 <= i <= s.len(),
    ensures
        0 <= spec_sum_of(s.take(i)) <= spec_sum_of(s),
{
    assert(s =~= s.take(i) + s.skip(i));
    lemma_sum_append(s.take(i), s.skip(i));
    lemma_sum_nonneg(s.take(i));
    lemma_sum_nonneg(s.skip(i));
}

/// Extending a prefix by one element adds that element to its sum.
pub proof fn lemma_sum_take_step(s: Seq<usize>, i: int)
    requires
        0 <= i < s.len(),
    ensures
        spec_sum_of(s.take(i + 1)) == spec_sum_of(s.take(i)) + s[i],
{
    assert(s.take(i + 1) =~= s.take(i) + seq![s[i]]);
    lemma_sum_append(s.take(i), seq![s[i]]);
    assert(spec_sum_of(seq![s[i]]) == s[i] + spec_sum_of(seq![s[i]].drop_first()));
    assert(seq![s[i]].drop_first() =~= Seq::<usize>::empty());
}

} // verus!
