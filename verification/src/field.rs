use vstd::prelude::*;

verus! {

/// The modulus of the small prime field in which the proof's values live:
/// 2^64 - 2^32 + 1.
pub const GL_MODULUS: u64 = 0xffff_ffff_0000_0001;

/// Generator of the full multiplicative group of the base field.
pub const GL_MULTIPLICATIVE_GENERATOR: u64 = 7;

/// Generator of the largest power-of-two subgroup (order 2^32) of the base field.
pub const GL_RADIX_2_SUBGROUP_GENERATOR: u64 = 0x1856_29dc_da58_878c;

/// The base field has a multiplicative subgroup of order 2^32 and no larger
/// power-of-two subgroup.
pub const GL_TWO_ADICITY: u64 = 32;

/// Addition in the base field, on mathematical integers.
pub open spec fn gl_add(a: int, b: int) -> int {
    (a + b) % (GL_MODULUS as int)
}

/// Subtraction in the base field, on mathematical integers.
pub open spec fn gl_sub(a: int, b: int) -> int {
    (a - b) % (GL_MODULUS as int)
}

/// Multiplication in the base field, on mathematical integers.
pub open spec fn gl_mul(a: int, b: int) -> int {
    (a * b) % (GL_MODULUS as int)
}

/// Exponentiation in the base field, on mathematical integers.
pub open spec fn gl_pow(b: int, e: nat) -> int
    decreases e,
{
    if e == 0 {
        1int % (GL_MODULUS as int)
    } else {
        gl_mul(b, gl_pow(b, (e - 1) as nat))
    }
}

/// An element of the base field, kept reduced below the modulus.
#[derive(Clone, Copy, PartialEq, Eq, Structural, Debug)]
pub struct GoldilocksElement {
    pub value: u64,
}

impl GoldilocksElement {
    /// A value is well formed when it is a canonical residue.
    pub open spec fn valid(self) -> bool {
        self.value < GL_MODULUS
    }

    pub open spec fn spec_value(self) -> int {
        self.value as int
    }

    pub fn zero() -> (r: Self)
        ensures
            r.value == 0,
            r.valid(),
    {
        GoldilocksElement { value: 0 }
    }

    pub fn one() -> (r: Self)
        ensures
            r.value == 1,
            r.valid(),
    {
        GoldilocksElement { value: 1 }
    }

    /// Reduces an arbitrary machine word into the field.
    pub fn from_u64(x: u64) -> (r: Self)
        ensures
            r.value == x as int % (GL_MODULUS as int),
            r.valid(),
    {
        GoldilocksElement { value: x % GL_MODULUS }
    }

    pub fn add(self, other: Self) -> (r: Self)
        requires
            self.valid(),
            other.valid(),
        ensures
            r.value == gl_add(self.value as int, other.value as int),
            r.valid(),
    {
        let s: u128 = self.value as u128 + other.value as u128;
        let r: u64 = (s % (GL_MODULUS as u128)) as u64;
        GoldilocksElement { value: r }
    }

    pub fn sub(self, other: Self) -> (r: Self)
        requires
            self.valid(),
            other.valid(),
        ensures
            r.value == gl_sub(self.value as int, other.value as int),
            r.valid(),
    {
        let s: u128 = self.value as u128 + GL_MODULUS as u128 - other.value as u128;
        let r: u64 = (s % (GL_MODULUS as u128)) as u64;
        proof {
            let p = GL_MODULUS as int;
            let a = self.value as int;
            let b = other.value as int;
            assert((a + p - b) % p == (a - b) % p) by {
                vstd::arithmetic::div_mod::lemma_mod_add_multiples_vanish(a - b, p);
            };
        }
        GoldilocksElement { value: r }
    }

    pub fn mul(self, other: Self) -> (r: Self)
        requires
            self.valid(),
            other.valid(),
        ensures
            r.value == gl_mul(self.value as int, other.value as int),
            r.valid(),
    {
        proof {
            let a = self.value as int;
            let b = other.value as int;
            assert(a * b < 0x1_0000_0000_0000_0000_0000_0000_0000_0000int) by (nonlinear_arith)
                requires
                    0 <= a < 0x1_0000_0000_0000_0000int && 0 <= b < 0x1_0000_0000_0000_0000int;
        }
        let s: u128 = self.value as u128 * other.value as u128;
        let r: u64 = (s % (GL_MODULUS as u128)) as u64;
        GoldilocksElement { value: r }
    }

    /// Square-and-multiply exponentiation.
    pub fn pow(self, exp: u64) -> (r: Self)
        requires
            self.valid(),
        ensures
            r.value == gl_pow(self.value as int, exp as nat),
            r.valid(),
    {
        let mut result = GoldilocksElement::one();
        let mut base = self;
        let mut e: u64 = exp;
        proof {
            lemma_gl_pow_zero(self.value as int);
        }
        while e > 0
            invariant
                result.valid(),
                base.valid(),
                gl_mul(result.value as int, gl_pow(base.value as int, e as nat))
                    == gl_pow(self.value as int, exp as nat),
            decreases e,
        {
            proof {
                lemma_gl_pow_step(result.value as int, base.value as int, e as nat);
            }
            if e % 2 == 1 {
                result = result.mul(base);
            }
            base = base.mul(base);
            e = e / 2;
        }
        proof {
            lemma_gl_mul_one_right(result.value as int, base.value as int);
        }
        result
    }

    /// The multiplicative inverse, computed as the power p - 2; the result of
    /// a zero input is zero.
    pub fn inverse(self) -> (r: Self)
        requires
            self.valid(),
        ensures
            r.value == gl_pow(self.value as int, (GL_MODULUS - 2) as nat),
            r.valid(),
    {
        self.pow(GL_MODULUS - 2)
    }
}

proof fn lemma_gl_pow_zero(b: int)
    ensures
        gl_pow(b, 0) == 1,
{
}

proof fn lemma_gl_mul_one_right(r: int, b: int)
    requires
        0 <= r < GL_MODULUS,
    ensures
        gl_mul(r, gl_pow(b, 0)) == r,
{
    assert(gl_pow(b, 0) == 1);
    assert(r * 1 == r) by (nonlinear_arith);
    assert(r % (GL_MODULUS as int) == r) by {
        vstd::arithmetic::div_mod::lemma_small_mod(r as nat, GL_MODULUS as nat);
    };
}

proof fn lemma_gl_pow_one(b: int)
    ensures
        gl_pow(b, 1) == b % (GL_MODULUS as int),
{
    let p = GL_MODULUS as int;
    vstd::arithmetic::div_mod::lemma_small_mod(1nat, GL_MODULUS as nat);
    assert(gl_pow(b, 0) == 1);
    assert(b * 1 == b) by (nonlinear_arith);
    assert(gl_pow(b, 1) == (b * 1) % p);
}

/// Multiplication modulo the base-field prime may reduce each factor first.
proof fn lemma_gl_mul_mod_noop(a: int, b: int)
    ensures
        gl_mul(a % (GL_MODULUS as int), b % (GL_MODULUS as int)) == gl_mul(a, b),
        gl_mul(a % (GL_MODULUS as int), b) == gl_mul(a, b),
        gl_mul(a, b % (GL_MODULUS as int)) == gl_mul(a, b),
    decreases 0int,
{
    vstd::arithmetic::div_mod::lemma_mul_mod_noop_general(a, b, GL_MODULUS as int);
}

proof fn lemma_gl_mul_assoc(a: int, b: int, c: int)
    ensures
        gl_mul(gl_mul(a, b), c) == gl_mul(a, gl_mul(b, c)),
{
    let p = GL_MODULUS as int;
    lemma_gl_mul_mod_noop(a * b, c);
    lemma_gl_mul_mod_noop(a, b * c);
    assert((a * b) * c == a * (b * c)) by (nonlinear_arith);
}

/// Splitting an exponent: b^(e1 + e2) = b^e1 * b^e2 in the field.
proof fn lemma_gl_pow_add(b: int, e1: nat, e2: nat)
    ensures
        gl_pow(b, e1 + e2) == gl_mul(gl_pow(b, e1), gl_pow(b, e2)),
    decreases e1,
{
    let p = GL_MODULUS as int;
    if e1 == 0 {
        lemma_gl_mul_mod_noop(1, gl_pow(b, e2));
        assert(1 * gl_pow(b, e2) == gl_pow(b, e2)) by (nonlinear_arith);
        assert(gl_pow(b, e2) % p == gl_pow(b, e2)) by {
            if e2 == 0 {
                vstd::arithmetic::div_mod::lemma_small_mod(1nat, GL_MODULUS as nat);
            } else {
                vstd::arithmetic::div_mod::lemma_mod_twice(
                    b * gl_pow(b, (e2 - 1) as nat), p);
            }
        };
    } else {
        lemma_gl_pow_add(b, (e1 - 1) as nat, e2);
        assert(gl_pow(b, e1 + e2) == gl_mul(b, gl_pow(b, ((e1 - 1) + e2) as nat)));
        lemma_gl_mul_assoc(b, gl_pow(b, (e1 - 1) as nat), gl_pow(b, e2));
    }
}

/// b^(2e) = (b*b)^e in the field.
proof fn lemma_gl_pow_double(b: int, e: nat)
    ensures
        gl_pow(b, 2 * e) == gl_pow(gl_mul(b, b), e),
    decreases e,
{
    if e == 0 {
    } else {
        lemma_gl_pow_double(b, (e - 1) as nat);
        assert(2 * e == 1 + (1 + 2 * ((e - 1) as nat)));
        lemma_gl_pow_add(b, 1nat, (1 + 2 * ((e - 1) as nat)) as nat);
        lemma_gl_pow_add(b, 1nat, (2 * ((e - 1) as nat)) as nat);
        // gl_pow(b, 1) == b % p
        let p = GL_MODULUS as int;
        lemma_gl_mul_mod_noop(b, 1);
        assert(b * 1 == b) by (nonlinear_arith);
        lemma_gl_pow_one(b);
        // now: gl_pow(b, 2e) == gl_mul(gl_pow(b,1), gl_mul(gl_pow(b,1), gl_pow(b, 2(e-1))))
        //                    == gl_mul(gl_mul(b, b), gl_pow(b, 2(e-1)))
        lemma_gl_mul_assoc(gl_pow(b, 1), gl_pow(b, 1), gl_pow(b, 2 * ((e - 1) as nat)));
        assert(gl_pow(b, 1) == b % p);
        lemma_gl_mul_mod_noop(b, b);
        assert(gl_mul(b % p, b % p) == gl_mul(b, b));
        // fold the definition of gl_pow(gl_mul(b,b), e)
        assert(gl_pow(gl_mul(b, b), e) == gl_mul(gl_mul(b, b), gl_pow(gl_mul(b, b), (e - 1) as nat)));
        lemma_gl_mul_mod_noop(b * b, gl_pow(b, 2 * ((e - 1) as nat)));
    }
}

/// One step of square-and-multiply preserves the loop invariant.
proof fn lemma_gl_pow_step(r: int, b: int, e: nat)
    requires
        e > 0,
    ensures
        e % 2 == 1 ==> gl_mul(r, gl_pow(b, e)) == gl_mul(gl_mul(r, b), gl_pow(gl_mul(b, b), (e / 2) as nat)),
        e % 2 == 0 ==> gl_mul(r, gl_pow(b, e)) == gl_mul(r, gl_pow(gl_mul(b, b), (e / 2) as nat)),
{
    let p = GL_MODULUS as int;
    if e % 2 == 1 {
        assert(e == 1 + 2 * (e / 2));
        lemma_gl_pow_add(b, 1nat, (2 * (e / 2)) as nat);
        lemma_gl_pow_double(b, (e / 2) as nat);
        lemma_gl_mul_mod_noop(b, 1);
        assert(b * 1 == b) by (nonlinear_arith);
        lemma_gl_pow_one(b);
        assert(gl_pow(b, 1) == b % p);
        lemma_gl_mul_assoc(r, gl_pow(b, 1), gl_pow(gl_mul(b, b), (e / 2) as nat));
        // gl_mul(r, gl_pow(b,1)) == gl_mul(r, b)
        lemma_gl_mul_mod_noop(r, b);
    } else {
        assert(e == 2 * (e / 2));
        lemma_gl_pow_double(b, (e / 2) as nat);
    }
}

/// Squaring a base value `k` times, in the field.
pub open spec fn spec_square_iter(b: int, k: nat) -> int
    decreases k,
{
    if k == 0 {
        b
    } else {
        let prev = spec_square_iter(b, (k - 1) as nat);
        gl_mul(prev, prev)
    }
}

/// The generator of the multiplicative subgroup of order 2^k: the radix-2
/// subgroup generator squared (32 - k) times.
pub open spec fn spec_domain_generator(size_log2: nat) -> int {
    spec_square_iter(
        (GL_RADIX_2_SUBGROUP_GENERATOR as int) % (GL_MODULUS as int),
        (32 - size_log2) as nat,
    )
}

/// The generator of the multiplicative subgroup of order 2^size_log2.
pub fn domain_generator_for_size_log2(size_log2: u64) -> (r: GoldilocksElement)
    requires
        size_log2 <= 32,
    ensures
        r.value == spec_domain_generator(size_log2 as nat),
        r.valid(),
{
    let mut omega = GoldilocksElement { value: GL_RADIX_2_SUBGROUP_GENERATOR % GL_MODULUS };
    let mut count: u64 = 32 - size_log2;
    while count > 0
        invariant
            omega.valid(),
            count <= 32 - size_log2,
            spec_square_iter(
                (GL_RADIX_2_SUBGROUP_GENERATOR as int) % (GL_MODULUS as int),
                (32 - size_log2 - count) as nat,
            ) == omega.value as int,
        decreases count,
    {
        omega = omega.mul(omega);
        count = count - 1;
    }
    omega
}

} // verus!
