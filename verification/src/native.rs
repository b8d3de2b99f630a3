use vstd::prelude::*;

verus! {

/// 2^64, the radix of the limb representation.
pub open spec fn limb_radix() -> int {
    0x1_0000_0000_0000_0000int
}

/// The modulus of the native field the verifying circuit works over: the
/// scalar field of the BN254 pairing curve.
pub open spec fn native_modulus() -> int {
    0x30644e72e131a029b85045b68181585d2833e84879b9709143e1f593f0000001int
}

/// A value of the native field, held as four 64-bit limbs, least significant
/// first, and kept reduced below the native modulus.
#[derive(Clone, Copy, PartialEq, Eq, Structural, Debug)]
pub struct NativeOutput {
    pub l0: u64,
    pub l1: u64,
    pub l2: u64,
    pub l3: u64,
}

impl NativeOutput {
    /// The integer this element represents.
    pub open spec fn value(self) -> int {
        self.l0 as int
            + self.l1 as int * limb_radix()
            + self.l2 as int * limb_radix() * limb_radix()
            + self.l3 as int * limb_radix() * limb_radix() * limb_radix()
    }

    pub open spec fn valid(self) -> bool {
        self.value() < native_modulus()
    }

    pub fn zero() -> (r: Self)
        ensures
            r.value() == 0,
            r.valid(),
    {
        NativeOutput { l0: 0, l1: 0, l2: 0, l3: 0 }
    }

    /// Embeds one machine word as a native-field value.
    pub fn from_u64(x: u64) -> (r: Self)
        ensures
            r.value() == x as int,
            r.valid(),
            r.l0 == x && r.l1 == 0 && r.l2 == 0 && r.l3 == 0,
    {
        proof {
            lemma_value_bound_by_limbs(x, 0, 0, 0);
        }
        NativeOutput { l0: x, l1: 0, l2: 0, l3: 0 }
    }

    /// Reads the limb at a packing position.
    pub fn limb(&self, idx: usize) -> (r: u64)
        requires
            idx < 4,
        ensures
            r == spec_limb(*self, idx as int),
    {
        match idx {
            0 => self.l0,
            1 => self.l1,
            2 => self.l2,
            _ => self.l3,
        }
    }

    /// Writes a word into an empty limb position below the top limb; because
    /// the position was empty, this adds x * 2^(64 * idx) to the value, and the
    /// result stays below 2^192, hence below the native modulus.
    pub fn with_limb(self, idx: usize, x: u64) -> (r: Self)
        requires
            idx < 3,
            spec_limb(self, idx as int) == 0,
            self.l3 == 0,
        ensures
            r.value() == self.value() + x as int * spec_limb_weight(idx as int),
            r.valid(),
            r.l3 == 0,
            forall|j: int| 0 <= j < 4 && j != idx ==> spec_limb(r, j) == spec_limb(self, j),
    {
        let r = if idx == 0 {
            NativeOutput { l0: x, ..self }
        } else if idx == 1 {
            NativeOutput { l1: x, ..self }
        } else {
            NativeOutput { l2: x, ..self }
        };
        proof {
            lemma_value_bound_by_limbs(r.l0, r.l1, r.l2, r.l3);
            let w = limb_radix();
            if idx == 0 {
                assert(x as int * spec_limb_weight(0) == x as int) by (nonlinear_arith);
            } else if idx == 1 {
                assert(r.value() - self.value() == x as int * spec_limb_weight(1)) by (nonlinear_arith)
                    requires
                        r.value() == self.value() - self.l1 as int * w + x as int * w
                        && self.l1 == 0 && w == limb_radix()
                        && spec_limb_weight(1) == w;
            } else {
                assert(r.value() - self.value() == x as int * spec_limb_weight(2)) by (nonlinear_arith)
                    requires
                        r.value() == self.value() - self.l2 as int * w * w + x as int * w * w
                        && self.l2 == 0 && w == limb_radix()
                        && spec_limb_weight(2) == w * w;
            }
        }
        r
    }
}

/// The limb at a position, as a spec-level selector.
pub open spec fn spec_limb(n: NativeOutput, idx: int) -> int {
    if idx == 0 {
        n.l0 as int
    } else if idx == 1 {
        n.l1 as int
    } else if idx == 2 {
        n.l2 as int
    } else {
        n.l3 as int
    }
}

/// The positional weight 2^(64 * idx) of a limb.
pub open spec fn spec_limb_weight(idx: int) -> int {
    if idx == 0 {
        1
    } else if idx == 1 {
        limb_radix()
    } else if idx == 2 {
        limb_radix() * limb_radix()
    } else {
        limb_radix() * limb_radix() * limb_radix()
    }
}

/// Any element whose top limb is zero stays below 2^192 and so below the
/// native modulus.
proof fn lemma_value_bound_by_limbs(l0: u64, l1: u64, l2: u64, l3: u64)
    requires
        l3 == 0,
    ensures
        (NativeOutput { l0, l1, l2, l3 }).value() < native_modulus(),
        (NativeOutput { l0, l1, l2, l3 }).value() >= 0,
{
    let n = NativeOutput { l0, l1, l2, l3 };
    assert(n.value() < limb_radix() * limb_radix() * limb_radix()) by (nonlinear_arith)
        requires
            n.l0 < limb_radix() && n.l1 < limb_radix() && n.l2 < limb_radix() && n.l3 == 0
            && n.value() == n.l0 as int + n.l1 as int * limb_radix()
                + n.l2 as int * limb_radix() * limb_radix()
                + n.l3 as int * limb_radix() * limb_radix() * limb_radix();
}

/// The limbs of a native value are its base-2^64 digits.
pub proof fn lemma_limbs_are_digits(n: NativeOutput)
    ensures
        spec_limb(n, 0) == n.value() % limb_radix(),
        spec_limb(n, 1) == (n.value() / limb_radix()) % limb_radix(),
        spec_limb(n, 2) == (n.value() / (limb_radix() * limb_radix())) % limb_radix(),
{
    let b = limb_radix();
    let v = n.value();
    let h1 = n.l1 as int + n.l2 as int * b + n.l3 as int * b * b;
    let h2 = n.l2 as int + n.l3 as int * b;
    assert(v == n.l0 as int + b * h1) by (nonlinear_arith)
        requires
            v == n.l0 as int + n.l1 as int * b + n.l2 as int * b * b
                + n.l3 as int * b * b * b
            && h1 == n.l1 as int + n.l2 as int * b + n.l3 as int * b * b
            && b == limb_radix();
    vstd::arithmetic::div_mod::lemma_fundamental_div_mod_converse(
        v, b, h1, n.l0 as int);
    assert(spec_limb(n, 0) == v % b);
    assert(v / b == h1);
    assert(h1 == n.l1 as int + b * h2) by (nonlinear_arith)
        requires
            h1 == n.l1 as int + n.l2 as int * b + n.l3 as int * b * b
            && h2 == n.l2 as int + n.l3 as int * b && b == limb_radix();
    vstd::arithmetic::div_mod::lemma_fundamental_div_mod_converse(
        h1, b, h2, n.l1 as int);
    assert(spec_limb(n, 1) == (v / b) % b);
    assert(h1 / b == h2);
    vstd::arithmetic::div_mod::lemma_fundamental_div_mod_converse(
        h2, b, n.l3 as int, n.l2 as int);
    assert(h2 % b == n.l2 as int);
    assert(v / (b * b) == h2) by {
        vstd::arithmetic::div_mod::lemma_div_denominator(v, b, b);
    };
}

/// Equal values have equal limbs: the digit decomposition is unique.
pub proof fn lemma_value_injective(a: NativeOutput, b: NativeOutput)
    requires
        a.value() == b.value(),
    ensures
        a == b,
{
    lemma_limbs_are_digits(a);
    lemma_limbs_are_digits(b);
    let r = limb_radix();
    assert(a.l3 as int * (r * r * r) == a.value() - a.l0 as int - a.l1 as int * r - a.l2 as int * r * r)
        by (nonlinear_arith)
        requires
            a.value() == a.l0 as int + a.l1 as int * r + a.l2 as int * r * r
                + a.l3 as int * r * r * r && r == limb_radix();
    assert(b.l3 as int * (r * r * r) == b.value() - b.l0 as int - b.l1 as int * r - b.l2 as int * r * r)
        by (nonlinear_arith)
        requires
            b.value() == b.l0 as int + b.l1 as int * r + b.l2 as int * r * r
                + b.l3 as int * r * r * r && r == limb_radix();
    assert(a.l3 as int * (r * r * r) == b.l3 as int * (r * r * r));
    assert(a.l3 == b.l3) by (nonlinear_arith)
        requires
            a.l3 as int * (r * r * r) == b.l3 as int * (r * r * r) && r == limb_radix();
}

} // verus!
