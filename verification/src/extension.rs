use vstd::prelude::*;
use crate::field::{GoldilocksElement, GL_MODULUS, gl_add, gl_sub, gl_mul, gl_pow};

verus! {

/// The degree-2 extension is built with x^2 = 7: the non-residue matches the
/// base field's multiplicative generator.
pub const EXT_NON_RESIDUE: u64 = 7;

pub open spec fn ext_add(a: (int, int), b: (int, int)) -> (int, int) {
    (gl_add(a.0, b.0), gl_add(a.1, b.1))
}

pub open spec fn ext_sub(a: (int, int), b: (int, int)) -> (int, int) {
    (gl_sub(a.0, b.0), gl_sub(a.1, b.1))
}

/// (a0 + a1 x)(b0 + b1 x) with x^2 = 7.
pub open spec fn ext_mul(a: (int, int), b: (int, int)) -> (int, int) {
    (
        gl_add(gl_mul(a.0, b.0), gl_mul(EXT_NON_RESIDUE as int, gl_mul(a.1, b.1))),
        gl_add(gl_mul(a.0, b.1), gl_mul(a.1, b.0)),
    )
}

pub open spec fn ext_mul_by_base(a: (int, int), c: int) -> (int, int) {
    (gl_mul(a.0, c), gl_mul(a.1, c))
}

/// The inverse through the norm map: 1/(a0 + a1 x) = (a0 - a1 x) / (a0^2 - 7 a1^2),
/// with the base-field inverse taken as the power p - 2.
pub open spec fn ext_inverse(a: (int, int)) -> (int, int) {
    let norm = gl_sub(gl_mul(a.0, a.0), gl_mul(EXT_NON_RESIDUE as int, gl_mul(a.1, a.1)));
    let inv_norm = gl_pow(norm, (GL_MODULUS - 2) as nat);
    (gl_mul(a.0, inv_norm), gl_mul(gl_sub(0, a.1), inv_norm))
}

/// An element of the degree-2 extension of the base field.
#[derive(Clone, Copy, PartialEq, Eq, Structural, Debug)]
pub struct GoldilocksExtElement {
    pub c0: GoldilocksElement,
    pub c1: GoldilocksElement,
}

impl GoldilocksExtElement {
    pub open spec fn valid(self) -> bool {
        self.c0.valid() && self.c1.valid()
    }

    /// The pair of coefficient values, lowest degree first.
    pub open spec fn spec_coeffs(self) -> (int, int) {
        (self.c0.value as int, self.c1.value as int)
    }

    pub fn zero() -> (r: Self)
        ensures
            r.spec_coeffs() == (0int, 0int),
            r.valid(),
    {
        GoldilocksExtElement { c0: GoldilocksElement::zero(), c1: GoldilocksElement::zero() }
    }

    pub fn one() -> (r: Self)
        ensures
            r.spec_coeffs() == (1int, 0int),
            r.valid(),
    {
        GoldilocksExtElement { c0: GoldilocksElement::one(), c1: GoldilocksElement::zero() }
    }

    /// Builds an extension element from its two base-field coefficients.
    pub fn from_coeffs_in_base(c0: GoldilocksElement, c1: GoldilocksElement) -> (r: Self)
        requires
            c0.valid(),
            c1.valid(),
        ensures
            r.spec_coeffs() == (c0.value as int, c1.value as int),
            r.valid(),
    {
        GoldilocksExtElement { c0, c1 }
    }

    /// Embeds a base-field element as the constant coefficient.
    pub fn from_base(c0: GoldilocksElement) -> (r: Self)
        requires
            c0.valid(),
        ensures
            r.spec_coeffs() == (c0.value as int, 0int),
            r.valid(),
    {
        GoldilocksExtElement { c0, c1: GoldilocksElement::zero() }
    }

    pub fn add(self, other: Self) -> (r: Self)
        requires
            self.valid(),
            other.valid(),
        ensures
            r.spec_coeffs() == ext_add(self.spec_coeffs(), other.spec_coeffs()),
            r.valid(),
    {
        GoldilocksExtElement { c0: self.c0.add(other.c0), c1: self.c1.add(other.c1) }
    }

    pub fn sub(self, other: Self) -> (r: Self)
        requires
            self.valid(),
            other.valid(),
        ensures
            r.spec_coeffs() == ext_sub(self.spec_coeffs(), other.spec_coeffs()),
            r.valid(),
    {
        GoldilocksExtElement { c0: self.c0.sub(other.c0), c1: self.c1.sub(other.c1) }
    }

    pub fn mul(self, other: Self) -> (r: Self)
        requires
            self.valid(),
            other.valid(),
        ensures
            r.spec_coeffs() == ext_mul(self.spec_coeffs(), other.spec_coeffs()),
            r.valid(),
    {
        let non_residue = GoldilocksElement { value: EXT_NON_RESIDUE };
        let r0 = self.c0.mul(other.c0).add(non_residue.mul(self.c1.mul(other.c1)));
        let r1 = self.c0.mul(other.c1).add(self.c1.mul(other.c0));
        GoldilocksExtElement { c0: r0, c1: r1 }
    }

    pub fn square(self) -> (r: Self)
        requires
            self.valid(),
        ensures
            r.spec_coeffs() == ext_mul(self.spec_coeffs(), self.spec_coeffs()),
            r.valid(),
    {
        self.mul(self)
    }

    pub fn mul_by_base(self, c: GoldilocksElement) -> (r: Self)
        requires
            self.valid(),
            c.valid(),
        ensures
            r.spec_coeffs() == ext_mul_by_base(self.spec_coeffs(), c.value as int),
            r.valid(),
    {
        GoldilocksExtElement { c0: self.c0.mul(c), c1: self.c1.mul(c) }
    }

    /// The inverse through the norm map; a zero input gives zero.
    pub fn inverse(self) -> (r: Self)
        requires
            self.valid(),
        ensures
            r.spec_coeffs() == ext_inverse(self.spec_coeffs()),
            r.valid(),
    {
        let non_residue = GoldilocksElement { value: EXT_NON_RESIDUE };
        let norm = self.c0.mul(self.c0).sub(non_residue.mul(self.c1.mul(self.c1)));
        let inv_norm = norm.inverse();
        let neg_c1 = GoldilocksElement::zero().sub(self.c1);
        GoldilocksExtElement { c0: self.c0.mul(inv_norm), c1: neg_c1.mul(inv_norm) }
    }
}

} // verus!
