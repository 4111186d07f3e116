//! Field elements as the recorder sees them, and a small prime field.

use vstd::prelude::*;

verus! {

/// An element of the scalar field. The recorder needs the two identities,
/// sums, products, and the tests for zero and one; every executable method
/// computes what its mathematical counterpart names.
pub trait Scalar: Sized + Copy {
    /// The additive identity.
    spec fn zero_spec() -> Self;

    /// The multiplicative identity.
    spec fn one_spec() -> Self;

    /// The sum of two elements.
    spec fn sum_spec(self, rhs: Self) -> Self;

    /// The product of two elements.
    spec fn product_spec(self, rhs: Self) -> Self;

    /// Whether the element is the additive identity.
    spec fn is_zero_spec(self) -> bool;

    /// Whether the element is the multiplicative identity.
    spec fn is_one_spec(self) -> bool;

    /// The identities are recognised by the two tests.
    proof fn lemma_identities()
        ensures
            Self::zero_spec().is_zero_spec(),
            Self::one_spec().is_one_spec(),
            !Self::one_spec().is_zero_spec(),
    ;

    fn zero() -> (r: Self)
        ensures
            r == Self::zero_spec(),
    ;

    fn one() -> (r: Self)
        ensures
            r == Self::one_spec(),
    ;

    fn plus(&self, rhs: &Self) -> (r: Self)
        ensures
            r == self.sum_spec(*rhs),
    ;

    fn times(&self, rhs: &Self) -> (r: Self)
        ensures
            r == self.product_spec(*rhs),
    ;

    fn is_zero(&self) -> (r: bool)
        ensures
            r == self.is_zero_spec(),
    ;

    fn is_one(&self) -> (r: bool)
        ensures
            r == self.is_one_spec(),
    ;
}

/// The modulus of [`Fp`]: the Mersenne prime `2^31 - 1`.
pub const MODULUS: u64 = 2147483647;

/// An element of the integers modulo [`MODULUS`]. Every operation works on
/// the residue of `value` and returns a reduced element.
#[derive(Clone, Copy, Debug, PartialEq, Eq)]
pub struct Fp {
    pub value: u64,
}

impl Fp {
    /// The residue that this element stands for.
    pub open spec fn residue(self) -> int {
        self.value as int % MODULUS as int
    }

    /// The element with the residue of `value`.
    pub fn new(value: u64) -> (r: Fp)
        ensures
            r.value == value % MODULUS,
            r.residue() == value as int % MODULUS as int,
    {
        Fp { value: value % MODULUS }
    }

    /// The residue, in `0..MODULUS`.
    pub fn to_u64(&self) -> (r: u64)
        ensures
            r == self.residue(),
            r < MODULUS,
    {
        self.value % MODULUS
    }
}

impl Scalar for Fp {
    open spec fn zero_spec() -> Fp {
        Fp { value: 0 }
    }

    open spec fn one_spec() -> Fp {
        Fp { value: 1 }
    }

    open spec fn sum_spec(self, rhs: Fp) -> Fp {
        Fp { value: ((self.residue() + rhs.residue()) % MODULUS as int) as u64 }
    }

    open spec fn product_spec(self, rhs: Fp) -> Fp {
        Fp { value: ((self.residue() * rhs.residue()) % MODULUS as int) as u64 }
    }

    open spec fn is_zero_spec(self) -> bool {
        self.residue() == 0
    }

    open spec fn is_one_spec(self) -> bool {
        self.residue() == 1
    }

    proof fn lemma_identities() {
    }

    fn zero() -> (r: Fp) {
        Fp { value: 0 }
    }

    fn one() -> (r: Fp) {
        Fp { value: 1 }
    }

    fn plus(&self, rhs: &Fp) -> (r: Fp) {
        let x: u64 = self.value % MODULUS;
        let y: u64 = rhs.value % MODULUS;
        Fp { value: (x + y) % MODULUS }
    }

    fn times(&self, rhs: &Fp) -> (r: Fp) {
        let x: u64 = self.value % MODULUS;
        let y: u64 = rhs.value % MODULUS;
        assert(x * y <= 2147483646 * 2147483646) by (nonlinear_arith)
            requires
                x <= 2147483646,
                y <= 2147483646,
        ;
        Fp { value: (x * y) % MODULUS }
    }

    fn is_zero(&self) -> (r: bool) {
        self.value % MODULUS == 0
    }

    fn is_one(&self) -> (r: bool) {
        self.value % MODULUS == 1
    }
}

} // verus!
