//! A prime field of u64 residues: the value domain of the constraint system.
//!
//! Every witness, constant and public value is a residue modulo `MODULUS`,
//! and gate polynomials are evaluated with the exact modular arithmetic
//! defined here.

use vstd::arithmetic::div_mod::{lemma_mod_self_0, lemma_mod_sub_multiples_vanish, lemma_small_mod};
use vstd::prelude::*;

verus! {

/// The field's prime modulus, 2^64 - 2^32 + 1.
pub const MODULUS: u64 = 0xffff_ffff_0000_0001;

/// The field's order as a mathematical integer.
pub open spec fn field_order() -> nat {
    MODULUS as nat
}

/// Field addition on residues.
pub open spec fn add_f(a: nat, b: nat) -> nat {
    (a + b) % field_order()
}

/// Field subtraction on residues below the modulus.
pub open spec fn sub_f(a: nat, b: nat) -> nat {
    (((a + field_order()) - b) % (field_order() as int)) as nat
}

/// Field multiplication on residues.
pub open spec fn mul_f(a: nat, b: nat) -> nat {
    (a * b) % field_order()
}

/// A field element: a residue in `[0, MODULUS)`.
#[derive(Clone, Copy, Debug, PartialEq, Eq, Structural)]
pub struct Felt {
    pub v: u64,
}

impl View for Felt {
    type V = nat;

    open spec fn view(&self) -> nat {
        self.v as nat
    }
}

impl Felt {
    /// A field element is valid when its representative is reduced.
    pub open spec fn inv(self) -> bool {
        self.v < MODULUS
    }

    /// The residue of an arbitrary machine integer.
    pub fn new(x: u64) -> (r: Felt)
        ensures
            r.inv(),
            r@ == (x as nat) % field_order(),
    {
        Felt { v: x % MODULUS }
    }

    /// The additive identity.
    pub fn zero() -> (r: Felt)
        ensures
            r.inv(),
            r@ == 0,
    {
        Felt { v: 0 }
    }

    /// The multiplicative identity.
    pub fn one() -> (r: Felt)
        ensures
            r.inv(),
            r@ == 1,
    {
        Felt { v: 1 }
    }

    /// The reduced representative.
    pub fn value(self) -> (r: u64)
        ensures
            r as nat == self@,
    {
        self.v
    }

    /// Field addition.
    pub fn add(self, other: Felt) -> (r: Felt)
        requires
            self.inv(),
            other.inv(),
        ensures
            r.inv(),
            r@ == add_f(self@, other@),
    {
        let s: u128 = self.v as u128 + other.v as u128;
        let r: u128 = s % (MODULUS as u128);
        Felt { v: r as u64 }
    }

    /// Field subtraction.
    pub fn sub(self, other: Felt) -> (r: Felt)
        requires
            self.inv(),
            other.inv(),
        ensures
            r.inv(),
            r@ == sub_f(self@, other@),
    {
        let s: u128 = self.v as u128 + (MODULUS as u128 - other.v as u128);
        let r: u128 = s % (MODULUS as u128);
        Felt { v: r as u64 }
    }

    /// Field multiplication.
    pub fn mul(self, other: Felt) -> (r: Felt)
        requires
            self.inv(),
            other.inv(),
        ensures
            r.inv(),
            r@ == mul_f(self@, other@),
    {
        let a: u128 = self.v as u128;
        let b: u128 = other.v as u128;
        proof {
            assert(a * b <= 0xffff_ffff_ffff_ffffu128 * 0xffff_ffff_ffff_ffffu128)
                by (nonlinear_arith)
                requires
                    a <= 0xffff_ffff_ffff_ffffu128,
                    b <= 0xffff_ffff_ffff_ffffu128,
            ;
        }
        let p: u128 = a * b;
        let r: u128 = p % (MODULUS as u128);
        Felt { v: r as u64 }
    }
}

/// A field difference is zero exactly when the two residues are equal.
pub proof fn lemma_sub_f_zero(a: nat, b: nat)
    requires
        a < field_order(),
        b < field_order(),
    ensures
        sub_f(a, b) == 0 <==> a == b,
{
    let m = field_order() as int;
    let d = (a + field_order()) as int - b;
    if a == b {
        assert(d == m);
        lemma_mod_self_0(m);
    } else if a < b {
        assert(0 < d < m);
        lemma_small_mod(d as nat, m as nat);
    } else {
        assert(m < d < 2 * m);
        lemma_mod_sub_multiples_vanish(d, m);
        lemma_small_mod((d - m) as nat, m as nat);
    }
}

/// Field products stay below the modulus.
pub proof fn lemma_mul_f_bound(a: nat, b: nat)
    ensures
        mul_f(a, b) < field_order(),
{
}

} // verus!
