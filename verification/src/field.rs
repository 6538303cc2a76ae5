//! A concrete small prime field used as the circuit's value domain.
//!
//! Elements are residues modulo `FIELD_ORDER`, a Fermat prime, so every
//! nonzero element has a multiplicative inverse.

use vstd::prelude::*;
use vstd::arithmetic::div_mod::{lemma_mul_mod_noop_general, lemma_add_mod_noop};

verus! {

/// The order of the field; 65537 = 2^16 + 1 is prime.
pub const FIELD_ORDER: u64 = 65537;

/// A field element, held as its canonical residue.
#[derive(Copy, Clone, PartialEq, Eq, Structural, Debug)]
pub struct Fp {
    pub v: u64,
}

/// A field element is well formed when it is a canonical residue.
pub open spec fn fp_wf(a: Fp) -> bool {
    a.v < FIELD_ORDER
}

pub open spec fn fp_zero() -> Fp {
    Fp { v: 0 }
}

pub open spec fn fp_one() -> Fp {
    Fp { v: 1 }
}

pub open spec fn fp_two() -> Fp {
    Fp { v: 2 }
}

pub open spec fn fp_neg_one() -> Fp {
    Fp { v: (FIELD_ORDER - 1) as u64 }
}

pub open spec fn fp_add(a: Fp, b: Fp) -> Fp {
    Fp { v: (((a.v + b.v) as int % (FIELD_ORDER as int)) as u64) }
}

pub open spec fn fp_sub(a: Fp, b: Fp) -> Fp {
    Fp { v: (((a.v + FIELD_ORDER - b.v) as int % (FIELD_ORDER as int)) as u64) }
}

pub open spec fn fp_mul(a: Fp, b: Fp) -> Fp {
    Fp { v: (((a.v * b.v) as int % (FIELD_ORDER as int)) as u64) }
}

pub open spec fn fp_square(a: Fp) -> Fp {
    fp_mul(a, a)
}

/// The multiplicative inverse, as the (unique, for nonzero arguments)
/// witness of `a * b == 1`.
pub open spec fn fp_inv(a: Fp) -> Fp {
    choose|b: Fp| fp_wf(b) && fp_mul(a, b) == fp_one()
}

pub open spec fn fp_from_u64(x: u64) -> Fp {
    Fp { v: (((x as int) % (FIELD_ORDER as int)) as u64) }
}

impl Fp {
    /// Embeds an integer by reducing it to its canonical residue.
    pub fn from_u64(x: u64) -> (r: Fp)
        ensures
            r == fp_from_u64(x),
            fp_wf(r),
    {
        Fp { v: x % FIELD_ORDER }
    }

    /// Embeds a machine-sized integer by reducing it to its canonical residue.
    pub fn from_canonical_usize(x: usize) -> (r: Fp)
        ensures
            r == fp_from_u64(x as u64),
            fp_wf(r),
    {
        Fp::from_u64(x as u64)
    }

    pub fn zero() -> (r: Fp)
        ensures
            r == fp_zero(),
            fp_wf(r),
    {
        Fp { v: 0 }
    }

    pub fn one() -> (r: Fp)
        ensures
            r == fp_one(),
            fp_wf(r),
    {
        Fp { v: 1 }
    }

    pub fn two() -> (r: Fp)
        ensures
            r == fp_two(),
            fp_wf(r),
    {
        Fp { v: 2 }
    }

    pub fn neg_one() -> (r: Fp)
        ensures
            r == fp_neg_one(),
            fp_wf(r),
    {
        Fp { v: FIELD_ORDER - 1 }
    }

    pub fn add(self, other: Fp) -> (r: Fp)
        requires
            fp_wf(self),
            fp_wf(other),
        ensures
            r == fp_add(self, other),
            fp_wf(r),
    {
        Fp { v: (self.v + other.v) % FIELD_ORDER }
    }

    pub fn sub(self, other: Fp) -> (r: Fp)
        requires
            fp_wf(self),
            fp_wf(other),
        ensures
            r == fp_sub(self, other),
            fp_wf(r),
    {
        Fp { v: (self.v + FIELD_ORDER - other.v) % FIELD_ORDER }
    }

    pub fn mul(self, other: Fp) -> (r: Fp)
        requires
            fp_wf(self),
            fp_wf(other),
        ensures
            r == fp_mul(self, other),
            fp_wf(r),
    {
        assert(self.v * other.v <= 65536u64 * 65536u64) by (nonlinear_arith)
            requires
                self.v <= 65536u64,
                other.v <= 65536u64,
        ;
        Fp { v: (self.v * other.v) % FIELD_ORDER }
    }

    /// Searches for the multiplicative inverse.
    ///
    /// Returns `None` exactly when no canonical residue multiplies with
    /// `self` to one; in particular `None` for the additive identity.
    pub fn inv(self) -> (r: Option<Fp>)
        requires
            fp_wf(self),
        ensures
            match r {
                Some(b) => fp_wf(b) && fp_mul(self, b) == fp_one(),
                None => forall|b: Fp| fp_wf(b) ==> fp_mul(self, b) != fp_one(),
            },
    {
        let mut y: u64 = 0;
        while y < FIELD_ORDER
            invariant
                y <= FIELD_ORDER,
                fp_wf(self),
                forall|b: Fp| fp_wf(b) && b.v < y ==> fp_mul(self, b) != fp_one(),
            decreases FIELD_ORDER - y,
        {
            assert(self.v * y <= 65536u64 * 65536u64) by (nonlinear_arith)
                requires
                    self.v <= 65536u64,
                    y <= 65536u64,
            ;
            if (self.v * y) % FIELD_ORDER == 1 {
                return Some(Fp { v: y });
            }
            assert(forall|b: Fp| fp_wf(b) && b.v < y + 1 ==> fp_mul(self, b) != fp_one());
            y = y + 1;
        }
        None
    }
}

pub proof fn lemma_fp_mul_comm(a: Fp, b: Fp)
    ensures
        fp_mul(a, b) == fp_mul(b, a),
{
    assert(a.v * b.v == b.v * a.v) by (nonlinear_arith);
}

pub proof fn lemma_fp_mul_assoc(a: Fp, b: Fp, c: Fp)
    ensures
        fp_mul(fp_mul(a, b), c) == fp_mul(a, fp_mul(b, c)),
{
    let m = FIELD_ORDER as int;
    lemma_mul_mod_noop_general(a.v as int * b.v as int, c.v as int, m);
    lemma_mul_mod_noop_general(a.v as int, b.v as int * c.v as int, m);
    assert((a.v as int * b.v as int) * (c.v as int) == (a.v as int) * (b.v as int * c.v as int))
        by (nonlinear_arith);
}

#[verifier::rlimit(50)]
pub proof fn lemma_fp_add_assoc(a: Fp, b: Fp, c: Fp)
    ensures
        fp_add(fp_add(a, b), c) == fp_add(a, fp_add(b, c)),
{
    let m = FIELD_ORDER as int;
    lemma_add_mod_noop((a.v + b.v) as int, c.v as int, m);
    lemma_add_mod_noop(a.v as int, (b.v + c.v) as int, m);
    lemma_add_mod_noop(a.v as int, b.v as int, m);
    lemma_add_mod_noop(b.v as int, c.v as int, m);
}

pub proof fn lemma_fp_mul_zero(a: Fp)
    ensures
        fp_mul(a, fp_zero()) == fp_zero(),
        fp_mul(fp_zero(), a) == fp_zero(),
{
    assert(a.v * 0 == 0) by (nonlinear_arith);
    assert(0 * a.v == 0) by (nonlinear_arith);
}

pub proof fn lemma_fp_mul_one(a: Fp)
    requires
        fp_wf(a),
    ensures
        fp_mul(a, fp_one()) == a,
        fp_mul(fp_one(), a) == a,
{
}

pub proof fn lemma_fp_add_zero(a: Fp)
    requires
        fp_wf(a),
    ensures
        fp_add(a, fp_zero()) == a,
        fp_add(fp_zero(), a) == a,
{
}

pub proof fn lemma_fp_distrib(a: Fp, b: Fp, c: Fp)
    ensures
        fp_mul(fp_add(a, b), c) == fp_add(fp_mul(a, c), fp_mul(b, c)),
{
    let m = FIELD_ORDER as int;
    lemma_mul_mod_noop_general((a.v + b.v) as int, c.v as int, m);
    lemma_add_mod_noop(a.v as int * c.v as int, b.v as int * c.v as int, m);
    assert((a.v + b.v) * (c.v as int) == a.v * c.v + b.v * c.v) by (nonlinear_arith);
}

/// In a field the inverse is unique: two residues that both multiply with
/// `a` to one are the same residue.
pub proof fn lemma_fp_inv_unique(a: Fp, b: Fp, c: Fp)
    requires
        fp_wf(b),
        fp_wf(c),
        fp_mul(a, b) == fp_one(),
        fp_mul(a, c) == fp_one(),
    ensures
        b == c,
{
    lemma_fp_mul_one(b);
    lemma_fp_mul_comm(a, c);
    lemma_fp_mul_assoc(b, a, c);
    lemma_fp_mul_comm(b, a);
    lemma_fp_mul_one(c);
    assert(b == fp_mul(b, fp_mul(a, c)));
    assert(fp_mul(b, fp_mul(a, c)) == fp_mul(fp_mul(b, a), c));
    assert(fp_mul(fp_mul(b, a), c) == fp_mul(fp_one(), c));
}

/// Any witness of `a * b == 1` is the element `fp_inv(a)` names.
pub proof fn lemma_fp_inv_is(a: Fp, b: Fp)
    requires
        fp_wf(b),
        fp_mul(a, b) == fp_one(),
    ensures
        fp_inv(a) == b,
{
    let w = choose|x: Fp| fp_wf(x) && fp_mul(a, x) == fp_one();
    assert(fp_wf(b) && fp_mul(a, b) == fp_one());
    lemma_fp_inv_unique(a, w, b);
}

} // verus!
