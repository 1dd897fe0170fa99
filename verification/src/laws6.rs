//! The field laws of the sextic extension model `Fp6V`, stated over the
//! same specification functions that the executable operations' contracts
//! use.

use crate::fq3::{add3, mul3, mulnr3, one3, reduced3, zero3, Fp3V};
use crate::fq6::{add6, mul6, one6, reduced6, sub6, zero6, Fp6V};
use crate::laws3::{
    lemma_add3_assoc, lemma_add3_comm, lemma_add3_regroup, lemma_add3_zero, lemma_mul3_assoc,
    lemma_mul3_comm, lemma_mul3_distrib, lemma_mul3_distribr, lemma_mul3_one, lemma_mul3_reduced,
    lemma_mul3_zero, lemma_mulnr3_add, lemma_mulnr3_left, lemma_mulnr3_right, lemma_sub3_self,
};
use vstd::prelude::*;

verus! {

/// Addition is associative: `x + (y + z) == (x + y) + z`.
pub proof fn lemma_add6_assoc(p: nat, x: Fp6V, y: Fp6V, z: Fp6V)
    requires
        p > 0,
    ensures
        add6(p, add6(p, x, y), z) == add6(p, x, add6(p, y, z)),
{
    lemma_add3_assoc(p, x.c0, y.c0, z.c0);
    lemma_add3_assoc(p, x.c1, y.c1, z.c1);
}

/// Addition is commutative.
pub proof fn lemma_add6_comm(p: nat, x: Fp6V, y: Fp6V)
    ensures
        add6(p, x, y) == add6(p, y, x),
{
    lemma_add3_comm(p, x.c0, y.c0);
    lemma_add3_comm(p, x.c1, y.c1);
}

/// Zero is the additive identity: `x + 0 == x`.
pub proof fn lemma_add6_zero(p: nat, x: Fp6V)
    requires
        p > 0,
        reduced6(p, x),
    ensures
        add6(p, x, zero6()) == x,
{
    lemma_add3_zero(p, x.c0);
    lemma_add3_zero(p, x.c1);
}

/// An element minus itself is zero: `x - x == 0`.
pub proof fn lemma_sub6_self(p: nat, x: Fp6V)
    requires
        p > 0,
        reduced6(p, x),
    ensures
        sub6(p, x, x) == zero6(),
{
    lemma_sub3_self(p, x.c0);
    lemma_sub3_self(p, x.c1);
}

/// Multiplication is commutative.
pub proof fn lemma_mul6_comm(p: nat, al: nat, x: Fp6V, y: Fp6V)
    requires
        p > 0,
    ensures
        mul6(p, al, x, y) == mul6(p, al, y, x),
{
    lemma_mul3_comm(p, al, x.c0, y.c0);
    lemma_mul3_comm(p, al, x.c1, y.c1);
    lemma_mul3_comm(p, al, x.c0, y.c1);
    lemma_mul3_comm(p, al, x.c1, y.c0);
    lemma_add3_comm(p, mul3(p, al, x.c0, y.c1), mul3(p, al, x.c1, y.c0));
}

/// One is the multiplicative identity: `x * 1 == x`.
pub proof fn lemma_mul6_one(p: nat, al: nat, x: Fp6V)
    requires
        p > 0,
        reduced6(p, x),
    ensures
        mul6(p, al, x, one6()) == x,
        mul6(p, al, one6(), x) == x,
{
    lemma_mul3_one(p, al, x.c0);
    lemma_mul3_one(p, al, x.c1);
    lemma_mul3_zero(p, al, x.c0);
    lemma_mul3_zero(p, al, x.c1);
    lemma_add3_zero(p, x.c0);
    lemma_add3_zero(p, x.c1);
    lemma_add3_comm(p, zero3(), x.c1);
}

/// Multiplication distributes over addition: `x (y + z) == x y + x z`.
pub proof fn lemma_mul6_distrib(p: nat, al: nat, x: Fp6V, y: Fp6V, z: Fp6V)
    requires
        p > 0,
    ensures
        mul6(p, al, x, add6(p, y, z)) == add6(p, mul6(p, al, x, y), mul6(p, al, x, z)),
{
    let a = x.c0;
    let b = x.c1;
    let c = y.c0;
    let d = y.c1;
    let c2 = z.c0;
    let d2 = z.c1;
    lemma_mul3_reduced(p, al, b, d);
    lemma_mul3_reduced(p, al, b, d2);
    lemma_mul3_distrib(p, al, a, c, c2);
    lemma_mul3_distrib(p, al, b, d, d2);
    lemma_mulnr3_add(p, al, mul3(p, al, b, d), mul3(p, al, b, d2));
    lemma_add3_regroup(
        p,
        mul3(p, al, a, c),
        mul3(p, al, a, c2),
        mulnr3(p, al, mul3(p, al, b, d)),
        mulnr3(p, al, mul3(p, al, b, d2)),
    );
    lemma_mul3_distrib(p, al, a, d, d2);
    lemma_mul3_distrib(p, al, b, c, c2);
    lemma_add3_regroup(
        p,
        mul3(p, al, a, d),
        mul3(p, al, a, d2),
        mul3(p, al, b, c),
        mul3(p, al, b, c2),
    );
}

/// An element has at most one inverse: together with the `Some` contract of
/// `Fp6::inverse`, whatever inverse that returns is the inverse of `x`.
pub proof fn lemma_inv6_unique(p: nat, al: nat, x: Fp6V, w1: Fp6V, w2: Fp6V)
    requires
        p > 0,
        reduced6(p, x),
        reduced6(p, w1),
        reduced6(p, w2),
        mul6(p, al, x, w1) == one6(),
        mul6(p, al, x, w2) == one6(),
    ensures
        w1 == w2,
{
    lemma_mul6_one(p, al, w1);
    lemma_mul6_one(p, al, w2);
    lemma_mul6_assoc(p, al, w1, x, w2);
    lemma_mul6_comm(p, al, w1, x);
    lemma_mul6_comm(p, al, w1, mul6(p, al, x, w2));
}

/// Multiplication is associative: `x (y z) == (x y) z`.
#[verifier::spinoff_prover]
pub proof fn lemma_mul6_assoc(p: nat, al: nat, x: Fp6V, y: Fp6V, z: Fp6V)
    requires
        p > 0,
        reduced6(p, x),
        reduced6(p, y),
        reduced6(p, z),
    ensures
        mul6(p, al, mul6(p, al, x, y), z) == mul6(p, al, x, mul6(p, al, y, z)),
{
    let a = x.c0;
    let b = x.c1;
    let c = y.c0;
    let d = y.c1;
    let e = z.c0;
    let f = z.c1;
    let ac = mul3(p, al, a, c);
    let bd = mul3(p, al, b, d);
    let ad = mul3(p, al, a, d);
    let bc = mul3(p, al, b, c);
    let ce = mul3(p, al, c, e);
    let df = mul3(p, al, d, f);
    let cf = mul3(p, al, c, f);
    let de = mul3(p, al, d, e);
    lemma_mul3_reduced(p, al, a, c);
    lemma_mul3_reduced(p, al, b, d);
    lemma_mul3_reduced(p, al, a, d);
    lemma_mul3_reduced(p, al, b, c);
    lemma_mul3_reduced(p, al, c, e);
    lemma_mul3_reduced(p, al, d, f);
    lemma_mul3_reduced(p, al, c, f);
    lemma_mul3_reduced(p, al, d, e);
    lemma_mul3_reduced(p, al, ad, f);
    lemma_mul3_reduced(p, al, bc, f);
    lemma_mul3_reduced(p, al, b, cf);
    lemma_mul3_reduced(p, al, b, de);

    // first coordinate of (x y) z
    lemma_mul3_distribr(p, al, ac, mulnr3(p, al, bd), e);
    lemma_mulnr3_left(p, al, bd, e);
    lemma_mul3_distribr(p, al, ad, bc, f);
    lemma_mulnr3_add(p, al, mul3(p, al, ad, f), mul3(p, al, bc, f));
    // first coordinate of x (y z)
    lemma_mul3_distrib(p, al, a, ce, mulnr3(p, al, df));
    lemma_mulnr3_right(p, al, a, df);
    lemma_mul3_distrib(p, al, b, cf, de);
    lemma_mulnr3_add(p, al, mul3(p, al, b, cf), mul3(p, al, b, de));
    // rebracket the triple products
    lemma_mul3_assoc(p, al, a, c, e);
    lemma_mul3_assoc(p, al, b, d, e);
    lemma_mul3_assoc(p, al, a, d, f);
    lemma_mul3_assoc(p, al, b, c, f);
    lemma_add3_regroup(
        p,
        mul3(p, al, ac, e),
        mulnr3(p, al, mul3(p, al, bd, e)),
        mulnr3(p, al, mul3(p, al, ad, f)),
        mulnr3(p, al, mul3(p, al, bc, f)),
    );

    // second coordinate of (x y) z
    lemma_mul3_distribr(p, al, ac, mulnr3(p, al, bd), f);
    lemma_mulnr3_left(p, al, bd, f);
    lemma_mul3_distribr(p, al, ad, bc, e);
    // second coordinate of x (y z)
    lemma_mul3_distrib(p, al, a, cf, de);
    lemma_mul3_distrib(p, al, b, ce, mulnr3(p, al, df));
    lemma_mulnr3_right(p, al, b, df);
    // rebracket the triple products
    lemma_mul3_assoc(p, al, a, c, f);
    lemma_mul3_assoc(p, al, b, d, f);
    lemma_mul3_assoc(p, al, a, d, e);
    lemma_mul3_assoc(p, al, b, c, e);
    lemma_add3_regroup(
        p,
        mul3(p, al, ac, f),
        mulnr3(p, al, mul3(p, al, bd, f)),
        mul3(p, al, ad, e),
        mul3(p, al, bc, e),
    );
}

} // verus!
