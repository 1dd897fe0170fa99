//! Ring laws of the cubic-extension model `Fp3V`: commutativity,
//! associativity and distributivity of the coordinate formulas, and the
//! identities of addition and multiplication.

use crate::fq::{
    add_p, lemma_add_mod2, lemma_add_mod_left, lemma_add_mod_right, lemma_imod_cong_mulr,
    lemma_imod_cong_sum, lemma_mod_cong_mull, lemma_mod_cong_mulr, lemma_mod_cong_sum,
    lemma_mod_idem, lemma_sub_p_int, lemma_subp_addp_cancel, mul_p, neg_p, sub_p,
};
use crate::fq3::{add3, mul3, mulnr3, neg3, one3, reduced3, sub3, zero3, Fp3V};
use vstd::prelude::*;

verus! {

/// The indeterminate `u` as an element.
pub open spec fn u3() -> Fp3V {
    Fp3V { c0: 0, c1: 1, c2: 0 }
}

/// Every coordinate that a model operation produces is reduced.
pub proof fn lemma_mul3_reduced(p: nat, al: nat, x: Fp3V, y: Fp3V)
    requires
        p > 0,
    ensures
        reduced3(p, mul3(p, al, x, y)),
        reduced3(p, add3(p, x, y)),
        reduced3(p, sub3(p, x, y)),
{
    crate::fq::lemma_mod_lt(x.c0 * y.c0 + al * (x.c1 * y.c2 + x.c2 * y.c1), p);
    crate::fq::lemma_mod_lt(x.c0 * y.c1 + x.c1 * y.c0 + al * (x.c2 * y.c2), p);
    crate::fq::lemma_mod_lt(x.c0 * y.c2 + x.c1 * y.c1 + x.c2 * y.c0, p);
    crate::fq::lemma_mod_lt(x.c0 + y.c0, p);
    crate::fq::lemma_mod_lt(x.c1 + y.c1, p);
    crate::fq::lemma_mod_lt(x.c2 + y.c2, p);
    crate::fq::lemma_mod_lt_int(x.c0 + p - y.c0, p);
    crate::fq::lemma_mod_lt_int(x.c1 + p - y.c1, p);
    crate::fq::lemma_mod_lt_int(x.c2 + p - y.c2, p);
}

/// Shape helper: drop inner reductions in `(a*w0 + al*(b*w2 + c*w1)) mod p`.
proof fn lemma_c0_unred(p: nat, al: nat, a: nat, b: nat, c: nat, w0: nat, w1: nat, w2: nat)
    requires
        p > 0,
    ensures
        ((a % p) * w0 + al * ((b % p) * w2 + (c % p) * w1)) % p == (a * w0 + al * (b * w2 + c
            * w1)) % p,
{
    lemma_mod_idem(a, p);
    lemma_mod_idem(b, p);
    lemma_mod_idem(c, p);
    lemma_mod_cong_mull(p, a % p, a, w0);
    lemma_mod_cong_mull(p, b % p, b, w2);
    lemma_mod_cong_mull(p, c % p, c, w1);
    lemma_mod_cong_sum(p, (b % p) * w2, b * w2, (c % p) * w1, c * w1);
    lemma_mod_cong_mulr(p, (b % p) * w2 + (c % p) * w1, b * w2 + c * w1, al);
    lemma_mod_cong_sum(p, (a % p) * w0, a * w0, al * ((b % p) * w2 + (c % p) * w1), al * (b * w2
        + c * w1));
}

/// Shape helper, mirrored: reductions on the right-hand factors.
proof fn lemma_c0r_unred(p: nat, al: nat, w0: nat, w1: nat, w2: nat, a: nat, b: nat, c: nat)
    requires
        p > 0,
    ensures
        (w0 * (a % p) + al * (w1 * (b % p) + w2 * (c % p))) % p == (w0 * a + al * (w1 * b + w2
            * c)) % p,
{
    lemma_mod_idem(a, p);
    lemma_mod_idem(b, p);
    lemma_mod_idem(c, p);
    lemma_mod_cong_mulr(p, a % p, a, w0);
    lemma_mod_cong_mulr(p, b % p, b, w1);
    lemma_mod_cong_mulr(p, c % p, c, w2);
    lemma_mod_cong_sum(p, w1 * (b % p), w1 * b, w2 * (c % p), w2 * c);
    lemma_mod_cong_mulr(p, w1 * (b % p) + w2 * (c % p), w1 * b + w2 * c, al);
    lemma_mod_cong_sum(p, w0 * (a % p), w0 * a, al * (w1 * (b % p) + w2 * (c % p)), al * (w1 * b
        + w2 * c));
}

/// Shape helper for the middle coordinate, left factors reduced.
proof fn lemma_c1_unred(p: nat, al: nat, a: nat, b: nat, c: nat, u: nat, v: nat, w: nat)
    requires
        p > 0,
    ensures
        ((a % p) * u + (b % p) * v + al * ((c % p) * w)) % p == (a * u + b * v + al * (c * w))
            % p,
{
    lemma_mod_idem(a, p);
    lemma_mod_idem(b, p);
    lemma_mod_idem(c, p);
    lemma_mod_cong_mull(p, a % p, a, u);
    lemma_mod_cong_mull(p, b % p, b, v);
    lemma_mod_cong_mull(p, c % p, c, w);
    lemma_mod_cong_mulr(p, (c % p) * w, c * w, al);
    lemma_mod_cong_sum(p, (a % p) * u, a * u, (b % p) * v, b * v);
    lemma_mod_cong_sum(p, (a % p) * u + (b % p) * v, a * u + b * v, al * ((c % p) * w), al * (c
        * w));
}

/// Shape helper for the middle coordinate, right factors reduced.
proof fn lemma_c1r_unred(p: nat, al: nat, u: nat, v: nat, w: nat, a: nat, b: nat, c: nat)
    requires
        p > 0,
    ensures
        (u * (a % p) + v * (b % p) + al * (w * (c % p))) % p == (u * a + v * b + al * (w * c))
            % p,
{
    lemma_mod_idem(a, p);
    lemma_mod_idem(b, p);
    lemma_mod_idem(c, p);
    lemma_mod_cong_mulr(p, a % p, a, u);
    lemma_mod_cong_mulr(p, b % p, b, v);
    lemma_mod_cong_mulr(p, c % p, c, w);
    lemma_mod_cong_mulr(p, w * (c % p), w * c, al);
    lemma_mod_cong_sum(p, u * (a % p), u * a, v * (b % p), v * b);
    lemma_mod_cong_sum(p, u * (a % p) + v * (b % p), u * a + v * b, al * (w * (c % p)), al * (w
        * c));
}

/// Shape helper for the top coordinate, left factors reduced.
proof fn lemma_c2_unred(p: nat, a: nat, b: nat, c: nat, u: nat, v: nat, w: nat)
    requires
        p > 0,
    ensures
        ((a % p) * u + (b % p) * v + (c % p) * w) % p == (a * u + b * v + c * w) % p,
{
    lemma_mod_idem(a, p);
    lemma_mod_idem(b, p);
    lemma_mod_idem(c, p);
    lemma_mod_cong_mull(p, a % p, a, u);
    lemma_mod_cong_mull(p, b % p, b, v);
    lemma_mod_cong_mull(p, c % p, c, w);
    lemma_mod_cong_sum(p, (a % p) * u, a * u, (b % p) * v, b * v);
    lemma_mod_cong_sum(p, (a % p) * u + (b % p) * v, a * u + b * v, (c % p) * w, c * w);
}

/// Shape helper for the top coordinate, right factors reduced.
proof fn lemma_c2r_unred(p: nat, u: nat, v: nat, w: nat, a: nat, b: nat, c: nat)
    requires
        p > 0,
    ensures
        (u * (a % p) + v * (b % p) + w * (c % p)) % p == (u * a + v * b + w * c) % p,
{
    lemma_mod_idem(a, p);
    lemma_mod_idem(b, p);
    lemma_mod_idem(c, p);
    lemma_mod_cong_mulr(p, a % p, a, u);
    lemma_mod_cong_mulr(p, b % p, b, v);
    lemma_mod_cong_mulr(p, c % p, c, w);
    lemma_mod_cong_sum(p, u * (a % p), u * a, v * (b % p), v * b);
    lemma_mod_cong_sum(p, u * (a % p) + v * (b % p), u * a + v * b, w * (c % p), w * c);
}

/// Multiplication in the model is commutative.
pub proof fn lemma_mul3_comm(p: nat, al: nat, x: Fp3V, y: Fp3V)
    requires
        p > 0,
    ensures
        mul3(p, al, x, y) == mul3(p, al, y, x),
{
    assert(x.c0 * y.c0 + al * (x.c1 * y.c2 + x.c2 * y.c1) == y.c0 * x.c0 + al * (y.c1 * x.c2
        + y.c2 * x.c1)) by (nonlinear_arith);
    assert(x.c0 * y.c1 + x.c1 * y.c0 + al * (x.c2 * y.c2) == y.c0 * x.c1 + y.c1 * x.c0 + al * (
    y.c2 * x.c2)) by (nonlinear_arith);
    assert(x.c0 * y.c2 + x.c1 * y.c1 + x.c2 * y.c0 == y.c0 * x.c2 + y.c1 * x.c1 + y.c2 * x.c0)
        by (nonlinear_arith);
}

/// Multiplication in the model is associative.
pub proof fn lemma_mul3_assoc(p: nat, al: nat, x: Fp3V, y: Fp3V, z: Fp3V)
    requires
        p > 0,
    ensures
        mul3(p, al, mul3(p, al, x, y), z) == mul3(p, al, x, mul3(p, al, y, z)),
{
    let a0 = x.c0 * y.c0 + al * (x.c1 * y.c2 + x.c2 * y.c1);
    let a1 = x.c0 * y.c1 + x.c1 * y.c0 + al * (x.c2 * y.c2);
    let a2 = x.c0 * y.c2 + x.c1 * y.c1 + x.c2 * y.c0;
    let b0 = y.c0 * z.c0 + al * (y.c1 * z.c2 + y.c2 * z.c1);
    let b1 = y.c0 * z.c1 + y.c1 * z.c0 + al * (y.c2 * z.c2);
    let b2 = y.c0 * z.c2 + y.c1 * z.c1 + y.c2 * z.c0;

    lemma_c0_unred(p, al, a0, a1, a2, z.c0, z.c1, z.c2);
    lemma_c0r_unred(p, al, x.c0, x.c1, x.c2, b0, b2, b1);
    assert((x.c0 * y.c0 + al * (x.c1 * y.c2 + x.c2 * y.c1)) * z.c0 + al * ((x.c0 * y.c1 + x.c1
        * y.c0 + al * (x.c2 * y.c2)) * z.c2 + (x.c0 * y.c2 + x.c1 * y.c1 + x.c2 * y.c0) * z.c1)
        == x.c0 * (y.c0 * z.c0 + al * (y.c1 * z.c2 + y.c2 * z.c1)) + al * (x.c1 * (y.c0 * z.c2
        + y.c1 * z.c1 + y.c2 * z.c0) + x.c2 * (y.c0 * z.c1 + y.c1 * z.c0 + al * (y.c2 * z.c2))))
        by {
        broadcast use vstd::arithmetic::mul::group_mul_is_commutative_and_distributive;
        broadcast use vstd::arithmetic::mul::lemma_mul_is_associative;

    }

    lemma_c1_unred(p, al, a0, a1, a2, z.c1, z.c0, z.c2);
    lemma_c1r_unred(p, al, x.c0, x.c1, x.c2, b1, b0, b2);
    assert((x.c0 * y.c0 + al * (x.c1 * y.c2 + x.c2 * y.c1)) * z.c1 + (x.c0 * y.c1 + x.c1 * y.c0
        + al * (x.c2 * y.c2)) * z.c0 + al * ((x.c0 * y.c2 + x.c1 * y.c1 + x.c2 * y.c0) * z.c2)
        == x.c0 * (y.c0 * z.c1 + y.c1 * z.c0 + al * (y.c2 * z.c2)) + x.c1 * (y.c0 * z.c0 + al * (
    y.c1 * z.c2 + y.c2 * z.c1)) + al * (x.c2 * (y.c0 * z.c2 + y.c1 * z.c1 + y.c2 * z.c0))) by {
        broadcast use vstd::arithmetic::mul::group_mul_is_commutative_and_distributive;
        broadcast use vstd::arithmetic::mul::lemma_mul_is_associative;

    }

    lemma_c2_unred(p, a0, a1, a2, z.c2, z.c1, z.c0);
    lemma_c2r_unred(p, x.c0, x.c1, x.c2, b2, b1, b0);
    assert((x.c0 * y.c0 + al * (x.c1 * y.c2 + x.c2 * y.c1)) * z.c2 + (x.c0 * y.c1 + x.c1 * y.c0
        + al * (x.c2 * y.c2)) * z.c1 + (x.c0 * y.c2 + x.c1 * y.c1 + x.c2 * y.c0) * z.c0 == x.c0
        * (y.c0 * z.c2 + y.c1 * z.c1 + y.c2 * z.c0) + x.c1 * (y.c0 * z.c1 + y.c1 * z.c0 + al * (
    y.c2 * z.c2)) + x.c2 * (y.c0 * z.c0 + al * (y.c1 * z.c2 + y.c2 * z.c1))) by {
        broadcast use vstd::arithmetic::mul::group_mul_is_commutative_and_distributive;
        broadcast use vstd::arithmetic::mul::lemma_mul_is_associative;

    }
}

/// Multiplication distributes over addition.
pub proof fn lemma_mul3_distrib(p: nat, al: nat, x: Fp3V, y: Fp3V, z: Fp3V)
    requires
        p > 0,
    ensures
        mul3(p, al, x, add3(p, y, z)) == add3(p, mul3(p, al, x, y), mul3(p, al, x, z)),
{
    lemma_c0r_unred(p, al, x.c0, x.c1, x.c2, y.c0 + z.c0, y.c2 + z.c2, y.c1 + z.c1);
    assert(x.c0 * (y.c0 + z.c0) + al * (x.c1 * (y.c2 + z.c2) + x.c2 * (y.c1 + z.c1)) == (x.c0
        * y.c0 + al * (x.c1 * y.c2 + x.c2 * y.c1)) + (x.c0 * z.c0 + al * (x.c1 * z.c2 + x.c2
        * z.c1))) by (nonlinear_arith);
    lemma_add_mod2(
        x.c0 * y.c0 + al * (x.c1 * y.c2 + x.c2 * y.c1),
        x.c0 * z.c0 + al * (x.c1 * z.c2 + x.c2 * z.c1),
        p,
    );

    lemma_c1r_unred(p, al, x.c0, x.c1, x.c2, y.c1 + z.c1, y.c0 + z.c0, y.c2 + z.c2);
    assert(x.c0 * (y.c1 + z.c1) + x.c1 * (y.c0 + z.c0) + al * (x.c2 * (y.c2 + z.c2)) == (x.c0
        * y.c1 + x.c1 * y.c0 + al * (x.c2 * y.c2)) + (x.c0 * z.c1 + x.c1 * z.c0 + al * (x.c2
        * z.c2))) by (nonlinear_arith);
    lemma_add_mod2(
        x.c0 * y.c1 + x.c1 * y.c0 + al * (x.c2 * y.c2),
        x.c0 * z.c1 + x.c1 * z.c0 + al * (x.c2 * z.c2),
        p,
    );

    lemma_c2r_unred(p, x.c0, x.c1, x.c2, y.c2 + z.c2, y.c1 + z.c1, y.c0 + z.c0);
    assert(x.c0 * (y.c2 + z.c2) + x.c1 * (y.c1 + z.c1) + x.c2 * (y.c0 + z.c0) == (x.c0 * y.c2
        + x.c1 * y.c1 + x.c2 * y.c0) + (x.c0 * z.c2 + x.c1 * z.c1 + x.c2 * z.c0))
        by (nonlinear_arith);
    lemma_add_mod2(
        x.c0 * y.c2 + x.c1 * y.c1 + x.c2 * y.c0,
        x.c0 * z.c2 + x.c1 * z.c1 + x.c2 * z.c0,
        p,
    );
}

/// Addition is associative.
pub proof fn lemma_add3_assoc(p: nat, x: Fp3V, y: Fp3V, z: Fp3V)
    requires
        p > 0,
    ensures
        add3(p, add3(p, x, y), z) == add3(p, x, add3(p, y, z)),
{
    lemma_add_mod_left(x.c0 + y.c0, z.c0, p);
    lemma_add_mod_right(x.c0, y.c0 + z.c0, p);
    lemma_add_mod_left(x.c1 + y.c1, z.c1, p);
    lemma_add_mod_right(x.c1, y.c1 + z.c1, p);
    lemma_add_mod_left(x.c2 + y.c2, z.c2, p);
    lemma_add_mod_right(x.c2, y.c2 + z.c2, p);
}

/// Addition is commutative.
pub proof fn lemma_add3_comm(p: nat, x: Fp3V, y: Fp3V)
    ensures
        add3(p, x, y) == add3(p, y, x),
{
}

/// Zero is the additive identity on reduced elements.
pub proof fn lemma_add3_zero(p: nat, x: Fp3V)
    requires
        p > 0,
        reduced3(p, x),
    ensures
        add3(p, x, zero3()) == x,
{
    vstd::arithmetic::div_mod::lemma_small_mod(x.c0, p);
    vstd::arithmetic::div_mod::lemma_small_mod(x.c1, p);
    vstd::arithmetic::div_mod::lemma_small_mod(x.c2, p);
}

/// An element minus itself is zero.
pub proof fn lemma_sub3_self(p: nat, x: Fp3V)
    requires
        p > 0,
        reduced3(p, x),
    ensures
        sub3(p, x, x) == zero3(),
{
    vstd::arithmetic::div_mod::lemma_mod_self_0(p as int);
    assert(sub_p(p, x.c0, x.c0) == ((p as int) % (p as int)) as nat);
    assert(sub_p(p, x.c1, x.c1) == ((p as int) % (p as int)) as nat);
    assert(sub_p(p, x.c2, x.c2) == ((p as int) % (p as int)) as nat);
}

/// Subtracting a summand cancels it.
pub proof fn lemma_sub3_add3_cancel(p: nat, x: Fp3V, y: Fp3V)
    requires
        p > 0,
        reduced3(p, x),
        reduced3(p, y),
    ensures
        sub3(p, add3(p, x, y), y) == x,
{
    lemma_subp_addp_cancel(p, x.c0, y.c0);
    lemma_subp_addp_cancel(p, x.c1, y.c1);
    lemma_subp_addp_cancel(p, x.c2, y.c2);
}

/// Regrouping of a four-term sum: `(s+t) + (u+v) == ((t+u) + s) + v`.
pub proof fn lemma_add3_swap_mid(p: nat, s: Fp3V, t: Fp3V, u: Fp3V, v: Fp3V)
    requires
        p > 0,
    ensures
        add3(p, add3(p, s, t), add3(p, u, v)) == add3(p, add3(p, add3(p, t, u), v), s),
{
    lemma_add3_assoc(p, s, t, add3(p, u, v));
    lemma_add3_assoc(p, t, u, v);
    lemma_add3_comm(p, s, add3(p, add3(p, t, u), v));
}

/// The Karatsuba cross-term: `(a+b)(c+d) - ac - bd == ad + bc`.
pub proof fn lemma_karatsuba_cross(p: nat, al: nat, a: Fp3V, b: Fp3V, c: Fp3V, d: Fp3V)
    requires
        p > 0,
    ensures
        sub3(
            p,
            sub3(p, mul3(p, al, add3(p, a, b), add3(p, c, d)), mul3(p, al, a, c)),
            mul3(p, al, b, d),
        ) == add3(p, mul3(p, al, a, d), mul3(p, al, b, c)),
{
    let ac = mul3(p, al, a, c);
    let ad = mul3(p, al, a, d);
    let bc = mul3(p, al, b, c);
    let bd = mul3(p, al, b, d);
    lemma_mul3_reduced(p, al, a, c);
    lemma_mul3_reduced(p, al, a, d);
    lemma_mul3_reduced(p, al, b, c);
    lemma_mul3_reduced(p, al, b, d);
    lemma_mul3_distrib(p, al, add3(p, a, b), c, d);
    lemma_mul3_comm(p, al, add3(p, a, b), c);
    lemma_mul3_distrib(p, al, c, a, b);
    lemma_mul3_comm(p, al, add3(p, a, b), d);
    lemma_mul3_distrib(p, al, d, a, b);
    lemma_mul3_comm(p, al, c, a);
    lemma_mul3_comm(p, al, c, b);
    lemma_mul3_comm(p, al, d, a);
    lemma_mul3_comm(p, al, d, b);
    assert(mul3(p, al, add3(p, a, b), add3(p, c, d)) == add3(p, add3(p, ac, bc), add3(p, ad, bd)));
    lemma_add3_swap_mid(p, ac, bc, ad, bd);
    lemma_mul3_reduced(p, al, bc, ad);
    lemma_mul3_reduced(p, al, add3(p, bc, ad), bd);
    lemma_sub3_add3_cancel(p, add3(p, add3(p, bc, ad), bd), ac);
    lemma_sub3_add3_cancel(p, add3(p, bc, ad), bd);
}

/// One is the multiplicative identity on reduced elements.
pub proof fn lemma_mul3_one(p: nat, al: nat, x: Fp3V)
    requires
        p > 0,
        reduced3(p, x),
    ensures
        mul3(p, al, x, one3()) == x,
        mul3(p, al, one3(), x) == x,
{
    assert(x.c0 * 1 + al * (x.c1 * 0 + x.c2 * 0) == x.c0) by (nonlinear_arith);
    assert(x.c0 * 0 + x.c1 * 1 + al * (x.c2 * 0) == x.c1) by (nonlinear_arith);
    assert(x.c0 * 0 + x.c1 * 0 + x.c2 * 1 == x.c2) by (nonlinear_arith);
    assert(1 * x.c0 + al * (0 * x.c2 + 0 * x.c1) == x.c0) by (nonlinear_arith);
    assert(1 * x.c1 + 0 * x.c0 + al * (0 * x.c2) == x.c1) by (nonlinear_arith);
    assert(1 * x.c2 + 0 * x.c1 + 0 * x.c0 == x.c2) by (nonlinear_arith);
    vstd::arithmetic::div_mod::lemma_small_mod(x.c0, p);
    vstd::arithmetic::div_mod::lemma_small_mod(x.c1, p);
    vstd::arithmetic::div_mod::lemma_small_mod(x.c2, p);
}

/// Multiplication from the left distributes too.
pub proof fn lemma_mul3_distribr(p: nat, al: nat, x: Fp3V, y: Fp3V, z: Fp3V)
    requires
        p > 0,
    ensures
        mul3(p, al, add3(p, x, y), z) == add3(p, mul3(p, al, x, z), mul3(p, al, y, z)),
{
    lemma_mul3_comm(p, al, add3(p, x, y), z);
    lemma_mul3_distrib(p, al, z, x, y);
    lemma_mul3_comm(p, al, z, x);
    lemma_mul3_comm(p, al, z, y);
}

/// Zero annihilates products.
pub proof fn lemma_mul3_zero(p: nat, al: nat, x: Fp3V)
    requires
        p > 0,
    ensures
        mul3(p, al, x, zero3()) == zero3(),
        mul3(p, al, zero3(), x) == zero3(),
        mulnr3(p, al, zero3()) == zero3(),
{
    assert(x.c0 * 0 + al * (x.c1 * 0 + x.c2 * 0) == 0) by (nonlinear_arith);
    assert(x.c0 * 0 + x.c1 * 0 + al * (x.c2 * 0) == 0) by (nonlinear_arith);
    assert(x.c0 * 0 + x.c1 * 0 + x.c2 * 0 == 0) by (nonlinear_arith);
    assert(0 * x.c0 + al * (0 * x.c2 + 0 * x.c1) == 0) by (nonlinear_arith);
    assert(0 * x.c1 + 0 * x.c0 + al * (0 * x.c2) == 0) by (nonlinear_arith);
    assert(0 * x.c2 + 0 * x.c1 + 0 * x.c0 == 0) by (nonlinear_arith);
    assert(al * 0 == 0) by (nonlinear_arith);
    vstd::arithmetic::div_mod::lemma_small_mod(0, p);
}

/// Another regrouping of a four-term sum: `(s+t)+(u+v) == (s+u)+(v+t)`.
pub proof fn lemma_add3_regroup(p: nat, s: Fp3V, t: Fp3V, u: Fp3V, v: Fp3V)
    requires
        p > 0,
    ensures
        add3(p, add3(p, s, t), add3(p, u, v)) == add3(p, add3(p, s, u), add3(p, v, t)),
{
    lemma_add3_assoc(p, add3(p, s, t), u, v);
    lemma_add3_assoc(p, s, t, u);
    lemma_add3_comm(p, t, u);
    lemma_add3_assoc(p, s, u, t);
    lemma_add3_assoc(p, add3(p, s, u), t, v);
    lemma_add3_comm(p, t, v);
}

/// `u * (x y) == (u x) y`: multiplying by the indeterminate commutes out of
/// a product's left factor.
pub proof fn lemma_mulnr3_left(p: nat, al: nat, x: Fp3V, y: Fp3V)
    requires
        p > 0,
        reduced3(p, x),
        reduced3(p, y),
    ensures
        mul3(p, al, mulnr3(p, al, x), y) == mulnr3(p, al, mul3(p, al, x, y)),
{
    lemma_mulnr3_mul(p, al, x);
    lemma_mul3_reduced(p, al, x, y);
    lemma_mulnr3_mul(p, al, mul3(p, al, x, y));
    lemma_mul3_assoc(p, al, u3(), x, y);
}

/// ... and out of a product's right factor.
pub proof fn lemma_mulnr3_right(p: nat, al: nat, x: Fp3V, y: Fp3V)
    requires
        p > 0,
        reduced3(p, x),
        reduced3(p, y),
    ensures
        mul3(p, al, x, mulnr3(p, al, y)) == mulnr3(p, al, mul3(p, al, x, y)),
{
    lemma_mulnr3_mul(p, al, y);
    lemma_mul3_reduced(p, al, x, y);
    lemma_mulnr3_mul(p, al, mul3(p, al, x, y));
    lemma_mul3_assoc(p, al, x, u3(), y);
    lemma_mul3_comm(p, al, x, u3());
    lemma_mul3_assoc(p, al, u3(), x, y);
}

/// Multiplication by the indeterminate is additive.
pub proof fn lemma_mulnr3_add(p: nat, al: nat, x: Fp3V, y: Fp3V)
    requires
        p > 0,
        reduced3(p, x),
        reduced3(p, y),
    ensures
        mulnr3(p, al, add3(p, x, y)) == add3(p, mulnr3(p, al, x), mulnr3(p, al, y)),
{
    lemma_mul3_reduced(p, al, x, y);
    lemma_mulnr3_mul(p, al, add3(p, x, y));
    lemma_mul3_distrib(p, al, u3(), x, y);
    lemma_mulnr3_mul(p, al, x);
    lemma_mulnr3_mul(p, al, y);
}

/// A negated right factor negates the product.
pub proof fn lemma_mul3_negr(p: nat, al: nat, x: Fp3V, y: Fp3V)
    requires
        p > 0,
    ensures
        mul3(p, al, x, neg3(p, y)) == neg3(p, mul3(p, al, x, y)),
{
    let pi = p as int;
    lemma_sub_p_int(p, 0, y.c0);
    lemma_sub_p_int(p, 0, y.c1);
    lemma_sub_p_int(p, 0, y.c2);
    vstd::arithmetic::div_mod::lemma_small_mod(neg_p(p, y.c0), p);
    vstd::arithmetic::div_mod::lemma_small_mod(neg_p(p, y.c1), p);
    vstd::arithmetic::div_mod::lemma_small_mod(neg_p(p, y.c2), p);
    lemma_negr_c0(p, al, x, y);
    lemma_negr_c1(p, al, x, y);
    lemma_negr_c2(p, al, x, y);
}

proof fn lemma_negr_pre(p: nat, y: Fp3V)
    requires
        p > 0,
    ensures
        neg_p(p, y.c0) as int % (p as int) == (0 - y.c0) % (p as int),
        neg_p(p, y.c1) as int % (p as int) == (0 - y.c1) % (p as int),
        neg_p(p, y.c2) as int % (p as int) == (0 - y.c2) % (p as int),
{
    lemma_sub_p_int(p, 0, y.c0);
    lemma_sub_p_int(p, 0, y.c1);
    lemma_sub_p_int(p, 0, y.c2);
    vstd::arithmetic::div_mod::lemma_mod_twice((0 - y.c0) as int, p as int);
    vstd::arithmetic::div_mod::lemma_mod_twice((0 - y.c1) as int, p as int);
    vstd::arithmetic::div_mod::lemma_mod_twice((0 - y.c2) as int, p as int);
}

proof fn lemma_negr_c0(p: nat, al: nat, x: Fp3V, y: Fp3V)
    requires
        p > 0,
    ensures
        mul3(p, al, x, neg3(p, y)).c0 == neg3(p, mul3(p, al, x, y)).c0,
{
    let pi = p as int;
    lemma_negr_pre(p, y);
    lemma_imod_cong_mulr(pi, neg_p(p, y.c0) as int, 0 - y.c0, x.c0 as int);
    lemma_imod_cong_mulr(pi, neg_p(p, y.c2) as int, 0 - y.c2, x.c1 as int);
    lemma_imod_cong_mulr(pi, neg_p(p, y.c1) as int, 0 - y.c1, x.c2 as int);
    lemma_imod_cong_sum(
        pi,
        x.c1 * (neg_p(p, y.c2) as int),
        x.c1 * (0 - y.c2),
        x.c2 * (neg_p(p, y.c1) as int),
        x.c2 * (0 - y.c1),
    );
    lemma_imod_cong_mulr(
        pi,
        x.c1 * (neg_p(p, y.c2) as int) + x.c2 * (neg_p(p, y.c1) as int),
        x.c1 * (0 - y.c2) + x.c2 * (0 - y.c1),
        al as int,
    );
    lemma_imod_cong_sum(
        pi,
        x.c0 * (neg_p(p, y.c0) as int),
        x.c0 * (0 - y.c0),
        al * (x.c1 * (neg_p(p, y.c2) as int) + x.c2 * (neg_p(p, y.c1) as int)),
        al * (x.c1 * (0 - y.c2) + x.c2 * (0 - y.c1)),
    );
    assert(x.c0 * (0 - y.c0) + al * (x.c1 * (0 - y.c2) + x.c2 * (0 - y.c1)) == 0 - (x.c0 * y.c0
        + al * (x.c1 * y.c2 + x.c2 * y.c1))) by {
        broadcast use vstd::arithmetic::mul::group_mul_is_commutative_and_distributive;

    }
    lemma_sub_p_int(p, 0, mul3(p, al, x, y).c0);
    vstd::arithmetic::div_mod::lemma_sub_mod_noop_right(
        0,
        (x.c0 * y.c0 + al * (x.c1 * y.c2 + x.c2 * y.c1)) as int,
        pi,
    );
}

proof fn lemma_negr_c1(p: nat, al: nat, x: Fp3V, y: Fp3V)
    requires
        p > 0,
    ensures
        mul3(p, al, x, neg3(p, y)).c1 == neg3(p, mul3(p, al, x, y)).c1,
{
    let pi = p as int;
    lemma_negr_pre(p, y);
    lemma_imod_cong_mulr(pi, neg_p(p, y.c1) as int, 0 - y.c1, x.c0 as int);
    lemma_imod_cong_mulr(pi, neg_p(p, y.c0) as int, 0 - y.c0, x.c1 as int);
    lemma_imod_cong_mulr(pi, neg_p(p, y.c2) as int, 0 - y.c2, x.c2 as int);
    lemma_imod_cong_sum(
        pi,
        x.c0 * (neg_p(p, y.c1) as int),
        x.c0 * (0 - y.c1),
        x.c1 * (neg_p(p, y.c0) as int),
        x.c1 * (0 - y.c0),
    );
    lemma_imod_cong_mulr(pi, x.c2 * (neg_p(p, y.c2) as int), x.c2 * (0 - y.c2), al as int);
    lemma_imod_cong_sum(
        pi,
        x.c0 * (neg_p(p, y.c1) as int) + x.c1 * (neg_p(p, y.c0) as int),
        x.c0 * (0 - y.c1) + x.c1 * (0 - y.c0),
        al * (x.c2 * (neg_p(p, y.c2) as int)),
        al * (x.c2 * (0 - y.c2)),
    );
    assert(x.c0 * (0 - y.c1) + x.c1 * (0 - y.c0) + al * (x.c2 * (0 - y.c2)) == 0 - (x.c0 * y.c1
        + x.c1 * y.c0 + al * (x.c2 * y.c2))) by {
        broadcast use vstd::arithmetic::mul::group_mul_is_commutative_and_distributive;

    }
    lemma_sub_p_int(p, 0, mul3(p, al, x, y).c1);
    vstd::arithmetic::div_mod::lemma_sub_mod_noop_right(
        0,
        (x.c0 * y.c1 + x.c1 * y.c0 + al * (x.c2 * y.c2)) as int,
        pi,
    );
}

proof fn lemma_negr_c2(p: nat, al: nat, x: Fp3V, y: Fp3V)
    requires
        p > 0,
    ensures
        mul3(p, al, x, neg3(p, y)).c2 == neg3(p, mul3(p, al, x, y)).c2,
{
    let pi = p as int;
    lemma_negr_pre(p, y);
    lemma_imod_cong_mulr(pi, neg_p(p, y.c2) as int, 0 - y.c2, x.c0 as int);
    lemma_imod_cong_mulr(pi, neg_p(p, y.c1) as int, 0 - y.c1, x.c1 as int);
    lemma_imod_cong_mulr(pi, neg_p(p, y.c0) as int, 0 - y.c0, x.c2 as int);
    lemma_imod_cong_sum(
        pi,
        x.c0 * (neg_p(p, y.c2) as int),
        x.c0 * (0 - y.c2),
        x.c1 * (neg_p(p, y.c1) as int),
        x.c1 * (0 - y.c1),
    );
    lemma_imod_cong_sum(
        pi,
        x.c0 * (neg_p(p, y.c2) as int) + x.c1 * (neg_p(p, y.c1) as int),
        x.c0 * (0 - y.c2) + x.c1 * (0 - y.c1),
        x.c2 * (neg_p(p, y.c0) as int),
        x.c2 * (0 - y.c0),
    );
    assert(x.c0 * (0 - y.c2) + x.c1 * (0 - y.c1) + x.c2 * (0 - y.c0) == 0 - (x.c0 * y.c2 + x.c1
        * y.c1 + x.c2 * y.c0)) by {
        broadcast use vstd::arithmetic::mul::group_mul_is_commutative_and_distributive;

    }
    lemma_sub_p_int(p, 0, mul3(p, al, x, y).c2);
    vstd::arithmetic::div_mod::lemma_sub_mod_noop_right(
        0,
        (x.c0 * y.c2 + x.c1 * y.c1 + x.c2 * y.c0) as int,
        pi,
    );
}

/// Multiplication by the indeterminate commutes with negation.
pub proof fn lemma_mulnr3_neg(p: nat, al: nat, v: Fp3V)
    requires
        p > 0,
    ensures
        mulnr3(p, al, neg3(p, v)) == neg3(p, mulnr3(p, al, v)),
{
    let pi = p as int;
    lemma_sub_p_int(p, 0, v.c2);
    vstd::arithmetic::div_mod::lemma_small_mod(neg_p(p, v.c2), p);
    vstd::arithmetic::div_mod::lemma_mod_twice((0 - v.c2) as int, pi);
    lemma_imod_cong_mulr(pi, neg_p(p, v.c2) as int, 0 - v.c2, al as int);
    assert(al * (0 - v.c2) == 0 - (al * v.c2)) by {
        broadcast use vstd::arithmetic::mul::group_mul_is_commutative_and_distributive;

    }
    lemma_sub_p_int(p, 0, mulnr3(p, al, v).c0);
    vstd::arithmetic::div_mod::lemma_sub_mod_noop_right(0, (al * v.c2) as int, pi);
}

/// Adding a negation is subtraction.
pub proof fn lemma_add3_negr(p: nat, x: Fp3V, y: Fp3V)
    requires
        p > 0,
        reduced3(p, y),
    ensures
        add3(p, x, neg3(p, y)) == sub3(p, x, y),
{
    lemma_add_mod_right(x.c0, (p - y.c0) as nat, p);
    lemma_add_mod_right(x.c1, (p - y.c1) as nat, p);
    lemma_add_mod_right(x.c2, (p - y.c2) as nat, p);
}

/// A value plus its negation is zero.
pub proof fn lemma_add3_neg_self(p: nat, v: Fp3V)
    requires
        p > 0,
        reduced3(p, v),
    ensures
        add3(p, neg3(p, v), v) == zero3(),
{
    lemma_add_mod_left((p - v.c0) as nat, v.c0, p);
    lemma_add_mod_left((p - v.c1) as nat, v.c1, p);
    lemma_add_mod_left((p - v.c2) as nat, v.c2, p);
    vstd::arithmetic::div_mod::lemma_mod_self_0(p as int);
}

/// Multiplication distributes over subtraction on the left factor.
pub proof fn lemma_mul3_sub_distribr(p: nat, al: nat, x: Fp3V, y: Fp3V, w: Fp3V)
    requires
        p > 0,
        reduced3(p, y),
    ensures
        mul3(p, al, sub3(p, x, y), w) == sub3(p, mul3(p, al, x, w), mul3(p, al, y, w)),
{
    lemma_add3_negr(p, x, y);
    lemma_mul3_distribr(p, al, x, neg3(p, y), w);
    lemma_mul3_comm(p, al, neg3(p, y), w);
    lemma_mul3_negr(p, al, w, y);
    lemma_mul3_comm(p, al, w, y);
    lemma_mul3_reduced(p, al, y, w);
    lemma_add3_negr(p, mul3(p, al, x, w), mul3(p, al, y, w));
}

/// Multiplying by the indeterminate is a special product.
pub proof fn lemma_mulnr3_mul(p: nat, al: nat, x: Fp3V)
    requires
        p > 0,
        reduced3(p, x),
    ensures
        mulnr3(p, al, x) == mul3(p, al, u3(), x),
{
    assert(0 * x.c0 + al * (1 * x.c2 + 0 * x.c1) == al * x.c2) by (nonlinear_arith);
    assert(0 * x.c1 + 1 * x.c0 + al * (0 * x.c2) == x.c0) by (nonlinear_arith);
    assert(0 * x.c2 + 1 * x.c1 + 0 * x.c0 == x.c1) by (nonlinear_arith);
    vstd::arithmetic::div_mod::lemma_small_mod(x.c0, p);
    vstd::arithmetic::div_mod::lemma_small_mod(x.c1, p);
}

} // verus!
