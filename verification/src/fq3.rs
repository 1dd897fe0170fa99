//! The cubic extension `Fp3 = Fp[u]/(u^3 - alpha)`: triples `(c0, c1, c2)`
//! standing for `c0 + c1*u + c2*u^2`, with contracts over the coordinate
//! model `Fp3V`.

use crate::bignum::{big_div, big_mul, big_sub, bytes_val, pow_nat};
use crate::fq::{
    add_p, invertible_p, lemma_add_mod2, lemma_imod_cong_mulr, lemma_imod_cong_sum,
    lemma_mod_cong_mulr, lemma_mod_idem, lemma_mod_lt, lemma_mul_mod_left, lemma_mul_mod_right,
    lemma_sub_p_int, mul_p, neg_p, sub_p, Fp, PrimeField,
};
use vstd::prelude::*;

verus! {

/// The mathematical value of an `Fp3` element: three residues.
#[verifier::ext_equal]
pub struct Fp3V {
    pub c0: nat,
    pub c1: nat,
    pub c2: nat,
}

pub open spec fn reduced3(p: nat, x: Fp3V) -> bool {
    x.c0 < p && x.c1 < p && x.c2 < p
}

pub open spec fn zero3() -> Fp3V {
    Fp3V { c0: 0, c1: 0, c2: 0 }
}

pub open spec fn one3() -> Fp3V {
    Fp3V { c0: 1, c1: 0, c2: 0 }
}

pub open spec fn add3(p: nat, x: Fp3V, y: Fp3V) -> Fp3V {
    Fp3V {
        c0: add_p(p, x.c0, y.c0),
        c1: add_p(p, x.c1, y.c1),
        c2: add_p(p, x.c2, y.c2),
    }
}

pub open spec fn sub3(p: nat, x: Fp3V, y: Fp3V) -> Fp3V {
    Fp3V {
        c0: sub_p(p, x.c0, y.c0),
        c1: sub_p(p, x.c1, y.c1),
        c2: sub_p(p, x.c2, y.c2),
    }
}

pub open spec fn neg3(p: nat, x: Fp3V) -> Fp3V {
    Fp3V { c0: neg_p(p, x.c0), c1: neg_p(p, x.c1), c2: neg_p(p, x.c2) }
}

/// Product modulo `u^3 = alpha`, written with a single outer reduction per
/// coordinate.
pub open spec fn mul3(p: nat, al: nat, x: Fp3V, y: Fp3V) -> Fp3V {
    Fp3V {
        c0: (x.c0 * y.c0 + al * (x.c1 * y.c2 + x.c2 * y.c1)) % p,
        c1: (x.c0 * y.c1 + x.c1 * y.c0 + al * (x.c2 * y.c2)) % p,
        c2: (x.c0 * y.c2 + x.c1 * y.c1 + x.c2 * y.c0) % p,
    }
}

/// Multiplication by the scalar `s` from the base field.
pub open spec fn scale3(p: nat, x: Fp3V, s: nat) -> Fp3V {
    Fp3V {
        c0: mul_p(p, x.c0, s),
        c1: mul_p(p, x.c1, s),
        c2: mul_p(p, x.c2, s),
    }
}

/// Multiplication by the indeterminate `u` itself: rotate coordinates and
/// wrap the top one through `alpha`.
pub open spec fn mulnr3(p: nat, al: nat, x: Fp3V) -> Fp3V {
    Fp3V { c0: mul_p(p, al, x.c2), c1: x.c0, c2: x.c1 }
}

/// Frobenius action in coordinates: `c1` and `c2` are scaled by the
/// precomputed coefficients `t1` and `t2`.
pub open spec fn frob3(p: nat, t1: nat, t2: nat, x: Fp3V) -> Fp3V {
    Fp3V { c0: x.c0, c1: mul_p(p, x.c1, t1), c2: mul_p(p, x.c2, t2) }
}

/// Frobenius exponent `(p^k - 1) / 3` for the coefficient table.
pub open spec fn frob3_exp(p: nat, k: nat) -> nat {
    ((pow_nat(p, k) - 1) as nat) / 3
}

/// The adjugate coordinates of `z`, as the inverse routine computes them:
/// `adj0 = z0^2 - alpha z1 z2`, `adj1 = alpha z2^2 - z0 z1`,
/// `adj2 = z1^2 - z0 z2`.
pub open spec fn adj3_0(p: nat, al: nat, z: Fp3V) -> nat {
    sub_p(p, mul_p(p, z.c0, z.c0), mul_p(p, mul_p(p, al, z.c1), z.c2))
}

pub open spec fn adj3_1(p: nat, al: nat, z: Fp3V) -> nat {
    sub_p(p, mul_p(p, mul_p(p, z.c2, z.c2), al), mul_p(p, z.c0, z.c1))
}

pub open spec fn adj3_2(p: nat, al: nat, z: Fp3V) -> nat {
    sub_p(p, mul_p(p, z.c1, z.c1), mul_p(p, z.c0, z.c2))
}

pub open spec fn adj3(p: nat, al: nat, z: Fp3V) -> Fp3V {
    Fp3V { c0: adj3_0(p, al, z), c1: adj3_1(p, al, z), c2: adj3_2(p, al, z) }
}

/// The norm of `z`: `z0 adj0 + alpha (z2 adj1 + z1 adj2)`, which equals
/// `z0^3 + alpha z1^3 + alpha^2 z2^3 - 3 alpha z0 z1 z2`.
pub open spec fn norm3(p: nat, al: nat, z: Fp3V) -> nat {
    add_p(
        p,
        mul_p(p, z.c0, adj3_0(p, al, z)),
        mul_p(p, add_p(p, mul_p(p, z.c2, adj3_1(p, al, z)), mul_p(p, z.c1, adj3_2(p, al, z))), al),
    )
}

/// The adjugates as integers: each is congruent to its defining polynomial.
proof fn lemma_adj3_int(p: nat, al: nat, z: Fp3V)
    requires
        p > 0,
    ensures
        adj3_0(p, al, z) as int % (p as int) == (z.c0 * z.c0 - al * z.c1 * z.c2) % (p as int),
        adj3_1(p, al, z) as int % (p as int) == (al * (z.c2 * z.c2) - z.c0 * z.c1) % (p as int),
        adj3_2(p, al, z) as int % (p as int) == (z.c1 * z.c1 - z.c0 * z.c2) % (p as int),
{
    let pi = p as int;
    lemma_mul_mod_left(al * z.c1, z.c2, p);
    lemma_mul_mod_left(z.c2 * z.c2, al, p);
    lemma_sub_p_int(p, mul_p(p, z.c0, z.c0), mul_p(p, mul_p(p, al, z.c1), z.c2));
    lemma_sub_p_int(p, mul_p(p, mul_p(p, z.c2, z.c2), al), mul_p(p, z.c0, z.c1));
    lemma_sub_p_int(p, mul_p(p, z.c1, z.c1), mul_p(p, z.c0, z.c2));
    vstd::arithmetic::div_mod::lemma_sub_mod_noop(
        (z.c0 * z.c0) as int,
        (al * z.c1 * z.c2) as int,
        pi,
    );
    vstd::arithmetic::div_mod::lemma_sub_mod_noop(
        (z.c2 * z.c2 * al) as int,
        (z.c0 * z.c1) as int,
        pi,
    );
    vstd::arithmetic::div_mod::lemma_sub_mod_noop(
        (z.c1 * z.c1) as int,
        (z.c0 * z.c2) as int,
        pi,
    );
    vstd::arithmetic::div_mod::lemma_mod_twice((z.c0 * z.c0 - al * z.c1 * z.c2) as int, pi);
    vstd::arithmetic::div_mod::lemma_mod_twice((z.c2 * z.c2 * al - z.c0 * z.c1) as int, pi);
    vstd::arithmetic::div_mod::lemma_mod_twice((z.c1 * z.c1 - z.c0 * z.c2) as int, pi);
    assert(z.c2 * z.c2 * al == al * (z.c2 * z.c2)) by (nonlinear_arith);
}

/// Cramer's identity for the cubic extension: `z` times its adjugate is the
/// norm times one.
pub proof fn lemma_adj3_product(p: nat, al: nat, z: Fp3V)
    requires
        p > 0,
    ensures
        mul3(p, al, z, adj3(p, al, z)) == (Fp3V { c0: norm3(p, al, z), c1: 0, c2: 0 }),
{
    let pi = p as int;
    let a0 = adj3_0(p, al, z);
    let a1 = adj3_1(p, al, z);
    let a2 = adj3_2(p, al, z);
    lemma_adj3_int(p, al, z);
    vstd::arithmetic::div_mod::lemma_small_mod(a0, p);
    vstd::arithmetic::div_mod::lemma_small_mod(a1, p);
    vstd::arithmetic::div_mod::lemma_small_mod(a2, p);

    // c0: both sides reduce the same polynomial in z and the adjugates
    lemma_add_mod2(z.c2 * a1, z.c1 * a2, p);
    lemma_mul_mod_left(z.c2 * a1 + z.c1 * a2, al, p);
    lemma_add_mod2(z.c0 * a0, (z.c2 * a1 + z.c1 * a2) * al, p);
    assert(z.c0 * a0 + (z.c2 * a1 + z.c1 * a2) * al == z.c0 * a0 + al * (z.c1 * a2 + z.c2 * a1))
        by (nonlinear_arith);

    // c1 vanishes
    lemma_imod_cong_mulr(pi, a1 as int, z.c2 * z.c2 * al - z.c0 * z.c1, z.c0 as int);
    lemma_imod_cong_mulr(pi, a0 as int, z.c0 * z.c0 - al * z.c1 * z.c2, z.c1 as int);
    lemma_imod_cong_mulr(pi, a2 as int, z.c1 * z.c1 - z.c0 * z.c2, (al * z.c2) as int);
    lemma_imod_cong_sum(
        pi,
        z.c0 * (a1 as int),
        z.c0 * (z.c2 * z.c2 * al - z.c0 * z.c1),
        z.c1 * (a0 as int),
        z.c1 * (z.c0 * z.c0 - al * z.c1 * z.c2),
    );
    lemma_imod_cong_sum(
        pi,
        z.c0 * (a1 as int) + z.c1 * (a0 as int),
        z.c0 * (z.c2 * z.c2 * al - z.c0 * z.c1) + z.c1 * (z.c0 * z.c0 - al * z.c1 * z.c2),
        (al * z.c2) * (a2 as int),
        (al * z.c2) * (z.c1 * z.c1 - z.c0 * z.c2),
    );
    assert(z.c0 * (z.c2 * z.c2 * al - z.c0 * z.c1) + z.c1 * (z.c0 * z.c0 - al * z.c1 * z.c2) + (al
        * z.c2) * (z.c1 * z.c1 - z.c0 * z.c2) == 0) by {
        broadcast use vstd::arithmetic::mul::group_mul_is_commutative_and_distributive;
        broadcast use vstd::arithmetic::mul::lemma_mul_is_associative;

    }
    assert(z.c0 * a1 + z.c1 * a0 + al * (z.c2 * a2) == z.c0 * (a1 as int) + z.c1 * (a0 as int) + (
    al * z.c2) * (a2 as int)) by (nonlinear_arith);
    vstd::arithmetic::div_mod::lemma_small_mod(0, p);

    // c2 vanishes
    lemma_imod_cong_mulr(pi, a2 as int, z.c1 * z.c1 - z.c0 * z.c2, z.c0 as int);
    lemma_imod_cong_mulr(pi, a1 as int, z.c2 * z.c2 * al - z.c0 * z.c1, z.c1 as int);
    lemma_imod_cong_mulr(pi, a0 as int, z.c0 * z.c0 - al * z.c1 * z.c2, z.c2 as int);
    lemma_imod_cong_sum(
        pi,
        z.c0 * (a2 as int),
        z.c0 * (z.c1 * z.c1 - z.c0 * z.c2),
        z.c1 * (a1 as int),
        z.c1 * (z.c2 * z.c2 * al - z.c0 * z.c1),
    );
    lemma_imod_cong_sum(
        pi,
        z.c0 * (a2 as int) + z.c1 * (a1 as int),
        z.c0 * (z.c1 * z.c1 - z.c0 * z.c2) + z.c1 * (z.c2 * z.c2 * al - z.c0 * z.c1),
        z.c2 * (a0 as int),
        z.c2 * (z.c0 * z.c0 - al * z.c1 * z.c2),
    );
    assert(z.c0 * (z.c1 * z.c1 - z.c0 * z.c2) + z.c1 * (z.c2 * z.c2 * al - z.c0 * z.c1) + z.c2 * (
    z.c0 * z.c0 - al * z.c1 * z.c2) == 0) by (nonlinear_arith);
    assert(z.c0 * a2 + z.c1 * a1 + z.c2 * a0 == z.c0 * (a2 as int) + z.c1 * (a1 as int) + z.c2 * (
    a0 as int)) by (nonlinear_arith);
}

/// A scalar factor moves out of a product.
pub proof fn lemma_scale3_pull(p: nat, al: nat, z: Fp3V, v: Fp3V, t: nat)
    requires
        p > 0,
    ensures
        mul3(p, al, z, scale3(p, v, t)) == scale3(p, mul3(p, al, z, v), t),
{
    lemma_mod_idem(v.c0 * t, p);
    lemma_mod_idem(v.c1 * t, p);
    lemma_mod_idem(v.c2 * t, p);
    lemma_mod_cong_mulr(p, (v.c0 * t) % p, v.c0 * t, z.c0);
    lemma_mod_cong_mulr(p, (v.c1 * t) % p, v.c1 * t, z.c0);
    lemma_mod_cong_mulr(p, (v.c2 * t) % p, v.c2 * t, z.c0);
    lemma_mod_cong_mulr(p, (v.c0 * t) % p, v.c0 * t, z.c1);
    lemma_mod_cong_mulr(p, (v.c1 * t) % p, v.c1 * t, z.c1);
    lemma_mod_cong_mulr(p, (v.c2 * t) % p, v.c2 * t, z.c1);
    lemma_mod_cong_mulr(p, (v.c0 * t) % p, v.c0 * t, z.c2);
    lemma_mod_cong_mulr(p, (v.c1 * t) % p, v.c1 * t, z.c2);
    lemma_mod_cong_mulr(p, (v.c2 * t) % p, v.c2 * t, z.c2);
    lemma_flat_c0(p, al, z, v, t);
    lemma_flat_c1(p, al, z, v, t);
    lemma_flat_c2(p, al, z, v, t);
}

proof fn lemma_flat_c0(p: nat, al: nat, z: Fp3V, v: Fp3V, t: nat)
    requires
        p > 0,
        (z.c0 * ((v.c0 * t) % p)) % p == (z.c0 * (v.c0 * t)) % p,
        (z.c1 * ((v.c2 * t) % p)) % p == (z.c1 * (v.c2 * t)) % p,
        (z.c2 * ((v.c1 * t) % p)) % p == (z.c2 * (v.c1 * t)) % p,
    ensures
        mul3(p, al, z, scale3(p, v, t)).c0 == scale3(p, mul3(p, al, z, v), t).c0,
{
    crate::fq::lemma_mod_cong_sum(
        p,
        z.c1 * ((v.c2 * t) % p),
        z.c1 * (v.c2 * t),
        z.c2 * ((v.c1 * t) % p),
        z.c2 * (v.c1 * t),
    );
    crate::fq::lemma_mod_cong_mulr(
        p,
        z.c1 * ((v.c2 * t) % p) + z.c2 * ((v.c1 * t) % p),
        z.c1 * (v.c2 * t) + z.c2 * (v.c1 * t),
        al,
    );
    crate::fq::lemma_mod_cong_sum(
        p,
        z.c0 * ((v.c0 * t) % p),
        z.c0 * (v.c0 * t),
        al * (z.c1 * ((v.c2 * t) % p) + z.c2 * ((v.c1 * t) % p)),
        al * (z.c1 * (v.c2 * t) + z.c2 * (v.c1 * t)),
    );
    lemma_mul_mod_left(z.c0 * v.c0 + al * (z.c1 * v.c2 + z.c2 * v.c1), t, p);
    assert(z.c0 * (v.c0 * t) + al * (z.c1 * (v.c2 * t) + z.c2 * (v.c1 * t)) == (z.c0 * v.c0 + al
        * (z.c1 * v.c2 + z.c2 * v.c1)) * t) by {
        broadcast use vstd::arithmetic::mul::group_mul_is_commutative_and_distributive;
        broadcast use vstd::arithmetic::mul::lemma_mul_is_associative;

    }
}

proof fn lemma_flat_c1(p: nat, al: nat, z: Fp3V, v: Fp3V, t: nat)
    requires
        p > 0,
        (z.c0 * ((v.c1 * t) % p)) % p == (z.c0 * (v.c1 * t)) % p,
        (z.c1 * ((v.c0 * t) % p)) % p == (z.c1 * (v.c0 * t)) % p,
        (z.c2 * ((v.c2 * t) % p)) % p == (z.c2 * (v.c2 * t)) % p,
    ensures
        mul3(p, al, z, scale3(p, v, t)).c1 == scale3(p, mul3(p, al, z, v), t).c1,
{
    crate::fq::lemma_mod_cong_mulr(p, z.c2 * ((v.c2 * t) % p), z.c2 * (v.c2 * t), al);
    crate::fq::lemma_mod_cong_sum(
        p,
        z.c0 * ((v.c1 * t) % p),
        z.c0 * (v.c1 * t),
        z.c1 * ((v.c0 * t) % p),
        z.c1 * (v.c0 * t),
    );
    crate::fq::lemma_mod_cong_sum(
        p,
        z.c0 * ((v.c1 * t) % p) + z.c1 * ((v.c0 * t) % p),
        z.c0 * (v.c1 * t) + z.c1 * (v.c0 * t),
        al * (z.c2 * ((v.c2 * t) % p)),
        al * (z.c2 * (v.c2 * t)),
    );
    lemma_mul_mod_left(z.c0 * v.c1 + z.c1 * v.c0 + al * (z.c2 * v.c2), t, p);
    assert(z.c0 * (v.c1 * t) + z.c1 * (v.c0 * t) + al * (z.c2 * (v.c2 * t)) == (z.c0 * v.c1 + z.c1
        * v.c0 + al * (z.c2 * v.c2)) * t) by {
        broadcast use vstd::arithmetic::mul::group_mul_is_commutative_and_distributive;
        broadcast use vstd::arithmetic::mul::lemma_mul_is_associative;

    }
}

proof fn lemma_flat_c2(p: nat, al: nat, z: Fp3V, v: Fp3V, t: nat)
    requires
        p > 0,
        (z.c0 * ((v.c2 * t) % p)) % p == (z.c0 * (v.c2 * t)) % p,
        (z.c1 * ((v.c1 * t) % p)) % p == (z.c1 * (v.c1 * t)) % p,
        (z.c2 * ((v.c0 * t) % p)) % p == (z.c2 * (v.c0 * t)) % p,
    ensures
        mul3(p, al, z, scale3(p, v, t)).c2 == scale3(p, mul3(p, al, z, v), t).c2,
{
    crate::fq::lemma_mod_cong_sum(
        p,
        z.c0 * ((v.c2 * t) % p),
        z.c0 * (v.c2 * t),
        z.c1 * ((v.c1 * t) % p),
        z.c1 * (v.c1 * t),
    );
    crate::fq::lemma_mod_cong_sum(
        p,
        z.c0 * ((v.c2 * t) % p) + z.c1 * ((v.c1 * t) % p),
        z.c0 * (v.c2 * t) + z.c1 * (v.c1 * t),
        z.c2 * ((v.c0 * t) % p),
        z.c2 * (v.c0 * t),
    );
    lemma_mul_mod_left(z.c0 * v.c2 + z.c1 * v.c1 + z.c2 * v.c0, t, p);
    assert(z.c0 * (v.c2 * t) + z.c1 * (v.c1 * t) + z.c2 * (v.c0 * t) == (z.c0 * v.c2 + z.c1 * v.c1
        + z.c2 * v.c0) * t) by {
        broadcast use vstd::arithmetic::mul::group_mul_is_commutative_and_distributive;
        broadcast use vstd::arithmetic::mul::lemma_mul_is_associative;

    }
}

/// Descriptor of the cubic extension: the base field, the cubic non-residue
/// `alpha`, and the Frobenius coefficient tables
/// `c1[k] = alpha^((p^k - 1)/3)` and `c2[k] = alpha^(2(p^k - 1)/3)`.
pub struct Extension3 {
    pub field: PrimeField,
    pub non_residue: Fp,
    pub frobenius_coeffs_c1: Vec<Fp>,
    pub frobenius_coeffs_c2: Vec<Fp>,
}

impl Extension3 {
    pub open spec fn p(&self) -> nat {
        self.field.p()
    }

    /// The cubic non-residue as a value.
    pub open spec fn al(&self) -> nat {
        self.non_residue@
    }

    pub open spec fn t1(&self, k: int) -> nat {
        self.frobenius_coeffs_c1@[k]@
    }

    pub open spec fn t2(&self, k: int) -> nat {
        self.frobenius_coeffs_c2@[k]@
    }

    pub open spec fn wf(&self) -> bool {
        &&& self.field.wf()
        &&& self.field.p() % 6 == 1
        &&& self.non_residue.wf(&self.field)
        &&& self.frobenius_coeffs_c1@.len() == 3
        &&& self.frobenius_coeffs_c2@.len() == 3
        &&& forall|k: int|
            0 <= k < 3 ==> (#[trigger] self.frobenius_coeffs_c1@[k]).wf(&self.field)
        &&& forall|k: int|
            0 <= k < 3 ==> (#[trigger] self.frobenius_coeffs_c2@[k]).wf(&self.field)
        &&& forall|k: int|
            0 <= k < 3 ==> #[trigger] self.t1(k) == pow_nat(self.al(), frob3_exp(self.p(), k as nat))
                % self.p()
        &&& forall|k: int|
            0 <= k < 3 ==> #[trigger] self.t2(k) == pow_nat(
                self.al(),
                2 * frob3_exp(self.p(), k as nat),
            ) % self.p()
    }

    /// The cubic extension is a field: the base modulus is prime and
    /// `u^3 - alpha` is irreducible, the latter stated as what the code
    /// needs of it — the norm of a nonzero element is nonzero. Contracts
    /// take this as a hypothesis; it cannot be established at run time.
    pub open spec fn is_field(&self) -> bool {
        &&& self.field.prime()
        &&& forall|z: Fp3V|
            reduced3(self.p(), z) && z != zero3() ==> #[trigger] norm3(self.p(), self.al(), z)
                != 0
    }

    /// Builds the descriptor, computing both Frobenius coefficient tables
    /// from the modulus and the non-residue. Rejects a modulus that is not
    /// `1 mod 6`: the Frobenius exponents `(p^k - 1)/3` and `(p^k - 1)/6`
    /// are exact divisions only then.
    pub fn new(field: PrimeField, non_residue: Fp) -> (r: Option<Extension3>)
        requires
            field.wf(),
            non_residue.wf(&field),
        ensures
            r matches Some(cx) ==> cx.wf() && cx.field == field && cx.non_residue == non_residue,
            r is None ==> field.p() % 6 != 1,
    {
        if !modulus_is_one_mod6(&field) {
            return None;
        }
        let exps = frob_exponents_n(&field, 3, 3);
        let mut c1: Vec<Fp> = Vec::new();
        let mut c2: Vec<Fp> = Vec::new();
        let mut k: usize = 0;
        while k < 3
        invariant
            0 <= k <= 3,
            field.wf(),
            non_residue.wf(&field),
            exps.len() == 3,
            forall|i: int|
                0 <= i < 3 ==> bytes_val(#[trigger] exps@[i]@) == ((pow_nat(field.p(), i as nat)
                    - 1) as nat) / 3,
            c1.len() == k,
            c2.len() == k,
            forall|i: int| 0 <= i < k ==> (#[trigger] c1@[i]).wf(&field),
            forall|i: int| 0 <= i < k ==> (#[trigger] c2@[i]).wf(&field),
            forall|i: int|
                0 <= i < k ==> (#[trigger] c1@[i])@ == pow_nat(non_residue@, frob3_exp(field.p(),
                    i as nat)) % field.p(),
            forall|i: int|
                0 <= i < k ==> (#[trigger] c2@[i])@ == pow_nat(non_residue@, 2 * frob3_exp(
                    field.p(), i as nat)) % field.p(),
        decreases 3 - k,
        {
            let e = &exps[k];
            let t1 = crate::bignum::mod_pow(&non_residue.repr, e, &field.modulus);
            let mut two: Vec<u8> = Vec::new();
            two.push(2);
            proof {
                crate::bignum::lemma_singleton_val(two@);
            }
            let e2 = big_mul(e, &two);
            proof {
                assert(bytes_val(e@) == frob3_exp(field.p(), k as nat));
                assert(bytes_val(e2@) == 2 * frob3_exp(field.p(), k as nat));
            }
            let t2 = crate::bignum::mod_pow(&non_residue.repr, &e2, &field.modulus);
            proof {
                assert(bytes_val(t2@) == pow_nat(non_residue@, 2 * frob3_exp(field.p(), k as nat))
                    % field.p());
            }
            proof {
                lemma_mod_lt(pow_nat(non_residue@, frob3_exp(field.p(), k as nat)), field.p());
                lemma_mod_lt(pow_nat(non_residue@, 2 * frob3_exp(field.p(), k as nat)), field.p());
            }
            c1.push(Fp { repr: t1 });
            c2.push(Fp { repr: t2 });
            k += 1;
        }
        Some(Extension3 { field, non_residue, frobenius_coeffs_c1: c1, frobenius_coeffs_c2: c2 })
    }
}

/// Decides whether the modulus is congruent to 1 modulo 6.
pub fn modulus_is_one_mod6(field: &PrimeField) -> (r: bool)
    requires
        field.wf(),
    ensures
        r <==> field.p() % 6 == 1,
{
    let mut six: Vec<u8> = Vec::new();
    six.push(6);
    let mut onev: Vec<u8> = Vec::new();
    onev.push(1);
    proof {
        crate::bignum::lemma_singleton_val(six@);
        crate::bignum::lemma_singleton_val(onev@);
    }
    let q = big_div(&field.modulus, &six);
    proof {
        vstd::arithmetic::div_mod::lemma_fundamental_div_mod(field.p() as int, 6);
        crate::fq::lemma_mod_lt(field.p(), 6);
    }
    let q6 = big_mul(&q, &six);
    let m6 = big_sub(&field.modulus, &q6);
    proof {
        assert(bytes_val(m6@) == field.p() % 6);
    }
    let r = crate::bignum::bytes_eq(&m6, &onev);
    proof {
        if !r && field.p() % 6 == 1 {
            crate::bignum::lemma_canon_unique(m6@, onev@);
        }
    }
    r
}

/// The exponents `(p^k - 1) / d` for `k` in `0..n`, as canonical bytes.
pub fn frob_exponents_n(field: &PrimeField, d: u8, n: usize) -> (r: Vec<Vec<u8>>)
    requires
        field.wf(),
        d >= 1,
    ensures
        r.len() == n,
        forall|i: int|
            0 <= i < n ==> bytes_val(#[trigger] r@[i]@) == ((pow_nat(field.p(), i as nat) - 1)
                as nat) / (d as nat),
{
    let mut one: Vec<u8> = Vec::new();
    one.push(1);
    let mut dv: Vec<u8> = Vec::new();
    dv.push(d);
    let mut pk: Vec<u8> = Vec::new();
    pk.push(1);
    proof {
        crate::bignum::lemma_singleton_val(one@);
        crate::bignum::lemma_singleton_val(dv@);
        crate::bignum::lemma_singleton_val(pk@);
    }
    let mut r: Vec<Vec<u8>> = Vec::new();
    let mut k: usize = 0;
    while k < n
        invariant
            0 <= k <= n,
            field.wf(),
            r.len() == k,
            bytes_val(one@) == 1,
            bytes_val(dv@) == d as nat,
            d >= 1,
            bytes_val(pk@) == pow_nat(field.p(), k as nat),
            forall|i: int|
                0 <= i < k ==> bytes_val(#[trigger] r@[i]@) == ((pow_nat(field.p(), i as nat)
                    - 1) as nat) / (d as nat),
        decreases n - k,
    {
        proof {
            crate::bignum::lemma_pow_nat_pos(field.p(), k as nat);
        }
        let pkm1 = big_sub(&pk, &one);
        let e = big_div(&pkm1, &dv);
        r.push(e);
        let pk2 = big_mul(&pk, &field.modulus);
        proof {
            assert(pow_nat(field.p(), (k + 1) as nat) == field.p() * pow_nat(field.p(), k as nat));
        }
        pk = pk2;
        k += 1;
    }
    r
}

/// An element of the cubic extension.
pub struct Fp3 {
    pub c0: Fp,
    pub c1: Fp,
    pub c2: Fp,
}

impl View for Fp3 {
    type V = Fp3V;

    open spec fn view(&self) -> Fp3V {
        Fp3V { c0: self.c0@, c1: self.c1@, c2: self.c2@ }
    }
}

impl Fp3 {
    pub open spec fn wf(&self, cx: &Extension3) -> bool {
        self.c0.wf(&cx.field) && self.c1.wf(&cx.field) && self.c2.wf(&cx.field)
    }

    pub fn clone_fp3(&self) -> (r: Fp3)
        ensures
            r@ == self@,
            r.c0.repr@ == self.c0.repr@,
            r.c1.repr@ == self.c1.repr@,
            r.c2.repr@ == self.c2.repr@,
    {
        Fp3 { c0: self.c0.clone_fp(), c1: self.c1.clone_fp(), c2: self.c2.clone_fp() }
    }

    pub fn zero(cx: &Extension3) -> (r: Fp3)
        requires
            cx.wf(),
        ensures
            r.wf(cx),
            r@ == zero3(),
    {
        Fp3 { c0: Fp::zero(&cx.field), c1: Fp::zero(&cx.field), c2: Fp::zero(&cx.field) }
    }

    pub fn one(cx: &Extension3) -> (r: Fp3)
        requires
            cx.wf(),
        ensures
            r.wf(cx),
            r@ == one3(),
    {
        Fp3 { c0: Fp::one(&cx.field), c1: Fp::zero(&cx.field), c2: Fp::zero(&cx.field) }
    }

    pub fn is_zero(&self, cx: &Extension3) -> (r: bool)
        requires
            cx.wf(),
            self.wf(cx),
        ensures
            r <==> self@ == zero3(),
    {
        let r = self.c0.is_zero() && self.c1.is_zero() && self.c2.is_zero();
        proof {
            if self@ == zero3() {
            }
        }
        r
    }

    pub fn equals(&self, cx: &Extension3, other: &Fp3) -> (r: bool)
        requires
            cx.wf(),
            self.wf(cx),
            other.wf(cx),
        ensures
            r <==> self@ == other@,
    {
        let r = self.c0.equals(&other.c0) && self.c1.equals(&other.c1) && self.c2.equals(
            &other.c2,
        );
        r
    }

    pub fn add_assign(&mut self, cx: &Extension3, other: &Fp3)
        requires
            cx.wf(),
            old(self).wf(cx),
            other.wf(cx),
        ensures
            final(self).wf(cx),
            final(self)@ == add3(cx.p(), old(self)@, other@),
    {
        self.c0.add_assign(&cx.field, &other.c0);
        self.c1.add_assign(&cx.field, &other.c1);
        self.c2.add_assign(&cx.field, &other.c2);
    }

    pub fn sub_assign(&mut self, cx: &Extension3, other: &Fp3)
        requires
            cx.wf(),
            old(self).wf(cx),
            other.wf(cx),
        ensures
            final(self).wf(cx),
            final(self)@ == sub3(cx.p(), old(self)@, other@),
    {
        self.c0.sub_assign(&cx.field, &other.c0);
        self.c1.sub_assign(&cx.field, &other.c1);
        self.c2.sub_assign(&cx.field, &other.c2);
    }

    pub fn negate(&mut self, cx: &Extension3)
        requires
            cx.wf(),
            old(self).wf(cx),
        ensures
            final(self).wf(cx),
            final(self)@ == neg3(cx.p(), old(self)@),
    {
        self.c0.negate(&cx.field);
        self.c1.negate(&cx.field);
        self.c2.negate(&cx.field);
    }

    pub fn double(&mut self, cx: &Extension3)
        requires
            cx.wf(),
            old(self).wf(cx),
        ensures
            final(self).wf(cx),
            final(self)@ == add3(cx.p(), old(self)@, old(self)@),
    {
        self.c0.double(&cx.field);
        self.c1.double(&cx.field);
        self.c2.double(&cx.field);
    }

    pub fn mul_by_fp(&mut self, cx: &Extension3, s: &Fp)
        requires
            cx.wf(),
            old(self).wf(cx),
            s.wf(&cx.field),
        ensures
            final(self).wf(cx),
            final(self)@ == scale3(cx.p(), old(self)@, s@),
    {
        self.c0.mul_assign(&cx.field, s);
        self.c1.mul_assign(&cx.field, s);
        self.c2.mul_assign(&cx.field, s);
    }

    /// Multiplication by the cubic non-residue `u`: rotate and wrap through
    /// `alpha`.
    pub fn mul_by_nonresidue(&mut self, cx: &Extension3)
        requires
            cx.wf(),
            old(self).wf(cx),
        ensures
            final(self).wf(cx),
            final(self)@ == mulnr3(cx.p(), cx.al(), old(self)@),
    {
        let mut t = cx.non_residue.clone_fp();
        t.mul_assign(&cx.field, &self.c2);
        let c1 = self.c0.clone_fp();
        let c2 = self.c1.clone_fp();
        self.c0 = t;
        self.c1 = c1;
        self.c2 = c2;
    }

    pub fn mul_assign(&mut self, cx: &Extension3, other: &Fp3)
        requires
            cx.wf(),
            old(self).wf(cx),
            other.wf(cx),
        ensures
            final(self).wf(cx),
            final(self)@ == mul3(cx.p(), cx.al(), old(self)@, other@),
    {
        let p = &cx.field;
        let ghost pn = cx.p();
        let ghost al = cx.al();
        let ghost x = old(self)@;
        let ghost y = other@;

        // c0 = x0*y0 + al*(x1*y2 + x2*y1)
        let mut t_a = self.c1.clone_fp();
        t_a.mul_assign(p, &other.c2);
        let mut t_b = self.c2.clone_fp();
        t_b.mul_assign(p, &other.c1);
        t_a.add_assign(p, &t_b);
        let mut s0 = cx.non_residue.clone_fp();
        s0.mul_assign(p, &t_a);
        let mut c0 = self.c0.clone_fp();
        c0.mul_assign(p, &other.c0);
        c0.add_assign(p, &s0);
        proof {
            lemma_add_mod2(x.c1 * y.c2, x.c2 * y.c1, pn);
            lemma_mul_mod_right(al, x.c1 * y.c2 + x.c2 * y.c1, pn);
            lemma_add_mod2(x.c0 * y.c0, al * (x.c1 * y.c2 + x.c2 * y.c1), pn);
        }

        // c1 = x0*y1 + x1*y0 + al*(x2*y2)
        let mut u_a = self.c0.clone_fp();
        u_a.mul_assign(p, &other.c1);
        let mut u_b = self.c1.clone_fp();
        u_b.mul_assign(p, &other.c0);
        u_a.add_assign(p, &u_b);
        let mut u_c = self.c2.clone_fp();
        u_c.mul_assign(p, &other.c2);
        let mut u_d = cx.non_residue.clone_fp();
        u_d.mul_assign(p, &u_c);
        u_a.add_assign(p, &u_d);
        proof {
            lemma_add_mod2(x.c0 * y.c1, x.c1 * y.c0, pn);
            lemma_mul_mod_right(al, x.c2 * y.c2, pn);
            lemma_add_mod2(x.c0 * y.c1 + x.c1 * y.c0, al * (x.c2 * y.c2), pn);
        }

        // c2 = x0*y2 + x1*y1 + x2*y0
        let mut v_a = self.c0.clone_fp();
        v_a.mul_assign(p, &other.c2);
        let mut v_b = self.c1.clone_fp();
        v_b.mul_assign(p, &other.c1);
        v_a.add_assign(p, &v_b);
        let mut v_c = self.c2.clone_fp();
        v_c.mul_assign(p, &other.c0);
        v_a.add_assign(p, &v_c);
        proof {
            lemma_add_mod2(x.c0 * y.c2, x.c1 * y.c1, pn);
            lemma_add_mod2(x.c0 * y.c2 + x.c1 * y.c1, x.c2 * y.c0, pn);
            assert((((x.c0 * y.c2 + x.c1 * y.c1) % pn) + (x.c2 * y.c0) % pn) % pn == (x.c0 * y.c2
                + x.c1 * y.c1 + x.c2 * y.c0) % pn);
        }

        self.c0 = c0;
        self.c1 = u_a;
        self.c2 = v_a;
    }

    pub fn square(&mut self, cx: &Extension3)
        requires
            cx.wf(),
            old(self).wf(cx),
        ensures
            final(self).wf(cx),
            final(self)@ == mul3(cx.p(), cx.al(), old(self)@, old(self)@),
    {
        let t = self.clone_fp3();
        self.mul_assign(cx, &t);
    }

    /// Frobenius action: scale `c1` and `c2` by the table entries for
    /// `power mod 3`.
    pub fn frobenius_map(&mut self, cx: &Extension3, power: usize)
        requires
            cx.wf(),
            old(self).wf(cx),
        ensures
            final(self).wf(cx),
            final(self)@ == frob3(
                cx.p(),
                cx.t1((power % 3) as int),
                cx.t2((power % 3) as int),
                old(self)@,
            ),
    {
        let k = power % 3;
        self.c1.mul_assign(&cx.field, &cx.frobenius_coeffs_c1[k]);
        self.c2.mul_assign(&cx.field, &cx.frobenius_coeffs_c2[k]);
    }

    /// Multiplicative inverse by the adjugate/norm formula. `Some(w)`
    /// always satisfies `self * w == 1`; `None` comes only when the norm
    /// has no inverse, which for a field tower means the input is zero.
    pub fn inverse(&self, cx: &Extension3) -> (r: Option<Fp3>)
        requires
            cx.wf(),
            self.wf(cx),
        ensures
            r matches Some(w) ==> w.wf(cx) && mul3(cx.p(), cx.al(), self@, w@) == one3(),
            self@ == zero3() ==> r is None,
            cx.is_field() && self@ != zero3() ==> r is Some,
    {
        let ghost pn = cx.p();
        let ghost aln = cx.al();
        let ghost z = self@;
        let p = &cx.field;
        // adj0 = c0^2 - al*c1*c2
        let mut adj0 = self.c0.clone_fp();
        adj0.square(p);
        let mut t = cx.non_residue.clone_fp();
        t.mul_assign(p, &self.c1);
        t.mul_assign(p, &self.c2);
        adj0.sub_assign(p, &t);
        // adj1 = al*c2^2 - c0*c1
        let mut adj1 = self.c2.clone_fp();
        adj1.square(p);
        adj1.mul_assign(p, &cx.non_residue);
        let mut t2 = self.c0.clone_fp();
        t2.mul_assign(p, &self.c1);
        adj1.sub_assign(p, &t2);
        // adj2 = c1^2 - c0*c2
        let mut adj2 = self.c1.clone_fp();
        adj2.square(p);
        let mut t3 = self.c0.clone_fp();
        t3.mul_assign(p, &self.c2);
        adj2.sub_assign(p, &t3);
        proof {
            assert(adj0@ == adj3_0(pn, aln, z));
            assert(adj1@ == adj3_1(pn, aln, z));
            assert(adj2@ == adj3_2(pn, aln, z));
        }
        // norm = c0*adj0 + al*(c2*adj1 + c1*adj2)
        let mut n = self.c0.clone_fp();
        n.mul_assign(p, &adj0);
        let mut n1 = self.c2.clone_fp();
        n1.mul_assign(p, &adj1);
        let mut n2 = self.c1.clone_fp();
        n2.mul_assign(p, &adj2);
        n1.add_assign(p, &n2);
        n1.mul_assign(p, &cx.non_residue);
        n.add_assign(p, &n1);
        proof {
            assert(n@ == norm3(pn, aln, z));
        }
        let n_inv = match n.inverse(p) {
            Some(v) => v,
            None => {
                proof {
                    if cx.is_field() && z != zero3() {
                        assert(norm3(pn, aln, z) != 0);
                        assert(invertible_p(pn, n@));
                        assert(false);
                    }
                }
                return None;
            },
        };
        let mut w = Fp3 { c0: adj0, c1: adj1, c2: adj2 };
        w.mul_by_fp(cx, &n_inv);
        proof {
            lemma_scale3_pull(pn, aln, z, adj3(pn, aln, z), n_inv@);
            lemma_adj3_product(pn, aln, z);
            assert(0 * n_inv@ == 0);
            vstd::arithmetic::div_mod::lemma_small_mod(0, pn);
            assert(mul3(pn, aln, z, w@) == one3());
            if z == zero3() {
                assert(mul3(pn, aln, z, w@).c0 == (0 * w@.c0 + aln * (0 * w@.c2 + 0 * w@.c1))
                    % pn);
                assert(0 * w@.c0 + aln * (0 * w@.c2 + 0 * w@.c1) == 0) by (nonlinear_arith);
                assert(false);
            }
        }
        Some(w)
    }
}


} // verus!
