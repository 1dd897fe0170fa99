//! The quadratic extension over the cubic one:
//! `Fp6 = Fp3[v]/(v^2 - xi)` with `xi = u`, elements `c0 + c1*v`.

use crate::bignum::{bytes_val, pow_nat};
use crate::fq::{Fp, PrimeField};
use crate::fq3::{
    add3, frob3, mul3, mulnr3, one3, reduced3, scale3, sub3, zero3, Extension3, Fp3, Fp3V,
};
use vstd::prelude::*;

verus! {

/// The mathematical value of an `Fp6` element.
#[verifier::ext_equal]
pub struct Fp6V {
    pub c0: Fp3V,
    pub c1: Fp3V,
}

pub open spec fn reduced6(p: nat, x: Fp6V) -> bool {
    reduced3(p, x.c0) && reduced3(p, x.c1)
}

pub open spec fn zero6() -> Fp6V {
    Fp6V { c0: zero3(), c1: zero3() }
}

pub open spec fn one6() -> Fp6V {
    Fp6V { c0: one3(), c1: zero3() }
}

pub open spec fn add6(p: nat, x: Fp6V, y: Fp6V) -> Fp6V {
    Fp6V { c0: add3(p, x.c0, y.c0), c1: add3(p, x.c1, y.c1) }
}

pub open spec fn sub6(p: nat, x: Fp6V, y: Fp6V) -> Fp6V {
    Fp6V { c0: sub3(p, x.c0, y.c0), c1: sub3(p, x.c1, y.c1) }
}

pub open spec fn neg6(p: nat, x: Fp6V) -> Fp6V {
    Fp6V { c0: crate::fq3::neg3(p, x.c0), c1: crate::fq3::neg3(p, x.c1) }
}

/// `(a + b v)(a' + b' v) = (a a' + xi b b') + (a b' + b a') v` with `xi = u`.
pub open spec fn mul6(p: nat, al: nat, x: Fp6V, y: Fp6V) -> Fp6V {
    Fp6V {
        c0: add3(p, mul3(p, al, x.c0, y.c0), mulnr3(p, al, mul3(p, al, x.c1, y.c1))),
        c1: add3(p, mul3(p, al, x.c0, y.c1), mul3(p, al, x.c1, y.c0)),
    }
}

/// One square-and-multiply step of exponentiation.
pub open spec fn pow_step6(p: nat, al: nat, x: Fp6V, acc: Fp6V, bit: bool) -> Fp6V {
    if bit {
        mul6(p, al, mul6(p, al, acc, acc), x)
    } else {
        mul6(p, al, acc, acc)
    }
}

/// Exponentiation steps for the top `k` bits of one byte, most significant
/// first.
pub open spec fn pow_bits6(p: nat, al: nat, x: Fp6V, acc: Fp6V, b: u8, k: nat) -> Fp6V
    decreases k,
{
    if k == 0 {
        acc
    } else {
        pow_bits6(
            p,
            al,
            x,
            pow_step6(p, al, x, acc, (b >> ((k - 1) as u8)) & 1 == 1),
            b,
            (k - 1) as nat,
        )
    }
}

/// Exponentiation over the low `j` bytes of a little-endian exponent, most
/// significant byte first.
pub open spec fn pow_bytes6(p: nat, al: nat, x: Fp6V, acc: Fp6V, s: Seq<u8>, j: nat) -> Fp6V
    decreases j,
{
    if j == 0 {
        acc
    } else {
        pow_bytes6(p, al, x, pow_bits6(p, al, x, acc, s[j - 1], 8), s, (j - 1) as nat)
    }
}

/// `x` raised to the little-endian byte exponent by binary
/// square-and-multiply from one.
pub open spec fn pow6_le(p: nat, al: nat, x: Fp6V, s: Seq<u8>) -> Fp6V {
    pow_bytes6(p, al, x, one6(), s, s.len())
}

/// Packs two cubic values into a sextic one.
pub open spec fn a_b6(a: Fp3V, b: Fp3V) -> Fp6V {
    Fp6V { c0: a, c1: b }
}

/// The norm `a^2 - xi b^2` of `a + b v`, as the inverse routine computes
/// it.
pub open spec fn norm6_t(p: nat, al: nat, x: Fp6V) -> Fp3V {
    sub3(p, mul3(p, al, x.c0, x.c0), mulnr3(p, al, mul3(p, al, x.c1, x.c1)))
}

/// Descriptor of the quadratic-over-cubic extension. The non-residue is the
/// cubic indeterminate `u` itself, so `multiply_by_non_residue` rotates
/// coordinates; `frobenius_coeffs_c1[k] = alpha^((p^k - 1)/6)` is the
/// scalar by which `c1` is corrected under the `k`-th Frobenius power.
pub struct Extension2Over3 {
    pub field: Extension3,
    pub non_residue: Fp3,
    pub frobenius_coeffs_c1: Vec<Fp>,
}

impl Extension2Over3 {
    pub open spec fn p(&self) -> nat {
        self.field.p()
    }

    pub open spec fn al(&self) -> nat {
        self.field.al()
    }

    /// The `c1` Frobenius scalar for power `k`.
    pub open spec fn fc1(&self, k: int) -> nat {
        self.frobenius_coeffs_c1@[k]@
    }

    /// The Frobenius action on the model for power `k`.
    pub open spec fn frob6v(&self, x: Fp6V, k: nat) -> Fp6V {
        let t1 = self.field.t1((k % 3) as int);
        let t2 = self.field.t2((k % 3) as int);
        Fp6V {
            c0: frob3(self.p(), t1, t2, x.c0),
            c1: scale3(self.p(), frob3(self.p(), t1, t2, x.c1), self.fc1((k % 6) as int)),
        }
    }

    pub open spec fn wf(&self) -> bool {
        &&& self.field.wf()
        &&& self.non_residue.wf(&self.field)
        &&& self.non_residue@ == crate::laws3::u3()
        &&& self.frobenius_coeffs_c1@.len() == 6
        &&& forall|k: int|
            0 <= k < 6 ==> (#[trigger] self.frobenius_coeffs_c1@[k]).wf(&self.field.field)
        &&& forall|k: int|
            0 <= k < 6 ==> #[trigger] self.fc1(k) == pow_nat(
                self.al(),
                ((pow_nat(self.p(), k as nat) - 1) as nat) / 6,
            ) % self.p()
    }

    /// The tower is a field: the cubic layer is one, and `v^2 - u` is
    /// irreducible over it, the latter stated as what the code needs of
    /// it — the norm `a^2 - u b^2` of a nonzero element is nonzero.
    /// Contracts take this as a hypothesis; it cannot be established at
    /// run time.
    pub open spec fn is_field(&self) -> bool {
        &&& self.field.is_field()
        &&& forall|x: Fp6V|
            reduced6(self.p(), x) && x != zero6() ==> #[trigger] norm6_t(self.p(), self.al(), x)
                != zero3()
    }

    /// Builds the descriptor, computing the `c1` coefficient table from the
    /// modulus and the cubic non-residue; rejects a non-residue other than
    /// the cubic indeterminate `u`, which the arithmetic is specialized to.
    pub fn new(field: Extension3, non_residue: Fp3) -> (r: Option<Extension2Over3>)
        requires
            field.wf(),
            non_residue.wf(&field),
        ensures
            r matches Some(cx) ==> cx.wf() && cx.field == field && cx.non_residue == non_residue,
            r is None ==> non_residue@ != crate::laws3::u3(),
    {
        let one = Fp::one(&field.field);
        if !(non_residue.c0.is_zero() && non_residue.c1.equals(&one) && non_residue.c2.is_zero()) {
            return None;
        }
        let exps = crate::fq3::frob_exponents_n(&field.field, 6, 6);
        let mut c1: Vec<Fp> = Vec::new();
        let mut k: usize = 0;
        while k < 6
            invariant
                0 <= k <= 6,
                field.wf(),
                exps.len() == 6,
                forall|i: int|
                    0 <= i < 6 ==> bytes_val(#[trigger] exps@[i]@) == ((pow_nat(field.p(), i
                        as nat) - 1) as nat) / 6,
                c1.len() == k,
                forall|i: int| 0 <= i < k ==> (#[trigger] c1@[i]).wf(&field.field),
                forall|i: int|
                    0 <= i < k ==> (#[trigger] c1@[i])@ == pow_nat(field.al(), ((pow_nat(
                        field.p(), i as nat) - 1) as nat) / 6) % field.p(),
            decreases 6 - k,
        {
            let t = crate::bignum::mod_pow(&field.non_residue.repr, &exps[k], &field.field.modulus);
            proof {
                crate::fq::lemma_mod_lt(
                    pow_nat(field.al(), ((pow_nat(field.p(), k as nat) - 1) as nat) / 6),
                    field.p(),
                );
            }
            c1.push(Fp { repr: t });
            k += 1;
        }
        Some(Extension2Over3 { field, non_residue, frobenius_coeffs_c1: c1 })
    }

    /// Multiplication of an `Fp3` value by the non-residue `u` of this
    /// extension: rotate the coordinates and wrap through `alpha`.
    pub fn multiply_by_non_residue(&self, el: &mut Fp3)
        requires
            self.wf(),
            old(el).wf(&self.field),
        ensures
            final(el).wf(&self.field),
            final(el)@ == mulnr3(self.p(), self.al(), old(el)@),
    {
        el.mul_by_nonresidue(&self.field);
    }
}

/// An element `c0 + c1*v` of the sextic tower.
pub struct Fp6 {
    pub c0: Fp3,
    pub c1: Fp3,
}

impl View for Fp6 {
    type V = Fp6V;

    open spec fn view(&self) -> Fp6V {
        Fp6V { c0: self.c0@, c1: self.c1@ }
    }
}

impl Fp6 {
    pub open spec fn wf(&self, cx: &Extension2Over3) -> bool {
        self.c0.wf(&cx.field) && self.c1.wf(&cx.field)
    }

    pub fn clone_fp6(&self) -> (r: Fp6)
        ensures
            r@ == self@,
            r.c0.c0.repr@ == self.c0.c0.repr@,
            r.c0.c1.repr@ == self.c0.c1.repr@,
            r.c0.c2.repr@ == self.c0.c2.repr@,
            r.c1.c0.repr@ == self.c1.c0.repr@,
            r.c1.c1.repr@ == self.c1.c1.repr@,
            r.c1.c2.repr@ == self.c1.c2.repr@,
    {
        Fp6 { c0: self.c0.clone_fp3(), c1: self.c1.clone_fp3() }
    }

    pub fn zero(cx: &Extension2Over3) -> (r: Fp6)
        requires
            cx.wf(),
        ensures
            r.wf(cx),
            r@ == zero6(),
    {
        Fp6 { c0: Fp3::zero(&cx.field), c1: Fp3::zero(&cx.field) }
    }

    pub fn one(cx: &Extension2Over3) -> (r: Fp6)
        requires
            cx.wf(),
        ensures
            r.wf(cx),
            r@ == one6(),
    {
        Fp6 { c0: Fp3::one(&cx.field), c1: Fp3::zero(&cx.field) }
    }

    pub fn is_zero(&self, cx: &Extension2Over3) -> (r: bool)
        requires
            cx.wf(),
            self.wf(cx),
        ensures
            r <==> self@ == zero6(),
    {
        self.c0.is_zero(&cx.field) && self.c1.is_zero(&cx.field)
    }

    pub fn equals(&self, cx: &Extension2Over3, other: &Fp6) -> (r: bool)
        requires
            cx.wf(),
            self.wf(cx),
            other.wf(cx),
        ensures
            r <==> self@ == other@,
    {
        self.c0.equals(&cx.field, &other.c0) && self.c1.equals(&cx.field, &other.c1)
    }

    pub fn add_assign(&mut self, cx: &Extension2Over3, other: &Fp6)
        requires
            cx.wf(),
            old(self).wf(cx),
            other.wf(cx),
        ensures
            final(self).wf(cx),
            final(self)@ == add6(cx.p(), old(self)@, other@),
    {
        self.c0.add_assign(&cx.field, &other.c0);
        self.c1.add_assign(&cx.field, &other.c1);
    }

    pub fn sub_assign(&mut self, cx: &Extension2Over3, other: &Fp6)
        requires
            cx.wf(),
            old(self).wf(cx),
            other.wf(cx),
        ensures
            final(self).wf(cx),
            final(self)@ == sub6(cx.p(), old(self)@, other@),
    {
        self.c0.sub_assign(&cx.field, &other.c0);
        self.c1.sub_assign(&cx.field, &other.c1);
    }

    pub fn negate(&mut self, cx: &Extension2Over3)
        requires
            cx.wf(),
            old(self).wf(cx),
        ensures
            final(self).wf(cx),
            final(self)@ == neg6(cx.p(), old(self)@),
    {
        self.c0.negate(&cx.field);
        self.c1.negate(&cx.field);
    }

    /// Doubling is addition with itself.
    pub fn double(&mut self, cx: &Extension2Over3)
        requires
            cx.wf(),
            old(self).wf(cx),
        ensures
            final(self).wf(cx),
            final(self)@ == add6(cx.p(), old(self)@, old(self)@),
    {
        self.c0.double(&cx.field);
        self.c1.double(&cx.field);
    }

    /// Karatsuba product: with `A = a a'`, `B = b b'`,
    /// `C = (a + b)(a' + b') - A - B`, the result is `(A + xi B) + C v`.
    pub fn mul_assign(&mut self, cx: &Extension2Over3, other: &Fp6)
        requires
            cx.wf(),
            old(self).wf(cx),
            other.wf(cx),
        ensures
            final(self).wf(cx),
            final(self)@ == mul6(cx.p(), cx.al(), old(self)@, other@),
    {
        let f3 = &cx.field;
        let ghost pn = cx.p();
        let ghost al = cx.al();
        let ghost a = old(self)@.c0;
        let ghost b = old(self)@.c1;
        let ghost c = other@.c0;
        let ghost d = other@.c1;

        let mut a0a1 = self.c0.clone_fp3();
        a0a1.mul_assign(f3, &other.c0);
        let mut b0b1 = self.c1.clone_fp3();
        b0b1.mul_assign(f3, &other.c1);
        let mut t0 = b0b1.clone_fp3();
        t0.mul_by_nonresidue(f3);
        let mut new_c0 = a0a1.clone_fp3();
        new_c0.add_assign(f3, &t0);

        let mut new_c1 = self.c0.clone_fp3();
        new_c1.add_assign(f3, &self.c1);
        let mut t1 = other.c0.clone_fp3();
        t1.add_assign(f3, &other.c1);
        new_c1.mul_assign(f3, &t1);
        new_c1.sub_assign(f3, &a0a1);
        new_c1.sub_assign(f3, &b0b1);

        proof {
            crate::laws3::lemma_karatsuba_cross(pn, al, a, b, c, d);
        }
        self.c0 = new_c0;
        self.c1 = new_c1;
    }

    /// Squaring is multiplication with itself.
    pub fn square(&mut self, cx: &Extension2Over3)
        requires
            cx.wf(),
            old(self).wf(cx),
        ensures
            final(self).wf(cx),
            final(self)@ == mul6(cx.p(), cx.al(), old(self)@, old(self)@),
    {
        let t = self.clone_fp6();
        self.mul_assign(cx, &t);
    }

    /// Inverse of `a + b v`: with `t = a^2 - xi b^2`, the result is
    /// `a t^{-1} - b t^{-1} v`, proved to multiply back to one. `None`
    /// comes only on zero input or when the norm `t` has no inverse, which
    /// for a field tower means never on nonzero input.
    pub fn inverse(&self, cx: &Extension2Over3) -> (r: Option<Fp6>)
        requires
            cx.wf(),
            self.wf(cx),
        ensures
            r matches Some(w) ==> w.wf(cx) && mul6(cx.p(), cx.al(), self@, w@) == one6(),
            self@ == zero6() ==> r is None,
            cx.is_field() && self@ != zero6() ==> r is Some,
    {
        let ghost pn = cx.p();
        let ghost al = cx.al();
        let ghost a = self@.c0;
        let ghost b = self@.c1;
        let f3 = &cx.field;
        if self.is_zero(cx) {
            return None;
        }
        let mut t1 = self.c1.clone_fp3();
        t1.square(f3);
        let mut t0 = self.c0.clone_fp3();
        t0.square(f3);
        let mut v0 = t1.clone_fp3();
        v0.mul_by_nonresidue(f3);
        t0.sub_assign(f3, &v0);
        proof {
            assert(t0@ == norm6_t(pn, al, self@));
        }
        let t2 = match t0.inverse(f3) {
            Some(v) => v,
            None => {
                proof {
                    if cx.is_field() {
                        assert(norm6_t(pn, al, self@) != zero3());
                        assert(false);
                    }
                }
                return None;
            },
        };
        let mut w0 = self.c0.clone_fp3();
        w0.mul_assign(f3, &t2);
        let mut w1 = self.c1.clone_fp3();
        w1.mul_assign(f3, &t2);
        w1.negate(f3);
        let w = Fp6 { c0: w0, c1: w1 };
        proof {
            let tv = norm6_t(pn, al, a_b6(a, b));
            let t2v = t2@;
            let aa = mul3(pn, al, a, a);
            let bb = mul3(pn, al, b, b);
            let xibb = mulnr3(pn, al, bb);
            crate::laws3::lemma_mul3_reduced(pn, al, a, a);
            crate::laws3::lemma_mul3_reduced(pn, al, b, b);
            crate::fq::lemma_mod_lt(al * bb.c2, pn);
            // first coordinate: a (a t2) + xi (b (-(b t2))) == (aa - xi bb) t2 == 1
            crate::laws3::lemma_mul3_assoc(pn, al, a, a, t2v);
            crate::laws3::lemma_mul3_negr(pn, al, b, mul3(pn, al, b, t2v));
            crate::laws3::lemma_mul3_assoc(pn, al, b, b, t2v);
            crate::laws3::lemma_mulnr3_neg(pn, al, mul3(pn, al, bb, t2v));
            crate::laws3::lemma_mulnr3_left(pn, al, bb, t2v);
            crate::laws3::lemma_mul3_reduced(pn, al, aa, t2v);
            crate::laws3::lemma_mul3_reduced(pn, al, xibb, t2v);
            crate::laws3::lemma_add3_negr(
                pn,
                mul3(pn, al, aa, t2v),
                mul3(pn, al, xibb, t2v),
            );
            crate::laws3::lemma_mul3_sub_distribr(pn, al, aa, xibb, t2v);
            // second coordinate: a (-(b t2)) + b (a t2) == 0
            crate::laws3::lemma_mul3_negr(pn, al, a, mul3(pn, al, b, t2v));
            crate::laws3::lemma_mul3_assoc(pn, al, a, b, t2v);
            crate::laws3::lemma_mul3_assoc(pn, al, b, a, t2v);
            crate::laws3::lemma_mul3_comm(pn, al, a, b);
            crate::laws3::lemma_mul3_reduced(pn, al, mul3(pn, al, a, b), t2v);
            crate::laws3::lemma_add3_neg_self(pn, mul3(pn, al, mul3(pn, al, a, b), t2v));
            assert(mul6(pn, al, self@, w@) == one6());
        }
        Some(w)
    }


    /// Frobenius action: componentwise cubic Frobenius, then scale `c1` by
    /// the table entry for `power mod 6`.
    pub fn frobenius_map(&mut self, cx: &Extension2Over3, power: usize)
        requires
            cx.wf(),
            old(self).wf(cx),
        ensures
            final(self).wf(cx),
            final(self)@ == cx.frob6v(old(self)@, power as nat),
    {
        self.c0.frobenius_map(&cx.field, power);
        self.c1.frobenius_map(&cx.field, power);
        let k = power % 6;
        self.c1.mul_by_fp(&cx.field, &cx.frobenius_coeffs_c1[k]);
        proof {
            assert((power as nat) % 3 == ((power % 3) as nat));
            assert((power as nat) % 6 == ((power % 6) as nat));
        }
    }

    /// Left-to-right binary exponentiation by a little-endian byte exponent.
    pub fn pow(&self, cx: &Extension2Over3, exp: &Vec<u8>) -> (r: Fp6)
        requires
            cx.wf(),
            self.wf(cx),
        ensures
            r.wf(cx),
            r@ == pow6_le(cx.p(), cx.al(), self@, exp@),
    {
        let ghost pn = cx.p();
        let ghost al = cx.al();
        let ghost xv = self@;
        let mut res = Fp6::one(cx);
        let mut j: usize = exp.len();
        while j > 0
            invariant
                cx.wf(),
                self.wf(cx),
                pn == cx.p(),
                al == cx.al(),
                xv == self@,
                j <= exp.len(),
                res.wf(cx),
                pow_bytes6(pn, al, xv, res@, exp@, j as nat) == pow6_le(pn, al, xv, exp@),
            decreases j,
        {
            j -= 1;
            let b = exp[j];
            let ghost res_start = res@;
            let mut k: u8 = 8;
            while k > 0
                invariant
                    cx.wf(),
                    self.wf(cx),
                    pn == cx.p(),
                    al == cx.al(),
                    xv == self@,
                    k <= 8,
                    res.wf(cx),
                    pow_bits6(pn, al, xv, res@, b, k as nat) == pow_bits6(
                        pn,
                        al,
                        xv,
                        res_start,
                        b,
                        8,
                    ),
                decreases k,
            {
                k -= 1;
                let ghost prev = res@;
                let bit = (b >> k) & 1 == 1;
                res.square(cx);
                if bit {
                    res.mul_assign(cx, self);
                    proof {
                        assert(res@ == mul6(pn, al, mul6(pn, al, prev, prev), xv));
                    }
                } else {
                    proof {
                        assert(res@ == mul6(pn, al, prev, prev));
                    }
                }
                proof {
                    assert(res@ == pow_step6(pn, al, xv, prev, bit));
                    assert(bit == ((b >> k) & 1 == 1));
                    assert(res@ == pow_step6(pn, al, xv, prev, (b >> k) & 1 == 1));
                    assert(pow_bits6(pn, al, xv, prev, b, (k + 1) as nat) == pow_bits6(
                        pn,
                        al,
                        xv,
                        res@,
                        b,
                        k as nat,
                    ));
                }
            }
            proof {
                assert(res@ == pow_bits6(pn, al, xv, res_start, b, 8));
                assert(pow_bytes6(pn, al, xv, res_start, exp@, (j + 1) as nat) == pow_bytes6(
                    pn,
                    al,
                    xv,
                    res@,
                    exp@,
                    j as nat,
                ));
            }
        }
        res
    }

    /// Exponentiation inside the cyclotomic subgroup; the operand has been
    /// mapped there by the easy part of the final exponentiation, and plain
    /// square-and-multiply is used.
    pub fn cyclotomic_exp(&self, cx: &Extension2Over3, exp: &Vec<u8>) -> (r: Fp6)
        requires
            cx.wf(),
            self.wf(cx),
        ensures
            r.wf(cx),
            r@ == pow6_le(cx.p(), cx.al(), self@, exp@),
    {
        self.pow(cx, exp)
    }
}

} // verus!
