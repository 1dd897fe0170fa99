//! The pairing engine: Miller loop over the bits of the loop scalar `x`,
//! then a two-stage final exponentiation. The whole loop is specified as a
//! fold (`miller_bytes`) over the scalar's bits, most significant first,
//! mirroring the doubling/addition line evaluations step for step.

use crate::fq::{add_p, mul_p, Fp, PrimeField};
use crate::fq3::{
    add3, mul3, one3, reduced3, scale3, sub3, zero3, Extension3, Fp3, Fp3V,
};
use crate::fq6::{mul6, one6, reduced6, zero6, Extension2Over3, Fp6, Fp6V, pow6_le};
use crate::laws3::{lemma_mul3_assoc, lemma_mul3_comm, lemma_mul3_one};
use vstd::prelude::*;

verus! {

/// The short Weierstrass curve over the base field.
pub struct WeierstrassCurve {
    pub a: Fp,
    pub b: Fp,
}

impl WeierstrassCurve {
    pub open spec fn wf(&self, f: &PrimeField) -> bool {
        self.a.wf(f) && self.b.wf(f)
    }

    pub fn new(a: Fp, b: Fp) -> (r: WeierstrassCurve)
        ensures
            r.a == a,
            r.b == b,
    {
        WeierstrassCurve { a, b }
    }
}

/// The cubic twist: a short Weierstrass curve with coefficients in `Fp3`.
pub struct WeierstrassCurveTwist {
    pub a: Fp3,
    pub b: Fp3,
}

impl WeierstrassCurveTwist {
    pub open spec fn wf(&self, cx: &Extension3) -> bool {
        self.a.wf(cx) && self.b.wf(cx)
    }

    pub fn new(a: Fp3, b: Fp3) -> (r: WeierstrassCurveTwist)
        ensures
            r.a == a,
            r.b == b,
    {
        WeierstrassCurveTwist { a, b }
    }
}

/// An affine point of the curve over the base field, or infinity.
pub struct CurvePoint {
    pub x: Fp,
    pub y: Fp,
    pub infinity: bool,
}

impl CurvePoint {
    pub open spec fn wf(&self, f: &PrimeField) -> bool {
        self.x.wf(f) && self.y.wf(f)
    }

    pub fn point_from_xy(f: &PrimeField, x: Fp, y: Fp) -> (r: CurvePoint)
        requires
            f.wf(),
            x.wf(f),
            y.wf(f),
        ensures
            r.wf(f),
            !r.infinity,
            r.x == x,
            r.y == y,
    {
        CurvePoint { x, y, infinity: false }
    }

    pub fn infinity(f: &PrimeField) -> (r: CurvePoint)
        requires
            f.wf(),
        ensures
            r.wf(f),
            r.infinity,
    {
        CurvePoint { x: Fp::zero(f), y: Fp::zero(f), infinity: true }
    }

    /// `y^2 == x^3 + a x + b`, or the point is infinity.
    pub fn check_on_curve(&self, f: &PrimeField, curve: &WeierstrassCurve) -> (r: bool)
        requires
            f.wf(),
            self.wf(f),
            curve.wf(f),
        ensures
            r <==> (self.infinity || mul_p(f.p(), self.y@, self.y@) == add_p(
                f.p(),
                add_p(
                    f.p(),
                    mul_p(f.p(), mul_p(f.p(), self.x@, self.x@), self.x@),
                    mul_p(f.p(), curve.a@, self.x@),
                ),
                curve.b@,
            )),
    {
        if self.infinity {
            return true;
        }
        let mut lhs = self.y.clone_fp();
        lhs.square(f);
        let mut rhs = self.x.clone_fp();
        rhs.square(f);
        rhs.mul_assign(f, &self.x);
        let mut ax = curve.a.clone_fp();
        ax.mul_assign(f, &self.x);
        rhs.add_assign(f, &ax);
        rhs.add_assign(f, &curve.b);
        lhs.equals(&rhs)
    }
}

/// An affine point of the twist, with coordinates in `Fp3`, or infinity.
pub struct TwistPoint {
    pub x: Fp3,
    pub y: Fp3,
    pub infinity: bool,
}

impl TwistPoint {
    pub open spec fn wf(&self, cx: &Extension3) -> bool {
        self.x.wf(cx) && self.y.wf(cx)
    }

    pub fn point_from_xy(cx: &Extension3, x: Fp3, y: Fp3) -> (r: TwistPoint)
        requires
            cx.wf(),
            x.wf(cx),
            y.wf(cx),
        ensures
            r.wf(cx),
            !r.infinity,
            r.x == x,
            r.y == y,
    {
        TwistPoint { x, y, infinity: false }
    }

    pub fn infinity(cx: &Extension3) -> (r: TwistPoint)
        requires
            cx.wf(),
        ensures
            r.wf(cx),
            r.infinity,
    {
        TwistPoint { x: Fp3::zero(cx), y: Fp3::zero(cx), infinity: true }
    }

    /// `y^2 == x^3 + A x + B` on the twist, or the point is infinity.
    pub fn check_on_curve(&self, cx: &Extension3, curve: &WeierstrassCurveTwist) -> (r: bool)
        requires
            cx.wf(),
            self.wf(cx),
            curve.wf(cx),
        ensures
            r <==> (self.infinity || mul3(cx.p(), cx.al(), self.y@, self.y@) == add3(
                cx.p(),
                add3(
                    cx.p(),
                    mul3(cx.p(), cx.al(), mul3(cx.p(), cx.al(), self.x@, self.x@), self.x@),
                    mul3(cx.p(), cx.al(), curve.a@, self.x@),
                ),
                curve.b@,
            )),
    {
        if self.infinity {
            return true;
        }
        let mut lhs = self.y.clone_fp3();
        lhs.square(cx);
        let mut rhs = self.x.clone_fp3();
        rhs.square(cx);
        rhs.mul_assign(cx, &self.x);
        let mut ax = curve.a.clone_fp3();
        ax.mul_assign(cx, &self.x);
        rhs.add_assign(cx, &ax);
        rhs.add_assign(cx, &curve.b);
        lhs.equals(cx, &rhs)
    }
}

/// A cubic-extension value has an inverse.
pub open spec fn invertible3(p: nat, al: nat, z: Fp3V) -> bool {
    exists|w: Fp3V| reduced3(p, w) && mul3(p, al, z, w) == one3()
}

/// The inverse of a cubic-extension value, where one exists.
pub open spec fn inv3s(p: nat, al: nat, z: Fp3V) -> Fp3V {
    choose|w: Fp3V| reduced3(p, w) && mul3(p, al, z, w) == one3()
}

/// Inverses are unique: two right-inverses of the same value coincide.
pub proof fn lemma_inv3_unique(p: nat, al: nat, z: Fp3V, w1: Fp3V, w2: Fp3V)
    requires
        p > 0,
        reduced3(p, w1),
        reduced3(p, w2),
        mul3(p, al, z, w1) == one3(),
        mul3(p, al, z, w2) == one3(),
    ensures
        w1 == w2,
{
    lemma_mul3_one(p, al, w1);
    lemma_mul3_one(p, al, w2);
    lemma_mul3_assoc(p, al, w1, z, w2);
    lemma_mul3_comm(p, al, w1, z);
    lemma_mul3_comm(p, al, w1, mul3(p, al, z, w2));
}

/// A checked inverse pins down the `choose`-based one.
pub proof fn lemma_inv3s_is(p: nat, al: nat, z: Fp3V, w: Fp3V)
    requires
        p > 0,
        reduced3(p, w),
        mul3(p, al, z, w) == one3(),
    ensures
        invertible3(p, al, z),
        inv3s(p, al, z) == w,
{
    assert(invertible3(p, al, z));
    let w0 = inv3s(p, al, z);
    assert(reduced3(p, w0) && mul3(p, al, z, w0) == one3()) by {
        assert(exists|v: Fp3V| reduced3(p, v) && mul3(p, al, z, v) == one3());
    }
    lemma_inv3_unique(p, al, z, w0, w);
}

/// Zero has no inverse in the cubic extension.
pub proof fn lemma_zero3_not_invertible(p: nat, al: nat)
    requires
        p > 0,
    ensures
        !invertible3(p, al, zero3()),
{
    if invertible3(p, al, zero3()) {
        let w = choose|w: Fp3V| reduced3(p, w) && mul3(p, al, zero3(), w) == one3();
        crate::laws3::lemma_mul3_zero(p, al, w);
    }
}

/// Zero times anything is not one in the sextic extension.
pub proof fn lemma_zero6_not_unit(p: nat, al: nat, w: Fp6V)
    requires
        p > 0,
    ensures
        mul6(p, al, zero6(), w) != one6(),
{
    crate::laws3::lemma_mul3_zero(p, al, w.c0);
    crate::laws3::lemma_mul3_zero(p, al, w.c1);
    vstd::arithmetic::div_mod::lemma_small_mod(0, p);
}

/// The constants a Miller loop step reads: the modulus, the cubic
/// non-residue, the twist's `A`, the twist constant `tau`, the precomputed
/// `tau^2 * Py`, and the affine coordinates of `P` and `Q`.
pub struct MillerCtx {
    pub p: nat,
    pub al: nat,
    pub atw: Fp3V,
    pub tw: Fp3V,
    pub pyts: Fp3V,
    pub px: nat,
    pub qx: Fp3V,
    pub qy: Fp3V,
}

/// A Miller loop state: whether the leading one bit has been seen, the
/// running point `R`, and the accumulator `f`.
pub struct MillerSt {
    pub started: bool,
    pub rx: Fp3V,
    pub ry: Fp3V,
    pub f: Fp6V,
}

/// The tangent slope at `R`: `(3 Rx^2 + A) / (2 Ry)`.
pub open spec fn dbl_gamma(c: MillerCtx, st: MillerSt) -> Fp3V {
    let sq = mul3(c.p, c.al, st.rx, st.rx);
    let num = add3(c.p, add3(c.p, add3(c.p, sq, sq), sq), c.atw);
    mul3(c.p, c.al, num, inv3s(c.p, c.al, add3(c.p, st.ry, st.ry)))
}

pub open spec fn dbl_ok(c: MillerCtx, st: MillerSt) -> bool {
    invertible3(c.p, c.al, add3(c.p, st.ry, st.ry))
}

/// One doubling step with its line evaluation absorbed into `f`.
pub open spec fn dbl_step(c: MillerCtx, st: MillerSt) -> MillerSt {
    let gamma = dbl_gamma(c, st);
    let gtw = mul3(c.p, c.al, gamma, c.tw);
    let g_rx = mul3(c.p, c.al, gamma, st.rx);
    let gtw_px = scale3(c.p, gtw, c.px);
    let ell = Fp6V { c0: c.pyts, c1: sub3(c.p, sub3(c.p, g_rx, st.ry), gtw_px) };
    let rx2 = sub3(c.p, mul3(c.p, c.al, gamma, gamma), add3(c.p, st.rx, st.rx));
    let ry2 = sub3(c.p, mul3(c.p, c.al, gamma, sub3(c.p, st.rx, rx2)), st.ry);
    let f2 = mul6(c.p, c.al, mul6(c.p, c.al, st.f, st.f), ell);
    MillerSt { started: true, rx: rx2, ry: ry2, f: f2 }
}

/// The chord slope through `R` and `Q`: `(Ry - Qy) / (Rx - Qx)`.
pub open spec fn add_gamma(c: MillerCtx, st: MillerSt) -> Fp3V {
    mul3(
        c.p,
        c.al,
        sub3(c.p, st.ry, c.qy),
        inv3s(c.p, c.al, sub3(c.p, st.rx, c.qx)),
    )
}

pub open spec fn add_ok(c: MillerCtx, st: MillerSt) -> bool {
    invertible3(c.p, c.al, sub3(c.p, st.rx, c.qx))
}

/// One addition step with its line evaluation absorbed into `f`.
pub open spec fn add_step(c: MillerCtx, st: MillerSt) -> MillerSt {
    let gamma = add_gamma(c, st);
    let gtw = mul3(c.p, c.al, gamma, c.tw);
    let g_qx = mul3(c.p, c.al, gamma, c.qx);
    let gtw_px = scale3(c.p, gtw, c.px);
    let ell = Fp6V { c0: c.pyts, c1: sub3(c.p, sub3(c.p, g_qx, c.qy), gtw_px) };
    let rx2 = sub3(c.p, sub3(c.p, mul3(c.p, c.al, gamma, gamma), st.rx), c.qx);
    let ry2 = sub3(c.p, mul3(c.p, c.al, sub3(c.p, st.rx, rx2), gamma), st.ry);
    MillerSt { started: true, rx: rx2, ry: ry2, f: mul6(c.p, c.al, st.f, ell) }
}

/// One bit of the Miller loop: bits before the leading one only arm the
/// loop; afterwards each bit doubles, and a set bit also adds.
pub open spec fn miller_step(c: MillerCtx, st: MillerSt, bit: bool) -> MillerSt {
    if !st.started {
        if bit {
            MillerSt { started: true, ..st }
        } else {
            st
        }
    } else {
        let d = dbl_step(c, st);
        if bit {
            add_step(c, d)
        } else {
            d
        }
    }
}

/// The slopes a step needs are defined.
pub open spec fn miller_step_ok(c: MillerCtx, st: MillerSt, bit: bool) -> bool {
    st.started ==> (dbl_ok(c, st) && (bit ==> add_ok(c, dbl_step(c, st))))
}

/// Steps for the top `k` bits of one byte, most significant first.
pub open spec fn miller_bits(c: MillerCtx, st: MillerSt, b: u8, k: nat) -> MillerSt
    decreases k,
{
    if k == 0 {
        st
    } else {
        miller_bits(c, miller_step(c, st, (b >> ((k - 1) as u8)) & 1 == 1), b, (k - 1) as nat)
    }
}

pub open spec fn miller_bits_ok(c: MillerCtx, st: MillerSt, b: u8, k: nat) -> bool
    decreases k,
{
    if k == 0 {
        true
    } else {
        let bit = (b >> ((k - 1) as u8)) & 1 == 1;
        miller_step_ok(c, st, bit) && miller_bits_ok(c, miller_step(c, st, bit), b, (k - 1) as nat)
    }
}

/// The whole loop over the low `j` bytes of the little-endian scalar, most
/// significant byte first.
pub open spec fn miller_bytes(c: MillerCtx, st: MillerSt, s: Seq<u8>, j: nat) -> MillerSt
    decreases j,
{
    if j == 0 {
        st
    } else {
        miller_bytes(c, miller_bits(c, st, s[j - 1], 8), s, (j - 1) as nat)
    }
}

pub open spec fn miller_bytes_ok(c: MillerCtx, st: MillerSt, s: Seq<u8>, j: nat) -> bool
    decreases j,
{
    if j == 0 {
        true
    } else {
        miller_bits_ok(c, st, s[j - 1], 8) && miller_bytes_ok(
            c,
            miller_bits(c, st, s[j - 1], 8),
            s,
            (j - 1) as nat,
        )
    }
}

/// The pairing engine: the Miller loop scalar `x` with its sign, the two
/// final-exponentiation exponents, the curve, its cubic twist, the twist
/// constant `tau`, and the extension tower descriptor.
pub struct CPInstance6 {
    pub x: Vec<u8>,
    pub x_is_negative: bool,
    pub exp_w0: Vec<u8>,
    pub exp_w1: Vec<u8>,
    pub exp_w0_is_negative: bool,
    pub curve: WeierstrassCurve,
    pub curve_twist: WeierstrassCurveTwist,
    pub twist: Fp3,
    pub fp6_extension: Extension2Over3,
}

impl CPInstance6 {
    pub open spec fn p(&self) -> nat {
        self.fp6_extension.p()
    }

    pub open spec fn al(&self) -> nat {
        self.fp6_extension.al()
    }

    pub open spec fn wf(&self) -> bool {
        &&& self.fp6_extension.wf()
        &&& self.curve.wf(&self.fp6_extension.field.field)
        &&& self.curve_twist.wf(&self.fp6_extension.field)
        &&& self.twist.wf(&self.fp6_extension.field)
    }

    /// The whole tower is a field (prime base modulus, both extension
    /// polynomials irreducible): the hypothesis under which the engine's
    /// slope inversions and final inversion are total on nonzero input.
    pub open spec fn tower_field(&self) -> bool {
        self.fp6_extension.is_field()
    }

    /// The step constants for one `(P, Q)` pair.
    pub open spec fn mctx(&self, pt: CurvePoint, tw: TwistPoint) -> MillerCtx {
        MillerCtx {
            p: self.p(),
            al: self.al(),
            atw: self.curve_twist.a@,
            tw: self.twist@,
            pyts: scale3(self.p(), mul3(self.p(), self.al(), self.twist@, self.twist@), pt.y@),
            px: pt.x@,
            qx: tw.x@,
            qy: tw.y@,
        }
    }

    /// The loop's starting state for one pair: `R = Q`, `f = 1`.
    pub open spec fn minit(&self, tw: TwistPoint) -> MillerSt {
        MillerSt { started: false, rx: tw.x@, ry: tw.y@, f: one6() }
    }

    /// The Miller value of one pair: the fold over all bits of `x`.
    pub open spec fn pair_val(&self, pt: CurvePoint, tw: TwistPoint) -> Fp6V {
        miller_bytes(self.mctx(pt, tw), self.minit(tw), self.x@, self.x@.len()).f
    }

    pub open spec fn pair_ok(&self, pt: CurvePoint, tw: TwistPoint) -> bool {
        miller_bytes_ok(self.mctx(pt, tw), self.minit(tw), self.x@, self.x@.len())
    }

    /// The Miller loop for one pair of affine points. `Some(f)` is exactly
    /// the fold of the doubling/addition line steps over the bits of `x`
    /// from the most significant set bit (exclusive) downwards; `None`
    /// means a slope inversion failed (a degenerate configuration).
    pub fn ate_pairing_loop(&self, point: &CurvePoint, twist_point: &TwistPoint) -> (r: Option<
        Fp6,
    >)
        requires
            self.wf(),
            point.wf(&self.fp6_extension.field.field),
            twist_point.wf(&self.fp6_extension.field),
            !point.infinity,
            !twist_point.infinity,
        ensures
            r matches Some(f6) ==> f6.wf(&self.fp6_extension) && self.pair_ok(
                *point,
                *twist_point,
            ) && f6@ == self.pair_val(*point, *twist_point),
            self.tower_field() && self.pair_ok(*point, *twist_point) ==> r is Some,
    {
        let ghost c = self.mctx(*point, *twist_point);
        let ghost s = self.x@;

        let px = point.x.clone_fp();
        let py = point.y.clone_fp();
        let qx = twist_point.x.clone_fp3();
        let qy = twist_point.y.clone_fp3();
        let mut py_twist_squared = self.twist.clone_fp3();
        py_twist_squared.square(&self.fp6_extension.field);
        py_twist_squared.mul_by_fp(&self.fp6_extension.field, &py);

        let mut rx = qx.clone_fp3();
        let mut ry = qy.clone_fp3();
        let mut f = Fp6::one(&self.fp6_extension);
        let mut started: bool = false;

        let ghost total = self.x@.len();
        let mut j: usize = self.x.len();
        while j > 0
            invariant
                self.wf(),
                point.wf(&self.fp6_extension.field.field),
                twist_point.wf(&self.fp6_extension.field),
                c == self.mctx(*point, *twist_point),
                s == self.x@,
                py_twist_squared@ == c.pyts,
                py_twist_squared.wf(&self.fp6_extension.field),
                qx@ == c.qx,
                qy@ == c.qy,
                qx.wf(&self.fp6_extension.field),
                qy.wf(&self.fp6_extension.field),
                px@ == c.px,
                px.wf(&self.fp6_extension.field.field),
                j <= self.x@.len(),
                rx.wf(&self.fp6_extension.field),
                ry.wf(&self.fp6_extension.field),
                f.wf(&self.fp6_extension),
                miller_bytes(c, cur_st(started, rx@, ry@, f@), s, j as nat) == miller_bytes(
                    c,
                    self.minit(*twist_point),
                    s,
                    s.len(),
                ),
                miller_bytes_ok(c, cur_st(started, rx@, ry@, f@), s, j as nat) ==> miller_bytes_ok(
                    c,
                    self.minit(*twist_point),
                    s,
                    s.len(),
                ),
                miller_bytes_ok(c, self.minit(*twist_point), s, s.len()) ==> miller_bytes_ok(
                    c,
                    cur_st(started, rx@, ry@, f@),
                    s,
                    j as nat,
                ),
            decreases j,
        {
            j -= 1;
            let b = self.x[j];
            let ghost byte_st = cur_st(started, rx@, ry@, f@);
            proof {
                if miller_bytes_ok(c, self.minit(*twist_point), s, s.len()) {
                    assert(miller_bytes_ok(c, byte_st, s, (j + 1) as nat));
                    assert(miller_bits_ok(c, byte_st, s[j as int], 8));
                }
            }
            let mut k: u8 = 8;
            while k > 0
                invariant
                    self.wf(),
                    c == self.mctx(*point, *twist_point),
                    py_twist_squared@ == c.pyts,
                    py_twist_squared.wf(&self.fp6_extension.field),
                    qx@ == c.qx,
                    qy@ == c.qy,
                    qx.wf(&self.fp6_extension.field),
                    qy.wf(&self.fp6_extension.field),
                    px@ == c.px,
                    px.wf(&self.fp6_extension.field.field),
                    k <= 8,
                    rx.wf(&self.fp6_extension.field),
                    ry.wf(&self.fp6_extension.field),
                    f.wf(&self.fp6_extension),
                    miller_bits(c, cur_st(started, rx@, ry@, f@), b, k as nat) == miller_bits(
                        c,
                        byte_st,
                        b,
                        8,
                    ),
                    miller_bits_ok(c, cur_st(started, rx@, ry@, f@), b, k as nat)
                        ==> miller_bits_ok(c, byte_st, b, 8),
                    s == self.x@,
                    twist_point.wf(&self.fp6_extension.field),
                    miller_bytes_ok(c, self.minit(*twist_point), s, s.len()) ==> miller_bits_ok(
                        c,
                        byte_st,
                        b,
                        8,
                    ),
                    miller_bits_ok(c, byte_st, b, 8) ==> miller_bits_ok(
                        c,
                        cur_st(started, rx@, ry@, f@),
                        b,
                        k as nat,
                    ),
                decreases k,
            {
                k -= 1;
                let bit = (b >> k) & 1 == 1;
                let ghost prev = cur_st(started, rx@, ry@, f@);
                if !started {
                    if bit {
                        started = true;
                    }
                } else {
                    // doubling step
                    let mut sq = rx.clone_fp3();
                    sq.square(&self.fp6_extension.field);
                    let mut num = sq.clone_fp3();
                    num.double(&self.fp6_extension.field);
                    num.add_assign(&self.fp6_extension.field, &sq);
                    num.add_assign(&self.fp6_extension.field, &self.curve_twist.a);
                    let mut den = ry.clone_fp3();
                    den.double(&self.fp6_extension.field);
                    let den_inv = match den.inverse(&self.fp6_extension.field) {
                        Some(w) => w,
                        None => {
                            proof {
                                if self.tower_field() && miller_bytes_ok(
                                    c,
                                    self.minit(*twist_point),
                                    s,
                                    s.len(),
                                ) {
                                    assert(miller_bits_ok(c, prev, b, (k + 1) as nat));
                                    assert(miller_step_ok(c, prev, bit));
                                    assert(dbl_ok(c, prev));
                                    assert(den@ == add3(c.p, prev.ry, prev.ry));
                                    lemma_zero3_not_invertible(c.p, c.al);
                                    assert(den@ != zero3());
                                    assert(false);
                                }
                            }
                            return None;
                        },
                    };
                    proof {
                        lemma_inv3s_is(c.p, c.al, den@, den_inv@);
                    }
                    let mut gamma = num.clone_fp3();
                    gamma.mul_assign(&self.fp6_extension.field, &den_inv);
                    let mut gamma_twist = gamma.clone_fp3();
                    gamma_twist.mul_assign(&self.fp6_extension.field, &self.twist);
                    let mut gamma_rx = gamma.clone_fp3();
                    gamma_rx.mul_assign(&self.fp6_extension.field, &rx);
                    let mut gamma_twist_px = gamma_twist.clone_fp3();
                    gamma_twist_px.mul_by_fp(&self.fp6_extension.field, &px);
                    let ell_c0 = py_twist_squared.clone_fp3();
                    let mut ell_c1 = gamma_rx.clone_fp3();
                    ell_c1.sub_assign(&self.fp6_extension.field, &ry);
                    ell_c1.sub_assign(&self.fp6_extension.field, &gamma_twist_px);
                    let ell = Fp6 { c0: ell_c0, c1: ell_c1 };

                    let old_rx = rx.clone_fp3();
                    rx = gamma.clone_fp3();
                    rx.square(&self.fp6_extension.field);
                    let mut t0 = old_rx.clone_fp3();
                    t0.double(&self.fp6_extension.field);
                    rx.sub_assign(&self.fp6_extension.field, &t0);
                    let mut t1 = old_rx.clone_fp3();
                    t1.sub_assign(&self.fp6_extension.field, &rx);
                    let old_ry = ry.clone_fp3();
                    ry = gamma.clone_fp3();
                    ry.mul_assign(&self.fp6_extension.field, &t1);
                    ry.sub_assign(&self.fp6_extension.field, &old_ry);

                    f.square(&self.fp6_extension);
                    f.mul_assign(&self.fp6_extension, &ell);
                    proof {
                        assert(cur_st(started, rx@, ry@, f@) == dbl_step(c, prev));
                    }

                    if bit {
                        let ghost dst = cur_st(started, rx@, ry@, f@);
                        let mut t0 = ry.clone_fp3();
                        t0.sub_assign(&self.fp6_extension.field, &qy);
                        let mut t1 = rx.clone_fp3();
                        t1.sub_assign(&self.fp6_extension.field, &qx);
                        let t1_inv = match t1.inverse(&self.fp6_extension.field) {
                            Some(w) => w,
                            None => {
                                proof {
                                    if self.tower_field() && miller_bytes_ok(
                                        c,
                                        self.minit(*twist_point),
                                        s,
                                        s.len(),
                                    ) {
                                        assert(miller_bits_ok(c, prev, b, (k + 1) as nat));
                                        assert(miller_step_ok(c, prev, bit));
                                        assert(add_ok(c, dst));
                                        assert(t1@ == sub3(c.p, dst.rx, c.qx));
                                        lemma_zero3_not_invertible(c.p, c.al);
                                        assert(t1@ != zero3());
                                        assert(false);
                                    }
                                }
                                return None;
                            },
                        };
                        proof {
                            lemma_inv3s_is(c.p, c.al, t1@, t1_inv@);
                        }
                        let mut gamma = t0.clone_fp3();
                        gamma.mul_assign(&self.fp6_extension.field, &t1_inv);
                        let mut gamma_twist = gamma.clone_fp3();
                        gamma_twist.mul_assign(&self.fp6_extension.field, &self.twist);
                        let mut gamma_qx = gamma.clone_fp3();
                        gamma_qx.mul_assign(&self.fp6_extension.field, &qx);
                        let mut gamma_twist_px = gamma_twist.clone_fp3();
                        gamma_twist_px.mul_by_fp(&self.fp6_extension.field, &px);
                        let ell_c0 = py_twist_squared.clone_fp3();
                        let mut ell_c1 = gamma_qx.clone_fp3();
                        ell_c1.sub_assign(&self.fp6_extension.field, &qy);
                        ell_c1.sub_assign(&self.fp6_extension.field, &gamma_twist_px);
                        let ell2 = Fp6 { c0: ell_c0, c1: ell_c1 };

                        let old_rx = rx.clone_fp3();
                        rx = gamma.clone_fp3();
                        rx.square(&self.fp6_extension.field);
                        rx.sub_assign(&self.fp6_extension.field, &old_rx);
                        rx.sub_assign(&self.fp6_extension.field, &qx);
                        let mut t2 = old_rx.clone_fp3();
                        t2.sub_assign(&self.fp6_extension.field, &rx);
                        let old_ry = ry.clone_fp3();
                        ry = t2.clone_fp3();
                        ry.mul_assign(&self.fp6_extension.field, &gamma);
                        ry.sub_assign(&self.fp6_extension.field, &old_ry);

                        f.mul_assign(&self.fp6_extension, &ell2);
                        proof {
                            assert(cur_st(started, rx@, ry@, f@) == add_step(c, dst));
                        }
                    }
                }
                proof {
                    assert(cur_st(started, rx@, ry@, f@) == miller_step(c, prev, bit));
                    assert(miller_step_ok(c, prev, bit));
                    assert(miller_bits(c, prev, b, (k + 1) as nat) == miller_bits(
                        c,
                        cur_st(started, rx@, ry@, f@),
                        b,
                        k as nat,
                    ));
                    assert(miller_bits_ok(c, prev, b, (k + 1) as nat) ==> miller_bits_ok(
                        c,
                        cur_st(started, rx@, ry@, f@),
                        b,
                        k as nat,
                    ));
                }
            }
            proof {
                assert(cur_st(started, rx@, ry@, f@) == miller_bits(c, byte_st, b, 8));
                if miller_bytes_ok(c, self.minit(*twist_point), s, s.len()) {
                    assert(miller_bytes_ok(c, byte_st, s, (j + 1) as nat));
                    assert(miller_bytes_ok(c, cur_st(started, rx@, ry@, f@), s, j as nat));
                }
            }
        }
        proof {
            assert(miller_bytes(c, cur_st(started, rx@, ry@, f@), s, 0) == cur_st(
                started,
                rx@,
                ry@,
                f@,
            ));
        }
        Some(f)
    }

    /// The product of the per-pair Miller values over the first `n` pairs,
    /// skipping pairs that contain the point at infinity.
    pub open spec fn miller_prod(
        &self,
        points: Seq<CurvePoint>,
        twists: Seq<TwistPoint>,
        n: nat,
    ) -> Fp6V
        decreases n,
    {
        if n == 0 {
            one6()
        } else {
            let prev = self.miller_prod(points, twists, (n - 1) as nat);
            if points[n - 1].infinity || twists[n - 1].infinity {
                prev
            } else {
                mul6(self.p(), self.al(), prev, self.pair_val(points[n - 1], twists[n - 1]))
            }
        }
    }

    pub open spec fn miller_prod_ok(
        &self,
        points: Seq<CurvePoint>,
        twists: Seq<TwistPoint>,
        n: nat,
    ) -> bool
        decreases n,
    {
        if n == 0 {
            true
        } else {
            self.miller_prod_ok(points, twists, (n - 1) as nat) && (!(points[n - 1].infinity
                || twists[n - 1].infinity) ==> self.pair_ok(points[n - 1], twists[n - 1]))
        }
    }

    /// When all first `n` pairs have defined slopes, so does each one.
    pub proof fn lemma_prod_ok_at(
        &self,
        points: Seq<CurvePoint>,
        twists: Seq<TwistPoint>,
        n: nat,
        i: int,
    )
        requires
            self.miller_prod_ok(points, twists, n),
            0 <= i < n,
            !(points[i].infinity || twists[i].infinity),
        ensures
            self.pair_ok(points[i], twists[i]),
        decreases n,
    {
        if i < n - 1 {
            self.lemma_prod_ok_at(points, twists, (n - 1) as nat, i);
        }
    }

    /// Multiplies the Miller values of the pairs, elementwise over the two
    /// slices truncated to the shorter; a pair holding the point at
    /// infinity contributes the identity.
    pub fn miller_loop(&self, points: &Vec<CurvePoint>, twists: &Vec<TwistPoint>) -> (r: Option<
        Fp6,
    >)
        requires
            self.wf(),
            forall|i: int|
                0 <= i < points.len() ==> (#[trigger] points[i]).wf(
                    &self.fp6_extension.field.field,
                ),
            forall|i: int|
                0 <= i < twists.len() ==> (#[trigger] twists[i]).wf(&self.fp6_extension.field),
        ensures
            r matches Some(f6) ==> {
                let n = vstd::math::min(points.len() as int, twists.len() as int) as nat;
                f6.wf(&self.fp6_extension) && self.miller_prod_ok(points@, twists@, n)
                    && f6@ == self.miller_prod(points@, twists@, n)
            },
            self.tower_field() && self.miller_prod_ok(
                points@,
                twists@,
                vstd::math::min(points.len() as int, twists.len() as int) as nat,
            ) ==> r is Some,
    {
        let n = if points.len() < twists.len() {
            points.len()
        } else {
            twists.len()
        };
        let mut f = Fp6::one(&self.fp6_extension);
        let mut i: usize = 0;
        while i < n
            invariant
                self.wf(),
                n == vstd::math::min(points@.len() as int, twists@.len() as int),
                forall|ii: int|
                    0 <= ii < points.len() ==> (#[trigger] points[ii]).wf(
                        &self.fp6_extension.field.field,
                    ),
                forall|ii: int|
                    0 <= ii < twists.len() ==> (#[trigger] twists[ii]).wf(
                        &self.fp6_extension.field,
                    ),
                0 <= i <= n,
                f.wf(&self.fp6_extension),
                self.miller_prod_ok(points@, twists@, i as nat),
                f@ == self.miller_prod(points@, twists@, i as nat),
            decreases n - i,
        {
            let pt = &points[i];
            let tw = &twists[i];
            if !pt.infinity && !tw.infinity {
                let g = match self.ate_pairing_loop(pt, tw) {
                    Some(g) => g,
                    None => {
                        proof {
                            let ghost nn = vstd::math::min(
                                points@.len() as int,
                                twists@.len() as int,
                            ) as nat;
                            if self.tower_field() && self.miller_prod_ok(points@, twists@, nn) {
                                self.lemma_prod_ok_at(points@, twists@, nn, i as int);
                                assert(false);
                            }
                        }
                        return None;
                    },
                };
                f.mul_assign(&self.fp6_extension, &g);
            }
            i += 1;
        }
        Some(f)
    }

    /// Stage one of the final exponentiation: `elt^((p^3 - 1)(p + 1))`,
    /// with the inverse of `elt` supplied by the caller.
    pub open spec fn part_one_v(&self, e: Fp6V, ei: Fp6V) -> Fp6V {
        let t = mul6(self.p(), self.al(), self.fp6_extension.frob6v(e, 3), ei);
        mul6(self.p(), self.al(), self.fp6_extension.frob6v(t, 1), t)
    }

    pub fn final_exponentiation_part_one(&self, elt: &Fp6, elt_inv: &Fp6) -> (r: Fp6)
        requires
            self.wf(),
            elt.wf(&self.fp6_extension),
            elt_inv.wf(&self.fp6_extension),
        ensures
            r.wf(&self.fp6_extension),
            r@ == self.part_one_v(elt@, elt_inv@),
    {
        let cx6 = &self.fp6_extension;
        let mut elt_q3 = elt.clone_fp6();
        elt_q3.frobenius_map(cx6, 3);
        let mut elt_q3_over_elt = elt_q3;
        elt_q3_over_elt.mul_assign(cx6, elt_inv);
        let mut alpha = elt_q3_over_elt.clone_fp6();
        alpha.frobenius_map(cx6, 1);
        alpha.mul_assign(cx6, &elt_q3_over_elt);
        alpha
    }

    /// Stage two: `elt^(w1 p) * elt^(±w0)` computed by cyclotomic
    /// exponentiation, with the sign of `w0` choosing the inverse operand.
    pub open spec fn part_two_v(&self, e: Fp6V, ei: Fp6V) -> Fp6V {
        let w1_part = pow6_le(self.p(), self.al(), self.fp6_extension.frob6v(e, 1), self.exp_w1@);
        let w0_part = if self.exp_w0_is_negative {
            pow6_le(self.p(), self.al(), ei, self.exp_w0@)
        } else {
            pow6_le(self.p(), self.al(), e, self.exp_w0@)
        };
        mul6(self.p(), self.al(), w1_part, w0_part)
    }

    pub fn final_exponentiation_part_two(&self, elt: &Fp6, elt_inv: &Fp6) -> (r: Fp6)
        requires
            self.wf(),
            elt.wf(&self.fp6_extension),
            elt_inv.wf(&self.fp6_extension),
        ensures
            r.wf(&self.fp6_extension),
            r@ == self.part_two_v(elt@, elt_inv@),
    {
        let cx6 = &self.fp6_extension;
        let mut elt_q = elt.clone_fp6();
        elt_q.frobenius_map(cx6, 1);
        let mut w1_part = elt_q.cyclotomic_exp(cx6, &self.exp_w1);
        let w0_part = if self.exp_w0_is_negative {
            elt_inv.cyclotomic_exp(cx6, &self.exp_w0)
        } else {
            elt.cyclotomic_exp(cx6, &self.exp_w0)
        };
        w1_part.mul_assign(cx6, &w0_part);
        w1_part
    }

    /// The full final exponentiation of a Miller output: `None` exactly
    /// when no inverse of `f` was found (in particular for `f == 0`);
    /// `Some` is stage two applied to stage one of `f` and of its inverse.
    pub fn final_exponentiation(&self, f: &Fp6) -> (r: Option<Fp6>)
        requires
            self.wf(),
            f.wf(&self.fp6_extension),
        ensures
            r matches Some(out) ==> out.wf(&self.fp6_extension) && exists|fi: Fp6V|
                reduced6(self.p(), fi) && mul6(self.p(), self.al(), f@, fi) == one6() && out@
                    == self.part_two_v(
                    #[trigger] self.part_one_v(f@, fi),
                    self.part_one_v(fi, f@),
                ),
            f@ == zero6() ==> r is None,
            self.tower_field() ==> (r is None <==> f@ == zero6()),
    {
        let cx6 = &self.fp6_extension;
        let value_inv = match f.inverse(cx6) {
            Some(v) => v,
            None => {
                return None;
            },
        };
        proof {
            if f@ == zero6() {
                lemma_zero6_not_unit(self.p(), self.al(), value_inv@);
            }
        }
        let value_to_first_chunk = self.final_exponentiation_part_one(f, &value_inv);
        let value_inv_to_first_chunk = self.final_exponentiation_part_one(&value_inv, f);
        let out = self.final_exponentiation_part_two(
            &value_to_first_chunk,
            &value_inv_to_first_chunk,
        );
        proof {
            let fi = value_inv@;
            assert(reduced6(self.p(), fi));
            assert(out@ == self.part_two_v(self.part_one_v(f@, fi), self.part_one_v(fi, f@)));
        }
        Some(out)
    }

    /// The pairing: the product of the Miller loops, then the final
    /// exponentiation. `None` when a Miller slope degenerates or the Miller
    /// output has no inverse (it is zero).
    pub fn pair(&self, points: &Vec<CurvePoint>, twists: &Vec<TwistPoint>) -> (r: Option<Fp6>)
        requires
            self.wf(),
            forall|i: int|
                0 <= i < points.len() ==> (#[trigger] points[i]).wf(
                    &self.fp6_extension.field.field,
                ),
            forall|i: int|
                0 <= i < twists.len() ==> (#[trigger] twists[i]).wf(&self.fp6_extension.field),
        ensures
            r matches Some(out) ==> {
                let n = vstd::math::min(points.len() as int, twists.len() as int) as nat;
                let mf = self.miller_prod(points@, twists@, n);
                out.wf(&self.fp6_extension) && self.miller_prod_ok(points@, twists@, n) && exists|
                    fi: Fp6V,
                |
                    reduced6(self.p(), fi) && mul6(self.p(), self.al(), mf, fi) == one6() && out@
                        == self.part_two_v(
                        #[trigger] self.part_one_v(mf, fi),
                        self.part_one_v(fi, mf),
                    )
            },
            self.tower_field() ==> {
                let n = vstd::math::min(points.len() as int, twists.len() as int) as nat;
                r is Some <==> (self.miller_prod_ok(points@, twists@, n) && self.miller_prod(
                    points@,
                    twists@,
                    n,
                ) != zero6())
            },
    {
        let loop_result = match self.miller_loop(points, twists) {
            Some(f) => f,
            None => {
                return None;
            },
        };
        self.final_exponentiation(&loop_result)
    }
}

/// Packs the live loop variables into a spec state.
pub open spec fn cur_st(started: bool, rx: Fp3V, ry: Fp3V, f: Fp6V) -> MillerSt {
    MillerSt { started, rx, ry, f }
}

} // verus!
