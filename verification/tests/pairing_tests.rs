//! End-to-end tests of the pairing engine on the 832-bit sextic-tower
//! instance, with the engine parameters derived from the base and scalar
//! field moduli.

use cp6_pairing::fq::{Fp, PrimeField};
use cp6_pairing::fq3::{Extension3, Fp3};
use cp6_pairing::fq6::{Extension2Over3, Fp6};
use cp6_pairing::pairing::{
    CPInstance6, CurvePoint, TwistPoint, WeierstrassCurve, WeierstrassCurveTwist,
};
use num_bigint::BigUint;

const P_DEC: &str = "22369874298875696930346742206501054934775599465297184582183496627646774052458024540232479018147881220178054575403841904557897715222633333372134756426301062487682326574958588001132586331462553235407484089304633076250782629492557320825577";
const R_DEC: &str = "258664426012969094010652733694893533536393512754914660539884262666720468348340822774968888139573360124440321458177";
const B_DEC: &str = "17764315118651679038286329069295091506801468118146712649886336045535808055361274148466772191243305528312843236347777260247138934336850548243151534538734724191505953341403463040067571652261229308333392040104884438208594329793895206056414";
const B_TW_DEC: &str = "7237353553714858194254855835825640240663090882935418626687402315497764195116318527743248304684159666286416318482685337633828994152723793439622384740540789612754127688659139509552568164770448654259255628317166934203899992395064470477612";
const P_X_DEC: &str = "5511163824921585887915590525772884263960974614921003940645351443740084257508990841338974915037175497689287870585840954231884082785026301437744745393958283053278991955159266640440849940136976927372133743626748847559939620888818486853646";
const P_Y_DEC: &str = "7913123550914612057135582061699117755797758113868200992327595317370485234417808273674357776714522052694559358668442301647906991623400754234679697332299689255516547752391831738454121261248793568285885897998257357202903170202349380518443";
const Q_X_0_DEC: &str = "13426761183630949215425595811885033211332897733228446437546263564078445562454176776915160094418980045665397361295624472103734543457352048745726512354895954850428989867542989474136256025045975283415690491751906307188562464175510373683338";
const Q_X_1_DEC: &str = "20471601555918880743198170952645906008198510944268658573129351735028343217532386920456705632337352161031960990613816401042894531220068552819818037605513359562118363589199569321421558696125646867661360498323171027455638052943806292028610";
const Q_X_2_DEC: &str = "3905053196875761830053608605277158152930144841844497593936739534395003062685449846381431331169369910535935138116320442345524758217411779027270883193856999691582831339845600938304719916501940381093815781408183227875600753651697934495980";
const Q_Y_0_DEC: &str = "8567517639523571619872938228644013584947463594196306323477160496987712111576624702939472765993995586889532559039169098780892505598589581147768095093536988446010255611523736706017580686335404469207486594272103717837888228343074699140243";
const Q_Y_1_DEC: &str = "3890537069205870914984502594450293167889863914413852788876350245583932846980126025043974070704295857226211547108005650399870458089721518559480870503159804530091559886149680718531004778697982910253701559194337987238111062202037698927752";
const Q_Y_2_DEC: &str = "10936269922612615564271188303104593362724754284143779051599749016735041389483971486958818324356025479751246744831831158558101688599198721653921723013062333636402617118847009085485166284126970598561393411916461254016145116183331671450721";

fn dec(s: &str) -> BigUint {
    BigUint::parse_bytes(s.as_bytes(), 10).unwrap()
}

fn fp_from_dec(f: &PrimeField, s: &str) -> Fp {
    Fp::from_bytes_le(f, &dec(s).to_bytes_le())
}

fn build_engine() -> CPInstance6 {
    let p = dec(P_DEC);
    let r = dec(R_DEC);
    let field = PrimeField::new(p.to_bytes_le()).unwrap();
    let fp_non_residue = Fp::from_small(&field, 13);
    let ext3 = Extension3::new(field, fp_non_residue).unwrap();

    // the quadratic non-residue of the top extension is `u` itself
    let u = Fp3 {
        c0: Fp::zero(&ext3.field),
        c1: Fp::one(&ext3.field),
        c2: Fp::zero(&ext3.field),
    };
    let ext6 = Extension2Over3::new(ext3, u).unwrap();

    let f = &ext6.field.field;
    let a_fp = Fp::from_small(f, 5);
    let b_fp = fp_from_dec(f, B_DEC);
    let curve = WeierstrassCurve::new(a_fp, b_fp);

    // twist constant tau = u; A_twist = tau^2 * a, B_twist = given constant
    let mut twist = Fp3 {
        c0: Fp::zero(f),
        c1: Fp::one(f),
        c2: Fp::zero(f),
    };
    let mut a_fp3 = twist.clone_fp3();
    a_fp3.square(&ext6.field);
    let a_fp_again = Fp::from_small(f, 5);
    a_fp3.mul_by_fp(&ext6.field, &a_fp_again);
    let b_fp3 = Fp3 {
        c0: fp_from_dec(f, B_TW_DEC),
        c1: Fp::zero(f),
        c2: Fp::zero(f),
    };
    let curve_twist = WeierstrassCurveTwist::new(a_fp3, b_fp3);
    twist = Fp3 {
        c0: Fp::zero(f),
        c1: Fp::one(f),
        c2: Fp::zero(f),
    };

    // Miller scalar: x = p mod r  (congruent to the Frobenius trace minus
    // one, which makes the reduced loop value a fixed power of the Tate
    // pairing); final-exponentiation cofactor (p^2 - p + 1)/r = w1*p + w0.
    let x = &p % &r;
    let d = (&p * &p - &p + 1u32) / &r;
    assert_eq!(&d * &r, &p * &p - &p + 1u32, "r must divide p^2 - p + 1");
    let w1 = &d / &p;
    let w0 = &d % &p;

    CPInstance6 {
        x: x.to_bytes_le(),
        x_is_negative: false,
        exp_w0: w0.to_bytes_le(),
        exp_w1: w1.to_bytes_le(),
        exp_w0_is_negative: false,
        curve,
        curve_twist,
        twist,
        fp6_extension: ext6,
    }
}

fn g1_gen(engine: &CPInstance6) -> CurvePoint {
    let f = &engine.fp6_extension.field.field;
    CurvePoint::point_from_xy(f, fp_from_dec(f, P_X_DEC), fp_from_dec(f, P_Y_DEC))
}

fn g2_gen(engine: &CPInstance6) -> TwistPoint {
    let cx = &engine.fp6_extension.field;
    let f = &cx.field;
    let x = Fp3 {
        c0: fp_from_dec(f, Q_X_0_DEC),
        c1: fp_from_dec(f, Q_X_1_DEC),
        c2: fp_from_dec(f, Q_X_2_DEC),
    };
    let y = Fp3 {
        c0: fp_from_dec(f, Q_Y_0_DEC),
        c1: fp_from_dec(f, Q_Y_1_DEC),
        c2: fp_from_dec(f, Q_Y_2_DEC),
    };
    TwistPoint::point_from_xy(cx, x, y)
}

/// Affine doubling on the twist, for building small multiples in tests.
fn g2_double(engine: &CPInstance6, q: &TwistPoint) -> TwistPoint {
    let cx = &engine.fp6_extension.field;
    let mut num = q.x.clone_fp3();
    num.square(cx);
    let mut three_x2 = num.clone_fp3();
    three_x2.double(cx);
    three_x2.add_assign(cx, &num);
    three_x2.add_assign(cx, &engine.curve_twist.a);
    let mut den = q.y.clone_fp3();
    den.double(cx);
    let den_inv = den.inverse(cx).unwrap();
    let mut gamma = three_x2;
    gamma.mul_assign(cx, &den_inv);
    let mut x2 = gamma.clone_fp3();
    x2.square(cx);
    let mut two_x = q.x.clone_fp3();
    two_x.double(cx);
    x2.sub_assign(cx, &two_x);
    let mut y2 = q.x.clone_fp3();
    y2.sub_assign(cx, &x2);
    y2.mul_assign(cx, &gamma);
    y2.sub_assign(cx, &q.y);
    TwistPoint::point_from_xy(cx, x2, y2)
}

/// Affine chord addition on the twist (the two points must differ in x).
fn g2_add(engine: &CPInstance6, a: &TwistPoint, b: &TwistPoint) -> TwistPoint {
    let cx = &engine.fp6_extension.field;
    let mut num = a.y.clone_fp3();
    num.sub_assign(cx, &b.y);
    let mut den = a.x.clone_fp3();
    den.sub_assign(cx, &b.x);
    let den_inv = den.inverse(cx).unwrap();
    let mut gamma = num;
    gamma.mul_assign(cx, &den_inv);
    let mut x2 = gamma.clone_fp3();
    x2.square(cx);
    x2.sub_assign(cx, &a.x);
    x2.sub_assign(cx, &b.x);
    let mut y2 = a.x.clone_fp3();
    y2.sub_assign(cx, &x2);
    y2.mul_assign(cx, &gamma);
    y2.sub_assign(cx, &a.y);
    TwistPoint::point_from_xy(cx, x2, y2)
}

/// Affine doubling on the base curve.
fn g1_double(engine: &CPInstance6, q: &CurvePoint) -> CurvePoint {
    let f = &engine.fp6_extension.field.field;
    let mut num = q.x.clone_fp();
    num.square(f);
    let mut three_x2 = num.clone_fp();
    three_x2.double(f);
    three_x2.add_assign(f, &num);
    three_x2.add_assign(f, &engine.curve.a);
    let mut den = q.y.clone_fp();
    den.double(f);
    let den_inv = den.inverse(f).unwrap();
    let mut gamma = three_x2;
    gamma.mul_assign(f, &den_inv);
    let mut x2 = gamma.clone_fp();
    x2.square(f);
    let mut two_x = q.x.clone_fp();
    two_x.double(f);
    x2.sub_assign(f, &two_x);
    let mut y2 = q.x.clone_fp();
    y2.sub_assign(f, &x2);
    y2.mul_assign(f, &gamma);
    y2.sub_assign(f, &q.y);
    CurvePoint::point_from_xy(f, x2, y2)
}

/// Affine chord addition on the base curve.
fn g1_add(engine: &CPInstance6, a: &CurvePoint, b: &CurvePoint) -> CurvePoint {
    let f = &engine.fp6_extension.field.field;
    let mut num = a.y.clone_fp();
    num.sub_assign(f, &b.y);
    let mut den = a.x.clone_fp();
    den.sub_assign(f, &b.x);
    let den_inv = den.inverse(f).unwrap();
    let mut gamma = num;
    gamma.mul_assign(f, &den_inv);
    let mut x2 = gamma.clone_fp();
    x2.square(f);
    x2.sub_assign(f, &a.x);
    x2.sub_assign(f, &b.x);
    let mut y2 = a.x.clone_fp();
    y2.sub_assign(f, &x2);
    y2.mul_assign(f, &gamma);
    y2.sub_assign(f, &a.y);
    CurvePoint::point_from_xy(f, x2, y2)
}

#[test]
fn test_cp6_pairing() {
    let engine = build_engine();
    let p = g1_gen(&engine);
    let q = g2_gen(&engine);
    assert!(p.check_on_curve(&engine.fp6_extension.field.field, &engine.curve));
    assert!(q.check_on_curve(&engine.fp6_extension.field, &engine.curve_twist));
}

#[test]
fn pairing_output_has_order_dividing_r() {
    let engine = build_engine();
    let p = g1_gen(&engine);
    let q = g2_gen(&engine);
    let result = engine.pair(&vec![p], &vec![q]).unwrap();
    let r_bytes = dec(R_DEC).to_bytes_le();
    let powered = result.pow(&engine.fp6_extension, &r_bytes);
    let one = Fp6::one(&engine.fp6_extension);
    assert!(powered.equals(&engine.fp6_extension, &one));
}

#[test]
fn pairing_is_nondegenerate() {
    let engine = build_engine();
    let p = g1_gen(&engine);
    let q = g2_gen(&engine);
    let result = engine.pair(&vec![p], &vec![q]).unwrap();
    let one = Fp6::one(&engine.fp6_extension);
    assert!(!result.equals(&engine.fp6_extension, &one));
}

#[test]
fn pairing_of_doubled_twist_point_is_square() {
    let engine = build_engine();
    let p = g1_gen(&engine);
    let q = g2_gen(&engine);
    let q2 = g2_double(&engine, &q);
    assert!(q2.check_on_curve(&engine.fp6_extension.field, &engine.curve_twist));
    let lhs = engine
        .pair(&vec![g1_gen(&engine)], &vec![q2])
        .unwrap();
    let mut rhs = engine.pair(&vec![p], &vec![q]).unwrap();
    rhs.square(&engine.fp6_extension);
    assert!(lhs.equals(&engine.fp6_extension, &rhs));
}

#[test]
fn pairing_is_bilinear_in_the_scalars() {
    let engine = build_engine();
    let p = g1_gen(&engine);
    let q = g2_gen(&engine);
    let p2 = g1_double(&engine, &p);
    let q2 = g2_double(&engine, &q);
    let q3 = g2_add(&engine, &q2, &q);
    // e([2]P, [3]Q) == e(P, Q)^6
    let lhs = engine.pair(&vec![p2], &vec![q3]).unwrap();
    let base = engine.pair(&vec![g1_gen(&engine)], &vec![g2_gen(&engine)]).unwrap();
    let six: Vec<u8> = vec![6];
    let rhs = base.pow(&engine.fp6_extension, &six);
    assert!(lhs.equals(&engine.fp6_extension, &rhs));
}

#[test]
fn pairing_is_additive_in_the_first_argument() {
    let engine = build_engine();
    let p = g1_gen(&engine);
    let q = g2_gen(&engine);
    // P + [2]P pairs like e(P, Q)^3
    let p2 = g1_double(&engine, &p);
    let p3 = g1_add(&engine, &p2, &p);
    let sum = engine.pair(&vec![p3], &vec![q]).unwrap();
    let base = engine.pair(&vec![g1_gen(&engine)], &vec![g2_gen(&engine)]).unwrap();
    let three: Vec<u8> = vec![3];
    let rhs = base.pow(&engine.fp6_extension, &three);
    assert!(sum.equals(&engine.fp6_extension, &rhs));
}

/// A copy of the engine with a short loop scalar and small exponents: the
/// multi-pair product law holds for every parameterization, and the short
/// scalar keeps the test fast.
fn shorten(engine: CPInstance6) -> CPInstance6 {
    CPInstance6 {
        x: vec![0xEF, 0xBE, 0xAD, 0xDE],
        exp_w0: vec![5],
        exp_w1: vec![7],
        ..engine
    }
}

#[test]
fn multi_pair_equals_product_of_pairs() {
    let engine = shorten(build_engine());
    let p = g1_gen(&engine);
    let q = g2_gen(&engine);
    let p2 = g1_double(&engine, &p);
    let q2 = g2_double(&engine, &q);
    let multi = engine
        .pair(
            &vec![g1_gen(&engine), g1_double(&engine, &g1_gen(&engine))],
            &vec![g2_gen(&engine), g2_double(&engine, &g2_gen(&engine))],
        )
        .unwrap();
    let e1 = engine.pair(&vec![p], &vec![q]).unwrap();
    let mut prod = engine.pair(&vec![p2], &vec![q2]).unwrap();
    prod.mul_assign(&engine.fp6_extension, &e1);
    assert!(multi.equals(&engine.fp6_extension, &prod));
}

#[test]
fn pairing_with_infinity_is_one() {
    let engine = build_engine();
    let p = g1_gen(&engine);
    let q = g2_gen(&engine);
    let inf_g2 = TwistPoint::infinity(&engine.fp6_extension.field);
    let inf_g1 = CurvePoint::infinity(&engine.fp6_extension.field.field);
    let one = Fp6::one(&engine.fp6_extension);
    let lhs = engine.pair(&vec![p], &vec![inf_g2]).unwrap();
    assert!(lhs.equals(&engine.fp6_extension, &one));
    let rhs = engine.pair(&vec![inf_g1], &vec![q]).unwrap();
    assert!(rhs.equals(&engine.fp6_extension, &one));
}

#[test]
fn degenerate_slope_is_reported() {
    let engine = build_engine();
    let p = g1_gen(&engine);
    // a twist "point" with y = 0: the first doubling slope has no inverse
    let cx = &engine.fp6_extension.field;
    let f = &cx.field;
    let bad = TwistPoint::point_from_xy(
        cx,
        Fp3 { c0: Fp::one(f), c1: Fp::zero(f), c2: Fp::zero(f) },
        Fp3 { c0: Fp::zero(f), c1: Fp::zero(f), c2: Fp::zero(f) },
    );
    assert!(engine.pair(&vec![p], &vec![bad]).is_none());
}

#[test]
fn frobenius_map_is_p_th_power() {
    let engine = build_engine();
    let cx6 = &engine.fp6_extension;
    let f = &cx6.field.field;
    // an arbitrary nonzero element
    let mk = |c: u8| Fp::from_small(f, c);
    let x = Fp6 {
        c0: Fp3 { c0: mk(7), c1: mk(11), c2: mk(29) },
        c1: Fp3 { c0: mk(3), c1: mk(19), c2: mk(23) },
    };
    let mut lhs = x.clone_fp6();
    lhs.frobenius_map(cx6, 1);
    let p_bytes = dec(P_DEC).to_bytes_le();
    let rhs = x.pow(cx6, &p_bytes);
    assert!(lhs.equals(cx6, &rhs));
}
