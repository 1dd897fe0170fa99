//! Field-axiom and tower-arithmetic checks on concrete values.

use cp6_pairing::fq::{Fp, PrimeField};
use cp6_pairing::fq3::{Extension3, Fp3};
use cp6_pairing::fq6::{Extension2Over3, Fp6};
use num_bigint::BigUint;

const P_DEC: &str = "22369874298875696930346742206501054934775599465297184582183496627646774052458024540232479018147881220178054575403841904557897715222633333372134756426301062487682326574958588001132586331462553235407484089304633076250782629492557320825577";

fn dec(s: &str) -> BigUint {
    BigUint::parse_bytes(s.as_bytes(), 10).unwrap()
}

fn build_ext6() -> Extension2Over3 {
    let p = dec(P_DEC);
    let field = PrimeField::new(p.to_bytes_le()).unwrap();
    let fp_non_residue = Fp::from_small(&field, 13);
    let ext3 = Extension3::new(field, fp_non_residue).unwrap();
    let u = Fp3 {
        c0: Fp::zero(&ext3.field),
        c1: Fp::one(&ext3.field),
        c2: Fp::zero(&ext3.field),
    };
    Extension2Over3::new(ext3, u).unwrap()
}

fn sample(cx6: &Extension2Over3, seed: u8) -> Fp6 {
    let f = &cx6.field.field;
    let mk = |c: u8| Fp::from_small(f, c);
    Fp6 {
        c0: Fp3 {
            c0: mk(seed),
            c1: mk(seed.wrapping_add(40)),
            c2: mk(seed.wrapping_add(81)),
        },
        c1: Fp3 {
            c0: mk(seed.wrapping_add(122)),
            c1: mk(seed.wrapping_add(163)),
            c2: mk(seed.wrapping_add(204)),
        },
    }
}

#[test]
fn field_axioms_on_concrete_values() {
    let cx6 = build_ext6();
    let x = sample(&cx6, 2);
    let y = sample(&cx6, 59);
    let z = sample(&cx6, 178);
    let one = Fp6::one(&cx6);
    let zero = Fp6::zero(&cx6);

    // (x + y) + z == x + (y + z)
    let mut l = x.clone_fp6();
    l.add_assign(&cx6, &y);
    l.add_assign(&cx6, &z);
    let mut yz = y.clone_fp6();
    yz.add_assign(&cx6, &z);
    let mut r = x.clone_fp6();
    r.add_assign(&cx6, &yz);
    assert!(l.equals(&cx6, &r));

    // (x * y) * z == x * (y * z)
    let mut l = x.clone_fp6();
    l.mul_assign(&cx6, &y);
    l.mul_assign(&cx6, &z);
    let mut yz = y.clone_fp6();
    yz.mul_assign(&cx6, &z);
    let mut r = x.clone_fp6();
    r.mul_assign(&cx6, &yz);
    assert!(l.equals(&cx6, &r));

    // x * (y + z) == x*y + x*z
    let mut s = y.clone_fp6();
    s.add_assign(&cx6, &z);
    let mut l = x.clone_fp6();
    l.mul_assign(&cx6, &s);
    let mut xy = x.clone_fp6();
    xy.mul_assign(&cx6, &y);
    let mut xz = x.clone_fp6();
    xz.mul_assign(&cx6, &z);
    let mut r = xy;
    r.add_assign(&cx6, &xz);
    assert!(l.equals(&cx6, &r));

    // x + 0 == x and x * 1 == x
    let mut l = x.clone_fp6();
    l.add_assign(&cx6, &zero);
    assert!(l.equals(&cx6, &x));
    let mut l = x.clone_fp6();
    l.mul_assign(&cx6, &one);
    assert!(l.equals(&cx6, &x));

    // x - x == 0
    let mut l = x.clone_fp6();
    l.sub_assign(&cx6, &x);
    assert!(l.equals(&cx6, &zero));

    // double(x) == x + x and square(x) == x * x
    let mut l = x.clone_fp6();
    l.double(&cx6);
    let mut r = x.clone_fp6();
    r.add_assign(&cx6, &x);
    assert!(l.equals(&cx6, &r));
    let mut l = x.clone_fp6();
    l.square(&cx6);
    let mut r = x.clone_fp6();
    r.mul_assign(&cx6, &x);
    assert!(l.equals(&cx6, &r));

    // x != 0 ==> x * inverse(x) == 1
    let inv = x.inverse(&cx6).unwrap();
    let mut l = x.clone_fp6();
    l.mul_assign(&cx6, &inv);
    assert!(l.equals(&cx6, &one));
}

#[test]
fn inverse_of_zero_is_none() {
    let cx6 = build_ext6();
    let f = &cx6.field.field;
    let zero6 = Fp6::zero(&cx6);
    assert!(zero6.inverse(&cx6).is_none());
    let zero3 = Fp3::zero(&cx6.field);
    assert!(zero3.inverse(&cx6.field).is_none());
    let zero1 = Fp::zero(f);
    assert!(zero1.inverse(f).is_none());
}

#[test]
fn inverse_of_square_is_square_of_inverse() {
    let cx6 = build_ext6();
    let x = sample(&cx6, 123);
    let mut sq = x.clone_fp6();
    sq.square(&cx6);
    let l = sq.inverse(&cx6).unwrap();
    let mut r = x.inverse(&cx6).unwrap();
    r.square(&cx6);
    assert!(l.equals(&cx6, &r));
}

#[test]
fn base_field_arithmetic_reduces() {
    let p = dec(P_DEC);
    let field = PrimeField::new(p.to_bytes_le()).unwrap();
    // p + 1 reduces to 1
    let big = &p + 1u32;
    let e = Fp::from_bytes_le(&field, &big.to_bytes_le());
    let one = Fp::one(&field);
    assert!(e.equals(&one));
    // (p - 1) + 2 == 1 mod p
    let pm1 = &p - 1u32;
    let mut a = Fp::from_bytes_le(&field, &pm1.to_bytes_le());
    let two = Fp::from_small(&field, 2);
    a.add_assign(&field, &two);
    assert!(a.equals(&one));
    // (p - 1) * (p - 1) == 1 mod p
    let mut b = Fp::from_bytes_le(&field, &pm1.to_bytes_le());
    let c = Fp::from_bytes_le(&field, &pm1.to_bytes_le());
    b.mul_assign(&field, &c);
    assert!(b.equals(&one));
    // modular inverse: 2 * inverse(2) == 1
    let inv2 = two.inverse(&field).unwrap();
    let mut d = Fp::from_small(&field, 2);
    d.mul_assign(&field, &inv2);
    assert!(d.equals(&one));
}

#[test]
fn frobenius_tables_match_direct_exponentiation() {
    let cx6 = build_ext6();
    let p = dec(P_DEC);
    // c1[1] of the cubic layer must be 13^((p-1)/3) mod p
    let alpha = BigUint::from(13u32);
    let e1 = (&p - 1u32) / 3u32;
    let expected = alpha.modpow(&e1, &p);
    let got = BigUint::from_bytes_le(&cx6.field.frobenius_coeffs_c1[1].repr);
    assert_eq!(got, expected);
    // the sextic-layer coefficient is 13^((p-1)/6) mod p
    let e6 = (&p - 1u32) / 6u32;
    let expected6 = alpha.modpow(&e6, &p);
    let got6 = BigUint::from_bytes_le(&cx6.frobenius_coeffs_c1[1].repr);
    assert_eq!(got6, expected6);
}
