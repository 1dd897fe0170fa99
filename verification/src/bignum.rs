//! Unbounded natural numbers as little-endian byte vectors.
//!
//! Every number that the field layers handle is carried as a `Vec<u8>` of
//! little-endian bytes; `bytes_val` is its mathematical value. The modular
//! arithmetic itself is delegated to `num_bigint::BigUint` through the
//! trusted wrappers at the end of this file, each with an exact contract.

use num_bigint::BigUint;
use vstd::prelude::*;

verus! {

/// `b^e` over the natural numbers.
pub open spec fn pow_nat(b: nat, e: nat) -> nat
    decreases e,
{
    if e == 0 {
        1
    } else {
        b * pow_nat(b, (e - 1) as nat)
    }
}

pub proof fn lemma_pow_nat_pos(b: nat, e: nat)
    requires
        b >= 1,
    ensures
        pow_nat(b, e) >= 1,
    decreases e,
{
    if e > 0 {
        lemma_pow_nat_pos(b, (e - 1) as nat);
        assert(b * pow_nat(b, (e - 1) as nat) >= 1) by (nonlinear_arith)
            requires
                b >= 1,
                pow_nat(b, (e - 1) as nat) >= 1,
        ;
    }
}

/// Value of a little-endian byte string: `s[0] + 256*s[1] + ...`.
pub open spec fn bytes_val(s: Seq<u8>) -> nat
    decreases s.len(),
{
    if s.len() == 0 {
        0
    } else {
        (s[0] as nat) + 256 * bytes_val(s.skip(1))
    }
}

/// Canonical form: the representation `num_bigint::BigUint::to_bytes_le`
/// produces — at least one byte, and no trailing zero byte except for the
/// single byte `[0]` that stands for zero.
pub open spec fn canon_bytes(s: Seq<u8>) -> bool {
    s.len() >= 1 && (s[s.len() - 1] != 0 || s.len() == 1)
}

/// A canonical string with a nonzero top byte has a nonzero value.
pub proof fn lemma_bytes_val_pos(s: Seq<u8>)
    requires
        s.len() >= 1,
        s[s.len() - 1] != 0,
    ensures
        bytes_val(s) >= 1,
    decreases s.len(),
{
    if s.len() == 1 {
    } else {
        lemma_bytes_val_pos(s.skip(1));
    }
}

/// Two canonical byte strings with the same value are the same string.
pub proof fn lemma_canon_unique(a: Seq<u8>, b: Seq<u8>)
    requires
        canon_bytes(a),
        canon_bytes(b),
        bytes_val(a) == bytes_val(b),
    ensures
        a =~= b,
    decreases a.len(),
{
    assert(a[0] as nat == bytes_val(a) % 256 && b[0] as nat == bytes_val(b) % 256) by {
        lemma_head_mod(a);
        lemma_head_mod(b);
    }
    if a.len() == 1 && b.len() == 1 {
        lemma_singleton_val(a);
        lemma_singleton_val(b);
    } else if a.len() == 1 {
        lemma_bytes_val_pos(b.skip(1));
        assert(bytes_val(b) >= 256);
        lemma_singleton_val(a);
    } else if b.len() == 1 {
        lemma_bytes_val_pos(a.skip(1));
        assert(bytes_val(a) >= 256);
        lemma_singleton_val(b);
    } else {
        assert(bytes_val(a.skip(1)) == bytes_val(a) / 256 && bytes_val(b.skip(1)) == bytes_val(b)
            / 256) by {
            lemma_tail_div(a);
            lemma_tail_div(b);
        }
        assert(canon_bytes(a.skip(1))) by {
            assert(a.skip(1)[a.skip(1).len() - 1] == a[a.len() - 1]);
        }
        assert(canon_bytes(b.skip(1))) by {
            assert(b.skip(1)[b.skip(1).len() - 1] == b[b.len() - 1]);
        }
        lemma_canon_unique(a.skip(1), b.skip(1));
        assert(a =~= seq![a[0]] + a.skip(1));
        assert(b =~= seq![b[0]] + b.skip(1));
    }
}

pub proof fn lemma_singleton_val(s: Seq<u8>)
    requires
        s.len() == 1,
    ensures
        bytes_val(s) == s[0] as nat,
{
    assert(s.skip(1).len() == 0);
    assert(bytes_val(s.skip(1)) == 0);
    assert(bytes_val(s) == (s[0] as nat) + 256 * bytes_val(s.skip(1)));
}

proof fn lemma_head_mod(s: Seq<u8>)
    requires
        s.len() >= 1,
    ensures
        s[0] as nat == bytes_val(s) % 256,
        bytes_val(s) == (s[0] as nat) + 256 * bytes_val(s.skip(1)),
{
    let t = bytes_val(s.skip(1));
    assert(bytes_val(s) == (s[0] as nat) + 256 * t);
    assert(((s[0] as nat) + 256 * t) % 256 == s[0] as nat) by {
        vstd::arithmetic::div_mod::lemma_mod_multiples_vanish(
            t as int,
            s[0] as int,
            256,
        );
        vstd::arithmetic::div_mod::lemma_small_mod(s[0] as nat, 256);
    }
}

proof fn lemma_tail_div(s: Seq<u8>)
    requires
        s.len() >= 1,
    ensures
        bytes_val(s.skip(1)) == bytes_val(s) / 256,
{
    let t = bytes_val(s.skip(1));
    assert(bytes_val(s) == (s[0] as nat) + 256 * t);
    assert(((s[0] as nat) + 256 * t) / 256 == t) by {
        vstd::arithmetic::div_mod::lemma_div_multiples_vanish_fancy(
            t as int,
            s[0] as int,
            256,
        );
    }
}

/// Exact byte-for-byte comparison of two byte vectors.
pub fn bytes_eq(a: &Vec<u8>, b: &Vec<u8>) -> (r: bool)
    ensures
        r <==> a@ =~= b@,
{
    if a.len() != b.len() {
        return false;
    }
    let mut i: usize = 0;
    while i < a.len()
        invariant
            0 <= i <= a.len(),
            a.len() == b.len(),
            forall|j: int| 0 <= j < i ==> a@[j] == b@[j],
        decreases a.len() - i,
    {
        if a[i] != b[i] {
            return false;
        }
        i += 1;
    }
    true
}

/// Relies on `num_bigint::BigUint`: `from_bytes_le`, `Add`, `Rem` and
/// `to_bytes_le` compute `(a + b) mod m` of the little-endian byte values.
#[verifier::external_body]
pub fn add_mod(a: &Vec<u8>, b: &Vec<u8>, m: &Vec<u8>) -> (r: Vec<u8>)
    requires
        bytes_val(m@) > 0,
    ensures
        canon_bytes(r@),
        bytes_val(r@) == (bytes_val(a@) + bytes_val(b@)) % bytes_val(m@),
{
    let x = BigUint::from_bytes_le(a);
    let y = BigUint::from_bytes_le(b);
    let md = BigUint::from_bytes_le(m);
    ((x + y) % md).to_bytes_le()
}

/// Relies on `num_bigint::BigUint`: `from_bytes_le`, `Add`, `Sub`, `Rem` and
/// `to_bytes_le` compute `(a + m - b) mod m`; the subtraction cannot
/// underflow because `b < m`.
#[verifier::external_body]
pub fn sub_mod(a: &Vec<u8>, b: &Vec<u8>, m: &Vec<u8>) -> (r: Vec<u8>)
    requires
        bytes_val(a@) < bytes_val(m@),
        bytes_val(b@) < bytes_val(m@),
    ensures
        canon_bytes(r@),
        bytes_val(r@) as int == (bytes_val(a@) + bytes_val(m@) - bytes_val(b@)) % (bytes_val(m@)
            as int),
{
    let x = BigUint::from_bytes_le(a);
    let y = BigUint::from_bytes_le(b);
    let md = BigUint::from_bytes_le(m);
    ((x + &md - y) % md).to_bytes_le()
}

/// Relies on `num_bigint::BigUint`: `from_bytes_le`, `Mul`, `Rem` and
/// `to_bytes_le` compute `(a * b) mod m`.
#[verifier::external_body]
pub fn mul_mod(a: &Vec<u8>, b: &Vec<u8>, m: &Vec<u8>) -> (r: Vec<u8>)
    requires
        bytes_val(m@) > 0,
    ensures
        canon_bytes(r@),
        bytes_val(r@) == (bytes_val(a@) * bytes_val(b@)) % bytes_val(m@),
{
    let x = BigUint::from_bytes_le(a);
    let y = BigUint::from_bytes_le(b);
    let md = BigUint::from_bytes_le(m);
    ((x * y) % md).to_bytes_le()
}

/// Relies on `num_bigint::BigUint::modpow`, documented as
/// `(self ^ exponent) % modulus`, panicking only on a zero modulus.
#[verifier::external_body]
pub fn mod_pow(a: &Vec<u8>, e: &Vec<u8>, m: &Vec<u8>) -> (r: Vec<u8>)
    requires
        bytes_val(m@) > 0,
    ensures
        canon_bytes(r@),
        bytes_val(r@) == pow_nat(bytes_val(a@), bytes_val(e@)) % bytes_val(m@),
{
    let x = BigUint::from_bytes_le(a);
    let y = BigUint::from_bytes_le(e);
    let md = BigUint::from_bytes_le(m);
    x.modpow(&y, &md).to_bytes_le()
}

/// Relies on `num_bigint::BigUint::modinv`: it returns the multiplicative
/// inverse in `[0, m)` when one exists (iff `gcd(a, m) == 1`), else `None`.
/// `m >= 2` keeps clear of the `m == 1` case, where it returns `Some(0)`.
#[verifier::external_body]
pub fn mod_inv(a: &Vec<u8>, m: &Vec<u8>) -> (r: Option<Vec<u8>>)
    requires
        bytes_val(m@) >= 2,
    ensures
        r matches Some(v) ==> canon_bytes(v@) && bytes_val(v@) < bytes_val(m@) && (bytes_val(a@)
            * bytes_val(v@)) % bytes_val(m@) == 1,
        r is None ==> forall|y: nat| #[trigger] ((bytes_val(a@) * y) % bytes_val(m@)) != 1,
{
    let x = BigUint::from_bytes_le(a);
    let md = BigUint::from_bytes_le(m);
    x.modinv(&md).map(|v| v.to_bytes_le())
}

/// Relies on `num_bigint::BigUint`: `Mul` computes the full product.
#[verifier::external_body]
pub fn big_mul(a: &Vec<u8>, b: &Vec<u8>) -> (r: Vec<u8>)
    ensures
        canon_bytes(r@),
        bytes_val(r@) == bytes_val(a@) * bytes_val(b@),
{
    let x = BigUint::from_bytes_le(a);
    let y = BigUint::from_bytes_le(b);
    (x * y).to_bytes_le()
}

/// Relies on `num_bigint::BigUint`: `Sub` computes the difference; it cannot
/// underflow because `b <= a`.
#[verifier::external_body]
pub fn big_sub(a: &Vec<u8>, b: &Vec<u8>) -> (r: Vec<u8>)
    requires
        bytes_val(b@) <= bytes_val(a@),
    ensures
        canon_bytes(r@),
        bytes_val(r@) == bytes_val(a@) - bytes_val(b@),
{
    let x = BigUint::from_bytes_le(a);
    let y = BigUint::from_bytes_le(b);
    (x - y).to_bytes_le()
}

/// Relies on `num_bigint::BigUint`: `Div` computes the Euclidean quotient.
#[verifier::external_body]
pub fn big_div(a: &Vec<u8>, b: &Vec<u8>) -> (r: Vec<u8>)
    requires
        bytes_val(b@) > 0,
    ensures
        canon_bytes(r@),
        bytes_val(r@) == bytes_val(a@) / bytes_val(b@),
{
    let x = BigUint::from_bytes_le(a);
    let y = BigUint::from_bytes_le(b);
    (x / y).to_bytes_le()
}

} // verus!
