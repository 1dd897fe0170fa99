//! The prime field `Fp`: canonical residues modulo a prime carried as
//! little-endian bytes, with exact modular contracts for every operation.

use crate::bignum::{
    add_mod, bytes_eq, bytes_val, canon_bytes, lemma_bytes_val_pos, lemma_canon_unique, mod_inv,
    mul_mod, sub_mod,
};
use vstd::prelude::*;

verus! {

/// `(a + b) mod p`.
pub open spec fn add_p(p: nat, a: nat, b: nat) -> nat {
    (a + b) % p
}

/// `(a - b) mod p`, for reduced `a` and `b`.
pub open spec fn sub_p(p: nat, a: nat, b: nat) -> nat {
    (((a + p) - b) % (p as int)) as nat
}

/// `(-a) mod p`, for reduced `a`.
pub open spec fn neg_p(p: nat, a: nat) -> nat {
    sub_p(p, 0, a)
}

/// `(a * b) mod p`.
pub open spec fn mul_p(p: nat, a: nat, b: nat) -> nat {
    (a * b) % p
}

/// `a` has a multiplicative inverse modulo `p`.
pub open spec fn invertible_p(p: nat, a: nat) -> bool {
    exists|y: nat| mul_p(p, a, y) == 1
}

/// Descriptor of the prime field: the modulus in canonical bytes.
pub struct PrimeField {
    pub modulus: Vec<u8>,
}

impl PrimeField {
    /// The modulus as a natural number.
    pub open spec fn p(&self) -> nat {
        bytes_val(self.modulus@)
    }

    pub open spec fn wf(&self) -> bool {
        canon_bytes(self.modulus@) && self.p() >= 2
    }

    /// The modulus is prime, stated as exactly what the library needs of
    /// primality: every nonzero residue below `p` has a multiplicative
    /// inverse (for `p >= 2` the two are equivalent). Contracts take this
    /// as a hypothesis; nothing in the crate can or does establish it for
    /// a concrete modulus.
    pub open spec fn prime(&self) -> bool {
        forall|a: nat| 0 < a < self.p() ==> #[trigger] invertible_p(self.p(), a)
    }

    /// Builds the descriptor; rejects a non-canonical encoding and moduli
    /// below 2.
    pub fn new(modulus: Vec<u8>) -> (r: Option<PrimeField>)
        ensures
            r matches Some(f) ==> f.wf() && f.modulus@ == modulus@,
            r is None ==> !canon_bytes(modulus@) || bytes_val(modulus@) < 2,
    {
        if modulus.len() == 0 {
            return None;
        }
        if modulus.len() == 1 {
            if modulus[0] < 2 {
                proof {
                    crate::bignum::lemma_singleton_val(modulus@);
                }
                return None;
            }
            proof {
                crate::bignum::lemma_singleton_val(modulus@);
            }
            return Some(PrimeField { modulus });
        }
        if modulus[modulus.len() - 1] == 0 {
            return None;
        }
        proof {
            lemma_bytes_val_pos(modulus@.skip(1));
            assert(modulus@.skip(1)[modulus@.skip(1).len() - 1] == modulus@[modulus@.len() - 1]);
            assert(bytes_val(modulus@) >= 256 * bytes_val(modulus@.skip(1)));
        }
        Some(PrimeField { modulus })
    }
}

/// A field element: a canonical residue in `[0, p)`.
pub struct Fp {
    pub repr: Vec<u8>,
}

impl View for Fp {
    type V = nat;

    open spec fn view(&self) -> nat {
        bytes_val(self.repr@)
    }
}

impl Fp {
    pub open spec fn wf(&self, f: &PrimeField) -> bool {
        canon_bytes(self.repr@) && self@ < f.p()
    }

    pub fn clone_fp(&self) -> (r: Fp)
        ensures
            r@ == self@,
            r.repr@ == self.repr@,
    {
        let mut v: Vec<u8> = Vec::new();
        let mut i: usize = 0;
        while i < self.repr.len()
            invariant
                0 <= i <= self.repr.len(),
                v@ =~= self.repr@.take(i as int),
            decreases self.repr.len() - i,
        {
            v.push(self.repr[i]);
            i += 1;
        }
        proof {
            assert(v@ =~= self.repr@);
        }
        Fp { repr: v }
    }

    pub fn zero(f: &PrimeField) -> (r: Fp)
        requires
            f.wf(),
        ensures
            r.wf(f),
            r@ == 0,
    {
        let mut v: Vec<u8> = Vec::new();
        v.push(0);
        proof {
            crate::bignum::lemma_singleton_val(v@);
        }
        Fp { repr: v }
    }

    pub fn one(f: &PrimeField) -> (r: Fp)
        requires
            f.wf(),
        ensures
            r.wf(f),
            r@ == 1,
    {
        let mut v: Vec<u8> = Vec::new();
        v.push(1);
        proof {
            crate::bignum::lemma_singleton_val(v@);
        }
        Fp { repr: v }
    }

    /// A small constant, reduced into the field.
    pub fn from_small(f: &PrimeField, c: u8) -> (r: Fp)
        requires
            f.wf(),
        ensures
            r.wf(f),
            r@ == (c as nat) % f.p(),
    {
        let mut v: Vec<u8> = Vec::new();
        v.push(c);
        proof {
            crate::bignum::lemma_singleton_val(v@);
        }
        let e: Vec<u8> = Vec::new();
        let red = add_mod(&v, &e, &f.modulus);
        proof {
            lemma_mod_lt((c as nat) + 0, f.p());
        }
        Fp { repr: red }
    }

    /// An element from any little-endian byte string, reduced mod `p`.
    pub fn from_bytes_le(f: &PrimeField, bytes: &Vec<u8>) -> (r: Fp)
        requires
            f.wf(),
        ensures
            r.wf(f),
            r@ == bytes_val(bytes@) % f.p(),
    {
        let e: Vec<u8> = Vec::new();
        let red = add_mod(bytes, &e, &f.modulus);
        proof {
            lemma_mod_lt(bytes_val(bytes@) + 0, f.p());
        }
        Fp { repr: red }
    }

    pub fn is_zero(&self) -> (r: bool)
        requires
            canon_bytes(self.repr@),
        ensures
            r <==> self@ == 0,
    {
        let mut z: Vec<u8> = Vec::new();
        z.push(0);
        let r = bytes_eq(&self.repr, &z);
        proof {
            crate::bignum::lemma_singleton_val(z@);
            if !r && self@ == 0 {
                lemma_canon_unique(self.repr@, z@);
            }
        }
        r
    }

    pub fn equals(&self, other: &Fp) -> (r: bool)
        requires
            canon_bytes(self.repr@),
            canon_bytes(other.repr@),
        ensures
            r <==> self@ == other@,
    {
        let r = bytes_eq(&self.repr, &other.repr);
        proof {
            if !r && self@ == other@ {
                lemma_canon_unique(self.repr@, other.repr@);
            }
        }
        r
    }

    pub fn add_assign(&mut self, f: &PrimeField, other: &Fp)
        requires
            f.wf(),
            old(self).wf(f),
            other.wf(f),
        ensures
            final(self).wf(f),
            final(self)@ == add_p(f.p(), old(self)@, other@),
    {
        let r = add_mod(&self.repr, &other.repr, &f.modulus);
        proof {
            lemma_mod_lt(old(self)@ + other@, f.p());
        }
        self.repr = r;
    }

    pub fn sub_assign(&mut self, f: &PrimeField, other: &Fp)
        requires
            f.wf(),
            old(self).wf(f),
            other.wf(f),
        ensures
            final(self).wf(f),
            final(self)@ == sub_p(f.p(), old(self)@, other@),
    {
        let r = sub_mod(&self.repr, &other.repr, &f.modulus);
        proof {
            lemma_mod_lt_int(old(self)@ + f.p() - other@, f.p());
        }
        self.repr = r;
    }

    pub fn negate(&mut self, f: &PrimeField)
        requires
            f.wf(),
            old(self).wf(f),
        ensures
            final(self).wf(f),
            final(self)@ == neg_p(f.p(), old(self)@),
    {
        let z = Fp::zero(f);
        let r = sub_mod(&z.repr, &self.repr, &f.modulus);
        proof {
            lemma_mod_lt_int(0 + f.p() - old(self)@, f.p());
        }
        self.repr = r;
    }

    pub fn double(&mut self, f: &PrimeField)
        requires
            f.wf(),
            old(self).wf(f),
        ensures
            final(self).wf(f),
            final(self)@ == add_p(f.p(), old(self)@, old(self)@),
    {
        let r = add_mod(&self.repr, &self.repr, &f.modulus);
        proof {
            lemma_mod_lt(old(self)@ + old(self)@, f.p());
        }
        self.repr = r;
    }

    pub fn mul_assign(&mut self, f: &PrimeField, other: &Fp)
        requires
            f.wf(),
            old(self).wf(f),
            other.wf(f),
        ensures
            final(self).wf(f),
            final(self)@ == mul_p(f.p(), old(self)@, other@),
    {
        let r = mul_mod(&self.repr, &other.repr, &f.modulus);
        proof {
            lemma_mod_lt(old(self)@ * other@, f.p());
        }
        self.repr = r;
    }

    pub fn square(&mut self, f: &PrimeField)
        requires
            f.wf(),
            old(self).wf(f),
        ensures
            final(self).wf(f),
            final(self)@ == mul_p(f.p(), old(self)@, old(self)@),
    {
        let r = mul_mod(&self.repr, &self.repr, &f.modulus);
        proof {
            lemma_mod_lt(old(self)@ * old(self)@, f.p());
        }
        self.repr = r;
    }

    /// Multiplicative inverse. `Some(b)` always satisfies `a*b == 1 (mod p)`;
    /// `None` means no inverse exists, so under a prime modulus `None`
    /// happens only on zero.
    pub fn inverse(&self, f: &PrimeField) -> (r: Option<Fp>)
        requires
            f.wf(),
            self.wf(f),
        ensures
            r matches Some(b) ==> b.wf(f) && mul_p(f.p(), self@, b@) == 1,
            r is None ==> forall|y: nat| #[trigger] mul_p(f.p(), self@, y) != 1,
            f.prime() && self@ != 0 ==> r is Some,
            self@ == 0 ==> r is None,
    {
        let r = match mod_inv(&self.repr, &f.modulus) {
            Some(v) => Some(Fp { repr: v }),
            None => None,
        };
        proof {
            if r is Some && self@ == 0 {
                let b = r->Some_0;
                assert(mul_p(f.p(), 0, b@) == 1);
                assert(0 * b@ == 0);
                vstd::arithmetic::div_mod::lemma_small_mod(0, f.p());
            }
            if r is None && f.prime() && self@ != 0 {
                assert(invertible_p(f.p(), self@));
                let y = choose|y: nat| mul_p(f.p(), self@, y) == 1;
                assert(mul_p(f.p(), self@, y) != 1);
            }
        }
        r
    }
}

/// `((a mod p) + (b mod p)) mod p == (a + b) mod p`.
pub proof fn lemma_add_mod2(a: nat, b: nat, p: nat)
    requires
        p > 0,
    ensures
        ((a % p) + (b % p)) % p == (a + b) % p,
{
    vstd::arithmetic::div_mod::lemma_add_mod_noop(a as int, b as int, p as int);
}

/// `((a mod p) + b) mod p == (a + b) mod p`.
pub proof fn lemma_add_mod_left(a: nat, b: nat, p: nat)
    requires
        p > 0,
    ensures
        ((a % p) + b) % p == (a + b) % p,
{
    lemma_add_mod2(a, b, p);
    vstd::arithmetic::div_mod::lemma_add_mod_noop_right((a % p) as int, b as int, p as int);
}

/// `(a + (b mod p)) mod p == (a + b) mod p`.
pub proof fn lemma_add_mod_right(a: nat, b: nat, p: nat)
    requires
        p > 0,
    ensures
        (a + (b % p)) % p == (a + b) % p,
{
    vstd::arithmetic::div_mod::lemma_add_mod_noop_right(a as int, b as int, p as int);
}

/// `((a mod p) * (b mod p)) mod p == (a * b) mod p`.
pub proof fn lemma_mul_mod2(a: nat, b: nat, p: nat)
    requires
        p > 0,
    ensures
        ((a % p) * (b % p)) % p == (a * b) % p,
{
    vstd::arithmetic::div_mod::lemma_mul_mod_noop_general(a as int, b as int, p as int);
}

/// `((a mod p) * b) mod p == (a * b) mod p`.
pub proof fn lemma_mul_mod_left(a: nat, b: nat, p: nat)
    requires
        p > 0,
    ensures
        ((a % p) * b) % p == (a * b) % p,
{
    vstd::arithmetic::div_mod::lemma_mul_mod_noop_general(a as int, b as int, p as int);
}

/// `(a * (b mod p)) mod p == (a * b) mod p`.
pub proof fn lemma_mul_mod_right(a: nat, b: nat, p: nat)
    requires
        p > 0,
    ensures
        (a * (b % p)) % p == (a * b) % p,
{
    vstd::arithmetic::div_mod::lemma_mul_mod_noop_general(a as int, b as int, p as int);
}

/// Replacing a term by its residue under an outer `mod p` changes nothing,
/// stated for the shifted difference that `sub_p` uses.
pub proof fn lemma_sub_mod_left(a: nat, b: nat, p: nat)
    requires
        p > 0,
        b <= a % p + p,
        b <= a + p,
    ensures
        (((a % p) + p - b) % (p as int)) as nat == (((a + p) - b) % (p as int)) as nat,
{
    vstd::arithmetic::div_mod::lemma_fundamental_div_mod(a as int, p as int);
    vstd::arithmetic::div_mod::lemma_mod_multiples_vanish(
        (a as int) / (p as int),
        (a % p) + p - b,
        p as int,
    );
}

/// `(x + y - y) mod p` cancels: subtracting what was added gives back a
/// reduced value.
pub proof fn lemma_subp_addp_cancel(p: nat, x: nat, y: nat)
    requires
        p > 0,
        x < p,
        y < p,
    ensures
        sub_p(p, add_p(p, x, y), y) == x,
{
    lemma_sub_mod_left((x + y) as nat, y, p);
    assert((x + y + p - y) % (p as int) == ((x + p) as int) % (p as int));
    vstd::arithmetic::div_mod::lemma_mod_add_multiples_vanish(x as int, p as int);
    vstd::arithmetic::div_mod::lemma_small_mod(x, p);
}

/// Congruent addends give congruent sums.
pub proof fn lemma_mod_cong_sum(p: nat, u1: nat, v1: nat, u2: nat, v2: nat)
    requires
        p > 0,
        u1 % p == v1 % p,
        u2 % p == v2 % p,
    ensures
        (u1 + u2) % p == (v1 + v2) % p,
{
    lemma_add_mod2(u1, u2, p);
    lemma_add_mod2(v1, v2, p);
}

/// A congruent left factor gives a congruent product.
pub proof fn lemma_mod_cong_mull(p: nat, u: nat, v: nat, w: nat)
    requires
        p > 0,
        u % p == v % p,
    ensures
        (u * w) % p == (v * w) % p,
{
    lemma_mul_mod_left(u, w, p);
    lemma_mul_mod_left(v, w, p);
}

/// A congruent right factor gives a congruent product.
pub proof fn lemma_mod_cong_mulr(p: nat, u: nat, v: nat, w: nat)
    requires
        p > 0,
        u % p == v % p,
    ensures
        (w * u) % p == (w * v) % p,
{
    lemma_mul_mod_right(w, u, p);
    lemma_mul_mod_right(w, v, p);
}

/// Reducing twice is reducing once.
pub proof fn lemma_mod_idem(a: nat, p: nat)
    requires
        p > 0,
    ensures
        (a % p) % p == a % p,
{
    vstd::arithmetic::div_mod::lemma_mod_twice(a as int, p as int);
}

/// Congruent integer addends give congruent sums.
pub proof fn lemma_imod_cong_sum(p: int, u1: int, v1: int, u2: int, v2: int)
    requires
        p > 0,
        u1 % p == v1 % p,
        u2 % p == v2 % p,
    ensures
        (u1 + u2) % p == (v1 + v2) % p,
{
    vstd::arithmetic::div_mod::lemma_add_mod_noop(u1, u2, p);
    vstd::arithmetic::div_mod::lemma_add_mod_noop(v1, v2, p);
}

/// A congruent integer right factor gives a congruent product.
pub proof fn lemma_imod_cong_mulr(p: int, u: int, v: int, w: int)
    requires
        p > 0,
        u % p == v % p,
    ensures
        (w * u) % p == (w * v) % p,
{
    vstd::arithmetic::div_mod::lemma_mul_mod_noop_right(w, u, p);
    vstd::arithmetic::div_mod::lemma_mul_mod_noop_right(w, v, p);
}

/// `sub_p` is the plain integer difference modulo `p`.
pub proof fn lemma_sub_p_int(p: nat, a: nat, b: nat)
    requires
        p > 0,
    ensures
        sub_p(p, a, b) as int == (a - b) % (p as int),
{
    vstd::arithmetic::div_mod::lemma_mod_add_multiples_vanish(a - b, p as int);
}

/// `mul_p` as an integer residue: replacing it by the raw product under an
/// outer mod changes nothing.
pub proof fn lemma_mul_p_int(p: nat, a: nat, b: nat)
    requires
        p > 0,
    ensures
        (mul_p(p, a, b) as int) % (p as int) == ((a * b) as int) % (p as int),
{
    lemma_mod_idem(a * b, p);
}

pub proof fn lemma_mod_lt(x: nat, m: nat)
    requires
        m > 0,
    ensures
        x % m < m,
{
    vstd::arithmetic::div_mod::lemma_mod_bound(x as int, m as int);
}

pub proof fn lemma_mod_lt_int(x: int, m: nat)
    requires
        m > 0,
    ensures
        0 <= x % (m as int) < m,
{
    vstd::arithmetic::div_mod::lemma_mod_bound(x, m as int);
}

} // verus!
