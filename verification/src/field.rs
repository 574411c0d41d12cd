//! The proving field: integers modulo a small prime, together with the
//! modular arithmetic that the curve and the gadgets build on.

use vstd::prelude::*;
use vstd::arithmetic::div_mod::lemma_mod_bound;
use vstd::arithmetic::div_mod::lemma_mod_multiples_vanish;
use vstd::arithmetic::div_mod::lemma_mul_mod_noop_general;
use vstd::arithmetic::div_mod::lemma_small_mod;
use vstd::arithmetic::mul::lemma_mul_is_associative;

verus! {

/// The field modulus: a prime just above 2^20, congruent to 1 modulo 4, so
/// that -1 is a square and the twisted Edwards addition law is complete.
pub const FIELD_MODULUS: u64 = 1048589;

/// The field capacity: every 20-bit value is below the modulus, so 20 bits
/// embed losslessly and uniquely into a field element.
pub const FIELD_CAPACITY: u64 = 20;

/// A value is a field element when it is a canonical residue.
pub open spec fn is_fr(x: u64) -> bool {
    x < FIELD_MODULUS
}

/// Addition in the field.
pub open spec fn fadd(a: u64, b: u64) -> u64 {
    (((a + b) as int % (FIELD_MODULUS as int)) as u64)
}

/// Subtraction in the field.
pub open spec fn fsub(a: u64, b: u64) -> u64 {
    (((a - b + FIELD_MODULUS) % (FIELD_MODULUS as int)) as u64)
}

/// Multiplication in the field.
pub open spec fn fmul(a: u64, b: u64) -> u64 {
    (((a * b) as int % (FIELD_MODULUS as int)) as u64)
}

/// Exponentiation in the field, by repeated multiplication.
pub open spec fn fpow(b: u64, e: nat) -> u64
    decreases e,
{
    if e == 0 {
        1u64
    } else {
        fmul(b, fpow(b, (e - 1) as nat))
    }
}

/// Multiplicative inverse, by Fermat's little theorem.
pub open spec fn finv(x: u64) -> u64 {
    fpow(x, (FIELD_MODULUS - 2) as nat)
}

pub proof fn lemma_fmul_bound(a: u64, b: u64)
    ensures
        fmul(a, b) < FIELD_MODULUS,
{
    lemma_mod_bound((a * b) as int, FIELD_MODULUS as int);
}

pub proof fn lemma_fpow_bound(b: u64, e: nat)
    ensures
        fpow(b, e) < FIELD_MODULUS,
    decreases e,
{
    if e == 0 {
    } else {
        lemma_fpow_bound(b, (e - 1) as nat);
        lemma_fmul_bound(b, fpow(b, (e - 1) as nat));
    }
}

pub proof fn lemma_fmul_one(a: u64)
    requires
        is_fr(a),
    ensures
        fmul(1, a) == a,
        fmul(a, 1) == a,
{
    lemma_small_mod(a as nat, FIELD_MODULUS as nat);
}

/// Field multiplication is associative.
pub proof fn lemma_fmul_assoc(a: u64, b: u64, c: u64)
    ensures
        fmul(a, fmul(b, c)) == fmul(fmul(a, b), c),
{
    let m = FIELD_MODULUS as int;
    lemma_mul_mod_noop_general(a as int, (b * c) as int, m);
    lemma_mul_mod_noop_general((a * b) as int, c as int, m);
    lemma_mul_is_associative(a as int, b as int, c as int);
}

/// Squaring the base halves an even exponent.
pub proof fn lemma_fpow_even(b: u64, e: nat)
    requires
        e % 2 == 0,
    ensures
        fpow(b, e) == fpow(fmul(b, b), e / 2),
    decreases e,
{
    if e == 0 {
    } else {
        lemma_fpow_even(b, (e - 2) as nat);
        lemma_fmul_assoc(b, b, fpow(b, (e - 2) as nat));
        assert(fpow(b, (e - 1) as nat) == fmul(b, fpow(b, (e - 2) as nat)));
        assert(fpow(fmul(b, b), e / 2) == fmul(fmul(b, b), fpow(fmul(b, b), (e / 2 - 1) as nat)));
    }
}

/// Reduce any machine word into the field.
pub fn reduce(x: u64) -> (r: u64)
    ensures
        r == x as int % (FIELD_MODULUS as int),
        is_fr(r),
{
    x % FIELD_MODULUS
}

pub fn add_mod(a: u64, b: u64) -> (r: u64)
    requires
        is_fr(a),
        is_fr(b),
    ensures
        r == fadd(a, b),
        is_fr(r),
{
    let s = a + b;
    if s >= FIELD_MODULUS {
        proof {
            lemma_mod_multiples_vanish(1, (s - FIELD_MODULUS) as int, FIELD_MODULUS as int);
            lemma_small_mod((s - FIELD_MODULUS) as nat, FIELD_MODULUS as nat);
        }
        s - FIELD_MODULUS
    } else {
        proof {
            lemma_small_mod(s as nat, FIELD_MODULUS as nat);
        }
        s
    }
}

pub fn sub_mod(a: u64, b: u64) -> (r: u64)
    requires
        is_fr(a),
        is_fr(b),
    ensures
        r == fsub(a, b),
        is_fr(r),
{
    let d = if a >= b {
        a - b
    } else {
        a + FIELD_MODULUS - b
    };
    proof {
        if a >= b {
            lemma_mod_multiples_vanish(1, (a - b) as int, FIELD_MODULUS as int);
        }
        lemma_small_mod(d as nat, FIELD_MODULUS as nat);
    }
    d
}

pub fn mul_mod(a: u64, b: u64) -> (r: u64)
    requires
        is_fr(a),
        is_fr(b),
    ensures
        r == fmul(a, b),
        is_fr(r),
{
    proof {
        assert(a * b <= (FIELD_MODULUS - 1) * (FIELD_MODULUS - 1)) by (nonlinear_arith)
            requires
                a < FIELD_MODULUS,
                b < FIELD_MODULUS,
        ;
    }
    (a * b) % FIELD_MODULUS
}

/// Square-and-multiply exponentiation in the field.
pub fn pow_mod(b: u64, e: u64) -> (r: u64)
    requires
        is_fr(b),
    ensures
        r == fpow(b, e as nat),
        is_fr(r),
{
    let mut result: u64 = 1;
    let mut base = b;
    let mut exp = e;
    proof {
        lemma_fpow_bound(b, e as nat);
        lemma_fmul_one(fpow(b, e as nat));
    }
    while exp > 0
        invariant
            is_fr(result),
            is_fr(base),
            fmul(result, fpow(base, exp as nat)) == fpow(b, e as nat),
        decreases exp,
    {
        if exp % 2 == 1 {
            proof {
                lemma_fmul_assoc(result, base, fpow(base, (exp - 1) as nat));
            }
            result = mul_mod(result, base);
        }
        proof {
            lemma_fpow_even(base, (exp / 2 * 2) as nat);
            lemma_fpow_bound(fmul(base, base), (exp / 2) as nat);
            lemma_fmul_bound(base, base);
        }
        base = mul_mod(base, base);
        exp = exp / 2;
    }
    proof {
        lemma_fmul_one(result);
    }
    result
}

/// Multiplicative inverse of a field element.
pub fn inv_mod(x: u64) -> (r: u64)
    requires
        is_fr(x),
    ensures
        r == finv(x),
        is_fr(r),
{
    pow_mod(x, FIELD_MODULUS - 2)
}

} // verus!
