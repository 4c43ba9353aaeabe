//! Arithmetic in the group: the fixed parameters, modular multiplication,
//! exponentiation and subtraction.

use vstd::arithmetic::div_mod::{
    lemma_fundamental_div_mod, lemma_mod_multiples_vanish, lemma_mul_mod_noop_general,
    lemma_small_mod, lemma_sub_mod_noop,
};
use vstd::arithmetic::mul::{lemma_mul_is_associative, lemma_mul_upper_bound};
use vstd::arithmetic::power::{
    lemma_pow0, lemma_pow1, lemma_pow_adds, lemma_pow_mod_noop, lemma_pow_multiplies, pow,
};
use vstd::prelude::*;

verus! {

/// Prime modulus of the multiplicative group, `2^20 - 17`.
pub const P: u64 = 1048559;

/// Prime order of the subgroup in which all exponents live; `14 * Q == P - 1`.
pub const Q: u64 = 74897;

/// First generator of the subgroup of order `Q`.
pub const G: u64 = 12;

/// Second generator of the subgroup of order `Q`.
pub const H: u64 = 15;

/// `base` raised to `exp`, reduced into `[0, modulus)`.
pub open spec fn pow_mod(base: nat, exp: nat, modulus: nat) -> nat {
    (pow(base as int, exp) % (modulus as int)) as nat
}

/// The representative of `a - b` in `[0, modulus)`.
pub open spec fn sub_mod(a: int, b: int, modulus: int) -> int {
    (a - b) % modulus
}

/// `a * b mod modulus`; the product is formed in 128 bits, so it cannot wrap.
pub fn mod_mul(a: u64, b: u64, modulus: u64) -> (r: u64)
    requires
        modulus >= 1,
    ensures
        r == (a * b) % (modulus as int),
        r < modulus,
{
    assert(a * b <= u64::MAX * u64::MAX) by {
        lemma_mul_upper_bound(a as int, u64::MAX as int, b as int, u64::MAX as int);
    }
    let wide: u128 = (a as u128) * (b as u128);
    let reduced: u128 = wide % (modulus as u128);
    reduced as u64
}

/// Square-and-multiply step: folding one binary digit of the exponent into the
/// accumulator keeps `acc * b^e` unchanged modulo `m`.
proof fn lemma_fold_digit(acc: int, b: int, e: nat, m: int)
    requires
        m >= 1,
    ensures
        e % 2 == 1 ==> ((acc * b) % m) * pow((b * b) % m, e / 2) % m == acc * pow(b, e) % m,
        e % 2 == 0 ==> acc * pow((b * b) % m, e / 2) % m == acc * pow(b, e) % m,
{
    let half = e / 2;
    let sq = pow(b * b, half);
    assert(pow(b, 2 * half) == sq) by {
        lemma_pow_multiplies(b, 2, half);
        lemma_pow1(b);
        lemma_pow_adds(b, 1, 1);
    }
    // Reducing the squared base first does not change the residue.
    assert(pow((b * b) % m, half) % m == sq % m) by {
        lemma_pow_mod_noop(b * b, half, m);
    }
    if e % 2 == 1 {
        assert(e == 2 * half + 1);
        assert(pow(b, e) == b * sq) by {
            lemma_pow_adds(b, 1, 2 * half);
            lemma_pow1(b);
        }
        assert(acc * (b * sq) == (acc * b) * sq) by {
            lemma_mul_is_associative(acc, b, sq);
        }
        lemma_mul_mod_noop_general(acc * b, pow((b * b) % m, half), m);
        lemma_mul_mod_noop_general(acc * b, sq, m);
    } else {
        assert(e == 2 * half);
        lemma_mul_mod_noop_general(acc, pow((b * b) % m, half), m);
        lemma_mul_mod_noop_general(acc, sq, m);
    }
}

/// `base^exp mod modulus` by binary exponentiation.
///
/// Every intermediate value is reduced below `modulus` and every product is
/// formed in 128 bits, so the result is exact for all 64-bit operands.
pub fn mod_pow(base: u64, exp: u64, modulus: u64) -> (r: u64)
    requires
        modulus >= 1,
    ensures
        r == pow_mod(base as nat, exp as nat, modulus as nat),
        r < modulus,
        modulus == 1 ==> r == 0,
{
    if modulus == 1 {
        return 0;
    }
    let mut result: u64 = 1;
    let mut b: u64 = base % modulus;
    let mut e: u64 = exp;
    proof {
        lemma_pow_mod_noop(base as int, exp as nat, modulus as int);
        lemma_small_mod(1, modulus as nat);
    }
    while e > 0
        invariant
            modulus > 1,
            result < modulus,
            b < modulus,
            (result * pow(b as int, e as nat)) % (modulus as int) == pow(base as int, exp as nat)
                % (modulus as int),
        decreases e,
    {
        proof {
            lemma_fold_digit(result as int, b as int, e as nat, modulus as int);
        }
        if e % 2 == 1 {
            result = mod_mul(result, b, modulus);
        }
        e = e / 2;
        b = mod_mul(b, b, modulus);
    }
    proof {
        lemma_pow0(b as int);
        lemma_small_mod(result as nat, modulus as nat);
    }
    result
}

/// `(a - b) mod modulus`, never negative, also when `a < b`.
///
/// Both operands are reduced first and the difference is formed by adding the
/// modulus back where it would otherwise fall below zero, so nothing wraps.
/// Adding `b` to the result gives `a` again, modulo `modulus`.
pub fn mod_sub(a: u64, b: u64, modulus: u64) -> (r: u64)
    requires
        modulus >= 1,
    ensures
        r == sub_mod(a as int, b as int, modulus as int),
        r < modulus,
        (r + b) % (modulus as int) == a % modulus,
        a < modulus ==> (r + b) % (modulus as int) == a,
{
    let x: u64 = a % modulus;
    let y: u64 = b % modulus;
    let r: u64 = if x >= y {
        x - y
    } else {
        x + (modulus - y)
    };
    proof {
        let m = modulus as int;
        lemma_sub_mod_noop(a as int, b as int, m);
        if x >= y {
            lemma_small_mod((x - y) as nat, modulus as nat);
        } else {
            lemma_mod_multiples_vanish(1, x - y, m);
            lemma_small_mod((x - y + m) as nat, modulus as nat);
        }
        assert(r == (a - b) % m);
        // r + b and a differ by a multiple of the modulus.
        lemma_fundamental_div_mod(a - b, m);
        let k = (a - b) / m;
        assert(r + b == a + (-k) * m) by (nonlinear_arith)
            requires
                a - b == m * k + r,
        ;
        lemma_mod_multiples_vanish(-k, a as int, m);
        if a < modulus {
            lemma_small_mod(a as nat, modulus as nat);
        }
    }
    r
}

} // verus!
