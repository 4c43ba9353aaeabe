//! The order of the generators: `G` and `H` each generate a subgroup of
//! exactly `Q` elements, so powers of either depend only on the exponent
//! modulo `Q`, and differ whenever the exponents differ modulo `Q`.

use crate::group::{G, H, P, Q};
use vstd::arithmetic::div_mod::{
    lemma_fundamental_div_mod, lemma_mod_multiples_vanish, lemma_mul_mod_noop_general,
    lemma_small_mod,
};
use vstd::arithmetic::power::{
    lemma1_pow, lemma_pow1, lemma_pow_adds, lemma_pow_mod_noop, lemma_pow_multiplies, pow,
};
use vstd::prelude::*;

verus! {

/// Greatest common divisor, by Euclid's algorithm.
pub open spec fn gcd(a: nat, b: nat) -> nat
    decreases b,
{
    if b == 0 {
        a
    } else {
        gcd(b, a % b)
    }
}

/// The residue of a product of powers is the product of the residues.
proof fn lemma_residue_of_product(g: int, e1: nat, e2: nat, v1: int, v2: int)
    requires
        pow(g, e1) % (P as int) == v1,
        pow(g, e2) % (P as int) == v2,
    ensures
        pow(g, e1 + e2) % (P as int) == (v1 * v2) % (P as int),
{
    lemma_pow_adds(g, e1, e2);
    lemma_mul_mod_noop_general(pow(g, e1), pow(g, e2), P as int);
}

/// `G^Q` is 1 modulo `P`: sixteen squarings and five products, each a
/// fact about numbers below `P`.
pub proof fn lemma_g_to_the_q()
    ensures
        pow(G as int, Q as nat) % (P as int) == 1,
{
    let g = G as int;
    lemma_pow1(g);
    lemma_residue_of_product(g, 1, 1, 12, 12);
    assert(pow(g, 2) % (P as int) == 144);
    lemma_residue_of_product(g, 2, 2, 144, 144);
    assert(pow(g, 4) % (P as int) == 20736);
    lemma_residue_of_product(g, 4, 4, 20736, 20736);
    assert(pow(g, 8) % (P as int) == 72506);
    lemma_residue_of_product(g, 8, 8, 72506, 72506);
    assert(pow(g, 16) % (P as int) == 693769);
    lemma_residue_of_product(g, 16, 16, 693769, 693769);
    assert(pow(g, 32) % (P as int) == 630386);
    lemma_residue_of_product(g, 32, 32, 630386, 630386);
    assert(pow(g, 64) % (P as int) == 473499);
    lemma_residue_of_product(g, 64, 64, 473499, 473499);
    assert(pow(g, 128) % (P as int) == 514739);
    lemma_residue_of_product(g, 128, 128, 514739, 514739);
    assert(pow(g, 256) % (P as int) == 58647);
    lemma_residue_of_product(g, 256, 256, 58647, 58647);
    assert(pow(g, 512) % (P as int) == 197089);
    lemma_residue_of_product(g, 512, 512, 197089, 197089);
    assert(pow(g, 1024) % (P as int) == 205766);
    lemma_residue_of_product(g, 1024, 1024, 205766, 205766);
    assert(pow(g, 2048) % (P as int) == 931454);
    lemma_residue_of_product(g, 2048, 2048, 931454, 931454);
    assert(pow(g, 4096) % (P as int) == 526423);
    lemma_residue_of_product(g, 4096, 4096, 526423, 526423);
    assert(pow(g, 8192) % (P as int) == 662496);
    lemma_residue_of_product(g, 8192, 8192, 662496, 662496);
    assert(pow(g, 16384) % (P as int) == 366591);
    lemma_residue_of_product(g, 16384, 16384, 366591, 366591);
    assert(pow(g, 32768) % (P as int) == 397046);
    lemma_residue_of_product(g, 32768, 32768, 397046, 397046);
    assert(pow(g, 65536) % (P as int) == 971820);
    lemma_residue_of_product(g, 65536, 8192, 971820, 662496);
    assert(pow(g, 73728) % (P as int) == 102571);
    lemma_residue_of_product(g, 73728, 1024, 102571, 205766);
    assert(pow(g, 74752) % (P as int) == 228834);
    lemma_residue_of_product(g, 74752, 128, 228834, 514739);
    assert(pow(g, 74880) % (P as int) == 957620);
    lemma_residue_of_product(g, 74880, 16, 957620, 693769);
    assert(pow(g, 74896) % (P as int) == 87380);
    lemma_residue_of_product(g, 74896, 1, 87380, 12);
    assert(pow(g, 74897) % (P as int) == 1);
}

/// `H^Q` is 1 modulo `P`: sixteen squarings and five products, each a
/// fact about numbers below `P`.
pub proof fn lemma_h_to_the_q()
    ensures
        pow(H as int, Q as nat) % (P as int) == 1,
{
    let g = H as int;
    lemma_pow1(g);
    lemma_residue_of_product(g, 1, 1, 15, 15);
    assert(pow(g, 2) % (P as int) == 225);
    lemma_residue_of_product(g, 2, 2, 225, 225);
    assert(pow(g, 4) % (P as int) == 50625);
    lemma_residue_of_product(g, 4, 4, 50625, 50625);
    assert(pow(g, 8) % (P as int) == 212429);
    lemma_residue_of_product(g, 8, 8, 212429, 212429);
    assert(pow(g, 16) % (P as int) == 294917);
    lemma_residue_of_product(g, 16, 16, 294917, 294917);
    assert(pow(g, 32) % (P as int) == 164957);
    lemma_residue_of_product(g, 32, 32, 164957, 164957);
    assert(pow(g, 64) % (P as int) == 705799);
    lemma_residue_of_product(g, 64, 64, 705799, 705799);
    assert(pow(g, 128) % (P as int) == 721563);
    lemma_residue_of_product(g, 128, 128, 721563, 721563);
    assert(pow(g, 256) % (P as int) == 628550);
    lemma_residue_of_product(g, 256, 256, 628550, 628550);
    assert(pow(g, 512) % (P as int) == 91039);
    lemma_residue_of_product(g, 512, 512, 91039, 91039);
    assert(pow(g, 1024) % (P as int) == 289185);
    lemma_residue_of_product(g, 1024, 1024, 289185, 289185);
    assert(pow(g, 2048) % (P as int) == 141180);
    lemma_residue_of_product(g, 2048, 2048, 141180, 141180);
    assert(pow(g, 4096) % (P as int) == 782928);
    lemma_residue_of_product(g, 4096, 4096, 782928, 782928);
    assert(pow(g, 8192) % (P as int) == 195933);
    lemma_residue_of_product(g, 8192, 8192, 195933, 195933);
    assert(pow(g, 16384) % (P as int) == 946940);
    lemma_residue_of_product(g, 16384, 16384, 946940, 946940);
    assert(pow(g, 32768) % (P as int) == 212129);
    lemma_residue_of_product(g, 32768, 32768, 212129, 212129);
    assert(pow(g, 65536) % (P as int) == 851715);
    lemma_residue_of_product(g, 65536, 8192, 851715, 195933);
    assert(pow(g, 73728) % (P as int) == 910245);
    lemma_residue_of_product(g, 73728, 1024, 910245, 289185);
    assert(pow(g, 74752) % (P as int) == 1046083);
    lemma_residue_of_product(g, 74752, 128, 1046083, 721563);
    assert(pow(g, 74880) % (P as int) == 154548);
    lemma_residue_of_product(g, 74880, 16, 154548, 294917);
    assert(pow(g, 74896) % (P as int) == 69904);
    lemma_residue_of_product(g, 74896, 1, 69904, 15);
    assert(pow(g, 74897) % (P as int) == 1);
}

/// Where `g^n` is 1 modulo `P`, a power of `g` depends only on the exponent
/// modulo `n`.
pub proof fn lemma_reduce_exponent(g: int, e: nat, n: nat)
    requires
        n > 0,
        pow(g, n) % (P as int) == 1,
    ensures
        pow(g, e) % (P as int) == pow(g, e % n) % (P as int),
{
    let p = P as int;
    let q = e / n;
    let r = e % n;
    lemma_fundamental_div_mod(e as int, n as int);
    assert(e == n * q + r);
    // g^(n*q) is (g^n)^q, a power of something that is 1 modulo P.
    assert(pow(g, n * q) % p == 1) by {
        lemma_pow_multiplies(g, n, q);
        lemma_pow_mod_noop(pow(g, n), q, p);
        lemma1_pow(q);
        lemma_small_mod(1, P as nat);
    }
    assert(pow(g, e) == pow(g, n * q) * pow(g, r)) by {
        lemma_pow_adds(g, n * q, r);
    }
    lemma_mul_mod_noop_general(pow(g, n * q), pow(g, r), p);
    lemma_mul_mod_noop_general(1, pow(g, r), p);
}

/// The greatest common divisor divides both numbers.
pub proof fn lemma_gcd_divides(a: nat, b: nat)
    requires
        a > 0 || b > 0,
    ensures
        gcd(a, b) > 0,
        a % gcd(a, b) == 0,
        b % gcd(a, b) == 0,
    decreases b,
{
    if b == 0 {
        lemma_mod_multiples_vanish(1, 0, a as int);
        lemma_small_mod(0, a);
    } else {
        let r = a % b;
        let d = gcd(b, r);
        lemma_gcd_divides(b, r);
        // a = b * (a / b) + r, and d divides both b and r.
        lemma_fundamental_div_mod(a as int, b as int);
        lemma_fundamental_div_mod(b as int, d as int);
        lemma_fundamental_div_mod(r as int, d as int);
        let kb = (b as int) / (d as int);
        let kr = (r as int) / (d as int);
        let q = (a as int) / (b as int);
        assert(a == (kb * q + kr) * d) by (nonlinear_arith)
            requires
                a == b * q + r,
                b == d * kb,
                r == d * kr,
        ;
        lemma_mod_multiples_vanish(kb * q + kr, 0, d as int);
        lemma_small_mod(0, d);
    }
}

/// Where two powers of `g` are 1 modulo `P`, so is the power by the greatest
/// common divisor of the exponents.
pub proof fn lemma_gcd_exponent(g: int, a: nat, b: nat)
    requires
        pow(g, a) % (P as int) == 1,
        pow(g, b) % (P as int) == 1,
    ensures
        pow(g, gcd(a, b)) % (P as int) == 1,
    decreases b,
{
    if b != 0 {
        lemma_reduce_exponent(g, a, b);
        lemma_gcd_exponent(g, b, a % b);
    }
}

/// `Q` is prime: nothing strictly between 1 and `Q` divides it.
pub proof fn lemma_q_is_prime(d: nat)
    requires
        1 < d < Q,
    ensures
        (Q as nat) % d != 0,
{
    let t: u32 = d as u32;
    assert(1 < t && t < 74897 ==> 74897u32 % t != 0) by (bit_vector);
}

/// A generator of order `Q`: its `Q`-th power is 1 modulo `P`, and it is not
/// itself 1.
pub open spec fn has_order_q(g: int) -> bool {
    pow(g, Q as nat) % (P as int) == 1 && g % (P as int) != 1
}

/// Both generators have order `Q`.
pub proof fn lemma_generators_have_order_q()
    ensures
        has_order_q(G as int),
        has_order_q(H as int),
{
    lemma_g_to_the_q();
    lemma_h_to_the_q();
}

/// No exponent strictly between 0 and `Q` sends a generator of order `Q`
/// to 1.
pub proof fn lemma_no_smaller_order(g: int, d: nat)
    requires
        has_order_q(g),
        0 < d < Q,
    ensures
        pow(g, d) % (P as int) != 1,
{
    if pow(g, d) % (P as int) == 1 {
        let t = gcd(d, Q as nat);
        lemma_gcd_exponent(g, d, Q as nat);
        lemma_gcd_divides(d, Q as nat);
        // t divides d, so t <= d < Q; t divides Q, so t is 1.
        lemma_fundamental_div_mod(d as int, t as int);
        let k = (d as int) / (t as int);
        assert(t <= d) by (nonlinear_arith)
            requires
                d == t * k,
                d > 0,
                t > 0,
        ;
        if t > 1 {
            lemma_q_is_prime(t);
        }
        assert(t == 1);
        lemma_pow1(g);
    }
}

/// Powers of a generator of order `Q` agree modulo `P` exactly when the
/// exponents agree modulo `Q`.
pub proof fn lemma_powers_agree_iff(g: int, a: nat, b: nat)
    requires
        has_order_q(g),
    ensures
        pow(g, a) % (P as int) == pow(g, b) % (P as int) <==> a % (Q as nat) == b % (Q as nat),
{
    let p = P as int;
    let q = Q as nat;
    lemma_reduce_exponent(g, a, q);
    lemma_reduce_exponent(g, b, q);
    let ra = a % q;
    let rb = b % q;
    if pow(g, a) % p == pow(g, b) % p && ra != rb {
        if ra > rb {
            lemma_distinct_residues_distinct_powers(g, ra, rb);
        } else {
            lemma_distinct_residues_distinct_powers(g, rb, ra);
        }
    }
}

/// Two different exponents below `Q` give different powers.
proof fn lemma_distinct_residues_distinct_powers(g: int, hi: nat, lo: nat)
    requires
        has_order_q(g),
        lo < hi < Q,
    ensures
        pow(g, hi) % (P as int) != pow(g, lo) % (P as int),
{
    let p = P as int;
    let q = Q as nat;
    if pow(g, hi) % p == pow(g, lo) % p {
        // Multiply both sides by g^(Q - lo): the right side becomes g^Q,
        // the left side g^(hi - lo + Q).
        let t = (q - lo) as nat;
        lemma_pow_adds(g, hi, t);
        lemma_pow_adds(g, lo, t);
        lemma_mul_mod_noop_general(pow(g, hi), pow(g, t), p);
        lemma_mul_mod_noop_general(pow(g, lo), pow(g, t), p);
        assert(lo + t == q);
        assert(pow(g, hi + t) % p == 1);
        let d = (hi - lo) as nat;
        assert(hi + t == d + q);
        lemma_reduce_exponent(g, hi + t, q);
        assert((d + q) % q == d) by {
            lemma_mod_multiples_vanish(1, d as int, q as int);
            lemma_small_mod(d, q);
        }
        lemma_no_smaller_order(g, d);
    }
}

} // verus!
