//! The Chaum–Pedersen exchange itself: what the prover commits to, how it
//! answers a challenge, and the two equations the verifier checks.

use crate::entropy::random_in_range;
use crate::error::AuthError;
use crate::group::{mod_mul, mod_pow, mod_sub, pow_mod, sub_mod, G, H, P, Q};
use vstd::arithmetic::div_mod::{lemma_mul_mod_noop_general, lemma_sub_mod_noop_right};
use vstd::arithmetic::power::pow;
use vstd::prelude::*;

verus! {

/// The honest response to challenge `c`: `(k - c*x) mod Q`, where `x` is the
/// long-term secret and `k` the ephemeral one. The difference is taken in
/// the integers, so it is reduced correctly also when `k < c*x`.
pub open spec fn response(k: nat, c: nat, x: nat) -> nat {
    sub_mod(k as int, (c * x) as int, Q as int) as nat
}

/// What the verifier recomputes for one generator: `g^s * y^c mod P`.
pub open spec fn recomputed(g: nat, y: nat, c: nat, s: nat) -> nat {
    ((pow(g as int, s) * pow(y as int, c)) % (P as int)) as nat
}

/// The verification equations. Both must hold; one alone is a rejection.
pub open spec fn accepts(y1: nat, y2: nat, r1: nat, r2: nat, c: nat, s: nat) -> bool {
    recomputed(G as nat, y1, c, s) == r1 && recomputed(H as nat, y2, c, s) == r2
}

/// The pair `(G^e mod P, H^e mod P)` for an arbitrary exponent.
pub fn commitment_pair(exponent: u64) -> (pair: (u64, u64))
    ensures
        pair.0 == pow_mod(G as nat, exponent as nat, P as nat),
        pair.1 == pow_mod(H as nat, exponent as nat, P as nat),
        pair.0 < P,
        pair.1 < P,
{
    (mod_pow(G, exponent, P), mod_pow(H, exponent, P))
}

/// The public commitment `(y1, y2)` to a long-term secret. A secret outside
/// `[1, Q-1]` is refused.
pub fn commit(secret: u64) -> (res: Result<(u64, u64), AuthError>)
    ensures
        match res {
            Ok(pair) => {
                &&& 1 <= secret < Q
                &&& pair.0 == pow_mod(G as nat, secret as nat, P as nat)
                &&& pair.1 == pow_mod(H as nat, secret as nat, P as nat)
            },
            Err(e) => e == AuthError::InvalidInput && !(1 <= secret < Q),
        },
{
    if secret < 1 || secret >= Q {
        return Err(AuthError::InvalidInput);
    }
    Ok(commitment_pair(secret))
}

/// What a prover keeps and sends when it opens a login: the ephemeral secret
/// `k`, which stays with the prover, and the commitments to it.
#[derive(Clone, Copy, Debug)]
pub struct Ephemeral {
    /// The ephemeral secret, in `[1, Q-1]`.
    pub k: u64,
    /// `G^k mod P`.
    pub r1: u64,
    /// `H^k mod P`.
    pub r2: u64,
}

/// Opens a login: draws a fresh ephemeral secret and commits to it. Which
/// secret is drawn is not determined; the commitments always belong to it.
pub fn begin_login() -> (e: Ephemeral)
    ensures
        1 <= e.k < Q,
        e.r1 == pow_mod(G as nat, e.k as nat, P as nat),
        e.r2 == pow_mod(H as nat, e.k as nat, P as nat),
{
    let k: u64 = random_in_range(1, Q);
    let pair = commitment_pair(k);
    Ephemeral { k, r1: pair.0, r2: pair.1 }
}

/// The prover's answer `s = (k - c*x) mod Q`, always in `[0, Q-1]`.
pub fn respond(k: u64, c: u64, x: u64) -> (s: u64)
    ensures
        s == response(k as nat, c as nat, x as nat),
        s < Q,
{
    let cx: u64 = mod_mul(c, x, Q);
    proof {
        lemma_sub_mod_noop_right(k as int, c * x, Q as int);
    }
    mod_sub(k, cx, Q)
}

/// Whether the answer `s` to challenge `c` fits the commitments `(r1, r2)` of
/// a prover registered with `(y1, y2)`.
pub fn answer_is_valid(y1: u64, y2: u64, r1: u64, r2: u64, c: u64, s: u64) -> (ok: bool)
    ensures
        ok == accepts(y1 as nat, y2 as nat, r1 as nat, r2 as nat, c as nat, s as nat),
{
    let v1: u64 = mod_mul(mod_pow(G, s, P), mod_pow(y1, c, P), P);
    let v2: u64 = mod_mul(mod_pow(H, s, P), mod_pow(y2, c, P), P);
    proof {
        lemma_mul_mod_noop_general(pow(G as int, s as nat), pow(y1 as int, c as nat), P as int);
        lemma_mul_mod_noop_general(pow(H as int, s as nat), pow(y2 as int, c as nat), P as int);
    }
    v1 == r1 && v2 == r2
}

} // verus!
