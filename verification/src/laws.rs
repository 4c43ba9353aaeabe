//! What the protocol guarantees, proved once and for all inputs: an honest
//! prover is always accepted, a wrong answer or a foreign commitment never
//! is, a challenge can be answered only once, and unknown users get no
//! challenge.

use crate::engine::AuthState;
use crate::error::AuthError;
use crate::group::{pow_mod, sub_mod, G, H, P, Q};
use crate::order::{has_order_q, lemma_generators_have_order_q, lemma_powers_agree_iff};
use crate::protocol::{accepts, recomputed, response};
use vstd::arithmetic::div_mod::{
    lemma_add_mod_noop, lemma_mod_bound, lemma_mul_mod_noop_general, lemma_small_mod,
    lemma_sub_mod_noop,
};
use vstd::arithmetic::mul::lemma_mul_is_commutative;
use vstd::arithmetic::power::{lemma_pow_adds, lemma_pow_mod_noop, lemma_pow_multiplies, pow};
use vstd::prelude::*;

verus! {

/// Modular subtraction undoes modular addition: for scalars `a` and `b` below
/// `Q`, the difference `(a - b) mod Q` is again below `Q`, and adding `b` to
/// it gives `a` back modulo `Q`.
pub proof fn lemma_sub_mod_restores(a: nat, b: nat)
    requires
        a < Q,
        b < Q,
    ensures
        0 <= sub_mod(a as int, b as int, Q as int) < Q,
        (sub_mod(a as int, b as int, Q as int) + b) % (Q as int) == a,
{
    let q = Q as int;
    lemma_mod_bound(a - b, q);
    lemma_add_mod_noop(a - b, b as int, q);
    lemma_small_mod(b, Q as nat);
    lemma_small_mod(a, Q as nat);
}

/// For a commitment `y = g^x mod P`, the verifier's value `g^s * y^c mod P`
/// is `g^(s + c*x) mod P`.
pub proof fn lemma_recomputed_is_power(g: nat, x: nat, c: nat, s: nat)
    ensures
        recomputed(g, pow_mod(g, x, P as nat), c, s) == pow_mod(g, s + c * x, P as nat),
{
    let p = P as int;
    let b = g as int;
    let y = pow(b, x) % p;
    lemma_mod_bound(pow(b, x), p);
    assert(pow_mod(g, x, P as nat) == y);
    // y^c and (g^x)^c = g^(x*c) leave the same residue.
    assert(pow(y, c) % p == pow(b, c * x) % p) by {
        lemma_pow_mod_noop(pow(b, x), c, p);
        lemma_pow_multiplies(b, x, c);
        lemma_mul_is_commutative(x as int, c as int);
    }
    lemma_mul_mod_noop_general(pow(b, s), pow(y, c), p);
    lemma_mul_mod_noop_general(pow(b, s), pow(b, c * x), p);
    lemma_pow_adds(b, s, c * x);
    lemma_mod_bound(pow(b, s + c * x), p);
}

/// An answer `s` differs from the honest response by a multiple of `Q`
/// exactly when `s + c*x` and `k` agree modulo `Q`.
pub proof fn lemma_response_balances(k: nat, c: nat, x: nat, s: nat)
    ensures
        (s + c * x) % (Q as nat) == k % (Q as nat) <==> s % (Q as nat) == response(k, c, x),
        response(k, c, x) < Q,
{
    let q = Q as int;
    let cx = (c * x) as int;
    lemma_mod_bound(k - cx, q);
    lemma_sub_mod_noop(s + cx, cx, q);
    lemma_sub_mod_noop(k as int, cx, q);
    lemma_add_mod_noop(s as int, cx, q);
    lemma_add_mod_noop(k - cx, cx, q);
}

/// For commitments to `x` and to `k` under a generator of order `Q`, the
/// verifier's value equals the commitment to `k` exactly when the answer is
/// the honest response modulo `Q`.
pub proof fn lemma_equation_holds_iff(g: nat, x: nat, k: nat, c: nat, s: nat)
    requires
        has_order_q(g as int),
    ensures
        recomputed(g, pow_mod(g, x, P as nat), c, s) == pow_mod(g, k, P as nat)
            <==> s % (Q as nat) == response(k, c, x),
{
    lemma_recomputed_is_power(g, x, c, s);
    lemma_powers_agree_iff(g as int, s + c * x, k);
    lemma_response_balances(k, c, x, s);
    lemma_mod_bound(pow(g as int, s + c * x), P as int);
    lemma_mod_bound(pow(g as int, k), P as int);
}

/// An honest prover is accepted: whoever committed to `x` at registration
/// and to `k` at login, and answers the challenge `c` with
/// `(k - c*x) mod Q`, satisfies both verification equations.
pub proof fn lemma_honest_answer_accepted(x: nat, k: nat, c: nat)
    ensures
        accepts(
            pow_mod(G as nat, x, P as nat),
            pow_mod(H as nat, x, P as nat),
            pow_mod(G as nat, k, P as nat),
            pow_mod(H as nat, k, P as nat),
            c,
            response(k, c, x),
        ),
{
    let s = response(k, c, x);
    lemma_generators_have_order_q();
    lemma_response_balances(k, c, x, s);
    assert(s % (Q as nat) == s);
    lemma_equation_holds_iff(G as nat, x, k, c, s);
    lemma_equation_holds_iff(H as nat, x, k, c, s);
}

/// A wrong answer is rejected: an answer that differs from the honest
/// response by anything but a multiple of `Q` fails verification.
pub proof fn lemma_wrong_answer_rejected(x: nat, k: nat, c: nat, s: nat)
    requires
        s % (Q as nat) != response(k, c, x),
    ensures
        !accepts(
            pow_mod(G as nat, x, P as nat),
            pow_mod(H as nat, x, P as nat),
            pow_mod(G as nat, k, P as nat),
            pow_mod(H as nat, k, P as nat),
            c,
            s,
        ),
{
    lemma_generators_have_order_q();
    lemma_equation_holds_iff(G as nat, x, k, c, s);
}

/// A foreign commitment is rejected: the honest response formed with `k`
/// fails verification against any pair `(r1, r2)` other than the commitments
/// to `k`.
pub proof fn lemma_wrong_commitment_rejected(x: nat, k: nat, c: nat, r1: nat, r2: nat)
    requires
        r1 != pow_mod(G as nat, k, P as nat) || r2 != pow_mod(H as nat, k, P as nat),
    ensures
        !accepts(
            pow_mod(G as nat, x, P as nat),
            pow_mod(H as nat, x, P as nat),
            r1,
            r2,
            c,
            response(k, c, x),
        ),
{
    lemma_honest_answer_accepted(x, k, c);
}

/// The commitments of an honest prover, as the engine stores them.
pub open spec fn committed(e: u64) -> (u64, u64) {
    (pow_mod(G as nat, e as nat, P as nat) as u64, pow_mod(H as nat, e as nat, P as nat) as u64)
}

/// Commitments are residues modulo `P`, so they fit the engine's fields.
pub proof fn lemma_committed_in_range(e: u64)
    ensures
        committed(e).0 == pow_mod(G as nat, e as nat, P as nat),
        committed(e).1 == pow_mod(H as nat, e as nat, P as nat),
        committed(e).0 < P,
        committed(e).1 < P,
{
    lemma_mod_bound(pow(G as int, e as nat), P as int);
    lemma_mod_bound(pow(H as int, e as nat), P as int);
}

/// The state in which `name` has registered the commitments to `x` and then
/// been issued the challenge `c` under `id` for the commitments `(r1, r2)`.
pub open spec fn login_opened(
    st: AuthState,
    name: Seq<char>,
    id: Seq<char>,
    x: u64,
    r1: u64,
    r2: u64,
    c: u64,
) -> AuthState {
    st.after_registration(name, committed(x).0, committed(x).1).after_issue(name, r1, r2, id, c)
}

/// An honest login succeeds from every state: registering the commitments
/// to a secret `x`, asking for a challenge with the commitments to an
/// ephemeral `k`, and answering the challenge `c` with `(k - c*x) mod Q`
/// is accepted at each step.
pub proof fn lemma_honest_login_verifies(
    st: AuthState,
    name: Seq<char>,
    id: Seq<char>,
    x: u64,
    k: u64,
    c: u64,
)
    requires
        1 <= x < Q,
        1 <= k < Q,
        c < Q,
    ensures
        AuthState::registration_refusal(committed(x).0, committed(x).1) is None,
        st.after_registration(name, committed(x).0, committed(x).1).issue_refusal(
            name,
            committed(k).0,
            committed(k).1,
            c,
        ) is None,
        login_opened(st, name, id, x, committed(k).0, committed(k).1, c).answer_outcome(
            id,
            response(k as nat, c as nat, x as nat) as u64,
        ) == Ok::<(), AuthError>(()),
{
    lemma_committed_in_range(x);
    lemma_committed_in_range(k);
    lemma_response_balances(k as nat, c as nat, x as nat, 0);
    lemma_honest_answer_accepted(x as nat, k as nat, c as nat);
}

/// A login with a wrong answer fails: after the same registration and
/// challenge, an answer that is not the honest response modulo `Q` is
/// refused with `AuthenticationFailure`.
pub proof fn lemma_wrong_answer_fails(
    st: AuthState,
    name: Seq<char>,
    id: Seq<char>,
    x: u64,
    k: u64,
    c: u64,
    s: u64,
)
    requires
        1 <= x < Q,
        1 <= k < Q,
        c < Q,
        (s as nat) % (Q as nat) != response(k as nat, c as nat, x as nat),
    ensures
        login_opened(st, name, id, x, committed(k).0, committed(k).1, c).answer_outcome(id, s)
            == Err::<(), AuthError>(AuthError::AuthenticationFailure),
{
    lemma_committed_in_range(x);
    lemma_committed_in_range(k);
    lemma_wrong_answer_rejected(x as nat, k as nat, c as nat, s as nat);
}

/// A login with foreign commitments fails: where the challenge was asked
/// for with a pair `(r1, r2)` that is not the commitment to `k`, the honest
/// response formed with `k` is refused with `AuthenticationFailure`.
pub proof fn lemma_wrong_commitment_fails(
    st: AuthState,
    name: Seq<char>,
    id: Seq<char>,
    x: u64,
    k: u64,
    c: u64,
    r1: u64,
    r2: u64,
)
    requires
        1 <= x < Q,
        1 <= k < Q,
        c < Q,
        r1 < P,
        r2 < P,
        (r1, r2) != committed(k),
    ensures
        login_opened(st, name, id, x, r1, r2, c).answer_outcome(
            id,
            response(k as nat, c as nat, x as nat) as u64,
        ) == Err::<(), AuthError>(AuthError::AuthenticationFailure),
{
    lemma_committed_in_range(x);
    lemma_committed_in_range(k);
    lemma_response_balances(k as nat, c as nat, x as nat, 0);
    lemma_wrong_commitment_rejected(x as nat, k as nat, c as nat, r1 as nat, r2 as nat);
}

/// A challenge is answered at most once: once an answer to `id` has been
/// judged, whatever the verdict, every further answer to the same id is
/// refused with `ChallengeNotFound`.
pub proof fn lemma_replay_rejected(st: AuthState, id: Seq<char>, s: u64)
    ensures
        st.after_answer(id).answer_outcome(id, s) == Err::<(), AuthError>(
            AuthError::ChallengeNotFound,
        ),
{
}

/// An unknown user gets no challenge: a request under a username that is
/// not registered is refused with `UserNotFound`, whatever else it holds,
/// and leaves the state as it was.
pub proof fn lemma_unknown_user_refused(
    st: AuthState,
    name: Seq<char>,
    r1: u64,
    r2: u64,
    id: Seq<char>,
    c: u64,
)
    requires
        !st.users.contains_key(name),
    ensures
        st.request_refusal(name, r1, r2) == Some(AuthError::UserNotFound),
        st.issue_refusal(name, r1, r2, c) == Some(AuthError::UserNotFound),
        st.after_issue(name, r1, r2, id, c) == st,
{
}

/// Issuing a challenge keeps the state well formed.
pub proof fn lemma_issue_keeps_wf(
    st: AuthState,
    name: Seq<char>,
    r1: u64,
    r2: u64,
    id: Seq<char>,
    c: u64,
)
    requires
        st.wf(),
    ensures
        st.after_issue(name, r1, r2, id, c).wf(),
{
    let next = st.after_issue(name, r1, r2, id, c);
    assert forall|i: Seq<char>| #[trigger] next.challenges.contains_key(i) implies {
        let ch = next.challenges[i];
        &&& next.users.contains_key(ch.username)
        &&& ch.r1 < P
        &&& ch.r2 < P
        &&& ch.c < Q
    } by {
        if i != id || st.issue_refusal(name, r1, r2, c) is Some {
            assert(st.challenges.contains_key(i));
        }
    }
}

/// Judging an answer keeps the state well formed.
pub proof fn lemma_answer_keeps_wf(st: AuthState, id: Seq<char>)
    requires
        st.wf(),
    ensures
        st.after_answer(id).wf(),
{
    let next = st.after_answer(id);
    assert forall|i: Seq<char>| #[trigger] next.challenges.contains_key(i) implies {
        let ch = next.challenges[i];
        &&& next.users.contains_key(ch.username)
        &&& ch.r1 < P
        &&& ch.r2 < P
        &&& ch.c < Q
    } by {
        assert(st.challenges.contains_key(i));
    }
}

/// In a well-formed state the user behind an open challenge is always
/// registered, so an answer is never refused with `UserNotFound`.
pub proof fn lemma_challenge_user_is_known(st: AuthState, id: Seq<char>, s: u64)
    requires
        st.wf(),
    ensures
        st.answer_outcome(id, s) != Err::<(), AuthError>(AuthError::UserNotFound),
{
    if st.challenges.contains_key(id) {
        assert(st.users.contains_key(st.challenges[id].username));
    }
}

} // verus!
