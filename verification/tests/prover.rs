use zkp_auth::{
    answer_is_valid, begin_login, commit, commitment_pair, mod_pow, respond, AuthError, G, H, P, Q,
};

#[test]
fn commit_gives_both_powers() {
    assert_eq!(commit(42), Ok((58715, 405029)));
    assert_eq!(commit(7), Ok((180802, 992817)));
    assert_eq!(commit(1), Ok((12, 15)));
    assert_eq!(commit(Q - 1), Ok((mod_pow(G, Q - 1, P), mod_pow(H, Q - 1, P))));
}

#[test]
fn commit_refuses_secret_out_of_range() {
    assert_eq!(commit(0), Err(AuthError::InvalidInput));
    assert_eq!(commit(Q), Err(AuthError::InvalidInput));
    assert_eq!(commit(P - 1), Err(AuthError::InvalidInput));
    assert_eq!(commit(u64::MAX), Err(AuthError::InvalidInput));
}

#[test]
fn commitment_pair_takes_any_exponent() {
    assert_eq!(commitment_pair(0), (1, 1));
    assert_eq!(commitment_pair(Q), (1, 1));
    assert_eq!(commitment_pair(42), (58715, 405029));
    assert_eq!(commitment_pair(Q + 42), (58715, 405029));
}

#[test]
fn respond_exact_values() {
    assert_eq!(respond(7, 0, 42), 7);
    assert_eq!(respond(7, 1, 42), 74862);
    assert_eq!(respond(7, 5, 42), 74694);
    assert_eq!(respond(7, 1000, 42), 32904);
    assert_eq!(respond(7, 74896, 42), 49);
    assert_eq!(respond(1, 74896, 74896), 0);
    assert_eq!(respond(u64::MAX, u64::MAX, u64::MAX), 1737);
}

#[test]
fn begin_login_commits_to_its_secret() {
    let mut secrets: Vec<u64> = Vec::new();
    for _ in 0..40 {
        let e = begin_login();
        assert!(1 <= e.k && e.k < Q);
        assert_eq!(e.r1, mod_pow(G, e.k, P));
        assert_eq!(e.r2, mod_pow(H, e.k, P));
        secrets.push(e.k);
    }
    assert!(secrets.iter().any(|k| *k != secrets[0]));
}

#[test]
fn honest_answer_satisfies_both_equations() {
    let (y1, y2) = commitment_pair(42);
    let (r1, r2) = commitment_pair(7);
    for c in [0u64, 1, 5, 1000, Q - 1] {
        let s = respond(7, c, 42);
        assert!(answer_is_valid(y1, y2, r1, r2, c, s));
    }
}

#[test]
fn honest_answer_for_many_secrets() {
    for x in [1u64, 2, 42, 37448, Q - 1] {
        let (y1, y2) = commitment_pair(x);
        for k in [1u64, 7, 999, Q - 1] {
            let (r1, r2) = commitment_pair(k);
            for c in [0u64, 1, 74, Q - 1] {
                assert!(answer_is_valid(y1, y2, r1, r2, c, respond(k, c, x)));
            }
        }
    }
}

#[test]
fn perturbed_answer_is_rejected() {
    let (y1, y2) = commitment_pair(42);
    let (r1, r2) = commitment_pair(7);
    let c: u64 = 5;
    let s = respond(7, c, 42);
    for delta in [1u64, 2, 100, Q - 1] {
        assert!(!answer_is_valid(y1, y2, r1, r2, c, (s + delta) % Q));
    }
    assert!(answer_is_valid(y1, y2, r1, r2, c, s + Q));
}

#[test]
fn partial_match_is_rejected() {
    let (y1, y2) = commitment_pair(42);
    let (r1, r2) = commitment_pair(7);
    let c: u64 = 5;
    let s = respond(7, c, 42);
    assert!(!answer_is_valid(y1, y2, r1, (r2 + 1) % P, c, s));
    assert!(!answer_is_valid(y1, y2, (r1 + 1) % P, r2, c, s));
    let (o1, o2) = commitment_pair(8);
    assert!(!answer_is_valid(y1, y2, o1, o2, c, s));
}

#[test]
fn answer_from_wrong_secret_is_rejected() {
    let (y1, y2) = commitment_pair(42);
    let (r1, r2) = commitment_pair(7);
    let c: u64 = 5;
    assert!(!answer_is_valid(y1, y2, r1, r2, c, respond(7, c, 43)));
}
