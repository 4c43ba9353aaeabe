use zkp_auth::{mod_mul, mod_pow, mod_sub, G, H, P, Q};

#[test]
fn parameters_are_the_documented_group() {
    assert_eq!(P, (1u64 << 20) - 17);
    assert_eq!(Q * 14, P - 1);
    assert_eq!(G, 12);
    assert_eq!(H, 15);
}

#[test]
fn generators_have_order_q() {
    assert_eq!(mod_pow(G, Q, P), 1);
    assert_eq!(mod_pow(H, Q, P), 1);
    assert_ne!(mod_pow(G, 1, P), 1);
    assert_ne!(mod_pow(H, 1, P), 1);
}

#[test]
fn mod_pow_small_values() {
    assert_eq!(mod_pow(2, 10, 1000), 24);
    assert_eq!(mod_pow(3, 0, 7), 1);
    assert_eq!(mod_pow(0, 0, 5), 1);
    assert_eq!(mod_pow(0, 3, 5), 0);
    assert_eq!(mod_pow(12, 42, P), 58715);
    assert_eq!(mod_pow(15, 42, P), 405029);
    assert_eq!(mod_pow(12, 7, P), 180802);
    assert_eq!(mod_pow(15, 7, P), 992817);
}

#[test]
fn mod_pow_modulus_one_is_zero() {
    assert_eq!(mod_pow(5, 3, 1), 0);
    assert_eq!(mod_pow(0, 0, 1), 0);
    assert_eq!(mod_pow(u64::MAX, u64::MAX, 1), 0);
}

#[test]
fn mod_pow_result_is_reduced() {
    let moduli: [u64; 4] = [2, 7, P, u64::MAX];
    for m in moduli {
        for base in [0u64, 1, 2, 12, P, u64::MAX] {
            for exp in [0u64, 1, 2, 63, Q, u64::MAX] {
                assert!(mod_pow(base, exp, m) < m);
            }
        }
    }
}

#[test]
fn mod_pow_does_not_overflow_on_wide_operands() {
    let m: u64 = u64::MAX - 58;
    assert_eq!(mod_pow(u64::MAX, u64::MAX, m), 4959809447704153900);
    assert_eq!(mod_pow(1u64 << 63, 2, u64::MAX), 4611686018427387904);
    assert_eq!(mod_pow(7, u64::MAX, P), 629408);
}

#[test]
fn mod_mul_uses_wide_product() {
    assert_eq!(mod_mul(u64::MAX, u64::MAX, u64::MAX - 58), 3364);
    assert_eq!(mod_mul(123456789, 987654321, P), 960933);
    assert_eq!(mod_mul(0, 5, 7), 0);
    assert_eq!(mod_mul(6, 6, 1), 0);
}

#[test]
fn mod_sub_wraps_into_range_when_minuend_is_smaller() {
    assert_eq!(mod_sub(3, 5, 7), 5);
    assert_eq!(mod_sub(0, 1, Q), Q - 1);
    assert_eq!(mod_sub(5, 3, 7), 2);
    assert_eq!(mod_sub(4, 4, 7), 0);
}

#[test]
fn mod_sub_reduces_unreduced_operands() {
    assert_eq!(mod_sub(u64::MAX, 0, Q), 18414);
    assert_eq!(mod_sub(0, u64::MAX, Q), 56483);
    assert_eq!(mod_sub(10, u64::MAX, u64::MAX), 10);
    assert_eq!(mod_sub(9, 2, 1), 0);
}

#[test]
fn mod_sub_adding_back_restores_minuend() {
    let samples: [u64; 7] = [0, 1, 2, 41, 37448, Q - 2, Q - 1];
    for a in samples {
        for b in samples {
            let d = mod_sub(a, b, Q);
            assert!(d < Q);
            assert_eq!((d + b) % Q, a);
        }
    }
}
