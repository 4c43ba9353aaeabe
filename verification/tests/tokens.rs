use zkp_auth::{fresh_token, to_hex, AuthError};

#[test]
fn to_hex_matches_lower_hex_formatting() {
    assert_eq!(to_hex(0), "0");
    assert_eq!(to_hex(9), "9");
    assert_eq!(to_hex(10), "a");
    assert_eq!(to_hex(15), "f");
    assert_eq!(to_hex(16), "10");
    assert_eq!(to_hex(255), "ff");
    assert_eq!(to_hex(4096), "1000");
    assert_eq!(to_hex(48879), "beef");
    assert_eq!(to_hex(u64::MAX), "ffffffffffffffff");
    for n in [1u64, 17, 4660, 74897, 1048559, 81985529216486895, u64::MAX - 1] {
        assert_eq!(to_hex(n), format!("{:x}", n));
    }
}

#[test]
fn fresh_token_is_a_hex_numeral() {
    for _ in 0..50 {
        let t = fresh_token();
        assert!(!t.is_empty());
        assert!(t.len() <= 16);
        assert!(t.chars().all(|ch| matches!(ch, '0'..='9' | 'a'..='f')));
        assert!(t == "0" || !t.starts_with('0'));
    }
}

#[test]
fn fresh_tokens_differ() {
    let mut seen: Vec<String> = Vec::new();
    for _ in 0..64 {
        let t = fresh_token();
        assert!(!seen.contains(&t));
        seen.push(t);
    }
}

#[test]
fn error_messages() {
    assert_eq!(AuthError::InvalidInput.message(), "Invalid input");
    assert_eq!(AuthError::UserNotFound.message(), "User not found");
    assert_eq!(AuthError::ChallengeNotFound.message(), "Challenge not found");
    assert_eq!(AuthError::AuthenticationFailure.message(), "Authentication Failure");
}
