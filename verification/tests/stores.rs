use zkp_auth::{AuthError, ChallengeLedger, ChallengeRecord, CredentialStore, P, Q};

fn record(username: &str, r1: u64, r2: u64, c: u64) -> ChallengeRecord {
    ChallengeRecord { username: username.to_string(), r1, r2, c }
}

#[test]
fn store_starts_empty() {
    let store = CredentialStore::new();
    assert_eq!(store.len(), 0);
    assert!(!store.contains("alice"));
    assert_eq!(store.lookup("alice"), None);
}

#[test]
fn store_register_then_lookup() {
    let mut store = CredentialStore::new();
    assert_eq!(store.register("alice".to_string(), 58715, 405029), Ok(()));
    assert!(store.contains("alice"));
    assert_eq!(store.lookup("alice"), Some((58715, 405029)));
    assert_eq!(store.lookup("bob"), None);
    assert_eq!(store.len(), 1);
}

#[test]
fn store_register_again_overwrites() {
    let mut store = CredentialStore::new();
    assert_eq!(store.register("alice".to_string(), 1, 2), Ok(()));
    assert_eq!(store.register("alice".to_string(), 3, 4), Ok(()));
    assert_eq!(store.lookup("alice"), Some((3, 4)));
    assert_eq!(store.len(), 1);
}

#[test]
fn store_refuses_unreduced_commitments() {
    let mut store = CredentialStore::new();
    assert_eq!(store.register("alice".to_string(), P, 0), Err(AuthError::InvalidInput));
    assert_eq!(store.register("alice".to_string(), 0, P), Err(AuthError::InvalidInput));
    assert_eq!(store.register("alice".to_string(), u64::MAX, 5), Err(AuthError::InvalidInput));
    assert_eq!(store.len(), 0);
    assert_eq!(store.register("alice".to_string(), P - 1, 0), Ok(()));
    assert_eq!(store.lookup("alice"), Some((P - 1, 0)));
}

#[test]
fn store_refusal_keeps_earlier_binding() {
    let mut store = CredentialStore::new();
    assert_eq!(store.register("alice".to_string(), 10, 20), Ok(()));
    assert_eq!(store.register("alice".to_string(), P, 20), Err(AuthError::InvalidInput));
    assert_eq!(store.lookup("alice"), Some((10, 20)));
}

#[test]
fn ledger_insert_then_consume_once() {
    let mut ledger = ChallengeLedger::new();
    assert_eq!(ledger.len(), 0);
    assert_eq!(ledger.insert("a1".to_string(), record("alice", 180802, 992817, 5)), Ok(()));
    assert!(ledger.contains("a1"));
    assert_eq!(ledger.len(), 1);
    let got = ledger.consume("a1").expect("the record was filed");
    assert_eq!(got.username, "alice");
    assert_eq!(got.r1, 180802);
    assert_eq!(got.r2, 992817);
    assert_eq!(got.c, 5);
    assert!(!ledger.contains("a1"));
    assert!(ledger.consume("a1").is_none());
    assert_eq!(ledger.len(), 0);
}

#[test]
fn ledger_consume_unknown_id_changes_nothing() {
    let mut ledger = ChallengeLedger::new();
    assert_eq!(ledger.insert("a1".to_string(), record("alice", 1, 2, 3)), Ok(()));
    assert!(ledger.consume("zz").is_none());
    assert_eq!(ledger.len(), 1);
    assert!(ledger.contains("a1"));
}

#[test]
fn ledger_keeps_ids_apart() {
    let mut ledger = ChallengeLedger::new();
    assert_eq!(ledger.insert("a1".to_string(), record("alice", 1, 2, 3)), Ok(()));
    assert_eq!(ledger.insert("b2".to_string(), record("bob", 4, 5, 6)), Ok(()));
    let got = ledger.consume("b2").expect("the record was filed");
    assert_eq!(got.username, "bob");
    assert_eq!((got.r1, got.r2, got.c), (4, 5, 6));
    assert!(ledger.contains("a1"));
    assert_eq!(ledger.len(), 1);
}

#[test]
fn ledger_refuses_unreduced_values() {
    let mut ledger = ChallengeLedger::new();
    assert_eq!(
        ledger.insert("a1".to_string(), record("alice", P, 2, 3)),
        Err(AuthError::InvalidInput)
    );
    assert_eq!(
        ledger.insert("a1".to_string(), record("alice", 1, P, 3)),
        Err(AuthError::InvalidInput)
    );
    assert_eq!(
        ledger.insert("a1".to_string(), record("alice", 1, 2, Q)),
        Err(AuthError::InvalidInput)
    );
    assert_eq!(ledger.len(), 0);
    assert_eq!(ledger.insert("a1".to_string(), record("alice", P - 1, P - 1, Q - 1)), Ok(()));
    assert_eq!(ledger.len(), 1);
}
