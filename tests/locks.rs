use simple_wkd::locks::TokenLocks;

#[test]
fn a_token_is_held_once() {
    let mut locks = TokenLocks::new();
    assert!(!locks.is_held("abc"));
    assert!(locks.try_acquire("abc"));
    assert!(locks.is_held("abc"));
    assert!(!locks.try_acquire("abc"));
    assert!(locks.try_acquire("xyz"));
    locks.release("abc");
    assert!(!locks.is_held("abc"));
    assert!(locks.is_held("xyz"));
    assert!(locks.try_acquire("abc"));
}

#[test]
fn releasing_a_free_token_changes_nothing() {
    let mut locks = TokenLocks::new();
    locks.release("never");
    assert!(locks.try_acquire("t"));
    locks.release("other");
    assert!(locks.is_held("t"));
}
