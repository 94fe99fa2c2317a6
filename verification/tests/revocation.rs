use ourblock_trust::error::TrustError;
use ourblock_trust::identity::Identity;
use ourblock_trust::revocation::{is_agent_revoked, RevocationRegistry, MAX_REASON_LENGTH};

fn id(name: &str) -> Identity {
    Identity::new(name.as_bytes().to_vec())
}

#[test]
fn revocation_is_recorded() {
    let mut registry = RevocationRegistry::new();
    let (mod_, x) = (id("moderator"), id("x"));
    assert!(!registry.is_revoked(&x));
    assert!(registry.list().is_empty());
    let record = registry.revoke(&mod_, &x, b"harassment", 77).unwrap();
    assert_eq!(record.revoked_agent, x);
    assert_eq!(record.revoker, mod_);
    assert_eq!(record.reason, b"harassment".to_vec());
    assert_eq!(record.revoked_at, 77);
    assert!(registry.is_revoked(&x));
    assert!(is_agent_revoked(&registry, &x));
    assert!(!is_agent_revoked(&registry, &mod_));
    assert_eq!(registry.list(), vec![record]);
}

#[test]
fn revocation_is_permanent() {
    let mut registry = RevocationRegistry::new();
    let (mod_, x, y) = (id("moderator"), id("x"), id("y"));
    registry.revoke(&mod_, &x, b"first", 1).unwrap();
    assert_eq!(registry.revoke(&mod_, &x, b"second", 2), Err(TrustError::AlreadyRevoked));
    assert_eq!(registry.revoke(&y, &x, b"", 3), Err(TrustError::AlreadyRevoked));
    registry.revoke(&mod_, &y, b"other", 4).unwrap();
    assert!(registry.is_revoked(&x));
    assert!(registry.is_revoked(&y));
    assert_eq!(registry.list().len(), 2);
}

#[test]
fn reason_must_have_one_to_five_hundred_bytes() {
    let mut registry = RevocationRegistry::new();
    let (mod_, x, y) = (id("moderator"), id("x"), id("y"));
    assert_eq!(MAX_REASON_LENGTH, 500);
    assert_eq!(registry.revoke(&mod_, &x, b"", 1), Err(TrustError::InvalidReason));
    let over = vec![b'r'; 501];
    assert_eq!(registry.revoke(&mod_, &x, &over, 1), Err(TrustError::InvalidReason));
    assert!(!registry.is_revoked(&x));
    assert!(registry.list().is_empty());
    let exact = vec![b'r'; 500];
    assert!(registry.revoke(&mod_, &x, &exact, 1).is_ok());
    assert!(registry.revoke(&mod_, &y, b"r", 1).is_ok());
}
