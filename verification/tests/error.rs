use ourblock_trust::error::TrustError;

#[test]
fn every_error_has_its_own_reason() {
    let all = [
        TrustError::MissingInvitation,
        TrustError::MalformedInvitation,
        TrustError::WrongCommunity,
        TrustError::InvitationExpired,
        TrustError::InvalidSignature,
        TrustError::InvitationRevoked,
        TrustError::VoucherRequired,
        TrustError::InvalidValidity,
        TrustError::SelfVouch,
        TrustError::DuplicateVouch,
        TrustError::NoteTooLong,
        TrustError::NotAnAnchor,
        TrustError::AlreadyAnchor,
        TrustError::AuthorMismatch,
        TrustError::InvalidReason,
        TrustError::AlreadyRevoked,
        TrustError::ImmutableEntryUpdate,
    ];
    for (i, a) in all.iter().enumerate() {
        assert!(!a.message().is_empty());
        for b in &all[i + 1..] {
            assert_ne!(a.message(), b.message());
        }
    }
    assert_eq!(TrustError::SelfVouch.message(), "Cannot vouch for yourself");
    assert_eq!(TrustError::InvitationExpired.message(), "The invitation has expired");
    assert_eq!(
        TrustError::WrongCommunity.message(),
        "The invitation was issued for another community"
    );
    assert_eq!(TrustError::InvalidSignature.message(), "The invitation signature is not valid");
}
