//! The failures that the trust core reports.

use vstd::prelude::*;

verus! {

/// Why an operation of the trust core was refused. Every failure is an
/// ordinary value: nothing in this crate aborts, and a refused operation
/// leaves the state it was applied to untouched.
#[derive(Clone, Copy, Debug, PartialEq, Eq, Structural)]
pub enum TrustError {
    /// A private community was joined without presenting any proof.
    MissingInvitation,
    /// The presented proof is in none of the accepted encodings.
    MalformedInvitation,
    /// The invitation binds another community than the local one.
    WrongCommunity,
    /// The invitation is presented after its validity window.
    InvitationExpired,
    /// The signature does not verify over the rebuilt payload.
    InvalidSignature,
    /// The issuer has withdrawn the invitation.
    InvitationRevoked,
    /// The community demands an embedded voucher and the proof has none.
    VoucherRequired,
    /// An invitation was asked for with a validity of zero, or one that
    /// would end after the last representable instant.
    InvalidValidity,
    /// An identity tried to vouch for itself.
    SelfVouch,
    /// The voucher has already vouched for this vouchee.
    DuplicateVouch,
    /// The note of a vouch exceeds its bound.
    NoteTooLong,
    /// The caller is not among the trusted anchors.
    NotAnAnchor,
    /// The candidate already is a trusted anchor.
    AlreadyAnchor,
    /// A fact names another issuing identity than the author of its log.
    AuthorMismatch,
    /// A revocation reason is empty or exceeds its bound.
    InvalidReason,
    /// The identity has been revoked before.
    AlreadyRevoked,
    /// A vouch, anchor or revocation was modified after its creation.
    ImmutableEntryUpdate,
}

impl TrustError {
    /// The reason in words, as it is shown to an operator.
    pub open spec fn spec_message(self) -> Seq<char> {
        match self {
            TrustError::MissingInvitation => "An invitation is required to join this community"@,
            TrustError::MalformedInvitation => "The invitation could not be read"@,
            TrustError::WrongCommunity => "The invitation was issued for another community"@,
            TrustError::InvitationExpired => "The invitation has expired"@,
            TrustError::InvalidSignature => "The invitation signature is not valid"@,
            TrustError::InvitationRevoked => "The invitation has been revoked"@,
            TrustError::VoucherRequired => "The invitation must name a voucher"@,
            TrustError::InvalidValidity => "The validity of an invitation must be positive"@,
            TrustError::SelfVouch => "Cannot vouch for yourself"@,
            TrustError::DuplicateVouch => "You have already vouched for this neighbor"@,
            TrustError::NoteTooLong => "Note cannot exceed 500 chars"@,
            TrustError::NotAnAnchor => "Only trusted anchors can designate new anchors"@,
            TrustError::AlreadyAnchor => "This agent is already a trusted anchor"@,
            TrustError::AuthorMismatch => "The issuing identity must match the author"@,
            TrustError::InvalidReason => "A revocation reason must have 1 to 500 chars"@,
            TrustError::AlreadyRevoked => "This agent has already been revoked"@,
            TrustError::ImmutableEntryUpdate => "Trust facts cannot be updated"@,
        }
    }

    /// The reason in words, as it is shown to an operator.
    pub fn message(&self) -> (text: String)
        ensures
            text@ == self.spec_message(),
    {
        let text: &str = match self {
            TrustError::MissingInvitation => "An invitation is required to join this community",
            TrustError::MalformedInvitation => "The invitation could not be read",
            TrustError::WrongCommunity => "The invitation was issued for another community",
            TrustError::InvitationExpired => "The invitation has expired",
            TrustError::InvalidSignature => "The invitation signature is not valid",
            TrustError::InvitationRevoked => "The invitation has been revoked",
            TrustError::VoucherRequired => "The invitation must name a voucher",
            TrustError::InvalidValidity => "The validity of an invitation must be positive",
            TrustError::SelfVouch => "Cannot vouch for yourself",
            TrustError::DuplicateVouch => "You have already vouched for this neighbor",
            TrustError::NoteTooLong => "Note cannot exceed 500 chars",
            TrustError::NotAnAnchor => "Only trusted anchors can designate new anchors",
            TrustError::AlreadyAnchor => "This agent is already a trusted anchor",
            TrustError::AuthorMismatch => "The issuing identity must match the author",
            TrustError::InvalidReason => "A revocation reason must have 1 to 500 chars",
            TrustError::AlreadyRevoked => "This agent has already been revoked",
            TrustError::ImmutableEntryUpdate => "Trust facts cannot be updated",
        };
        text.to_owned()
    }
}

} // verus!
