//! Validation of single facts as they arrive from other peers: what can be
//! judged of a fact by itself and the author of the log it stands in.

use vstd::prelude::*;
use crate::error::TrustError;
use crate::identity::Identity;
use crate::invitation::{Invitation, InvitationView, IssuerView};
use crate::revocation::{reason_ok, revocation_refusal, RegistryView, RevocationRecord, RevocationView,
    MAX_REASON_LENGTH};
use crate::trust_graph::{
    designation_refusal, note_too_long, vouch_refusal, AnchorView, TrustGraphView, TrustedAnchor,
    Vouch, VouchView, MAX_NOTE_LENGTH,
};

verus! {

/// One fact of the trust core.
#[derive(Debug, PartialEq, Eq)]
pub enum Fact {
    Vouch(Vouch),
    Anchor(TrustedAnchor),
    Revocation(RevocationRecord),
    Invitation(Invitation),
}

/// The mathematical content of a [`Fact`].
pub ghost enum FactView {
    Vouch(VouchView),
    Anchor(AnchorView),
    Revocation(RevocationView),
    Invitation(InvitationView),
}

impl View for Fact {
    type V = FactView;

    open spec fn view(&self) -> FactView {
        match self {
            Fact::Vouch(v) => FactView::Vouch(v@),
            Fact::Anchor(a) => FactView::Anchor(a@),
            Fact::Revocation(r) => FactView::Revocation(r@),
            Fact::Invitation(i) => FactView::Invitation(i@),
        }
    }
}

/// What a peer is asked to store.
#[derive(Debug, PartialEq, Eq)]
pub enum FactOp {
    /// `author` appends `fact` to its log.
    Create { fact: Fact, author: Identity },
    /// `author` replaces the fact `original` by `fact`.
    Update { original: Fact, fact: Fact, author: Identity },
    /// Anything that does not touch a fact of the trust core.
    Other,
}

/// The mathematical content of a [`FactOp`].
pub ghost enum FactOpView {
    Create { fact: FactView, author: Seq<u8> },
    Update { original: FactView, fact: FactView, author: Seq<u8> },
    Other,
}

impl View for FactOp {
    type V = FactOpView;

    open spec fn view(&self) -> FactOpView {
        match self {
            FactOp::Create { fact, author } => FactOpView::Create { fact: fact@, author: author@ },
            FactOp::Update { original, fact, author } => FactOpView::Update {
                original: original@,
                fact: fact@,
                author: author@,
            },
            FactOp::Other => FactOpView::Other,
        }
    }
}

/// The verdict on a vouch that `author` created: a vouch for the author
/// itself is refused first, then a note beyond its bound, then a voucher
/// that is not the author.
pub open spec fn spec_validate_vouch(v: VouchView, author: Seq<u8>) -> Result<(), TrustError> {
    if v.vouchee == author {
        Err(TrustError::SelfVouch)
    } else if note_too_long(v.note) {
        Err(TrustError::NoteTooLong)
    } else if v.voucher != author {
        Err(TrustError::AuthorMismatch)
    } else {
        Ok(())
    }
}

/// The verdict on an anchor declaration that `author` created: the author
/// must be the designating identity.
pub open spec fn spec_validate_anchor(a: AnchorView, author: Seq<u8>) -> Result<(), TrustError> {
    if a.designated_by != author {
        Err(TrustError::AuthorMismatch)
    } else {
        Ok(())
    }
}

/// The verdict on a revocation that `author` created: an unacceptable
/// reason is refused first, then a revoker that is not the author.
pub open spec fn spec_validate_revocation(r: RevocationView, author: Seq<u8>) -> Result<
    (),
    TrustError,
> {
    if !reason_ok(r.reason) {
        Err(TrustError::InvalidReason)
    } else if r.revoker != author {
        Err(TrustError::AuthorMismatch)
    } else {
        Ok(())
    }
}

/// The verdict on an invitation that `author` created: the author must be
/// the issuer, and the invitation must end after it begins.
pub open spec fn spec_validate_invitation(i: InvitationView, author: Seq<u8>) -> Result<
    (),
    TrustError,
> {
    if i.issuer != author {
        Err(TrustError::AuthorMismatch)
    } else if i.created_at >= i.expires_at {
        Err(TrustError::InvalidValidity)
    } else {
        Ok(())
    }
}

/// The verdict on the replacement of a fact: a vouch, an anchor or a
/// revocation is never replaced, and an invitation only by its issuer and
/// only by itself with the flag set that withdraws it.
pub open spec fn spec_validate_update(original: FactView, fact: FactView, author: Seq<u8>) -> Result<
    (),
    TrustError,
> {
    match (original, fact) {
        (FactView::Invitation(before), FactView::Invitation(after)) => {
            if after.issuer != author {
                Err(TrustError::AuthorMismatch)
            } else if after != before.withdrawn() {
                Err(TrustError::ImmutableEntryUpdate)
            } else {
                Ok(())
            }
        },
        _ => Err(TrustError::ImmutableEntryUpdate),
    }
}

/// The verdict on an operation: a created fact is judged by its kind, a
/// replacement by what it replaces, and everything else passes.
pub open spec fn spec_validate(op: FactOpView) -> Result<(), TrustError> {
    match op {
        FactOpView::Create { fact, author } => match fact {
            FactView::Vouch(v) => spec_validate_vouch(v, author),
            FactView::Anchor(a) => spec_validate_anchor(a, author),
            FactView::Revocation(r) => spec_validate_revocation(r, author),
            FactView::Invitation(i) => spec_validate_invitation(i, author),
        },
        FactOpView::Update { original, fact, author } => spec_validate_update(
            original,
            fact,
            author,
        ),
        FactOpView::Other => Ok(()),
    }
}

/// Judges a vouch that `author` created.
pub fn validate_vouch(vouch: &Vouch, author: &Identity) -> (verdict: Result<(), TrustError>)
    ensures
        verdict == spec_validate_vouch(vouch@, author@),
{
    if vouch.vouchee.same_as(author) {
        return Err(TrustError::SelfVouch);
    }
    if let Some(note) = &vouch.note {
        if note.len() > MAX_NOTE_LENGTH {
            return Err(TrustError::NoteTooLong);
        }
    }
    if !vouch.voucher.same_as(author) {
        return Err(TrustError::AuthorMismatch);
    }
    Ok(())
}

/// Judges an anchor declaration that `author` created.
pub fn validate_anchor(anchor: &TrustedAnchor, author: &Identity) -> (verdict: Result<
    (),
    TrustError,
>)
    ensures
        verdict == spec_validate_anchor(anchor@, author@),
{
    if !anchor.designated_by.same_as(author) {
        return Err(TrustError::AuthorMismatch);
    }
    Ok(())
}

/// Judges a revocation that `author` created.
pub fn validate_revocation(record: &RevocationRecord, author: &Identity) -> (verdict: Result<
    (),
    TrustError,
>)
    ensures
        verdict == spec_validate_revocation(record@, author@),
{
    if record.reason.len() == 0 || record.reason.len() > MAX_REASON_LENGTH {
        return Err(TrustError::InvalidReason);
    }
    if !record.revoker.same_as(author) {
        return Err(TrustError::AuthorMismatch);
    }
    Ok(())
}

/// Judges an invitation that `author` created.
pub fn validate_invitation(invitation: &Invitation, author: &Identity) -> (verdict: Result<
    (),
    TrustError,
>)
    ensures
        verdict == spec_validate_invitation(invitation@, author@),
{
    if !invitation.issuer.same_as(author) {
        return Err(TrustError::AuthorMismatch);
    }
    if invitation.created_at >= invitation.expires_at {
        return Err(TrustError::InvalidValidity);
    }
    Ok(())
}

/// Judges the replacement of `original` by `fact`.
pub fn validate_update(original: &Fact, fact: &Fact, author: &Identity) -> (verdict: Result<
    (),
    TrustError,
>)
    ensures
        verdict == spec_validate_update(original@, fact@, author@),
{
    match (original, fact) {
        (Fact::Invitation(before), Fact::Invitation(after)) => {
            if !after.issuer.same_as(author) {
                return Err(TrustError::AuthorMismatch);
            }
            if !(after.revoked && after.same_invitation(before)) {
                return Err(TrustError::ImmutableEntryUpdate);
            }
            Ok(())
        },
        _ => Err(TrustError::ImmutableEntryUpdate),
    }
}

/// Judges an operation on the facts of the trust core.
pub fn validate(op: &FactOp) -> (verdict: Result<(), TrustError>)
    ensures
        verdict == spec_validate(op@),
{
    match op {
        FactOp::Create { fact, author } => match fact {
            Fact::Vouch(vouch) => validate_vouch(vouch, author),
            Fact::Anchor(anchor) => validate_anchor(anchor, author),
            Fact::Revocation(record) => validate_revocation(record, author),
            Fact::Invitation(invitation) => validate_invitation(invitation, author),
        },
        FactOp::Update { original, fact, author } => validate_update(original, fact, author),
        FactOp::Other => Ok(()),
    }
}

/// Every fact that an operation of this crate records passes validation
/// when it stands in the log of the identity that issued it, and so does
/// the withdrawal of an invitation by its issuer.
pub proof fn law_recorded_facts_are_valid(
    g: TrustGraphView,
    reg: RegistryView,
    hub: IssuerView,
    v: VouchView,
    a: AnchorView,
    r: RevocationView,
    i: InvitationView,
)
    ensures
        hub.admits(i) ==> spec_validate_invitation(i, hub.issuer) is Ok,
        hub.admits(i) ==> spec_validate_update(
            FactView::Invitation(i),
            FactView::Invitation(i.withdrawn()),
            hub.issuer,
        ) is Ok,
        vouch_refusal(g, v.voucher, v.vouchee, v.note) is None ==> spec_validate_vouch(v, v.voucher)
            is Ok,
        designation_refusal(g, a.designated_by, a.agent) is None ==> spec_validate_anchor(
            a,
            a.designated_by,
        ) is Ok,
        revocation_refusal(reg, r.revoked_agent, r.reason) is None ==> spec_validate_revocation(
            r,
            r.revoker,
        ) is Ok,
{
}

} // verus!
