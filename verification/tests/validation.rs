use ourblock_trust::error::TrustError;
use ourblock_trust::identity::Identity;
use ourblock_trust::invitation::Invitation;
use ourblock_trust::revocation::{RevocationRecord, RevocationRegistry};
use ourblock_trust::trust_graph::{TrustGraph, TrustedAnchor, Vouch, VouchType};
use ourblock_trust::validation::{
    validate, validate_anchor, validate_invitation, validate_revocation, validate_update,
    validate_vouch, Fact, FactOp,
};

fn id(name: &str) -> Identity {
    Identity::new(name.as_bytes().to_vec())
}

fn a_vouch(voucher: &str, vouchee: &str, note: Option<Vec<u8>>) -> Vouch {
    Vouch {
        voucher: id(voucher),
        vouchee: id(vouchee),
        vouch_type: VouchType::TrustedIntroduction,
        created_at: 3,
        note,
    }
}

#[test]
fn vouch_validation_order() {
    assert_eq!(validate_vouch(&a_vouch("a", "b", None), &id("a")), Ok(()));
    assert_eq!(validate_vouch(&a_vouch("a", "a", None), &id("a")), Err(TrustError::SelfVouch));
    assert_eq!(validate_vouch(&a_vouch("a", "b", None), &id("b")), Err(TrustError::SelfVouch));
    let long = Some(vec![0u8; 501]);
    assert_eq!(validate_vouch(&a_vouch("a", "b", long.clone()), &id("a")), Err(TrustError::NoteTooLong));
    assert_eq!(validate_vouch(&a_vouch("a", "b", long), &id("c")), Err(TrustError::NoteTooLong));
    assert_eq!(validate_vouch(&a_vouch("a", "b", None), &id("c")), Err(TrustError::AuthorMismatch));
    let exact = Some(vec![0u8; 500]);
    assert_eq!(validate_vouch(&a_vouch("a", "b", exact), &id("a")), Ok(()));
}

#[test]
fn anchor_must_be_written_by_its_designator() {
    let anchor = TrustedAnchor { agent: id("b"), designated_at: 1, designated_by: id("a") };
    assert_eq!(validate_anchor(&anchor, &id("a")), Ok(()));
    assert_eq!(validate_anchor(&anchor, &id("b")), Err(TrustError::AuthorMismatch));
    let founder = TrustedAnchor { agent: id("a"), designated_at: 1, designated_by: id("a") };
    assert_eq!(validate_anchor(&founder, &id("a")), Ok(()));
}

#[test]
fn revocation_validation_order() {
    let record = |reason: &[u8]| RevocationRecord {
        revoked_agent: id("x"),
        reason: reason.to_vec(),
        revoked_at: 1,
        revoker: id("m"),
    };
    assert_eq!(validate_revocation(&record(b"why"), &id("m")), Ok(()));
    assert_eq!(validate_revocation(&record(b""), &id("m")), Err(TrustError::InvalidReason));
    assert_eq!(validate_revocation(&record(b""), &id("z")), Err(TrustError::InvalidReason));
    assert_eq!(validate_revocation(&record(&[1u8; 501]), &id("m")), Err(TrustError::InvalidReason));
    assert_eq!(validate_revocation(&record(b"why"), &id("z")), Err(TrustError::AuthorMismatch));
}

#[test]
fn facts_are_never_updated() {
    let facts = || {
        vec![
            Fact::Vouch(a_vouch("a", "b", None)),
            Fact::Anchor(TrustedAnchor { agent: id("a"), designated_at: 1, designated_by: id("a") }),
            Fact::Revocation(RevocationRecord {
                revoked_agent: id("x"),
                reason: b"why".to_vec(),
                revoked_at: 1,
                revoker: id("a"),
            }),
        ]
    };
    for (original, fact) in facts().into_iter().zip(facts()) {
        let op = FactOp::Update { original, fact, author: id("a") };
        assert_eq!(validate(&op), Err(TrustError::ImmutableEntryUpdate));
    }
    for fact in facts() {
        let op = FactOp::Create { fact, author: id("a") };
        assert_eq!(validate(&op), Ok(()));
    }
    for fact in facts() {
        let op = FactOp::Create { fact, author: id("q") };
        assert_eq!(validate(&op), Err(TrustError::AuthorMismatch));
    }
    assert_eq!(validate(&FactOp::Other), Ok(()));
}

#[test]
fn recorded_facts_pass_validation() {
    let mut graph = TrustGraph::new();
    let mut registry = RevocationRegistry::new();
    let (a, b) = (id("a"), id("b"));
    let anchor = graph.designate_anchor(&a, &a, 1).unwrap();
    let second = graph.designate_anchor(&a, &b, 2).unwrap();
    let vouch = graph.create_vouch(&a, &b, VouchType::PhysicalHandshake, None, 3).unwrap();
    let record = registry.revoke(&a, &b, b"why", 4).unwrap();
    assert_eq!(validate(&FactOp::Create { fact: Fact::Anchor(anchor), author: a.clone() }), Ok(()));
    assert_eq!(validate(&FactOp::Create { fact: Fact::Anchor(second), author: a.clone() }), Ok(()));
    assert_eq!(validate(&FactOp::Create { fact: Fact::Vouch(vouch), author: a.clone() }), Ok(()));
    assert_eq!(validate(&FactOp::Create { fact: Fact::Revocation(record), author: a }), Ok(()));
}

fn an_invitation(issuer: &str, revoked: bool) -> Invitation {
    Invitation {
        issuer: id(issuer),
        community_id: b"blockA".to_vec(),
        created_at: 10,
        expires_at: 20,
        signature: vec![1, 2],
        voucher: None,
        revoked,
        signal_url: b"s".to_vec(),
        bootstrap_url: b"b".to_vec(),
    }
}

#[test]
fn invitation_must_be_written_by_its_issuer_and_end_after_it_begins() {
    assert_eq!(validate_invitation(&an_invitation("hub", false), &id("hub")), Ok(()));
    assert_eq!(
        validate_invitation(&an_invitation("hub", false), &id("x")),
        Err(TrustError::AuthorMismatch)
    );
    let mut ends_at_once = an_invitation("hub", false);
    ends_at_once.expires_at = 10;
    assert_eq!(validate_invitation(&ends_at_once, &id("hub")), Err(TrustError::InvalidValidity));
    let op = FactOp::Create { fact: Fact::Invitation(an_invitation("hub", false)), author: id("hub") };
    assert_eq!(validate(&op), Ok(()));
}

#[test]
fn invitation_changes_only_by_being_withdrawn() {
    let update = |before: Invitation, after: Invitation, author: &str| {
        validate_update(&Fact::Invitation(before), &Fact::Invitation(after), &id(author))
    };
    let fresh = || an_invitation("hub", false);
    let withdrawn = || an_invitation("hub", true);
    assert_eq!(update(fresh(), withdrawn(), "hub"), Ok(()));
    assert_eq!(update(withdrawn(), withdrawn(), "hub"), Ok(()));
    assert_eq!(update(withdrawn(), fresh(), "hub"), Err(TrustError::ImmutableEntryUpdate));
    assert_eq!(update(fresh(), fresh(), "hub"), Err(TrustError::ImmutableEntryUpdate));
    assert_eq!(update(fresh(), withdrawn(), "x"), Err(TrustError::AuthorMismatch));
    let mut longer = withdrawn();
    longer.expires_at = 30;
    assert_eq!(update(fresh(), longer, "hub"), Err(TrustError::ImmutableEntryUpdate));
    let mut other_signature = withdrawn();
    other_signature.signature = vec![9];
    assert_eq!(update(fresh(), other_signature, "hub"), Err(TrustError::ImmutableEntryUpdate));
    let vouch = || Fact::Vouch(a_vouch("a", "b", None));
    assert_eq!(
        validate_update(&vouch(), &Fact::Invitation(withdrawn()), &id("hub")),
        Err(TrustError::ImmutableEntryUpdate)
    );
    assert_eq!(
        validate_update(&Fact::Invitation(fresh()), &vouch(), &id("hub")),
        Err(TrustError::ImmutableEntryUpdate)
    );
    let op = FactOp::Update {
        original: Fact::Invitation(fresh()),
        fact: Fact::Invitation(withdrawn()),
        author: id("hub"),
    };
    assert_eq!(validate(&op), Ok(()));
}
