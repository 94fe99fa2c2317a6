use ourblock_trust::error::TrustError;
use ourblock_trust::identity::Identity;
use ourblock_trust::invitation::{Invitation, InvitationIssuer};
use ourblock_trust::membership::{status, MembershipStatus};
use ourblock_trust::revocation::{RevocationRecord, RevocationRegistry};
use ourblock_trust::trust_graph::{TrustGraph, TrustedAnchor, Vouch, VouchType};

fn id(name: &str) -> Identity {
    Identity::new(name.as_bytes().to_vec())
}

fn vouch(from: &str, to: &str) -> Vouch {
    Vouch {
        voucher: id(from),
        vouchee: id(to),
        vouch_type: VouchType::PhysicalHandshake,
        created_at: 1,
        note: None,
    }
}

fn anchor(agent: &str, by: &str) -> TrustedAnchor {
    TrustedAnchor { agent: id(agent), designated_at: 1, designated_by: id(by) }
}

fn names(anchors: &[TrustedAnchor]) -> Vec<Vec<u8>> {
    let mut v: Vec<Vec<u8>> = anchors.iter().map(|a| a.agent.key.clone()).collect();
    v.sort();
    v
}

#[test]
fn arriving_facts_are_checked_like_local_ones() {
    let mut graph = TrustGraph::new();
    assert_eq!(graph.record_vouch(vouch("a", "a")), Err(TrustError::SelfVouch));
    assert_eq!(graph.record_vouch(vouch("a", "b")), Ok(()));
    assert_eq!(graph.record_vouch(vouch("a", "b")), Err(TrustError::DuplicateVouch));
    let mut long = vouch("a", "c");
    long.note = Some(vec![0; 501]);
    assert_eq!(graph.record_vouch(long), Err(TrustError::NoteTooLong));
    assert_eq!(graph.record_anchor(anchor("b", "a")), Err(TrustError::NotAnAnchor));
    assert_eq!(graph.record_anchor(anchor("a", "a")), Ok(()));
    assert_eq!(graph.record_anchor(anchor("a", "a")), Err(TrustError::AlreadyAnchor));
    assert_eq!(graph.record_anchor(anchor("b", "a")), Ok(()));
    assert_eq!(graph.record_anchor(anchor("b", "b")), Err(TrustError::AlreadyAnchor));
    assert_eq!(graph.record_anchor(anchor("a", "z")), Err(TrustError::NotAnAnchor));
    assert_eq!(graph.get_all_anchors().len(), 2);
}

#[test]
fn several_founders_may_arrive() {
    let mut graph = TrustGraph::new();
    assert_eq!(graph.record_anchor(anchor("a", "a")), Ok(()));
    assert_eq!(graph.record_anchor(anchor("b", "b")), Ok(()));
    assert!(graph.is_anchor(&id("a")));
    assert!(graph.is_anchor(&id("b")));
    // Locally, though, nobody founds a community that has an anchor.
    assert_eq!(graph.designate_anchor(&id("c"), &id("c"), 1), Err(TrustError::NotAnAnchor));
}

#[test]
fn graph_from_facts_does_not_depend_on_their_order() {
    let anchors = vec![anchor("d", "c"), anchor("c", "b"), anchor("b", "a"), anchor("a", "a"), anchor("y", "x")];
    let vouches = vec![vouch("q", "p"), vouch("d", "r"), vouch("q", "p"), vouch("s", "s"), vouch("t", "p")];
    let forward = TrustGraph::from_facts(&vouches, &anchors);
    let mut rev_anchors = anchors.clone();
    rev_anchors.reverse();
    let mut rev_vouches = vouches.clone();
    rev_vouches.reverse();
    let backward = TrustGraph::from_facts(&rev_vouches, &rev_anchors);
    for g in [&forward, &backward] {
        assert_eq!(
            names(&g.get_all_anchors()),
            vec![b"a".to_vec(), b"b".to_vec(), b"c".to_vec(), b"d".to_vec()]
        );
        assert!(!g.is_anchor(&id("y")));
        assert_eq!(g.get_vouches_for(&id("p")).len(), 2);
        assert_eq!(g.get_vouches_for(&id("s")).len(), 0);
        assert_eq!(status(g, &id("p")), MembershipStatus::Verified);
        assert_eq!(status(g, &id("r")), MembershipStatus::Verified);
        assert_eq!(status(g, &id("q")), MembershipStatus::Pending);
        assert_eq!(status(g, &id("d")), MembershipStatus::Anchor);
        assert_eq!(status(g, &id("y")), MembershipStatus::Pending);
    }
    let empty = TrustGraph::from_facts(&vec![], &vec![]);
    assert!(empty.get_all_anchors().is_empty());
}

#[test]
fn registry_from_records_keeps_one_record_each() {
    let record = |agent: &str, reason: &[u8], by: &str| RevocationRecord {
        revoked_agent: id(agent),
        reason: reason.to_vec(),
        revoked_at: 1,
        revoker: id(by),
    };
    let records = vec![
        record("x", b"", "m"),
        record("x", b"first", "m"),
        record("y", b"why", "m"),
        record("x", b"second", "n"),
        record("z", &[b'r'; 501], "m"),
    ];
    let reg = RevocationRegistry::from_records(&records);
    assert!(reg.is_revoked(&id("x")));
    assert!(reg.is_revoked(&id("y")));
    assert!(!reg.is_revoked(&id("z")));
    let list = reg.list();
    assert_eq!(list.len(), 2);
    assert_eq!(list[0].reason, b"first".to_vec());
    let mut reg = RevocationRegistry::new();
    assert_eq!(reg.record(record("x", b"", "m")), Err(TrustError::InvalidReason));
    assert_eq!(reg.record(record("x", b"ok", "m")), Ok(()));
    assert_eq!(reg.record(record("x", b"", "m")), Err(TrustError::AlreadyRevoked));
}

#[test]
fn issuer_from_log_keeps_its_own_records() {
    let inv = |issuer: &str, created_at: u64, expires_at: u64, revoked: bool| Invitation {
        issuer: id(issuer),
        community_id: b"blockA".to_vec(),
        created_at,
        expires_at,
        signature: vec![1],
        voucher: None,
        revoked,
        signal_url: vec![],
        bootstrap_url: vec![],
    };
    let records = vec![inv("hub", 1, 5, false), inv("other", 1, 5, false), inv("hub", 5, 5, false), inv("hub", 2, 9, true)];
    let mut hub = InvitationIssuer::from_log(id("hub"), &records);
    assert_eq!(hub.list(), vec![inv("hub", 1, 5, false), inv("hub", 2, 9, true)]);
    assert!(hub.is_revoked(&records[3].envelope()));
    assert!(!hub.is_revoked(&records[0].envelope()));
    hub.revoke(&records[0]);
    assert!(hub.is_revoked(&records[0].envelope()));
}
