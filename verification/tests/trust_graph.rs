use ourblock_trust::error::TrustError;
use ourblock_trust::identity::Identity;
use ourblock_trust::trust_graph::{TrustGraph, VouchType, MAX_NOTE_LENGTH};

fn id(name: &str) -> Identity {
    Identity::new(name.as_bytes().to_vec())
}

#[test]
fn self_vouch_is_rejected() {
    let mut graph = TrustGraph::new();
    let alice = id("alice");
    for kind in [
        VouchType::PhysicalHandshake,
        VouchType::ExistingRelationship,
        VouchType::TrustedIntroduction,
    ] {
        let r = graph.create_vouch(&alice, &alice, kind, None, 1);
        assert_eq!(r, Err(TrustError::SelfVouch));
    }
    assert!(graph.get_vouches_given_by(&alice).is_empty());
}

#[test]
fn self_vouch_wins_over_a_long_note() {
    let mut graph = TrustGraph::new();
    let alice = id("alice");
    let note = vec![b'x'; MAX_NOTE_LENGTH + 1];
    let r = graph.create_vouch(&alice, &alice, VouchType::PhysicalHandshake, Some(note), 1);
    assert_eq!(r, Err(TrustError::SelfVouch));
}

#[test]
fn vouch_is_recorded_as_given() {
    let mut graph = TrustGraph::new();
    let (alice, bob) = (id("alice"), id("bob"));
    let note = b"met at the fence".to_vec();
    let vouch = graph
        .create_vouch(&alice, &bob, VouchType::ExistingRelationship, Some(note.clone()), 42)
        .unwrap();
    assert_eq!(vouch.voucher, alice);
    assert_eq!(vouch.vouchee, bob);
    assert_eq!(vouch.vouch_type, VouchType::ExistingRelationship);
    assert_eq!(vouch.created_at, 42);
    assert_eq!(vouch.note, Some(note));
    assert_eq!(graph.get_vouches_given_by(&alice), vec![vouch.clone()]);
    assert!(graph.get_vouches_given_by(&bob).is_empty());
    let received = graph.get_vouches_for(&bob);
    assert_eq!(received.len(), 1);
    assert_eq!(received[0].vouch, vouch);
    assert!(!received[0].is_from_anchor);
    assert!(graph.get_vouches_for(&alice).is_empty());
    assert!(graph.has_vouch(&alice, &bob));
    assert!(!graph.has_vouch(&bob, &alice));
}

#[test]
fn duplicate_vouch_is_rejected_and_reverse_is_not() {
    let mut graph = TrustGraph::new();
    let (alice, bob) = (id("alice"), id("bob"));
    assert!(graph.create_vouch(&alice, &bob, VouchType::PhysicalHandshake, None, 1).is_ok());
    let again = graph.create_vouch(&alice, &bob, VouchType::TrustedIntroduction, None, 2);
    assert_eq!(again, Err(TrustError::DuplicateVouch));
    let long = vec![0u8; MAX_NOTE_LENGTH + 1];
    let again = graph.create_vouch(&alice, &bob, VouchType::PhysicalHandshake, Some(long), 3);
    assert_eq!(again, Err(TrustError::DuplicateVouch));
    assert_eq!(graph.get_vouches_for(&bob).len(), 1);
    assert!(graph.create_vouch(&bob, &alice, VouchType::PhysicalHandshake, None, 4).is_ok());
    assert_eq!(graph.get_vouches_for(&alice).len(), 1);
}

#[test]
fn note_bound_is_five_hundred_bytes() {
    let mut graph = TrustGraph::new();
    let (alice, bob, carol) = (id("alice"), id("bob"), id("carol"));
    let exact = vec![b'n'; 500];
    assert!(graph.create_vouch(&alice, &bob, VouchType::PhysicalHandshake, Some(exact), 1).is_ok());
    let over = vec![b'n'; 501];
    let r = graph.create_vouch(&alice, &carol, VouchType::PhysicalHandshake, Some(over), 2);
    assert_eq!(r, Err(TrustError::NoteTooLong));
    assert!(graph.get_vouches_for(&carol).is_empty());
}

#[test]
fn vouch_for_neighbor_is_a_handshake_without_note() {
    let mut graph = TrustGraph::new();
    let (alice, bob) = (id("alice"), id("bob"));
    let vouch = graph.vouch_for_neighbor(&alice, &bob, 9).unwrap();
    assert_eq!(vouch.vouch_type, VouchType::PhysicalHandshake);
    assert_eq!(vouch.note, None);
    assert_eq!(vouch.created_at, 9);
    assert_eq!(graph.vouch_for_neighbor(&alice, &bob, 10), Err(TrustError::DuplicateVouch));
    assert_eq!(graph.vouch_for_neighbor(&alice, &alice, 10), Err(TrustError::SelfVouch));
}

#[test]
fn first_anchor_declares_itself() {
    let mut graph = TrustGraph::new();
    let alice = id("alice");
    assert!(!graph.is_anchor(&alice));
    let anchor = graph.designate_anchor(&alice, &alice, 7).unwrap();
    assert_eq!(anchor.agent, alice);
    assert_eq!(anchor.designated_by, alice);
    assert_eq!(anchor.designated_at, 7);
    assert!(graph.is_anchor(&alice));
    assert_eq!(graph.get_all_anchors(), vec![anchor]);
}

#[test]
fn nobody_is_declared_by_another_while_there_is_no_anchor() {
    let mut graph = TrustGraph::new();
    let (alice, bob) = (id("alice"), id("bob"));
    assert_eq!(graph.designate_anchor(&alice, &bob, 1), Err(TrustError::NotAnAnchor));
    assert!(graph.get_all_anchors().is_empty());
}

#[test]
fn only_anchors_designate() {
    let mut graph = TrustGraph::new();
    let (alice, bob, carol) = (id("alice"), id("bob"), id("carol"));
    graph.designate_anchor(&alice, &alice, 1).unwrap();
    assert_eq!(graph.designate_anchor(&bob, &carol, 2), Err(TrustError::NotAnAnchor));
    assert_eq!(graph.designate_anchor(&bob, &bob, 2), Err(TrustError::NotAnAnchor));
    assert_eq!(graph.designate_anchor(&bob, &alice, 2), Err(TrustError::NotAnAnchor));
    let second = graph.designate_anchor(&alice, &bob, 3).unwrap();
    assert_eq!(second.agent, bob);
    assert_eq!(second.designated_by, alice);
    assert_eq!(graph.designate_anchor(&alice, &bob, 4), Err(TrustError::AlreadyAnchor));
    assert_eq!(graph.designate_anchor(&bob, &alice, 4), Err(TrustError::AlreadyAnchor));
    let third = graph.designate_anchor(&bob, &carol, 5).unwrap();
    assert_eq!(third.designated_by, bob);
    assert_eq!(graph.get_all_anchors().len(), 3);
}

#[test]
fn initialize_as_anchor_founds_once() {
    let mut graph = TrustGraph::new();
    let (alice, bob) = (id("alice"), id("bob"));
    let first = graph.initialize_as_anchor(&alice, 1).unwrap();
    assert_eq!(first.agent, alice);
    assert_eq!(first.designated_by, alice);
    assert_eq!(graph.initialize_as_anchor(&alice, 2), Err(TrustError::AlreadyAnchor));
    assert_eq!(graph.initialize_as_anchor(&bob, 2), Err(TrustError::NotAnAnchor));
    assert_eq!(graph.get_all_anchors().len(), 1);
}

#[test]
fn received_vouches_are_marked_by_anchor() {
    let mut graph = TrustGraph::new();
    let (alice, bob, carol, dave) = (id("alice"), id("bob"), id("carol"), id("dave"));
    graph.designate_anchor(&alice, &alice, 1).unwrap();
    graph.create_vouch(&bob, &dave, VouchType::PhysicalHandshake, None, 2).unwrap();
    graph.create_vouch(&alice, &dave, VouchType::PhysicalHandshake, None, 3).unwrap();
    graph.create_vouch(&carol, &dave, VouchType::PhysicalHandshake, None, 4).unwrap();
    graph.create_vouch(&carol, &bob, VouchType::PhysicalHandshake, None, 5).unwrap();
    let received = graph.get_vouches_for(&dave);
    let marks: Vec<(Identity, bool)> =
        received.iter().map(|v| (v.vouch.voucher.clone(), v.is_from_anchor)).collect();
    assert_eq!(marks, vec![(bob.clone(), false), (alice, true), (carol.clone(), false)]);
    let given = graph.get_vouches_given_by(&carol);
    let to: Vec<Identity> = given.iter().map(|v| v.vouchee.clone()).collect();
    assert_eq!(to, vec![dave, bob]);
}

#[test]
fn identities_compare_by_their_bytes() {
    let a = Identity::from_bytes(b"key");
    let b = Identity::new(b"key".to_vec());
    let c = Identity::new(b"kez".to_vec());
    let d = Identity::new(b"ke".to_vec());
    assert!(a.same_as(&b));
    assert!(!a.same_as(&c));
    assert!(!a.same_as(&d));
    assert_eq!(a.as_bytes(), b"key");
    assert!(a.clone().same_as(&a));
}
