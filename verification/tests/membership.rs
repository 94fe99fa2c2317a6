use ourblock_trust::identity::Identity;
use ourblock_trust::membership::{
    can_participate, get_membership_status, is_verified, status, vouch_threshold_met,
    MembershipStatus, ANCHOR_VOUCHES_REQUIRED, VOUCHES_REQUIRED,
};
use ourblock_trust::revocation::RevocationRegistry;
use ourblock_trust::trust_graph::{TrustGraph, VouchType};

fn id(name: &str) -> Identity {
    Identity::new(name.as_bytes().to_vec())
}

fn vouch(graph: &mut TrustGraph, from: &Identity, to: &Identity) {
    graph.create_vouch(from, to, VouchType::PhysicalHandshake, None, 1).unwrap();
}

#[test]
fn thresholds_are_one_anchor_or_two_members() {
    assert_eq!(ANCHOR_VOUCHES_REQUIRED, 1);
    assert_eq!(VOUCHES_REQUIRED, 2);
    assert!(!vouch_threshold_met(false, 0, 0));
    assert!(!vouch_threshold_met(false, 0, 1));
    assert!(vouch_threshold_met(false, 0, 2));
    assert!(vouch_threshold_met(false, 1, 1));
    assert!(vouch_threshold_met(false, 1, 0));
    assert!(vouch_threshold_met(false, 0, 3));
    assert!(!vouch_threshold_met(true, 0, 1));
}

#[test]
fn status_follows_the_vouches() {
    let mut graph = TrustGraph::new();
    let (x, a, b) = (id("x"), id("a"), id("b"));
    assert_eq!(status(&graph, &x), MembershipStatus::Pending);
    vouch(&mut graph, &a, &x);
    assert_eq!(status(&graph, &x), MembershipStatus::Pending);
    assert!(!is_verified(&graph, &x));
    vouch(&mut graph, &b, &x);
    assert_eq!(status(&graph, &x), MembershipStatus::Verified);
    assert!(is_verified(&graph, &x));
}

#[test]
fn one_anchor_vouch_verifies() {
    let mut graph = TrustGraph::new();
    let (x, y, anchor, a) = (id("x"), id("y"), id("anchor"), id("a"));
    graph.designate_anchor(&anchor, &anchor, 1).unwrap();
    vouch(&mut graph, &anchor, &x);
    assert_eq!(status(&graph, &x), MembershipStatus::Verified);
    vouch(&mut graph, &a, &y);
    assert_eq!(status(&graph, &y), MembershipStatus::Pending);
    vouch(&mut graph, &anchor, &y);
    assert_eq!(status(&graph, &y), MembershipStatus::Verified);
}

#[test]
fn a_vouch_counts_as_from_an_anchor_once_its_voucher_is_one() {
    let mut graph = TrustGraph::new();
    let (x, founder, a) = (id("x"), id("founder"), id("a"));
    vouch(&mut graph, &a, &x);
    assert_eq!(status(&graph, &x), MembershipStatus::Pending);
    graph.designate_anchor(&founder, &founder, 1).unwrap();
    graph.designate_anchor(&founder, &a, 2).unwrap();
    assert_eq!(status(&graph, &x), MembershipStatus::Verified);
}

#[test]
fn anchor_is_anchor_with_or_without_vouches() {
    let mut graph = TrustGraph::new();
    let (anchor, a, b) = (id("anchor"), id("a"), id("b"));
    graph.designate_anchor(&anchor, &anchor, 1).unwrap();
    assert_eq!(status(&graph, &anchor), MembershipStatus::Anchor);
    assert!(is_verified(&graph, &anchor));
    vouch(&mut graph, &a, &anchor);
    vouch(&mut graph, &b, &anchor);
    assert_eq!(status(&graph, &anchor), MembershipStatus::Anchor);
}

#[test]
fn unverified_vouchers_count_towards_the_threshold() {
    // Known weakness of the threshold rule: the vouchers need not be
    // verified themselves.
    let mut graph = TrustGraph::new();
    let (a, b, c) = (id("a"), id("b"), id("c"));
    vouch(&mut graph, &a, &b);
    vouch(&mut graph, &a, &c);
    vouch(&mut graph, &b, &a);
    vouch(&mut graph, &b, &c);
    vouch(&mut graph, &c, &a);
    vouch(&mut graph, &c, &b);
    assert!(graph.get_all_anchors().is_empty());
    assert_eq!(status(&graph, &a), MembershipStatus::Verified);
    assert_eq!(status(&graph, &b), MembershipStatus::Verified);
    assert_eq!(status(&graph, &c), MembershipStatus::Verified);
}

#[test]
fn membership_info_collects_everything() {
    let mut graph = TrustGraph::new();
    let (x, anchor, a) = (id("x"), id("anchor"), id("a"));
    graph.designate_anchor(&anchor, &anchor, 1).unwrap();
    vouch(&mut graph, &a, &x);
    vouch(&mut graph, &anchor, &x);
    vouch(&mut graph, &x, &a);
    let info = get_membership_status(&graph, &x);
    assert_eq!(info.agent, x);
    assert_eq!(info.status, MembershipStatus::Verified);
    assert!(!info.is_anchor);
    assert_eq!(info.vouches_received.len(), 2);
    assert!(!info.vouches_received[0].is_from_anchor);
    assert!(info.vouches_received[1].is_from_anchor);
    assert_eq!(info.vouches_given.len(), 1);
    assert_eq!(info.vouches_given[0].vouchee, a);
    let info = get_membership_status(&graph, &anchor);
    assert_eq!(info.status, MembershipStatus::Anchor);
    assert!(info.is_anchor);
    assert!(info.vouches_received.is_empty());
    assert_eq!(info.vouches_given.len(), 1);
}

#[test]
fn revocation_stops_participation_and_not_the_status() {
    let mut graph = TrustGraph::new();
    let mut registry = RevocationRegistry::new();
    let (x, anchor, pending) = (id("x"), id("anchor"), id("pending"));
    graph.designate_anchor(&anchor, &anchor, 1).unwrap();
    vouch(&mut graph, &anchor, &x);
    assert!(can_participate(&graph, &registry, &x));
    assert!(can_participate(&graph, &registry, &anchor));
    assert!(!can_participate(&graph, &registry, &pending));
    registry.revoke(&anchor, &x, b"spam", 5).unwrap();
    assert!(!can_participate(&graph, &registry, &x));
    assert!(is_verified(&graph, &x));
    assert_eq!(status(&graph, &x), MembershipStatus::Verified);
    registry.revoke(&x, &anchor, b"revenge", 6).unwrap();
    assert!(!can_participate(&graph, &registry, &anchor));
    assert_eq!(status(&graph, &anchor), MembershipStatus::Anchor);
}
