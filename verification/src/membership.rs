//! The membership evaluator: the trust tier of an identity, computed afresh
//! from the facts that the evaluating peer holds.
//!
//! The evaluator never consults the revocation registry by itself; only
//! [`can_participate`] combines the two.

use vstd::prelude::*;
use crate::identity::Identity;
use crate::revocation::{RegistryView, RevocationRegistry};
use crate::seqs::{lemma_filter_empty, lemma_filter_push};
use crate::trust_graph::{
    vouch_info_views, vouch_views, TrustGraph, TrustGraphView, Vouch, VouchInfo, VouchInfoView,
    VouchView,
};

verus! {

/// Received vouches, from whomever, that make an identity verified.
pub const VOUCHES_REQUIRED: usize = 2;

/// Received vouches from trusted anchors that make an identity verified.
pub const ANCHOR_VOUCHES_REQUIRED: usize = 1;

/// The trust tier of an identity.
#[derive(Clone, Copy, Debug, PartialEq, Eq, Structural)]
pub enum MembershipStatus {
    /// Admitted, but not vouched for enough.
    Pending,
    /// Vouched for by one anchor or by two identities.
    Verified,
    /// A trusted anchor.
    Anchor,
}

/// The threshold rule: one vouch from an anchor, or two vouches at all.
pub open spec fn threshold_met(from_anchors: nat, from_members: nat) -> bool {
    from_anchors >= ANCHOR_VOUCHES_REQUIRED || from_members >= VOUCHES_REQUIRED
}

/// The trust tier of `agent` in the graph `g`.
///
/// The count of received vouches is not restricted to vouchers that are
/// verified themselves.
pub open spec fn spec_status(g: TrustGraphView, agent: Seq<u8>) -> MembershipStatus {
    if g.is_anchor(agent) {
        MembershipStatus::Anchor
    } else if threshold_met(g.received_from_anchors(agent).len(), g.received(agent).len()) {
        MembershipStatus::Verified
    } else {
        MembershipStatus::Pending
    }
}

/// Whether `agent` is verified or an anchor.
pub open spec fn spec_is_verified(g: TrustGraphView, agent: Seq<u8>) -> bool {
    spec_status(g, agent) != MembershipStatus::Pending
}

/// Whether `agent` may write: verified and not revoked.
pub open spec fn spec_can_participate(g: TrustGraphView, reg: RegistryView, agent: Seq<u8>) -> bool {
    spec_is_verified(g, agent) && !reg.is_revoked(agent)
}

/// What a peer knows of the membership of one identity.
#[derive(Debug, PartialEq, Eq)]
pub struct MembershipInfo {
    pub agent: Identity,
    pub status: MembershipStatus,
    pub vouches_received: Vec<VouchInfo>,
    pub vouches_given: Vec<Vouch>,
    pub is_anchor: bool,
}

/// The mathematical content of a [`MembershipInfo`].
pub ghost struct MembershipInfoView {
    pub agent: Seq<u8>,
    pub status: MembershipStatus,
    pub vouches_received: Seq<VouchInfoView>,
    pub vouches_given: Seq<VouchView>,
    pub is_anchor: bool,
}

impl View for MembershipInfo {
    type V = MembershipInfoView;

    open spec fn view(&self) -> MembershipInfoView {
        MembershipInfoView {
            agent: self.agent@,
            status: self.status,
            vouches_received: vouch_info_views(self.vouches_received@),
            vouches_given: vouch_views(self.vouches_given@),
            is_anchor: self.is_anchor,
        }
    }
}

/// The membership of `agent` in the graph `g`.
pub open spec fn spec_membership(g: TrustGraphView, agent: Seq<u8>) -> MembershipInfoView {
    MembershipInfoView {
        agent,
        status: spec_status(g, agent),
        vouches_received: g.received_info(agent),
        vouches_given: g.given(agent),
        is_anchor: g.is_anchor(agent),
    }
}

/// Whether the counted vouches reach the threshold. The first argument
/// plays no part: an anchor needs no vouch.
pub fn vouch_threshold_met(
    _is_anchor: bool,
    vouches_from_anchors: usize,
    vouches_from_members: usize,
) -> (met: bool)
    ensures
        met == threshold_met(vouches_from_anchors as nat, vouches_from_members as nat),
{
    vouches_from_anchors >= ANCHOR_VOUCHES_REQUIRED || vouches_from_members >= VOUCHES_REQUIRED
}

/// Counts the received vouches that an anchor gave.
fn count_from_anchors(
    received: &Vec<VouchInfo>,
    Ghost(g): Ghost<TrustGraphView>,
    Ghost(agent): Ghost<Seq<u8>>,
) -> (count: usize)
    requires
        vouch_info_views(received@) == g.received_info(agent),
    ensures
        count == g.received_from_anchors(agent).len(),
{
    let ghost all = g.received(agent);
    let ghost pred = |v: VouchView| g.is_anchor(v.voucher);
    proof {
        lemma_filter_empty(pred);
        assert(vouch_info_views(received@).len() == received@.len());
        assert(g.received_info(agent).len() == all.len());
    }
    let mut count: usize = 0;
    let mut i: usize = 0;
    while i < received.len()
        invariant
            all == g.received(agent),
            pred == (|v: VouchView| g.is_anchor(v.voucher)),
            vouch_info_views(received@) == g.received_info(agent),
            i <= received@.len(),
            received@.len() == all.len(),
            count <= i,
            count == all.take(i as int).filter(pred).len(),
        decreases received@.len() - i,
    {
        proof {
            let prefix = all.take(i as int);
            assert(all.take(i + 1) =~= prefix.push(all[i as int]));
            lemma_filter_push(prefix, all[i as int], pred);
            assert(vouch_info_views(received@)[i as int] == g.annotate(all[i as int]));
        }
        if received[i].is_from_anchor {
            count += 1;
        }
        i += 1;
    }
    assert(all.take(i as int) =~= all);
    count
}

/// Everything a peer knows of the membership of `agent`.
pub fn get_membership_status(graph: &TrustGraph, agent: &Identity) -> (info: MembershipInfo)
    ensures
        info@ == spec_membership(graph@, agent@),
{
    let vouches_received = graph.get_vouches_for(agent);
    let vouches_given = graph.get_vouches_given_by(agent);
    let is_anchor = graph.is_anchor(agent);
    let vouches_from_anchors = count_from_anchors(&vouches_received, Ghost(graph@), Ghost(agent@));
    let vouches_from_members = vouches_received.len();
    proof {
        assert(vouch_info_views(vouches_received@).len() == vouches_received@.len());
        assert(graph@.received_info(agent@).len() == graph@.received(agent@).len());
    }
    let status = if is_anchor {
        MembershipStatus::Anchor
    } else if vouch_threshold_met(is_anchor, vouches_from_anchors, vouches_from_members) {
        MembershipStatus::Verified
    } else {
        MembershipStatus::Pending
    };
    MembershipInfo { agent: agent.clone(), status, vouches_received, vouches_given, is_anchor }
}

/// The trust tier of `agent`.
pub fn status(graph: &TrustGraph, agent: &Identity) -> (tier: MembershipStatus)
    ensures
        tier == spec_status(graph@, agent@),
{
    get_membership_status(graph, agent).status
}

/// Whether `agent` is verified or an anchor.
pub fn is_verified(graph: &TrustGraph, agent: &Identity) -> (verified: bool)
    ensures
        verified == spec_is_verified(graph@, agent@),
{
    match status(graph, agent) {
        MembershipStatus::Verified => true,
        MembershipStatus::Anchor => true,
        MembershipStatus::Pending => false,
    }
}

/// Whether `agent` may write to shared content: verified and not revoked.
pub fn can_participate(graph: &TrustGraph, registry: &RevocationRegistry, agent: &Identity) -> (allowed:
    bool)
    ensures
        allowed == spec_can_participate(graph@, registry@, agent@),
{
    is_verified(graph, agent) && !registry.is_revoked(agent)
}

} // verus!
