//! Agreement between peers: the verdict on an identity depends on the set
//! of facts that a peer holds and not on the order in which they arrived.

use vstd::prelude::*;
use crate::membership::{spec_is_verified, spec_status};
use crate::seqs::{lemma_filter_empty, lemma_filter_push};
use crate::trust_graph::{anchor_refusal, vouch_refusal, AnchorView, TrustGraphView, VouchView};

verus! {

/// Whether two lists hold the same facts, in whatever order and number.
pub open spec fn same_facts<A>(a: Seq<A>, b: Seq<A>) -> bool {
    forall|x: A| a.contains(x) <==> b.contains(x)
}

/// The identities that have vouched for `x`.
pub open spec fn vouchers_of(g: TrustGraphView, x: Seq<u8>) -> Set<Seq<u8>> {
    Set::new(|a: Seq<u8>| g.has_vouch(a, x))
}

/// The trusted anchors that have vouched for `x`.
pub open spec fn anchor_vouchers_of(g: TrustGraphView, x: Seq<u8>) -> Set<Seq<u8>> {
    Set::new(|a: Seq<u8>| g.has_vouch(a, x) && g.is_anchor(a))
}

/// The vouchers of the vouches of `s` that `sel` selects.
spec fn selected_vouchers(s: Seq<VouchView>, sel: spec_fn(VouchView) -> bool) -> Set<Seq<u8>> {
    Set::new(
        |a: Seq<u8>| exists|i: int| 0 <= i < s.len() && (#[trigger] s[i]).voucher == a && sel(s[i]),
    )
}

/// No ordered pair occurs twice in `s`.
spec fn pairs_distinct(s: Seq<VouchView>) -> bool {
    forall|i: int, j: int|
        0 <= i < j < s.len() ==> !((#[trigger] s[i]).voucher == (#[trigger] s[j]).voucher
            && s[i].vouchee == s[j].vouchee)
}

/// Where no ordered pair occurs twice, the vouches for one identity are as
/// many as their vouchers.
proof fn lemma_count_vouchers(s: Seq<VouchView>, x: Seq<u8>, sel: spec_fn(VouchView) -> bool)
    requires
        pairs_distinct(s),
        forall|v: VouchView| sel(v) ==> v.vouchee == x,
    ensures
        selected_vouchers(s, sel).finite(),
        selected_vouchers(s, sel).len() == s.filter(sel).len(),
    decreases s.len(),
{
    if s.len() == 0 {
        lemma_filter_empty(sel);
        assert(s =~= Seq::empty());
        assert(selected_vouchers(s, sel) =~= Set::empty());
    } else {
        let rest = s.drop_last();
        let last = s.last();
        assert(pairs_distinct(rest)) by {
            assert forall|i: int, j: int| 0 <= i < j < rest.len() implies !((
            #[trigger] rest[i]).voucher == (#[trigger] rest[j]).voucher && rest[i].vouchee
                == rest[j].vouchee) by {
                assert(rest[i] == s[i] && rest[j] == s[j]);
            }
        }
        lemma_count_vouchers(rest, x, sel);
        assert(s =~= rest.push(last));
        lemma_filter_push(rest, last, sel);
        let before = selected_vouchers(rest, sel);
        let after = selected_vouchers(s, sel);
        if sel(last) {
            assert(!before.contains(last.voucher)) by {
                if before.contains(last.voucher) {
                    let i = choose|i: int|
                        0 <= i < rest.len() && (#[trigger] rest[i]).voucher == last.voucher && sel(
                            rest[i],
                        );
                    assert(s[i] == rest[i]);
                    assert(s[s.len() - 1] == last);
                }
            }
            assert(after =~= before.insert(last.voucher)) by {
                assert forall|a: Seq<u8>| after.contains(a) <==> before.insert(
                    last.voucher,
                ).contains(a) by {
                    if after.contains(a) {
                        let i = choose|i: int|
                            0 <= i < s.len() && (#[trigger] s[i]).voucher == a && sel(s[i]);
                        if i < rest.len() {
                            assert(rest[i] == s[i]);
                        }
                    }
                    if before.contains(a) {
                        let i = choose|i: int|
                            0 <= i < rest.len() && (#[trigger] rest[i]).voucher == a && sel(rest[i]);
                        assert(s[i] == rest[i]);
                    }
                    if a == last.voucher {
                        assert(s[s.len() - 1] == last);
                    }
                }
            }
        } else {
            assert(after =~= before) by {
                assert forall|a: Seq<u8>| after.contains(a) <==> before.contains(a) by {
                    if after.contains(a) {
                        let i = choose|i: int|
                            0 <= i < s.len() && (#[trigger] s[i]).voucher == a && sel(s[i]);
                        assert(i < rest.len());
                        assert(rest[i] == s[i]);
                    }
                    if before.contains(a) {
                        let i = choose|i: int|
                            0 <= i < rest.len() && (#[trigger] rest[i]).voucher == a && sel(rest[i]);
                        assert(s[i] == rest[i]);
                    }
                }
            }
        }
    }
}

/// Filtering twice is filtering by both predicates at once.
proof fn lemma_filter_twice<A>(s: Seq<A>, p: spec_fn(A) -> bool, q: spec_fn(A) -> bool)
    ensures
        s.filter(p).filter(q) == s.filter(|x: A| p(x) && q(x)),
    decreases s.len(),
{
    let both = |x: A| p(x) && q(x);
    if s.len() == 0 {
        assert(s =~= Seq::empty());
        lemma_filter_empty(p);
        lemma_filter_empty(q);
        lemma_filter_empty(both);
    } else {
        let rest = s.drop_last();
        let last = s.last();
        lemma_filter_twice(rest, p, q);
        assert(s =~= rest.push(last));
        lemma_filter_push(rest, last, p);
        lemma_filter_push(rest, last, both);
        lemma_filter_push(rest.filter(p), last, q);
    }
}

/// In a graph that keeps its invariants an identity has received as many
/// vouches as it has vouchers, and as many from anchors as it has vouchers
/// that are anchors.
pub proof fn lemma_vouches_count_vouchers(g: TrustGraphView, x: Seq<u8>)
    requires
        g.wf(),
    ensures
        vouchers_of(g, x).finite(),
        vouchers_of(g, x).len() == g.received(x).len(),
        anchor_vouchers_of(g, x).finite(),
        anchor_vouchers_of(g, x).len() == g.received_from_anchors(x).len(),
{
    let to_x = |v: VouchView| v.vouchee == x;
    let from_anchor = |v: VouchView| g.is_anchor(v.voucher);
    let both = |v: VouchView| to_x(v) && from_anchor(v);
    lemma_count_vouchers(g.vouches, x, to_x);
    lemma_count_vouchers(g.vouches, x, both);
    lemma_filter_twice(g.vouches, to_x, from_anchor);
    assert(selected_vouchers(g.vouches, to_x) =~= vouchers_of(g, x));
    assert(selected_vouchers(g.vouches, both) =~= anchor_vouchers_of(g, x)) by {
        assert forall|a: Seq<u8>| selected_vouchers(g.vouches, both).contains(a)
            <==> anchor_vouchers_of(g, x).contains(a) by {
            if anchor_vouchers_of(g, x).contains(a) {
                let i = choose|i: int|
                    0 <= i < g.vouches.len() && (#[trigger] g.vouches[i]).voucher == a
                        && g.vouches[i].vouchee == x;
                assert(both(g.vouches[i]));
            }
        }
    }
}

/// The anchor at place `k` of a graph is an anchor of every graph that has
/// no room left for the facts that the first is drawn from.
proof fn lemma_anchor_follows(
    g1: TrustGraphView,
    g2: TrustGraphView,
    vouches: Seq<VouchView>,
    anchors: Seq<AnchorView>,
    k: int,
)
    requires
        g1.wf(),
        g1.drawn_from(vouches, anchors),
        g2.saturated_by(vouches, anchors),
        0 <= k < g1.anchors.len(),
    ensures
        g2.is_anchor(g1.anchors[k].agent),
    decreases k,
{
    let a = g1.anchors[k];
    assert(anchors.contains(a));
    let i = choose|i: int| 0 <= i < anchors.len() && anchors[i] == a;
    assert(anchor_refusal(g2, anchors[i]) is Some);
    if a.designated_by != a.agent {
        let j = choose|j: int| 0 <= j < k && (#[trigger] g1.anchors[j]).agent == a.designated_by;
        lemma_anchor_follows(g1, g2, vouches, anchors, j);
    }
}

/// Two graphs that are drawn from the same facts, and have room for none
/// of them any more, agree on who is an anchor and on who has vouched for
/// whom.
pub proof fn lemma_same_facts_same_relations(
    g1: TrustGraphView,
    g2: TrustGraphView,
    vouches: Seq<VouchView>,
    anchors: Seq<AnchorView>,
)
    requires
        g1.wf(),
        g1.drawn_from(vouches, anchors),
        g2.saturated_by(vouches, anchors),
    ensures
        forall|x: Seq<u8>| g1.is_anchor(x) ==> g2.is_anchor(x),
        forall|a: Seq<u8>, b: Seq<u8>| g1.has_vouch(a, b) ==> g2.has_vouch(a, b),
{
    assert forall|x: Seq<u8>| g1.is_anchor(x) implies g2.is_anchor(x) by {
        let k = choose|k: int| 0 <= k < g1.anchors.len() && (#[trigger] g1.anchors[k]).agent == x;
        lemma_anchor_follows(g1, g2, vouches, anchors, k);
    }
    assert forall|a: Seq<u8>, b: Seq<u8>| g1.has_vouch(a, b) implies g2.has_vouch(a, b) by {
        let k = choose|k: int|
            0 <= k < g1.vouches.len() && (#[trigger] g1.vouches[k]).voucher == a
                && g1.vouches[k].vouchee == b;
        let v = g1.vouches[k];
        assert(vouches.contains(v));
        let i = choose|i: int| 0 <= i < vouches.len() && vouches[i] == v;
        assert(vouch_refusal(g2, vouches[i].voucher, vouches[i].vouchee, vouches[i].note) is Some);
    }
}

/// Peers that hold the same facts reach the same verdict.
///
/// Let two peers have gathered the same vouches and the same anchor
/// declarations, each in its own order and perhaps some of them more than
/// once, and let each have built its graph from them, so that every fact of
/// its graph is one that it gathered and none that it gathered could still
/// be added. Then the same identities are anchors for both, the same
/// identities have vouched for the same identities, and every identity has
/// the same trust tier for both.
pub proof fn law_same_facts_same_verdict(
    g1: TrustGraphView,
    vouches1: Seq<VouchView>,
    anchors1: Seq<AnchorView>,
    g2: TrustGraphView,
    vouches2: Seq<VouchView>,
    anchors2: Seq<AnchorView>,
    x: Seq<u8>,
)
    requires
        g1.wf(),
        g1.drawn_from(vouches1, anchors1),
        g1.saturated_by(vouches1, anchors1),
        g2.wf(),
        g2.drawn_from(vouches2, anchors2),
        g2.saturated_by(vouches2, anchors2),
        same_facts(vouches1, vouches2),
        same_facts(anchors1, anchors2),
    ensures
        g1.is_anchor(x) == g2.is_anchor(x),
        forall|a: Seq<u8>| g1.has_vouch(a, x) == g2.has_vouch(a, x),
        g1.received(x).len() == g2.received(x).len(),
        g1.received_from_anchors(x).len() == g2.received_from_anchors(x).len(),
        spec_status(g1, x) == spec_status(g2, x),
        spec_is_verified(g1, x) == spec_is_verified(g2, x),
{
    assert(g1.drawn_from(vouches2, anchors2));
    assert(g2.drawn_from(vouches1, anchors1));
    lemma_same_facts_same_relations(g1, g2, vouches2, anchors2);
    lemma_same_facts_same_relations(g2, g1, vouches1, anchors1);
    lemma_vouches_count_vouchers(g1, x);
    lemma_vouches_count_vouchers(g2, x);
    assert(vouchers_of(g1, x) =~= vouchers_of(g2, x));
    assert(anchor_vouchers_of(g1, x) =~= anchor_vouchers_of(g2, x));
}

} // verus!
