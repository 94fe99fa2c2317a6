//! The web of trust: vouches between identities and the trusted anchors that
//! bootstrap it. Both are append-only facts.

use vstd::prelude::*;
use crate::bytes::copy_bytes;
use crate::error::TrustError;
use crate::identity::Identity;
use crate::seqs::lemma_filter_push;
use crate::seqs::lemma_filter_empty;

verus! {

/// The longest note, in bytes, that a vouch may carry.
pub const MAX_NOTE_LENGTH: usize = 500;

/// How the voucher came to trust the vouchee.
#[derive(Clone, Copy, Debug, PartialEq, Eq, Structural)]
pub enum VouchType {
    /// The two met in person.
    PhysicalHandshake,
    /// The voucher has known the vouchee for some time.
    ExistingRelationship,
    /// A trusted third party introduced the vouchee.
    TrustedIntroduction,
}

/// An attestation by `voucher` that it trusts `vouchee`.
#[derive(Debug, PartialEq, Eq)]
pub struct Vouch {
    pub voucher: Identity,
    pub vouchee: Identity,
    pub vouch_type: VouchType,
    pub created_at: u64,
    pub note: Option<Vec<u8>>,
}

/// The mathematical content of a [`Vouch`].
pub ghost struct VouchView {
    pub voucher: Seq<u8>,
    pub vouchee: Seq<u8>,
    pub vouch_type: VouchType,
    pub created_at: u64,
    pub note: Option<Seq<u8>>,
}

/// The bytes of an optional byte string.
pub open spec fn opt_bytes_view(b: Option<Vec<u8>>) -> Option<Seq<u8>> {
    match b {
        Some(v) => Some(v@),
        None => None,
    }
}

/// Whether a note is longer than a vouch may carry.
pub open spec fn note_too_long(note: Option<Seq<u8>>) -> bool {
    match note {
        Some(n) => n.len() > MAX_NOTE_LENGTH,
        None => false,
    }
}

impl View for Vouch {
    type V = VouchView;

    open spec fn view(&self) -> VouchView {
        VouchView {
            voucher: self.voucher@,
            vouchee: self.vouchee@,
            vouch_type: self.vouch_type,
            created_at: self.created_at,
            note: opt_bytes_view(self.note),
        }
    }
}

impl Clone for Vouch {
    fn clone(&self) -> (copy: Vouch)
        ensures
            copy@ == self@,
    {
        let note = match &self.note {
            Some(n) => Some(copy_bytes(n.as_slice())),
            None => None,
        };
        Vouch {
            voucher: self.voucher.clone(),
            vouchee: self.vouchee.clone(),
            vouch_type: self.vouch_type,
            created_at: self.created_at,
            note,
        }
    }
}

/// The declaration that `agent` is a trusted anchor, made by `designated_by`.
#[derive(Debug, PartialEq, Eq)]
pub struct TrustedAnchor {
    pub agent: Identity,
    pub designated_at: u64,
    pub designated_by: Identity,
}

/// The mathematical content of a [`TrustedAnchor`].
pub ghost struct AnchorView {
    pub agent: Seq<u8>,
    pub designated_at: u64,
    pub designated_by: Seq<u8>,
}

impl View for TrustedAnchor {
    type V = AnchorView;

    open spec fn view(&self) -> AnchorView {
        AnchorView {
            agent: self.agent@,
            designated_at: self.designated_at,
            designated_by: self.designated_by@,
        }
    }
}

impl Clone for TrustedAnchor {
    fn clone(&self) -> (copy: TrustedAnchor)
        ensures
            copy@ == self@,
    {
        TrustedAnchor {
            agent: self.agent.clone(),
            designated_at: self.designated_at,
            designated_by: self.designated_by.clone(),
        }
    }
}

/// A vouch together with what the evaluating peer knows of its voucher.
#[derive(Debug, PartialEq, Eq)]
pub struct VouchInfo {
    pub vouch: Vouch,
    pub is_from_anchor: bool,
}

/// The mathematical content of a [`VouchInfo`].
pub ghost struct VouchInfoView {
    pub vouch: VouchView,
    pub is_from_anchor: bool,
}

impl View for VouchInfo {
    type V = VouchInfoView;

    open spec fn view(&self) -> VouchInfoView {
        VouchInfoView { vouch: self.vouch@, is_from_anchor: self.is_from_anchor }
    }
}

/// The views of a list of vouches.
pub open spec fn vouch_views(v: Seq<Vouch>) -> Seq<VouchView> {
    v.map_values(|x: Vouch| x@)
}

/// The views of a list of anchors.
pub open spec fn anchor_views(v: Seq<TrustedAnchor>) -> Seq<AnchorView> {
    v.map_values(|x: TrustedAnchor| x@)
}

/// The views of a list of annotated vouches.
pub open spec fn vouch_info_views(v: Seq<VouchInfo>) -> Seq<VouchInfoView> {
    v.map_values(|x: VouchInfo| x@)
}

/// The facts of a trust graph: every vouch and every anchor declaration, in
/// the order in which they were recorded.
pub ghost struct TrustGraphView {
    pub vouches: Seq<VouchView>,
    pub anchors: Seq<AnchorView>,
}

impl TrustGraphView {
    /// The graph without any fact.
    pub open spec fn empty() -> TrustGraphView {
        TrustGraphView { vouches: Seq::empty(), anchors: Seq::empty() }
    }

    /// Whether `agent` is a trusted anchor.
    pub open spec fn is_anchor(self, agent: Seq<u8>) -> bool {
        exists|i: int| 0 <= i < self.anchors.len() && (#[trigger] self.anchors[i]).agent == agent
    }

    /// Whether `voucher` has vouched for `vouchee`.
    pub open spec fn has_vouch(self, voucher: Seq<u8>, vouchee: Seq<u8>) -> bool {
        exists|i: int|
            0 <= i < self.vouches.len() && (#[trigger] self.vouches[i]).voucher == voucher
                && self.vouches[i].vouchee == vouchee
    }

    /// The vouches that `agent` has received, oldest first.
    pub open spec fn received(self, agent: Seq<u8>) -> Seq<VouchView> {
        self.vouches.filter(|v: VouchView| v.vouchee == agent)
    }

    /// The vouches that `agent` has given, oldest first.
    pub open spec fn given(self, agent: Seq<u8>) -> Seq<VouchView> {
        self.vouches.filter(|v: VouchView| v.voucher == agent)
    }

    /// The vouches that `agent` has received from trusted anchors.
    pub open spec fn received_from_anchors(self, agent: Seq<u8>) -> Seq<VouchView> {
        self.received(agent).filter(|v: VouchView| self.is_anchor(v.voucher))
    }

    /// A received vouch with the mark that tells whether an anchor gave it.
    pub open spec fn annotate(self, v: VouchView) -> VouchInfoView {
        VouchInfoView { vouch: v, is_from_anchor: self.is_anchor(v.voucher) }
    }

    /// The vouches that `agent` has received, each with its anchor mark.
    pub open spec fn received_info(self, agent: Seq<u8>) -> Seq<VouchInfoView> {
        self.received(agent).map_values(|v: VouchView| self.annotate(v))
    }

    /// The graph with one more vouch.
    pub open spec fn with_vouch(self, v: VouchView) -> TrustGraphView {
        TrustGraphView { vouches: self.vouches.push(v), anchors: self.anchors }
    }

    /// The graph with one more anchor.
    pub open spec fn with_anchor(self, a: AnchorView) -> TrustGraphView {
        TrustGraphView { vouches: self.vouches, anchors: self.anchors.push(a) }
    }

    /// No identity vouches for itself, no ordered pair is vouched twice and
    /// every note is within its bound.
    pub open spec fn vouches_wf(self) -> bool {
        &&& forall|i: int|
            0 <= i < self.vouches.len() ==> (#[trigger] self.vouches[i]).voucher
                != self.vouches[i].vouchee
        &&& forall|i: int|
            0 <= i < self.vouches.len() ==> !note_too_long((#[trigger] self.vouches[i]).note)
        &&& forall|i: int, j: int|
            0 <= i < j < self.vouches.len() ==> !((#[trigger] self.vouches[i]).voucher == (
            #[trigger] self.vouches[j]).voucher && self.vouches[i].vouchee
                == self.vouches[j].vouchee)
    }

    /// No identity is declared an anchor twice, and every anchor either
    /// declared itself or was designated by an anchor that was declared
    /// before it.
    ///
    /// Several anchors may have declared themselves: identities that found
    /// a community at the same time, each seeing no anchor yet, are all
    /// founders once their declarations have spread.
    pub open spec fn anchors_wf(self) -> bool {
        &&& forall|i: int, j: int|
            0 <= i < j < self.anchors.len() ==> (#[trigger] self.anchors[i]).agent != (
            #[trigger] self.anchors[j]).agent
        &&& forall|j: int|
            0 <= j < self.anchors.len() ==> (#[trigger] self.anchors[j]).designated_by
                == self.anchors[j].agent || exists|i: int|
                0 <= i < j && (#[trigger] self.anchors[i]).agent == self.anchors[j].designated_by
    }

    /// The invariants of the data model.
    pub open spec fn wf(self) -> bool {
        self.vouches_wf() && self.anchors_wf()
    }
}

/// The reason for which a vouch is refused, if any.
pub open spec fn vouch_refusal(
    g: TrustGraphView,
    voucher: Seq<u8>,
    vouchee: Seq<u8>,
    note: Option<Seq<u8>>,
) -> Option<TrustError> {
    if voucher == vouchee {
        Some(TrustError::SelfVouch)
    } else if g.has_vouch(voucher, vouchee) {
        Some(TrustError::DuplicateVouch)
    } else if note_too_long(note) {
        Some(TrustError::NoteTooLong)
    } else {
        None
    }
}

/// The reason for which `caller` may not make `candidate` an anchor, if any.
pub open spec fn designation_refusal(
    g: TrustGraphView,
    caller: Seq<u8>,
    candidate: Seq<u8>,
) -> Option<TrustError> {
    if g.anchors.len() == 0 {
        if caller == candidate {
            None
        } else {
            Some(TrustError::NotAnAnchor)
        }
    } else if !g.is_anchor(caller) {
        Some(TrustError::NotAnAnchor)
    } else if g.is_anchor(candidate) {
        Some(TrustError::AlreadyAnchor)
    } else {
        None
    }
}

/// The reason for which an anchor declaration that arrives from its
/// designator is not recorded, if any: a designator that is neither the
/// declared anchor itself nor an anchor is refused first, then an anchor
/// that is recorded already.
pub open spec fn anchor_refusal(g: TrustGraphView, a: AnchorView) -> Option<TrustError> {
    if a.designated_by != a.agent && !g.is_anchor(a.designated_by) {
        Some(TrustError::NotAnAnchor)
    } else if g.is_anchor(a.agent) {
        Some(TrustError::AlreadyAnchor)
    } else {
        None
    }
}

impl TrustGraphView {
    /// Whether every fact of the graph is among the given ones.
    pub open spec fn drawn_from(self, vouches: Seq<VouchView>, anchors: Seq<AnchorView>) -> bool {
        &&& forall|k: int| 0 <= k < self.vouches.len() ==> vouches.contains(#[trigger] self.vouches[k])
        &&& forall|k: int| 0 <= k < self.anchors.len() ==> anchors.contains(#[trigger] self.anchors[k])
    }

    /// Whether the graph has no room for any of the given facts: each of
    /// them would be refused if it arrived now.
    pub open spec fn saturated_by(self, vouches: Seq<VouchView>, anchors: Seq<AnchorView>) -> bool {
        &&& forall|i: int|
            0 <= i < vouches.len() ==> vouch_refusal(
                self,
                (#[trigger] vouches[i]).voucher,
                vouches[i].vouchee,
                vouches[i].note,
            ) is Some
        &&& forall|i: int| 0 <= i < anchors.len() ==> anchor_refusal(self, #[trigger] anchors[i]) is Some
    }
}

/// The trust facts that one peer currently holds.
pub struct TrustGraph {
    vouches: Vec<Vouch>,
    anchors: Vec<TrustedAnchor>,
}

impl View for TrustGraph {
    type V = TrustGraphView;

    closed spec fn view(&self) -> TrustGraphView {
        TrustGraphView {
            vouches: vouch_views(self.vouches@),
            anchors: anchor_views(self.anchors@),
        }
    }
}

impl TrustGraph {
    #[verifier::type_invariant]
    spec fn inv(&self) -> bool {
        self@.wf()
    }

    /// A graph without any fact.
    pub fn new() -> (g: TrustGraph)
        ensures
            g@ == TrustGraphView::empty(),
            g@.wf(),
    {
        let g = TrustGraph { vouches: Vec::new(), anchors: Vec::new() };
        assert(g@.vouches =~= Seq::empty());
        assert(g@.anchors =~= Seq::empty());
        g
    }

    /// Whether `agent` is a trusted anchor.
    pub fn is_anchor(&self, agent: &Identity) -> (found: bool)
        ensures
            found == self@.is_anchor(agent@),
            self@.wf(),
    {
        proof {
            use_type_invariant(self);
        }
        let mut i: usize = 0;
        while i < self.anchors.len()
            invariant
                self@.wf(),
                i <= self.anchors@.len(),
                forall|j: int| 0 <= j < i ==> (#[trigger] self@.anchors[j]).agent != agent@,
            decreases self.anchors@.len() - i,
        {
            if self.anchors[i].agent.same_as(agent) {
                assert(self@.anchors[i as int].agent == agent@);
                return true;
            }
            i += 1;
        }
        false
    }

    /// Whether `voucher` has vouched for `vouchee`.
    pub fn has_vouch(&self, voucher: &Identity, vouchee: &Identity) -> (found: bool)
        ensures
            found == self@.has_vouch(voucher@, vouchee@),
            self@.wf(),
    {
        proof {
            use_type_invariant(self);
        }
        let mut i: usize = 0;
        while i < self.vouches.len()
            invariant
                self@.wf(),
                i <= self.vouches@.len(),
                forall|j: int|
                    0 <= j < i ==> !((#[trigger] self@.vouches[j]).voucher == voucher@
                        && self@.vouches[j].vouchee == vouchee@),
            decreases self.vouches@.len() - i,
        {
            if self.vouches[i].voucher.same_as(voucher) && self.vouches[i].vouchee.same_as(
                vouchee,
            ) {
                assert(self@.vouches[i as int].voucher == voucher@);
                return true;
            }
            i += 1;
        }
        false
    }

    /// Records a vouch as it arrives from its voucher.
    ///
    /// A vouch for oneself is refused first, then a second vouch for the
    /// same ordered pair, then a note beyond its bound. A refused vouch
    /// leaves the graph as it was; an accepted one is appended to it.
    pub fn record_vouch(&mut self, vouch: Vouch) -> (r: Result<(), TrustError>)
        ensures
            final(self)@.wf(),
            match r {
                Ok(_) => {
                    &&& vouch_refusal(old(self)@, vouch@.voucher, vouch@.vouchee, vouch@.note)
                        is None
                    &&& final(self)@ == old(self)@.with_vouch(vouch@)
                },
                Err(e) => {
                    &&& vouch_refusal(old(self)@, vouch@.voucher, vouch@.vouchee, vouch@.note)
                        == Some(e)
                    &&& final(self)@ == old(self)@
                },
            },
    {
        proof {
            use_type_invariant(&*self);
        }
        if vouch.voucher.same_as(&vouch.vouchee) {
            return Err(TrustError::SelfVouch);
        }
        if self.has_vouch(&vouch.voucher, &vouch.vouchee) {
            return Err(TrustError::DuplicateVouch);
        }
        let too_long = match &vouch.note {
            Some(n) => n.len() > MAX_NOTE_LENGTH,
            None => false,
        };
        if too_long {
            return Err(TrustError::NoteTooLong);
        }
        proof {
            let before = self@;
            let after = before.with_vouch(vouch@);
            assert(vouch_views(self.vouches@.push(vouch)) =~= before.vouches.push(vouch@));
            assert(after.vouches_wf()) by {
                assert forall|i: int, j: int| 0 <= i < j < after.vouches.len() implies !((
                #[trigger] after.vouches[i]).voucher == (#[trigger] after.vouches[j]).voucher
                    && after.vouches[i].vouchee == after.vouches[j].vouchee) by {
                    if j == before.vouches.len() {
                        assert(before.vouches[i] == after.vouches[i]);
                    } else {
                        assert(before.vouches[i] == after.vouches[i]);
                        assert(before.vouches[j] == after.vouches[j]);
                    }
                }
                assert forall|i: int| 0 <= i < after.vouches.len() implies (
                #[trigger] after.vouches[i]).voucher != after.vouches[i].vouchee by {
                    if i < before.vouches.len() {
                        assert(before.vouches[i] == after.vouches[i]);
                    }
                }
                assert forall|i: int| 0 <= i < after.vouches.len() implies !note_too_long(
                    (#[trigger] after.vouches[i]).note,
                ) by {
                    if i < before.vouches.len() {
                        assert(before.vouches[i] == after.vouches[i]);
                    }
                }
            }
        }
        let mut vouches: Vec<Vouch> = Vec::new();
        assert(vouch_views(vouches@) =~= Seq::empty());
        std::mem::swap(&mut vouches, &mut self.vouches);
        vouches.push(vouch);
        self.vouches = vouches;
        Ok(())
    }

    /// Records that `voucher` vouches for `vouchee` at the instant `now`.
    ///
    /// A vouch for oneself is refused first, then a second vouch for the
    /// same ordered pair, then a note beyond its bound. A refused vouch
    /// leaves the graph as it was; an accepted one is appended to it.
    pub fn create_vouch(
        &mut self,
        voucher: &Identity,
        vouchee: &Identity,
        vouch_type: VouchType,
        note: Option<Vec<u8>>,
        now: u64,
    ) -> (r: Result<Vouch, TrustError>)
        ensures
            final(self)@.wf(),
            match r {
                Ok(v) => {
                    &&& vouch_refusal(old(self)@, voucher@, vouchee@, opt_bytes_view(note)) is None
                    &&& v@ == (VouchView {
                        voucher: voucher@,
                        vouchee: vouchee@,
                        vouch_type,
                        created_at: now,
                        note: opt_bytes_view(note),
                    })
                    &&& final(self)@ == old(self)@.with_vouch(v@)
                },
                Err(e) => {
                    &&& vouch_refusal(old(self)@, voucher@, vouchee@, opt_bytes_view(note))
                        == Some(e)
                    &&& final(self)@ == old(self)@
                },
            },
    {
        let vouch = Vouch {
            voucher: voucher.clone(),
            vouchee: vouchee.clone(),
            vouch_type,
            created_at: now,
            note,
        };
        let copy = vouch.clone();
        match self.record_vouch(vouch) {
            Ok(_) => Ok(copy),
            Err(e) => Err(e),
        }
    }

    /// Records a vouch made on meeting the neighbour in person, without a
    /// note.
    pub fn vouch_for_neighbor(&mut self, voucher: &Identity, target_agent: &Identity, now: u64) -> (r:
        Result<Vouch, TrustError>)
        ensures
            final(self)@.wf(),
            match r {
                Ok(v) => {
                    &&& vouch_refusal(old(self)@, voucher@, target_agent@, None) is None
                    &&& v@ == (VouchView {
                        voucher: voucher@,
                        vouchee: target_agent@,
                        vouch_type: VouchType::PhysicalHandshake,
                        created_at: now,
                        note: None,
                    })
                    &&& final(self)@ == old(self)@.with_vouch(v@)
                },
                Err(e) => {
                    &&& vouch_refusal(old(self)@, voucher@, target_agent@, None) == Some(e)
                    &&& final(self)@ == old(self)@
                },
            },
    {
        self.create_vouch(voucher, target_agent, VouchType::PhysicalHandshake, None, now)
    }

    /// Records an anchor declaration as it arrives from its designator.
    ///
    /// A designator that is neither the declared anchor itself nor an
    /// anchor is refused first, then an anchor that is recorded already. A
    /// refused declaration leaves the graph as it was; an accepted one is
    /// appended to it.
    pub fn record_anchor(&mut self, anchor: TrustedAnchor) -> (r: Result<(), TrustError>)
        ensures
            final(self)@.wf(),
            match r {
                Ok(_) => {
                    &&& anchor_refusal(old(self)@, anchor@) is None
                    &&& final(self)@ == old(self)@.with_anchor(anchor@)
                },
                Err(e) => {
                    &&& anchor_refusal(old(self)@, anchor@) == Some(e)
                    &&& final(self)@ == old(self)@
                },
            },
    {
        proof {
            use_type_invariant(&*self);
        }
        if !anchor.designated_by.same_as(&anchor.agent) && !self.is_anchor(&anchor.designated_by) {
            return Err(TrustError::NotAnAnchor);
        }
        if self.is_anchor(&anchor.agent) {
            return Err(TrustError::AlreadyAnchor);
        }
        proof {
            let before = self@;
            let after = before.with_anchor(anchor@);
            assert(anchor_views(self.anchors@.push(anchor)) =~= before.anchors.push(anchor@));
            assert(after.anchors_wf()) by {
                assert forall|i: int, j: int| 0 <= i < j < after.anchors.len() implies (
                #[trigger] after.anchors[i]).agent != (#[trigger] after.anchors[j]).agent by {
                    assert(before.anchors[i] == after.anchors[i]);
                    if j < before.anchors.len() {
                        assert(before.anchors[j] == after.anchors[j]);
                    }
                }
                assert forall|j: int| 0 <= j < after.anchors.len() implies (
                #[trigger] after.anchors[j]).designated_by == after.anchors[j].agent || exists|
                    i: int,
                |
                    0 <= i < j && (#[trigger] after.anchors[i]).agent
                        == after.anchors[j].designated_by by {
                    if j < before.anchors.len() {
                        assert(before.anchors[j] == after.anchors[j]);
                        if before.anchors[j].designated_by != before.anchors[j].agent {
                            let i = choose|i: int|
                                0 <= i < j && (#[trigger] before.anchors[i]).agent
                                    == before.anchors[j].designated_by;
                            assert(after.anchors[i] == before.anchors[i]);
                        }
                    } else if anchor@.designated_by != anchor@.agent {
                        let i = choose|i: int|
                            0 <= i < before.anchors.len() && (#[trigger] before.anchors[i]).agent
                                == anchor@.designated_by;
                        assert(after.anchors[i] == before.anchors[i]);
                    }
                }
            }
        }
        let mut anchors: Vec<TrustedAnchor> = Vec::new();
        assert(anchor_views(anchors@) =~= Seq::empty());
        std::mem::swap(&mut anchors, &mut self.anchors);
        anchors.push(anchor);
        self.anchors = anchors;
        Ok(())
    }

    /// Makes `candidate` a trusted anchor on behalf of `caller`.
    ///
    /// While this peer knows of no anchor, an identity may declare itself
    /// and nobody else. Afterwards only an anchor may designate, and only an
    /// identity that is no anchor yet. A refused designation leaves the
    /// graph as it was.
    pub fn designate_anchor(&mut self, caller: &Identity, candidate: &Identity, now: u64) -> (r:
        Result<TrustedAnchor, TrustError>)
        ensures
            final(self)@.wf(),
            match r {
                Ok(a) => {
                    &&& designation_refusal(old(self)@, caller@, candidate@) is None
                    &&& a@ == (AnchorView {
                        agent: candidate@,
                        designated_at: now,
                        designated_by: caller@,
                    })
                    &&& final(self)@ == old(self)@.with_anchor(a@)
                },
                Err(e) => {
                    &&& designation_refusal(old(self)@, caller@, candidate@) == Some(e)
                    &&& final(self)@ == old(self)@
                },
            },
    {
        proof {
            use_type_invariant(&*self);
        }
        if self.anchors.len() == 0 {
            assert(!self@.is_anchor(caller@) && !self@.is_anchor(candidate@));
            if !caller.same_as(candidate) {
                return Err(TrustError::NotAnAnchor);
            }
        } else {
            assert(self@.anchors.len() > 0);
            if !self.is_anchor(caller) {
                return Err(TrustError::NotAnAnchor);
            }
            if self.is_anchor(candidate) {
                return Err(TrustError::AlreadyAnchor);
            }
        }
        let anchor = TrustedAnchor {
            agent: candidate.clone(),
            designated_at: now,
            designated_by: caller.clone(),
        };
        let copy = anchor.clone();
        match self.record_anchor(anchor) {
            Ok(_) => Ok(copy),
            Err(e) => Err(e),
        }
    }

    /// Declares `caller` a trusted anchor: the founding step of a community.
    /// It is the designation of `caller` by itself.
    pub fn initialize_as_anchor(&mut self, caller: &Identity, now: u64) -> (r: Result<
        TrustedAnchor,
        TrustError,
    >)
        ensures
            final(self)@.wf(),
            match r {
                Ok(a) => {
                    &&& old(self)@.anchors.len() == 0
                    &&& a@ == (AnchorView {
                        agent: caller@,
                        designated_at: now,
                        designated_by: caller@,
                    })
                    &&& final(self)@ == old(self)@.with_anchor(a@)
                },
                Err(e) => {
                    &&& old(self)@.anchors.len() > 0
                    &&& e == if old(self)@.is_anchor(caller@) {
                        TrustError::AlreadyAnchor
                    } else {
                        TrustError::NotAnAnchor
                    }
                    &&& final(self)@ == old(self)@
                },
            },
    {
        self.designate_anchor(caller, caller, now)
    }

    /// The graph of the facts that a peer has gathered, in whatever order
    /// they arrived.
    ///
    /// Every fact of the graph is one of the given facts, and none of the
    /// given facts could be added to it: a vouch is left out only if it is
    /// for its own voucher, repeats an ordered pair or has too long a note,
    /// an anchor only if it is recorded already or if its designator is not
    /// among the anchors that follow from the given declarations.
    pub fn from_facts(vouches: &Vec<Vouch>, anchors: &Vec<TrustedAnchor>) -> (g: TrustGraph)
        ensures
            g@.wf(),
            g@.drawn_from(vouch_views(vouches@), anchor_views(anchors@)),
            g@.saturated_by(vouch_views(vouches@), anchor_views(anchors@)),
    {
        let mut g = TrustGraph::new();
        let ghost given_vouches = vouch_views(vouches@);
        let ghost given_anchors = anchor_views(anchors@);
        let mut i: usize = 0;
        while i < vouches.len()
            invariant
                i <= vouches@.len(),
                given_vouches == vouch_views(vouches@),
                g@.wf(),
                g@.anchors.len() == 0,
                forall|k: int| 0 <= k < g@.vouches.len() ==> given_vouches.contains(#[trigger] g@.vouches[k]),
                forall|j: int|
                    0 <= j < i ==> vouch_refusal(
                        g@,
                        (#[trigger] given_vouches[j]).voucher,
                        given_vouches[j].vouchee,
                        given_vouches[j].note,
                    ) is Some,
            decreases vouches@.len() - i,
        {
            let ghost before = g@;
            let vouch = vouches[i].clone();
            assert(vouch@ == given_vouches[i as int]);
            let _ = g.record_vouch(vouch);
            proof {
                let after = g@;
                if after != before {
                    assert(after.vouches[before.vouches.len() as int] == given_vouches[i as int]);
                    assert(after.has_vouch(given_vouches[i as int].voucher, given_vouches[i as int].vouchee));
                }
                assert forall|k: int| 0 <= k < after.vouches.len() implies given_vouches.contains(
                    #[trigger] after.vouches[k],
                ) by {
                    if k < before.vouches.len() {
                        assert(after.vouches[k] == before.vouches[k]);
                    }
                }
                assert forall|j: int| 0 <= j < i implies vouch_refusal(
                    after,
                    (#[trigger] given_vouches[j]).voucher,
                    given_vouches[j].vouchee,
                    given_vouches[j].note,
                ) is Some by {
                    lemma_vouch_refusal_lasts(before, after, given_vouches[j]);
                }
            }
            i += 1;
        }
        let mut pending: Vec<TrustedAnchor> = Vec::new();
        let mut c: usize = 0;
        while c < anchors.len()
            invariant
                c <= anchors@.len(),
                pending@.len() == c,
                forall|k: int| 0 <= k < c ==> (#[trigger] pending@[k])@ == anchors@[k]@,
            decreases anchors@.len() - c,
        {
            pending.push(anchors[c].clone());
            c += 1;
        }
        assert(anchor_views(pending@) =~= given_anchors);
        assert forall|k: int| 0 <= k < pending@.len() implies given_anchors.contains(
            (#[trigger] pending@[k])@,
        ) by {
            assert(given_anchors[k] == pending@[k]@);
        }
        let ghost final_vouches = g@.vouches;
        loop
            invariant
                given_anchors == anchor_views(anchors@),
                g@.wf(),
                g@.vouches == final_vouches,
                forall|k: int| 0 <= k < g@.anchors.len() ==> given_anchors.contains(#[trigger] g@.anchors[k]),
                forall|k: int| 0 <= k < pending@.len() ==> given_anchors.contains((#[trigger] pending@[k])@),
                forall|i: int|
                    0 <= i < given_anchors.len() ==> g@.is_anchor((#[trigger] given_anchors[i]).agent)
                        || anchor_views(pending@).contains(given_anchors[i]),
            ensures
                g@.wf(),
                g@.vouches == final_vouches,
                forall|k: int| 0 <= k < g@.anchors.len() ==> given_anchors.contains(#[trigger] g@.anchors[k]),
                forall|i: int|
                    0 <= i < given_anchors.len() ==> anchor_refusal(g@, #[trigger] given_anchors[i])
                        is Some,
            decreases pending@.len(),
        {
            let ghost g0 = g@;
            let mut next: Vec<TrustedAnchor> = Vec::new();
            let mut k: usize = 0;
            while k < pending.len()
                invariant
                    k <= pending@.len(),
                    next@.len() <= k,
                    given_anchors == anchor_views(anchors@),
                    g@.wf(),
                    g@.vouches == final_vouches,
                    forall|j: int| 0 <= j < g@.anchors.len() ==> given_anchors.contains(#[trigger] g@.anchors[j]),
                    forall|j: int| 0 <= j < pending@.len() ==> given_anchors.contains((#[trigger] pending@[j])@),
                    forall|j: int| 0 <= j < next@.len() ==> given_anchors.contains((#[trigger] next@[j])@),
                    forall|i: int|
                        0 <= i < given_anchors.len() ==> g@.is_anchor((#[trigger] given_anchors[i]).agent)
                            || anchor_views(next@).contains(given_anchors[i]) || exists|j: int|
                            k <= j < pending@.len() && (#[trigger] pending@[j])@ == given_anchors[i],
                    next@.len() == k ==> g@ == g0,
                    next@.len() == k ==> forall|j: int|
                        0 <= j < k ==> anchor_refusal(g0, (#[trigger] next@[j])@) is Some,
                decreases pending@.len() - k,
            {
                let ghost before = g@;
                let ghost next_before = next@;
                let anchor = pending[k].clone();
                let again = pending[k].clone();
                let r = g.record_anchor(anchor);
                if r.is_err() {
                    next.push(again);
                }
                proof {
                    let after = g@;
                    let a = pending@[k as int]@;
                    if r is Ok {
                        assert(after.anchors[before.anchors.len() as int] == a);
                        assert(after.is_anchor(a.agent));
                    } else {
                        assert(anchor_views(next@)[next_before.len() as int] == a);
                    }
                    assert forall|j: int| 0 <= j < after.anchors.len() implies given_anchors.contains(
                        #[trigger] after.anchors[j],
                    ) by {
                        if j < before.anchors.len() {
                            assert(after.anchors[j] == before.anchors[j]);
                        }
                    }
                    assert forall|i: int| 0 <= i < given_anchors.len() implies after.is_anchor(
                        (#[trigger] given_anchors[i]).agent,
                    ) || anchor_views(next@).contains(given_anchors[i]) || exists|j: int|
                        k + 1 <= j < pending@.len() && (#[trigger] pending@[j])@
                            == given_anchors[i] by {
                        let x = given_anchors[i];
                        if before.is_anchor(x.agent) {
                            lemma_anchor_lasts(before, after, x.agent);
                        } else if anchor_views(next_before).contains(x) {
                            let j = choose|j: int|
                                0 <= j < next_before.len() && anchor_views(next_before)[j] == x;
                            assert(anchor_views(next@)[j] == x);
                        } else {
                            let j = choose|j: int|
                                k <= j < pending@.len() && (#[trigger] pending@[j])@ == x;
                            if j == k {
                                if r is Ok {
                                    assert(after.is_anchor(x.agent));
                                } else {
                                    assert(anchor_views(next@).contains(x));
                                }
                            }
                        }
                    }
                }
                k += 1;
            }
            if next.len() == pending.len() {
                proof {
                    assert forall|i: int| 0 <= i < given_anchors.len() implies anchor_refusal(
                        g@,
                        #[trigger] given_anchors[i],
                    ) is Some by {
                        let x = given_anchors[i];
                        if !g@.is_anchor(x.agent) {
                            let j = choose|j: int|
                                0 <= j < next@.len() && anchor_views(next@)[j] == x;
                            assert(anchor_refusal(g0, next@[j]@) is Some);
                        }
                    }
                }
                break ;
            }
            proof {
                assert forall|i: int| 0 <= i < given_anchors.len() implies g@.is_anchor(
                    (#[trigger] given_anchors[i]).agent,
                ) || anchor_views(next@).contains(given_anchors[i]) by {
                    let x = given_anchors[i];
                    if !g@.is_anchor(x.agent) && !anchor_views(next@).contains(x) {
                        let j = choose|j: int|
                            pending@.len() <= j < pending@.len() && (#[trigger] pending@[j])@ == x;
                    }
                }
            }
            pending = next;
        }
        proof {
            let graph = g@;
            assert forall|j: int| 0 <= j < given_vouches.len() implies vouch_refusal(
                graph,
                (#[trigger] given_vouches[j]).voucher,
                given_vouches[j].vouchee,
                given_vouches[j].note,
            ) is Some by {
                lemma_vouch_refusal_ignores_anchors(
                    TrustGraphView { vouches: final_vouches, anchors: Seq::empty() },
                    graph,
                    given_vouches[j],
                );
            }
        }
        g
    }

    /// Every trusted anchor, in the order of designation.
    pub fn get_all_anchors(&self) -> (anchors: Vec<TrustedAnchor>)
        ensures
            anchor_views(anchors@) == self@.anchors,
            self@.wf(),
    {
        proof {
            use_type_invariant(self);
        }
        let mut out: Vec<TrustedAnchor> = Vec::new();
        let mut i: usize = 0;
        while i < self.anchors.len()
            invariant
                i <= self.anchors@.len(),
                out@.len() == i,
                anchor_views(out@) == self@.anchors.take(i as int),
            decreases self.anchors@.len() - i,
        {
            let a = self.anchors[i].clone();
            proof {
                let before = anchor_views(out@);
                let after = anchor_views(out@.push(a));
                assert(a@ == self@.anchors[i as int]);
                assert forall|k: int| 0 <= k < after.len() implies after[k]
                    == self@.anchors.take(i + 1)[k] by {
                    if k < out@.len() {
                        assert(after[k] == before[k]);
                        assert(before[k] == self@.anchors.take(i as int)[k]);
                    }
                }
                assert(after =~= self@.anchors.take(i + 1));
            }
            out.push(a);
            i += 1;
        }
        assert(self@.anchors.take(i as int) =~= self@.anchors);
        out
    }

    /// The vouches that `agent` has received, oldest first, each marked with
    /// whether its voucher is a trusted anchor.
    pub fn get_vouches_for(&self, agent: &Identity) -> (vouches: Vec<VouchInfo>)
        ensures
            vouch_info_views(vouches@) == self@.received_info(agent@),
            self@.wf(),
    {
        proof {
            use_type_invariant(self);
            lemma_filter_empty(|v: VouchView| v.vouchee == agent@);
        }
        let ghost g = self@;
        let ghost pred = |v: VouchView| v.vouchee == agent@;
        let ghost mark = |v: VouchView| g.annotate(v);
        let mut out: Vec<VouchInfo> = Vec::new();
        let mut i: usize = 0;
        while i < self.vouches.len()
            invariant
                g == self@,
                pred == (|v: VouchView| v.vouchee == agent@),
                mark == (|v: VouchView| g.annotate(v)),
                i <= self.vouches@.len(),
                vouch_info_views(out@) == g.vouches.take(i as int).filter(pred).map_values(mark),
            decreases self.vouches@.len() - i,
        {
            proof {
                let prefix = g.vouches.take(i as int);
                assert(g.vouches.take(i + 1) =~= prefix.push(g.vouches[i as int]));
                lemma_filter_push(prefix, g.vouches[i as int], pred);
            }
            if self.vouches[i].vouchee.same_as(agent) {
                let vouch = self.vouches[i].clone();
                let is_from_anchor = self.is_anchor(&vouch.voucher);
                let info = VouchInfo { vouch, is_from_anchor };
                proof {
                    let prefix = g.vouches.take(i as int);
                    let kept = prefix.filter(pred);
                    let before = vouch_info_views(out@);
                    let after = vouch_info_views(out@.push(info));
                    let wanted = kept.push(g.vouches[i as int]).map_values(mark);
                    assert(info@ == mark(g.vouches[i as int]));
                    assert(before.len() == kept.len());
                    assert forall|k: int| 0 <= k < after.len() implies after[k] == wanted[k] by {
                        if k < out@.len() {
                            assert(after[k] == before[k]);
                            assert(before[k] == kept.map_values(mark)[k]);
                        }
                    }
                    assert(after =~= wanted);
                }
                out.push(info);
            }
            i += 1;
        }
        assert(g.vouches.take(i as int) =~= g.vouches);
        out
    }

    /// The vouches that `agent` has given, oldest first.
    pub fn get_vouches_given_by(&self, agent: &Identity) -> (vouches: Vec<Vouch>)
        ensures
            vouch_views(vouches@) == self@.given(agent@),
            self@.wf(),
    {
        proof {
            use_type_invariant(self);
            lemma_filter_empty(|v: VouchView| v.voucher == agent@);
        }
        let ghost g = self@;
        let ghost pred = |v: VouchView| v.voucher == agent@;
        let mut out: Vec<Vouch> = Vec::new();
        let mut i: usize = 0;
        while i < self.vouches.len()
            invariant
                g == self@,
                pred == (|v: VouchView| v.voucher == agent@),
                i <= self.vouches@.len(),
                vouch_views(out@) == g.vouches.take(i as int).filter(pred),
            decreases self.vouches@.len() - i,
        {
            proof {
                let prefix = g.vouches.take(i as int);
                assert(g.vouches.take(i + 1) =~= prefix.push(g.vouches[i as int]));
                lemma_filter_push(prefix, g.vouches[i as int], pred);
            }
            if self.vouches[i].voucher.same_as(agent) {
                let vouch = self.vouches[i].clone();
                proof {
                    let prefix = g.vouches.take(i as int);
                    assert(vouch_views(out@.push(vouch)) =~= prefix.filter(pred).push(
                        g.vouches[i as int],
                    ));
                }
                out.push(vouch);
            }
            i += 1;
        }
        assert(g.vouches.take(i as int) =~= g.vouches);
        out
    }
}

/// A vouch that is refused stays refused when the graph grows by a vouch.
pub proof fn lemma_vouch_refusal_lasts(before: TrustGraphView, after: TrustGraphView, v: VouchView)
    requires
        vouch_refusal(before, v.voucher, v.vouchee, v.note) is Some,
        after == before || exists|w: VouchView| after == before.with_vouch(w),
    ensures
        vouch_refusal(after, v.voucher, v.vouchee, v.note) is Some,
{
    if after != before && before.has_vouch(v.voucher, v.vouchee) {
        let i = choose|i: int|
            0 <= i < before.vouches.len() && (#[trigger] before.vouches[i]).voucher == v.voucher
                && before.vouches[i].vouchee == v.vouchee;
        assert(after.vouches[i] == before.vouches[i]);
    }
}

/// Whether a vouch is refused does not depend on the anchors.
pub proof fn lemma_vouch_refusal_ignores_anchors(a: TrustGraphView, b: TrustGraphView, v: VouchView)
    requires
        a.vouches == b.vouches,
    ensures
        vouch_refusal(a, v.voucher, v.vouchee, v.note) == vouch_refusal(
            b,
            v.voucher,
            v.vouchee,
            v.note,
        ),
{
    if a.has_vouch(v.voucher, v.vouchee) {
        let i = choose|i: int|
            0 <= i < a.vouches.len() && (#[trigger] a.vouches[i]).voucher == v.voucher
                && a.vouches[i].vouchee == v.vouchee;
        assert(b.vouches[i] == a.vouches[i]);
    }
    if b.has_vouch(v.voucher, v.vouchee) {
        let i = choose|i: int|
            0 <= i < b.vouches.len() && (#[trigger] b.vouches[i]).voucher == v.voucher
                && b.vouches[i].vouchee == v.vouchee;
        assert(a.vouches[i] == b.vouches[i]);
    }
}

/// An anchor stays an anchor when the graph grows by an anchor.
pub proof fn lemma_anchor_lasts(before: TrustGraphView, after: TrustGraphView, agent: Seq<u8>)
    requires
        before.is_anchor(agent),
        after == before || exists|a: AnchorView| after == before.with_anchor(a),
    ensures
        after.is_anchor(agent),
{
    if after != before {
        let i = choose|i: int|
            0 <= i < before.anchors.len() && (#[trigger] before.anchors[i]).agent == agent;
        assert(after.anchors[i] == before.anchors[i]);
    }
}

} // verus!
