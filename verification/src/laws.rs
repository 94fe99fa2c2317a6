//! What holds of the web of trust, of the revocation registry and of
//! invitations whatever facts a peer holds, stated over the models that the
//! operations' contracts use.

use vstd::prelude::*;
use crate::admission::{
    current_payload, legacy_payload, spec_admit, spec_begin, spec_validate_format,
    AdmissionStepView, AdmissionView, ConfigView, FormatVerdictView, PendingView,
    SignatureCheckView,
};
use crate::envelope;
use crate::envelope::{CurrentView, EnvelopeView, LegacyView};
use crate::error::TrustError;
use crate::invitation::{
    issue_refusal, spec_issued, spec_signing_payload, validity_of, InvitationView, IssuerView,
};
use crate::membership::{spec_is_verified, spec_status, MembershipStatus};
use crate::revocation::{revocation_refusal, RegistryView, RevocationView};
use crate::seqs::lemma_filter_push;
use crate::trust_graph::{
    designation_refusal, note_too_long, vouch_refusal, AnchorView, TrustGraphView, VouchView,
};

verus! {

/// Whether the sequence `later` begins with `earlier`: facts are only ever
/// appended.
pub open spec fn extends<A>(later: Seq<A>, earlier: Seq<A>) -> bool {
    earlier.len() <= later.len() && later.take(earlier.len() as int) == earlier
}

/// Nobody can vouch for itself, whatever the graph, the kind and the note.
pub proof fn law_self_vouch_rejected(g: TrustGraphView, a: Seq<u8>, note: Option<Seq<u8>>)
    ensures
        vouch_refusal(g, a, a, note) == Some(TrustError::SelfVouch),
{
}

/// Once `a` has vouched for `b`, every further vouch of `a` for `b` is
/// refused as a duplicate, and what holds of a vouch of `b` for `a` is what
/// held before.
pub proof fn law_duplicate_vouch_rejected(
    g: TrustGraphView,
    first: VouchView,
    second_note: Option<Seq<u8>>,
    reverse_note: Option<Seq<u8>>,
)
    requires
        vouch_refusal(g, first.voucher, first.vouchee, first.note) is None,
    ensures
        vouch_refusal(g.with_vouch(first), first.voucher, first.vouchee, second_note) == Some(
            TrustError::DuplicateVouch,
        ),
        vouch_refusal(g.with_vouch(first), first.vouchee, first.voucher, reverse_note)
            == vouch_refusal(g, first.vouchee, first.voucher, reverse_note),
        !g.has_vouch(first.vouchee, first.voucher) && !note_too_long(reverse_note) ==> vouch_refusal(
            g.with_vouch(first),
            first.vouchee,
            first.voucher,
            reverse_note,
        ) is None,
{
    let after = g.with_vouch(first);
    assert(after.vouches[g.vouches.len() as int] == first);
    assert(after.has_vouch(first.voucher, first.vouchee));
    if g.has_vouch(first.vouchee, first.voucher) {
        let i = choose|i: int|
            0 <= i < g.vouches.len() && (#[trigger] g.vouches[i]).voucher == first.vouchee
                && g.vouches[i].vouchee == first.voucher;
        assert(after.vouches[i] == g.vouches[i]);
    }
    if after.has_vouch(first.vouchee, first.voucher) {
        let i = choose|i: int|
            0 <= i < after.vouches.len() && (#[trigger] after.vouches[i]).voucher == first.vouchee
                && after.vouches[i].vouchee == first.voucher;
        assert(i < g.vouches.len());
        assert(after.vouches[i] == g.vouches[i]);
    }
}

/// The vouches that `x` has received once `v` is recorded.
pub proof fn lemma_received_with_vouch(g: TrustGraphView, v: VouchView, x: Seq<u8>)
    ensures
        g.with_vouch(v).is_anchor(x) == g.is_anchor(x),
        g.with_vouch(v).received(x) == if v.vouchee == x {
            g.received(x).push(v)
        } else {
            g.received(x)
        },
        g.with_vouch(v).received_from_anchors(x) == if v.vouchee == x && g.is_anchor(v.voucher) {
            g.received_from_anchors(x).push(v)
        } else {
            g.received_from_anchors(x)
        },
{
    let after = g.with_vouch(v);
    assert(after.anchors == g.anchors);
    lemma_filter_push(g.vouches, v, |w: VouchView| w.vouchee == x);
    let from_anchor = |w: VouchView| g.is_anchor(w.voucher);
    let from_anchor_after = |w: VouchView| after.is_anchor(w.voucher);
    assert(from_anchor =~= from_anchor_after);
    lemma_filter_push(g.received(x), v, from_anchor);
}

/// An identity that is no anchor and has received no vouch is pending.
pub proof fn law_unvouched_is_pending(g: TrustGraphView, x: Seq<u8>)
    requires
        !g.is_anchor(x),
        g.received(x).len() == 0,
    ensures
        spec_status(g, x) == MembershipStatus::Pending,
{
    g.received(x).lemma_filter_len(|w: VouchView| g.is_anchor(w.voucher));
}

/// A first vouch from an identity that is no anchor leaves the vouchee
/// pending.
pub proof fn law_one_member_vouch_is_pending(g: TrustGraphView, v: VouchView)
    requires
        !g.is_anchor(v.vouchee),
        !g.is_anchor(v.voucher),
        g.received(v.vouchee).len() == 0,
    ensures
        spec_status(g.with_vouch(v), v.vouchee) == MembershipStatus::Pending,
{
    lemma_received_with_vouch(g, v, v.vouchee);
    g.received(v.vouchee).lemma_filter_len(|w: VouchView| g.is_anchor(w.voucher));
}

/// A further vouch, from whomever, makes a vouchee verified that has
/// received a vouch before and is no anchor.
pub proof fn law_second_vouch_verifies(g: TrustGraphView, v: VouchView)
    requires
        !g.is_anchor(v.vouchee),
        g.received(v.vouchee).len() >= 1,
    ensures
        spec_status(g.with_vouch(v), v.vouchee) == MembershipStatus::Verified,
{
    lemma_received_with_vouch(g, v, v.vouchee);
}

/// One vouch from a trusted anchor makes the vouchee verified, however many
/// vouches it had received, unless it is an anchor itself.
pub proof fn law_anchor_vouch_verifies(g: TrustGraphView, v: VouchView)
    requires
        !g.is_anchor(v.vouchee),
        g.is_anchor(v.voucher),
    ensures
        spec_status(g.with_vouch(v), v.vouchee) == MembershipStatus::Verified,
{
    lemma_received_with_vouch(g, v, v.vouchee);
}

/// An anchor has the tier `Anchor` whatever vouches it has received, and
/// stays an anchor whatever facts are appended to the graph.
pub proof fn law_anchor_is_terminal(g: TrustGraphView, later: TrustGraphView, x: Seq<u8>)
    requires
        g.is_anchor(x),
        extends(later.anchors, g.anchors),
    ensures
        spec_status(g, x) == MembershipStatus::Anchor,
        spec_status(later, x) == MembershipStatus::Anchor,
        spec_is_verified(later, x),
{
    let i = choose|i: int| 0 <= i < g.anchors.len() && (#[trigger] g.anchors[i]).agent == x;
    assert(later.anchors.take(g.anchors.len() as int)[i] == later.anchors[i]);
    assert(later.anchors[i].agent == x);
}

/// Recording a vouch or an anchor only appends to the facts of a graph.
pub proof fn law_graph_only_grows(g: TrustGraphView, v: VouchView, a: AnchorView)
    ensures
        extends(g.with_vouch(v).vouches, g.vouches),
        extends(g.with_vouch(v).anchors, g.anchors),
        extends(g.with_anchor(a).vouches, g.vouches),
        extends(g.with_anchor(a).anchors, g.anchors),
{
    assert(g.vouches.push(v).take(g.vouches.len() as int) =~= g.vouches);
    assert(g.anchors.push(a).take(g.anchors.len() as int) =~= g.anchors);
    assert(g.vouches.take(g.vouches.len() as int) =~= g.vouches);
    assert(g.anchors.take(g.anchors.len() as int) =~= g.anchors);
}

/// While there is no anchor every identity may declare itself, and nobody
/// may be declared by another. Once there is one, a caller that is no anchor
/// is refused as such, whomever it names.
pub proof fn law_anchor_bootstrap(g: TrustGraphView, caller: Seq<u8>, candidate: Seq<u8>)
    ensures
        g.anchors.len() == 0 ==> designation_refusal(g, caller, caller) is None,
        g.anchors.len() == 0 && caller != candidate ==> designation_refusal(g, caller, candidate)
            == Some(TrustError::NotAnAnchor),
        g.anchors.len() > 0 && !g.is_anchor(caller) ==> designation_refusal(g, caller, candidate)
            == Some(TrustError::NotAnAnchor),
{
}

/// Once `first` is recorded its identity is revoked in every registry that
/// the records are appended to, and every further revocation of it is
/// refused as such, whatever the reason.
pub proof fn law_revocation_is_permanent(
    reg: RegistryView,
    first: RevocationView,
    later: RegistryView,
    reason: Seq<u8>,
)
    requires
        extends(later.records, reg.with_record(first).records),
    ensures
        reg.with_record(first).is_revoked(first.revoked_agent),
        later.is_revoked(first.revoked_agent),
        revocation_refusal(later, first.revoked_agent, reason) == Some(TrustError::AlreadyRevoked),
{
    let after = reg.with_record(first);
    let i = reg.records.len() as int;
    assert(after.records[i] == first);
    assert(later.records.take(after.records.len() as int)[i] == later.records[i]);
    assert(later.records[i].revoked_agent == first.revoked_agent);
}

/// The code of an invitation reads as the envelope of that invitation and
/// as nothing else.
pub proof fn law_code_reads_back(inv: InvitationView)
    ensures
        envelope::spec_decode(inv.code()) == Some(EnvelopeView::Current(inv.envelope())),
{
    envelope::lemma_decode_encoded(EnvelopeView::Current(inv.envelope()));
}

/// An invitation checked against the community it was issued for asks, up
/// to and at the end of its validity, for the verification of the very
/// signature that was made, by the issuer, over the very bytes that were
/// signed; after the end of its validity it has expired. So the code is
/// valid throughout its validity if the issuer's signature verifies, and
/// never after it.
pub proof fn law_issued_code_validates(config: ConfigView, inv: InvitationView, now: u64)
    requires
        config.community_id == inv.community_id,
    ensures
        now <= inv.expires_at ==> spec_validate_format(config, inv.code(), now)
            == FormatVerdictView::VerifySignature(
            SignatureCheckView {
                key: inv.issuer,
                payload: inv.payload(),
                signature: inv.signature,
            },
        ),
        now <= inv.expires_at ==> spec_validate_format(config, inv.code(), now).holds(true),
        now > inv.expires_at ==> spec_validate_format(config, inv.code(), now)
            == FormatVerdictView::Invalid(TrustError::InvitationExpired),
        now > inv.expires_at ==> !spec_validate_format(config, inv.code(), now).holds(true),
{
    law_code_reads_back(inv);
}

/// The code of a freshly issued invitation is valid at the instant of issue
/// and at every instant up to the end of its validity, given that the
/// signature that the issuer made over the signing payload verifies, and at
/// no instant after it.
pub proof fn law_issue_round_trip(
    config: ConfigView,
    issuer: Seq<u8>,
    validity: Option<u64>,
    voucher: Option<Seq<u8>>,
    signal_url: Seq<u8>,
    bootstrap_url: Seq<u8>,
    issued_at: u64,
    signature: Seq<u8>,
    now: u64,
)
    requires
        issue_refusal(validity, issued_at) is None,
    ensures
        ({
            let inv = spec_issued(
                issuer,
                config.community_id,
                validity,
                voucher,
                signal_url,
                bootstrap_url,
                issued_at,
                signature,
            );
            let verdict = spec_validate_format(config, inv.code(), now);
            &&& inv.expires_at == issued_at + validity_of(validity)
            &&& issued_at <= now <= inv.expires_at ==> verdict
                == FormatVerdictView::VerifySignature(
                SignatureCheckView {
                    key: issuer,
                    payload: spec_signing_payload(
                        config.community_id,
                        issued_at,
                        signal_url + bootstrap_url,
                    ),
                    signature,
                },
            ) && verdict.holds(true)
            &&& now > inv.expires_at ==> verdict == FormatVerdictView::Invalid(
                TrustError::InvitationExpired,
            ) && !verdict.holds(true)
        }),
{
    let inv = spec_issued(
        issuer,
        config.community_id,
        validity,
        voucher,
        signal_url,
        bootstrap_url,
        issued_at,
        signature,
    );
    law_issued_code_validates(config, inv, now);
}

/// What [`law_issued_code_validates`] says of the cheap check holds of the
/// admission to a private community of a joiner who is not the founder.
pub proof fn law_issued_code_admits(
    config: ConfigView,
    joiner: Seq<u8>,
    inv: InvitationView,
    now: u64,
    revoked: bool,
)
    requires
        config.private,
        config.bootstrap_identity != Some(joiner),
        config.community_id == inv.community_id,
    ensures
        now <= inv.expires_at ==> spec_begin(config, joiner, Some(inv.code()), now)
            == AdmissionStepView::VerifySignature(
            PendingView {
                check: SignatureCheckView {
                    key: inv.issuer,
                    payload: inv.payload(),
                    signature: inv.signature,
                },
                voucher: inv.voucher,
                require_vouching: config.require_vouching,
            },
        ),
        now <= inv.expires_at && !(config.require_vouching && inv.voucher is None) ==> spec_admit(
            config,
            joiner,
            Some(inv.code()),
            now,
            true,
            false,
        ) == Ok::<AdmissionView, TrustError>(AdmissionView::Invited { voucher: inv.voucher }),
        now > inv.expires_at ==> spec_admit(config, joiner, Some(inv.code()), now, true, revoked)
            == Err::<AdmissionView, TrustError>(TrustError::InvitationExpired),
{
    law_code_reads_back(inv);
}

/// An invitation presented to another community than the one it binds is
/// refused for that reason, whenever it is presented.
pub proof fn law_other_community_rejected(config: ConfigView, inv: InvitationView, now: u64)
    requires
        config.community_id != inv.community_id,
    ensures
        spec_validate_format(config, inv.code(), now) == FormatVerdictView::Invalid(
            TrustError::WrongCommunity,
        ),
{
    law_code_reads_back(inv);
}

/// The envelope with another community in the place of its own. A bare
/// signed proof binds no community.
pub open spec fn with_community(env: EnvelopeView, community_id: Seq<u8>) -> EnvelopeView {
    match env {
        EnvelopeView::Current(e) => EnvelopeView::Current(
            CurrentView { network_seed: community_id, ..e },
        ),
        EnvelopeView::Legacy(e) => EnvelopeView::Legacy(LegacyView { community_id, ..e }),
        EnvelopeView::Proof(p) => EnvelopeView::Proof(p),
    }
}

/// The envelope with another signature in the place of its own.
pub open spec fn with_signature(env: EnvelopeView, signature: Seq<u8>) -> EnvelopeView {
    match env {
        EnvelopeView::Current(e) => EnvelopeView::Current(CurrentView { signature, ..e }),
        EnvelopeView::Legacy(e) => EnvelopeView::Legacy(LegacyView { signature, ..e }),
        EnvelopeView::Proof(p) => EnvelopeView::Proof(
            crate::envelope::ProofView { signature, ..p },
        ),
    }
}

/// Whether the signature of an envelope is verified where the community is
/// set up with `config`: always for a current envelope, and for a legacy
/// one where a key is set up for it.
pub open spec fn is_verified_code(config: ConfigView, env: EnvelopeView) -> bool {
    match env {
        EnvelopeView::Current(_) => true,
        EnvelopeView::Legacy(e) => e.wf() && config.hub_public_key is Some,
        EnvelopeView::Proof(_) => false,
    }
}

/// An invitation code whose community was changed, in one byte or in many,
/// is refused for that, whatever else it holds.
pub proof fn law_changed_community_rejected(
    config: ConfigView,
    env: EnvelopeView,
    changed: Seq<u8>,
    now: u64,
)
    requires
        is_verified_code(config, with_community(env, changed)),
        changed != config.community_id,
    ensures
        spec_validate_format(config, envelope::spec_encode(with_community(env, changed)), now)
            == FormatVerdictView::Invalid(TrustError::WrongCommunity),
{
    envelope::lemma_decode_encoded(with_community(env, changed));
}

/// An invitation code whose signature was changed is valid at most if the
/// changed signature verifies, under the key and over the bytes of the
/// code as it was: what was signed does not depend on the signature.
pub proof fn law_changed_signature_is_verified(
    config: ConfigView,
    env: EnvelopeView,
    changed: Seq<u8>,
    now: u64,
)
    requires
        is_verified_code(config, env),
    ensures
        match spec_validate_format(
            config,
            envelope::spec_encode(with_signature(env, changed)),
            now,
        ) {
            FormatVerdictView::Invalid(_) => true,
            FormatVerdictView::Unchecked => false,
            FormatVerdictView::VerifySignature(check) => check == (SignatureCheckView {
                key: match env {
                    EnvelopeView::Current(e) => e.hub_agent_pub_key,
                    _ => config.hub_public_key->Some_0,
                },
                payload: match env {
                    EnvelopeView::Current(e) => current_payload(e),
                    EnvelopeView::Legacy(e) => legacy_payload(e),
                    EnvelopeView::Proof(p) => Seq::empty(),
                },
                signature: changed,
            }),
        },
{
    envelope::lemma_decode_encoded(with_signature(env, changed));
}

/// No code is valid while its signature does not verify, but a legacy
/// envelope in a community that is set up with no key to verify it.
pub proof fn law_no_validity_without_signature(config: ConfigView, code: Seq<u8>, now: u64)
    ensures
        spec_validate_format(config, code, now).holds(false) ==> config.hub_public_key is None
            && envelope::spec_decode(code) matches Some(EnvelopeView::Legacy(_)),
{
}

/// Nobody is admitted to a private community while the signature does not
/// verify, but the founder and, where the community is set up with no
/// key to verify it, the bearer of a legacy envelope. Where a signature was
/// to be verified and does not verify, that is the reason given.
pub proof fn law_no_admission_without_signature(
    config: ConfigView,
    joiner: Seq<u8>,
    membrane_proof: Option<Seq<u8>>,
    now: u64,
    revoked: bool,
)
    requires
        config.private,
    ensures
        match spec_admit(config, joiner, membrane_proof, now, false, revoked) {
            Ok(AdmissionView::Bootstrap) => config.bootstrap_identity == Some(joiner),
            Ok(AdmissionView::TrustOnFirstUse) => config.hub_public_key is None,
            Ok(_) => false,
            Err(_) => true,
        },
        spec_begin(config, joiner, membrane_proof, now) is VerifySignature ==> spec_admit(
            config,
            joiner,
            membrane_proof,
            now,
            false,
            revoked,
        ) == Err::<AdmissionView, TrustError>(TrustError::InvalidSignature),
{
}

/// Revoking marks for good: an invitation that the log holds as revoked is
/// held as revoked after any further invitation is issued and after any
/// invitation is revoked, and revoking twice is revoking once.
pub proof fn law_invitation_revocation_is_one_way(
    hub: IssuerView,
    revoked: InvitationView,
    other: InvitationView,
)
    ensures
        hub.with_revoked(revoked).with_revoked(revoked) == hub.with_revoked(revoked),
        hub.is_revoked(revoked.envelope()) ==> hub.with_invitation(other).is_revoked(
            revoked.envelope(),
        ) && hub.with_revoked(other).is_revoked(revoked.envelope()),
        forall|i: int|
            0 <= i < hub.log.len() && (#[trigger] hub.log[i]).same_invitation(revoked)
                ==> hub.with_revoked(revoked).log[i].revoked,
{
    assert(hub.with_revoked(revoked).with_revoked(revoked).log =~= hub.with_revoked(revoked).log);
    if hub.is_revoked(revoked.envelope()) {
        let i = choose|i: int|
            0 <= i < hub.log.len() && (#[trigger] hub.log[i]).revoked && hub.log[i].envelope()
                == revoked.envelope();
        assert(hub.with_invitation(other).log[i] == hub.log[i]);
        let after = hub.with_revoked(other).log[i];
        assert(after.revoked && after.envelope() == hub.log[i].envelope());
    }
}

} // verus!
