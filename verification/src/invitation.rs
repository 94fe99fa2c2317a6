//! Invitations: signed, time-bound credentials that bind a community to the
//! key of the hub that issued them.
//!
//! Signing itself happens outside this crate. The issuer asks
//! [`signing_payload`] for the bytes to sign and hands the signature to
//! [`InvitationIssuer::issue`].

use vstd::prelude::*;
use vstd::bytes::{spec_u64_to_le_bytes, u64_to_le_bytes};
use crate::bytes::{append_bytes, bytes_eq, copy_bytes};
use crate::envelope::{
    encode_current, opt_identity_view, write_current, CurrentEnvelope, CurrentView,
};
use crate::error::TrustError;
use crate::identity::Identity;
use crate::seqs::{lemma_filter_empty, lemma_filter_member, lemma_filter_push};

verus! {

/// The validity of an invitation whose issuer names none: seven days, in
/// microseconds.
pub const DEFAULT_VALIDITY: u64 = 604_800_000_000;

/// The bytes that the issuer signs: the community, the time of issue in
/// eight little-endian bytes, and where to meet the community. A change in
/// any of them invalidates the signature.
pub open spec fn spec_signing_payload(
    community_id: Seq<u8>,
    created_at: u64,
    transport: Seq<u8>,
) -> Seq<u8> {
    community_id + (spec_u64_to_le_bytes(created_at) + transport)
}

/// Builds the bytes that the issuer signs.
pub fn signing_payload(community_id: &[u8], created_at: u64, transport: &[u8]) -> (payload: Vec<u8>)
    ensures
        payload@ == spec_signing_payload(community_id@, created_at, transport@),
{
    let mut out = copy_bytes(community_id);
    let stamp = u64_to_le_bytes(created_at);
    append_bytes(&mut out, stamp.as_slice());
    append_bytes(&mut out, transport);
    assert(out@ =~= spec_signing_payload(community_id@, created_at, transport@));
    out
}

/// Two addresses as one run of bytes.
pub fn join_bytes(first: &[u8], second: &[u8]) -> (both: Vec<u8>)
    ensures
        both@ == first@ + second@,
{
    let mut out = copy_bytes(first);
    append_bytes(&mut out, second);
    out
}

/// An invitation as its issuer records it.
#[derive(Debug, PartialEq, Eq)]
pub struct Invitation {
    pub issuer: Identity,
    pub community_id: Vec<u8>,
    pub created_at: u64,
    pub expires_at: u64,
    pub signature: Vec<u8>,
    pub voucher: Option<Identity>,
    pub revoked: bool,
    pub signal_url: Vec<u8>,
    pub bootstrap_url: Vec<u8>,
}

/// The mathematical content of an [`Invitation`].
pub ghost struct InvitationView {
    pub issuer: Seq<u8>,
    pub community_id: Seq<u8>,
    pub created_at: u64,
    pub expires_at: u64,
    pub signature: Seq<u8>,
    pub voucher: Option<Seq<u8>>,
    pub revoked: bool,
    pub signal_url: Seq<u8>,
    pub bootstrap_url: Seq<u8>,
}

impl View for Invitation {
    type V = InvitationView;

    open spec fn view(&self) -> InvitationView {
        InvitationView {
            issuer: self.issuer@,
            community_id: self.community_id@,
            created_at: self.created_at,
            expires_at: self.expires_at,
            signature: self.signature@,
            voucher: opt_identity_view(self.voucher),
            revoked: self.revoked,
            signal_url: self.signal_url@,
            bootstrap_url: self.bootstrap_url@,
        }
    }
}

impl InvitationView {
    /// The bytes that the signature covers.
    pub open spec fn payload(self) -> Seq<u8> {
        spec_signing_payload(self.community_id, self.created_at, self.signal_url + self.bootstrap_url)
    }

    /// The envelope in which the invitation travels. The end of the
    /// validity is written only where it is not the default, so that an
    /// invitation of default validity has the six classic members.
    pub open spec fn envelope(self) -> CurrentView {
        CurrentView {
            network_seed: self.community_id,
            hub_agent_pub_key: self.issuer,
            signal_url: self.signal_url,
            bootstrap_url: self.bootstrap_url,
            timestamp: self.created_at,
            signature: self.signature,
            expires_at: if self.expires_at == self.created_at + DEFAULT_VALIDITY {
                None
            } else {
                Some(self.expires_at)
            },
            voucher: self.voucher,
        }
    }

    /// The invitation code.
    pub open spec fn code(self) -> Seq<u8> {
        encode_current(self.envelope())
    }

    /// The invitation with its one-way flag set.
    pub open spec fn withdrawn(self) -> InvitationView {
        InvitationView { revoked: true, ..self }
    }

    /// Whether two records are the same invitation, revoked or not.
    pub open spec fn same_invitation(self, other: InvitationView) -> bool {
        self.withdrawn() == other.withdrawn()
    }
}

impl Clone for Invitation {
    fn clone(&self) -> (copy: Invitation)
        ensures
            copy@ == self@,
    {
        let voucher = match &self.voucher {
            Some(v) => Some(v.clone()),
            None => None,
        };
        Invitation {
            issuer: self.issuer.clone(),
            community_id: copy_bytes(self.community_id.as_slice()),
            created_at: self.created_at,
            expires_at: self.expires_at,
            signature: copy_bytes(self.signature.as_slice()),
            voucher,
            revoked: self.revoked,
            signal_url: copy_bytes(self.signal_url.as_slice()),
            bootstrap_url: copy_bytes(self.bootstrap_url.as_slice()),
        }
    }
}

fn same_opt_identity(a: &Option<Identity>, b: &Option<Identity>) -> (same: bool)
    ensures
        same == (opt_identity_view(*a) == opt_identity_view(*b)),
{
    match (a, b) {
        (Some(x), Some(y)) => x.same_as(y),
        (None, None) => true,
        _ => false,
    }
}

impl Invitation {
    /// The envelope in which the invitation travels.
    pub fn envelope(&self) -> (e: CurrentEnvelope)
        ensures
            e@ == self@.envelope(),
    {
        let voucher = match &self.voucher {
            Some(v) => Some(v.clone()),
            None => None,
        };
        let default_end = self.created_at.checked_add(DEFAULT_VALIDITY);
        let expires_at = if default_end == Some(self.expires_at) {
            None
        } else {
            Some(self.expires_at)
        };
        CurrentEnvelope {
            network_seed: copy_bytes(self.community_id.as_slice()),
            hub_agent_pub_key: self.issuer.clone(),
            signal_url: copy_bytes(self.signal_url.as_slice()),
            bootstrap_url: copy_bytes(self.bootstrap_url.as_slice()),
            timestamp: self.created_at,
            signature: copy_bytes(self.signature.as_slice()),
            expires_at,
            voucher,
        }
    }

    /// The invitation code: the text of the envelope.
    pub fn code(&self) -> (text: Vec<u8>)
        ensures
            text@ == self@.code(),
    {
        let e = self.envelope();
        write_current(&e)
    }

    /// The bytes that the signature covers.
    pub fn payload(&self) -> (bytes: Vec<u8>)
        ensures
            bytes@ == self@.payload(),
    {
        let transport = join_bytes(self.signal_url.as_slice(), self.bootstrap_url.as_slice());
        signing_payload(self.community_id.as_slice(), self.created_at, transport.as_slice())
    }

    /// Whether both records are the same invitation, revoked or not.
    pub fn same_invitation(&self, other: &Invitation) -> (same: bool)
        ensures
            same == self@.same_invitation(other@),
    {
        self.issuer.same_as(&other.issuer) && bytes_eq(
            self.community_id.as_slice(),
            other.community_id.as_slice(),
        ) && self.created_at == other.created_at && self.expires_at == other.expires_at && bytes_eq(
            self.signature.as_slice(),
            other.signature.as_slice(),
        ) && same_opt_identity(&self.voucher, &other.voucher) && bytes_eq(
            self.signal_url.as_slice(),
            other.signal_url.as_slice(),
        ) && bytes_eq(self.bootstrap_url.as_slice(), other.bootstrap_url.as_slice())
    }
}

/// The validity that an invitation gets: the one asked for, or the default.
pub open spec fn validity_of(asked: Option<u64>) -> u64 {
    match asked {
        Some(d) => d,
        None => DEFAULT_VALIDITY,
    }
}

/// The reason for which an invitation is not issued, if any: a validity of
/// zero, or one that ends after the last instant that can be written.
pub open spec fn issue_refusal(asked: Option<u64>, now: u64) -> Option<TrustError> {
    if validity_of(asked) == 0 || now + validity_of(asked) > u64::MAX {
        Some(TrustError::InvalidValidity)
    } else {
        None
    }
}

/// The invitation that `issuer` issues at the instant `now`.
pub open spec fn spec_issued(
    issuer: Seq<u8>,
    community_id: Seq<u8>,
    validity: Option<u64>,
    voucher: Option<Seq<u8>>,
    signal_url: Seq<u8>,
    bootstrap_url: Seq<u8>,
    now: u64,
    signature: Seq<u8>,
) -> InvitationView {
    InvitationView {
        issuer,
        community_id,
        created_at: now,
        expires_at: (now + validity_of(validity)) as u64,
        signature,
        voucher,
        revoked: false,
        signal_url,
        bootstrap_url,
    }
}

/// The views of a list of invitations.
pub open spec fn invitation_views(v: Seq<Invitation>) -> Seq<InvitationView> {
    v.map_values(|x: Invitation| x@)
}

/// The log of one issuer.
pub ghost struct IssuerView {
    pub issuer: Seq<u8>,
    pub log: Seq<InvitationView>,
}

impl IssuerView {
    /// Every invitation in the log is the issuer's own and ends after it
    /// begins.
    pub open spec fn wf(self) -> bool {
        forall|i: int|
            0 <= i < self.log.len() ==> (#[trigger] self.log[i]).issuer == self.issuer
                && self.log[i].created_at < self.log[i].expires_at
    }

    /// Whether `inv` may stand in the log: it is the issuer's own and ends
    /// after it begins.
    pub open spec fn admits(self, inv: InvitationView) -> bool {
        inv.issuer == self.issuer && inv.created_at < inv.expires_at
    }

    /// The log with one more invitation.
    pub open spec fn with_invitation(self, inv: InvitationView) -> IssuerView {
        IssuerView { issuer: self.issuer, log: self.log.push(inv) }
    }

    /// The log after `inv` is revoked: every record of that invitation has
    /// its flag set and nothing else changes.
    pub open spec fn with_revoked(self, inv: InvitationView) -> IssuerView {
        IssuerView {
            issuer: self.issuer,
            log: self.log.map_values(
                |x: InvitationView|
                    if x.same_invitation(inv) {
                        x.withdrawn()
                    } else {
                        x
                    },
            ),
        }
    }

    /// Whether the log holds a revoked invitation that travels in `e`.
    pub open spec fn is_revoked(self, e: CurrentView) -> bool {
        exists|i: int|
            0 <= i < self.log.len() && (#[trigger] self.log[i]).revoked && self.log[i].envelope()
                == e
    }
}

/// A hub that issues invitations and keeps a log of them.
pub struct InvitationIssuer {
    issuer: Identity,
    log: Vec<Invitation>,
}

impl View for InvitationIssuer {
    type V = IssuerView;

    closed spec fn view(&self) -> IssuerView {
        IssuerView { issuer: self.issuer@, log: invitation_views(self.log@) }
    }
}

impl InvitationIssuer {
    #[verifier::type_invariant]
    spec fn inv(&self) -> bool {
        self@.wf()
    }

    /// An issuer without any invitation.
    pub fn new(issuer: Identity) -> (hub: InvitationIssuer)
        ensures
            hub@ == (IssuerView { issuer: issuer@, log: Seq::empty() }),
            hub@.wf(),
    {
        let hub = InvitationIssuer { issuer, log: Vec::new() };
        assert(hub@.log =~= Seq::empty());
        hub
    }

    /// The issuer with the log that was kept for it: the records that are
    /// its own and end after they begin, in their order.
    pub fn from_log(issuer: Identity, records: &Vec<Invitation>) -> (hub: InvitationIssuer)
        ensures
            hub@.wf(),
            hub@.issuer == issuer@,
            hub@.log == invitation_views(records@).filter(
                |x: InvitationView| x.issuer == issuer@ && x.created_at < x.expires_at,
            ),
    {
        let ghost given = invitation_views(records@);
        let ghost own = |x: InvitationView| x.issuer == issuer@ && x.created_at < x.expires_at;
        let mut log: Vec<Invitation> = Vec::new();
        let mut i: usize = 0;
        proof {
            lemma_filter_empty(own);
            assert(given.take(0) =~= Seq::empty());
            assert(invitation_views(log@) =~= Seq::empty());
        }
        while i < records.len()
            invariant
                i <= records@.len(),
                given == invitation_views(records@),
                own == (|x: InvitationView| x.issuer == issuer@ && x.created_at < x.expires_at),
                invitation_views(log@) == given.take(i as int).filter(own),
            decreases records@.len() - i,
        {
            proof {
                let prefix = given.take(i as int);
                assert(given.take(i + 1) =~= prefix.push(given[i as int]));
                lemma_filter_push(prefix, given[i as int], own);
            }
            if records[i].issuer.same_as(&issuer) && records[i].created_at < records[i].expires_at {
                let record = records[i].clone();
                proof {
                    assert(invitation_views(log@.push(record)) =~= invitation_views(log@).push(
                        given[i as int],
                    ));
                }
                log.push(record);
            }
            i += 1;
        }
        proof {
            assert(given.take(i as int) =~= given);
            let kept = given.filter(own);
            assert forall|k: int| 0 <= k < kept.len() implies (#[trigger] kept[k]).issuer == issuer@
                && kept[k].created_at < kept[k].expires_at by {
                lemma_filter_member(given, own, k);
            }
        }
        InvitationIssuer { issuer, log }
    }

    /// Issues an invitation to `community_id` and records it.
    ///
    /// `validity` is the time, in microseconds from `now`, during which the
    /// invitation can be used; where none is given it is seven days.
    /// `signature` is the issuer's signature over
    /// [`signing_payload`] of the community, `now` and the two addresses.
    /// An invitation that is not issued leaves the log as it was.
    pub fn issue(
        &mut self,
        community_id: &[u8],
        validity: Option<u64>,
        voucher: Option<Identity>,
        signal_url: &[u8],
        bootstrap_url: &[u8],
        now: u64,
        signature: Vec<u8>,
    ) -> (r: Result<Invitation, TrustError>)
        ensures
            final(self)@.wf(),
            match r {
                Ok(inv) => {
                    &&& issue_refusal(validity, now) is None
                    &&& inv@ == spec_issued(
                        old(self)@.issuer,
                        community_id@,
                        validity,
                        opt_identity_view(voucher),
                        signal_url@,
                        bootstrap_url@,
                        now,
                        signature@,
                    )
                    &&& final(self)@ == old(self)@.with_invitation(inv@)
                },
                Err(e) => {
                    &&& issue_refusal(validity, now) == Some(e)
                    &&& final(self)@ == old(self)@
                },
            },
    {
        proof {
            use_type_invariant(&*self);
        }
        let duration = match validity {
            Some(d) => d,
            None => DEFAULT_VALIDITY,
        };
        if duration == 0 {
            return Err(TrustError::InvalidValidity);
        }
        let expires_at = match now.checked_add(duration) {
            Some(t) => t,
            None => {
                return Err(TrustError::InvalidValidity);
            },
        };
        let invitation = Invitation {
            issuer: self.issuer.clone(),
            community_id: copy_bytes(community_id),
            created_at: now,
            expires_at,
            signature,
            voucher,
            revoked: false,
            signal_url: copy_bytes(signal_url),
            bootstrap_url: copy_bytes(bootstrap_url),
        };
        let copy = invitation.clone();
        proof {
            let before = self@;
            let after = before.with_invitation(invitation@);
            assert(invitation_views(self.log@.push(invitation)) =~= before.log.push(invitation@));
            assert forall|i: int| 0 <= i < after.log.len() implies (#[trigger] after.log[i]).issuer
                == after.issuer && after.log[i].created_at < after.log[i].expires_at by {
                if i < before.log.len() {
                    assert(after.log[i] == before.log[i]);
                }
            }
        }
        let mut log: Vec<Invitation> = Vec::new();
        assert(invitation_views(log@) =~= Seq::empty());
        std::mem::swap(&mut log, &mut self.log);
        log.push(invitation);
        self.log = log;
        Ok(copy)
    }

    /// Withdraws an invitation: every record of it in the log is marked as
    /// revoked, for good. Whoever has joined through it stays admitted.
    pub fn revoke(&mut self, invitation: &Invitation)
        ensures
            final(self)@.wf(),
            final(self)@ == old(self)@.with_revoked(invitation@),
    {
        proof {
            use_type_invariant(&*self);
        }
        let ghost before = self@;
        let ghost mark = |x: InvitationView|
            if x.same_invitation(invitation@) {
                x.withdrawn()
            } else {
                x
            };
        let mut old_log: Vec<Invitation> = Vec::new();
        assert(invitation_views(old_log@) =~= Seq::empty());
        std::mem::swap(&mut old_log, &mut self.log);
        let mut new_log: Vec<Invitation> = Vec::new();
        let mut i: usize = 0;
        while i < old_log.len()
            invariant
                i <= old_log@.len(),
                new_log@.len() == i,
                invitation_views(old_log@) == before.log,
                before.wf(),
                mark == (|x: InvitationView|
                    if x.same_invitation(invitation@) {
                        x.withdrawn()
                    } else {
                        x
                    }),
                forall|k: int| 0 <= k < i ==> (#[trigger] new_log@[k])@ == mark(before.log[k]),
            decreases old_log@.len() - i,
        {
            let mut record = old_log[i].clone();
            assert(record@ == before.log[i as int]);
            if record.same_invitation(invitation) {
                record.revoked = true;
            }
            new_log.push(record);
            i += 1;
        }
        proof {
            let after = IssuerView { issuer: before.issuer, log: invitation_views(new_log@) };
            assert(after.log =~= before.log.map_values(mark));
            assert forall|k: int| 0 <= k < after.log.len() implies (#[trigger] after.log[k]).issuer
                == after.issuer && after.log[k].created_at < after.log[k].expires_at by {
                assert(after.log[k] == mark(before.log[k]));
            }
        }
        self.log = new_log;
    }

    /// Every invitation of the log, oldest first.
    pub fn list(&self) -> (log: Vec<Invitation>)
        ensures
            invitation_views(log@) == self@.log,
            self@.wf(),
    {
        proof {
            use_type_invariant(self);
        }
        let mut out: Vec<Invitation> = Vec::new();
        let mut i: usize = 0;
        while i < self.log.len()
            invariant
                i <= self.log@.len(),
                out@.len() == i,
                forall|k: int| 0 <= k < i ==> (#[trigger] out@[k])@ == self@.log[k],
            decreases self.log@.len() - i,
        {
            let record = self.log[i].clone();
            assert(record@ == self@.log[i as int]);
            out.push(record);
            i += 1;
        }
        assert(invitation_views(out@) =~= self@.log);
        out
    }

    /// Whether the invitation that travels in `envelope` has been revoked.
    pub fn is_revoked(&self, envelope: &CurrentEnvelope) -> (revoked: bool)
        ensures
            revoked == self@.is_revoked(envelope@),
    {
        let mut i: usize = 0;
        while i < self.log.len()
            invariant
                i <= self.log@.len(),
                forall|k: int|
                    0 <= k < i ==> !((#[trigger] self@.log[k]).revoked && self@.log[k].envelope()
                        == envelope@),
            decreases self.log@.len() - i,
        {
            if self.log[i].revoked {
                let e = self.log[i].envelope();
                assert(e@ == self@.log[i as int].envelope());
                if same_envelope(&e, envelope) {
                    return true;
                }
            }
            i += 1;
        }
        false
    }
}

fn same_opt_u64(a: Option<u64>, b: Option<u64>) -> (same: bool)
    ensures
        same == (a == b),
{
    match (a, b) {
        (Some(x), Some(y)) => x == y,
        (None, None) => true,
        _ => false,
    }
}

fn same_envelope(a: &CurrentEnvelope, b: &CurrentEnvelope) -> (same: bool)
    ensures
        same == (a@ == b@),
{
    bytes_eq(a.network_seed.as_slice(), b.network_seed.as_slice()) && a.hub_agent_pub_key.same_as(
        &b.hub_agent_pub_key,
    ) && bytes_eq(a.signal_url.as_slice(), b.signal_url.as_slice()) && bytes_eq(
        a.bootstrap_url.as_slice(),
        b.bootstrap_url.as_slice(),
    ) && a.timestamp == b.timestamp && bytes_eq(a.signature.as_slice(), b.signature.as_slice())
        && same_opt_u64(a.expires_at, b.expires_at) && same_opt_identity(&a.voucher, &b.voucher)
}

} // verus!
