//! The revocation blacklist: an append-only set of records, each of which
//! silences one identity for good. There is no way to take a record back.

use vstd::prelude::*;
use crate::bytes::copy_bytes;
use crate::error::TrustError;
use crate::identity::Identity;

verus! {

/// The longest reason, in bytes, that a revocation may carry.
pub const MAX_REASON_LENGTH: usize = 500;

/// The record that `revoker` has revoked `revoked_agent`.
#[derive(Debug, PartialEq, Eq)]
pub struct RevocationRecord {
    pub revoked_agent: Identity,
    pub reason: Vec<u8>,
    pub revoked_at: u64,
    pub revoker: Identity,
}

/// The mathematical content of a [`RevocationRecord`].
pub ghost struct RevocationView {
    pub revoked_agent: Seq<u8>,
    pub reason: Seq<u8>,
    pub revoked_at: u64,
    pub revoker: Seq<u8>,
}

impl View for RevocationRecord {
    type V = RevocationView;

    open spec fn view(&self) -> RevocationView {
        RevocationView {
            revoked_agent: self.revoked_agent@,
            reason: self.reason@,
            revoked_at: self.revoked_at,
            revoker: self.revoker@,
        }
    }
}

impl Clone for RevocationRecord {
    fn clone(&self) -> (copy: RevocationRecord)
        ensures
            copy@ == self@,
    {
        RevocationRecord {
            revoked_agent: self.revoked_agent.clone(),
            reason: copy_bytes(self.reason.as_slice()),
            revoked_at: self.revoked_at,
            revoker: self.revoker.clone(),
        }
    }
}

/// The views of a list of revocation records.
pub open spec fn revocation_views(v: Seq<RevocationRecord>) -> Seq<RevocationView> {
    v.map_values(|x: RevocationRecord| x@)
}

/// Whether a reason is acceptable: not empty and within its bound.
pub open spec fn reason_ok(reason: Seq<u8>) -> bool {
    0 < reason.len() <= MAX_REASON_LENGTH
}

/// The revocations that one peer currently knows, oldest first.
pub ghost struct RegistryView {
    pub records: Seq<RevocationView>,
}

impl RegistryView {
    /// The registry without any record.
    pub open spec fn empty() -> RegistryView {
        RegistryView { records: Seq::empty() }
    }

    /// Whether a record exists for `agent`.
    pub open spec fn is_revoked(self, agent: Seq<u8>) -> bool {
        exists|i: int|
            0 <= i < self.records.len() && (#[trigger] self.records[i]).revoked_agent == agent
    }

    /// The registry with one more record.
    pub open spec fn with_record(self, r: RevocationView) -> RegistryView {
        RegistryView { records: self.records.push(r) }
    }

    /// Every reason is acceptable and no identity is revoked twice.
    pub open spec fn wf(self) -> bool {
        &&& forall|i: int| 0 <= i < self.records.len() ==> reason_ok((#[trigger] self.records[i]).reason)
        &&& forall|i: int, j: int|
            0 <= i < j < self.records.len() ==> (#[trigger] self.records[i]).revoked_agent != (
            #[trigger] self.records[j]).revoked_agent
    }
}

/// The reason for which a revocation is refused, if any.
pub open spec fn revocation_refusal(reg: RegistryView, agent: Seq<u8>, reason: Seq<u8>) -> Option<
    TrustError,
> {
    if reg.is_revoked(agent) {
        Some(TrustError::AlreadyRevoked)
    } else if !reason_ok(reason) {
        Some(TrustError::InvalidReason)
    } else {
        None
    }
}

/// The revocation records that one peer currently holds.
pub struct RevocationRegistry {
    records: Vec<RevocationRecord>,
}

impl View for RevocationRegistry {
    type V = RegistryView;

    closed spec fn view(&self) -> RegistryView {
        RegistryView { records: revocation_views(self.records@) }
    }
}

impl RevocationRegistry {
    #[verifier::type_invariant]
    spec fn inv(&self) -> bool {
        self@.wf()
    }

    /// A registry without any record.
    pub fn new() -> (reg: RevocationRegistry)
        ensures
            reg@ == RegistryView::empty(),
            reg@.wf(),
    {
        let reg = RevocationRegistry { records: Vec::new() };
        assert(reg@.records =~= Seq::empty());
        reg
    }

    /// Whether `agent` has been revoked.
    pub fn is_revoked(&self, agent: &Identity) -> (found: bool)
        ensures
            found == self@.is_revoked(agent@),
            self@.wf(),
    {
        proof {
            use_type_invariant(self);
        }
        let mut i: usize = 0;
        while i < self.records.len()
            invariant
                self@.wf(),
                i <= self.records@.len(),
                forall|j: int| 0 <= j < i ==> (#[trigger] self@.records[j]).revoked_agent != agent@,
            decreases self.records@.len() - i,
        {
            if self.records[i].revoked_agent.same_as(agent) {
                assert(self@.records[i as int].revoked_agent == agent@);
                return true;
            }
            i += 1;
        }
        false
    }

    /// Records a revocation as it arrives from its revoker.
    ///
    /// An identity that is revoked already is refused first, then a reason
    /// that is empty or beyond its bound. A refused record leaves the
    /// registry as it was; an accepted one is appended to it.
    pub fn record(&mut self, record: RevocationRecord) -> (r: Result<(), TrustError>)
        ensures
            final(self)@.wf(),
            match r {
                Ok(_) => {
                    &&& revocation_refusal(old(self)@, record@.revoked_agent, record@.reason)
                        is None
                    &&& final(self)@ == old(self)@.with_record(record@)
                },
                Err(e) => {
                    &&& revocation_refusal(old(self)@, record@.revoked_agent, record@.reason)
                        == Some(e)
                    &&& final(self)@ == old(self)@
                },
            },
    {
        proof {
            use_type_invariant(&*self);
        }
        if self.is_revoked(&record.revoked_agent) {
            return Err(TrustError::AlreadyRevoked);
        }
        if record.reason.len() == 0 || record.reason.len() > MAX_REASON_LENGTH {
            return Err(TrustError::InvalidReason);
        }
        proof {
            let before = self@;
            let after = before.with_record(record@);
            assert(revocation_views(self.records@.push(record)) =~= before.records.push(record@));
            assert(after.wf()) by {
                assert forall|i: int| 0 <= i < after.records.len() implies reason_ok(
                    (#[trigger] after.records[i]).reason,
                ) by {
                    if i < before.records.len() {
                        assert(before.records[i] == after.records[i]);
                    }
                }
                assert forall|i: int, j: int| 0 <= i < j < after.records.len() implies (
                #[trigger] after.records[i]).revoked_agent != (
                #[trigger] after.records[j]).revoked_agent by {
                    assert(before.records[i] == after.records[i]);
                    if j < before.records.len() {
                        assert(before.records[j] == after.records[j]);
                    }
                }
            }
        }
        let mut records: Vec<RevocationRecord> = Vec::new();
        assert(revocation_views(records@) =~= Seq::empty());
        std::mem::swap(&mut records, &mut self.records);
        records.push(record);
        self.records = records;
        Ok(())
    }

    /// Revokes `agent` on behalf of `revoker` at the instant `now`.
    ///
    /// An identity that is revoked already is refused first, then a reason
    /// that is empty or beyond its bound. Who may revoke is for the caller
    /// to decide. A refused revocation leaves the registry as it was; an
    /// accepted one is appended to it.
    pub fn revoke(&mut self, revoker: &Identity, agent: &Identity, reason: &[u8], now: u64) -> (r:
        Result<RevocationRecord, TrustError>)
        ensures
            final(self)@.wf(),
            match r {
                Ok(rec) => {
                    &&& revocation_refusal(old(self)@, agent@, reason@) is None
                    &&& rec@ == (RevocationView {
                        revoked_agent: agent@,
                        reason: reason@,
                        revoked_at: now,
                        revoker: revoker@,
                    })
                    &&& final(self)@ == old(self)@.with_record(rec@)
                },
                Err(e) => {
                    &&& revocation_refusal(old(self)@, agent@, reason@) == Some(e)
                    &&& final(self)@ == old(self)@
                },
            },
    {
        let record = RevocationRecord {
            revoked_agent: agent.clone(),
            reason: copy_bytes(reason),
            revoked_at: now,
            revoker: revoker.clone(),
        };
        let copy = record.clone();
        match self.record(record) {
            Ok(_) => Ok(copy),
            Err(e) => Err(e),
        }
    }

    /// The registry of the records that a peer has gathered, in whatever
    /// order they arrived: the first acceptable record of each identity.
    ///
    /// Every record of the registry is one of the given records, and an
    /// identity is revoked in it exactly when one of the given records
    /// revokes it with an acceptable reason.
    pub fn from_records(records: &Vec<RevocationRecord>) -> (reg: RevocationRegistry)
        ensures
            reg@.wf(),
            forall|k: int|
                0 <= k < reg@.records.len() ==> revocation_views(records@).contains(
                    #[trigger] reg@.records[k],
                ),
            forall|agent: Seq<u8>|
                reg@.is_revoked(agent) <==> exists|i: int|
                    0 <= i < records@.len() && (#[trigger] revocation_views(records@)[i]).revoked_agent
                        == agent && reason_ok(revocation_views(records@)[i].reason),
    {
        let mut reg = RevocationRegistry::new();
        let ghost given = revocation_views(records@);
        let mut i: usize = 0;
        while i < records.len()
            invariant
                i <= records@.len(),
                given == revocation_views(records@),
                reg@.wf(),
                forall|k: int| 0 <= k < reg@.records.len() ==> exists|j: int|
                    0 <= j < i && given[j] == #[trigger] reg@.records[k],
                forall|j: int|
                    0 <= j < i && reason_ok((#[trigger] given[j]).reason) ==> reg@.is_revoked(
                        given[j].revoked_agent,
                    ),
            decreases records@.len() - i,
        {
            let ghost before = reg@;
            let record = records[i].clone();
            assert(record@ == given[i as int]);
            let _ = reg.record(record);
            proof {
                let after = reg@;
                if after != before {
                    assert(after.records[before.records.len() as int] == given[i as int]);
                }
                assert forall|k: int| 0 <= k < after.records.len() implies exists|j: int|
                    0 <= j < i + 1 && given[j] == #[trigger] after.records[k] by {
                    if k < before.records.len() {
                        assert(after.records[k] == before.records[k]);
                        let j = choose|j: int| 0 <= j < i && given[j] == before.records[k];
                        assert(given[j] == after.records[k]);
                    } else {
                        assert(given[i as int] == after.records[k]);
                    }
                }
                assert forall|j: int|
                    0 <= j < i + 1 && reason_ok((#[trigger] given[j]).reason) implies after.is_revoked(
                    given[j].revoked_agent,
                ) by {
                    if j < i {
                        let k = choose|k: int|
                            0 <= k < before.records.len() && (#[trigger] before.records[k]).revoked_agent
                                == given[j].revoked_agent;
                        assert(after.records[k] == before.records[k]);
                    } else if after == before {
                    } else {
                        assert(after.records[before.records.len() as int].revoked_agent
                            == given[j].revoked_agent);
                    }
                }
            }
            i += 1;
        }
        proof {
            let r = reg@;
            assert forall|k: int| 0 <= k < r.records.len() implies given.contains(
                #[trigger] r.records[k],
            ) by {
                let j = choose|j: int| 0 <= j < i && given[j] == r.records[k];
                assert(given[j] == r.records[k]);
            }
            assert forall|agent: Seq<u8>| r.is_revoked(agent) <==> exists|i: int|
                0 <= i < records@.len() && (#[trigger] given[i]).revoked_agent == agent
                    && reason_ok(given[i].reason) by {
                if r.is_revoked(agent) {
                    let k = choose|k: int|
                        0 <= k < r.records.len() && (#[trigger] r.records[k]).revoked_agent == agent;
                    let j = choose|j: int| 0 <= j < i && given[j] == r.records[k];
                    assert(given[j].revoked_agent == agent && reason_ok(given[j].reason));
                }
            }
        }
        reg
    }

    /// Every revocation record, oldest first.
    pub fn list(&self) -> (records: Vec<RevocationRecord>)
        ensures
            revocation_views(records@) == self@.records,
            self@.wf(),
    {
        proof {
            use_type_invariant(self);
        }
        let mut out: Vec<RevocationRecord> = Vec::new();
        let mut i: usize = 0;
        while i < self.records.len()
            invariant
                i <= self.records@.len(),
                out@.len() == i,
                revocation_views(out@) == self@.records.take(i as int),
            decreases self.records@.len() - i,
        {
            let rec = self.records[i].clone();
            proof {
                let before = revocation_views(out@);
                let after = revocation_views(out@.push(rec));
                assert(rec@ == self@.records[i as int]);
                assert forall|k: int| 0 <= k < after.len() implies after[k]
                    == self@.records.take(i + 1)[k] by {
                    if k < out@.len() {
                        assert(after[k] == before[k]);
                        assert(before[k] == self@.records.take(i as int)[k]);
                    }
                }
                assert(after =~= self@.records.take(i + 1));
            }
            out.push(rec);
            i += 1;
        }
        assert(self@.records.take(i as int) =~= self@.records);
        out
    }
}

/// Whether `agent` has been revoked, as far as `registry` knows.
pub fn is_agent_revoked(registry: &RevocationRegistry, agent: &Identity) -> (revoked: bool)
    ensures
        revoked == registry@.is_revoked(agent@),
{
    registry.is_revoked(agent)
}

} // verus!
