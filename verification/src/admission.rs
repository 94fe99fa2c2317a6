//! Admission: the one check that a new identity passes when it joins a
//! community, and the cheap check of an invitation code before that.
//!
//! Admission decides everything but the signature, which a key store outside
//! this crate verifies. So admission takes two steps: [`AdmissionGate::begin`]
//! decides at once or says which signature to verify over which bytes, and
//! [`conclude`] turns the answer into the verdict.

use vstd::prelude::*;
use vstd::bytes::{spec_u64_to_le_bytes, u64_to_le_bytes};
use crate::bytes::{append_bytes, bytes_eq, copy_bytes};
use crate::envelope;
use crate::envelope::{opt_identity_view, CurrentView, Envelope, EnvelopeView, LegacyView};
use crate::error::TrustError;
use crate::identity::Identity;
use crate::invitation::{join_bytes, signing_payload, spec_signing_payload, DEFAULT_VALIDITY};

verus! {

/// What a community is set up with.
#[derive(Debug, PartialEq, Eq)]
pub struct CommunityConfig {
    /// The name that every invitation must bind.
    pub community_id: Vec<u8>,
    /// Whether joining takes a proof. An open community admits everybody.
    pub private: bool,
    /// Whether a proof must name a voucher.
    pub require_vouching: bool,
    /// The founder, who is admitted without any proof.
    pub bootstrap_identity: Option<Identity>,
    /// The key that verifies legacy envelopes and bare signed proofs.
    pub hub_public_key: Option<Identity>,
}

/// The mathematical content of a [`CommunityConfig`].
pub ghost struct ConfigView {
    pub community_id: Seq<u8>,
    pub private: bool,
    pub require_vouching: bool,
    pub bootstrap_identity: Option<Seq<u8>>,
    pub hub_public_key: Option<Seq<u8>>,
}

impl View for CommunityConfig {
    type V = ConfigView;

    open spec fn view(&self) -> ConfigView {
        ConfigView {
            community_id: self.community_id@,
            private: self.private,
            require_vouching: self.require_vouching,
            bootstrap_identity: opt_identity_view(self.bootstrap_identity),
            hub_public_key: opt_identity_view(self.hub_public_key),
        }
    }
}

/// A signature to verify: `signature` must be the signature of `key` over
/// `payload`.
#[derive(Debug, PartialEq, Eq)]
pub struct SignatureCheck {
    pub key: Identity,
    pub payload: Vec<u8>,
    pub signature: Vec<u8>,
}

/// The mathematical content of a [`SignatureCheck`].
pub ghost struct SignatureCheckView {
    pub key: Seq<u8>,
    pub payload: Seq<u8>,
    pub signature: Seq<u8>,
}

impl View for SignatureCheck {
    type V = SignatureCheckView;

    open spec fn view(&self) -> SignatureCheckView {
        SignatureCheckView { key: self.key@, payload: self.payload@, signature: self.signature@ }
    }
}

/// What the format of an invitation code tells.
#[derive(Debug, PartialEq, Eq)]
pub enum FormatVerdict {
    /// The code is not valid, for the reason given.
    Invalid(TrustError),
    /// The code is a legacy envelope and no key is set up to verify it: it
    /// is trusted on first use, without any check.
    Unchecked,
    /// The code is valid if and only if this signature verifies.
    VerifySignature(SignatureCheck),
}

/// The mathematical content of a [`FormatVerdict`].
pub ghost enum FormatVerdictView {
    Invalid(TrustError),
    Unchecked,
    VerifySignature(SignatureCheckView),
}

impl View for FormatVerdict {
    type V = FormatVerdictView;

    open spec fn view(&self) -> FormatVerdictView {
        match self {
            FormatVerdict::Invalid(e) => FormatVerdictView::Invalid(*e),
            FormatVerdict::Unchecked => FormatVerdictView::Unchecked,
            FormatVerdict::VerifySignature(c) => FormatVerdictView::VerifySignature(c@),
        }
    }
}

impl FormatVerdictView {
    /// Whether the code is valid, given what the verification of the
    /// signature gave.
    pub open spec fn holds(self, signature_valid: bool) -> bool {
        match self {
            FormatVerdictView::Invalid(_) => false,
            FormatVerdictView::Unchecked => true,
            FormatVerdictView::VerifySignature(_) => signature_valid,
        }
    }
}

/// How an identity was admitted.
#[derive(Debug, PartialEq, Eq)]
pub enum Admission {
    /// The community is open.
    Open,
    /// The identity is the founder.
    Bootstrap,
    /// A legacy envelope was presented and no key is set up to verify it.
    TrustOnFirstUse,
    /// A proof was presented and found valid.
    Invited { voucher: Option<Identity> },
}

/// The mathematical content of an [`Admission`].
pub ghost enum AdmissionView {
    Open,
    Bootstrap,
    TrustOnFirstUse,
    Invited { voucher: Option<Seq<u8>> },
}

impl View for Admission {
    type V = AdmissionView;

    open spec fn view(&self) -> AdmissionView {
        match self {
            Admission::Open => AdmissionView::Open,
            Admission::Bootstrap => AdmissionView::Bootstrap,
            Admission::TrustOnFirstUse => AdmissionView::TrustOnFirstUse,
            Admission::Invited { voucher } => AdmissionView::Invited {
                voucher: opt_identity_view(*voucher),
            },
        }
    }
}

/// An admission that waits for the verification of a signature.
#[derive(Debug, PartialEq, Eq)]
pub struct PendingAdmission {
    pub check: SignatureCheck,
    pub voucher: Option<Identity>,
    pub require_vouching: bool,
}

/// The mathematical content of a [`PendingAdmission`].
pub ghost struct PendingView {
    pub check: SignatureCheckView,
    pub voucher: Option<Seq<u8>>,
    pub require_vouching: bool,
}

impl View for PendingAdmission {
    type V = PendingView;

    open spec fn view(&self) -> PendingView {
        PendingView {
            check: self.check@,
            voucher: opt_identity_view(self.voucher),
            require_vouching: self.require_vouching,
        }
    }
}

/// What admission answers when a proof is presented.
#[derive(Debug, PartialEq, Eq)]
pub enum AdmissionStep {
    Admitted(Admission),
    Rejected(TrustError),
    VerifySignature(PendingAdmission),
}

/// The mathematical content of an [`AdmissionStep`].
pub ghost enum AdmissionStepView {
    Admitted(AdmissionView),
    Rejected(TrustError),
    VerifySignature(PendingView),
}

impl View for AdmissionStep {
    type V = AdmissionStepView;

    open spec fn view(&self) -> AdmissionStepView {
        match self {
            AdmissionStep::Admitted(a) => AdmissionStepView::Admitted(a@),
            AdmissionStep::Rejected(e) => AdmissionStepView::Rejected(*e),
            AdmissionStep::VerifySignature(p) => AdmissionStepView::VerifySignature(p@),
        }
    }
}

/// The last instant of the fixed validity window that begins at
/// `timestamp`.
pub open spec fn window_end(timestamp: u64) -> int {
    timestamp + DEFAULT_VALIDITY
}

/// The last instant at which a current envelope can be used: the one it
/// names, or the end of the fixed window.
pub open spec fn current_expiry(e: CurrentView) -> int {
    match e.expires_at {
        Some(x) => x as int,
        None => window_end(e.timestamp),
    }
}

/// The bytes that the signature of a current envelope covers.
pub open spec fn current_payload(e: CurrentView) -> Seq<u8> {
    spec_signing_payload(e.network_seed, e.timestamp, e.signal_url + e.bootstrap_url)
}

/// The bytes that the signature of a legacy envelope covers.
pub open spec fn legacy_payload(e: LegacyView) -> Seq<u8> {
    spec_signing_payload(e.community_id, e.timestamp, e.hub_address)
}

/// The bytes that the signature of a bare proof covers: the joining
/// identity and the time of signing in eight little-endian bytes.
pub open spec fn proof_payload(joiner: Seq<u8>, timestamp: u64) -> Seq<u8> {
    joiner + spec_u64_to_le_bytes(timestamp)
}

/// The checks on an invitation, in their order: the community first, then
/// the expiry, then the signature.
pub open spec fn checked(
    config: ConfigView,
    community_id: Seq<u8>,
    expiry: int,
    now: u64,
    check: SignatureCheckView,
) -> FormatVerdictView {
    if community_id != config.community_id {
        FormatVerdictView::Invalid(TrustError::WrongCommunity)
    } else if now > expiry {
        FormatVerdictView::Invalid(TrustError::InvitationExpired)
    } else {
        FormatVerdictView::VerifySignature(check)
    }
}

/// What the format of an envelope tells at the instant `now`.
///
/// A current envelope is verified against the key it names. A legacy
/// envelope is verified against the key that the community is set up with;
/// where there is none it is not checked at all. A bare signed proof is no
/// invitation code.
pub open spec fn spec_format_verdict(config: ConfigView, env: EnvelopeView, now: u64) -> FormatVerdictView {
    match env {
        EnvelopeView::Current(e) => checked(
            config,
            e.network_seed,
            current_expiry(e),
            now,
            SignatureCheckView {
                key: e.hub_agent_pub_key,
                payload: current_payload(e),
                signature: e.signature,
            },
        ),
        EnvelopeView::Legacy(e) => match config.hub_public_key {
            Some(key) => checked(
                config,
                e.community_id,
                window_end(e.timestamp),
                now,
                SignatureCheckView { key, payload: legacy_payload(e), signature: e.signature },
            ),
            None => FormatVerdictView::Unchecked,
        },
        EnvelopeView::Proof(_) => FormatVerdictView::Invalid(TrustError::MalformedInvitation),
    }
}

/// What the format of an invitation code tells at the instant `now`.
pub open spec fn spec_validate_format(config: ConfigView, code: Seq<u8>, now: u64) -> FormatVerdictView {
    match envelope::spec_decode(code) {
        Some(env) => spec_format_verdict(config, env, now),
        None => FormatVerdictView::Invalid(TrustError::MalformedInvitation),
    }
}

/// The voucher that an envelope names.
pub open spec fn voucher_of(env: EnvelopeView) -> Option<Seq<u8>> {
    match env {
        EnvelopeView::Current(e) => e.voucher,
        EnvelopeView::Legacy(_) => None,
        EnvelopeView::Proof(p) => p.voucher,
    }
}

/// What admission answers to an envelope that `joiner` presents.
pub open spec fn spec_examine(config: ConfigView, joiner: Seq<u8>, env: EnvelopeView, now: u64) -> AdmissionStepView {
    match env {
        EnvelopeView::Proof(p) => {
            if now > window_end(p.timestamp) {
                AdmissionStepView::Rejected(TrustError::InvitationExpired)
            } else {
                match config.hub_public_key {
                    Some(key) => AdmissionStepView::VerifySignature(
                        PendingView {
                            check: SignatureCheckView {
                                key,
                                payload: proof_payload(joiner, p.timestamp),
                                signature: p.signature,
                            },
                            voucher: p.voucher,
                            require_vouching: config.require_vouching,
                        },
                    ),
                    None => AdmissionStepView::Rejected(TrustError::InvalidSignature),
                }
            }
        },
        _ => match spec_format_verdict(config, env, now) {
            FormatVerdictView::Invalid(e) => AdmissionStepView::Rejected(e),
            FormatVerdictView::Unchecked => {
                if config.require_vouching {
                    AdmissionStepView::Rejected(TrustError::VoucherRequired)
                } else {
                    AdmissionStepView::Admitted(AdmissionView::TrustOnFirstUse)
                }
            },
            FormatVerdictView::VerifySignature(check) => AdmissionStepView::VerifySignature(
                PendingView {
                    check,
                    voucher: voucher_of(env),
                    require_vouching: config.require_vouching,
                },
            ),
        },
    }
}

/// What admission answers when `joiner` presents `membrane_proof` at the
/// instant `now`.
///
/// An open community admits everybody, and the founder is admitted to his
/// own community; nobody else passes without a proof that reads as an
/// envelope.
pub open spec fn spec_begin(
    config: ConfigView,
    joiner: Seq<u8>,
    membrane_proof: Option<Seq<u8>>,
    now: u64,
) -> AdmissionStepView {
    if !config.private {
        AdmissionStepView::Admitted(AdmissionView::Open)
    } else if config.bootstrap_identity == Some(joiner) {
        AdmissionStepView::Admitted(AdmissionView::Bootstrap)
    } else {
        match membrane_proof {
            None => AdmissionStepView::Rejected(TrustError::MissingInvitation),
            Some(bytes) => match envelope::spec_decode(bytes) {
                None => AdmissionStepView::Rejected(TrustError::MalformedInvitation),
                Some(env) => spec_examine(config, joiner, env, now),
            },
        }
    }
}

/// The verdict on a pending admission: a signature that does not verify is
/// refused first, then an invitation that its issuer has revoked, then a
/// missing voucher where the community demands one.
pub open spec fn spec_conclude(pending: PendingView, signature_valid: bool, revoked: bool) -> Result<
    AdmissionView,
    TrustError,
> {
    if !signature_valid {
        Err(TrustError::InvalidSignature)
    } else if revoked {
        Err(TrustError::InvitationRevoked)
    } else if pending.require_vouching && pending.voucher is None {
        Err(TrustError::VoucherRequired)
    } else {
        Ok(AdmissionView::Invited { voucher: pending.voucher })
    }
}

/// The verdict on an admission, given what the verification of the
/// signature and the look-up of the invitation gave where they were asked
/// for.
pub open spec fn spec_admit(
    config: ConfigView,
    joiner: Seq<u8>,
    membrane_proof: Option<Seq<u8>>,
    now: u64,
    signature_valid: bool,
    revoked: bool,
) -> Result<AdmissionView, TrustError> {
    match spec_begin(config, joiner, membrane_proof, now) {
        AdmissionStepView::Admitted(a) => Ok(a),
        AdmissionStepView::Rejected(e) => Err(e),
        AdmissionStepView::VerifySignature(p) => spec_conclude(p, signature_valid, revoked),
    }
}

fn clone_opt_identity(id: &Option<Identity>) -> (copy: Option<Identity>)
    ensures
        opt_identity_view(copy) == opt_identity_view(*id),
{
    match id {
        Some(i) => Some(i.clone()),
        None => None,
    }
}

/// Whether `now` lies after the fixed window that begins at `timestamp`.
fn after_window(timestamp: u64, now: u64) -> (late: bool)
    ensures
        late == (now > window_end(timestamp)),
{
    match timestamp.checked_add(DEFAULT_VALIDITY) {
        Some(end) => now > end,
        None => false,
    }
}

fn run_checks(
    config: &CommunityConfig,
    community_id: &[u8],
    late: bool,
    check: SignatureCheck,
    Ghost(expiry): Ghost<int>,
    Ghost(now): Ghost<u64>,
) -> (verdict: FormatVerdict)
    requires
        late == (now > expiry),
    ensures
        verdict@ == checked(config@, community_id@, expiry, now, check@),
{
    if !bytes_eq(community_id, config.community_id.as_slice()) {
        FormatVerdict::Invalid(TrustError::WrongCommunity)
    } else if late {
        FormatVerdict::Invalid(TrustError::InvitationExpired)
    } else {
        FormatVerdict::VerifySignature(check)
    }
}

/// What the format of an envelope tells at the instant `now`.
pub fn format_verdict(config: &CommunityConfig, env: &Envelope, now: u64) -> (verdict: FormatVerdict)
    ensures
        verdict@ == spec_format_verdict(config@, env@, now),
{
    match env {
        Envelope::Current(e) => {
            let late = match e.expires_at {
                Some(end) => now > end,
                None => after_window(e.timestamp, now),
            };
            let transport = join_bytes(e.signal_url.as_slice(), e.bootstrap_url.as_slice());
            let check = SignatureCheck {
                key: e.hub_agent_pub_key.clone(),
                payload: signing_payload(
                    e.network_seed.as_slice(),
                    e.timestamp,
                    transport.as_slice(),
                ),
                signature: copy_bytes(e.signature.as_slice()),
            };
            run_checks(
                config,
                e.network_seed.as_slice(),
                late,
                check,
                Ghost(current_expiry(e@)),
                Ghost(now),
            )
        },
        Envelope::Legacy(e) => match &config.hub_public_key {
            Some(key) => {
                let late = after_window(e.timestamp, now);
                let check = SignatureCheck {
                    key: key.clone(),
                    payload: signing_payload(
                        e.community_id.as_slice(),
                        e.timestamp,
                        e.hub_address.as_slice(),
                    ),
                    signature: copy_bytes(e.signature.as_slice()),
                };
                run_checks(
                    config,
                    e.community_id.as_slice(),
                    late,
                    check,
                    Ghost(window_end(e.timestamp)),
                    Ghost(now),
                )
            },
            None => FormatVerdict::Unchecked,
        },
        Envelope::Proof(_) => FormatVerdict::Invalid(TrustError::MalformedInvitation),
    }
}

impl FormatVerdict {
    /// Whether the code is valid, given what the verification of the
    /// signature gave. Where no signature was to be verified the answer
    /// does not depend on it.
    pub fn holds(&self, signature_valid: bool) -> (valid: bool)
        ensures
            valid == self@.holds(signature_valid),
    {
        match self {
            FormatVerdict::Invalid(_) => false,
            FormatVerdict::Unchecked => true,
            FormatVerdict::VerifySignature(_) => signature_valid,
        }
    }
}

/// The admission check of one community.
pub struct AdmissionGate {
    pub config: CommunityConfig,
}

impl AdmissionGate {
    /// The admission check of the community that is set up with `config`.
    pub fn new(config: CommunityConfig) -> (gate: AdmissionGate)
        ensures
            gate.config == config,
    {
        AdmissionGate { config }
    }

    /// Checks an invitation code without consuming it: the community it
    /// binds, its expiry at the instant `now`, and which signature remains to
    /// be verified. Whether the issuer has revoked the invitation is not
    /// asked here.
    pub fn validate_format(&self, code: &[u8], now: u64) -> (verdict: FormatVerdict)
        ensures
            verdict@ == spec_validate_format(self.config@, code@, now),
    {
        match envelope::decode(code) {
            Some(env) => format_verdict(&self.config, &env, now),
            None => FormatVerdict::Invalid(TrustError::MalformedInvitation),
        }
    }

    /// Judges an envelope that `joiner` presents.
    pub fn examine(&self, joiner: &Identity, env: &Envelope, now: u64) -> (step: AdmissionStep)
        ensures
            step@ == spec_examine(self.config@, joiner@, env@, now),
    {
        match env {
            Envelope::Proof(p) => {
                if after_window(p.timestamp, now) {
                    return AdmissionStep::Rejected(TrustError::InvitationExpired);
                }
                match &self.config.hub_public_key {
                    Some(key) => {
                        let mut payload = copy_bytes(joiner.as_bytes());
                        let stamp = u64_to_le_bytes(p.timestamp);
                        append_bytes(&mut payload, stamp.as_slice());
                        AdmissionStep::VerifySignature(
                            PendingAdmission {
                                check: SignatureCheck {
                                    key: key.clone(),
                                    payload,
                                    signature: copy_bytes(p.signature.as_slice()),
                                },
                                voucher: clone_opt_identity(&p.voucher),
                                require_vouching: self.config.require_vouching,
                            },
                        )
                    },
                    None => AdmissionStep::Rejected(TrustError::InvalidSignature),
                }
            },
            _ => {
                let voucher = match env {
                    Envelope::Current(e) => clone_opt_identity(&e.voucher),
                    _ => None,
                };
                match format_verdict(&self.config, env, now) {
                    FormatVerdict::Invalid(e) => AdmissionStep::Rejected(e),
                    FormatVerdict::Unchecked => {
                        if self.config.require_vouching {
                            AdmissionStep::Rejected(TrustError::VoucherRequired)
                        } else {
                            AdmissionStep::Admitted(Admission::TrustOnFirstUse)
                        }
                    },
                    FormatVerdict::VerifySignature(check) => AdmissionStep::VerifySignature(
                        PendingAdmission {
                            check,
                            voucher,
                            require_vouching: self.config.require_vouching,
                        },
                    ),
                }
            },
        }
    }

    /// The first step of an admission: `joiner` asks to join at the instant
    /// `now` and presents `membrane_proof`, or nothing.
    pub fn begin(&self, joiner: &Identity, membrane_proof: Option<&[u8]>, now: u64) -> (step:
        AdmissionStep)
        ensures
            step@ == spec_begin(
                self.config@,
                joiner@,
                match membrane_proof {
                    Some(b) => Some(b@),
                    None => None,
                },
                now,
            ),
    {
        if !self.config.private {
            return AdmissionStep::Admitted(Admission::Open);
        }
        if let Some(founder) = &self.config.bootstrap_identity {
            if founder.same_as(joiner) {
                return AdmissionStep::Admitted(Admission::Bootstrap);
            }
        }
        let bytes = match membrane_proof {
            Some(b) => b,
            None => {
                return AdmissionStep::Rejected(TrustError::MissingInvitation);
            },
        };
        match envelope::decode(bytes) {
            Some(env) => self.examine(joiner, &env, now),
            None => AdmissionStep::Rejected(TrustError::MalformedInvitation),
        }
    }
}

/// The last step of an admission: the verdict on `pending`, given whether
/// its signature verified and whether the issuer has revoked the
/// invitation.
pub fn conclude(pending: PendingAdmission, signature_valid: bool, revoked: bool) -> (verdict: Result<
    Admission,
    TrustError,
>)
    ensures
        match verdict {
            Ok(a) => spec_conclude(pending@, signature_valid, revoked) == Ok::<
                AdmissionView,
                TrustError,
            >(a@),
            Err(e) => spec_conclude(pending@, signature_valid, revoked) == Err::<
                AdmissionView,
                TrustError,
            >(e),
        },
{
    if !signature_valid {
        return Err(TrustError::InvalidSignature);
    }
    if revoked {
        return Err(TrustError::InvitationRevoked);
    }
    if pending.require_vouching && pending.voucher.is_none() {
        return Err(TrustError::VoucherRequired);
    }
    Ok(Admission::Invited { voucher: pending.voucher })
}

} // verus!
