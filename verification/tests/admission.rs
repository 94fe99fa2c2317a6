use ourblock_trust::admission::{
    conclude, format_verdict, Admission, AdmissionGate, AdmissionStep, CommunityConfig,
    FormatVerdict, PendingAdmission, SignatureCheck,
};
use ourblock_trust::envelope::{encode, write_legacy, write_proof, Envelope, LegacyEnvelope, SignedProof};
use ourblock_trust::error::TrustError;
use ourblock_trust::identity::Identity;
use ourblock_trust::invitation::{join_bytes, signing_payload, Invitation, InvitationIssuer, DEFAULT_VALIDITY};

fn id(name: &str) -> Identity {
    Identity::new(name.as_bytes().to_vec())
}

const NOW: u64 = 1_700_000_000_000_000;
const SEVEN_DAYS: u64 = 604_800_000_000;

fn config(community: &str) -> CommunityConfig {
    CommunityConfig {
        community_id: community.as_bytes().to_vec(),
        private: true,
        require_vouching: false,
        bootstrap_identity: Some(id("founder")),
        hub_public_key: Some(id("K")),
    }
}

fn invitation(validity: Option<u64>, voucher: Option<Identity>) -> Invitation {
    let mut hub = InvitationIssuer::new(id("K"));
    hub.issue(b"blockA", validity, voucher, b"wss://s", b"https://b", NOW, b"signed-by-K".to_vec())
        .unwrap()
}

fn expected_check(inv: &Invitation) -> SignatureCheck {
    let payload = signing_payload(b"blockA", NOW, &join_bytes(b"wss://s", b"https://b"));
    assert_eq!(payload, inv.payload());
    SignatureCheck { key: id("K"), payload, signature: b"signed-by-K".to_vec() }
}

#[test]
fn issued_code_is_valid_inside_its_window() {
    let gate = AdmissionGate::new(config("blockA"));
    let inv = invitation(None, None);
    let code = inv.code();
    for now in [NOW, NOW + 1, NOW + SEVEN_DAYS - 1, NOW + SEVEN_DAYS] {
        let verdict = gate.validate_format(&code, now);
        assert_eq!(verdict, FormatVerdict::VerifySignature(expected_check(&inv)));
        assert!(verdict.holds(true));
        assert!(!verdict.holds(false));
    }
    for now in [NOW + SEVEN_DAYS + 1, u64::MAX] {
        let verdict = gate.validate_format(&code, now);
        assert_eq!(verdict, FormatVerdict::Invalid(TrustError::InvitationExpired));
        assert!(!verdict.holds(true));
    }
}

#[test]
fn issued_code_with_its_own_validity() {
    let gate = AdmissionGate::new(config("blockA"));
    let inv = invitation(Some(10), None);
    let code = inv.code();
    assert!(gate.validate_format(&code, NOW + 10).holds(true));
    assert_eq!(
        gate.validate_format(&code, NOW + 11),
        FormatVerdict::Invalid(TrustError::InvitationExpired)
    );
    let long = invitation(Some(2 * SEVEN_DAYS), None);
    assert!(gate.validate_format(&long.code(), NOW + 2 * SEVEN_DAYS).holds(true));
}

#[test]
fn wrong_community_comes_before_expiry() {
    let gate = AdmissionGate::new(config("blockB"));
    let code = invitation(None, None).code();
    assert_eq!(gate.validate_format(&code, NOW), FormatVerdict::Invalid(TrustError::WrongCommunity));
    assert_eq!(
        gate.validate_format(&code, u64::MAX),
        FormatVerdict::Invalid(TrustError::WrongCommunity)
    );
}

#[test]
fn changed_community_or_signature_is_never_simply_valid() {
    let gate = AdmissionGate::new(config("blockA"));
    let inv = invitation(None, None);
    let mut e = inv.envelope();
    e.network_seed[0] ^= 0x20;
    let verdict = gate.validate_format(&encode(&Envelope::Current(e)), NOW);
    assert_eq!(verdict, FormatVerdict::Invalid(TrustError::WrongCommunity));
    let mut e = inv.envelope();
    e.signature[3] ^= 1;
    let verdict = gate.validate_format(&encode(&Envelope::Current(e)), NOW);
    let mut check = expected_check(&inv);
    check.signature[3] ^= 1;
    assert_eq!(verdict, FormatVerdict::VerifySignature(check));
    assert!(!verdict.holds(false));
}

#[test]
fn garbage_is_no_invitation_code() {
    let gate = AdmissionGate::new(config("blockA"));
    for code in [&b""[..], b"hello", b"OURBLOCK_V9:abc", b"OURBLOCK_V2:!!!"] {
        assert_eq!(
            gate.validate_format(code, NOW),
            FormatVerdict::Invalid(TrustError::MalformedInvitation)
        );
    }
    let bare = write_proof(&SignedProof { signature: vec![1], timestamp: NOW, voucher: None });
    assert_eq!(
        gate.validate_format(&bare, NOW),
        FormatVerdict::Invalid(TrustError::MalformedInvitation)
    );
}

#[test]
fn open_community_admits_everybody() {
    let mut c = config("blockA");
    c.private = false;
    c.require_vouching = true;
    let gate = AdmissionGate::new(c);
    assert_eq!(gate.begin(&id("anyone"), None, NOW), AdmissionStep::Admitted(Admission::Open));
    assert_eq!(
        gate.begin(&id("anyone"), Some(b"garbage"), NOW),
        AdmissionStep::Admitted(Admission::Open)
    );
}

#[test]
fn founder_needs_no_proof() {
    let mut c = config("blockA");
    c.require_vouching = true;
    let gate = AdmissionGate::new(c);
    assert_eq!(gate.begin(&id("founder"), None, NOW), AdmissionStep::Admitted(Admission::Bootstrap));
    assert_eq!(
        gate.begin(&id("founder"), Some(b"garbage"), NOW),
        AdmissionStep::Admitted(Admission::Bootstrap)
    );
    assert_eq!(
        gate.begin(&id("founder2"), None, NOW),
        AdmissionStep::Rejected(TrustError::MissingInvitation)
    );
    let mut c = config("blockA");
    c.bootstrap_identity = None;
    let gate = AdmissionGate::new(c);
    assert_eq!(
        gate.begin(&id("founder"), None, NOW),
        AdmissionStep::Rejected(TrustError::MissingInvitation)
    );
}

#[test]
fn missing_and_malformed_proofs() {
    let gate = AdmissionGate::new(config("blockA"));
    let joiner = id("joiner");
    assert_eq!(gate.begin(&joiner, None, NOW), AdmissionStep::Rejected(TrustError::MissingInvitation));
    for bytes in [&b""[..], b"no envelope", b"OURBLOCK_V1:a:b", b"{}"] {
        assert_eq!(
            gate.begin(&joiner, Some(bytes), NOW),
            AdmissionStep::Rejected(TrustError::MalformedInvitation)
        );
    }
}

#[test]
fn admission_with_an_issued_invitation() {
    let joiner = id("joiner");
    let inv = invitation(None, None);
    let code = inv.code();
    let gate = AdmissionGate::new(config("blockA"));
    let step = gate.begin(&joiner, Some(&code), NOW + 1000);
    let pending = match step {
        AdmissionStep::VerifySignature(p) => p,
        other => panic!("{:?}", other),
    };
    assert_eq!(pending.check, expected_check(&inv));
    assert_eq!(pending.voucher, None);
    assert!(!pending.require_vouching);
    assert_eq!(conclude(pending, true, false), Ok(Admission::Invited { voucher: None }));

    let other = AdmissionGate::new(config("blockB"));
    assert_eq!(
        other.begin(&joiner, Some(&code), NOW + 1000),
        AdmissionStep::Rejected(TrustError::WrongCommunity)
    );
    assert_eq!(
        gate.begin(&joiner, Some(&code), NOW + SEVEN_DAYS + 1),
        AdmissionStep::Rejected(TrustError::InvitationExpired)
    );
    assert!(matches!(
        gate.begin(&joiner, Some(&code), NOW + SEVEN_DAYS),
        AdmissionStep::VerifySignature(_)
    ));
}

fn pending(voucher: Option<Identity>, require_vouching: bool) -> PendingAdmission {
    PendingAdmission {
        check: SignatureCheck { key: id("K"), payload: vec![1], signature: vec![2] },
        voucher,
        require_vouching,
    }
}

#[test]
fn verdict_order_is_signature_revocation_voucher() {
    assert_eq!(conclude(pending(None, true), false, true), Err(TrustError::InvalidSignature));
    assert_eq!(conclude(pending(None, false), false, false), Err(TrustError::InvalidSignature));
    assert_eq!(conclude(pending(None, true), true, true), Err(TrustError::InvitationRevoked));
    assert_eq!(conclude(pending(Some(id("v")), false), true, true), Err(TrustError::InvitationRevoked));
    assert_eq!(conclude(pending(None, true), true, false), Err(TrustError::VoucherRequired));
    assert_eq!(
        conclude(pending(Some(id("v")), true), true, false),
        Ok(Admission::Invited { voucher: Some(id("v")) })
    );
    assert_eq!(conclude(pending(None, false), true, false), Ok(Admission::Invited { voucher: None }));
}

#[test]
fn community_that_requires_vouching() {
    let mut c = config("blockA");
    c.require_vouching = true;
    let gate = AdmissionGate::new(c);
    let joiner = id("joiner");
    let bare = invitation(None, None).code();
    let step = gate.begin(&joiner, Some(&bare), NOW);
    match step {
        AdmissionStep::VerifySignature(p) => {
            assert_eq!(conclude(p, true, false), Err(TrustError::VoucherRequired))
        }
        other => panic!("{:?}", other),
    }
    let vouched = invitation(None, Some(id("carol"))).code();
    match gate.begin(&joiner, Some(&vouched), NOW) {
        AdmissionStep::VerifySignature(p) => assert_eq!(
            conclude(p, true, false),
            Ok(Admission::Invited { voucher: Some(id("carol")) })
        ),
        other => panic!("{:?}", other),
    }
}

fn legacy(community: &str, timestamp: u64) -> LegacyEnvelope {
    LegacyEnvelope {
        hub_address: b"hub.local".to_vec(),
        community_id: community.as_bytes().to_vec(),
        timestamp,
        signature: vec![9, 9],
    }
}

#[test]
fn legacy_envelope_is_verified_with_the_configured_key() {
    let gate = AdmissionGate::new(config("blockA"));
    let joiner = id("joiner");
    let text = write_legacy(&legacy("blockA", NOW));
    let expected = SignatureCheck {
        key: id("K"),
        payload: signing_payload(b"blockA", NOW, b"hub.local"),
        signature: vec![9, 9],
    };
    assert_eq!(
        gate.validate_format(&text, NOW + SEVEN_DAYS),
        FormatVerdict::VerifySignature(SignatureCheck {
            key: id("K"),
            payload: signing_payload(b"blockA", NOW, b"hub.local"),
            signature: vec![9, 9],
        })
    );
    assert_eq!(
        gate.begin(&joiner, Some(&text), NOW),
        AdmissionStep::VerifySignature(PendingAdmission {
            check: expected,
            voucher: None,
            require_vouching: false,
        })
    );
    assert_eq!(
        gate.begin(&joiner, Some(&text), NOW + SEVEN_DAYS + 1),
        AdmissionStep::Rejected(TrustError::InvitationExpired)
    );
    let other = write_legacy(&legacy("blockB", NOW));
    assert_eq!(
        gate.begin(&joiner, Some(&other), NOW),
        AdmissionStep::Rejected(TrustError::WrongCommunity)
    );
}

#[test]
fn legacy_envelope_without_a_key_is_trusted_on_first_use() {
    let mut c = config("blockA");
    c.hub_public_key = None;
    let gate = AdmissionGate::new(c);
    let joiner = id("joiner");
    let stale_and_foreign = write_legacy(&legacy("blockB", 5));
    assert_eq!(gate.validate_format(&stale_and_foreign, NOW), FormatVerdict::Unchecked);
    assert!(gate.validate_format(&stale_and_foreign, NOW).holds(false));
    assert_eq!(
        gate.begin(&joiner, Some(&stale_and_foreign), NOW),
        AdmissionStep::Admitted(Admission::TrustOnFirstUse)
    );
    let mut c = config("blockA");
    c.hub_public_key = None;
    c.require_vouching = true;
    let gate = AdmissionGate::new(c);
    assert_eq!(
        gate.begin(&joiner, Some(&stale_and_foreign), NOW),
        AdmissionStep::Rejected(TrustError::VoucherRequired)
    );
    // The current envelope names its own key and is checked all the same.
    let code = invitation(None, None).code();
    assert!(matches!(gate.begin(&joiner, Some(&code), NOW), AdmissionStep::VerifySignature(_)));
}

#[test]
fn bare_proof_is_signed_over_joiner_and_time() {
    let gate = AdmissionGate::new(config("blockA"));
    let joiner = id("joiner");
    let proof = SignedProof { signature: vec![7], timestamp: NOW, voucher: Some(id("carol")) };
    let text = write_proof(&proof);
    let mut payload = b"joiner".to_vec();
    payload.extend_from_slice(&NOW.to_le_bytes());
    assert_eq!(
        gate.begin(&joiner, Some(&text), NOW + SEVEN_DAYS),
        AdmissionStep::VerifySignature(PendingAdmission {
            check: SignatureCheck { key: id("K"), payload, signature: vec![7] },
            voucher: Some(id("carol")),
            require_vouching: false,
        })
    );
    assert_eq!(
        gate.begin(&joiner, Some(&text), NOW + SEVEN_DAYS + 1),
        AdmissionStep::Rejected(TrustError::InvitationExpired)
    );
    let mut c = config("elsewhere");
    c.hub_public_key = None;
    let keyless = AdmissionGate::new(c);
    assert_eq!(
        keyless.begin(&joiner, Some(&text), NOW),
        AdmissionStep::Rejected(TrustError::InvalidSignature)
    );
    assert_eq!(
        keyless.begin(&joiner, Some(&text), NOW + SEVEN_DAYS + 1),
        AdmissionStep::Rejected(TrustError::InvitationExpired)
    );
}

#[test]
fn window_that_passes_the_last_instant_never_ends() {
    let gate = AdmissionGate::new(config("blockA"));
    let late = u64::MAX - 5;
    let text = write_legacy(&legacy("blockA", late));
    assert!(matches!(gate.validate_format(&text, u64::MAX), FormatVerdict::VerifySignature(_)));
    assert_eq!(DEFAULT_VALIDITY, SEVEN_DAYS);
}

#[test]
fn examine_and_format_verdict_take_envelopes() {
    let c = config("blockA");
    let inv = invitation(None, None);
    let env = Envelope::Current(inv.envelope());
    assert_eq!(format_verdict(&c, &env, NOW), FormatVerdict::VerifySignature(expected_check(&inv)));
    let gate = AdmissionGate::new(c);
    assert!(matches!(gate.examine(&id("j"), &env, NOW), AdmissionStep::VerifySignature(_)));
    let proof = Envelope::Proof(SignedProof { signature: vec![], timestamp: NOW, voucher: None });
    assert_eq!(
        format_verdict(&gate.config, &proof, NOW),
        FormatVerdict::Invalid(TrustError::MalformedInvitation)
    );
}
