use ourblock_trust::envelope::{decode, Envelope};
use ourblock_trust::error::TrustError;
use ourblock_trust::identity::Identity;
use ourblock_trust::invitation::{
    join_bytes, signing_payload, Invitation, InvitationIssuer, DEFAULT_VALIDITY,
};

fn id(name: &str) -> Identity {
    Identity::new(name.as_bytes().to_vec())
}

const NOW: u64 = 1_700_000_000_000_000;

fn issue(hub: &mut InvitationIssuer, validity: Option<u64>, voucher: Option<Identity>) -> Invitation {
    hub.issue(
        b"blockA",
        validity,
        voucher,
        b"wss://signal.example",
        b"https://boot.example",
        NOW,
        vec![1, 2, 3, 4],
    )
    .unwrap()
}

#[test]
fn payload_is_community_time_and_transport() {
    let payload = signing_payload(b"blockA", NOW, b"relay");
    let mut expected = b"blockA".to_vec();
    expected.extend_from_slice(&[0, 64, 30, 24, 36, 10, 6, 0]);
    expected.extend_from_slice(b"relay");
    assert_eq!(payload, expected);
    assert_eq!(signing_payload(b"", 1, b""), vec![1, 0, 0, 0, 0, 0, 0, 0]);
    assert_eq!(join_bytes(b"ab", b"cd"), b"abcd".to_vec());
}

#[test]
fn default_validity_is_seven_days() {
    assert_eq!(DEFAULT_VALIDITY, 7 * 24 * 60 * 60 * 1_000_000);
    let mut hub = InvitationIssuer::new(id("hubkey"));
    let inv = issue(&mut hub, None, None);
    assert_eq!(inv.issuer, id("hubkey"));
    assert_eq!(inv.community_id, b"blockA".to_vec());
    assert_eq!(inv.created_at, NOW);
    assert_eq!(inv.expires_at, NOW + DEFAULT_VALIDITY);
    assert_eq!(inv.signature, vec![1, 2, 3, 4]);
    assert_eq!(inv.voucher, None);
    assert!(!inv.revoked);
    assert_eq!(hub.list(), vec![inv]);
}

#[test]
fn invitation_payload_covers_both_addresses() {
    let mut hub = InvitationIssuer::new(id("hubkey"));
    let inv = issue(&mut hub, None, None);
    let transport = join_bytes(b"wss://signal.example", b"https://boot.example");
    assert_eq!(inv.payload(), signing_payload(b"blockA", NOW, &transport));
}

#[test]
fn code_of_default_validity_is_the_classic_envelope() {
    let mut hub = InvitationIssuer::new(id("hubkey"));
    let inv = issue(&mut hub, None, None);
    let expected = "OURBLOCK_V2:eyJuZXR3b3JrX3NlZWQiOiJibG9ja0EiLCJodWJfYWdlbnRfcHViX2tleSI6Imh1YmtleSIsInNpZ25hbF91cmwiOiJ3c3M6Ly9zaWduYWwuZXhhbXBsZSIsImJvb3RzdHJhcF91cmwiOiJodHRwczovL2Jvb3QuZXhhbXBsZSIsInRpbWVzdGFtcCI6MTcwMDAwMDAwMDAwMDAwMCwic2lnbmF0dXJlIjoiQVFJREJBPT0ifQ==";
    assert_eq!(inv.code(), expected.as_bytes().to_vec());
    let same = issue(&mut hub, Some(DEFAULT_VALIDITY), None);
    assert_eq!(same.code(), expected.as_bytes().to_vec());
}

#[test]
fn code_of_other_validity_names_its_end() {
    let mut hub = InvitationIssuer::new(id("hubkey"));
    let inv = issue(&mut hub, Some(3_600_000_000), Some(id("carol")));
    assert_eq!(inv.expires_at, NOW + 3_600_000_000);
    let expected = "OURBLOCK_V2:eyJuZXR3b3JrX3NlZWQiOiJibG9ja0EiLCJodWJfYWdlbnRfcHViX2tleSI6Imh1YmtleSIsInNpZ25hbF91cmwiOiJ3c3M6Ly9zaWduYWwuZXhhbXBsZSIsImJvb3RzdHJhcF91cmwiOiJodHRwczovL2Jvb3QuZXhhbXBsZSIsInRpbWVzdGFtcCI6MTcwMDAwMDAwMDAwMDAwMCwic2lnbmF0dXJlIjoiQVFJREJBPT0iLCJleHBpcmVzX2F0IjoxNzAwMDAzNjAwMDAwMDAwLCJ2b3VjaGVyIjoiY2Fyb2wifQ==";
    assert_eq!(inv.code(), expected.as_bytes().to_vec());
    assert_eq!(decode(&inv.code()), Some(Envelope::Current(inv.envelope())));
    assert_eq!(inv.envelope().expires_at, Some(NOW + 3_600_000_000));
    assert_eq!(inv.envelope().voucher, Some(id("carol")));
}

#[test]
fn validity_must_be_positive_and_end_in_time() {
    let mut hub = InvitationIssuer::new(id("hubkey"));
    let r = hub.issue(b"blockA", Some(0), None, b"", b"", NOW, vec![]);
    assert_eq!(r, Err(TrustError::InvalidValidity));
    let r = hub.issue(b"blockA", Some(2), None, b"", b"", u64::MAX - 1, vec![]);
    assert_eq!(r, Err(TrustError::InvalidValidity));
    let r = hub.issue(b"blockA", None, None, b"", b"", u64::MAX - DEFAULT_VALIDITY + 1, vec![]);
    assert_eq!(r, Err(TrustError::InvalidValidity));
    assert!(hub.list().is_empty());
    let r = hub.issue(b"blockA", Some(1), None, b"", b"", u64::MAX - 1, vec![]).unwrap();
    assert_eq!(r.expires_at, u64::MAX);
    assert_eq!(hub.list().len(), 1);
}

#[test]
fn revoking_is_one_way_and_idempotent() {
    let mut hub = InvitationIssuer::new(id("hubkey"));
    let first = issue(&mut hub, None, None);
    let second = issue(&mut hub, Some(5), None);
    assert!(!hub.is_revoked(&first.envelope()));
    hub.revoke(&first);
    let log = hub.list();
    assert!(log[0].revoked);
    assert!(!log[1].revoked);
    assert!(log[0].same_invitation(&first));
    assert!(!log[0].same_invitation(&second));
    assert!(hub.is_revoked(&first.envelope()));
    assert!(!hub.is_revoked(&second.envelope()));
    hub.revoke(&first);
    hub.revoke(&log[0]);
    assert_eq!(hub.list(), log);
    let third = issue(&mut hub, Some(6), None);
    assert!(hub.is_revoked(&first.envelope()));
    assert!(!hub.is_revoked(&third.envelope()));
    let stranger = Invitation { issuer: id("other"), ..first.clone() };
    hub.revoke(&stranger);
    assert_eq!(hub.list().iter().filter(|i| i.revoked).count(), 1);
}
