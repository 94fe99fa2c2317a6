use ourblock_trust::bytes::{append_bytes, bytes_eq, copy_bytes};
use ourblock_trust::codec::base64;
use ourblock_trust::codec::decimal;
use ourblock_trust::envelope::{decode, write_proof, Envelope, SignedProof};
use ourblock_trust::identity::Identity;

#[test]
fn base64_known_texts() {
    let cases: [(&[u8], &[u8]); 8] = [
        (b"", b""),
        (b"f", b"Zg=="),
        (b"fo", b"Zm8="),
        (b"foo", b"Zm9v"),
        (b"foob", b"Zm9vYg=="),
        (b"fooba", b"Zm9vYmE="),
        (b"foobar", b"Zm9vYmFy"),
        (&[0xff, 0xee], b"/+4="),
    ];
    for (bytes, text) in cases {
        assert_eq!(base64::encode(bytes), text.to_vec());
        assert_eq!(base64::decode(text), Some(bytes.to_vec()));
    }
}

#[test]
fn base64_covers_the_alphabet() {
    let all: Vec<u8> = (0u16..256).map(|b| b as u8).collect();
    let text = base64::encode(&all);
    assert_eq!(
        &text[..80],
        &b"AAECAwQFBgcICQoLDA0ODxAREhMUFRYXGBkaGxwdHh8gISIjJCUmJygpKissLS4vMDEyMzQ1Njc4OTo7"[..]
    );
    assert_eq!(base64::decode(&text), Some(all));
}

#[test]
fn base64_accepts_one_text_per_value() {
    // Stray bits in the last character, missing or surplus padding, foreign
    // characters and padding in the middle are all refused.
    for text in [
        &b"Zh=="[..],
        b"Zm9=",
        b"Zg=",
        b"Zg",
        b"Zg===",
        b"Z",
        b"====",
        b"Zg==Zg==",
        b"Zm9v\n",
        b"Zm-v",
        b"Zm9v ",
        b"=m9v",
    ] {
        assert_eq!(base64::decode(text), None, "{:?}", text);
    }
}

#[test]
fn decimal_known_texts() {
    assert_eq!(decimal::encode(0), b"0".to_vec());
    assert_eq!(decimal::encode(7), b"7".to_vec());
    assert_eq!(decimal::encode(10), b"10".to_vec());
    assert_eq!(decimal::encode(1700000000000000), b"1700000000000000".to_vec());
    assert_eq!(decimal::encode(u64::MAX), b"18446744073709551615".to_vec());
    assert_eq!(decimal::decode(b"0"), Some(0));
    assert_eq!(decimal::decode(b"1700000000000000"), Some(1700000000000000));
    assert_eq!(decimal::decode(b"18446744073709551615"), Some(u64::MAX));
}

#[test]
fn decimal_accepts_one_text_per_number() {
    for text in [
        &b""[..],
        b"007",
        b"00",
        b"+5",
        b"-5",
        b"5 ",
        b" 5",
        b"1e3",
        b"18446744073709551616",
        b"99999999999999999999999",
        b"12a",
    ] {
        assert_eq!(decimal::decode(text), None, "{:?}", text);
    }
}

fn proof_with_voucher(voucher: &[u8]) -> SignedProof {
    SignedProof { signature: vec![], timestamp: 0, voucher: Some(Identity::from_bytes(voucher)) }
}

#[test]
fn text_values_escape_as_json_does() {
    let odd = "a\"b\\c\n\t\r\u{8}\u{c}\u{1}\u{1f}/\u{e9}\u{7f}";
    let text = write_proof(&proof_with_voucher(odd.as_bytes()));
    let expected = "{\"signature\":\"\",\"timestamp\":0,\"voucher\":\"a\\\"b\\\\c\\n\\t\\r\\b\\f\\u0001\\u001f/\u{e9}\u{7f}\"}";
    assert_eq!(text, expected.as_bytes().to_vec());
    assert_eq!(decode(&text), Some(Envelope::Proof(proof_with_voucher(odd.as_bytes()))));
}

#[test]
fn text_values_are_read_only_as_they_are_written() {
    let read = |voucher: &str| {
        let text = format!("{{\"signature\":\"\",\"timestamp\":0,\"voucher\":{}}}", voucher);
        decode(text.as_bytes())
    };
    assert_eq!(read("\"ab\""), Some(Envelope::Proof(proof_with_voucher(b"ab"))));
    assert_eq!(read("\"\""), Some(Envelope::Proof(proof_with_voucher(b""))));
    assert_eq!(read("\"\\u001f\""), Some(Envelope::Proof(proof_with_voucher(&[0x1f]))));
    // Escapes that the writer does not use, and texts that do not end.
    assert_eq!(read("\"\\u001F\""), None);
    assert_eq!(read("\"\\u0041\""), None);
    assert_eq!(read("\"\\/\""), None);
    assert_eq!(read("\"\\q\""), None);
    assert_eq!(read("\"\\u12\""), None);
    assert_eq!(read("\"open"), None);
    assert_eq!(read("\"a\nb\""), None);
    assert_eq!(read("ab"), None);
}

#[test]
fn byte_helpers() {
    assert!(bytes_eq(b"", b""));
    assert!(bytes_eq(b"abc", b"abc"));
    assert!(!bytes_eq(b"abc", b"abd"));
    assert!(!bytes_eq(b"abc", b"ab"));
    let mut v = copy_bytes(b"ab");
    append_bytes(&mut v, b"cd");
    assert_eq!(v, b"abcd".to_vec());
}
