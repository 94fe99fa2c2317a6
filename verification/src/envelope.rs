//! The encodings in which an invitation, or another proof of the right to
//! join, travels from its issuer to the joining identity.
//!
//! There are three: the current envelope, whose word `OURBLOCK_V2:` is
//! followed by the base64 text of a JSON object; the legacy envelope of five
//! fields between colons, which begins with `OURBLOCK_V1`; and the bare
//! signed proof, a JSON object without any word before it.
//!
//! Each value has one text and the reader accepts no other: whatever it
//! accepts it can write again, byte for byte.

use vstd::prelude::*;
use crate::codec::base64;
use crate::bytes::{append_bytes, copy_bytes};
use crate::codec::decimal;
use crate::identity::Identity;
use crate::codec::json;
use crate::bytes::bytes_eq;
use crate::codec::decimal::is_digit;
use crate::codec::scan::{
    ascii, expect, lemma_expect, lemma_expect_differs, lemma_take_number, lemma_take_until,
    push_text, spec_expect, spec_take_number, spec_take_until, take_number, take_until,
};
use vstd::slice::slice_subrange;

verus! {

/// The colon that separates the fields of the legacy envelope.
pub const COLON: u8 = 58;

/// The current envelope. Its members carry the community, the issuer, where
/// to meet the community, when it was issued and the issuer's signature;
/// the end of the validity and a voucher may follow.
#[derive(Debug, PartialEq, Eq)]
pub struct CurrentEnvelope {
    pub network_seed: Vec<u8>,
    pub hub_agent_pub_key: Identity,
    pub signal_url: Vec<u8>,
    pub bootstrap_url: Vec<u8>,
    pub timestamp: u64,
    pub signature: Vec<u8>,
    pub expires_at: Option<u64>,
    pub voucher: Option<Identity>,
}

/// The mathematical content of a [`CurrentEnvelope`].
pub ghost struct CurrentView {
    pub network_seed: Seq<u8>,
    pub hub_agent_pub_key: Seq<u8>,
    pub signal_url: Seq<u8>,
    pub bootstrap_url: Seq<u8>,
    pub timestamp: u64,
    pub signature: Seq<u8>,
    pub expires_at: Option<u64>,
    pub voucher: Option<Seq<u8>>,
}

/// The bytes of an optional identity.
pub open spec fn opt_identity_view(id: Option<Identity>) -> Option<Seq<u8>> {
    match id {
        Some(i) => Some(i@),
        None => None,
    }
}

impl View for CurrentEnvelope {
    type V = CurrentView;

    open spec fn view(&self) -> CurrentView {
        CurrentView {
            network_seed: self.network_seed@,
            hub_agent_pub_key: self.hub_agent_pub_key@,
            signal_url: self.signal_url@,
            bootstrap_url: self.bootstrap_url@,
            timestamp: self.timestamp,
            signature: self.signature@,
            expires_at: self.expires_at,
            voucher: opt_identity_view(self.voucher),
        }
    }
}

/// The legacy envelope.
#[derive(Debug, PartialEq, Eq)]
pub struct LegacyEnvelope {
    pub hub_address: Vec<u8>,
    pub community_id: Vec<u8>,
    pub timestamp: u64,
    pub signature: Vec<u8>,
}

/// The mathematical content of a [`LegacyEnvelope`].
pub ghost struct LegacyView {
    pub hub_address: Seq<u8>,
    pub community_id: Seq<u8>,
    pub timestamp: u64,
    pub signature: Seq<u8>,
}

impl View for LegacyEnvelope {
    type V = LegacyView;

    open spec fn view(&self) -> LegacyView {
        LegacyView {
            hub_address: self.hub_address@,
            community_id: self.community_id@,
            timestamp: self.timestamp,
            signature: self.signature@,
        }
    }
}

impl LegacyView {
    /// A legacy envelope can be written only if neither its hub address nor
    /// its community holds a colon.
    pub open spec fn wf(self) -> bool {
        !self.hub_address.contains(COLON) && !self.community_id.contains(COLON)
    }
}

/// The bare signed proof: a signature over the joining identity and the
/// time of signing, and the voucher if there is one.
#[derive(Debug, PartialEq, Eq)]
pub struct SignedProof {
    pub signature: Vec<u8>,
    pub timestamp: u64,
    pub voucher: Option<Identity>,
}

/// The mathematical content of a [`SignedProof`].
pub ghost struct ProofView {
    pub signature: Seq<u8>,
    pub timestamp: u64,
    pub voucher: Option<Seq<u8>>,
}

impl View for SignedProof {
    type V = ProofView;

    open spec fn view(&self) -> ProofView {
        ProofView {
            signature: self.signature@,
            timestamp: self.timestamp,
            voucher: opt_identity_view(self.voucher),
        }
    }
}

/// What a joining identity may present.
#[derive(Debug, PartialEq, Eq)]
pub enum Envelope {
    Current(CurrentEnvelope),
    Legacy(LegacyEnvelope),
    Proof(SignedProof),
}

/// The mathematical content of an [`Envelope`].
pub ghost enum EnvelopeView {
    Current(CurrentView),
    Legacy(LegacyView),
    Proof(ProofView),
}

impl View for Envelope {
    type V = EnvelopeView;

    open spec fn view(&self) -> EnvelopeView {
        match self {
            Envelope::Current(e) => EnvelopeView::Current(e@),
            Envelope::Legacy(e) => EnvelopeView::Legacy(e@),
            Envelope::Proof(p) => EnvelopeView::Proof(p@),
        }
    }
}

impl EnvelopeView {
    /// Whether the envelope can be written.
    pub open spec fn wf(self) -> bool {
        match self {
            EnvelopeView::Legacy(e) => e.wf(),
            _ => true,
        }
    }
}

/// A member of a JSON object whose value is a text, followed by `rest`.
/// The key is given as it is written, quotes, separator and colon included.
pub open spec fn member_string(key: Seq<char>, value: Seq<u8>, rest: Seq<u8>) -> Seq<u8> {
    ascii(key) + (json::spec_encode_string(value) + rest)
}

/// A member of a JSON object whose value is a number, followed by `rest`.
pub open spec fn member_number(key: Seq<char>, value: u64, rest: Seq<u8>) -> Seq<u8> {
    ascii(key) + (decimal::spec_encode(value as nat) + rest)
}

/// The end of an object after an optional member `voucher`.
pub open spec fn voucher_tail(voucher: Option<Seq<u8>>) -> Seq<u8> {
    match voucher {
        Some(v) => member_string(",\"voucher\":"@, v, ascii("}"@)),
        None => ascii("}"@),
    }
}

/// The end of the current object: the optional members `expires_at` and
/// `voucher`, and the closing brace.
pub open spec fn current_tail(expires_at: Option<u64>, voucher: Option<Seq<u8>>) -> Seq<u8> {
    match expires_at {
        Some(x) => member_number(",\"expires_at\":"@, x, voucher_tail(voucher)),
        None => voucher_tail(voucher),
    }
}

/// The JSON object of the current envelope, without any white space.
pub open spec fn current_json(e: CurrentView) -> Seq<u8> {
    member_string(
        "{\"network_seed\":"@,
        e.network_seed,
        member_string(
            ",\"hub_agent_pub_key\":"@,
            e.hub_agent_pub_key,
            member_string(
                ",\"signal_url\":"@,
                e.signal_url,
                member_string(
                    ",\"bootstrap_url\":"@,
                    e.bootstrap_url,
                    member_number(
                        ",\"timestamp\":"@,
                        e.timestamp,
                        member_string(
                            ",\"signature\":"@,
                            base64::spec_encode(e.signature),
                            current_tail(e.expires_at, e.voucher),
                        ),
                    ),
                ),
            ),
        ),
    )
}

/// The text of the current envelope.
pub open spec fn encode_current(e: CurrentView) -> Seq<u8> {
    ascii("OURBLOCK_V2:"@) + base64::spec_encode(current_json(e))
}

/// The text of the legacy envelope: the word, the hub address, the
/// community, the time in decimal and the signature in base64.
pub open spec fn encode_legacy(e: LegacyView) -> Seq<u8> {
    ascii("OURBLOCK_V1:"@) + (e.hub_address + (seq![COLON] + (e.community_id + (seq![COLON] + (
    decimal::spec_encode(e.timestamp as nat) + (seq![COLON] + base64::spec_encode(
        e.signature,
    )))))))
}

/// The text of the bare signed proof.
pub open spec fn encode_proof(p: ProofView) -> Seq<u8> {
    member_string(
        "{\"signature\":"@,
        base64::spec_encode(p.signature),
        member_number(",\"timestamp\":"@, p.timestamp, voucher_tail(p.voucher)),
    )
}

/// The text of an envelope.
pub open spec fn spec_encode(e: EnvelopeView) -> Seq<u8> {
    match e {
        EnvelopeView::Current(c) => encode_current(c),
        EnvelopeView::Legacy(l) => encode_legacy(l),
        EnvelopeView::Proof(p) => encode_proof(p),
    }
}

fn with_member_string(key: &str, value: &[u8], rest: &[u8]) -> (out: Vec<u8>)
    requires
        key.is_ascii(),
    ensures
        out@ == member_string(key@, value@, rest@),
{
    let mut out: Vec<u8> = Vec::new();
    push_text(&mut out, key);
    json::push_string(&mut out, value);
    append_bytes(&mut out, rest);
    assert(out@ =~= member_string(key@, value@, rest@));
    out
}

fn with_member_number(key: &str, value: u64, rest: &[u8]) -> (out: Vec<u8>)
    requires
        key.is_ascii(),
    ensures
        out@ == member_number(key@, value, rest@),
{
    let mut out: Vec<u8> = Vec::new();
    push_text(&mut out, key);
    let digits = decimal::encode(value);
    append_bytes(&mut out, digits.as_slice());
    append_bytes(&mut out, rest);
    assert(out@ =~= member_number(key@, value, rest@));
    out
}

fn write_voucher_tail(voucher: &Option<Identity>) -> (out: Vec<u8>)
    ensures
        out@ == voucher_tail(opt_identity_view(*voucher)),
{
    let mut brace: Vec<u8> = Vec::new();
    proof {
        reveal_strlit("}");
        reveal_strlit(",\"voucher\":");
    }
    push_text(&mut brace, "}");
    assert(brace@ =~= ascii("}"@));
    match voucher {
        Some(v) => with_member_string(",\"voucher\":", v.as_bytes(), brace.as_slice()),
        None => brace,
    }
}

fn write_current_json(e: &CurrentEnvelope) -> (out: Vec<u8>)
    ensures
        out@ == current_json(e@),
{
    proof {
        reveal_strlit(",\"expires_at\":");
        reveal_strlit(",\"signature\":");
        reveal_strlit(",\"timestamp\":");
        reveal_strlit(",\"bootstrap_url\":");
        reveal_strlit(",\"signal_url\":");
        reveal_strlit(",\"hub_agent_pub_key\":");
        reveal_strlit("{\"network_seed\":");
    }
    let tail = write_voucher_tail(&e.voucher);
    let tail = match e.expires_at {
        Some(x) => with_member_number(",\"expires_at\":", x, tail.as_slice()),
        None => tail,
    };
    let signature = base64::encode(e.signature.as_slice());
    let tail = with_member_string(",\"signature\":", signature.as_slice(), tail.as_slice());
    let tail = with_member_number(",\"timestamp\":", e.timestamp, tail.as_slice());
    let tail = with_member_string(",\"bootstrap_url\":", e.bootstrap_url.as_slice(), tail.as_slice());
    let tail = with_member_string(",\"signal_url\":", e.signal_url.as_slice(), tail.as_slice());
    let tail = with_member_string(
        ",\"hub_agent_pub_key\":",
        e.hub_agent_pub_key.as_bytes(),
        tail.as_slice(),
    );
    with_member_string("{\"network_seed\":", e.network_seed.as_slice(), tail.as_slice())
}

/// Writes the text of a current envelope.
pub fn write_current(e: &CurrentEnvelope) -> (text: Vec<u8>)
    ensures
        text@ == encode_current(e@),
{
    let object = write_current_json(e);
    let body = base64::encode(object.as_slice());
    let mut out: Vec<u8> = Vec::new();
    proof {
        reveal_strlit("OURBLOCK_V2:");
    }
    push_text(&mut out, "OURBLOCK_V2:");
    append_bytes(&mut out, body.as_slice());
    assert(out@ =~= encode_current(e@));
    out
}

/// Writes the text of a legacy envelope.
pub fn write_legacy(e: &LegacyEnvelope) -> (text: Vec<u8>)
    ensures
        text@ == encode_legacy(e@),
{
    let mut out: Vec<u8> = Vec::new();
    proof {
        reveal_strlit("OURBLOCK_V1:");
    }
    push_text(&mut out, "OURBLOCK_V1:");
    append_bytes(&mut out, e.hub_address.as_slice());
    out.push(COLON);
    append_bytes(&mut out, e.community_id.as_slice());
    out.push(COLON);
    let digits = decimal::encode(e.timestamp);
    append_bytes(&mut out, digits.as_slice());
    out.push(COLON);
    let signature = base64::encode(e.signature.as_slice());
    append_bytes(&mut out, signature.as_slice());
    assert(out@ =~= encode_legacy(e@));
    out
}

/// Writes the text of a bare signed proof.
pub fn write_proof(p: &SignedProof) -> (text: Vec<u8>)
    ensures
        text@ == encode_proof(p@),
{
    proof {
        reveal_strlit(",\"timestamp\":");
        reveal_strlit("{\"signature\":");
    }
    let tail = write_voucher_tail(&p.voucher);
    let tail = with_member_number(",\"timestamp\":", p.timestamp, tail.as_slice());
    let signature = base64::encode(p.signature.as_slice());
    with_member_string("{\"signature\":", signature.as_slice(), tail.as_slice())
}

/// Writes the text of an envelope.
pub fn encode(e: &Envelope) -> (text: Vec<u8>)
    ensures
        text@ == spec_encode(e@),
{
    match e {
        Envelope::Current(c) => write_current(c),
        Envelope::Legacy(l) => write_legacy(l),
        Envelope::Proof(p) => write_proof(p),
    }
}

/// The text value of the member `key` that `s` begins with, and what is
/// left after it.
spec fn read_member_string(s: Seq<u8>, key: Seq<char>) -> Option<(Seq<u8>, Seq<u8>)> {
    match spec_expect(s, ascii(key)) {
        Some(r) => json::spec_take_string(r),
        None => None,
    }
}

/// The number of the member `key` that `s` begins with, and what is left
/// after it.
spec fn read_member_number(s: Seq<u8>, key: Seq<char>) -> Option<(u64, Seq<u8>)> {
    match spec_expect(s, ascii(key)) {
        Some(r) => spec_take_number(r),
        None => None,
    }
}

proof fn lemma_member_string(key: Seq<char>, value: Seq<u8>, rest: Seq<u8>)
    ensures
        read_member_string(member_string(key, value, rest), key) == Some((value, rest)),
{
    lemma_expect(ascii(key), json::spec_encode_string(value) + rest);
    json::lemma_take_string(value, rest);
}

proof fn lemma_member_number(key: Seq<char>, value: u64, rest: Seq<u8>)
    requires
        rest.len() == 0 || !is_digit(rest[0]),
    ensures
        read_member_number(member_number(key, value, rest), key) == Some((value, rest)),
{
    lemma_expect(ascii(key), decimal::spec_encode(value as nat) + rest);
    lemma_take_number(value, rest);
}

/// The optional member `voucher` and the closing brace that `s` begins
/// with, and what is left after them.
spec fn read_voucher_tail(s: Seq<u8>) -> Option<(Option<Seq<u8>>, Seq<u8>)> {
    let (voucher, s1) = match read_member_string(s, ",\"voucher\":"@) {
        Some((v, r)) => (Some(v), r),
        None => (None, s),
    };
    match spec_expect(s1, ascii("}"@)) {
        Some(r) => Some((voucher, r)),
        None => None,
    }
}

/// The optional members `expires_at` and `voucher` and the closing brace
/// that `s` begins with, and what is left after them.
spec fn read_current_tail(s: Seq<u8>) -> Option<(Option<u64>, Option<Seq<u8>>, Seq<u8>)> {
    let (expires_at, s1) = match read_member_number(s, ",\"expires_at\":"@) {
        Some((x, r)) => (Some(x), r),
        None => (None, s),
    };
    match read_voucher_tail(s1) {
        Some((voucher, r)) => Some((expires_at, voucher, r)),
        None => None,
    }
}

proof fn lemma_voucher_tail(voucher: Option<Seq<u8>>)
    ensures
        read_voucher_tail(voucher_tail(voucher)) == Some((voucher, Seq::<u8>::empty())),
        read_member_number(voucher_tail(voucher), ",\"expires_at\":"@) is None,
        voucher_tail(voucher).len() > 0,
        !is_digit(voucher_tail(voucher)[0]),
{
    reveal_strlit("}");
    reveal_strlit(",\"voucher\":");
    reveal_strlit(",\"expires_at\":");
    let brace = ascii("}"@);
    let s = voucher_tail(voucher);
    assert(brace + Seq::<u8>::empty() =~= brace);
    lemma_expect(brace, Seq::empty());
    match voucher {
        Some(v) => {
            lemma_member_string(",\"voucher\":"@, v, brace);
            assert(s[2] == 118u8);
            lemma_expect_differs(s, ascii(",\"expires_at\":"@), 2);
        },
        None => {
            lemma_expect_differs(s, ascii(",\"voucher\":"@), 0);
            lemma_expect_differs(s, ascii(",\"expires_at\":"@), 0);
        },
    }
}

proof fn lemma_current_tail(expires_at: Option<u64>, voucher: Option<Seq<u8>>)
    ensures
        read_current_tail(current_tail(expires_at, voucher)) == Some(
            (expires_at, voucher, Seq::<u8>::empty()),
        ),
{
    lemma_voucher_tail(voucher);
    match expires_at {
        Some(x) => {
            lemma_member_number(",\"expires_at\":"@, x, voucher_tail(voucher));
        },
        None => {},
    }
}

/// The envelope whose JSON object `s` is read as.
spec fn read_current_json(s: Seq<u8>) -> Option<CurrentView> {
    match read_member_string(s, "{\"network_seed\":"@) {
        Some((network_seed, s1)) => match read_member_string(s1, ",\"hub_agent_pub_key\":"@) {
            Some((hub_agent_pub_key, s2)) => match read_member_string(s2, ",\"signal_url\":"@) {
                Some((signal_url, s3)) => match read_member_string(s3, ",\"bootstrap_url\":"@) {
                    Some((bootstrap_url, s4)) => match read_member_number(s4, ",\"timestamp\":"@) {
                        Some((timestamp, s5)) => match read_member_string(s5, ",\"signature\":"@) {
                            Some((text, s6)) => match (
                                base64::spec_decode(text),
                                read_current_tail(s6),
                            ) {
                                (Some(signature), Some((expires_at, voucher, rest))) => {
                                    if rest.len() == 0 {
                                        Some(
                                            CurrentView {
                                                network_seed,
                                                hub_agent_pub_key,
                                                signal_url,
                                                bootstrap_url,
                                                timestamp,
                                                signature,
                                                expires_at,
                                                voucher,
                                            },
                                        )
                                    } else {
                                        None
                                    }
                                },
                                _ => None,
                            },
                            None => None,
                        },
                        None => None,
                    },
                    None => None,
                },
                None => None,
            },
            None => None,
        },
        None => None,
    }
}

/// The current envelope that `text` is read as.
spec fn read_current(text: Seq<u8>) -> Option<CurrentView> {
    match spec_expect(text, ascii("OURBLOCK_V2:"@)) {
        Some(body) => match base64::spec_decode(body) {
            Some(object) => read_current_json(object),
            None => None,
        },
        None => None,
    }
}

/// The legacy envelope that `text` is read as.
spec fn read_legacy(text: Seq<u8>) -> Option<LegacyView> {
    match spec_expect(text, ascii("OURBLOCK_V1:"@)) {
        Some(s0) => match spec_take_until(s0, COLON) {
            Some((hub_address, s1)) => match spec_take_until(s1, COLON) {
                Some((community_id, s2)) => match spec_take_until(s2, COLON) {
                    Some((digits, s3)) => match (
                        decimal::spec_decode(digits),
                        base64::spec_decode(s3),
                    ) {
                        (Some(timestamp), Some(signature)) => Some(
                            LegacyView { hub_address, community_id, timestamp, signature },
                        ),
                        _ => None,
                    },
                    None => None,
                },
                None => None,
            },
            None => None,
        },
        None => None,
    }
}

/// The bare signed proof that `text` is read as.
spec fn read_proof(text: Seq<u8>) -> Option<ProofView> {
    match read_member_string(text, "{\"signature\":"@) {
        Some((sig_text, s1)) => match (
            base64::spec_decode(sig_text),
            read_member_number(s1, ",\"timestamp\":"@),
        ) {
            (Some(signature), Some((timestamp, s2))) => match read_voucher_tail(s2) {
                Some((voucher, rest)) => {
                    if rest.len() == 0 {
                        Some(ProofView { signature, timestamp, voucher })
                    } else {
                        None
                    }
                },
                None => None,
            },
            _ => None,
        },
        None => None,
    }
}

/// The text of a current envelope is read as that envelope.
proof fn lemma_read_current(e: CurrentView)
    ensures
        read_current(encode_current(e)) == Some(e),
{
    reveal_strlit(",\"signature\":");
    let t6 = current_tail(e.expires_at, e.voucher);
    let sig_text = base64::spec_encode(e.signature);
    let t5 = member_string(",\"signature\":"@, sig_text, t6);
    let t4 = member_number(",\"timestamp\":"@, e.timestamp, t5);
    let t3 = member_string(",\"bootstrap_url\":"@, e.bootstrap_url, t4);
    let t2 = member_string(",\"signal_url\":"@, e.signal_url, t3);
    let t1 = member_string(",\"hub_agent_pub_key\":"@, e.hub_agent_pub_key, t2);
    let object = current_json(e);
    lemma_member_string("{\"network_seed\":"@, e.network_seed, t1);
    lemma_member_string(",\"hub_agent_pub_key\":"@, e.hub_agent_pub_key, t2);
    lemma_member_string(",\"signal_url\":"@, e.signal_url, t3);
    lemma_member_string(",\"bootstrap_url\":"@, e.bootstrap_url, t4);
    assert(t5[0] == 44u8);
    lemma_member_number(",\"timestamp\":"@, e.timestamp, t5);
    lemma_member_string(",\"signature\":"@, sig_text, t6);
    base64::lemma_decode_encoded(e.signature);
    lemma_current_tail(e.expires_at, e.voucher);
    assert(read_current_json(object) == Some(e));
    lemma_expect(ascii("OURBLOCK_V2:"@), base64::spec_encode(object));
    base64::lemma_decode_encoded(object);
}

/// The text of a legacy envelope that can be written is read as that
/// envelope.
proof fn lemma_read_legacy(e: LegacyView)
    requires
        e.wf(),
    ensures
        read_legacy(encode_legacy(e)) == Some(e),
{
    let sig_text = base64::spec_encode(e.signature);
    let digits = decimal::spec_encode(e.timestamp as nat);
    let s2 = digits + (seq![COLON] + sig_text);
    let s1 = e.community_id + (seq![COLON] + s2);
    let s0 = e.hub_address + (seq![COLON] + s1);
    lemma_expect(ascii("OURBLOCK_V1:"@), s0);
    lemma_take_until(e.hub_address, COLON, s1);
    lemma_take_until(e.community_id, COLON, s2);
    decimal::lemma_encoded_digits(e.timestamp as nat);
    assert(!digits.contains(COLON)) by {
        if digits.contains(COLON) {
            let i = choose|i: int| 0 <= i < digits.len() && digits[i] == COLON;
            assert(is_digit(digits[i]));
        }
    }
    lemma_take_until(digits, COLON, sig_text);
    decimal::lemma_decode_encoded(e.timestamp);
    base64::lemma_decode_encoded(e.signature);
}

/// The text of a bare signed proof is read as that proof.
proof fn lemma_read_proof(p: ProofView)
    ensures
        read_proof(encode_proof(p)) == Some(p),
{
    let sig_text = base64::spec_encode(p.signature);
    let t2 = voucher_tail(p.voucher);
    let t1 = member_number(",\"timestamp\":"@, p.timestamp, t2);
    lemma_member_string("{\"signature\":"@, sig_text, t1);
    base64::lemma_decode_encoded(p.signature);
    lemma_voucher_tail(p.voucher);
    lemma_member_number(",\"timestamp\":"@, p.timestamp, t2);
}

fn take_member_string(buf: &[u8], pos: usize, key: &str) -> (r: Option<(Vec<u8>, usize)>)
    requires
        pos <= buf@.len(),
        key.is_ascii(),
    ensures
        match r {
            Some((value, np)) => {
                &&& pos <= np <= buf@.len()
                &&& read_member_string(buf@.skip(pos as int), key@) == Some(
                    (value@, buf@.skip(np as int)),
                )
            },
            None => read_member_string(buf@.skip(pos as int), key@) is None,
        },
{
    match expect(buf, pos, key) {
        Some(p) => json::take_string(buf, p),
        None => None,
    }
}

fn take_member_number(buf: &[u8], pos: usize, key: &str) -> (r: Option<(u64, usize)>)
    requires
        pos <= buf@.len(),
        key.is_ascii(),
    ensures
        match r {
            Some((value, np)) => {
                &&& pos <= np <= buf@.len()
                &&& read_member_number(buf@.skip(pos as int), key@) == Some(
                    (value, buf@.skip(np as int)),
                )
            },
            None => read_member_number(buf@.skip(pos as int), key@) is None,
        },
{
    match expect(buf, pos, key) {
        Some(p) => take_number(buf, p),
        None => None,
    }
}

fn take_voucher_tail(buf: &[u8], pos: usize) -> (r: Option<(Option<Identity>, usize)>)
    requires
        pos <= buf@.len(),
    ensures
        match r {
            Some((voucher, np)) => {
                &&& pos <= np <= buf@.len()
                &&& read_voucher_tail(buf@.skip(pos as int)) == Some(
                    (opt_identity_view(voucher), buf@.skip(np as int)),
                )
            },
            None => read_voucher_tail(buf@.skip(pos as int)) is None,
        },
{
    proof {
        reveal_strlit("}");
        reveal_strlit(",\"voucher\":");
    }
    let (voucher, p) = match take_member_string(buf, pos, ",\"voucher\":") {
        Some((v, p)) => (Some(Identity::new(v)), p),
        None => (None, pos),
    };
    match expect(buf, p, "}") {
        Some(np) => Some((voucher, np)),
        None => None,
    }
}

fn take_current_tail(buf: &[u8], pos: usize) -> (r: Option<(Option<u64>, Option<Identity>, usize)>)
    requires
        pos <= buf@.len(),
    ensures
        match r {
            Some((expires_at, voucher, np)) => {
                &&& pos <= np <= buf@.len()
                &&& read_current_tail(buf@.skip(pos as int)) == Some(
                    (expires_at, opt_identity_view(voucher), buf@.skip(np as int)),
                )
            },
            None => read_current_tail(buf@.skip(pos as int)) is None,
        },
{
    proof {
        reveal_strlit(",\"expires_at\":");
    }
    let (expires_at, p) = match take_member_number(buf, pos, ",\"expires_at\":") {
        Some((x, p)) => (Some(x), p),
        None => (None, pos),
    };
    match take_voucher_tail(buf, p) {
        Some((voucher, np)) => Some((expires_at, voucher, np)),
        None => None,
    }
}

/// The view of an optional current envelope.
spec fn opt_current_view(e: Option<CurrentEnvelope>) -> Option<CurrentView> {
    match e {
        Some(x) => Some(x@),
        None => None,
    }
}

/// The view of an optional legacy envelope.
spec fn opt_legacy_view(e: Option<LegacyEnvelope>) -> Option<LegacyView> {
    match e {
        Some(x) => Some(x@),
        None => None,
    }
}

/// The view of an optional signed proof.
spec fn opt_proof_view(e: Option<SignedProof>) -> Option<ProofView> {
    match e {
        Some(x) => Some(x@),
        None => None,
    }
}

fn parse_current_json(buf: &[u8]) -> (r: Option<CurrentEnvelope>)
    ensures
        opt_current_view(r) == read_current_json(buf@),
{
    proof {
        reveal_strlit(",\"signature\":");
        reveal_strlit(",\"timestamp\":");
        reveal_strlit(",\"bootstrap_url\":");
        reveal_strlit(",\"signal_url\":");
        reveal_strlit(",\"hub_agent_pub_key\":");
        reveal_strlit("{\"network_seed\":");
        assert(buf@.skip(0) =~= buf@);
    }
    let (network_seed, seed_end) = match take_member_string(buf, 0, "{\"network_seed\":") {
        Some(x) => x,
        None => {
            return None;
        },
    };
    let (hub_key, key_end) = match take_member_string(buf, seed_end, ",\"hub_agent_pub_key\":") {
        Some(x) => x,
        None => {
            return None;
        },
    };
    let (signal_url, signal_end) = match take_member_string(buf, key_end, ",\"signal_url\":") {
        Some(x) => x,
        None => {
            return None;
        },
    };
    let (bootstrap_url, bootstrap_end) = match take_member_string(buf, signal_end, ",\"bootstrap_url\":") {
        Some(x) => x,
        None => {
            return None;
        },
    };
    let (timestamp, timestamp_end) = match take_member_number(buf, bootstrap_end, ",\"timestamp\":") {
        Some(x) => x,
        None => {
            return None;
        },
    };
    let (sig_text, signature_end) = match take_member_string(buf, timestamp_end, ",\"signature\":") {
        Some(x) => x,
        None => {
            return None;
        },
    };
    let signature = match base64::decode(sig_text.as_slice()) {
        Some(x) => x,
        None => {
            return None;
        },
    };
    let (expires_at, voucher, end) = match take_current_tail(buf, signature_end) {
        Some(x) => x,
        None => {
            return None;
        },
    };
    if end != buf.len() {
        return None;
    }
    Some(
        CurrentEnvelope {
            network_seed,
            hub_agent_pub_key: Identity::new(hub_key),
            signal_url,
            bootstrap_url,
            timestamp,
            signature,
            expires_at,
            voucher,
        },
    )
}

fn parse_current(text: &[u8]) -> (r: Option<CurrentEnvelope>)
    ensures
        opt_current_view(r) == read_current(text@),
{
    proof {
        reveal_strlit("OURBLOCK_V2:");
        assert(text@.skip(0) =~= text@);
    }
    let start = match expect(text, 0, "OURBLOCK_V2:") {
        Some(start) => start,
        None => {
            return None;
        },
    };
    let body = slice_subrange(text, start, text.len());
    assert(body@ =~= text@.skip(start as int));
    match base64::decode(body) {
        Some(object) => parse_current_json(object.as_slice()),
        None => None,
    }
}

fn parse_legacy(text: &[u8]) -> (r: Option<LegacyEnvelope>)
    ensures
        opt_legacy_view(r) == read_legacy(text@),
{
    proof {
        reveal_strlit("OURBLOCK_V1:");
        assert(text@.skip(0) =~= text@);
    }
    let n = text.len();
    let start = match expect(text, 0, "OURBLOCK_V1:") {
        Some(p) => p,
        None => {
            return None;
        },
    };
    let first_colon = match take_until(text, start, COLON) {
        Some(k) => k,
        None => {
            return None;
        },
    };
    let second_colon = match take_until(text, first_colon + 1, COLON) {
        Some(k) => k,
        None => {
            return None;
        },
    };
    let third_colon = match take_until(text, second_colon + 1, COLON) {
        Some(k) => k,
        None => {
            return None;
        },
    };
    let timestamp = match decimal::decode(slice_subrange(text, second_colon + 1, third_colon)) {
        Some(n) => n,
        None => {
            return None;
        },
    };
    let rest = slice_subrange(text, third_colon + 1, n);
    assert(rest@ =~= text@.skip(third_colon + 1));
    let signature = match base64::decode(rest) {
        Some(b) => b,
        None => {
            return None;
        },
    };
    Some(
        LegacyEnvelope {
            hub_address: copy_bytes(slice_subrange(text, start, first_colon)),
            community_id: copy_bytes(slice_subrange(text, first_colon + 1, second_colon)),
            timestamp,
            signature,
        },
    )
}

fn parse_proof(text: &[u8]) -> (r: Option<SignedProof>)
    ensures
        opt_proof_view(r) == read_proof(text@),
{
    proof {
        reveal_strlit(",\"timestamp\":");
        reveal_strlit("{\"signature\":");
        assert(text@.skip(0) =~= text@);
    }
    let (sig_text, signature_end) = match take_member_string(text, 0, "{\"signature\":") {
        Some(x) => x,
        None => {
            return None;
        },
    };
    let signature = match base64::decode(sig_text.as_slice()) {
        Some(x) => x,
        None => {
            return None;
        },
    };
    let (timestamp, timestamp_end) = match take_member_number(text, signature_end, ",\"timestamp\":") {
        Some(x) => x,
        None => {
            return None;
        },
    };
    let (voucher, end) = match take_voucher_tail(text, timestamp_end) {
        Some(x) => x,
        None => {
            return None;
        },
    };
    if end != text.len() {
        return None;
    }
    Some(SignedProof { signature, timestamp, voucher })
}

/// Whether a legacy envelope can be written.
fn legacy_wf(e: &LegacyEnvelope) -> (ok: bool)
    ensures
        ok == e@.wf(),
{
    !has_colon(e.hub_address.as_slice()) && !has_colon(e.community_id.as_slice())
}

fn has_colon(b: &[u8]) -> (found: bool)
    ensures
        found == b@.contains(COLON),
{
    let mut i: usize = 0;
    while i < b.len()
        invariant
            i <= b@.len(),
            forall|j: int| 0 <= j < i ==> b@[j] != COLON,
        decreases b@.len() - i,
    {
        if b[i] == COLON {
            return true;
        }
        i += 1;
    }
    false
}

/// Two envelopes that can be written and have the same text are the same.
pub proof fn lemma_encode_injective(a: EnvelopeView, b: EnvelopeView)
    requires
        a.wf(),
        b.wf(),
        spec_encode(a) == spec_encode(b),
    ensures
        a == b,
{
    reveal_strlit("OURBLOCK_V2:");
    reveal_strlit("OURBLOCK_V1:");
    reveal_strlit("{\"signature\":");
    let ta = spec_encode(a);
    let tb = spec_encode(b);
    match a {
        EnvelopeView::Current(x) => {
            lemma_read_current(x);
            assert(ta[10] == 50u8 && ta[0] == 79u8);
        },
        EnvelopeView::Legacy(x) => {
            lemma_read_legacy(x);
            assert(ta[10] == 49u8 && ta[0] == 79u8);
        },
        EnvelopeView::Proof(x) => {
            lemma_read_proof(x);
            assert(ta[0] == 123u8);
        },
    }
    match b {
        EnvelopeView::Current(x) => {
            lemma_read_current(x);
            assert(tb[10] == 50u8 && tb[0] == 79u8);
        },
        EnvelopeView::Legacy(x) => {
            lemma_read_legacy(x);
            assert(tb[10] == 49u8 && tb[0] == 79u8);
        },
        EnvelopeView::Proof(x) => {
            lemma_read_proof(x);
            assert(tb[0] == 123u8);
        },
    }
}

/// The envelope whose text `text` is, if there is one.
pub open spec fn spec_decode(text: Seq<u8>) -> Option<EnvelopeView> {
    if exists|e: EnvelopeView| e.wf() && #[trigger] spec_encode(e) == text {
        Some(choose|e: EnvelopeView| e.wf() && #[trigger] spec_encode(e) == text)
    } else {
        None
    }
}

/// Decoding the text of an envelope that can be written gives the envelope
/// back.
pub proof fn lemma_decode_encoded(e: EnvelopeView)
    requires
        e.wf(),
    ensures
        spec_decode(spec_encode(e)) == Some(e),
{
    let found = choose|x: EnvelopeView| x.wf() && #[trigger] spec_encode(x) == spec_encode(e);
    lemma_encode_injective(found, e);
}

/// The view of an optional envelope.
pub open spec fn opt_envelope_view(e: Option<Envelope>) -> Option<EnvelopeView> {
    match e {
        Some(x) => Some(x@),
        None => None,
    }
}

/// Reads the envelope that `text` stands for: the current form is tried
/// first, then the legacy form, then the bare signed proof.
///
/// The result is `Some` exactly when `text` is the text of an envelope, and
/// then it is that envelope.
pub fn decode(text: &[u8]) -> (r: Option<Envelope>)
    ensures
        opt_envelope_view(r) == spec_decode(text@),
        match r {
            Some(e) => e@.wf() && spec_encode(e@) == text@,
            None => forall|e: EnvelopeView| e.wf() ==> spec_encode(e) != text@,
        },
{
    let r = decode_strict(text);
    proof {
        if let Some(e) = &r {
            lemma_decode_encoded(e@);
        }
    }
    r
}

fn decode_strict(text: &[u8]) -> (r: Option<Envelope>)
    ensures
        match r {
            Some(e) => e@.wf() && spec_encode(e@) == text@,
            None => forall|e: EnvelopeView| e.wf() ==> #[trigger] spec_encode(e) != text@,
        },
{
    let current = parse_current(text);
    let mut current_fits = false;
    if let Some(c) = &current {
        let again = write_current(c);
        current_fits = bytes_eq(again.as_slice(), text);
    }
    if current_fits {
        if let Some(c) = current {
            return Some(Envelope::Current(c));
        }
    }
    let legacy = parse_legacy(text);
    let mut legacy_fits = false;
    if let Some(l) = &legacy {
        if legacy_wf(l) {
            let again = write_legacy(l);
            legacy_fits = bytes_eq(again.as_slice(), text);
        }
    }
    if legacy_fits {
        if let Some(l) = legacy {
            return Some(Envelope::Legacy(l));
        }
    }
    let proof_read = parse_proof(text);
    let mut proof_fits = false;
    if let Some(p) = &proof_read {
        let again = write_proof(p);
        proof_fits = bytes_eq(again.as_slice(), text);
    }
    if proof_fits {
        if let Some(p) = proof_read {
            return Some(Envelope::Proof(p));
        }
    }
    assert forall|e: EnvelopeView| e.wf() implies #[trigger] spec_encode(e) != text@ by {
        if spec_encode(e) == text@ {
            match e {
                EnvelopeView::Current(x) => {
                    lemma_read_current(x);
                },
                EnvelopeView::Legacy(x) => {
                    lemma_read_legacy(x);
                },
                EnvelopeView::Proof(x) => {
                    lemma_read_proof(x);
                },
            }
        }
    }
    None
}

} // verus!
