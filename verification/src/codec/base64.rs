//! Base64 with the standard alphabet and `=` padding, as it carries
//! signatures and the current invitation envelope.
//!
//! Decoding is strict: a text is accepted only if it is the encoding of some
//! byte string, so every byte string has exactly one accepted text.

use vstd::prelude::*;
use crate::bytes::bytes_eq;

verus! {

/// The padding character `=`.
pub const PAD: u8 = 61;

/// The character that stands for the six-bit value `v`.
pub open spec fn sextet_char(v: int) -> u8 {
    if v < 26 {
        (65 + v) as u8
    } else if v < 52 {
        (71 + v) as u8
    } else if v < 62 {
        (v - 4) as u8
    } else if v == 62 {
        43
    } else {
        47
    }
}

/// The text of a byte string: four characters for every three bytes, the
/// last group padded.
pub open spec fn spec_encode(b: Seq<u8>) -> Seq<u8>
    decreases b.len(),
{
    if b.len() == 0 {
        Seq::empty()
    } else if b.len() == 1 {
        seq![sextet_char(b[0] as int / 4), sextet_char((b[0] as int % 4) * 16), PAD, PAD]
    } else if b.len() == 2 {
        seq![
            sextet_char(b[0] as int / 4),
            sextet_char((b[0] as int % 4) * 16 + b[1] as int / 16),
            sextet_char((b[1] as int % 16) * 4),
            PAD,
        ]
    } else {
        seq![
            sextet_char(b[0] as int / 4),
            sextet_char((b[0] as int % 4) * 16 + b[1] as int / 16),
            sextet_char((b[1] as int % 16) * 4 + b[2] as int / 64),
            sextet_char(b[2] as int % 64),
        ] + spec_encode(b.skip(3))
    }
}

/// The six-bit value that a character stands for.
spec fn sextet_value(c: u8) -> Option<int> {
    if 65 <= c <= 90 {
        Some(c - 65)
    } else if 97 <= c <= 122 {
        Some(c - 71)
    } else if 48 <= c <= 57 {
        Some(c + 4)
    } else if c == 43 {
        Some(62)
    } else if c == 47 {
        Some(63)
    } else {
        None
    }
}

/// The bytes that a text stands for when it is read group by group without
/// asking whether it is the text of those bytes.
spec fn spec_read(s: Seq<u8>) -> Option<Seq<u8>>
    decreases s.len(),
{
    if s.len() == 0 {
        Some(Seq::empty())
    } else if s.len() < 4 {
        None
    } else {
        match (sextet_value(s[0]), sextet_value(s[1])) {
            (Some(v0), Some(v1)) => {
                let b0 = (v0 * 4 + v1 / 16) as u8;
                if s.len() == 4 && s[2] == PAD && s[3] == PAD {
                    Some(seq![b0])
                } else {
                    match sextet_value(s[2]) {
                        Some(v2) => {
                            let b1 = ((v1 % 16) * 16 + v2 / 4) as u8;
                            if s.len() == 4 && s[3] == PAD {
                                Some(seq![b0, b1])
                            } else {
                                match (sextet_value(s[3]), spec_read(s.skip(4))) {
                                    (Some(v3), Some(rest)) => {
                                        let b2 = ((v2 % 4) * 64 + v3) as u8;
                                        Some(seq![b0, b1, b2] + rest)
                                    },
                                    _ => None,
                                }
                            }
                        },
                        None => None,
                    }
                }
            },
            _ => None,
        }
    }
}

proof fn lemma_sextet(v: int)
    requires
        0 <= v < 64,
    ensures
        sextet_value(sextet_char(v)) == Some(v),
        sextet_char(v) != PAD,
{
}

/// Reading the text of a byte string gives the byte string back.
proof fn lemma_read_encoded(b: Seq<u8>)
    ensures
        spec_read(spec_encode(b)) == Some(b),
    decreases b.len(),
{
    let s = spec_encode(b);
    if b.len() == 0 {
    } else if b.len() == 1 {
        lemma_sextet(b[0] as int / 4);
        lemma_sextet((b[0] as int % 4) * 16);
        assert(spec_read(s).unwrap() =~= b);
    } else if b.len() == 2 {
        lemma_sextet(b[0] as int / 4);
        lemma_sextet((b[0] as int % 4) * 16 + b[1] as int / 16);
        lemma_sextet((b[1] as int % 16) * 4);
        assert(spec_read(s).unwrap() =~= b);
    } else {
        lemma_sextet(b[0] as int / 4);
        lemma_sextet((b[0] as int % 4) * 16 + b[1] as int / 16);
        lemma_sextet((b[1] as int % 16) * 4 + b[2] as int / 64);
        lemma_sextet(b[2] as int % 64);
        lemma_read_encoded(b.skip(3));
        assert(s.skip(4) =~= spec_encode(b.skip(3)));
        assert(seq![b[0], b[1], b[2]] + b.skip(3) =~= b);
    }
}

/// Two byte strings with the same text are the same.
pub proof fn lemma_encode_injective(a: Seq<u8>, b: Seq<u8>)
    requires
        spec_encode(a) == spec_encode(b),
    ensures
        a == b,
{
    lemma_read_encoded(a);
    lemma_read_encoded(b);
}

/// The byte string whose text `s` is, if there is one.
pub open spec fn spec_decode(s: Seq<u8>) -> Option<Seq<u8>> {
    if exists|b: Seq<u8>| #[trigger] spec_encode(b) == s {
        Some(choose|b: Seq<u8>| #[trigger] spec_encode(b) == s)
    } else {
        None
    }
}

/// Decoding the text of a byte string gives the byte string back.
pub proof fn lemma_decode_encoded(b: Seq<u8>)
    ensures
        spec_decode(spec_encode(b)) == Some(b),
{
    let found = choose|c: Seq<u8>| #[trigger] spec_encode(c) == spec_encode(b);
    lemma_encode_injective(found, b);
}

fn char_of(v: u8) -> (c: u8)
    requires
        v < 64,
    ensures
        c == sextet_char(v as int),
{
    if v < 26 {
        65 + v
    } else if v < 52 {
        71 + v
    } else if v < 62 {
        v - 4
    } else if v == 62 {
        43
    } else {
        47
    }
}

fn value_of(c: u8) -> (v: Option<u8>)
    ensures
        match v {
            Some(x) => sextet_value(c) == Some(x as int) && x < 64,
            None => sextet_value(c) is None,
        },
{
    if 65 <= c && c <= 90 {
        Some(c - 65)
    } else if 97 <= c && c <= 122 {
        Some(c - 71)
    } else if 48 <= c && c <= 57 {
        Some(c + 4)
    } else if c == 43 {
        Some(62)
    } else if c == 47 {
        Some(63)
    } else {
        None
    }
}

/// Writes the text of `b`.
pub fn encode(b: &[u8]) -> (text: Vec<u8>)
    ensures
        text@ == spec_encode(b@),
{
    let mut out: Vec<u8> = Vec::new();
    let mut i: usize = 0;
    let n = b.len();
    proof {
        assert(b@.skip(0) =~= b@);
        assert(out@ + spec_encode(b@) =~= spec_encode(b@));
    }
    while n - i >= 3
        invariant
            n == b@.len(),
            i <= n,
            out@ + spec_encode(b@.skip(i as int)) == spec_encode(b@),
        decreases n - i,
    {
        let b0 = b[i];
        let b1 = b[i + 1];
        let b2 = b[i + 2];
        proof {
            let rest = b@.skip(i as int);
            assert(rest.skip(3) =~= b@.skip(i + 3));
            assert(out@.push(sextet_char(b0 as int / 4)).push(
                sextet_char((b0 as int % 4) * 16 + b1 as int / 16),
            ).push(sextet_char((b1 as int % 16) * 4 + b2 as int / 64)).push(
                sextet_char(b2 as int % 64),
            ) + spec_encode(rest.skip(3)) =~= out@ + spec_encode(rest));
        }
        out.push(char_of(b0 / 4));
        out.push(char_of((b0 % 4) * 16 + b1 / 16));
        out.push(char_of((b1 % 16) * 4 + b2 / 64));
        out.push(char_of(b2 % 64));
        i += 3;
    }
    proof {
        let rest = b@.skip(i as int);
        if n - i == 1 {
            let b0 = b@[i as int] as int;
            assert(out@.push(sextet_char(b0 / 4)).push(sextet_char((b0 % 4) * 16)).push(PAD).push(
                PAD,
            ) =~= out@ + spec_encode(rest));
        } else if n - i == 2 {
            let b0 = b@[i as int] as int;
            let b1 = b@[i + 1] as int;
            assert(out@.push(sextet_char(b0 / 4)).push(sextet_char((b0 % 4) * 16 + b1 / 16)).push(
                sextet_char((b1 % 16) * 4),
            ).push(PAD) =~= out@ + spec_encode(rest));
        } else {
            assert(out@ + spec_encode(rest) =~= out@);
        }
    }
    if n - i == 1 {
        let b0 = b[i];
        out.push(char_of(b0 / 4));
        out.push(char_of((b0 % 4) * 16));
        out.push(PAD);
        out.push(PAD);
    } else if n - i == 2 {
        let b0 = b[i];
        let b1 = b[i + 1];
        out.push(char_of(b0 / 4));
        out.push(char_of((b0 % 4) * 16 + b1 / 16));
        out.push(char_of((b1 % 16) * 4));
        out.push(PAD);
    }
    out
}

/// The bytes of an optional vector.
spec fn opt_view(v: Option<Vec<u8>>) -> Option<Seq<u8>> {
    match v {
        Some(b) => Some(b@),
        None => None,
    }
}

/// Reads a text group by group.
fn read(s: &[u8]) -> (bytes: Option<Vec<u8>>)
    ensures
        opt_view(bytes) == spec_read(s@),
{
    let n = s.len();
    let mut out: Vec<u8> = Vec::new();
    let mut i: usize = 0;
    proof {
        assert(s@.skip(0) =~= s@);
        match spec_read(s@) {
            Some(rest) => {
                assert(out@ + rest =~= rest);
            },
            None => {},
        }
    }
    while i < n
        invariant
            n == s@.len(),
            i <= n,
            spec_read(s@) == match spec_read(s@.skip(i as int)) {
                Some(rest) => Some(out@ + rest),
                None => None,
            },
        decreases n - i,
    {
        let ghost tail = s@.skip(i as int);
        if n - i < 4 {
            return None;
        }
        assert(tail[0] == s@[i as int] && tail[1] == s@[i + 1] && tail[2] == s@[i + 2] && tail[3]
            == s@[i + 3]);
        let (v0, v1) = match (value_of(s[i]), value_of(s[i + 1])) {
            (Some(v0), Some(v1)) => (v0, v1),
            _ => {
                return None;
            },
        };
        let b0 = v0 * 4 + v1 / 16;
        if n - i == 4 && s[i + 2] == PAD && s[i + 3] == PAD {
            let ghost before = out@;
            out.push(b0);
            assert(out@ =~= before + seq![b0]);
            return Some(out);
        }
        let v2 = match value_of(s[i + 2]) {
            Some(v2) => v2,
            None => {
                return None;
            },
        };
        let b1 = (v1 % 16) * 16 + v2 / 4;
        if n - i == 4 && s[i + 3] == PAD {
            let ghost before = out@;
            out.push(b0);
            out.push(b1);
            assert(out@ =~= before + seq![b0, b1]);
            return Some(out);
        }
        let v3 = match value_of(s[i + 3]) {
            Some(v3) => v3,
            None => {
                return None;
            },
        };
        let b2 = (v2 % 4) * 64 + v3;
        proof {
            assert(tail.skip(4) =~= s@.skip(i + 4));
            match spec_read(tail.skip(4)) {
                Some(rest) => {
                    assert(out@.push(b0).push(b1).push(b2) + rest =~= out@ + (seq![b0, b1, b2]
                        + rest));
                },
                None => {},
            }
        }
        out.push(b0);
        out.push(b1);
        out.push(b2);
        i += 4;
    }
    assert(out@ + Seq::<u8>::empty() =~= out@);
    Some(out)
}

/// Reads the bytes that `text` stands for.
///
/// The result is `Some` exactly when `text` is the text of a byte string,
/// and then it is that byte string.
pub fn decode(text: &[u8]) -> (bytes: Option<Vec<u8>>)
    ensures
        match bytes {
            Some(b) => spec_encode(b@) == text@,
            None => forall|b: Seq<u8>| spec_encode(b) != text@,
        },
        match bytes {
            Some(b) => spec_decode(text@) == Some(b@),
            None => spec_decode(text@) is None,
        },
{
    let bytes = decode_strict(text);
    proof {
        if let Some(b) = &bytes {
            lemma_decode_encoded(b@);
        }
    }
    bytes
}

fn decode_strict(text: &[u8]) -> (bytes: Option<Vec<u8>>)
    ensures
        match bytes {
            Some(b) => spec_encode(b@) == text@,
            None => forall|b: Seq<u8>| spec_encode(b) != text@,
        },
{
    match read(text) {
        Some(candidate) => {
            let again = encode(candidate.as_slice());
            if bytes_eq(again.as_slice(), text) {
                Some(candidate)
            } else {
                assert forall|b: Seq<u8>| spec_encode(b) != text@ by {
                    if spec_encode(b) == text@ {
                        lemma_read_encoded(b);
                    }
                }
                None
            }
        },
        None => {
            assert forall|b: Seq<u8>| spec_encode(b) != text@ by {
                if spec_encode(b) == text@ {
                    lemma_read_encoded(b);
                }
            }
            None
        },
    }
}

} // verus!
