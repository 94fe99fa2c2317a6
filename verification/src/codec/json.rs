//! Text values as they stand in the current invitation envelope: between
//! double quotes, with the escapes of JSON.
//!
//! The writer escapes the quote, the backslash and the control characters,
//! the latter by their short form where JSON has one and as `\u00xx` with
//! lower-case digits where it has none; every other byte stands for itself.
//! The reader accepts what the writer writes.

use vstd::prelude::*;

verus! {

/// The double quote.
pub const QUOTE: u8 = 34;

/// The backslash.
pub const BACKSLASH: u8 = 92;

/// The lower-case hexadecimal digit of `v`.
pub open spec fn hex_char(v: int) -> u8 {
    if v < 10 {
        (48 + v) as u8
    } else {
        (87 + v) as u8
    }
}

/// The bytes that stand for `c` between the quotes.
pub open spec fn escape_byte(c: u8) -> Seq<u8> {
    if c == QUOTE {
        seq![BACKSLASH, QUOTE]
    } else if c == BACKSLASH {
        seq![BACKSLASH, BACKSLASH]
    } else if c == 8 {
        seq![BACKSLASH, 98u8]
    } else if c == 12 {
        seq![BACKSLASH, 102u8]
    } else if c == 10 {
        seq![BACKSLASH, 110u8]
    } else if c == 13 {
        seq![BACKSLASH, 114u8]
    } else if c == 9 {
        seq![BACKSLASH, 116u8]
    } else if c < 32 {
        seq![BACKSLASH, 117u8, 48u8, 48u8, hex_char(c as int / 16), hex_char(c as int % 16)]
    } else {
        seq![c]
    }
}

/// The bytes that stand for `b` between the quotes.
pub open spec fn escape(b: Seq<u8>) -> Seq<u8>
    decreases b.len(),
{
    if b.len() == 0 {
        Seq::empty()
    } else {
        escape_byte(b[0]) + escape(b.skip(1))
    }
}

/// The text value of `b`: its escaped bytes between two quotes.
pub open spec fn spec_encode_string(b: Seq<u8>) -> Seq<u8> {
    seq![QUOTE] + (escape(b) + seq![QUOTE])
}

spec fn hex_value(c: u8) -> Option<int> {
    if 48 <= c <= 57 {
        Some(c - 48)
    } else if 97 <= c <= 102 {
        Some(c - 87)
    } else {
        None
    }
}

/// The byte that `s` begins with between the quotes, and the number of
/// bytes that stand for it.
spec fn spec_step(s: Seq<u8>) -> Option<(u8, int)> {
    if s.len() == 0 {
        None
    } else if s[0] != BACKSLASH {
        Some((s[0], 1))
    } else if s.len() < 2 {
        None
    } else if s[1] == QUOTE {
        Some((QUOTE, 2))
    } else if s[1] == BACKSLASH {
        Some((BACKSLASH, 2))
    } else if s[1] == 98 {
        Some((8u8, 2))
    } else if s[1] == 102 {
        Some((12u8, 2))
    } else if s[1] == 110 {
        Some((10u8, 2))
    } else if s[1] == 114 {
        Some((13u8, 2))
    } else if s[1] == 116 {
        Some((9u8, 2))
    } else if s[1] == 117 && s.len() >= 6 && s[2] == 48 && s[3] == 48 {
        match (hex_value(s[4]), hex_value(s[5])) {
            (Some(h), Some(l)) => Some(((h * 16 + l) as u8, 6)),
            _ => None,
        }
    } else {
        None
    }
}

/// The bytes that stand between the opening quote, which has been read,
/// and the closing one, and what is left after the latter.
spec fn spec_scan(s: Seq<u8>) -> Option<(Seq<u8>, Seq<u8>)>
    decreases s.len(),
{
    if s.len() == 0 {
        None
    } else if s[0] == QUOTE {
        Some((Seq::empty(), s.skip(1)))
    } else {
        match spec_step(s) {
            Some((c, k)) => {
                if 1 <= k <= s.len() {
                    match spec_scan(s.skip(k)) {
                        Some((more, rest)) => Some((seq![c] + more, rest)),
                        None => None,
                    }
                } else {
                    None
                }
            },
            None => None,
        }
    }
}

/// The bytes of the text value that `s` begins with, and what is left
/// after it.
pub closed spec fn spec_take_string(s: Seq<u8>) -> Option<(Seq<u8>, Seq<u8>)> {
    if s.len() > 0 && s[0] == QUOTE {
        spec_scan(s.skip(1))
    } else {
        None
    }
}

proof fn lemma_step(c: u8, rest: Seq<u8>)
    ensures
        spec_step(escape_byte(c) + rest) == Some((c, escape_byte(c).len() as int)),
        (escape_byte(c) + rest)[0] != QUOTE,
        1 <= escape_byte(c).len() <= 6,
{
    let s = escape_byte(c) + rest;
    if c < 32 && c != 8 && c != 12 && c != 10 && c != 13 && c != 9 {
        assert(s[4] == hex_char(c as int / 16));
        assert(s[5] == hex_char(c as int % 16));
        assert(hex_value(s[4]) == Some(c as int / 16));
        assert(hex_value(s[5]) == Some(c as int % 16));
    }
}

proof fn lemma_scan(b: Seq<u8>, rest: Seq<u8>)
    ensures
        spec_scan(escape(b) + (seq![QUOTE] + rest)) == Some((b, rest)),
    decreases b.len(),
{
    let s = escape(b) + (seq![QUOTE] + rest);
    if b.len() == 0 {
        assert(s =~= seq![QUOTE] + rest);
        assert(s.skip(1) =~= rest);
    } else {
        let first = escape_byte(b[0]);
        let tail = escape(b.skip(1)) + (seq![QUOTE] + rest);
        assert(s =~= first + tail);
        lemma_step(b[0], tail);
        assert(s.skip(first.len() as int) =~= tail);
        lemma_scan(b.skip(1), rest);
        assert(seq![b[0]] + b.skip(1) =~= b);
    }
}

/// The text value of a byte string is read as that byte string.
pub proof fn lemma_take_string(b: Seq<u8>, rest: Seq<u8>)
    ensures
        spec_take_string(spec_encode_string(b) + rest) == Some((b, rest)),
{
    let s = spec_encode_string(b) + rest;
    assert(s[0] == QUOTE);
    assert(s.skip(1) =~= escape(b) + (seq![QUOTE] + rest));
    lemma_scan(b, rest);
}

fn hex_of(v: u8) -> (c: u8)
    requires
        v < 16,
    ensures
        c == hex_char(v as int),
{
    if v < 10 {
        48 + v
    } else {
        87 + v
    }
}

fn push_escaped(out: &mut Vec<u8>, c: u8)
    ensures
        final(out)@ == old(out)@ + escape_byte(c),
{
    let ghost before = out@;
    if c == QUOTE {
        out.push(BACKSLASH);
        out.push(QUOTE);
    } else if c == BACKSLASH {
        out.push(BACKSLASH);
        out.push(BACKSLASH);
    } else if c == 8 {
        out.push(BACKSLASH);
        out.push(98);
    } else if c == 12 {
        out.push(BACKSLASH);
        out.push(102);
    } else if c == 10 {
        out.push(BACKSLASH);
        out.push(110);
    } else if c == 13 {
        out.push(BACKSLASH);
        out.push(114);
    } else if c == 9 {
        out.push(BACKSLASH);
        out.push(116);
    } else if c < 32 {
        out.push(BACKSLASH);
        out.push(117);
        out.push(48);
        out.push(48);
        out.push(hex_of(c / 16));
        out.push(hex_of(c % 16));
    } else {
        out.push(c);
    }
    assert(out@ =~= before + escape_byte(c));
}

/// Appends the text value of `b`.
pub(crate) fn push_string(out: &mut Vec<u8>, b: &[u8])
    ensures
        final(out)@ == old(out)@ + spec_encode_string(b@),
{
    let ghost before = out@;
    out.push(QUOTE);
    let ghost head = out@;
    let mut i: usize = 0;
    proof {
        assert(b@.skip(0) =~= b@);
    }
    while i < b.len()
        invariant
            i <= b@.len(),
            out@ + escape(b@.skip(i as int)) == head + escape(b@),
        decreases b@.len() - i,
    {
        proof {
            let tail = b@.skip(i as int);
            assert(tail[0] == b@[i as int]);
            assert(tail.skip(1) =~= b@.skip(i + 1));
            assert((out@ + escape_byte(b@[i as int])) + escape(b@.skip(i + 1)) =~= out@ + escape(
                tail,
            ));
        }
        push_escaped(out, b[i]);
        i += 1;
    }
    proof {
        assert(out@ + escape(b@.skip(i as int)) =~= out@);
        assert(out@.push(QUOTE) =~= before + spec_encode_string(b@));
    }
    out.push(QUOTE);
}

fn hex_value_of(c: u8) -> (v: Option<u8>)
    ensures
        match v {
            Some(x) => hex_value(c) == Some(x as int) && x < 16,
            None => hex_value(c) is None,
        },
{
    if 48 <= c && c <= 57 {
        Some(c - 48)
    } else if 97 <= c && c <= 102 {
        Some(c - 87)
    } else {
        None
    }
}

fn step(buf: &[u8], i: usize) -> (r: Option<(u8, usize)>)
    requires
        i < buf@.len(),
    ensures
        match r {
            Some((c, k)) => {
                &&& spec_step(buf@.skip(i as int)) == Some((c, k as int))
                &&& 1 <= k
                &&& i + k <= buf@.len()
            },
            None => spec_step(buf@.skip(i as int)) is None,
        },
{
    let ghost s = buf@.skip(i as int);
    let n = buf.len();
    assert(s[0] == buf@[i as int]);
    if buf[i] != BACKSLASH {
        return Some((buf[i], 1));
    }
    if n - i < 2 {
        return None;
    }
    assert(s[1] == buf@[i + 1]);
    let e = buf[i + 1];
    if e == QUOTE {
        Some((QUOTE, 2))
    } else if e == BACKSLASH {
        Some((BACKSLASH, 2))
    } else if e == 98 {
        Some((8, 2))
    } else if e == 102 {
        Some((12, 2))
    } else if e == 110 {
        Some((10, 2))
    } else if e == 114 {
        Some((13, 2))
    } else if e == 116 {
        Some((9, 2))
    } else if e == 117 && n - i >= 6 {
        assert(s[2] == buf@[i + 2] && s[3] == buf@[i + 3] && s[4] == buf@[i + 4] && s[5] == buf@[i
            + 5]);
        if buf[i + 2] == 48 && buf[i + 3] == 48 {
            match (hex_value_of(buf[i + 4]), hex_value_of(buf[i + 5])) {
                (Some(h), Some(l)) => Some((h * 16 + l, 6)),
                _ => None,
            }
        } else {
            None
        }
    } else {
        None
    }
}

/// Reads the text value at `pos`.
pub(crate) fn take_string(buf: &[u8], pos: usize) -> (r: Option<(Vec<u8>, usize)>)
    requires
        pos <= buf@.len(),
    ensures
        match r {
            Some((b, np)) => {
                &&& pos <= np <= buf@.len()
                &&& spec_take_string(buf@.skip(pos as int)) == Some((b@, buf@.skip(np as int)))
            },
            None => spec_take_string(buf@.skip(pos as int)) is None,
        },
{
    let n = buf.len();
    if pos >= n {
        return None;
    }
    assert(buf@.skip(pos as int)[0] == buf@[pos as int]);
    if buf[pos] != QUOTE {
        return None;
    }
    let mut out: Vec<u8> = Vec::new();
    let mut i: usize = pos + 1;
    let ghost start = buf@.skip(pos + 1);
    proof {
        assert(buf@.skip(pos as int).skip(1) =~= start);
        match spec_scan(start) {
            Some((more, rest)) => {
                assert(out@ + more =~= more);
            },
            None => {},
        }
    }
    while i < n
        invariant
            n == buf@.len(),
            pos < i <= n,
            start == buf@.skip(pos + 1),
            spec_take_string(buf@.skip(pos as int)) == spec_scan(start),
            spec_scan(start) == match spec_scan(buf@.skip(i as int)) {
                Some((more, rest)) => Some((out@ + more, rest)),
                None => None,
            },
        decreases n - i,
    {
        let ghost s = buf@.skip(i as int);
        assert(s[0] == buf@[i as int]);
        if buf[i] == QUOTE {
            proof {
                assert(s.skip(1) =~= buf@.skip(i + 1));
                assert(out@ + Seq::<u8>::empty() =~= out@);
            }
            return Some((out, i + 1));
        }
        match step(buf, i) {
            Some((c, k)) => {
                proof {
                    assert(s.skip(k as int) =~= buf@.skip(i + k));
                    match spec_scan(s.skip(k as int)) {
                        Some((more, rest)) => {
                            assert(out@.push(c) + more =~= out@ + (seq![c] + more));
                        },
                        None => {},
                    }
                }
                out.push(c);
                i += k;
            },
            None => {
                return None;
            },
        }
    }
    None
}

} // verus!
