//! Reading and writing the pieces that the invitation envelopes are made
//! of: fixed words, fields that end at a separator, and numbers.
//!
//! Each reader takes what is left of a text and gives back what it read
//! and what is left after it.

use vstd::prelude::*;
use vstd::slice::slice_subrange;
use vstd::string::StringSliceAdditionalSpecFns;
use crate::bytes::{append_bytes, bytes_eq};
use crate::codec::decimal;
use crate::codec::decimal::is_digit;

verus! {

/// The bytes of a text of ASCII characters.
pub open spec fn ascii(s: Seq<char>) -> Seq<u8> {
    Seq::new(s.len(), |i: int| s[i] as u8)
}

/// Appends a word of ASCII characters.
pub(crate) fn push_text(out: &mut Vec<u8>, word: &str)
    requires
        word.is_ascii(),
    ensures
        final(out)@ == old(out)@ + ascii(word@),
{
    broadcast use vstd::string::is_ascii_spec_bytes;

    append_bytes(out, word.as_bytes());
    assert(word.spec_bytes() =~= ascii(word@));
}

/// What is left of `s` after the word `lit`, if `s` begins with it.
pub open spec fn spec_expect(s: Seq<u8>, lit: Seq<u8>) -> Option<Seq<u8>> {
    if lit.len() <= s.len() && s.take(lit.len() as int) == lit {
        Some(s.skip(lit.len() as int))
    } else {
        None
    }
}

/// A text that begins with a word is read as that word and the rest.
pub proof fn lemma_expect(lit: Seq<u8>, rest: Seq<u8>)
    ensures
        spec_expect(lit + rest, lit) == Some(rest),
{
    assert((lit + rest).take(lit.len() as int) =~= lit);
    assert((lit + rest).skip(lit.len() as int) =~= rest);
}

/// A text that differs from a word at some place does not begin with it.
pub proof fn lemma_expect_differs(s: Seq<u8>, lit: Seq<u8>, i: int)
    requires
        0 <= i < lit.len(),
        i < s.len() ==> s[i] != lit[i],
    ensures
        spec_expect(s, lit) is None,
{
    if lit.len() <= s.len() {
        assert(s.take(lit.len() as int)[i] == s[i]);
    }
}

/// Reads the word `lit` at `pos`.
pub(crate) fn expect(buf: &[u8], pos: usize, lit: &str) -> (next: Option<usize>)
    requires
        pos <= buf@.len(),
        lit.is_ascii(),
    ensures
        match next {
            Some(np) => {
                &&& pos <= np <= buf@.len()
                &&& spec_expect(buf@.skip(pos as int), ascii(lit@)) == Some(buf@.skip(np as int))
            },
            None => spec_expect(buf@.skip(pos as int), ascii(lit@)) is None,
        },
{
    broadcast use vstd::string::is_ascii_spec_bytes;

    let word = lit.as_bytes();
    assert(word@ =~= ascii(lit@));
    if buf.len() - pos < word.len() {
        return None;
    }
    let end = pos + word.len();
    let part = slice_subrange(buf, pos, end);
    assert(part@ =~= buf@.skip(pos as int).take(word@.len() as int));
    if bytes_eq(part, word) {
        assert(buf@.skip(pos as int).skip(word@.len() as int) =~= buf@.skip(end as int));
        Some(end)
    } else {
        None
    }
}

/// The number of bytes of `s` before the first `c`, or before the end.
pub open spec fn span_until(s: Seq<u8>, c: u8) -> nat
    decreases s.len(),
{
    if s.len() == 0 || s[0] == c {
        0
    } else {
        1 + span_until(s.skip(1), c)
    }
}

/// The field of `s` that ends at the first separator `c`, and what is left
/// after that separator.
pub open spec fn spec_take_until(s: Seq<u8>, c: u8) -> Option<(Seq<u8>, Seq<u8>)> {
    let k = span_until(s, c);
    if k < s.len() {
        Some((s.take(k as int), s.skip(k as int + 1)))
    } else {
        None
    }
}

/// The span never passes the end.
pub proof fn lemma_span_bound(s: Seq<u8>, c: u8)
    ensures
        span_until(s, c) <= s.len(),
    decreases s.len(),
{
    if s.len() > 0 && s[0] != c {
        lemma_span_bound(s.skip(1), c);
    }
}

/// A field without separator, followed by one, spans itself.
pub proof fn lemma_span_field(field: Seq<u8>, c: u8, rest: Seq<u8>)
    requires
        !field.contains(c),
    ensures
        span_until(field + (seq![c] + rest), c) == field.len(),
    decreases field.len(),
{
    let s = field + (seq![c] + rest);
    if field.len() == 0 {
        assert(s[0] == c);
    } else {
        assert(field.contains(field[0]));
        assert(s[0] == field[0]);
        let shorter = field.skip(1);
        assert forall|x: u8| shorter.contains(x) implies field.contains(x) by {
            let i = choose|i: int| 0 <= i < shorter.len() && shorter[i] == x;
            assert(field[i + 1] == x);
        }
        assert(s.skip(1) =~= shorter + (seq![c] + rest));
        lemma_span_field(shorter, c, rest);
    }
}

/// A field without separator, followed by one, is read as itself.
pub proof fn lemma_take_until(field: Seq<u8>, c: u8, rest: Seq<u8>)
    requires
        !field.contains(c),
    ensures
        spec_take_until(field + (seq![c] + rest), c) == Some((field, rest)),
{
    let s = field + (seq![c] + rest);
    lemma_span_field(field, c, rest);
    assert(s.take(field.len() as int) =~= field);
    assert(s.skip(field.len() as int + 1) =~= rest);
}

/// Reads the field at `pos` that ends at the first separator `c`. The
/// result is the position of that separator: the field ends before it, and
/// what is left begins after it.
pub(crate) fn take_until(buf: &[u8], pos: usize, c: u8) -> (sep: Option<usize>)
    requires
        pos <= buf@.len(),
    ensures
        match sep {
            Some(k) => {
                &&& pos <= k < buf@.len()
                &&& spec_take_until(buf@.skip(pos as int), c) == Some(
                    (buf@.subrange(pos as int, k as int), buf@.skip(k + 1)),
                )
            },
            None => spec_take_until(buf@.skip(pos as int), c) is None,
        },
{
    let n = buf.len();
    let mut i: usize = pos;
    proof {
        lemma_span_bound(buf@.skip(pos as int), c);
    }
    while i < n && buf[i] != c
        invariant
            n == buf@.len(),
            pos <= i <= n,
            span_until(buf@.skip(pos as int), c) == (i - pos) + span_until(buf@.skip(i as int), c),
        decreases n - i,
    {
        proof {
            let tail = buf@.skip(i as int);
            assert(tail[0] == buf@[i as int]);
            assert(tail.skip(1) =~= buf@.skip(i + 1));
        }
        i += 1;
    }
    proof {
        let tail = buf@.skip(i as int);
        if i < n {
            assert(tail[0] == buf@[i as int]);
        }
        assert(span_until(tail, c) == 0);
        let s = buf@.skip(pos as int);
        assert(s.take(i - pos) =~= buf@.subrange(pos as int, i as int));
        if i < n {
            assert(s.skip(i - pos + 1) =~= buf@.skip(i + 1));
        }
    }
    if i < n {
        Some(i)
    } else {
        None
    }
}

/// The number of digits that `s` begins with.
pub open spec fn digit_run(s: Seq<u8>) -> nat
    decreases s.len(),
{
    if s.len() == 0 || !is_digit(s[0]) {
        0
    } else {
        1 + digit_run(s.skip(1))
    }
}

/// The number that `s` begins with, read as far as its digits go, and what
/// is left after it.
pub open spec fn spec_take_number(s: Seq<u8>) -> Option<(u64, Seq<u8>)> {
    let k = digit_run(s);
    if k <= s.len() {
        match decimal::spec_decode(s.take(k as int)) {
            Some(n) => Some((n, s.skip(k as int))),
            None => None,
        }
    } else {
        None
    }
}

/// The run of digits never passes the end.
pub proof fn lemma_digit_run_bound(s: Seq<u8>)
    ensures
        digit_run(s) <= s.len(),
    decreases s.len(),
{
    if s.len() > 0 && is_digit(s[0]) {
        lemma_digit_run_bound(s.skip(1));
    }
}

/// Digits followed by something else run as far as they go.
pub proof fn lemma_digit_run(digits: Seq<u8>, rest: Seq<u8>)
    requires
        forall|i: int| 0 <= i < digits.len() ==> is_digit(#[trigger] digits[i]),
        rest.len() == 0 || !is_digit(rest[0]),
    ensures
        digit_run(digits + rest) == digits.len(),
    decreases digits.len(),
{
    let s = digits + rest;
    if digits.len() == 0 {
        assert(s =~= rest);
    } else {
        assert(s[0] == digits[0]);
        let shorter = digits.skip(1);
        assert forall|i: int| 0 <= i < shorter.len() implies is_digit(#[trigger] shorter[i]) by {
            assert(shorter[i] == digits[i + 1]);
        }
        assert(s.skip(1) =~= shorter + rest);
        lemma_digit_run(shorter, rest);
    }
}

/// The text of a number, followed by something that is no digit, is read
/// as that number.
pub proof fn lemma_take_number(n: u64, rest: Seq<u8>)
    requires
        rest.len() == 0 || !is_digit(rest[0]),
    ensures
        spec_take_number(decimal::spec_encode(n as nat) + rest) == Some((n, rest)),
{
    let digits = decimal::spec_encode(n as nat);
    let s = digits + rest;
    decimal::lemma_encoded_digits(n as nat);
    lemma_digit_run(digits, rest);
    decimal::lemma_decode_encoded(n);
    assert(s.take(digits.len() as int) =~= digits);
    assert(s.skip(digits.len() as int) =~= rest);
}

/// Reads the number at `pos`.
pub(crate) fn take_number(buf: &[u8], pos: usize) -> (r: Option<(u64, usize)>)
    requires
        pos <= buf@.len(),
    ensures
        match r {
            Some((n, np)) => {
                &&& pos <= np <= buf@.len()
                &&& spec_take_number(buf@.skip(pos as int)) == Some((n, buf@.skip(np as int)))
            },
            None => spec_take_number(buf@.skip(pos as int)) is None,
        },
{
    let len = buf.len();
    let mut i: usize = pos;
    proof {
        lemma_digit_run_bound(buf@.skip(pos as int));
    }
    while i < len && 48 <= buf[i] && buf[i] <= 57
        invariant
            len == buf@.len(),
            pos <= i <= len,
            digit_run(buf@.skip(pos as int)) == (i - pos) + digit_run(buf@.skip(i as int)),
        decreases len - i,
    {
        proof {
            let tail = buf@.skip(i as int);
            assert(tail[0] == buf@[i as int]);
            assert(tail.skip(1) =~= buf@.skip(i + 1));
        }
        i += 1;
    }
    proof {
        let tail = buf@.skip(i as int);
        if i < len {
            assert(tail[0] == buf@[i as int]);
        }
        assert(digit_run(tail) == 0);
        let s = buf@.skip(pos as int);
        assert(s.take(i - pos) =~= buf@.subrange(pos as int, i as int));
        assert(s.skip(i - pos) =~= buf@.skip(i as int));
    }
    match decimal::decode(slice_subrange(buf, pos, i)) {
        Some(n) => Some((n, i)),
        None => None,
    }
}

} // verus!
