//! Unsigned decimal numbers as they stand in the invitation envelopes.
//!
//! Decoding is strict: a text is accepted only if it is the shortest
//! decimal text of a number that fits in 64 bits, without sign or leading
//! zero.

use vstd::prelude::*;
use crate::bytes::bytes_eq;

verus! {

/// Whether `c` is one of the characters `0` to `9`.
pub open spec fn is_digit(c: u8) -> bool {
    48 <= c <= 57
}

/// The decimal text of `n`, without leading zero.
pub open spec fn spec_encode(n: nat) -> Seq<u8>
    decreases n,
{
    if n < 10 {
        seq![(48 + n) as u8]
    } else {
        spec_encode(n / 10).push((48 + n % 10) as u8)
    }
}

/// The number that a run of digits stands for, leading zeros allowed.
spec fn spec_value(s: Seq<u8>) -> Option<nat>
    decreases s.len(),
{
    if s.len() == 0 {
        None
    } else if !is_digit(s.last()) {
        None
    } else if s.len() == 1 {
        Some((s[0] - 48) as nat)
    } else {
        match spec_value(s.drop_last()) {
            Some(v) => Some(v * 10 + (s.last() - 48) as nat),
            None => None,
        }
    }
}

/// The text of a number is a non-empty run of digits.
pub proof fn lemma_encoded_digits(n: nat)
    ensures
        spec_encode(n).len() >= 1,
        forall|i: int| 0 <= i < spec_encode(n).len() ==> is_digit(#[trigger] spec_encode(n)[i]),
    decreases n,
{
    if n >= 10 {
        lemma_encoded_digits(n / 10);
    }
}

/// Reading the text of a number gives the number back.
proof fn lemma_value_of_encoded(n: nat)
    ensures
        spec_value(spec_encode(n)) == Some(n),
    decreases n,
{
    if n >= 10 {
        lemma_value_of_encoded(n / 10);
        lemma_encoded_digits(n / 10);
        assert(spec_encode(n).drop_last() =~= spec_encode(n / 10));
    }
}

/// Two numbers with the same text are the same.
pub proof fn lemma_encode_injective(a: nat, b: nat)
    requires
        spec_encode(a) == spec_encode(b),
    ensures
        a == b,
{
    lemma_value_of_encoded(a);
    lemma_value_of_encoded(b);
}

/// The number that fits in 64 bits and whose text `s` is, if there is one.
pub open spec fn spec_decode(s: Seq<u8>) -> Option<u64> {
    if exists|v: u64| #[trigger] spec_encode(v as nat) == s {
        Some(choose|v: u64| #[trigger] spec_encode(v as nat) == s)
    } else {
        None
    }
}

/// Decoding the text of a number gives the number back.
pub proof fn lemma_decode_encoded(n: u64)
    ensures
        spec_decode(spec_encode(n as nat)) == Some(n),
{
    let found = choose|v: u64| #[trigger] spec_encode(v as nat) == spec_encode(n as nat);
    lemma_encode_injective(found as nat, n as nat);
}

/// A run of digits that stands for a number begins with runs that stand
/// for numbers no larger.
proof fn lemma_value_prefix(s: Seq<u8>, k: int)
    requires
        1 <= k <= s.len(),
        spec_value(s) is Some,
    ensures
        spec_value(s.take(k)) is Some,
        spec_value(s.take(k)).unwrap() <= spec_value(s).unwrap(),
    decreases s.len(),
{
    if k == s.len() {
        assert(s.take(k) =~= s);
    } else {
        assert(s.drop_last().take(k) =~= s.take(k));
        lemma_value_prefix(s.drop_last(), k);
    }
}

/// Writes the decimal text of `n`.
pub fn encode(n: u64) -> (text: Vec<u8>)
    ensures
        text@ == spec_encode(n as nat),
{
    let mut low_first: Vec<u8> = Vec::new();
    let mut m: u64 = n;
    let ghost mut suffix: Seq<u8> = Seq::empty();
    proof {
        assert(spec_encode(m as nat) + suffix =~= spec_encode(n as nat));
    }
    while m >= 10
        invariant
            spec_encode(n as nat) == spec_encode(m as nat) + suffix,
            low_first@.len() == suffix.len(),
            forall|k: int|
                0 <= k < suffix.len() ==> #[trigger] low_first@[k] == suffix[suffix.len() - 1 - k],
        decreases m,
    {
        let d: u8 = 48 + (m % 10) as u8;
        proof {
            let shorter = spec_encode((m / 10) as nat);
            assert(shorter.push(d) + suffix =~= shorter + (seq![d] + suffix));
            suffix = seq![d] + suffix;
        }
        low_first.push(d);
        m = m / 10;
    }
    let mut out: Vec<u8> = Vec::new();
    out.push(48 + m as u8);
    let mut k: usize = low_first.len();
    assert(out@ =~= spec_encode(m as nat) + suffix.take(0));
    while k > 0
        invariant
            k <= low_first@.len(),
            low_first@.len() == suffix.len(),
            forall|j: int|
                0 <= j < suffix.len() ==> #[trigger] low_first@[j] == suffix[suffix.len() - 1 - j],
            out@ == spec_encode(m as nat) + suffix.take(suffix.len() - k),
        decreases k,
    {
        k -= 1;
        proof {
            let done = suffix.len() - k - 1;
            assert(suffix.take(done + 1) =~= suffix.take(done).push(suffix[done]));
            assert(low_first@[k as int] == suffix[suffix.len() - 1 - k]);
            assert((spec_encode(m as nat) + suffix.take(done)).push(suffix[done]) =~= spec_encode(
                m as nat,
            ) + suffix.take(done + 1));
        }
        out.push(low_first[k]);
    }
    assert(suffix.take(suffix.len() as int) =~= suffix);
    out
}

/// Reads a run of digits, leading zeros allowed.
fn read(s: &[u8]) -> (n: Option<u64>)
    ensures
        match n {
            Some(v) => spec_value(s@) == Some(v as nat),
            None => spec_value(s@) is None || spec_value(s@).unwrap() > u64::MAX,
        },
{
    let len = s.len();
    if len == 0 {
        return None;
    }
    let mut acc: u64 = 0;
    let mut i: usize = 0;
    while i < len
        invariant
            len == s@.len(),
            i <= len,
            i == 0 ==> acc == 0,
            i > 0 ==> spec_value(s@.take(i as int)) == Some(acc as nat),
        decreases len - i,
    {
        let c = s[i];
        let ghost next = s@.take(i + 1);
        proof {
            assert(next.drop_last() =~= s@.take(i as int));
            assert(next.last() == c);
        }
        if c < 48 || c > 57 {
            proof {
                if spec_value(s@) is Some {
                    lemma_value_prefix(s@, i + 1);
                }
            }
            return None;
        }
        let d: u64 = (c - 48) as u64;
        if acc > (u64::MAX - d) / 10 {
            proof {
                assert(spec_value(next) == Some((acc * 10 + d) as nat));
                if spec_value(s@) is Some {
                    lemma_value_prefix(s@, i + 1);
                }
            }
            return None;
        }
        acc = acc * 10 + d;
        i += 1;
    }
    assert(s@.take(i as int) =~= s@);
    Some(acc)
}

/// Reads the number that `text` stands for.
///
/// The result is `Some` exactly when `text` is the decimal text of a number
/// that fits in 64 bits, and then it is that number.
pub fn decode(text: &[u8]) -> (n: Option<u64>)
    ensures
        match n {
            Some(v) => spec_encode(v as nat) == text@,
            None => forall|v: u64| spec_encode(v as nat) != text@,
        },
        n == spec_decode(text@),
{
    let n = decode_strict(text);
    proof {
        if let Some(v) = n {
            lemma_decode_encoded(v);
        }
    }
    n
}

fn decode_strict(text: &[u8]) -> (n: Option<u64>)
    ensures
        match n {
            Some(v) => spec_encode(v as nat) == text@,
            None => forall|v: u64| spec_encode(v as nat) != text@,
        },
{
    match read(text) {
        Some(candidate) => {
            let again = encode(candidate);
            if bytes_eq(again.as_slice(), text) {
                Some(candidate)
            } else {
                assert forall|v: u64| spec_encode(v as nat) != text@ by {
                    if spec_encode(v as nat) == text@ {
                        lemma_value_of_encoded(v as nat);
                    }
                }
                None
            }
        },
        None => {
            assert forall|v: u64| spec_encode(v as nat) != text@ by {
                if spec_encode(v as nat) == text@ {
                    lemma_value_of_encoded(v as nat);
                }
            }
            None
        },
    }
}

} // verus!
