//! Percent-encoding with the signing rule's encode set: the unreserved
//! characters `A-Z a-z 0-9 - _ . ~` stay as they are; every other byte
//! becomes `%` followed by two uppercase hex digits.

use vstd::prelude::*;
use vstd::string::{StrSliceExecFns, StringSliceAdditionalSpecFns};
use crate::text::{all_ascii, ascii_chars, ascii_string};

verus! {

/// A byte left unescaped by the encoding.
pub open spec fn is_unreserved(b: u8) -> bool {
    (0x41 <= b <= 0x5a)  // A-Z
    || (0x61 <= b <= 0x7a)  // a-z
    || (0x30 <= b <= 0x39)  // 0-9
    || b == 0x2d  // -
    || b == 0x5f  // _
    || b == 0x2e  // .
    || b == 0x7e  // ~
}

/// The uppercase hex digit for a value below 16.
pub open spec fn hex_upper(n: u8) -> u8 {
    if n < 10 {
        (n + 0x30) as u8
    } else {
        (n - 10 + 0x41) as u8
    }
}

/// The encoding of one byte.
pub open spec fn encode_byte(b: u8) -> Seq<u8> {
    if is_unreserved(b) {
        seq![b]
    } else {
        seq![0x25u8, hex_upper(b / 16), hex_upper(b % 16)]
    }
}

/// The percent-encoding of a byte sequence.
pub open spec fn percent_encode_spec(s: Seq<u8>) -> Seq<u8>
    decreases s.len(),
{
    if s.len() == 0 {
        seq![]
    } else {
        encode_byte(s.first()) + percent_encode_spec(s.drop_first())
    }
}

/// Percent-encoding distributes over concatenation.
pub proof fn lemma_percent_encode_concat(a: Seq<u8>, b: Seq<u8>)
    ensures
        percent_encode_spec(a + b) == percent_encode_spec(a) + percent_encode_spec(b),
    decreases a.len(),
{
    if a.len() == 0 {
        assert(a + b =~= b);
        assert(percent_encode_spec(a) + percent_encode_spec(b) =~= percent_encode_spec(b));
    } else {
        assert((a + b).first() == a.first());
        assert((a + b).drop_first() =~= a.drop_first() + b);
        lemma_percent_encode_concat(a.drop_first(), b);
        assert(encode_byte(a.first()) + (percent_encode_spec(a.drop_first()) + percent_encode_spec(
            b)) =~= (encode_byte(a.first()) + percent_encode_spec(a.drop_first()))
            + percent_encode_spec(b));
    }
}

/// Appending one byte appends its encoding.
pub proof fn lemma_percent_encode_push(s: Seq<u8>, b: u8)
    ensures
        percent_encode_spec(s.push(b)) == percent_encode_spec(s) + encode_byte(b),
{
    assert(s.push(b) =~= s + seq![b]);
    lemma_percent_encode_concat(s, seq![b]);
    assert(seq![b].first() == b);
    assert(seq![b].drop_first() =~= Seq::<u8>::empty());
    assert(percent_encode_spec(seq![b]) == encode_byte(b) + percent_encode_spec(
        Seq::<u8>::empty()));
    assert(encode_byte(b) + Seq::<u8>::empty() =~= encode_byte(b));
}

/// The encoding of any sequence consists of ASCII bytes.
pub proof fn lemma_percent_encode_ascii(s: Seq<u8>)
    ensures
        all_ascii(percent_encode_spec(s)),
    decreases s.len(),
{
    if s.len() > 0 {
        lemma_percent_encode_ascii(s.drop_first());
        assert(all_ascii(encode_byte(s.first())));
    }
}

/// Percent-encodes a byte sequence.
pub fn percent_encode_bytes(input: &Vec<u8>) -> (r: Vec<u8>)
    ensures
        r@ == percent_encode_spec(input@),
{
    let n = input.len();
    let mut out: Vec<u8> = Vec::new();
    proof {
        assert(input@.take(0) =~= Seq::<u8>::empty());
    }
    let mut i: usize = 0;
    while i < n
        invariant
            0 <= i <= n,
            n == input@.len(),
            out@ == percent_encode_spec(input@.take(i as int)),
        decreases n - i,
    {
        let b = input[i];
        if (0x41 <= b && b <= 0x5a) || (0x61 <= b && b <= 0x7a) || (0x30 <= b && b <= 0x39) || b
            == 0x2d || b == 0x5f || b == 0x2e || b == 0x7e {
            out.push(b);
        } else {
            out.push(0x25);
            out.push(hex_upper_byte(b / 16));
            out.push(hex_upper_byte(b % 16));
        }
        proof {
            assert(input@.take(i + 1) =~= input@.take(i as int).push(input@[i as int]));
            lemma_percent_encode_push(input@.take(i as int), input@[i as int]);
            assert(out@ =~= percent_encode_spec(input@.take(i as int)) + encode_byte(
                input@[i as int]));
        }
        i = i + 1;
    }
    proof {
        assert(input@.take(n as int) =~= input@);
    }
    out
}

pub(crate) fn hex_upper_byte(n: u8) -> (r: u8)
    requires
        n < 16,
    ensures
        r == hex_upper(n),
{
    if n < 10 {
        n + 0x30
    } else {
        n - 10 + 0x41
    }
}

/// Percent-encodes the UTF-8 bytes of a string, leaving the unreserved
/// characters `A-Z a-z 0-9 - _ . ~` unescaped.
pub fn aliyun_percent_encode(input: &str) -> (r: String)
    ensures
        r@ == ascii_chars(percent_encode_spec(input.spec_bytes())),
{
    let bytes = input.as_bytes_vec();
    let encoded = percent_encode_bytes(&bytes);
    proof {
        lemma_percent_encode_ascii(bytes@);
    }
    ascii_string(encoded)
}

} // verus!
