//! The content fingerprint: a DJB2-style rolling hash of a content prefix,
//! rendered as a lowercase hexadecimal string.
//!
//! The fingerprint serves only for approximate equality between the current
//! clipboard and each history entry: two contents sharing their first 1000
//! characters share a fingerprint by construction.

use vstd::prelude::*;
use vstd::string::*;

verus! {

/// Number of characters (Unicode scalar values) of the content that the
/// fingerprint covers.
pub const FINGERPRINT_PREFIX_CHARS: usize = 1000;

/// One step of the rolling hash: multiply the accumulator by 33 and add the
/// byte, both modulo 2^64.
pub open spec fn hash_step(h: u64, b: u8) -> u64 {
    vstd::wrapping::u64_specs::wrapping_add(vstd::wrapping::u64_specs::wrapping_mul(h, 33), b as u64)
}

/// The rolling hash of a byte sequence, accumulator seeded with 5381.
pub open spec fn hash_of_bytes(bytes: Seq<u8>) -> u64
    decreases bytes.len(),
{
    if bytes.len() == 0 {
        5381u64
    } else {
        hash_step(hash_of_bytes(bytes.drop_last()), bytes.last())
    }
}

/// The hexadecimal digit for a value below 16, lowercase.
pub open spec fn hex_digit(d: int) -> char
    recommends
        0 <= d < 16,
{
    if d == 0 { '0' }
    else if d == 1 { '1' }
    else if d == 2 { '2' }
    else if d == 3 { '3' }
    else if d == 4 { '4' }
    else if d == 5 { '5' }
    else if d == 6 { '6' }
    else if d == 7 { '7' }
    else if d == 8 { '8' }
    else if d == 9 { '9' }
    else if d == 10 { 'a' }
    else if d == 11 { 'b' }
    else if d == 12 { 'c' }
    else if d == 13 { 'd' }
    else if d == 14 { 'e' }
    else { 'f' }
}

/// The lowercase hexadecimal rendering of a number, at its natural width:
/// no leading zeros except for the single digit of zero itself.
pub open spec fn hex_repr(n: nat) -> Seq<char>
    decreases n,
{
    if n < 16 {
        seq![hex_digit(n as int)]
    } else {
        hex_repr(n / 16).push(hex_digit((n % 16) as int))
    }
}

/// The first `n` characters of `s`, or all of `s` when it is shorter.
pub open spec fn prefix_chars(s: Seq<char>, n: int) -> Seq<char> {
    if s.len() <= n {
        s
    } else {
        s.take(n)
    }
}

/// The fingerprint of a content string: the rolling hash of the UTF-8
/// encoding of its first 1000 characters, rendered in hexadecimal.
pub open spec fn fingerprint_of(s: Seq<char>) -> Seq<char> {
    hex_repr(hash_of_bytes(vstd::utf8::encode_utf8(prefix_chars(s, FINGERPRINT_PREFIX_CHARS as int))) as nat)
}

/// Two contents with the same first-1000-character prefix fingerprint alike;
/// in particular the fingerprint of a fixed content never varies.  The
/// converse does not hold: this is the documented collision of a
/// non-cryptographic digest.
pub proof fn lemma_fingerprint_prefix_collision(s: Seq<char>, t: Seq<char>)
    requires
        prefix_chars(s, FINGERPRINT_PREFIX_CHARS as int) == prefix_chars(t, FINGERPRINT_PREFIX_CHARS as int),
    ensures
        fingerprint_of(s) == fingerprint_of(t),
{
}

fn hex_digit_str(d: u64) -> (r: &'static str)
    requires
        d < 16,
    ensures
        r@ == seq![hex_digit(d as int)],
{
    if d == 0 {
        proof { reveal_strlit("0"); assert("0"@ =~= seq![hex_digit(0)]); }
        "0"
    } else if d == 1 {
        proof { reveal_strlit("1"); assert("1"@ =~= seq![hex_digit(1)]); }
        "1"
    } else if d == 2 {
        proof { reveal_strlit("2"); assert("2"@ =~= seq![hex_digit(2)]); }
        "2"
    } else if d == 3 {
        proof { reveal_strlit("3"); assert("3"@ =~= seq![hex_digit(3)]); }
        "3"
    } else if d == 4 {
        proof { reveal_strlit("4"); assert("4"@ =~= seq![hex_digit(4)]); }
        "4"
    } else if d == 5 {
        proof { reveal_strlit("5"); assert("5"@ =~= seq![hex_digit(5)]); }
        "5"
    } else if d == 6 {
        proof { reveal_strlit("6"); assert("6"@ =~= seq![hex_digit(6)]); }
        "6"
    } else if d == 7 {
        proof { reveal_strlit("7"); assert("7"@ =~= seq![hex_digit(7)]); }
        "7"
    } else if d == 8 {
        proof { reveal_strlit("8"); assert("8"@ =~= seq![hex_digit(8)]); }
        "8"
    } else if d == 9 {
        proof { reveal_strlit("9"); assert("9"@ =~= seq![hex_digit(9)]); }
        "9"
    } else if d == 10 {
        proof { reveal_strlit("a"); assert("a"@ =~= seq![hex_digit(10)]); }
        "a"
    } else if d == 11 {
        proof { reveal_strlit("b"); assert("b"@ =~= seq![hex_digit(11)]); }
        "b"
    } else if d == 12 {
        proof { reveal_strlit("c"); assert("c"@ =~= seq![hex_digit(12)]); }
        "c"
    } else if d == 13 {
        proof { reveal_strlit("d"); assert("d"@ =~= seq![hex_digit(13)]); }
        "d"
    } else if d == 14 {
        proof { reveal_strlit("e"); assert("e"@ =~= seq![hex_digit(14)]); }
        "e"
    } else {
        proof { reveal_strlit("f"); assert("f"@ =~= seq![hex_digit(15)]); }
        "f"
    }
}

/// Renders a 64-bit value in lowercase hexadecimal at its natural width.
pub fn to_hex(n: u64) -> (r: String)
    ensures
        r@ == hex_repr(n as nat),
    decreases n,
{
    if n < 16 {
        String::from_str(hex_digit_str(n))
    } else {
        let prefix = to_hex(n / 16);
        let r = prefix.concat(hex_digit_str(n % 16));
        proof {
            assert(hex_repr((n / 16) as nat).push(hex_digit((n % 16) as int))
                =~= hex_repr((n / 16) as nat) + seq![hex_digit((n % 16) as int)]);
        }
        r
    }
}

/// The rolling hash of the string's UTF-8 bytes, in hexadecimal.  No
/// truncation happens here: callers hand in the prefix they want hashed.
pub fn simple_hash(s: &str) -> (r: String)
    ensures
        r@ == hex_repr(hash_of_bytes(s.spec_bytes()) as nat),
{
    let bytes = s.as_bytes();
    let mut h: u64 = 5381;
    let mut i: usize = 0;
    while i < bytes.len()
        invariant
            i <= bytes@.len(),
            bytes@ == s.spec_bytes(),
            h == hash_of_bytes(bytes@.take(i as int)),
        decreases bytes@.len() - i,
    {
        h = h.wrapping_mul(33).wrapping_add(bytes[i] as u64);
        proof {
            assert(bytes@.take(i + 1).drop_last() =~= bytes@.take(i as int));
            assert(bytes@.take(i + 1).last() == bytes@[i as int]);
        }
        i += 1;
    }
    proof {
        assert(bytes@.take(bytes@.len() as int) =~= bytes@);
    }
    to_hex(h)
}

/// The fingerprint of a content string: the rolling hash of its first 1000
/// characters' UTF-8 encoding, in hexadecimal.
pub fn fingerprint(s: &str) -> (r: String)
    ensures
        r@ == fingerprint_of(s@),
{
    let n = s.unicode_len();
    if n > FINGERPRINT_PREFIX_CHARS {
        let t = s.substring_char(0, FINGERPRINT_PREFIX_CHARS);
        proof {
            assert(t@ =~= prefix_chars(s@, FINGERPRINT_PREFIX_CHARS as int));
        }
        simple_hash(t)
    } else {
        proof {
            assert(s@ =~= prefix_chars(s@, FINGERPRINT_PREFIX_CHARS as int));
        }
        simple_hash(s)
    }
}

/// The fingerprint of the current clipboard, given what reading the
/// clipboard produced.  A failed read carries no content and fingerprints
/// like the empty string: the marker is a visual aid only, so a failure to
/// read the clipboard must never abort the program.
pub fn clipboard_fingerprint(output: Option<String>) -> (r: String)
    ensures
        output matches Some(s) ==> r@ == fingerprint_of(s@),
        output is None ==> r@ == fingerprint_of(Seq::<char>::empty()),
{
    match output {
        Some(s) => fingerprint(s.as_str()),
        None => {
            let empty = String::new();
            fingerprint(empty.as_str())
        },
    }
}

} // verus!
