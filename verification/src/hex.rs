//! The grammar of a colour written in hexadecimal.
//!
//! A colour is any number of `#` signs followed by exactly six bytes: three
//! channels, red first. A channel is two hexadecimal digits of either case.

use vstd::prelude::*;
use vstd::utf8::encode_utf8;

verus! {

/// The byte `#`.
pub const HASH: u8 = 0x23;

/// The value of a hexadecimal digit, of either case.
pub open spec fn hex_digit(b: u8) -> Option<u8> {
    if 0x30 <= b <= 0x39 {
        Some((b - 0x30) as u8)
    } else if 0x61 <= b <= 0x66 {
        Some((b - 0x61 + 10) as u8)
    } else if 0x41 <= b <= 0x46 {
        Some((b - 0x41 + 10) as u8)
    } else {
        None
    }
}

/// The value of a channel written as the two bytes `hi` and `lo`: sixteen
/// times the first digit plus the second, where both are hexadecimal digits.
pub open spec fn hex_pair(hi: u8, lo: u8) -> Option<u8> {
    match (hex_digit(hi), hex_digit(lo)) {
        (Some(h), Some(l)) => Some((16 * h + l) as u8),
        _ => None,
    }
}

/// The number of `#` signs that `s` starts with.
pub open spec fn hash_prefix_len(s: Seq<u8>) -> nat
    decreases s.len(),
{
    if s.len() > 0 && s[0] == HASH {
        1 + hash_prefix_len(s.skip(1))
    } else {
        0
    }
}

/// The colour that the bytes `s` spell, if they spell one.
pub open spec fn parse_hex_color(s: Seq<u8>) -> Option<(u8, u8, u8)> {
    let k = hash_prefix_len(s) as int;
    if s.len() - k != 6 {
        None
    } else {
        match (hex_pair(s[k], s[k + 1]), hex_pair(s[k + 2], s[k + 3]), hex_pair(s[k + 4], s[k + 5])) {
            (Some(r), Some(g), Some(b)) => Some((r, g, b)),
            _ => None,
        }
    }
}

/// The colour that a string spells, read through its UTF-8 bytes.
pub open spec fn color_of_text(text: Seq<char>) -> Option<(u8, u8, u8)> {
    parse_hex_color(encode_utf8(text))
}

/// A colour is spelled by hexadecimal digits alone: where the bytes `s`
/// spell one, each of the six bytes behind the `#` signs is such a digit,
/// and each channel is sixteen times its first digit plus its second. So a
/// sign, a blank or any other byte among the six makes the text no colour.
pub proof fn lemma_color_is_six_digits(s: Seq<u8>)
    requires
        parse_hex_color(s) is Some,
    ensures
        s.len() == hash_prefix_len(s) + 6,
        forall|j: int| hash_prefix_len(s) <= j < s.len() ==> hex_digit(#[trigger] s[j]) is Some,
        ({
            let k = hash_prefix_len(s) as int;
            let (r, g, b) = parse_hex_color(s).unwrap();
            &&& r == 16 * hex_digit(s[k]).unwrap() + hex_digit(s[k + 1]).unwrap()
            &&& g == 16 * hex_digit(s[k + 2]).unwrap() + hex_digit(s[k + 3]).unwrap()
            &&& b == 16 * hex_digit(s[k + 4]).unwrap() + hex_digit(s[k + 5]).unwrap()
        }),
{
    let k = hash_prefix_len(s) as int;
    assert forall|j: int| k <= j < s.len() implies hex_digit(#[trigger] s[j]) is Some by {
        if j == k || j == k + 1 {
            assert(hex_pair(s[k], s[k + 1]) is Some);
        } else if j == k + 2 || j == k + 3 {
            assert(hex_pair(s[k + 2], s[k + 3]) is Some);
        } else {
            assert(hex_pair(s[k + 4], s[k + 5]) is Some);
        }
    }
}

/// The `#` signs at the start of `s` end at the first other byte.
pub proof fn lemma_hash_prefix(s: Seq<u8>, k: int)
    requires
        0 <= k <= s.len(),
        forall|j: int| 0 <= j < k ==> s[j] == HASH,
        k < s.len() ==> s[k] != HASH,
    ensures
        hash_prefix_len(s) == k,
    decreases k,
{
    if k > 0 {
        let rest = s.skip(1);
        assert forall|j: int| 0 <= j < k - 1 implies rest[j] == HASH by {
            assert(rest[j] == s[j + 1]);
        }
        if k - 1 < rest.len() {
            assert(rest[k - 1] == s[k]);
        }
        lemma_hash_prefix(rest, k - 1);
    }
}

/// Reads one hexadecimal digit.
pub fn read_hex_digit(b: u8) -> (d: Option<u8>)
    ensures
        d == hex_digit(b),
        d matches Some(x) ==> x < 16,
{
    if 0x30 <= b && b <= 0x39 {
        Some(b - 0x30)
    } else if 0x61 <= b && b <= 0x66 {
        Some(b - 0x61 + 10)
    } else if 0x41 <= b && b <= 0x46 {
        Some(b - 0x41 + 10)
    } else {
        None
    }
}

/// Reads one channel from its two bytes.
pub fn read_hex_pair(hi: u8, lo: u8) -> (c: Option<u8>)
    ensures
        c == hex_pair(hi, lo),
{
    match (read_hex_digit(hi), read_hex_digit(lo)) {
        (Some(h), Some(l)) => Some(16 * h + l),
        _ => None,
    }
}

/// Reads a colour from its text: `Some` exactly for the strings that the
/// grammar admits, with the three channels they spell.
pub fn read_hex_color(text: &str) -> (rgb: Option<(u8, u8, u8)>)
    ensures
        rgb == color_of_text(text@),
{
    let bytes = text.as_bytes();
    let n: usize = bytes.len();
    let mut k: usize = 0;
    while k < n && bytes[k] == HASH
        invariant
            k <= n,
            n == bytes@.len(),
            forall|j: int| 0 <= j < k ==> bytes@[j] == HASH,
        decreases n - k,
    {
        k = k + 1;
    }
    proof {
        lemma_hash_prefix(bytes@, k as int);
    }
    if n - k != 6 {
        return None;
    }
    match (
        read_hex_pair(bytes[k], bytes[k + 1]),
        read_hex_pair(bytes[k + 2], bytes[k + 3]),
        read_hex_pair(bytes[k + 4], bytes[k + 5]),
    ) {
        (Some(r), Some(g), Some(b)) => Some((r, g, b)),
        _ => None,
    }
}

} // verus!
