//! The content checksum of the change detector: a SHA-256 digest of the
//! exact rendered output, written in lowercase hex. Any change to the body
//! text or to a resolved link target changes it.

use crate::chars::string_from_chars;
use sha2::Digest;
use vstd::prelude::*;

verus! {

/// The SHA-256 digest of the UTF-8 bytes of `content`.
pub uninterp spec fn sha256_of(content: Seq<char>) -> Seq<u8>;

/// The lowercase hex digit for `n` (0 to 15).
pub open spec fn hex_digit(n: u8) -> char {
    if n == 0 {
        '0'
    } else if n == 1 {
        '1'
    } else if n == 2 {
        '2'
    } else if n == 3 {
        '3'
    } else if n == 4 {
        '4'
    } else if n == 5 {
        '5'
    } else if n == 6 {
        '6'
    } else if n == 7 {
        '7'
    } else if n == 8 {
        '8'
    } else if n == 9 {
        '9'
    } else if n == 10 {
        'a'
    } else if n == 11 {
        'b'
    } else if n == 12 {
        'c'
    } else if n == 13 {
        'd'
    } else if n == 14 {
        'e'
    } else {
        'f'
    }
}

/// The bytes written as lowercase hex, two digits per byte, high nibble
/// first.
pub open spec fn spec_hex_of_bytes(b: Seq<u8>) -> Seq<char> {
    Seq::new(
        2 * b.len(),
        |i: int|
            if i % 2 == 0 {
                hex_digit(b[i / 2] / 16)
            } else {
                hex_digit(b[i / 2] % 16)
            },
    )
}

/// The content checksum as it is embedded in markers: lowercase hex of the
/// SHA-256 digest.
pub open spec fn spec_checksum(content: Seq<char>) -> Seq<char> {
    spec_hex_of_bytes(sha256_of(content))
}

/// Relies on `sha2::Sha256::digest` (through the `digest::Digest` trait):
/// the SHA-256 digest of the input bytes, 32 bytes long, a function of the
/// input alone.
#[verifier::external_body]
fn sha256_digest_bytes(content: &str) -> (r: Vec<u8>)
    ensures
        r@ == sha256_of(content@),
        r@.len() == 32,
{
    sha2::Sha256::digest(content.as_bytes()).to_vec()
}

/// The lowercase hex spelling of `b`.
pub fn hex_of_bytes(b: &Vec<u8>) -> (r: Vec<char>)
    ensures
        r@ == spec_hex_of_bytes(b@),
{
    let mut r: Vec<char> = Vec::new();
    let mut i: usize = 0;
    while i < b.len()
        invariant
            i <= b@.len(),
            r@ == spec_hex_of_bytes(b@).subrange(0, 2 * i as int),
        decreases b@.len() - i,
    {
        let hi = b[i] / 16;
        let lo = b[i] % 16;
        r.push(hex_digit_char(hi));
        r.push(hex_digit_char(lo));
        proof {
            assert(r@ =~= spec_hex_of_bytes(b@).subrange(0, 2 * (i + 1 as int)));
        }
        i = i + 1;
    }
    proof {
        assert(spec_hex_of_bytes(b@).subrange(0, 2 * b@.len() as int) =~= spec_hex_of_bytes(b@));
    }
    r
}

/// The lowercase hex digit for `n` (0 to 15).
pub fn hex_digit_char(n: u8) -> (r: char)
    requires
        n < 16,
    ensures
        r == hex_digit(n),
{
    if n == 0 {
        '0'
    } else if n == 1 {
        '1'
    } else if n == 2 {
        '2'
    } else if n == 3 {
        '3'
    } else if n == 4 {
        '4'
    } else if n == 5 {
        '5'
    } else if n == 6 {
        '6'
    } else if n == 7 {
        '7'
    } else if n == 8 {
        '8'
    } else if n == 9 {
        '9'
    } else if n == 10 {
        'a'
    } else if n == 11 {
        'b'
    } else if n == 12 {
        'c'
    } else if n == 13 {
        'd'
    } else if n == 14 {
        'e'
    } else {
        'f'
    }
}

/// The content checksum of `content`, as embedded in markers.
pub fn sha256_digest(content: &str) -> (r: String)
    ensures
        r@ == spec_checksum(content@),
{
    let digest = sha256_digest_bytes(content);
    let hexed = hex_of_bytes(&digest);
    string_from_chars(&hexed)
}

} // verus!
