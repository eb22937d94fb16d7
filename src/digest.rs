//! The two digest formats: `sha256:` + 64 lowercase hex digits, and 32 lowercase hex digits.
use vstd::prelude::*;

use crate::error::SpecError;
use crate::text::char_vec;

verus! {

/// The SHA-256 digest of `data`.
pub uninterp spec fn sha256_of(data: Seq<u8>) -> [u8; 32];

/// Relies on sha2's `Sha256::digest`: the 32-byte SHA-256 digest, which depends on the
/// input bytes alone.
#[verifier::external_body]
fn sha256_bytes(data: &[u8]) -> (r: [u8; 32])
    ensures
        r == sha256_of(data@),
{
    <sha2::Sha256 as sha2::Digest>::digest(data).into()
}

/// Relies on `hex::encode`: two lowercase digits per byte, high nibble first.
#[verifier::external_body]
fn hex_encode(data: &[u8]) -> (r: String)
    ensures
        r@ == hex_text(data@),
{
    hex::encode(data)
}

/// The lowercase hexadecimal digit of `n`, for `n < 16`.
pub open spec fn hex_digit(n: u8) -> char {
    if n == 0 { '0' }
    else if n == 1 { '1' }
    else if n == 2 { '2' }
    else if n == 3 { '3' }
    else if n == 4 { '4' }
    else if n == 5 { '5' }
    else if n == 6 { '6' }
    else if n == 7 { '7' }
    else if n == 8 { '8' }
    else if n == 9 { '9' }
    else if n == 10 { 'a' }
    else if n == 11 { 'b' }
    else if n == 12 { 'c' }
    else if n == 13 { 'd' }
    else if n == 14 { 'e' }
    else { 'f' }
}

/// Lowercase hexadecimal text of `data`: two digits per byte, high nibble first.
pub open spec fn hex_text(data: Seq<u8>) -> Seq<char> {
    Seq::new(
        (2 * data.len()) as nat,
        |i: int|
            if i % 2 == 0 {
                hex_digit(data[i / 2] / 16)
            } else {
                hex_digit(data[i / 2] % 16)
            },
    )
}

/// `0-9` or `a-f`.
pub open spec fn is_lower_hex(c: char) -> bool {
    ('0' <= c && c <= '9') || ('a' <= c && c <= 'f')
}

/// The literal that opens a SHA-256 digest string.
pub open spec fn sha256_prefix() -> Seq<char> {
    seq!['s', 'h', 'a', '2', '5', '6', ':']
}

/// `sha256:` followed by exactly 64 lowercase hexadecimal digits.
pub open spec fn is_sha256_digest(s: Seq<char>) -> bool {
    &&& s.len() == 71
    &&& s.take(7) == sha256_prefix()
    &&& forall|i: int| 7 <= i < 71 ==> is_lower_hex(#[trigger] s[i])
}

/// Exactly 32 lowercase hexadecimal digits.
pub open spec fn is_md5_digest(s: Seq<char>) -> bool {
    &&& s.len() == 32
    &&& forall|i: int| 0 <= i < 32 ==> is_lower_hex(#[trigger] s[i])
}

/// The prefixed SHA-256 digest string of `data`.
pub open spec fn sha256_text(data: Seq<u8>) -> Seq<char> {
    sha256_prefix() + hex_text(sha256_of(data)@)
}

/// The digest string of any byte string is well formed.
pub proof fn lemma_sha256_text_is_digest(data: Seq<u8>)
    ensures
        is_sha256_digest(sha256_text(data)),
{
    let s = sha256_text(data);
    assert(sha256_of(data)@.len() == 32);
    assert(s.take(7) =~= sha256_prefix());
    assert forall|i: int| 7 <= i < 71 implies is_lower_hex(#[trigger] s[i]) by {
        assert(s[i] == hex_text(sha256_of(data)@)[i - 7]);
    }
}

fn is_lower_hex_exec(c: char) -> (r: bool)
    ensures
        r == is_lower_hex(c),
{
    ('0' <= c && c <= '9') || ('a' <= c && c <= 'f')
}

/// `sha256:` followed by the lowercase hexadecimal SHA-256 digest of `bytes`.
pub fn sha256_prefixed(bytes: &[u8]) -> (r: String)
    ensures
        r@ == sha256_text(bytes@),
{
    let digest = sha256_bytes(bytes);
    let bytes = digest.as_slice();
    assert(bytes@ == digest@);
    let hex = hex_encode(bytes);
    let mut out = String::from_str("sha256:");
    out.append(hex.as_str());
    proof {
        reveal_strlit("sha256:");
        assert("sha256:"@ =~= sha256_prefix());
    }
    out
}

/// Accepts exactly the strings `sha256:` + 64 lowercase hexadecimal digits; anything else
/// is refused with the string itself.
pub fn validate_sha256_prefixed(value: &str) -> (r: Result<(), SpecError>)
    ensures
        r is Ok <==> is_sha256_digest(value@),
        r matches Err(e) ==> e matches SpecError::InvalidSha256(s) && s@ == value@,
{
    let chars = char_vec(value);
    let prefix = ['s', 'h', 'a', '2', '5', '6', ':'];
    assert(prefix@ =~= sha256_prefix());
    if chars.len() != 71 {
        return Err(SpecError::InvalidSha256(value.to_owned()));
    }
    let mut i: usize = 0;
    while i < 7
        invariant
            chars@ == value@,
            chars.len() == 71,
            i <= 7,
            prefix@ == sha256_prefix(),
            forall|k: int| 0 <= k < i ==> chars@[k] == sha256_prefix()[k],
        decreases 7 - i,
    {
        if chars[i] != prefix[i] {
            assert(chars@.take(7)[i as int] != sha256_prefix()[i as int]);
            return Err(SpecError::InvalidSha256(value.to_owned()));
        }
        i += 1;
    }
    assert(chars@.take(7) =~= sha256_prefix());
    while i < 71
        invariant
            chars@ == value@,
            chars.len() == 71,
            7 <= i <= 71,
            chars@.take(7) == sha256_prefix(),
            forall|k: int| 7 <= k < i ==> is_lower_hex(#[trigger] chars@[k]),
        decreases 71 - i,
    {
        if !is_lower_hex_exec(chars[i]) {
            assert(!is_lower_hex(value@[i as int]));
            return Err(SpecError::InvalidSha256(value.to_owned()));
        }
        i += 1;
    }
    Ok(())
}

/// Accepts exactly the strings of 32 lowercase hexadecimal digits; anything else is
/// refused with the string itself.
pub fn validate_md5_hex(value: &str) -> (r: Result<(), SpecError>)
    ensures
        r is Ok <==> is_md5_digest(value@),
        r matches Err(e) ==> e matches SpecError::InvalidMd5(s) && s@ == value@,
{
    let chars = char_vec(value);
    if chars.len() != 32 {
        return Err(SpecError::InvalidMd5(value.to_owned()));
    }
    let mut i: usize = 0;
    while i < 32
        invariant
            chars@ == value@,
            chars.len() == 32,
            i <= 32,
            forall|k: int| 0 <= k < i ==> is_lower_hex(#[trigger] chars@[k]),
        decreases 32 - i,
    {
        if !is_lower_hex_exec(chars[i]) {
            assert(!is_lower_hex(value@[i as int]));
            return Err(SpecError::InvalidMd5(value.to_owned()));
        }
        i += 1;
    }
    Ok(())
}

} // verus!
