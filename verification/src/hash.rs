//! Content hashes and binary-to-text encodings.

use vstd::prelude::*;

use crate::protocol::media_limit;

verus! {

/// The SHA-256 digest of a byte string.
pub uninterp spec fn sha256_digest(data: Seq<u8>) -> Seq<u8>;

/// The standard padded base64 text of a byte string.
pub uninterp spec fn base64_text(data: Seq<u8>) -> Seq<char>;

/// `sha2::Sha256` over one update: the digest has thirty-two bytes and depends
/// on the data alone.
#[verifier::external_body]
pub(crate) fn sha256(data: &[u8]) -> (digest: Vec<u8>)
    ensures
        digest@ == sha256_digest(data@),
        digest@.len() == 32,
{
    let mut hasher = <sha2::Sha256 as sha2::Digest>::new();
    sha2::Digest::update(&mut hasher, data);
    sha2::Digest::finalize(hasher).to_vec()
}

pub open spec fn hex_digit(nibble: int) -> char {
    if nibble < 10 {
        (nibble + '0' as int) as char
    } else {
        (nibble - 10 + 'a' as int) as char
    }
}

/// Two lower-case hexadecimal digits for each byte, the high half first.
pub open spec fn hex_text(data: Seq<u8>) -> Seq<char> {
    Seq::new(
        data.len() * 2,
        |i: int|
            if i % 2 == 0 {
                hex_digit(data[i / 2] as int / 16)
            } else {
                hex_digit(data[i / 2] as int % 16)
            },
    )
}

/// `hex::encode` writes each byte as two lower-case hexadecimal digits.
#[verifier::external_body]
pub(crate) fn hex_encode(data: &[u8]) -> (text: String)
    requires
        data@.len() <= usize::MAX / 4,
    ensures
        text@ == hex_text(data@),
{
    hex::encode(data)
}

/// `base64::engine::general_purpose::STANDARD.encode`: the text depends on the
/// data alone. The bound keeps the text's length within what a buffer can hold.
#[verifier::external_body]
pub(crate) fn base64_encode(data: &[u8]) -> (text: String)
    requires
        data@.len() <= media_limit(),
    ensures
        text@ == base64_text(data@),
{
    base64::Engine::encode(&base64::engine::general_purpose::STANDARD, data)
}

/// Every byte is told by two digits to the base of sixteen, the higher first.
pub proof fn law_hex_tells_each_byte(data: Seq<u8>, i: int)
    requires
        0 <= i < data.len(),
    ensures
        hex_text(data).len() == 2 * data.len(),
        ({
            let high = hex_text(data)[2 * i];
            let low = hex_text(data)[2 * i + 1];
            let more = if high <= '9' {
                high as int - '0' as int
            } else {
                high as int - 'a' as int + 10
            };
            let less = if low <= '9' {
                low as int - '0' as int
            } else {
                low as int - 'a' as int + 10
            };
            &&& ('0' <= high <= '9') || ('a' <= high <= 'f')
            &&& ('0' <= low <= '9') || ('a' <= low <= 'f')
            &&& data[i] == 16 * more + less
        }),
{
    assert((2 * i) / 2 == i && (2 * i) % 2 == 0);
    assert((2 * i + 1) / 2 == i && (2 * i + 1) % 2 == 1);
}

} // verus!
