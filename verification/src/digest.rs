//! Content hashes.

use vstd::prelude::*;

use sha2::Digest;

use crate::text;

verus! {

/// The SHA-256 digest of a byte string.
pub uninterp spec fn sha256(data: Seq<u8>) -> Seq<u8>;

/// `sha2::Sha256::digest`: the digest is 32 bytes long and depends on the data alone. Which bytes
/// they are is left to the name.
#[verifier::external_body]
fn sha256_of(data: &[u8]) -> (r: Vec<u8>)
    ensures
        r@ == sha256(data@),
        r@.len() == 32,
{
    sha2::Sha256::digest(data).to_vec()
}

/// Each byte as two lower-case hexadecimal digits, the high half first.
pub open spec fn hex_text(data: Seq<u8>) -> Seq<char> {
    Seq::new(
        data.len() * 2,
        |i: int|
            if i % 2 == 0 {
                text::hex_char((data[i / 2] / 16) as nat)
            } else {
                text::hex_char((data[i / 2] % 16) as nat)
            },
    )
}

/// `hex::encode`: two lower-case hexadecimal digits for each byte, the high half first.
#[verifier::external_body]
fn hex_of(data: &Vec<u8>) -> (r: String)
    requires
        data@.len() <= 0x1000_0000,
    ensures
        r@ == hex_text(data@),
{
    hex::encode(data)
}

/// The content hash of a text: the SHA-256 digest of its UTF-8 bytes, in hexadecimal.
pub open spec fn text_hash(s: Seq<char>) -> Seq<char> {
    hex_text(sha256(vstd::utf8::encode_utf8(s)))
}

/// The digest `bytes` in hexadecimal.
pub fn hex_digest(bytes: &Vec<u8>) -> (r: String)
    requires
        bytes@.len() == 32,
    ensures
        r@ == hex_text(bytes@),
        r@.len() == 64,
{
    hex_of(bytes)
}

/// The content hash of `s`.
pub fn hash_text(s: &str) -> (r: String)
    ensures
        r@ == text_hash(s@),
        r@.len() == 64,
{
    hex_digest(&sha256_of(s.as_bytes()))
}

/// Each byte is written as two digits, the high half first, and nothing else is written.
pub proof fn law_hex_is_two_digits_a_byte(data: Seq<u8>, i: int)
    ensures
        hex_text(data).len() == 2 * data.len(),
        0 <= i < data.len() ==> {
            &&& hex_text(data)[2 * i] == "0123456789abcdef"@[(data[i] / 16) as int]
            &&& hex_text(data)[2 * i + 1] == "0123456789abcdef"@[(data[i] % 16) as int]
        },
{
    if 0 <= i < data.len() {
        text::law_hex_digit((data[i] / 16) as nat);
        text::law_hex_digit((data[i] % 16) as nat);
        assert((2 * i) / 2 == i);
        assert((2 * i + 1) / 2 == i);
    }
}

/// The content hash of a text is the digest of all of its bytes.
pub proof fn law_hash_covers_the_text(s: Seq<char>)
    ensures
        text_hash(s) == hex_text(sha256(vstd::utf8::encode_utf8(s))),
{
}

} // verus!
