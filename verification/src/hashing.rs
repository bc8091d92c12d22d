//! SHA-256 text fingerprints.
use vstd::prelude::*;
use sha2::Digest;

verus! {

/// The SHA-256 digest of `bytes`.
pub uninterp spec fn sha256_digest(bytes: Seq<u8>) -> Seq<u8>;

/// The lowercase hexadecimal digit for `v < 16`.
pub open spec fn hex_digit(v: int) -> char {
    if v < 10 { ((v + 48) as u8) as char } else { ((v - 10 + 97) as u8) as char }
}

/// Each byte of `bytes` as two lowercase hexadecimal digits, high nibble first.
pub open spec fn hex_lower(bytes: Seq<u8>) -> Seq<char>
    decreases bytes.len(),
{
    if bytes.len() == 0 {
        Seq::empty()
    } else {
        hex_lower(bytes.drop_last()) + seq![
            hex_digit(bytes.last() as int / 16),
            hex_digit(bytes.last() as int % 16),
        ]
    }
}

/// The fingerprint of `text`: the lowercase hex of the SHA-256 digest of its UTF-8 bytes.
pub open spec fn text_fingerprint(text: Seq<char>) -> Seq<char> {
    hex_lower(sha256_digest(vstd::utf8::encode_utf8(text)))
}

/// Hashes `text` with `sha2::Sha256` (fed its UTF-8 bytes) and formats the 32-byte digest with
/// `{:x}`, which `generic_array` renders as two lowercase hex digits per byte. The contract
/// claims exactly that rendering of a 32-byte digest of the text's bytes; the digest itself is
/// named, not computed.
#[verifier::external_body]
pub fn hash_text(text: &str) -> (h: String)
    ensures
        h@ == hex_lower(sha256_digest(vstd::utf8::encode_utf8(text@))),
        h@.len() == 64,
{
    let mut hasher = sha2::Sha256::new();
    hasher.update(text);
    format!("{:x}", hasher.finalize())
}

pub proof fn lemma_hex_lower_len(bytes: Seq<u8>)
    ensures
        hex_lower(bytes).len() == 2 * bytes.len(),
    decreases bytes.len(),
{
    if bytes.len() > 0 {
        lemma_hex_lower_len(bytes.drop_last());
    }
}

/// The fingerprint of the characters `cs`.
pub fn hash_chars(cs: &[char]) -> (h: String)
    ensures
        h@ == text_fingerprint(cs@),
{
    let s = crate::text::string_of(cs);
    hash_text(s.as_str())
}

} // verus!
