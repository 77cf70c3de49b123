//! Content addressing of diagnostic payloads.
use sha2::Digest;
use vstd::prelude::*;

verus! {

/// Length in bytes of a fingerprint.
pub const FINGERPRINT_LEN: usize = 32;

/// The SHA-256 digest of a byte sequence.
pub uninterp spec fn sha256_of(data: Seq<u8>) -> Seq<u8>;

/// The fingerprint of a diagnostic text: the digest of its UTF-8 encoding.
pub open spec fn fingerprint_of(payload: Seq<char>) -> Seq<u8> {
    sha256_of(vstd::utf8::encode_utf8(payload))
}

/// Relies on sha2's `Sha256` through `digest::Digest::digest`: the SHA-256
/// digest of the input bytes, a function of them alone, 32 bytes long.
#[verifier::external_body]
fn sha256_digest(data: &[u8]) -> (r: Vec<u8>)
    ensures
        r@ == sha256_of(data@),
        r@.len() == FINGERPRINT_LEN,
{
    sha2::Sha256::digest(data).to_vec()
}

/// Fingerprints a diagnostic payload: identical texts give identical
/// fingerprints, and every fingerprint has the same fixed length.
pub fn fingerprint(payload: &str) -> (r: Vec<u8>)
    ensures
        r@ == fingerprint_of(payload@),
        r@.len() == FINGERPRINT_LEN,
{
    sha256_digest(payload.as_bytes())
}

/// Fingerprinting is deterministic: equal payloads always have equal
/// fingerprints, so two reports of one failure address one record.
pub proof fn lemma_fingerprint_deterministic(p: Seq<char>, q: Seq<char>)
    requires
        p == q,
    ensures
        fingerprint_of(p) == fingerprint_of(q),
{
}

} // verus!
