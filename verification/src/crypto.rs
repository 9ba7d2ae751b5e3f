//! Hashes, keys and signatures as they appear in blocks, and the hash
//! function that the block and transaction formats commit to.
use vstd::prelude::*;

verus! {

/// A 32-byte digest.
pub type SaitoHash = [u8; 32];

/// A compressed secp256k1 public key.
pub type SaitoPublicKey = [u8; 33];

/// A compact secp256k1 signature.
pub type SaitoSignature = [u8; 64];

/// The BLAKE3 digest of a byte string, as `blake3::hash` computes it.
pub uninterp spec fn blake3_digest(data: Seq<u8>) -> Seq<u8>;

/// Calls `blake3::hash` on `data` and returns the 32 bytes of the digest.
/// Trusted: the contract says only that the bytes are the BLAKE3 digest of
/// `data`, named `blake3_digest`; the digest itself is not computed here.
#[verifier::external_body]
pub(crate) fn hash(data: &[u8]) -> (h: SaitoHash)
    ensures
        h@ == blake3_digest(data@),
{
    blake3::hash(data).into()
}

} // verus!
