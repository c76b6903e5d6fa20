//! SHA-256 of a byte chunk, folded to a 64-bit feature hash.

use vstd::prelude::*;
use sha2::Digest;

verus! {

/// The SHA-256 digest of `data` (FIPS 180-4), as computed by the `sha2` crate.
pub uninterp spec fn sha256_spec(data: Seq<u8>) -> Seq<u8>;

/// Calls `<sha2::Sha256 as sha2::Digest>::digest` on `data`.
/// Trusted: the 32-byte result is the SHA-256 digest of `data`, named by `sha256_spec`;
/// nothing is claimed about what that digest is beyond being a function of `data`.
#[verifier::external_body]
fn sha256_digest(data: &[u8]) -> (res: [u8; 32])
    ensures
        res@ == sha256_spec(data@),
{
    sha2::Sha256::digest(data).into()
}

/// The unsigned integer that the bytes of `s` encode in little-endian order.
pub open spec fn le_value(s: Seq<u8>) -> nat
    decreases s.len(),
{
    if s.len() == 0 {
        0
    } else {
        s[0] as nat + 256 * le_value(s.drop_first())
    }
}

/// The 64-bit feature hash of a chunk: the first eight bytes of its SHA-256 digest,
/// read as a little-endian integer.
pub open spec fn chunk_hash(chunk: Seq<u8>) -> u64 {
    le_value(sha256_spec(chunk).take(8)) as u64
}

/// The feature hash of a chunk is the first eight bytes of the SHA-256 digest of the
/// whole chunk, read as a little-endian integer.
pub proof fn lemma_chunk_hash_is_digest_prefix(chunk: Seq<u8>)
    ensures
        chunk_hash(chunk) == le_value(sha256_spec(chunk).take(8)) as u64,
{
}

/// The little-endian value of eight bytes: byte `i` weighs `256^i`.
pub proof fn lemma_le_value_of_eight(s: Seq<u8>)
    requires
        s.len() == 8,
    ensures
        le_value(s) == s[0] + 0x100 * s[1] + 0x1_0000 * s[2] + 0x100_0000 * s[3] + 0x1_0000_0000 * s[4]
            + 0x100_0000_0000 * s[5] + 0x1_0000_0000_0000 * s[6] + 0x100_0000_0000_0000 * s[7],
{
    reveal_with_fuel(le_value, 9);
}

/// Hashes one chunk of bytes to its 64-bit feature hash.
pub fn hash_bytes(bytes: &[u8]) -> (hash: u64)
    ensures
        hash == chunk_hash(bytes@),
        hash == le_value(sha256_spec(bytes@).take(8)),
        ({
            let d = sha256_spec(bytes@);
            hash == d[0] + 0x100 * d[1] + 0x1_0000 * d[2] + 0x100_0000 * d[3] + 0x1_0000_0000 * d[4]
                + 0x100_0000_0000 * d[5] + 0x1_0000_0000_0000 * d[6] + 0x100_0000_0000_0000 * d[7]
        }),
{
    let d = sha256_digest(bytes);
    let hash: u64 = d[0] as u64 + 256 * (d[1] as u64 + 256 * (d[2] as u64 + 256 * (d[3] as u64
        + 256 * (d[4] as u64 + 256 * (d[5] as u64 + 256 * (d[6] as u64 + 256 * (d[7] as u64)))))));
    proof {
        let s = sha256_spec(bytes@).take(8);
        reveal_with_fuel(le_value, 9);
        assert(s[0] == d[0] && s[1] == d[1] && s[2] == d[2] && s[3] == d[3]);
        assert(s[4] == d[4] && s[5] == d[5] && s[6] == d[6] && s[7] == d[7]);
        assert(le_value(s) == hash);
    }
    hash
}

} // verus!
