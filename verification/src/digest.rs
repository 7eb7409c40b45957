//! The SHA-256 digest, computed by `ring`.

use vstd::prelude::*;

verus! {

/// The longest input, in bytes, that the digest accepts: its length in bits
/// must fit in 64 bits.
pub const MAX_DIGEST_INPUT: u64 = 0x1FFF_FFFF_FFFF_FFFF;

/// The length of a SHA-256 digest in bytes.
pub const DIGEST_LEN: usize = 32;

/// The SHA-256 digest of `data`.
pub uninterp spec fn sha256(data: Seq<u8>) -> Seq<u8>;

/// Calls `ring::digest::digest` with the algorithm `ring::digest::SHA256`.
///
/// Trusted: the result is the SHA-256 digest of `data`, a function of the
/// bytes of `data` alone, and it is 32 bytes long. `ring` panics when the
/// length of the input in bits does not fit in 64 bits, so such an input is
/// left out.
#[verifier::external_body]
pub(crate) fn sha256_digest(data: &[u8]) -> (out: Vec<u8>)
    requires
        data@.len() <= MAX_DIGEST_INPUT,
    ensures
        out@ == sha256(data@),
        out@.len() == DIGEST_LEN,
{
    ring::digest::digest(&ring::digest::SHA256, data).as_ref().to_vec()
}

} // verus!
