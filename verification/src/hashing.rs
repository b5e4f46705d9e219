//! Keccak-256 hashing. The digest itself is outside work; the library names
//! its result and builds every commitment (transaction hashes, receipt
//! leaves, state and receipts roots) on that name.

use tiny_keccak::Hasher;
use vstd::prelude::*;

verus! {

/// The Keccak-256 digest of a byte string, named: the digest is a function of
/// the input bytes alone.
pub uninterp spec fn keccak_spec(data: Seq<u8>) -> Seq<u8>;

/// Relies on tiny_keccak::Keccak::v256 (update then finalize): the Keccak-256
/// digest of the input, 32 bytes, a function of the input bytes alone.
#[verifier::external_body]
pub fn keccak256(data: &Vec<u8>) -> (r: crate::types::H256)
    ensures
        r@ == keccak_spec(data@),
        r@.len() == 32,
{
    let mut k = tiny_keccak::Keccak::v256();
    k.update(data.as_slice());
    let mut out = [0u8; 32];
    k.finalize(&mut out);
    crate::types::H256 { bytes: out.to_vec() }
}

} // verus!
