//! The hash and the byte encoding from which fingerprints are seeded.
//!
//! Both are computed outside this library; the contracts in this file are
//! believed, not proved.

use vstd::prelude::*;
use vstd::bytes::spec_u64_to_le_bytes;
use vstd::bytes::spec_u32_to_le_bytes;

verus! {

/// The 128-bit Blake2b digest of a byte sequence.
pub uninterp spec fn blake2_128_digest(data: Seq<u8>) -> Seq<u8>;

/// Calls `sp_io::hashing::blake2_128`. The digest is a function of the bytes
/// alone, so the contract gives it a name and claims nothing else of it.
#[verifier::external_body]
pub(crate) fn blake2_128(data: &[u8]) -> (digest: [u8; 16])
    ensures
        digest@ == blake2_128_digest(data@),
{
    sp_io::hashing::blake2_128(data)
}

/// The encoding of an id followed by an account: each as eight bytes, least
/// significant first.
pub open spec fn encoded_pair(id: u64, who: u64) -> Seq<u8> {
    spec_u64_to_le_bytes(id) + spec_u64_to_le_bytes(who)
}

/// Calls `parity_scale_codec::Encode::encode` on a pair of an id and a
/// reference to an account. The codec writes a tuple as its fields in order,
/// a reference as what it points to, and a `u64` as its eight bytes, least
/// significant first.
#[verifier::external_body]
pub(crate) fn encode_pair(id: u64, who: u64) -> (bytes: Vec<u8>)
    ensures
        bytes@ == encoded_pair(id, who),
{
    parity_scale_codec::Encode::encode(&(id, &who))
}

/// Calls `parity_scale_codec::Encode::encode` on an `i32` that is not
/// negative. The codec writes it as its four bytes, least significant first.
#[verifier::external_body]
pub(crate) fn encode_i32(value: i32) -> (bytes: Vec<u8>)
    requires
        value >= 0,
    ensures
        bytes@ == spec_u32_to_le_bytes(value as u32),
{
    parity_scale_codec::Encode::encode(&value)
}

} // verus!
