//! Keccak-256 digests: the topic that marks a transfer event and the
//! selector of a contract function.

use vstd::prelude::*;
use vstd::string::*;
use crate::types::Hash256;

verus! {

/// The Keccak-256 digest of a byte string, as `ethers` computes it.
pub uninterp spec fn keccak256_digest(data: Seq<u8>) -> Seq<u8>;

/// Calls `ethers::utils::keccak256`.
///
/// Trusted, not proved: the thirty-two bytes returned are the Keccak-256
/// digest of `data`, a function of the bytes of `data` alone.
#[verifier::external_body]
fn keccak256(data: &[u8]) -> (digest: Hash256)
    ensures
        digest@ == keccak256_digest(data@),
{
    Hash256 { bytes: ethers::utils::keccak256(data) }
}

/// The first topic of every ERC-20 transfer log: the digest of the event
/// signature `Transfer(address,address,uint256)`.
pub fn transfer_topic() -> (topic: Hash256)
    ensures
        topic@ == keccak256_digest("Transfer(address,address,uint256)".spec_bytes()),
{
    keccak256("Transfer(address,address,uint256)".as_bytes())
}

/// The first four bytes of a digest.
pub fn selector_of(digest: &Hash256) -> (selector: [u8; 4])
    ensures
        selector@ == digest@.take(4),
{
    [digest.bytes[0], digest.bytes[1], digest.bytes[2], digest.bytes[3]]
}

/// The selector of a contract function: the first four bytes of the digest
/// of its signature.
pub fn function_selector(signature: &str) -> (selector: [u8; 4])
    ensures
        selector@ == keccak256_digest(signature.spec_bytes()).take(4),
{
    selector_of(&keccak256(signature.as_bytes()))
}

} // verus!
