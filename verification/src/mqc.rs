//! The message queue chain: one hash per recipient that commits to every
//! message ever queued for it, in order.
//!
//! Each link is `H(previous head, block number, H(message))`, where `H` is
//! Blake2 with a 256-bit digest over the SCALE encoding of its argument.

use vstd::prelude::*;

verus! {

/// A 256-bit digest.
pub type Hash = [u8; 32];

/// The digest of the SCALE encoding of a message's bytes.
pub uninterp spec fn payload_digest(payload: Seq<u8>) -> Seq<u8>;

/// The digest of the SCALE encoding of a link: the previous head, the block
/// number at which the message was sent, and the digest of the message.
pub uninterp spec fn link_digest(prev_head: Seq<u8>, sent_at: u32, payload_hash: Seq<u8>) -> Seq<u8>;

/// The head of a chain that holds no message yet: thirty-two zero bytes.
pub open spec fn zero_hash() -> Seq<u8> {
    Seq::new(32, |i: int| 0u8)
}

/// The head that follows `prev_head` once `payload` was sent at `sent_at`.
pub open spec fn next_head(prev_head: Seq<u8>, sent_at: u32, payload: Seq<u8>) -> Seq<u8> {
    link_digest(prev_head, sent_at, payload_digest(payload))
}

/// Calls `BlakeTwo256::hash_of` of `sp_runtime` on the message's bytes. Its
/// source encodes the vector and hashes the encoding, so the digest depends
/// on the bytes alone. The encoder gives up on more than `u32::MAX` bytes.
#[verifier::external_body]
fn hash_of_payload(payload: &Vec<u8>) -> (h: Hash)
    requires
        payload.len() <= u32::MAX,
    ensures
        h@ == payload_digest(payload@),
{
    <sp_runtime::traits::BlakeTwo256 as sp_runtime::traits::Hash>::hash_of(payload).0
}

/// Calls `BlakeTwo256::hash_of` of `sp_runtime` on the triple of the
/// previous head, the block number and the message's digest. Its source
/// encodes the triple and hashes the encoding, so the digest depends on the
/// three values alone.
#[verifier::external_body]
fn hash_of_link(prev_head: &Hash, sent_at: u32, payload_hash: &Hash) -> (h: Hash)
    ensures
        h@ == link_digest(prev_head@, sent_at, payload_hash@),
{
    let link = (sp_core::H256(*prev_head), sent_at, sp_core::H256(*payload_hash));
    <sp_runtime::traits::BlakeTwo256 as sp_runtime::traits::Hash>::hash_of(&link).0
}

/// The head of an empty chain.
pub fn zero_head() -> (h: Hash)
    ensures
        h@ == zero_hash(),
{
    let h: Hash = [0u8; 32];
    assert(h@ =~= zero_hash());
    h
}

/// Extends a chain by one message.
pub fn extend_head(prev_head: &Hash, sent_at: u32, payload: &Vec<u8>) -> (h: Hash)
    requires
        payload.len() <= u32::MAX,
    ensures
        h@ == next_head(prev_head@, sent_at, payload@),
{
    let payload_hash: Hash = hash_of_payload(payload);
    hash_of_link(prev_head, sent_at, &payload_hash)
}

} // verus!
