//! The ledger's default hash and the identity it derives for a new asset.

use vstd::prelude::*;

use crate::bytes::copy_range;
use crate::bytes::le64;
use crate::bytes::le64_bytes;

verus! {

/// The 32-byte digest that the ledger's default hash function assigns to a
/// byte string; a function of the input bytes alone.
pub uninterp spec fn blake2b_of(data: Seq<u8>) -> Seq<u8>;

/// Relies on ckb_hash::blake2b_256: the blake2b digest of the input under
/// the ledger's fixed personalization, 32 bytes long, depending on the input
/// bytes alone.
#[verifier::external_body]
fn blake2b256(data: &Vec<u8>) -> (r: Vec<u8>)
    ensures
        r@ == blake2b_of(data@),
        r@.len() == 32,
{
    ckb_hash::blake2b_256(data.as_slice()).to_vec()
}

/// The identity of an asset minted at output position `index` by consuming
/// the input whose serialized outpoint is `outpoint`.
pub open spec fn spec_derive_id(outpoint: Seq<u8>, index: u64) -> Seq<u8> {
    blake2b_of(outpoint + le64(index))
}

/// Derives an asset identity: the digest of the first consumed input's
/// outpoint followed by the little-endian eight-byte output position. The
/// identity is bound to one consumption event and cannot be replayed.
pub fn derive_id(outpoint: &Vec<u8>, index: u64) -> (r: Vec<u8>)
    ensures
        r@ == spec_derive_id(outpoint@, index),
        r@.len() == 32,
{
    let mut buf = copy_range(outpoint, 0, outpoint.len());
    let mut tail = le64_bytes(index);
    buf.append(&mut tail);
    proof {
        assert(buf@ =~= outpoint@ + le64(index));
    }
    blake2b256(&buf)
}

/// The digest of a cell's data bytes, as a creation's signed action record
/// must declare it.
pub fn data_hash(data: &Vec<u8>) -> (r: Vec<u8>)
    ensures
        r@ == blake2b_of(data@),
        r@.len() == 32,
{
    blake2b256(data)
}

} // verus!
