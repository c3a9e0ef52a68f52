//! Content addressing: a file is identified by a digest of its bytes, never
//! by name or timestamp.

use vstd::prelude::*;

verus! {

/// The content digest of a byte string.
pub uninterp spec fn digest_of(bytes: Seq<u8>) -> Seq<u8>;

/// Relies on blake3::hash: the default 32-byte digest, a function of the
/// bytes alone.
#[verifier::external_body]
pub(crate) fn hash_bytes(bytes: &Vec<u8>) -> (r: Vec<u8>)
    ensures
        r@ == digest_of(bytes@),
        r@.len() == 32,
{
    blake3::hash(bytes.as_slice()).as_bytes().to_vec()
}

} // verus!
