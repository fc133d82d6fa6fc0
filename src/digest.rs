use vstd::prelude::*;

verus! {

/// The BLAKE3 digest of a byte sequence.
pub uninterp spec fn blake3_of(input: Seq<u8>) -> Seq<u8>;

/// Relies on blake3's `hash`: the 32-byte BLAKE3 digest of `input`, a
/// function of the input alone.
#[verifier::external_body]
pub(crate) fn blake3_digest(input: &[u8]) -> (r: [u8; 32])
    ensures
        r@ == blake3_of(input@),
{
    blake3::hash(input).into()
}

} // verus!
