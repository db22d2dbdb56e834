//! Content digests that name cached state.
use vstd::prelude::*;

verus! {

/// The SHA-1 digest of some bytes, as forty lowercase hex digits.
pub uninterp spec fn sha1_hex_of(data: Seq<u8>) -> Seq<char>;

/// Relies on sha1::Sha1::from and the `Display` of sha1::Digest: the digest
/// of `data`, written as hex.
#[verifier::external_body]
pub(crate) fn sha1_hex(data: &Vec<u8>) -> (r: String)
    ensures
        r@ == sha1_hex_of(data@),
{
    sha1::Sha1::from(data).digest().to_string()
}

} // verus!
