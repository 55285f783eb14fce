//! Content addressing for blocks.
//!
//! The digest algorithm itself is an external collaborator: any
//! collision-resistant-enough hash is acceptable here, since the model has
//! no adversarial network. All the library needs of it is that it is a
//! deterministic function of the block's fields, which `digest_of` names.

use vstd::prelude::*;

verus! {

/// The digest that the content hasher assigns to a tuple of block fields.
/// It stands for the result of hashing the fields' canonical rendering;
/// equal fields always receive equal digests.
pub uninterp spec fn digest_of(
    id: u64,
    data: Seq<char>,
    validator_id: Seq<char>,
    timestamp: u128,
    previous_digest: Seq<char>,
) -> Seq<char>;

/// Relies on md5::compute: the digest of the rendered fields depends on
/// those fields alone, so the result is the function named `digest_of`.
#[verifier::external_body]
pub(crate) fn compute_digest(
    id: u64,
    data: &str,
    validator_id: &str,
    timestamp: u128,
    previous_digest: &str,
) -> (r: String)
    ensures
        r@ == digest_of(id, data@, validator_id@, timestamp, previous_digest@),
{
    let rendered = format!("{}{}{}{}{}", id, data, validator_id, timestamp, previous_digest);
    format!("{:x}", md5::compute(rendered))
}

} // verus!
