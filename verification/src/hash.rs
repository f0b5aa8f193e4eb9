//! BLAKE3, as the `blake3` crate computes it. Of the three functions that
//! call into that crate nothing is proved: each contract restates what the
//! crate documents of the function that it names.

use vstd::prelude::*;

verus! {

/// The incremental hash state of the `blake3` crate. Its inside is not
/// visible to the verifier.
#[verifier::external_type_specification]
#[verifier::external_body]
pub struct ExHasher(blake3::Hasher);

/// The 32-byte BLAKE3 hash of `input`: what `blake3::Hasher::finalize`
/// returns for a hash state that has been given `input`.
pub uninterp spec fn blake3_hash(input: Seq<u8>) -> [u8; 32];

/// All the bytes that a hash state has been given since it was made, in the
/// order in which it got them.
pub uninterp spec fn hasher_input(hasher: blake3::Hasher) -> Seq<u8>;

/// Whether a hash state is as `blake3::Hasher::new` makes it and `update`
/// keeps it: for the regular hash function, without a key or a context, and
/// without an input offset. Of such a state `update` takes input of any
/// length and `finalize` gives the hash; of a state with an input offset the
/// crate lets both panic.
pub uninterp spec fn hasher_regular(hasher: blake3::Hasher) -> bool;

/// `blake3::Hasher::new`: a hash state for the regular hash function, which
/// has been given no input yet.
#[verifier::external_body]
pub(crate) fn hasher_new() -> (hasher: blake3::Hasher)
    ensures
        hasher_regular(hasher),
        hasher_input(hasher) == Seq::<u8>::empty(),
{
    blake3::Hasher::new()
}

/// `blake3::Hasher::update`: adds `input` behind what the state was given
/// before, and changes nothing else of the state.
#[verifier::external_body]
pub(crate) fn hasher_update(hasher: &mut blake3::Hasher, input: &[u8])
    requires
        hasher_regular(*old(hasher)),
    ensures
        hasher_regular(*final(hasher)),
        hasher_input(*final(hasher)) == hasher_input(*old(hasher)) + input@,
{
    hasher.update(input);
}

/// `blake3::Hasher::finalize`: the hash of the input given so far, however
/// it was divided among the calls of `update`. The state is left as it was.
#[verifier::external_body]
pub(crate) fn hasher_finalize(hasher: &blake3::Hasher) -> (digest: [u8; 32])
    requires
        hasher_regular(*hasher),
    ensures
        digest == blake3_hash(hasher_input(*hasher)),
{
    *hasher.finalize().as_bytes()
}

/// The hash of `input`, taken at once.
pub(crate) fn digest_of(input: &[u8]) -> (digest: [u8; 32])
    ensures
        digest == blake3_hash(input@),
{
    let mut hasher = hasher_new();
    hasher_update(&mut hasher, input);
    hasher_finalize(&hasher)
}

} // verus!
