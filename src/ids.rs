//! Short opaque identifiers drawn from a serial number.

use vstd::prelude::*;

verus! {

/// The seed of the scrambling permutation.
pub const ID_SEED: u128 = 9876;

/// The least number of characters in an identifier.
pub const ID_LENGTH: u8 = 5;

/// What block-id's encoder over the lowercase alphanumeric alphabet returns
/// for serial `n`, built from `seed` and `min_length`.
pub uninterp spec fn lowercase_block_id(seed: u128, min_length: u8, n: u64) -> Option<Seq<char>>;

/// Relies on block_id::BlockId::new with Alphabet::lowercase_alphanumeric and
/// on BlockId::encode_string: a one-to-one mapping from integers to short
/// strings, fixed by the seed and the minimum length, so that no other serial
/// gives the same string.
#[verifier::external_body]
pub(crate) fn encode_serial(seed: u128, min_length: u8, n: u64) -> (r: Option<String>)
    ensures
        lowercase_block_id(seed, min_length, n) == (match r {
            Some(s) => Some(s@),
            None => None::<Seq<char>>,
        }),
        r is Some ==> forall|m: u64|
            m != n ==> #[trigger] lowercase_block_id(seed, min_length, m) != lowercase_block_id(
                seed,
                min_length,
                n,
            ),
{
    let generator = block_id::BlockId::new(block_id::Alphabet::lowercase_alphanumeric(), seed, min_length);
    generator.encode_string(n)
}

} // verus!
