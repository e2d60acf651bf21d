//! Content hashes: XXH3, 128 bits for assets and 64 bits for the index region.
//!
//! The hash functions are those of the `xxhash-rust` crate. Their values are
//! not spelled out here: each has a name, and the contracts below say no more
//! than that the hash of a byte string is a function of its bytes.

use vstd::prelude::*;

verus! {

/// The 128-bit XXH3 hash of `data`, with seed 0 and the default secret.
pub uninterp spec fn xxh3_128_of(data: Seq<u8>) -> u128;

/// The 64-bit XXH3 hash of `data`, with seed 0 and the default secret.
pub uninterp spec fn xxh3_64_of(data: Seq<u8>) -> u64;

/// `xxhash_rust::xxh3::xxh3_128`: the result depends on the bytes of `data` only.
#[verifier::external_body]
fn xxh3_128(data: &[u8]) -> (h: u128)
    ensures
        h == xxh3_128_of(data@),
{
    xxhash_rust::xxh3::xxh3_128(data)
}

/// `xxhash_rust::xxh3::xxh3_64`: the result depends on the bytes of `data` only.
#[verifier::external_body]
fn xxh3_64(data: &[u8]) -> (h: u64)
    ensures
        h == xxh3_64_of(data@),
{
    xxhash_rust::xxh3::xxh3_64(data)
}

/// The low and the high 64 bits of a 128-bit hash, as an asset entry stores them.
pub open spec fn hash_words(h: u128) -> (u64, u64) {
    ((h & 0xFFFF_FFFF_FFFF_FFFF) as u64, (h >> 64) as u64)
}

/// The 128-bit hash whose low and high halves are `low` and `high`.
pub open spec fn hash_of_words(low: u64, high: u64) -> u128 {
    (low as u128) | ((high as u128) << 64)
}

/// Splitting a hash into its halves loses nothing.
pub proof fn lemma_hash_words(h: u128)
    ensures
        hash_of_words(hash_words(h).0, hash_words(h).1) == h,
{
    assert((((h & 0xFFFF_FFFF_FFFF_FFFF) as u64) as u128) | ((((h >> 64) as u64) as u128) << 64)
        == h) by (bit_vector);
}

/// Joining two halves and splitting again gives the halves back.
pub proof fn lemma_words_hash(low: u64, high: u64)
    ensures
        hash_words(hash_of_words(low, high)) == (low, high),
{
    let h = hash_of_words(low, high);
    assert(((((low as u128) | ((high as u128) << 64)) & 0xFFFF_FFFF_FFFF_FFFF) as u64) == low)
        by (bit_vector);
    assert(((((low as u128) | ((high as u128) << 64)) >> 64) as u64) == high) by (bit_vector);
}

/// Hash used to tell assets apart and to check them.
pub fn hash128(data: &[u8]) -> (h: u128)
    ensures
        h == xxh3_128_of(data@),
{
    xxh3_128(data)
}

/// Hash used to check the index region.
pub fn hash64(data: &[u8]) -> (h: u64)
    ensures
        h == xxh3_64_of(data@),
{
    xxh3_64(data)
}

/// Splits a hash into the two words that an asset entry stores.
pub fn split_hash(h: u128) -> (w: [u64; 2])
    ensures
        (w[0], w[1]) == hash_words(h),
        hash_of_words(w[0], w[1]) == h,
{
    proof {
        lemma_hash_words(h);
    }
    let low: u64 = (h & 0xFFFF_FFFF_FFFF_FFFF) as u64;
    let high: u64 = (h >> 64) as u64;
    [low, high]
}

} // verus!
