//! Hash bucketing of tag values, compatible with the Iceberg bucket
//! transform: Murmur3 (32 bit, seed 0) of the UTF-8 bytes, sign bit cleared,
//! modulo the number of buckets.

use vstd::prelude::*;
use vstd::string::StringSliceAdditionalSpecFns;

verus! {

/// The 32-bit Murmur3 hash of `bytes` under `seed`.
pub uninterp spec fn murmur3_32_hash(bytes: Seq<u8>, seed: u32) -> u32;

/// The hash of a tag value: Murmur3 with seed 0 over its UTF-8 bytes.
pub open spec fn spec_iceberg_hash(tag_value: Seq<u8>) -> u32 {
    murmur3_32_hash(tag_value, 0)
}

/// The bucket a hash falls in: the hash without its sign bit, modulo
/// `num_buckets`.
pub open spec fn spec_bucket_of_hash(hash: u32, num_buckets: u32) -> int {
    ((hash & 0x7FFF_FFFF) as int) % (num_buckets as int)
}

/// The bucket of a tag value given by its UTF-8 bytes.
pub open spec fn spec_bucket(tag_value: Seq<u8>, num_buckets: u32) -> int {
    spec_bucket_of_hash(spec_iceberg_hash(tag_value), num_buckets)
}

/// Calls `murmur3::murmur3_32` on a byte slice.
///
/// Trusted: the result is the crate's 32-bit Murmur3 of exactly these bytes
/// and this seed. Reading from a slice cannot fail, so the `io::Result` is
/// always `Ok`. The crate counts the bytes in a `u32`, hence the length
/// bound.
#[verifier::external_body]
fn murmur3_32_of(bytes: &[u8], seed: u32) -> (hash: u32)
    requires
        bytes@.len() <= u32::MAX,
    ensures
        hash == murmur3_32_hash(bytes@, seed),
{
    let mut source: &[u8] = bytes;
    murmur3::murmur3_32(&mut source, seed).expect("reading from a slice never fails")
}

/// Hashes a tag value as Iceberg hashes a string.
pub fn iceberg_hash(tag_value: &str) -> (hash: u32)
    requires
        tag_value.spec_bytes().len() <= u32::MAX,
    ensures
        hash == spec_iceberg_hash(tag_value.spec_bytes()),
{
    murmur3_32_of(tag_value.as_bytes(), 0)
}

/// Reduces a hash to a bucket id in `[0, num_buckets)`.
pub fn bucket_of_hash(hash: u32, num_buckets: u32) -> (bucket: u32)
    requires
        num_buckets > 0,
    ensures
        bucket == spec_bucket_of_hash(hash, num_buckets),
        bucket < num_buckets,
{
    (hash & 0x7FFF_FFFF) % num_buckets
}

/// Assigns `tag_value` to a bucket id in `[0, num_buckets)`.
///
/// The same value and bucket count always give the same bucket.
pub fn bucket_for_tag_value(tag_value: &str, num_buckets: u32) -> (bucket: u32)
    requires
        num_buckets > 0,
        tag_value.spec_bytes().len() <= u32::MAX,
    ensures
        bucket == spec_bucket(tag_value.spec_bytes(), num_buckets),
        bucket < num_buckets,
{
    let hash = iceberg_hash(tag_value);
    bucket_of_hash(hash, num_buckets)
}

/// Every tag value falls in a bucket below the number of buckets, whatever
/// its bytes and however many they are, and the bucket depends on nothing
/// but those bytes and the number of buckets.
pub proof fn lemma_bucket_in_range(tag_value: Seq<u8>, num_buckets: u32)
    requires
        num_buckets >= 1,
    ensures
        0 <= spec_bucket(tag_value, num_buckets) < num_buckets,
        spec_bucket(tag_value, num_buckets) == spec_bucket_of_hash(
            murmur3_32_hash(tag_value, 0),
            num_buckets,
        ),
{
}

/// Assigns `tag_value` to a bucket id in `[0, num_buckets)`, or to none
/// where there is no bucket to assign it to or the value has more bytes
/// than can be hashed.
pub fn try_bucket_for_tag_value(tag_value: &str, num_buckets: u32) -> (bucket: Option<u32>)
    ensures
        bucket is Some <==> num_buckets > 0 && tag_value.spec_bytes().len() <= u32::MAX,
        bucket matches Some(id) ==> id == spec_bucket(tag_value.spec_bytes(), num_buckets) && id
            < num_buckets,
{
    if num_buckets == 0 || tag_value.as_bytes().len() > 0xFFFF_FFFF {
        None
    } else {
        Some(bucket_for_tag_value(tag_value, num_buckets))
    }
}

} // verus!
