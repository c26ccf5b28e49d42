//! MD5-based deterministic sharding.
//!
//! A subject is mapped to a shard index by concatenating a list of string
//! parts, hashing the UTF-8 bytes of the result with MD5, reading the first
//! four digest bytes as a big-endian 32-bit integer, and reducing it modulo
//! the shard count. The algorithm is bit-exact across platforms; it is the
//! sole source of pseudo-randomness for split matching and bandit selection.

use vstd::prelude::*;
use vstd::string::*;
use vstd::utf8::encode_utf8;

verus! {

/// The MD5 digest of a byte sequence, as the `md5` crate computes it.
pub uninterp spec fn md5_of(input: Seq<u8>) -> Seq<u8>;

/// Relies on md5::compute: the 16-byte MD5 digest of the input, a function
/// of the input bytes alone.
#[verifier::external_body]
fn md5_digest(input: &Vec<u8>) -> (r: Vec<u8>)
    ensures
        r@ == md5_of(input@),
        r@.len() == 16,
{
    md5::compute(input.as_slice()).0.to_vec()
}

/// Concatenation of the character views of a sequence of strings.
pub open spec fn concat_parts(parts: Seq<String>) -> Seq<char>
    decreases parts.len(),
{
    if parts.len() == 0 {
        Seq::<char>::empty()
    } else {
        concat_parts(parts.drop_last()) + parts.last()@
    }
}

/// The big-endian 32-bit integer formed by the first four bytes.
pub open spec fn be_u32(b: Seq<u8>) -> int {
    b[0] * 0x1000000 + b[1] * 0x10000 + b[2] * 0x100 + b[3]
}

/// The shard index of a string under a given shard count: MD5 of its UTF-8
/// bytes, first four bytes big-endian, modulo `total_shards`.
pub open spec fn shard_value(input: Seq<char>, total_shards: u64) -> int {
    be_u32(md5_of(encode_utf8(input))) % (total_shards as int)
}

/// Computes the shard index of the concatenation of `parts`.
///
/// This is the determinism primitive consumed by splits and by bandit
/// selection: equal parts and equal shard counts always give equal indices.
pub fn get_md5_shard(parts: &Vec<String>, total_shards: u64) -> (r: u64)
    requires
        total_shards > 0,
    ensures
        r == shard_value(concat_parts(parts@), total_shards),
        r < total_shards,
{
    let mut joined = String::new();
    let mut i: usize = 0;
    while i < parts.len()
        invariant
            i <= parts.len(),
            joined@ == concat_parts(parts@.take(i as int)),
        decreases parts.len() - i,
    {
        joined.append(parts[i].as_str());
        proof {
            assert(parts@.take(i + 1).drop_last() == parts@.take(i as int));
            assert(parts@.take(i + 1).last() == parts@[i as int]);
        }
        i = i + 1;
    }
    proof {
        assert(parts@.take(parts@.len() as int) == parts@);
    }
    let bytes = joined.as_str().as_bytes_vec();
    let digest = md5_digest(&bytes);
    let h: u64 = (digest[0] as u64) * 0x1000000 + (digest[1] as u64) * 0x10000 + (digest[2]
        as u64) * 0x100 + (digest[3] as u64);
    h % total_shards
}

} // verus!
