//! The 64-bit SeaHash of a byte sequence, fed to the hasher byte by byte.

use vstd::prelude::*;
use seahash::SeaHasher;

verus! {

/// `seahash::SeaHasher`, the running state of one hash.
#[verifier::external_type_specification]
#[verifier::external_body]
pub struct ExSeaHasher(seahash::SeaHasher);

/// The bytes that a hasher has been fed since it was made, oldest first.
pub uninterp spec fn absorbed(hasher: SeaHasher) -> Seq<u8>;

/// The SeaHash, under the default seeds, of a byte sequence that was fed to
/// the hasher one byte at a time.
pub uninterp spec fn sea_digest(bytes: Seq<u8>) -> u64;

/// `SeaHasher::new`: a hasher with the default seeds that has been fed
/// nothing.
#[verifier::external_body]
pub(crate) fn fresh() -> (hasher: SeaHasher)
    ensures
        absorbed(hasher) == Seq::<u8>::empty(),
{
    SeaHasher::new()
}

/// `Hasher::write_u8` on a `SeaHasher`: one more byte has been fed.
#[verifier::external_body]
fn feed(hasher: &mut SeaHasher, byte: u8)
    ensures
        absorbed(*final(hasher)) == absorbed(*old(hasher)).push(byte),
{
    std::hash::Hasher::write_u8(hasher, byte);
}

/// `Hasher::finish` on a `SeaHasher`: the hash of what has been fed so far.
#[verifier::external_body]
pub(crate) fn finish(hasher: &SeaHasher) -> (digest: u64)
    ensures
        digest == sea_digest(absorbed(*hasher)),
{
    std::hash::Hasher::finish(hasher)
}

/// Feeds every byte of `bytes` to the hasher, in order.
pub(crate) fn feed_all(hasher: &mut SeaHasher, bytes: &[u8])
    ensures
        absorbed(*final(hasher)) == absorbed(*old(hasher)) + bytes@,
{
    let mut at: usize = 0;
    while at < bytes.len()
        invariant
            at <= bytes@.len(),
            absorbed(*hasher) == absorbed(*old(hasher)) + bytes@.subrange(0, at as int),
        decreases bytes@.len() - at,
    {
        feed(hasher, bytes[at]);
        proof {
            assert(absorbed(*old(hasher)) + bytes@.subrange(0, at + 1) == (absorbed(*old(hasher))
                + bytes@.subrange(0, at as int)).push(bytes@[at as int]));
        }
        at += 1;
    }
    proof {
        assert(bytes@.subrange(0, at as int) == bytes@);
    }
}

} // verus!
