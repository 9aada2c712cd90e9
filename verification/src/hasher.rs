//! FNV-1a, the 32-bit name hash that identifies joints and submeshes.

use vstd::prelude::*;
use vstd::string::StringSliceAdditionalSpecFns;

verus! {

/// The value the hash starts from.
pub const FNV_OFFSET_BASIS: u32 = 0x811c_9dc5;

/// The multiplier applied after each byte.
pub const FNV_PRIME: u32 = 0x0100_0193;

/// One round of FNV-1a: fold the byte in with xor, then multiply modulo 2^32.
pub open spec fn fnv1a_step(h: u32, b: u8) -> u32 {
    (h ^ (b as u32)).wrapping_mul(FNV_PRIME)
}

/// The FNV-1a hash of a byte string, folded from the first byte to the last.
pub open spec fn fnv1a_of(bytes: Seq<u8>) -> u32
    decreases bytes.len(),
{
    if bytes.len() == 0 {
        FNV_OFFSET_BASIS
    } else {
        fnv1a_step(fnv1a_of(bytes.drop_last()), bytes.last())
    }
}

/// Hashes raw bytes. No byte is normalised or skipped.
pub fn fnv1a_bytes(bytes: &[u8]) -> (h: u32)
    ensures
        h == fnv1a_of(bytes@),
{
    let mut h: u32 = FNV_OFFSET_BASIS;
    let mut i: usize = 0;
    while i < bytes.len()
        invariant
            i <= bytes.len(),
            h == fnv1a_of(bytes@.take(i as int)),
        decreases bytes.len() - i,
    {
        proof {
            assert(bytes@.take(i + 1).drop_last() =~= bytes@.take(i as int));
        }
        h = (h ^ (bytes[i] as u32)).wrapping_mul(FNV_PRIME);
        i += 1;
    }
    proof {
        assert(bytes@.take(i as int) =~= bytes@);
    }
    h
}

/// Hashes a name by its UTF-8 bytes, case preserved.
pub fn fnv1a(name: &str) -> (h: u32)
    ensures
        h == fnv1a_of(name.spec_bytes()),
{
    fnv1a_bytes(name.as_bytes())
}

/// Hashing is a function of the bytes alone: equal byte strings have equal
/// hashes, whenever and wherever they are hashed.
pub proof fn lemma_fnv1a_stable(a: Seq<u8>, b: Seq<u8>)
    requires
        a =~= b,
    ensures
        fnv1a_of(a) == fnv1a_of(b),
{
}

} // verus!
