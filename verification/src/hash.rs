use vstd::prelude::*;

verus! {

/// FNV-1a offset basis for 64-bit hashes.
pub const FNV_OFFSET: u64 = 0xcbf29ce484222325;

/// FNV-1a prime for 64-bit hashes.
pub const FNV_PRIME: u64 = 0x100000001b3;

/// Mathematical definition of the 64-bit FNV-1a hash, folded left to right
/// over the bytes.
pub open spec fn fnv1a_spec(bytes: Seq<u8>) -> u64
    decreases bytes.len(),
{
    if bytes.len() == 0 {
        FNV_OFFSET
    } else {
        (fnv1a_spec(bytes.drop_last()) ^ (bytes.last() as u64)).wrapping_mul(FNV_PRIME)
    }
}

/// 64-bit FNV-1a over raw bytes: the deterministic content address used to
/// deduplicate embedded artwork. Byte-identical inputs always hash alike.
pub fn fnv1a(bytes: &Vec<u8>) -> (h: u64)
    ensures
        h == fnv1a_spec(bytes@),
{
    let mut h: u64 = FNV_OFFSET;
    let n = bytes.len();
    for i in 0..n
        invariant
            n == bytes@.len(),
            h == fnv1a_spec(bytes@.take(i as int)),
    {
        h = (h ^ (bytes[i] as u64)).wrapping_mul(FNV_PRIME);
        proof {
            assert(bytes@.take(i + 1).drop_last() =~= bytes@.take(i as int));
        }
    }
    proof {
        assert(bytes@.take(n as int) =~= bytes@);
    }
    h
}

} // verus!
