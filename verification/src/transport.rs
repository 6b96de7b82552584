//! The computing half of the transport boundary: a serialized buffer is
//! handed across a foreign-memory boundary as a single 64-bit handle that
//! packs the buffer's address and its length.  Serialization itself and
//! the memory registry are the transport's own, unverified concern.

use vstd::prelude::*;

verus! {

/// Packs a buffer address and length into one handle: the address in the
/// high 32 bits, the length in the low 32 bits.
pub fn pack_handle(ptr: u32, len: u32) -> (r: u64)
    ensures
        r == ((ptr as u64) << 32u64) | (len as u64),
{
    ((ptr as u64) << 32u64) | (len as u64)
}

/// Recovers the address and length that [`pack_handle`] packed.
pub fn unpack_handle(handle: u64) -> (r: (u32, u32))
    ensures
        r.0 == (handle >> 32u64) as u32,
        r.1 == (handle & 0xFFFF_FFFFu64) as u32,
{
    ((handle >> 32u64) as u32, (handle & 0xFFFF_FFFFu64) as u32)
}

/// Packing then unpacking gives back the address and the length.
pub proof fn lemma_handle_round_trip(ptr: u32, len: u32)
    ensures
        ((((ptr as u64) << 32u64) | (len as u64)) >> 32u64) as u32 == ptr,
        ((((ptr as u64) << 32u64) | (len as u64)) & 0xFFFF_FFFFu64) as u32 == len,
{
    assert(((((ptr as u64) << 32u64) | (len as u64)) >> 32u64) as u32 == ptr) by (bit_vector);
    assert(((((ptr as u64) << 32u64) | (len as u64)) & 0xFFFF_FFFFu64) as u32 == len)
        by (bit_vector);
}

} // verus!
