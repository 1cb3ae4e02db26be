//! Where an entry's payload starts: the corrected, aligned offset.
use vstd::prelude::*;
use vstd::arithmetic::power2::{pow2, lemma2_to64, lemma_pow2_strictly_increases};

verus! {

/// Whether `n` is a power of two.
pub open spec fn is_power_of_two(n: int) -> bool {
    exists|k: nat| pow2(k) == n
}

/// The absolute payload offset: the declared offset plus the correction plus
/// `alignment - 1`, plus 8 more when the correction is non-zero, masked with
/// `2^32 - alignment`; all of it modulo 2^32.
pub open spec fn payload_offset(declared: u32, correction: u32, alignment: u16) -> u32 {
    let bump: int = if correction > 0 { 8 } else { 0 };
    let raw = (declared + correction + (alignment - 1) + bump) % 0x1_0000_0000;
    let mask = (0x1_0000_0000 - alignment) % 0x1_0000_0000;
    (raw as u32) & (mask as u32)
}

/// Computes the absolute offset of a payload, in wrapping 32-bit arithmetic.
pub fn resolve_offset(declared_offset: u32, correction: u32, file_alignment: u16) -> (r: u32)
    ensures
        r == payload_offset(declared_offset, correction, file_alignment),
{
    let a = file_alignment as u32;
    let sum = declared_offset.wrapping_add(correction);
    let mut raw = sum.wrapping_add(a.wrapping_sub(1));
    assert(raw == (declared_offset + correction + (file_alignment - 1)) % 0x1_0000_0000);
    if correction > 0 {
        raw = raw.wrapping_add(8);
    }
    let mask = 0u32.wrapping_sub(a);
    raw & mask
}

/// The +8 adjustment is made exactly when the correction is non-zero, once,
/// before the mask.
pub proof fn lemma_adjustment_only_with_correction(declared: u32, correction: u32, alignment: u16)
    ensures
        correction == 0 ==> payload_offset(declared, correction, alignment)
            == (((declared + (alignment - 1)) % 0x1_0000_0000) as u32)
            & (((0x1_0000_0000 - alignment) % 0x1_0000_0000) as u32),
        correction > 0 ==> payload_offset(declared, correction, alignment)
            == (((declared + correction + (alignment - 1) + 8) % 0x1_0000_0000) as u32)
            & (((0x1_0000_0000 - alignment) % 0x1_0000_0000) as u32),
{
}

/// For a power-of-two alignment the payload offset is a multiple of it.
pub proof fn lemma_offset_aligned(declared: u32, correction: u32, alignment: u16)
    requires
        is_power_of_two(alignment as int),
    ensures
        payload_offset(declared, correction, alignment) % (alignment as u32) == 0,
{
    let k = choose|k: nat| pow2(k) == alignment as int;
    lemma2_to64();
    if k > 16 {
        lemma_pow2_strictly_increases(16, k);
    }
    assert(k < 16);
    let a = alignment as u32;
    let bump: int = if correction > 0 { 8 } else { 0 };
    let raw = ((declared + correction + (alignment - 1) + bump) % 0x1_0000_0000) as u32;
    let mask = ((0x1_0000_0000 - alignment) % 0x1_0000_0000) as u32;
    assert(mask == (0x1_0000_0000 - a) as u32);
    assert(a == 1 || a == 2 || a == 4 || a == 8 || a == 0x10 || a == 0x20 || a == 0x40
        || a == 0x80 || a == 0x100 || a == 0x200 || a == 0x400 || a == 0x800 || a == 0x1000
        || a == 0x2000 || a == 0x4000 || a == 0x8000);
    assert((raw & mask) % a == 0) by (bit_vector)
        requires
            mask == (0x1_0000_0000 - a) as u32,
            a == 1 || a == 2 || a == 4 || a == 8 || a == 0x10 || a == 0x20 || a == 0x40
                || a == 0x80 || a == 0x100 || a == 0x200 || a == 0x400 || a == 0x800
                || a == 0x1000 || a == 0x2000 || a == 0x4000 || a == 0x8000,
    ;
}

} // verus!
