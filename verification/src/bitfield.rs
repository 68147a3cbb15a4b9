//! Bit-level access to fields packed into machine words.
use vstd::prelude::*;

verus! {

/// The field of the bits selected by `mask` (already shifted down) at `offset` in `word`.
pub open spec fn field64(word: u64, offset: u64, mask: u64) -> u64 {
    (word >> offset) & mask
}

/// `word` with the field selected by `mask` at `offset` replaced by the masked `value`.
pub open spec fn with_field64(word: u64, offset: u64, mask: u64, value: u64) -> u64 {
    (word & !(mask << offset)) | ((value & mask) << offset)
}

/// The bit at `offset` of `word`.
pub open spec fn bit64(word: u64, offset: u64) -> bool {
    (word >> offset) & 1 == 1
}

/// `word` with the bit at `offset` set to `value`.
pub open spec fn with_bit64(word: u64, offset: u64, value: bool) -> u64 {
    with_field64(word, offset, 1, if value { 1 } else { 0 })
}

/// Replaces the field selected by `mask` at `offset` of a 64-bit word with the masked `value`.
pub fn set_field64(word: u64, offset: u64, mask: u64, value: u64) -> (r: u64)
    requires
        offset < 64,
    ensures
        r == with_field64(word, offset, mask, value),
{
    (word & !(mask << offset)) | ((value & mask) << offset)
}

/// Sets the bit at `offset` of a 64-bit word to `value`.
pub fn set_bit64(word: u64, offset: u64, value: bool) -> (r: u64)
    requires
        offset < 64,
    ensures
        r == with_bit64(word, offset, value),
        bit64(r, offset) == value,
        forall|i: u64| i < 64 && i != offset ==> bit64(r, i) == bit64(word, i),
{
    let v: u64 = if value { 1 } else { 0 };
    let r = set_field64(word, offset, 1, v);
    assert(bit64(r, offset) == value) by (bit_vector)
        requires
            r == (word & !(1u64 << offset)) | ((v & 1) << offset),
            offset < 64,
            v == (if value { 1u64 } else { 0u64 }),
    ;
    assert forall|i: u64| i < 64 && i != offset implies bit64(r, i) == bit64(word, i) by {
        assert((r >> i) & 1 == (word >> i) & 1) by (bit_vector)
            requires
                r == (word & !(1u64 << offset)) | ((v & 1) << offset),
                offset < 64,
                i < 64,
                i != offset,
        ;
    }
    r
}

/// Reading back a field just written gives the masked value written, for a mask of
/// contiguous low bits that fits at its offset.
pub proof fn law_field64_round_trip(word: u64, offset: u64, width: u64, value: u64)
    requires
        1 <= width,
        offset + width <= 64,
    ensures
        field64(with_field64(word, offset, ((1u128 << width) - 1) as u64, value), offset,
            ((1u128 << width) - 1) as u64) == value & (((1u128 << width) - 1) as u64),
{
    let m = ((1u128 << width) - 1) as u64;
    assert((((word & !(m << offset)) | ((value & m) << offset)) >> offset) & m == value & m)
        by (bit_vector)
        requires
            1 <= width,
            offset + width <= 64,
            m == ((1u128 << width) - 1) as u64,
    ;
}

} // verus!
