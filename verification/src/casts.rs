//! What casts between integer widths do to a value, in arithmetic terms.

use vstd::prelude::*;

verus! {

/// The value of a word as a signed number.
pub open spec fn signed(w: u16) -> int {
    if w < 0x8000 {
        w as int
    } else {
        w - 0x1_0000
    }
}

pub proof fn lemma_u16_as_i16(w: u16)
    ensures
        w as i16 == signed(w),
{
    assert(w < 0x8000 ==> w as i16 == w) by (bit_vector);
    assert(w >= 0x8000 ==> w as i16 == w - 0x1_0000) by (bit_vector);
}

pub proof fn lemma_i16_as_u16(v: i16)
    ensures
        v as u16 == (v as int) % 0x1_0000,
{
    assert(v >= 0 ==> v as u16 == v) by (bit_vector);
    assert(v < 0 ==> v as u16 == v + 0x1_0000) by (bit_vector);
}

pub proof fn lemma_i32_as_u16(v: i32)
    ensures
        v as u16 == (v as int) % 0x1_0000,
{
    assert(v >= 0 ==> v as u16 == v % 0x1_0000) by (bit_vector);
    assert(v < 0 ==> v as u16 == (v + 0x8000_0000) % 0x1_0000) by (bit_vector);
}

pub proof fn lemma_i64_as_u8(v: i64)
    ensures
        v as u8 == (v as int) % 0x100,
{
    assert(v >= 0 ==> v as u8 == v % 0x100) by (bit_vector);
    assert(v < 0 ==> v as u8 == (v + 0x8000_0000_0000_0000) % 0x100) by (bit_vector);
}

} // verus!
