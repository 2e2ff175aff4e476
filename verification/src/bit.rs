//! Packing of a 32-bit word into four signed byte lanes, least significant
//! lane first, and back.

use vstd::prelude::*;

verus! {

/// Lane `0` of `n`: bits 0 to 7, read as a signed byte.
pub open spec fn lane0(n: i32) -> i8 {
    n as i8
}

/// Lane `1` of `n`: bits 8 to 15, read as a signed byte.
pub open spec fn lane1(n: i32) -> i8 {
    (n >> 8) as i8
}

/// Lane `2` of `n`: bits 16 to 23, read as a signed byte.
pub open spec fn lane2(n: i32) -> i8 {
    (n >> 16) as i8
}

/// Lane `3` of `n`: bits 24 to 31, read as a signed byte.
pub open spec fn lane3(n: i32) -> i8 {
    (n >> 24) as i8
}

/// The word whose four lanes, least significant first, are `b0..b3`.
pub open spec fn word_of_lanes(b0: i8, b1: i8, b2: i8, b3: i8) -> i32 {
    ((b0 as u8 as u32) | ((b1 as u8 as u32) << 8) | ((b2 as u8 as u32) << 16) | ((b3 as u8 as u32)
        << 24)) as i32
}

/// Splits `n` into its four byte lanes in little-endian order.
pub fn bytes_from_low_bits(n: i32) -> (lanes: (i8, i8, i8, i8))
    ensures
        lanes.0 == lane0(n),
        lanes.1 == lane1(n),
        lanes.2 == lane2(n),
        lanes.3 == lane3(n),
{
    (
        #[verifier::truncate]
        (n as i8),
        #[verifier::truncate]
        ((n >> 8) as i8),
        #[verifier::truncate]
        ((n >> 16) as i8),
        #[verifier::truncate]
        ((n >> 24) as i8),
    )
}

/// Assembles a word from four byte lanes given in little-endian order.
pub fn i32_from_bytes(i1: i8, i2: i8, i3: i8, i4: i8) -> (n: i32)
    ensures
        n == word_of_lanes(i1, i2, i3, i4),
{
    let b0: u32 = (#[verifier::truncate]
    (i1 as u8)) as u32;
    let b1: u32 = (#[verifier::truncate]
    (i2 as u8)) as u32;
    let b2: u32 = (#[verifier::truncate]
    (i3 as u8)) as u32;
    let b3: u32 = (#[verifier::truncate]
    (i4 as u8)) as u32;
    #[verifier::truncate]
    ((b0 | (b1 << 8) | (b2 << 16) | (b3 << 24)) as i32)
}

/// Splitting a word and assembling the lanes again gives the word back.
pub proof fn lemma_word_of_its_lanes(n: i32)
    ensures
        word_of_lanes(lane0(n), lane1(n), lane2(n), lane3(n)) == n,
{
    assert(((((n as i8) as u8 as u32) | ((((n >> 8) as i8) as u8 as u32) << 8) | ((((n >> 16) as i8)
        as u8 as u32) << 16) | ((((n >> 24) as i8) as u8 as u32) << 24)) as i32) == n)
        by (bit_vector);
}

/// Assembling four lanes and splitting the word again gives the lanes back.
pub proof fn lemma_lanes_of_word(b0: i8, b1: i8, b2: i8, b3: i8)
    ensures
        lane0(word_of_lanes(b0, b1, b2, b3)) == b0,
        lane1(word_of_lanes(b0, b1, b2, b3)) == b1,
        lane2(word_of_lanes(b0, b1, b2, b3)) == b2,
        lane3(word_of_lanes(b0, b1, b2, b3)) == b3,
{
    let w = word_of_lanes(b0, b1, b2, b3);
    assert((w as i8) == b0 && ((w >> 8) as i8) == b1 && ((w >> 16) as i8) == b2 && ((w >> 24)
        as i8) == b3) by (bit_vector)
        requires
            w == ((b0 as u8 as u32) | ((b1 as u8 as u32) << 8) | ((b2 as u8 as u32) << 16) | ((b3
                as u8 as u32) << 24)) as i32,
    ;
}

} // verus!
