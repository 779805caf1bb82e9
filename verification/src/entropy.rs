//! Random draws for seeding a board.
//!
//! A draw is a double in the half-open range from zero to one.  The verified
//! code never computes with doubles: it carries a draw as the 64 bits of its
//! IEEE 754 encoding and compares encodings as integers.  For doubles of one
//! sign that is the same as comparing the doubles, because the encoding of a
//! larger magnitude is the larger integer.

use vstd::prelude::*;

verus! {

/// The encoding of the double `0.2`: a cell is seeded alive when its draw is
/// smaller than that.
pub const ALIVE_BELOW: u64 = 0x3FC9_9999_9999_999A;

/// The encoding of the double `1.0`.
pub const ONE: u64 = 0x3FF0_0000_0000_0000;

/// The encoding of negative zero: the sign bit alone.  Every encoding from
/// here on has the sign bit set.
pub const NEGATIVE_ZERO: u64 = 0x8000_0000_0000_0000;

/// The encoding of negative infinity, the last encoding with the sign bit
/// set that is a number.
pub const NEGATIVE_INFINITY: u64 = 0xFFF0_0000_0000_0000;

/// Whether `bits` encodes a double that is at least zero and less than one.
/// Zero has two encodings, one for each sign.
pub open spec fn is_unit_draw(bits: u64) -> bool {
    bits < ONE || bits == NEGATIVE_ZERO
}

/// Whether the double that `bits` encodes is less than `0.2`: a double
/// without sign bit whose encoding is below that of `0.2`, or any negative
/// number, negative zero and negative infinity included.  An encoding that
/// is not a number is less than nothing.
pub open spec fn seeds_alive(bits: u64) -> bool {
    bits < ALIVE_BELOW || NEGATIVE_ZERO <= bits <= NEGATIVE_INFINITY
}

/// One draw from the host's random number generator, as its encoding.
///
/// Calls `js_sys::Math::random`, which is documented to return a
/// pseudo-random double in the range from zero to one, zero included and one
/// not.  The contract claims just that of the draw, and it is taken on
/// trust: the body is not verified.  The generator is only there on a
/// JavaScript host; on any other target the binding panics.
#[verifier::external_body]
pub(crate) fn random_draw() -> (bits: u64)
    ensures
        is_unit_draw(bits),
{
    js_sys::Math::random().to_bits()
}

/// `count` draws, in the order in which they were made.
pub(crate) fn random_draws(count: usize) -> (draws: Vec<u64>)
    ensures
        draws@.len() == count,
        forall|i: int| 0 <= i < count ==> is_unit_draw(#[trigger] draws@[i]),
{
    let mut draws: Vec<u64> = Vec::new();
    let mut i: usize = 0;
    while i < count
        invariant
            i <= count,
            draws@.len() == i,
            forall|k: int| 0 <= k < i ==> is_unit_draw(#[trigger] draws@[k]),
        decreases count - i,
    {
        draws.push(random_draw());
        i += 1;
    }
    draws
}

} // verus!
