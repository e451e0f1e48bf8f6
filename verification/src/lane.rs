//! A lane is one single-precision number, held as its 32-bit IEEE-754 pattern.
//!
//! The rasterizer never does arithmetic on lanes; it reads their sign bits and
//! orders them. Both are functions of the pattern alone and are defined here.

use vstd::prelude::*;

verus! {

/// The sign bit of a lane.
pub const SIGN: u32 = 0x8000_0000u32;

/// The pattern of positive infinity; every larger magnitude is a NaN.
pub const INFINITY: u32 = 0x7F80_0000u32;

/// The pattern of `1.0`, the depth every pixel is cleared to.
pub const ONE: u32 = 0x3F80_0000u32;

/// Whether the sign bit of the pattern is set.
pub open spec fn sign_bit(x: u32) -> bool {
    x >= 0x8000_0000u32
}

/// The pattern without its sign bit.
pub open spec fn magnitude(x: u32) -> int {
    if x >= 0x8000_0000u32 {
        x - 0x8000_0000
    } else {
        x as int
    }
}

/// Whether the pattern encodes a NaN.
pub open spec fn is_nan(x: u32) -> bool {
    magnitude(x) > 0x7F80_0000
}

/// The pattern read as a sign-magnitude integer. On patterns that are not NaN
/// this integer grows exactly as the encoded number does, and both zeros map
/// to 0.
pub open spec fn rank(x: u32) -> int {
    if sign_bit(x) {
        -magnitude(x)
    } else {
        magnitude(x)
    }
}

/// IEEE-754 `a < b`: false when either side is a NaN, and `-0.0 < +0.0` is false.
pub open spec fn less(a: u32, b: u32) -> bool {
    !is_nan(a) && !is_nan(b) && rank(a) < rank(b)
}

/// IEEE-754 `x >= 0.0`: false for a NaN, true for both zeros.
pub open spec fn non_negative(x: u32) -> bool {
    !is_nan(x) && rank(x) >= 0
}

/// The sign bit as the hardware sees it: the top bit of the word.
pub proof fn lemma_sign_bit_is_top_bit(x: u32)
    ensures
        sign_bit(x) <==> (x & 0x8000_0000u32) != 0,
        sign_bit(x) <==> (x >> 31u32) == 1,
        magnitude(x) == (x & 0x7FFF_FFFFu32),
{
    assert((x >= 0x8000_0000u32) <==> (x & 0x8000_0000u32) != 0) by (bit_vector);
    assert((x >= 0x8000_0000u32) <==> (x >> 31u32) == 1) by (bit_vector);
    assert(x >= 0x8000_0000u32 ==> (x & 0x7FFF_FFFFu32) == x - 0x8000_0000u32) by (bit_vector);
    assert(x < 0x8000_0000u32 ==> (x & 0x7FFF_FFFFu32) == x) by (bit_vector);
}

/// Reads the sign bit of a lane.
pub fn is_negative(x: u32) -> (r: bool)
    ensures
        r == sign_bit(x),
{
    x >= SIGN
}

/// Compares two lanes as the numbers they encode.
pub fn lane_less(a: u32, b: u32) -> (r: bool)
    ensures
        r == less(a, b),
{
    let ma: u32 = if a >= SIGN { a - SIGN } else { a };
    let mb: u32 = if b >= SIGN { b - SIGN } else { b };
    if ma > INFINITY || mb > INFINITY {
        false
    } else if a >= SIGN {
        if b >= SIGN {
            ma > mb
        } else {
            ma != 0 || mb != 0
        }
    } else {
        if b >= SIGN {
            false
        } else {
            ma < mb
        }
    }
}

/// Tests a lane against zero as the number it encodes.
pub fn lane_non_negative(x: u32) -> (r: bool)
    ensures
        r == non_negative(x),
{
    let m: u32 = if x >= SIGN { x - SIGN } else { x };
    m <= INFINITY && (x < SIGN || m == 0)
}

} // verus!
