//! Sixty-four-lane vectors: one lane for each pixel of an 8×8 group, and the
//! 64-bit masks that hold one bit for each lane.
//!
//! Lane `i` is the pixel in column `i % 8` of row `i / 8`; bit `i` of a mask
//! speaks of lane `i`, the least significant bit of lane 0.

use vstd::prelude::*;
use crate::lane::{is_negative, lane_less, less, sign_bit};

verus! {

/// Sixty-four single-precision lanes, each held as its bit pattern.
#[derive(Clone, Copy, Debug)]
pub struct f32x8x8(pub [u32; 64]);

/// Sixty-four 32-bit words.
#[derive(Clone, Copy, Debug)]
pub struct u32x8x8(pub [u32; 64]);

/// Three sixty-four-lane vectors: for each pixel of a group its three
/// barycentric weights, in the order of the triangle's vertices.
#[derive(Clone, Copy, Debug)]
pub struct f32x8x8_vec3(pub [f32x8x8; 3]);

/// Whether bit `i` of the mask is set.
pub open spec fn mask_bit(m: u64, i: int) -> bool {
    0 <= i < 64 && (m >> (i as u64)) & 1u64 == 1u64
}

proof fn lemma_shifted_bits(m: u64, n: u64, i: u64, j: u64)
    by (bit_vector)
    requires
        i < 64,
        j < 64,
    ensures
        (0u64 >> j) & 1u64 == 0u64,
        ((1u64 << i) >> j) & 1u64 == 1u64 <==> i == j,
        ((m | n) >> j) & 1u64 == 1u64 <==> (m >> j) & 1u64 == 1u64 || (n >> j) & 1u64 == 1u64,
        ((m & n) >> j) & 1u64 == 1u64 <==> (m >> j) & 1u64 == 1u64 && (n >> j) & 1u64 == 1u64,
        ((!m) >> j) & 1u64 == 1u64 <==> (m >> j) & 1u64 != 1u64,
{
}

/// How the bits of a mask follow from the bits of the masks it was built from.
pub proof fn lemma_mask_bits(m: u64, n: u64, i: int)
    ensures
        forall|j: int| !mask_bit(0u64, j),
        0 <= i < 64 ==> forall|j: int|
            0 <= j < 64 ==> (#[trigger] mask_bit(1u64 << (i as u64), j) <==> i == j),
        forall|j: int| #[trigger] mask_bit(m | n, j) <==> mask_bit(m, j) || mask_bit(n, j),
        forall|j: int| #[trigger] mask_bit(m & n, j) <==> mask_bit(m, j) && mask_bit(n, j),
        forall|j: int| 0 <= j < 64 ==> (#[trigger] mask_bit(!m, j) <==> !mask_bit(m, j)),
{
    assert forall|j: int| !mask_bit(0u64, j) by {
        if 0 <= j < 64 {
            lemma_shifted_bits(m, n, 0, j as u64);
        }
    }
    if 0 <= i < 64 {
        assert forall|j: int| 0 <= j < 64 implies (#[trigger] mask_bit(1u64 << (i as u64), j) <==> i
            == j) by {
            lemma_shifted_bits(m, n, i as u64, j as u64);
        }
    }
    assert forall|j: int| #[trigger] mask_bit(m | n, j) <==> mask_bit(m, j) || mask_bit(n, j) by {
        if 0 <= j < 64 {
            lemma_shifted_bits(m, n, 0, j as u64);
        }
    }
    assert forall|j: int| #[trigger] mask_bit(m & n, j) <==> mask_bit(m, j) && mask_bit(n, j) by {
        if 0 <= j < 64 {
            lemma_shifted_bits(m, n, 0, j as u64);
        }
    }
    assert forall|j: int| 0 <= j < 64 implies (#[trigger] mask_bit(!m, j) <==> !mask_bit(m, j)) by {
        lemma_shifted_bits(m, n, 0, j as u64);
    }
}

/// Reads bit `i` of a mask.
pub fn test_bit(m: u64, i: usize) -> (r: bool)
    requires
        i < 64,
    ensures
        r == mask_bit(m, i as int),
{
    (m >> (i as u64)) & 1u64 == 1u64
}

impl u32x8x8 {
    /// The sign bits of the sixty-four words, packed into one mask.
    pub fn bitmask(&self) -> (m: u64)
        ensures
            forall|i: int| 0 <= i < 64 ==> (#[trigger] mask_bit(m, i) <==> sign_bit(self.0[i])),
    {
        let mut m: u64 = 0;
        let mut i: usize = 0;
        proof {
            lemma_mask_bits(0, 0, 0);
        }
        while i < 64
            invariant
                i <= 64,
                forall|j: int|
                    0 <= j < 64 ==> (#[trigger] mask_bit(m, j) <==> j < i && sign_bit(self.0[j])),
            decreases 64 - i,
        {
            if is_negative(self.0[i]) {
                proof {
                    lemma_mask_bits(m, 1u64 << (i as u64), i as int);
                }
                m = m | (1u64 << (i as u64));
            }
            i += 1;
        }
        m
    }
}

impl f32x8x8 {
    /// The same lane sixty-four times.
    pub fn broadcast(v: u32) -> (r: f32x8x8)
        ensures
            forall|i: int| 0 <= i < 64 ==> r.0[i] == v,
    {
        f32x8x8([v;64])
    }

    /// The sixty-four patterns as plain words, for bit twiddling.
    pub fn to_bit_u32x8x8(self) -> (r: u32x8x8)
        ensures
            r.0 == self.0,
    {
        u32x8x8(self.0)
    }

    /// The mask of the lanes in which `self` is below `other`, as numbers.
    pub fn less_mask(&self, other: &f32x8x8) -> (m: u64)
        ensures
            forall|i: int|
                0 <= i < 64 ==> (#[trigger] mask_bit(m, i) <==> less(self.0[i], other.0[i])),
    {
        let mut m: u64 = 0;
        let mut i: usize = 0;
        proof {
            lemma_mask_bits(0, 0, 0);
        }
        while i < 64
            invariant
                i <= 64,
                forall|j: int|
                    0 <= j < 64 ==> (#[trigger] mask_bit(m, j) <==> j < i && less(
                        self.0[j],
                        other.0[j],
                    )),
            decreases 64 - i,
        {
            if lane_less(self.0[i], other.0[i]) {
                proof {
                    lemma_mask_bits(m, 1u64 << (i as u64), i as int);
                }
                m = m | (1u64 << (i as u64));
            }
            i += 1;
        }
        m
    }

    /// Overwrites the lanes that the mask selects with those of `new`, and
    /// keeps the others.
    pub fn replace(&mut self, new: &f32x8x8, mask: u64)
        ensures
            forall|i: int|
                0 <= i < 64 ==> #[trigger] final(self).0[i] == if mask_bit(mask, i) {
                    new.0[i]
                } else {
                    old(self).0[i]
                },
    {
        let mut i: usize = 0;
        while i < 64
            invariant
                i <= 64,
                forall|j: int|
                    0 <= j < 64 ==> #[trigger] self.0[j] == if j < i && mask_bit(mask, j) {
                        new.0[j]
                    } else {
                        old(self).0[j]
                    },
            decreases 64 - i,
        {
            if test_bit(mask, i) {
                self.0[i] = new.0[i];
            }
            i += 1;
        }
    }
}

impl f32x8x8_vec3 {
    /// The three weights of lane `i`.
    pub open spec fn lane(self, i: int) -> [u32; 3] {
        [self.0[0].0[i], self.0[1].0[i], self.0[2].0[i]]
    }

    /// Every lane holds the point `v`.
    pub fn broadcast(v: [u32; 3]) -> (r: f32x8x8_vec3)
        ensures
            forall|c: int, i: int| 0 <= c < 3 && 0 <= i < 64 ==> r.0[c].0[i] == v[c],
    {
        f32x8x8_vec3([f32x8x8::broadcast(v[0]), f32x8x8::broadcast(v[1]), f32x8x8::broadcast(v[2])])
    }
}

} // verus!
