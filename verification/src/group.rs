//! Coverage of one 8×8 group of pixels by one triangle.

use vstd::prelude::*;
use vstd::std_specs::bits::axiom_u64_trailing_zeros;
use crate::f32x8::{f32x8x8, f32x8x8_vec3, lemma_mask_bits, mask_bit};
use crate::lane::{less, sign_bit};

verus! {

/// Whether lane `i` lies inside the triangle: none of its three weights has
/// the sign bit set.
pub open spec fn inside(weights: f32x8x8_vec3, i: int) -> bool {
    !sign_bit(weights.0[0].0[i]) && !sign_bit(weights.0[1].0[i]) && !sign_bit(weights.0[2].0[i])
}

/// Whether the triangle is drawn at lane `i`: the lane lies inside it, and its
/// depth there is below the depth `stored` for the pixel.
pub open spec fn passes(weights: f32x8x8_vec3, depth: f32x8x8, stored: f32x8x8, i: int) -> bool {
    inside(weights, i) && less(depth.0[i], stored.0[i])
}

/// Whether `i` is the lowest bit that is set in the mask.
pub open spec fn is_lowest(m: u64, i: int) -> bool {
    mask_bit(m, i) && forall|j: int| 0 <= j < i ==> !mask_bit(m, j)
}

/// What one triangle covers of one group: the mask of the pixels it is drawn
/// at, and its weights at all sixty-four.
#[derive(Clone, Copy, Debug)]
pub struct Group {
    pub weights: f32x8x8_vec3,
    pub mask: u64,
}

/// Walks the pixels of a [`Group`], lowest bit of the mask first.
#[derive(Clone, Copy, Debug)]
pub struct GroupIter {
    pub weights: [[u32; 64]; 3],
    pub mask: u64,
}

proof fn lemma_clear_bit(m: u64, i: u64, j: u64)
    by (bit_vector)
    requires
        i < 64,
        j < 64,
    ensures
        ((m & !(1u64 << i)) >> j) & 1u64 == 1u64 <==> (m >> j) & 1u64 == 1u64 && i != j,
        (m >> i) & 1u64 == 1u64 ==> (m & !(1u64 << i)) < m,
{
}

impl Group {
    /// Tests a triangle against a group and records its depth where it wins.
    ///
    /// `weights` and `depth` are the triangle's barycentric weights and its
    /// interpolated depth at the sixty-four pixel centres; `stored` is the
    /// group's depth slab. A pixel is covered when it lies inside the triangle
    /// and the triangle is nearer there than what the slab holds; at those
    /// pixels, and only those, the slab takes the triangle's depth.
    pub fn new(weights: &f32x8x8_vec3, depth: &f32x8x8, stored: &mut f32x8x8) -> (g: Group)
        ensures
            g.weights == *weights,
            forall|i: int|
                0 <= i < 64 ==> (#[trigger] mask_bit(g.mask, i) <==> passes(
                    *weights,
                    *depth,
                    *old(stored),
                    i,
                )),
            forall|i: int|
                0 <= i < 64 ==> #[trigger] final(stored).0[i] == if passes(
                    *weights,
                    *depth,
                    *old(stored),
                    i,
                ) {
                    depth.0[i]
                } else {
                    old(stored).0[i]
                },
    {
        let b0 = weights.0[0].to_bit_u32x8x8().bitmask();
        let b1 = weights.0[1].to_bit_u32x8x8().bitmask();
        let b2 = weights.0[2].to_bit_u32x8x8().bitmask();
        let nearer = depth.less_mask(stored);
        let mask = !(b0 | b1 | b2) & nearer;
        proof {
            lemma_mask_bits(b0, b1, 0);
            lemma_mask_bits(b0 | b1, b2, 0);
            lemma_mask_bits(b0 | b1 | b2, 0, 0);
            lemma_mask_bits(!(b0 | b1 | b2), nearer, 0);
        }
        stored.replace(depth, mask);
        Group { weights: *weights, mask }
    }

    /// The pixels of the group that the triangle is drawn at.
    pub fn iter(self) -> (it: GroupIter)
        ensures
            it.mask == self.mask,
            it.weights[0] == self.weights.0[0].0,
            it.weights[1] == self.weights.0[1].0,
            it.weights[2] == self.weights.0[2].0,
    {
        GroupIter {
            weights: [self.weights.0[0].0, self.weights.0[1].0, self.weights.0[2].0],
            mask: self.mask,
        }
    }
}

impl GroupIter {
    /// The next covered pixel: its column and row inside the group, and its
    /// three weights. Pixels come lowest mask bit first, and each is handed out
    /// once: its bit is cleared, and nothing else changes.
    pub fn next(&mut self) -> (r: Option<(usize, usize, [u32; 3])>)
        ensures
            r is None <==> old(self).mask == 0,
            final(self).weights == old(self).weights,
            r is None ==> final(self).mask == old(self).mask,
            r is Some ==> final(self).mask < old(self).mask,
            match r {
                Some((dx, dy, w)) => {
                    &&& dx < 8
                    &&& dy < 8
                    &&& is_lowest(old(self).mask, dy * 8 + dx)
                    &&& w[0] == old(self).weights[0][dy * 8 + dx]
                    &&& w[1] == old(self).weights[1][dy * 8 + dx]
                    &&& w[2] == old(self).weights[2][dy * 8 + dx]
                    &&& forall|j: int|
                        0 <= j < 64 ==> (#[trigger] mask_bit(final(self).mask, j) <==> mask_bit(
                            old(self).mask,
                            j,
                        ) && j != dy * 8 + dx)
                },
                None => true,
            },
    {
        if self.mask == 0 {
            return None;
        }
        let m = self.mask;
        let next: u32 = m.trailing_zeros();
        proof {
            axiom_u64_trailing_zeros(m);
            assert forall|j: int| 0 <= j < 64 implies (#[trigger] mask_bit(
                m & !(1u64 << (next as u64)),
                j,
            ) <==> mask_bit(m, j) && j != next) by {
                lemma_clear_bit(m, next as u64, j as u64);
            }
            lemma_clear_bit(m, next as u64, next as u64);
            assert(next & 0x7 == next % 8) by (bit_vector);
            assert(next >> 3 == next / 8) by (bit_vector);
        }
        self.mask = m & !(1u64 << (next as u64));
        let at = next as usize;
        Some(
            (
                (next & 0x7) as usize,
                (next >> 3) as usize,
                [self.weights[0][at], self.weights[1][at], self.weights[2][at]],
            ),
        )
    }
}

} // verus!
