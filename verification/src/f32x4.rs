//! Four-lane vectors: the samples taken at the corners of a footprint, and the
//! words their sign bits are folded into.

use vstd::prelude::*;
use crate::lane::{sign_bit, ONE};

verus! {

/// Four single-precision lanes, each held as its bit pattern. In a footprint
/// the lanes are the corners `(0,0)`, `(1,0)`, `(0,1)`, `(1,1)` in that order.
#[derive(Clone, Copy, Debug)]
pub struct f32x4(pub u32, pub u32, pub u32, pub u32);

/// Four 32-bit words.
#[derive(Clone, Copy, Debug)]
pub struct u32x4(pub u32, pub u32, pub u32, pub u32);

/// Two 32-bit words.
#[derive(Clone, Copy, Debug)]
pub struct u32x2(pub u32, pub u32);

/// Two four-lane vectors: an x and a y for each lane.
#[derive(Clone, Copy, Debug)]
pub struct f32x4_vec2(pub [f32x4; 2]);

/// Three four-lane vectors: an x, a y and a z for each lane.
#[derive(Clone, Copy, Debug)]
pub struct f32x4_vec3(pub [f32x4; 3]);

/// The sign bit of a bitwise AND is set exactly when it is set in both words,
/// and that of a bitwise OR when it is set in either.
pub proof fn lemma_sign_of_and_or(a: u32, b: u32)
    ensures
        sign_bit(a & b) <==> sign_bit(a) && sign_bit(b),
        sign_bit(a | b) <==> sign_bit(a) || sign_bit(b),
{
    assert((a & b) >= 0x8000_0000u32 <==> a >= 0x8000_0000u32 && b >= 0x8000_0000u32)
        by (bit_vector);
    assert((a | b) >= 0x8000_0000u32 <==> a >= 0x8000_0000u32 || b >= 0x8000_0000u32)
        by (bit_vector);
}

impl u32x2 {
    /// The two words.
    pub fn split(self) -> (r: (u32, u32))
        ensures
            r == (self.0, self.1),
    {
        (self.0, self.1)
    }

    /// The bitwise AND of the two words.
    pub fn and_self(self) -> (r: u32)
        ensures
            r == self.0 & self.1,
            sign_bit(r) <==> sign_bit(self.0) && sign_bit(self.1),
    {
        proof {
            lemma_sign_of_and_or(self.0, self.1);
        }
        let (a, b) = self.split();
        a & b
    }

    /// The bitwise OR of the two words.
    pub fn or_self(self) -> (r: u32)
        ensures
            r == self.0 | self.1,
            sign_bit(r) <==> sign_bit(self.0) || sign_bit(self.1),
    {
        proof {
            lemma_sign_of_and_or(self.0, self.1);
        }
        let (a, b) = self.split();
        a | b
    }
}

impl u32x4 {
    /// Whether the sign bit is set in every word.
    pub open spec fn all_negative(self) -> bool {
        sign_bit(self.0) && sign_bit(self.1) && sign_bit(self.2) && sign_bit(self.3)
    }

    /// Whether the sign bit is set in at least one word.
    pub open spec fn any_negative(self) -> bool {
        sign_bit(self.0) || sign_bit(self.1) || sign_bit(self.2) || sign_bit(self.3)
    }

    /// The lower and the upper pair of words.
    pub fn split(self) -> (r: (u32x2, u32x2))
        ensures
            r.0 == u32x2(self.0, self.1),
            r.1 == u32x2(self.2, self.3),
    {
        (u32x2(self.0, self.1), u32x2(self.2, self.3))
    }

    /// The bitwise AND of the four words.
    pub fn and_self(self) -> (r: u32)
        ensures
            r == (self.0 & self.2) & (self.1 & self.3),
            sign_bit(r) <==> self.all_negative(),
    {
        proof {
            lemma_sign_of_and_or(self.0, self.2);
            lemma_sign_of_and_or(self.1, self.3);
        }
        let (a, b) = self.split();
        u32x2(a.0 & b.0, a.1 & b.1).and_self()
    }

    /// The bitwise OR of the four words.
    pub fn or_self(self) -> (r: u32)
        ensures
            r == (self.0 | self.2) | (self.1 | self.3),
            sign_bit(r) <==> self.any_negative(),
    {
        proof {
            lemma_sign_of_and_or(self.0, self.2);
            lemma_sign_of_and_or(self.1, self.3);
        }
        let (a, b) = self.split();
        u32x2(a.0 | b.0, a.1 | b.1).or_self()
    }
}

impl f32x4 {
    /// The same lane four times.
    pub fn broadcast(v: u32) -> (r: f32x4)
        ensures
            r == f32x4(v, v, v, v),
    {
        f32x4(v, v, v, v)
    }

    /// The x offsets of the four corners: `0.0, 1.0, 0.0, 1.0`.
    pub fn range_x() -> (r: f32x4)
        ensures
            r == f32x4(0, ONE, 0, ONE),
    {
        f32x4(0, ONE, 0, ONE)
    }

    /// The y offsets of the four corners: `0.0, 0.0, 1.0, 1.0`.
    pub fn range_y() -> (r: f32x4)
        ensures
            r == f32x4(0, 0, ONE, ONE),
    {
        f32x4(0, 0, ONE, ONE)
    }

    /// The four patterns as plain words, for bit twiddling.
    pub fn to_bit_u32x4(self) -> (r: u32x4)
        ensures
            r == u32x4(self.0, self.1, self.2, self.3),
    {
        u32x4(self.0, self.1, self.2, self.3)
    }
}

impl f32x4_vec2 {
    /// Every lane holds the point `v`.
    pub fn broadcast(v: [u32; 2]) -> (r: f32x4_vec2)
        ensures
            r.0[0] == f32x4(v[0], v[0], v[0], v[0]),
            r.0[1] == f32x4(v[1], v[1], v[1], v[1]),
    {
        f32x4_vec2([f32x4::broadcast(v[0]), f32x4::broadcast(v[1])])
    }
}

impl f32x4_vec3 {
    /// Every lane holds the point `v`.
    pub fn broadcast(v: [u32; 3]) -> (r: f32x4_vec3)
        ensures
            r.0[0] == f32x4(v[0], v[0], v[0], v[0]),
            r.0[1] == f32x4(v[1], v[1], v[1], v[1]),
            r.0[2] == f32x4(v[2], v[2], v[2], v[2]),
    {
        f32x4_vec3([f32x4::broadcast(v[0]), f32x4::broadcast(v[1]), f32x4::broadcast(v[2])])
    }
}

} // verus!
