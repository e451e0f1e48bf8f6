//! A triangle's barycentric field, sampled over one 32×32 tile.
//!
//! The tile is sixteen 8×8 groups, four to a row; group `g` is column `g % 4`
//! of row `g / 4`. Evaluating the field is the caller's arithmetic. What is
//! kept here is what the rasterizer reads of it: for each group the weights at
//! the four corners of its footprint, and the weights and the depth at its
//! sixty-four pixel centres. Weights come in the order of the triangle's
//! vertices, `[1 - u - v, u, v]`.

use vstd::prelude::*;
use crate::f32x4::{f32x4, lemma_sign_of_and_or, u32x4};
use crate::f32x8::{f32x8x8, f32x8x8_vec3};
use crate::lane::{is_negative, lemma_sign_bit_is_top_bit, sign_bit};

verus! {

/// The group that holds the pixel `(x, y)` of a tile.
pub open spec fn group_of(x: int, y: int) -> int {
    (y / 8) * 4 + x / 8
}

/// The lane of the pixel `(x, y)` of a tile inside its group.
pub open spec fn lane_of(x: int, y: int) -> int {
    (y % 8) * 8 + x % 8
}

/// The samples of one triangle over one tile.
#[derive(Clone, Copy, Debug)]
pub struct Barycentric {
    /// For each group, the three weights at the four corners of its footprint.
    pub corner: [[f32x4; 3]; 16],
    /// For each group, the three weights at its sixty-four pixel centres.
    pub weight: [f32x8x8_vec3; 16],
    /// For each group, the triangle's depth at its sixty-four pixel centres.
    pub depth: [f32x8x8; 16],
}

/// The barycentric coordinates of one point: `u` and `v`, and with them the
/// weight `w` of the first vertex, `1 - u - v`.
#[derive(Clone, Copy, Debug)]
pub struct BarycentricCoordinate {
    pub u: u32,
    pub v: u32,
    pub w: u32,
}

impl BarycentricCoordinate {
    /// Whether the point lies inside the triangle: none of its three weights
    /// has the sign bit set.
    pub fn inside(&self) -> (r: bool)
        ensures
            r == (!sign_bit(self.w) && !sign_bit(self.u) && !sign_bit(self.v)),
    {
        !is_negative(self.w) && !is_negative(self.u) && !is_negative(self.v)
    }

    /// The three weights, in the order of the triangle's vertices.
    pub fn weights(&self) -> (r: [u32; 3])
        ensures
            r[0] == self.w,
            r[1] == self.u,
            r[2] == self.v,
    {
        [self.w, self.u, self.v]
    }
}

/// The four lanes as plain words.
pub open spec fn bits(v: f32x4) -> u32x4 {
    u32x4(v.0, v.1, v.2, v.3)
}

/// Whether a footprint with these corner weights lies wholly outside one edge
/// of the triangle: for one of the three weights, the sign bit is set at all
/// four corners.
pub open spec fn outside(corner: [f32x4; 3]) -> bool {
    bits(corner[0]).all_negative() || bits(corner[1]).all_negative() || bits(
        corner[2],
    ).all_negative()
}

/// Whether a footprint with these corner weights lies wholly inside the
/// triangle: no weight has the sign bit set at any of the four corners.
pub open spec fn within(corner: [f32x4; 3]) -> bool {
    !bits(corner[0]).any_negative() && !bits(corner[1]).any_negative() && !bits(
        corner[2],
    ).any_negative()
}

/// Tests the corner weights of a footprint: true when it lies wholly outside
/// one edge of the triangle.
pub fn corners_outside(corner: &[f32x4; 3]) -> (r: bool)
    ensures
        r == outside(*corner),
{
    let u = corner[1].to_bit_u32x4().and_self();
    let v = corner[2].to_bit_u32x4().and_self();
    let uv = corner[0].to_bit_u32x4().and_self();
    let mask = u | v | uv;
    proof {
        lemma_sign_of_and_or(u, v);
        lemma_sign_of_and_or(u | v, uv);
        lemma_sign_bit_is_top_bit(mask);
    }
    mask & 0x8000_0000u32 != 0
}

/// Tests the corner weights of a footprint: true when it lies wholly inside
/// the triangle.
pub fn corners_within(corner: &[f32x4; 3]) -> (r: bool)
    ensures
        r == within(*corner),
{
    let u = corner[1].to_bit_u32x4().or_self();
    let v = corner[2].to_bit_u32x4().or_self();
    let uv = corner[0].to_bit_u32x4().or_self();
    let mask = u | v | uv;
    proof {
        lemma_sign_of_and_or(u, v);
        lemma_sign_of_and_or(u | v, uv);
        lemma_sign_bit_is_top_bit(mask);
    }
    mask & 0x8000_0000u32 == 0
}

impl Barycentric {
    /// Whether group `g` is skipped: its footprint lies wholly outside one
    /// edge of the triangle.
    pub open spec fn rejects(self, g: int) -> bool {
        outside(self.corner[g])
    }

    /// Whether the footprint of group `g` lies wholly inside the triangle.
    pub open spec fn covers(self, g: int) -> bool {
        within(self.corner[g])
    }

    /// Gathers the samples of one triangle over one tile.
    pub fn new(
        corner: [[f32x4; 3]; 16],
        weight: [f32x8x8_vec3; 16],
        depth: [f32x8x8; 16],
    ) -> (b: Barycentric)
        ensures
            b.corner == corner,
            b.weight == weight,
            b.depth == depth,
    {
        Barycentric { corner, weight, depth }
    }

    /// The coordinates at the centre of the pixel `(x, y)` of the tile.
    pub fn coordinate(&self, x: usize, y: usize) -> (c: BarycentricCoordinate)
        requires
            x < 32,
            y < 32,
        ensures
            c.w == self.weight[group_of(x as int, y as int)].0[0].0[lane_of(x as int, y as int)],
            c.u == self.weight[group_of(x as int, y as int)].0[1].0[lane_of(x as int, y as int)],
            c.v == self.weight[group_of(x as int, y as int)].0[2].0[lane_of(x as int, y as int)],
    {
        let g = (y / 8) * 4 + x / 8;
        let i = (y % 8) * 8 + x % 8;
        BarycentricCoordinate {
            u: self.weight[g].0[1].0[i],
            v: self.weight[g].0[2].0[i],
            w: self.weight[g].0[0].0[i],
        }
    }

    /// The coordinates `[u, v]` at the four corners of group `g`.
    pub fn coordinate_f32x4(&self, g: usize) -> (uv: [f32x4; 2])
        requires
            g < 16,
        ensures
            uv[0] == self.corner[g as int][1],
            uv[1] == self.corner[g as int][2],
    {
        [self.corner[g][1], self.corner[g][2]]
    }

    /// The coordinates `[u, v]` at the sixty-four pixel centres of group `g`.
    pub fn coordinate_f32x8x8(&self, g: usize) -> (uv: [f32x8x8; 2])
        requires
            g < 16,
        ensures
            uv[0] == self.weight[g as int].0[1],
            uv[1] == self.weight[g as int].0[2],
    {
        [self.weight[g].0[1], self.weight[g].0[2]]
    }

    /// A fast test that lets a group be skipped: true when its footprint lies
    /// wholly outside one edge of the triangle.
    pub fn tile_fast_check(&self, g: usize) -> (r: bool)
        requires
            g < 16,
        ensures
            r == self.rejects(g as int),
    {
        corners_outside(&self.corner[g])
    }

    /// True when the footprint of group `g` lies wholly inside the triangle.
    pub fn tile_covered(&self, g: usize) -> (r: bool)
        requires
            g < 16,
        ensures
            r == self.covers(g as int),
    {
        corners_within(&self.corner[g])
    }
}

} // verus!
