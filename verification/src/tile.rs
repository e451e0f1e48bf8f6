//! The 32×32 tile: sixteen depth slabs and the colours that go with them.
//!
//! Storage is tiled. Group `g` of a tile is column `g % 4` of row `g / 4`, and
//! lane `i` of a group is column `i % 8` of row `i / 8`, so the pixel `(x, y)`
//! of a tile is lane `(y % 8) * 8 + x % 8` of group `(y / 8) * 4 + x / 8`.

use vstd::prelude::*;
use crate::barycentric::{group_of, lane_of, Barycentric};
use crate::f32x8::{f32x8x8, lemma_mask_bits, mask_bit};
use crate::group::{inside, passes, Group};
use crate::lane::{less, ONE};

verus! {

/// The depth of a 32×32 tile: one slab for each of its sixteen groups.
#[derive(Clone, Copy, Debug)]
pub struct Tile {
    pub group: [f32x8x8; 16],
}

/// A 32×32 tile of the framebuffer: its depth, and a colour for each pixel.
#[derive(Clone, Copy, Debug)]
pub struct TileGroup<P> {
    pub depth: Tile,
    pub color: [[P; 64]; 16],
}

/// Whether `after` is `before` with one triangle drawn into it.
///
/// Where the triangle sampled in `bary` is drawn, the depth is the triangle's
/// and the colour is one that `paint` admits for the triangle's weights there;
/// everywhere else depth and colour are those of `before`.
pub open spec fn drew<P: Copy>(
    before: TileGroup<P>,
    after: TileGroup<P>,
    bary: Barycentric,
    paint: spec_fn([u32; 3], P) -> bool,
) -> bool {
    &&& forall|g: int, i: int|
        0 <= g < 16 && 0 <= i < 64 ==> #[trigger] after.depth.group[g].0[i] == if before.drawn(
            bary,
            g,
            i,
        ) {
            bary.depth[g].0[i]
        } else {
            before.depth.group[g].0[i]
        }
    &&& forall|g: int, i: int|
        0 <= g < 16 && 0 <= i < 64 ==> if before.drawn(bary, g, i) {
            paint(bary.weight[g].lane(i), #[trigger] after.color[g][i])
        } else {
            after.color[g][i] == before.color[g][i]
        }
}

impl Tile {
    /// A tile in which every pixel is at depth `1.0`.
    pub fn new() -> (t: Tile)
        ensures
            forall|g: int, i: int| 0 <= g < 16 && 0 <= i < 64 ==> t.group[g].0[i] == ONE,
    {
        Tile { group: [f32x8x8::broadcast(ONE);16] }
    }
}

impl<P: Copy> TileGroup<P> {
    /// The colour of the pixel `(x, y)`.
    pub open spec fn pixel(self, x: int, y: int) -> P {
        self.color[group_of(x, y)][lane_of(x, y)]
    }

    /// Whether every pixel has the colour `p` and the depth `1.0`.
    pub open spec fn is_clear(self, p: P) -> bool {
        forall|g: int, i: int|
            0 <= g < 16 && 0 <= i < 64 ==> #[trigger] self.color[g][i] == p
                && self.depth.group[g].0[i] == ONE
    }

    /// Whether the triangle sampled in `bary` is drawn at lane `i` of group
    /// `g` of this tile: the group is not skipped, the lane lies inside the
    /// triangle, and the triangle is nearer there than the stored depth.
    pub open spec fn drawn(self, bary: Barycentric, g: int, i: int) -> bool {
        !bary.rejects(g) && passes(bary.weight[g], bary.depth[g], self.depth.group[g], i)
    }

    /// A tile of colour `p` at depth `1.0`.
    pub fn new(p: P) -> (t: TileGroup<P>)
        ensures
            t.is_clear(p),
    {
        TileGroup { depth: Tile::new(), color: [[p;64];16] }
    }

    /// Fills the tile with the colour `p` and resets its depth to `1.0`.
    pub fn clear(&mut self, p: P)
        ensures
            final(self).is_clear(p),
    {
        self.depth = Tile::new();
        self.color = [[p;64];16];
    }

    /// The colour of the pixel `(x, y)`.
    pub fn get(&self, x: usize, y: usize) -> (p: P)
        requires
            x < 32,
            y < 32,
        ensures
            p == self.pixel(x as int, y as int),
    {
        self.color[(y / 8) * 4 + x / 8][(y % 8) * 8 + x % 8]
    }

    /// Draws one triangle into the tile.
    ///
    /// Each of the sixteen groups is skipped if the fast test rejects it.
    /// Otherwise the triangle is tested against the group's depth slab; where
    /// it is drawn the slab takes its depth, and the pixel takes the colour
    /// that `shade` returns for the triangle's weights there. Everything else
    /// is left as it was.
    pub fn raster<F: Fn([u32; 3]) -> P>(&mut self, bary: &Barycentric, shade: &F)
        requires
            forall|g: int, i: int|
                0 <= g < 16 && 0 <= i < 64 && old(self).drawn(*bary, g, i) ==> call_requires(
                    *shade,
                    (#[trigger] bary.weight[g].lane(i),),
                ),
        ensures
            drew(*old(self), *final(self), *bary, |w: [u32; 3], c: P| call_ensures(*shade, (w,), c)),
    {
        let ghost before = *self;
        let mut g: usize = 0;
        while g < 16
            invariant
                g <= 16,
                forall|h: int, i: int|
                    0 <= h < 16 && 0 <= i < 64 && before.drawn(*bary, h, i) ==> call_requires(
                        *shade,
                        (#[trigger] bary.weight[h].lane(i),),
                    ),
                forall|h: int, i: int|
                    0 <= h < 16 && 0 <= i < 64 ==> #[trigger] self.depth.group[h].0[i] == if h < g
                        && before.drawn(*bary, h, i) {
                        bary.depth[h].0[i]
                    } else {
                        before.depth.group[h].0[i]
                    },
                forall|h: int, i: int|
                    0 <= h < 16 && 0 <= i < 64 ==> if h < g && before.drawn(*bary, h, i) {
                        call_ensures(*shade, (bary.weight[h].lane(i),), #[trigger] self.color[h][i])
                    } else {
                        self.color[h][i] == before.color[h][i]
                    },
            decreases 16 - g,
        {
            if !bary.tile_fast_check(g) {
                let ghost entry = *self;
                let mut slab = self.depth.group[g];
                let group = Group::new(&bary.weight[g], &bary.depth[g], &mut slab);
                self.depth.group[g] = slab;
                let mut it = group.iter();
                loop
                    invariant
                        g < 16,
                        !bary.rejects(g as int),
                        forall|h: int, i: int|
                            0 <= h < 16 && 0 <= i < 64 ==> #[trigger] self.depth.group[h].0[i]
                                == if h <= g && before.drawn(*bary, h, i) {
                                bary.depth[h].0[i]
                            } else {
                                before.depth.group[h].0[i]
                            },
                        it.weights[0] == bary.weight[g as int].0[0].0,
                        it.weights[1] == bary.weight[g as int].0[1].0,
                        it.weights[2] == bary.weight[g as int].0[2].0,
                        forall|i: int|
                            0 <= i < 64 ==> (#[trigger] mask_bit(group.mask, i)
                                <==> before.drawn(*bary, g as int, i)),
                        forall|i: int|
                            0 <= i < 64 && #[trigger] mask_bit(it.mask, i) ==> mask_bit(group.mask, i),
                        forall|h: int, i: int|
                            0 <= h < 16 && 0 <= i < 64 && before.drawn(*bary, h, i)
                                ==> call_requires(*shade, (#[trigger] bary.weight[h].lane(i),)),
                        forall|h: int, i: int|
                            0 <= h < 16 && 0 <= i < 64 && h != g ==> #[trigger] self.color[h][i]
                                == entry.color[h][i],
                        forall|i: int|
                            0 <= i < 64 ==> if mask_bit(group.mask, i) && !mask_bit(it.mask, i) {
                                call_ensures(
                                    *shade,
                                    (bary.weight[g as int].lane(i),),
                                    #[trigger] self.color[g as int][i],
                                )
                            } else {
                                self.color[g as int][i] == entry.color[g as int][i]
                            },
                    ensures
                        it.mask == 0,
                    decreases it.mask,
                {
                    match it.next() {
                        None => {
                            break ;
                        },
                        Some((dx, dy, w)) => {
                            let at = dy * 8 + dx;
                            assert(w =~= bary.weight[g as int].lane(at as int));
                            let c = shade(w);
                            self.color[g][at] = c;
                        },
                    }
                }
                proof {
                    lemma_mask_bits(0, 0, 0);
                }
            }
            g += 1;
        }
    }

    /// Replaces every colour by what `pixel` returns for the colour at the
    /// same place in `src`. The depth is left as it was.
    pub fn map<S: Copy, F: Fn(S) -> P>(&mut self, src: &TileGroup<S>, pixel: &F)
        requires
            forall|g: int, i: int|
                0 <= g < 16 && 0 <= i < 64 ==> call_requires(*pixel, (#[trigger] src.color[g][i],)),
        ensures
            final(self).depth == old(self).depth,
            forall|g: int, i: int|
                0 <= g < 16 && 0 <= i < 64 ==> call_ensures(
                    *pixel,
                    (src.color[g][i],),
                    #[trigger] final(self).color[g][i],
                ),
    {
        let mut g: usize = 0;
        while g < 16
            invariant
                g <= 16,
                self.depth == old(self).depth,
                forall|h: int, i: int|
                    0 <= h < 16 && 0 <= i < 64 ==> call_requires(
                        *pixel,
                        (#[trigger] src.color[h][i],),
                    ),
                forall|h: int, i: int|
                    0 <= h < g && 0 <= i < 64 ==> call_ensures(
                        *pixel,
                        (src.color[h][i],),
                        #[trigger] self.color[h][i],
                    ),
            decreases 16 - g,
        {
            let mut i: usize = 0;
            while i < 64
                invariant
                    g < 16,
                    i <= 64,
                    self.depth == old(self).depth,
                    forall|h: int, j: int|
                        0 <= h < 16 && 0 <= j < 64 ==> call_requires(
                            *pixel,
                            (#[trigger] src.color[h][j],),
                        ),
                    forall|h: int, j: int|
                        0 <= h < g && 0 <= j < 64 ==> call_ensures(
                            *pixel,
                            (src.color[h][j],),
                            #[trigger] self.color[h][j],
                        ),
                    forall|j: int|
                        0 <= j < i ==> call_ensures(
                            *pixel,
                            (src.color[g as int][j],),
                            #[trigger] self.color[g as int][j],
                        ),
                decreases 64 - i,
            {
                let c = pixel(src.color[g][i]);
                self.color[g][i] = c;
                i += 1;
            }
            g += 1;
        }
    }
}

/// Drawing is determined by its inputs: where `paint` admits one colour for
/// each triple of weights, one tile, one triangle and one `paint` give one
/// result.
pub proof fn lemma_drew_once<P: Copy>(
    before: TileGroup<P>,
    a: TileGroup<P>,
    b: TileGroup<P>,
    bary: Barycentric,
    paint: spec_fn([u32; 3], P) -> bool,
)
    requires
        drew(before, a, bary, paint),
        drew(before, b, bary, paint),
        forall|w: [u32; 3], c: P, d: P| #[trigger] paint(w, c) && #[trigger] paint(w, d) ==> c == d,
    ensures
        a == b,
{
    assert forall|g: int| 0 <= g < 16 implies #[trigger] a.depth.group[g] == b.depth.group[g] by {
        assert(a.depth.group[g].0 =~= b.depth.group[g].0);
    }
    assert forall|g: int| 0 <= g < 16 implies #[trigger] a.color[g] == b.color[g] by {
        assert(a.color[g] =~= b.color[g]);
    }
    assert(a.depth.group =~= b.depth.group);
    assert(a.color =~= b.color);
}

/// Whether a triangle is drawn at a pixel depends on the triangle's samples
/// at that pixel, on the depth stored there, and on whether the pixel's group
/// is skipped; it does not depend on where in a tile the pixel lies.
pub proof fn lemma_drawn_is_local<P: Copy>(
    a: TileGroup<P>,
    b: TileGroup<P>,
    p: Barycentric,
    q: Barycentric,
    g: int,
    i: int,
    h: int,
    j: int,
)
    requires
        0 <= g < 16,
        0 <= i < 64,
        0 <= h < 16,
        0 <= j < 64,
        p.rejects(g) == q.rejects(h),
        p.weight[g].lane(i) == q.weight[h].lane(j),
        p.depth[g].0[i] == q.depth[h].0[j],
        a.depth.group[g].0[i] == b.depth.group[h].0[j],
    ensures
        a.drawn(p, g, i) == b.drawn(q, h, j),
{
    let v = p.weight[g].lane(i);
    let w = q.weight[h].lane(j);
    assert(v[0] == w[0] && v[1] == w[1] && v[2] == w[2]);
}

/// Drawing never moves a pixel away: no pixel ends deeper than it was, and no
/// pixel that the triangle reaches ends deeper than the triangle is there.
pub proof fn lemma_depth_never_rises<P: Copy>(
    before: TileGroup<P>,
    after: TileGroup<P>,
    bary: Barycentric,
    paint: spec_fn([u32; 3], P) -> bool,
    g: int,
    i: int,
)
    requires
        0 <= g < 16,
        0 <= i < 64,
        drew(before, after, bary, paint),
    ensures
        !less(before.depth.group[g].0[i], after.depth.group[g].0[i]),
        !bary.rejects(g) && inside(bary.weight[g], i) ==> !less(
            bary.depth[g].0[i],
            after.depth.group[g].0[i],
        ),
{
}

/// A nearer triangle that was drawn first hides a farther one.
///
/// `near` is drawn into `first`, then `far` into the result. At a pixel that
/// `near` reaches (its group is not skipped and the pixel lies inside it) and
/// where `near` is below `far` in depth, `far` is not drawn: the pixel keeps
/// the depth and the colour it had after `near`.
pub proof fn lemma_nearer_first<P: Copy>(
    first: TileGroup<P>,
    second: TileGroup<P>,
    third: TileGroup<P>,
    near: Barycentric,
    far: Barycentric,
    paint_near: spec_fn([u32; 3], P) -> bool,
    paint_far: spec_fn([u32; 3], P) -> bool,
    g: int,
    i: int,
)
    requires
        0 <= g < 16,
        0 <= i < 64,
        drew(first, second, near, paint_near),
        drew(second, third, far, paint_far),
        !near.rejects(g),
        inside(near.weight[g], i),
        less(near.depth[g].0[i], far.depth[g].0[i]),
    ensures
        !second.drawn(far, g, i),
        third.depth.group[g].0[i] == second.depth.group[g].0[i],
        third.color[g][i] == second.color[g][i],
{
}

/// A nearer triangle that is drawn second replaces a farther one.
///
/// `far` is drawn into `first`, then `near` into the result. At a pixel where
/// `far` was drawn, that `near` reaches, and where `near` is below `far` in
/// depth, `near` is drawn: the pixel ends with the depth of `near` and a
/// colour of `near`.
pub proof fn lemma_nearer_second<P: Copy>(
    first: TileGroup<P>,
    second: TileGroup<P>,
    third: TileGroup<P>,
    near: Barycentric,
    far: Barycentric,
    paint_near: spec_fn([u32; 3], P) -> bool,
    paint_far: spec_fn([u32; 3], P) -> bool,
    g: int,
    i: int,
)
    requires
        0 <= g < 16,
        0 <= i < 64,
        drew(first, second, far, paint_far),
        drew(second, third, near, paint_near),
        first.drawn(far, g, i),
        !near.rejects(g),
        inside(near.weight[g], i),
        less(near.depth[g].0[i], far.depth[g].0[i]),
    ensures
        second.drawn(near, g, i),
        third.depth.group[g].0[i] == near.depth[g].0[i],
        paint_near(near.weight[g].lane(i), third.color[g][i]),
{
}

} // verus!
