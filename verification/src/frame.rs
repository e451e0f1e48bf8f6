//! The framebuffer: a grid of 32×32 tiles, and the operations on all of it.

use vstd::prelude::*;
use crate::barycentric::Barycentric;
use crate::lane::non_negative;
use crate::schedule::{
    batched, bin, fits, lemma_backfaces_queue_nothing, lemma_clamp_keeps_queue, queue, Batch,
    Footprint,
};
use crate::tile::TileGroup;
use crate::worker::{drew_all, lemma_drew_all_once};

verus! {

/// A framebuffer of `width` by `height` pixels.
///
/// `tile[ix][iy]` holds the pixels `32 * ix .. 32 * ix + 32` of the rows
/// `32 * iy .. 32 * iy + 32`.
#[derive(Debug)]
pub struct Frame<P> {
    pub width: u32,
    pub height: u32,
    pub tile: Vec<Vec<TileGroup<P>>>,
}

/// Every triangle in a tile's queue is one of the first `n`, and is sent to
/// that tile.
proof fn lemma_queue_members(
    footprints: Seq<Footprint>,
    width: u32,
    height: u32,
    ix: int,
    iy: int,
    n: int,
)
    requires
        0 <= n <= footprints.len(),
        n <= usize::MAX,
    ensures
        forall|j: int|
            0 <= j < queue(footprints, width, height, ix, iy, n).len() ==> {
                let k = #[trigger] queue(footprints, width, height, ix, iy, n)[j];
                k < n && footprints[k as int].touches(width, height, ix, iy)
            },
    decreases n,
{
    if n > 0 {
        lemma_queue_members(footprints, width, height, ix, iy, n - 1);
        let rest = queue(footprints, width, height, ix, iy, n - 1);
        let all = queue(footprints, width, height, ix, iy, n);
        assert forall|j: int| 0 <= j < all.len() implies {
            let k = #[trigger] all[j];
            k < n && footprints[k as int].touches(width, height, ix, iy)
        } by {
            if j < rest.len() {
                assert(all[j] == rest[j]);
            }
        }
    }
}

/// Whether `after` is `before` with a list of triangles drawn into it: the
/// frame has kept its size, and every tile has drawn the triangles of its
/// queue, in the order they were submitted, and nothing else; see
/// [`drew_all`].
pub open spec fn rastered<
    P: Copy,
    S: Fn(usize, usize, usize) -> Barycentric,
    F: Fn(usize, [u32; 3]) -> P,
>(before: Frame<P>, after: Frame<P>, footprints: Seq<Footprint>, sample: S, shade: F) -> bool {
    &&& after.wf()
    &&& after.width == before.width
    &&& after.height == before.height
    &&& forall|ix: int, iy: int|
        0 <= ix < before.width / 32 && 0 <= iy < before.height / 32 ==> drew_all(
            before.tile@[ix]@[iy],
            #[trigger] after.tile@[ix]@[iy],
            queue(footprints, before.width, before.height, ix, iy, footprints.len() as int),
            ix as usize,
            iy as usize,
            sample,
            shade,
        )
}

/// Rasterizing the same list twice gives the same frame: where `sample` and
/// `shade` each return one result for one argument, two frames that result
/// from drawing one list into one frame agree in every tile.
pub proof fn lemma_rastered_once<
    P: Copy,
    S: Fn(usize, usize, usize) -> Barycentric,
    F: Fn(usize, [u32; 3]) -> P,
>(before: Frame<P>, a: Frame<P>, b: Frame<P>, footprints: Seq<Footprint>, sample: S, shade: F)
    requires
        rastered(before, a, footprints, sample, shade),
        rastered(before, b, footprints, sample, shade),
        forall|k: usize, x: usize, y: usize, s: Barycentric, t: Barycentric|
            call_ensures(sample, (k, x, y), s) && call_ensures(sample, (k, x, y), t) ==> s == t,
        forall|k: usize, w: [u32; 3], c: P, d: P|
            call_ensures(shade, (k, w), c) && call_ensures(shade, (k, w), d) ==> c == d,
    ensures
        a.width == b.width,
        a.height == b.height,
        forall|ix: int, iy: int|
            0 <= ix < before.width / 32 && 0 <= iy < before.height / 32 ==> #[trigger] a.tile@[ix]@[iy]
                == b.tile@[ix]@[iy],
{
    assert forall|ix: int, iy: int|
        0 <= ix < before.width / 32 && 0 <= iy < before.height / 32 implies #[trigger] a.tile@[ix]@[iy]
        == b.tile@[ix]@[iy] by {
        lemma_drew_all_once(
            before.tile@[ix]@[iy],
            a.tile@[ix]@[iy],
            b.tile@[ix]@[iy],
            queue(footprints, before.width, before.height, ix, iy, footprints.len() as int),
            ix as usize,
            iy as usize,
            sample,
            shade,
        );
    }
}

/// Triangles that all face away leave every tile as it was.
pub proof fn lemma_backfaces_draw_nothing<
    P: Copy,
    S: Fn(usize, usize, usize) -> Barycentric,
    F: Fn(usize, [u32; 3]) -> P,
>(before: Frame<P>, after: Frame<P>, footprints: Seq<Footprint>, sample: S, shade: F)
    requires
        forall|k: int| 0 <= k < footprints.len() ==> non_negative(#[trigger] footprints[k].normal_z),
        rastered(before, after, footprints, sample, shade),
    ensures
        forall|ix: int, iy: int|
            0 <= ix < before.width / 32 && 0 <= iy < before.height / 32 ==> #[trigger] after.tile@[ix]@[iy]
                == before.tile@[ix]@[iy],
{
    assert forall|ix: int, iy: int|
        0 <= ix < before.width / 32 && 0 <= iy < before.height / 32 implies #[trigger] after.tile@[ix]@[iy]
        == before.tile@[ix]@[iy] by {
        lemma_backfaces_queue_nothing(
            footprints,
            before.width,
            before.height,
            ix,
            iy,
            footprints.len() as int,
        );
    }
}

/// Cutting every triangle's box down to the frame changes nothing: a frame
/// that results from drawing the triangles with their boxes as they are also
/// results from drawing them with the boxes `cut`.
pub proof fn lemma_clamp_draws_the_same<
    P: Copy,
    S: Fn(usize, usize, usize) -> Barycentric,
    F: Fn(usize, [u32; 3]) -> P,
>(
    before: Frame<P>,
    after: Frame<P>,
    footprints: Seq<Footprint>,
    cut: Seq<Footprint>,
    sample: S,
    shade: F,
)
    requires
        cut.len() == footprints.len(),
        forall|k: int|
            0 <= k < footprints.len() ==> #[trigger] cut[k] == footprints[k].clamped(
                before.width,
                before.height,
            ),
        rastered(before, after, footprints, sample, shade),
    ensures
        rastered(before, after, cut, sample, shade),
{
    assert forall|ix: int, iy: int|
        0 <= ix < before.width / 32 && 0 <= iy < before.height / 32 implies drew_all(
        before.tile@[ix]@[iy],
        #[trigger] after.tile@[ix]@[iy],
        queue(cut, before.width, before.height, ix, iy, cut.len() as int),
        ix as usize,
        iy as usize,
        sample,
        shade,
    ) by {
        lemma_clamp_keeps_queue(
            footprints,
            cut,
            before.width,
            before.height,
            ix,
            iy,
            footprints.len() as int,
        );
    }
}

/// Whether one of the first `limit` batches belongs to tile `(ix, iy)`.
spec fn reached(batches: Seq<Batch>, limit: int, ix: int, iy: int) -> bool {
    exists|a: int| 0 <= a < limit && #[trigger] batches[a].ix == ix && batches[a].iy == iy
}

impl<P: Copy> Frame<P> {
    /// Whether the frame's sizes are multiples of 32 and its grid has one tile
    /// for every 32×32 block of pixels.
    pub open spec fn wf(self) -> bool {
        &&& self.width % 32 == 0
        &&& self.height % 32 == 0
        &&& fits(self.width, self.height)
        &&& self.tile@.len() == self.width / 32
        &&& forall|ix: int|
            0 <= ix < self.tile@.len() ==> (#[trigger] self.tile@[ix])@.len() == self.height / 32
    }

    /// The colour of the pixel `(x, y)`.
    pub open spec fn pixel(self, x: int, y: int) -> P {
        self.tile@[x / 32]@[y / 32].pixel(x % 32, y % 32)
    }

    /// Whether every tile has the colour `p` and the depth `1.0` at every pixel.
    pub open spec fn is_clear(self, p: P) -> bool {
        forall|ix: int, iy: int|
            0 <= ix < self.width / 32 && 0 <= iy < self.height / 32 ==> (
            #[trigger] self.tile@[ix]@[iy]).is_clear(p)
    }

    /// A frame of the given size in which every pixel has the colour `p` and
    /// the depth `1.0`.
    pub fn new(width: u32, height: u32, p: P) -> (f: Frame<P>)
        requires
            width % 32 == 0,
            height % 32 == 0,
            fits(width, height),
        ensures
            f.wf(),
            f.width == width,
            f.height == height,
            f.is_clear(p),
    {
        let cols: u32 = width / 32;
        let rows: u32 = height / 32;
        let mut tile: Vec<Vec<TileGroup<P>>> = Vec::new();
        let mut ix: u32 = 0;
        while ix < cols
            invariant
                ix <= cols,
                rows == height / 32,
                tile@.len() == ix,
                forall|jx: int| 0 <= jx < ix ==> (#[trigger] tile@[jx])@.len() == rows,
                forall|jx: int, jy: int|
                    0 <= jx < ix && 0 <= jy < rows ==> (#[trigger] tile@[jx]@[jy]).is_clear(p),
            decreases cols - ix,
        {
            let mut column: Vec<TileGroup<P>> = Vec::new();
            let mut iy: u32 = 0;
            while iy < rows
                invariant
                    iy <= rows,
                    column@.len() == iy,
                    forall|jy: int| 0 <= jy < iy ==> (#[trigger] column@[jy]).is_clear(p),
                decreases rows - iy,
            {
                column.push(TileGroup::new(p));
                iy += 1;
            }
            tile.push(column);
            ix += 1;
        }
        Frame { width, height, tile }
    }

    /// Fills the frame with the colour `p` and resets every depth to `1.0`.
    pub fn clear(&mut self, p: P)
        requires
            old(self).wf(),
        ensures
            final(self).wf(),
            final(self).width == old(self).width,
            final(self).height == old(self).height,
            final(self).is_clear(p),
    {
        let cols: usize = self.tile.len();
        let mut ix: usize = 0;
        while ix < cols
            invariant
                ix <= cols,
                self.wf(),
                cols == self.tile@.len(),
                self.width == old(self).width,
                self.height == old(self).height,
                forall|jx: int, jy: int|
                    0 <= jx < ix && 0 <= jy < self.height / 32 ==> (
                    #[trigger] self.tile@[jx]@[jy]).is_clear(p),
            decreases cols - ix,
        {
            let rows: usize = self.tile[ix].len();
            let mut iy: usize = 0;
            while iy < rows
                invariant
                    ix < cols,
                    iy <= rows,
                    self.wf(),
                    cols == self.tile@.len(),
                    rows == self.height / 32,
                    self.width == old(self).width,
                    self.height == old(self).height,
                    forall|jx: int, jy: int|
                        0 <= jx < ix && 0 <= jy < self.height / 32 ==> (
                        #[trigger] self.tile@[jx]@[jy]).is_clear(p),
                    forall|jy: int| 0 <= jy < iy ==> (#[trigger] self.tile@[ix as int]@[jy]).is_clear(p),
                decreases rows - iy,
            {
                self.tile[ix][iy].clear(p);
                iy += 1;
            }
            ix += 1;
        }
    }

    /// Draws a list of triangles into the frame.
    ///
    /// The triangles are sorted into the tiles they are sent to (see
    /// [`bin`]). Each tile then draws its triangles in the order they were
    /// submitted: for triangle `k` on tile `(ix, iy)` it asks `sample` for the
    /// triangle's samples over that tile, and `shade` for the colour of each
    /// pixel the triangle is drawn at, handing it `k` and the pixel's weights.
    /// A tile that no triangle is sent to is left as it was.
    pub fn raster<S, F>(&mut self, footprints: &Vec<Footprint>, sample: &S, shade: &F) where
        S: Fn(usize, usize, usize) -> Barycentric,
        F: Fn(usize, [u32; 3]) -> P,

        requires
            old(self).wf(),
            forall|k: usize, ix: usize, iy: usize|
                k < footprints.len() && footprints[k as int].touches(
                    old(self).width,
                    old(self).height,
                    ix as int,
                    iy as int,
                ) ==> #[trigger] call_requires(*sample, (k, ix, iy)),
            forall|k: usize, w: [u32; 3]|
                k < footprints.len() ==> #[trigger] call_requires(*shade, (k, w)),
        ensures
            rastered(*old(self), *final(self), footprints@, *sample, *shade),
    {
        let batches = bin(self.width, self.height, footprints);
        let ghost before = *self;
        let ghost n = footprints.len() as int;
        let mut b: usize = 0;
        while b < batches.len()
            invariant
                b <= batches.len(),
                n == footprints.len(),
                before.wf(),
                self.wf(),
                self.width == before.width,
                self.height == before.height,
                batched(batches@, footprints@, before.width, before.height),
                forall|k: usize, ix: usize, iy: usize|
                    k < footprints.len() && footprints[k as int].touches(
                        before.width,
                        before.height,
                        ix as int,
                        iy as int,
                    ) ==> #[trigger] call_requires(*sample, (k, ix, iy)),
                forall|k: usize, w: [u32; 3]|
                    k < footprints.len() ==> #[trigger] call_requires(*shade, (k, w)),
                forall|ix: int, iy: int|
                    0 <= ix < before.width / 32 && 0 <= iy < before.height / 32 ==> if reached(
                        batches@,
                        b as int,
                        ix,
                        iy,
                    ) {
                        drew_all(
                            before.tile@[ix]@[iy],
                            #[trigger] self.tile@[ix]@[iy],
                            queue(footprints@, before.width, before.height, ix, iy, n),
                            ix as usize,
                            iy as usize,
                            *sample,
                            *shade,
                        )
                    } else {
                        self.tile@[ix]@[iy] == before.tile@[ix]@[iy]
                    },
            decreases batches.len() - b,
        {
            let ix = batches[b].ix;
            let iy = batches[b].iy;
            let ghost commands = batches@[b as int].commands@;
            proof {
                lemma_queue_members(footprints@, before.width, before.height, ix as int, iy as int, n);
            }
            self.tile[ix][iy].work(&batches[b], sample, shade);
            proof {
                assert forall|jx: int, jy: int|
                    0 <= jx < before.width / 32 && 0 <= jy < before.height / 32 implies if reached(
                        batches@,
                        b as int + 1,
                        jx,
                        jy,
                    ) {
                        drew_all(
                            before.tile@[jx]@[jy],
                            #[trigger] self.tile@[jx]@[jy],
                            queue(footprints@, before.width, before.height, jx, jy, n),
                            jx as usize,
                            jy as usize,
                            *sample,
                            *shade,
                        )
                    } else {
                        self.tile@[jx]@[jy] == before.tile@[jx]@[jy]
                    } by {
                    if jx != ix || jy != iy {
                        assert(reached(batches@, b as int + 1, jx, jy) == reached(
                            batches@,
                            b as int,
                            jx,
                            jy,
                        ));
                    }
                }
            }
            b += 1;
        }
    }

    /// Replaces every colour by what `pixel` returns for the colour at the
    /// same place in `src`, a frame of the same size. Depths are left as they
    /// were.
    pub fn map<S: Copy, F: Fn(S) -> P>(&mut self, src: &Frame<S>, pixel: &F)
        requires
            old(self).wf(),
            src.wf(),
            src.width == old(self).width,
            src.height == old(self).height,
            forall|ix: int, iy: int, g: int, i: int|
                0 <= ix < src.width / 32 && 0 <= iy < src.height / 32 && 0 <= g < 16 && 0 <= i < 64
                    ==> call_requires(*pixel, (#[trigger] src.tile@[ix]@[iy].color[g][i],)),
        ensures
            final(self).wf(),
            final(self).width == old(self).width,
            final(self).height == old(self).height,
            forall|ix: int, iy: int|
                0 <= ix < old(self).width / 32 && 0 <= iy < old(self).height / 32 ==> (
                #[trigger] final(self).tile@[ix]@[iy]).depth == old(self).tile@[ix]@[iy].depth,
            forall|ix: int, iy: int, g: int, i: int|
                0 <= ix < old(self).width / 32 && 0 <= iy < old(self).height / 32 && 0 <= g < 16
                    && 0 <= i < 64 ==> call_ensures(
                    *pixel,
                    (src.tile@[ix]@[iy].color[g][i],),
                    #[trigger] final(self).tile@[ix]@[iy].color[g][i],
                ),
    {
        let cols: usize = self.tile.len();
        let mut ix: usize = 0;
        while ix < cols
            invariant
                ix <= cols,
                self.wf(),
                src.wf(),
                cols == self.tile@.len(),
                self.width == old(self).width,
                self.height == old(self).height,
                src.width == self.width,
                src.height == self.height,
                forall|jx: int, jy: int, g: int, i: int|
                    0 <= jx < src.width / 32 && 0 <= jy < src.height / 32 && 0 <= g < 16 && 0 <= i
                        < 64 ==> call_requires(*pixel, (#[trigger] src.tile@[jx]@[jy].color[g][i],)),
                forall|jx: int, jy: int|
                    0 <= jx < self.width / 32 && 0 <= jy < self.height / 32 ==> (
                    #[trigger] self.tile@[jx]@[jy]).depth == old(self).tile@[jx]@[jy].depth,
                forall|jx: int, jy: int, g: int, i: int|
                    0 <= jx < ix && 0 <= jy < self.height / 32 && 0 <= g < 16 && 0 <= i < 64
                        ==> call_ensures(
                        *pixel,
                        (src.tile@[jx]@[jy].color[g][i],),
                        #[trigger] self.tile@[jx]@[jy].color[g][i],
                    ),
            decreases cols - ix,
        {
            let rows: usize = self.tile[ix].len();
            let mut iy: usize = 0;
            while iy < rows
                invariant
                    ix < cols,
                    iy <= rows,
                    self.wf(),
                    src.wf(),
                    cols == self.tile@.len(),
                    rows == self.height / 32,
                    self.width == old(self).width,
                    self.height == old(self).height,
                    src.width == self.width,
                    src.height == self.height,
                    forall|jx: int, jy: int, g: int, i: int|
                    0 <= jx < src.width / 32 && 0 <= jy < src.height / 32 && 0 <= g < 16 && 0 <= i
                        < 64 ==> call_requires(*pixel, (#[trigger] src.tile@[jx]@[jy].color[g][i],)),
                    forall|jx: int, jy: int|
                        0 <= jx < self.width / 32 && 0 <= jy < self.height / 32 ==> (
                        #[trigger] self.tile@[jx]@[jy]).depth == old(self).tile@[jx]@[jy].depth,
                    forall|jx: int, jy: int, g: int, i: int|
                        0 <= jx < ix && 0 <= jy < self.height / 32 && 0 <= g < 16 && 0 <= i < 64
                            ==> call_ensures(
                            *pixel,
                            (src.tile@[jx]@[jy].color[g][i],),
                            #[trigger] self.tile@[jx]@[jy].color[g][i],
                        ),
                    forall|jy: int, g: int, i: int|
                        0 <= jy < iy && 0 <= g < 16 && 0 <= i < 64 ==> call_ensures(
                            *pixel,
                            (src.tile@[ix as int]@[jy].color[g][i],),
                            #[trigger] self.tile@[ix as int]@[jy].color[g][i],
                        ),
                decreases rows - iy,
            {
                self.tile[ix][iy].map(&src.tile[ix][iy], pixel);
                iy += 1;
            }
            ix += 1;
        }
    }

    /// The colour of the pixel `(x, y)`.
    pub fn get(&self, x: u32, y: u32) -> (p: P)
        requires
            self.wf(),
            x < self.width,
            y < self.height,
        ensures
            p == self.pixel(x as int, y as int),
    {
        self.tile[(x / 32) as usize][(y / 32) as usize].get((x % 32) as usize, (y % 32) as usize)
    }
}

} // verus!
