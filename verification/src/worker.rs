//! The work of one tile: drawing the triangles of its batch, one after the
//! other, with nobody else touching the tile.

use vstd::prelude::*;
use crate::barycentric::Barycentric;
use crate::schedule::Batch;
use crate::tile::{drew, lemma_drew_once, TileGroup};

verus! {

/// Whether `last` is `mid` with triangle `k` drawn into it: from the samples
/// `bary`, which `sample` returned for `(k, ix, iy)`, and with colours that
/// `shade` returned for `k` and the weights of each pixel drawn; see [`drew`].
pub open spec fn drew_one<
    P: Copy,
    S: Fn(usize, usize, usize) -> Barycentric,
    F: Fn(usize, [u32; 3]) -> P,
>(
    mid: TileGroup<P>,
    last: TileGroup<P>,
    bary: Barycentric,
    k: usize,
    ix: usize,
    iy: usize,
    sample: S,
    shade: F,
) -> bool {
    &&& call_ensures(sample, (k, ix, iy), bary)
    &&& drew(mid, last, bary, |w: [u32; 3], c: P| call_ensures(shade, (k, w), c))
}

/// Whether `last` is `first` with the triangles `commands` drawn into it, one
/// after the other, each as [`drew_one`] says.
pub open spec fn drew_all<
    P: Copy,
    S: Fn(usize, usize, usize) -> Barycentric,
    F: Fn(usize, [u32; 3]) -> P,
>(
    first: TileGroup<P>,
    last: TileGroup<P>,
    commands: Seq<usize>,
    ix: usize,
    iy: usize,
    sample: S,
    shade: F,
) -> bool
    decreases commands.len(),
{
    if commands.len() == 0 {
        last == first
    } else {
        exists|mid: TileGroup<P>, bary: Barycentric|
            drew_all(first, mid, commands.drop_last(), ix, iy, sample, shade) && #[trigger] drew_one(
                mid,
                last,
                bary,
                commands.last(),
                ix,
                iy,
                sample,
                shade,
            )
    }
}

/// Drawing a batch is determined by its inputs: where `sample` and `shade`
/// each return one result for one argument, one tile and one list of
/// triangles give one result.
pub proof fn lemma_drew_all_once<
    P: Copy,
    S: Fn(usize, usize, usize) -> Barycentric,
    F: Fn(usize, [u32; 3]) -> P,
>(
    first: TileGroup<P>,
    a: TileGroup<P>,
    b: TileGroup<P>,
    commands: Seq<usize>,
    ix: usize,
    iy: usize,
    sample: S,
    shade: F,
)
    requires
        drew_all(first, a, commands, ix, iy, sample, shade),
        drew_all(first, b, commands, ix, iy, sample, shade),
        forall|k: usize, x: usize, y: usize, s: Barycentric, t: Barycentric|
            call_ensures(sample, (k, x, y), s) && call_ensures(sample, (k, x, y), t) ==> s == t,
        forall|k: usize, w: [u32; 3], c: P, d: P|
            call_ensures(shade, (k, w), c) && call_ensures(shade, (k, w), d) ==> c == d,
    ensures
        a == b,
    decreases commands.len(),
{
    if commands.len() > 0 {
        let k = commands.last();
        let (mid_a, bary_a): (TileGroup<P>, Barycentric) = choose|
            mid: TileGroup<P>,
            bary: Barycentric,
        |
            drew_all(first, mid, commands.drop_last(), ix, iy, sample, shade) && #[trigger] drew_one(
                mid,
                a,
                bary,
                k,
                ix,
                iy,
                sample,
                shade,
            );
        let (mid_b, bary_b): (TileGroup<P>, Barycentric) = choose|
            mid: TileGroup<P>,
            bary: Barycentric,
        |
            drew_all(first, mid, commands.drop_last(), ix, iy, sample, shade) && #[trigger] drew_one(
                mid,
                b,
                bary,
                k,
                ix,
                iy,
                sample,
                shade,
            );
        lemma_drew_all_once(first, mid_a, mid_b, commands.drop_last(), ix, iy, sample, shade);
        lemma_drew_once(
            mid_a,
            a,
            b,
            bary_a,
            |w: [u32; 3], c: P| call_ensures(shade, (k, w), c),
        );
    }
}

impl<P: Copy> TileGroup<P> {
    /// Draws the triangles of a batch into the tile, in the order the batch
    /// lists them.
    ///
    /// For triangle `k` the tile asks `sample` for the triangle's samples over
    /// the batch's tile, and `shade` for the colour of each pixel the triangle
    /// is drawn at, handing it `k` and the pixel's weights.
    pub fn work<S, F>(&mut self, batch: &Batch, sample: &S, shade: &F) where
        S: Fn(usize, usize, usize) -> Barycentric,
        F: Fn(usize, [u32; 3]) -> P,

        requires
            forall|j: int|
                0 <= j < batch.commands@.len() ==> call_requires(
                    *sample,
                    (#[trigger] batch.commands@[j], batch.ix, batch.iy),
                ),
            forall|k: usize, w: [u32; 3]|
                batch.commands@.contains(k) ==> #[trigger] call_requires(*shade, (k, w)),
        ensures
            drew_all(
                *old(self),
                *final(self),
                batch.commands@,
                batch.ix,
                batch.iy,
                *sample,
                *shade,
            ),
    {
        let ghost first = *self;
        let ghost commands = batch.commands@;
        let ix = batch.ix;
        let iy = batch.iy;
        let count = batch.commands.len();
        let mut j: usize = 0;
        while j < count
            invariant
                j <= count,
                ix == batch.ix,
                iy == batch.iy,
                commands == batch.commands@,
                count == commands.len(),
                forall|i: int|
                    0 <= i < commands.len() ==> call_requires(*sample, (#[trigger] commands[i], ix, iy)),
                forall|k: usize, w: [u32; 3]|
                    commands.contains(k) ==> #[trigger] call_requires(*shade, (k, w)),
                drew_all(first, *self, commands.take(j as int), ix, iy, *sample, *shade),
            decreases count - j,
        {
            let k = batch.commands[j];
            let bary = sample(k, ix, iy);
            let paint = |w: [u32; 3]| -> (c: P)
                ensures
                    call_ensures(*shade, (k, w), c),
                { shade(k, w) };
            let ghost mid = *self;
            self.raster(&bary, &paint);
            proof {
                let next = commands.take(j as int + 1);
                assert(next.drop_last() =~= commands.take(j as int));
                assert(drew_one(mid, *self, bary, next.last(), ix, iy, *sample, *shade));
            }
            j += 1;
        }
        assert(commands.take(count as int) =~= commands);
    }
}

} // verus!
