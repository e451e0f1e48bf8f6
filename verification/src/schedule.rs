//! Which tiles a triangle is sent to, and in what order each tile receives
//! its triangles.

use vstd::prelude::*;
use vec_map::VecMap;
use crate::index::{entries, index_get, index_insert, index_new};
use crate::lane::{lane_non_negative, non_negative};

verus! {

/// What the scheduler reads of one triangle: which way it faces, and the box
/// of pixels around it.
///
/// `normal_z` is the lane that holds the z component of the cross product of
/// two of the triangle's edges in screen space; the triangle faces away when
/// it is zero or more. The box is inclusive at both ends and may reach
/// beyond the frame on every side.
#[derive(Clone, Copy, Debug)]
pub struct Footprint {
    pub normal_z: u32,
    pub min_x: i32,
    pub max_x: i32,
    pub min_y: i32,
    pub max_y: i32,
}

/// A rectangle of tiles: columns `x0..x1` of rows `y0..y1`.
#[derive(Clone, Copy, Debug)]
pub struct TileSpan {
    pub x0: usize,
    pub x1: usize,
    pub y0: usize,
    pub y1: usize,
}

/// The triangles that one tile has to draw, in the order they were submitted.
#[derive(Debug)]
pub struct Batch {
    pub ix: usize,
    pub iy: usize,
    pub commands: Vec<usize>,
}

/// Whether the 32 pixels of tile `i` along one axis meet the pixels
/// `min..=max`, in a frame that is `size` pixels long.
pub open spec fn meets(min: i32, max: i32, size: u32, i: int) -> bool {
    0 <= i < size / 32 && min <= 32 * i + 31 && 32 * i <= max
}

/// Whether a frame of this size can be held in memory: each of its tiles
/// takes more than 4096 bytes, and no allocation is larger than `isize::MAX`
/// bytes.
pub open spec fn fits(width: u32, height: u32) -> bool {
    (width / 32) * (height / 32) * 4096 <= isize::MAX
}

/// Whether a triangle with this normal faces away from the viewer; such a
/// triangle is not drawn.
pub fn is_backface(normal_z: u32) -> (r: bool)
    ensures
        r == non_negative(normal_z),
{
    lane_non_negative(normal_z)
}

fn axis_span(min: i32, max: i32, size: u32) -> (r: (usize, usize))
    ensures
        r.0 <= r.1 <= size / 32,
        forall|i: int| r.0 <= i < r.1 <==> meets(min, max, size, i),
{
    let tiles: u32 = size / 32;
    if max < 0 {
        return (0, 0);
    }
    let lo: u32 = if min <= 0 {
        0
    } else {
        (min / 32) as u32
    };
    let last: u32 = (max / 32) as u32;
    let hi: u32 = if last < tiles {
        last + 1
    } else {
        tiles
    };
    if lo >= hi {
        (0, 0)
    } else {
        (lo as usize, hi as usize)
    }
}

impl Footprint {
    /// Whether the triangle is sent to tile `(ix, iy)` of a frame of the given
    /// size: it faces the viewer, and its box meets the tile.
    pub open spec fn touches(self, width: u32, height: u32, ix: int, iy: int) -> bool {
        &&& !non_negative(self.normal_z)
        &&& meets(self.min_x, self.max_x, width, ix)
        &&& meets(self.min_y, self.max_y, height, iy)
    }

    /// The box cut down to the pixels of the frame.
    pub open spec fn clamped(self, width: u32, height: u32) -> Footprint {
        Footprint {
            normal_z: self.normal_z,
            min_x: if self.min_x < 0 {
                0
            } else {
                self.min_x
            },
            max_x: if self.max_x >= width {
                (width - 1) as i32
            } else {
                self.max_x
            },
            min_y: if self.min_y < 0 {
                0
            } else {
                self.min_y
            },
            max_y: if self.max_y >= height {
                (height - 1) as i32
            } else {
                self.max_y
            },
        }
    }

    /// The tiles the triangle is sent to: those its box meets, or none if it
    /// faces away.
    pub fn span(&self, width: u32, height: u32) -> (s: TileSpan)
        ensures
            s.x0 <= s.x1 <= width / 32,
            s.y0 <= s.y1 <= height / 32,
            forall|ix: int, iy: int|
                (s.x0 <= ix < s.x1 && s.y0 <= iy < s.y1) <==> #[trigger] self.touches(
                    width,
                    height,
                    ix,
                    iy,
                ),
    {
        if is_backface(self.normal_z) {
            return TileSpan { x0: 0, x1: 0, y0: 0, y1: 0 };
        }
        let (x0, x1) = axis_span(self.min_x, self.max_x, width);
        let (y0, y1) = axis_span(self.min_y, self.max_y, height);
        TileSpan { x0, x1, y0, y1 }
    }
}

/// A triangle that reaches far beyond the frame is sent to the same tiles as
/// the triangle cut down to the frame.
pub proof fn lemma_clamp_keeps_tiles(f: Footprint, width: u32, height: u32, ix: int, iy: int)
    ensures
        f.touches(width, height, ix, iy) <==> f.clamped(width, height).touches(width, height, ix, iy),
{
}

/// A triangle that faces away is sent to no tile.
pub proof fn lemma_backface_culled(f: Footprint, width: u32, height: u32, ix: int, iy: int)
    requires
        non_negative(f.normal_z),
    ensures
        !f.touches(width, height, ix, iy),
{
}

/// The triangles among the first `n` that are sent to tile `(ix, iy)`, by
/// their numbers, in the order they were submitted.
pub open spec fn queue(
    footprints: Seq<Footprint>,
    width: u32,
    height: u32,
    ix: int,
    iy: int,
    n: int,
) -> Seq<usize>
    decreases n,
{
    if n <= 0 {
        Seq::empty()
    } else {
        let rest = queue(footprints, width, height, ix, iy, n - 1);
        if footprints[n - 1].touches(width, height, ix, iy) {
            rest.push((n - 1) as usize)
        } else {
            rest
        }
    }
}

/// Cutting every triangle's box down to the frame leaves every queue as it was.
pub proof fn lemma_clamp_keeps_queue(
    footprints: Seq<Footprint>,
    cut: Seq<Footprint>,
    width: u32,
    height: u32,
    ix: int,
    iy: int,
    n: int,
)
    requires
        0 <= n <= footprints.len(),
        cut.len() == footprints.len(),
        forall|k: int|
            0 <= k < footprints.len() ==> #[trigger] cut[k] == footprints[k].clamped(width, height),
    ensures
        queue(cut, width, height, ix, iy, n) == queue(footprints, width, height, ix, iy, n),
    decreases n,
{
    if n > 0 {
        lemma_clamp_keeps_queue(footprints, cut, width, height, ix, iy, n - 1);
        lemma_clamp_keeps_tiles(footprints[n - 1], width, height, ix, iy);
    }
}

/// Triangles that all face away leave every queue empty.
pub proof fn lemma_backfaces_queue_nothing(
    footprints: Seq<Footprint>,
    width: u32,
    height: u32,
    ix: int,
    iy: int,
    n: int,
)
    requires
        0 <= n <= footprints.len(),
        forall|k: int| 0 <= k < n ==> non_negative(#[trigger] footprints[k].normal_z),
    ensures
        queue(footprints, width, height, ix, iy, n).len() == 0,
    decreases n,
{
    if n > 0 {
        lemma_backfaces_queue_nothing(footprints, width, height, ix, iy, n - 1);
    }
}

/// The key under which tile `(ix, iy)` is looked up, in a frame that is `rows`
/// tiles high.
spec fn key_of(ix: int, iy: int, rows: int) -> int {
    ix * rows + iy
}

/// Whether tile `(ix, iy)` comes before tile `(cx, cy)` when the tiles of
/// `span` are walked row by row.
spec fn walked(span: TileSpan, ix: int, iy: int, cx: int, cy: int) -> bool {
    span.x0 <= ix < span.x1 && span.y0 <= iy < span.y1 && (iy < cy || (iy == cy && ix < cx))
}

/// What tile `(ix, iy)` has received when the first `k` triangles have been
/// sent out, and triangle `k` to the tiles of `span` before `(cx, cy)`.
spec fn received(
    footprints: Seq<Footprint>,
    width: u32,
    height: u32,
    ix: int,
    iy: int,
    k: int,
    span: TileSpan,
    cx: int,
    cy: int,
) -> Seq<usize> {
    let rest = queue(footprints, width, height, ix, iy, k);
    if walked(span, ix, iy, cx, cy) {
        rest.push(k as usize)
    } else {
        rest
    }
}

/// Whether `batches`, found through `index`, hold what every tile has
/// received at the point that `k`, `span`, `cx` and `cy` describe.
spec fn sorted(
    batches: Seq<Batch>,
    index: Map<usize, usize>,
    footprints: Seq<Footprint>,
    width: u32,
    height: u32,
    k: int,
    span: TileSpan,
    cx: int,
    cy: int,
) -> bool {
    let rows = (height / 32) as int;
    &&& forall|b: int|
        0 <= b < batches.len() ==> {
            let t = #[trigger] batches[b];
            &&& t.ix < width / 32
            &&& t.iy < height / 32
            &&& t.commands@.len() > 0
            &&& t.commands@ == received(
                footprints,
                width,
                height,
                t.ix as int,
                t.iy as int,
                k,
                span,
                cx,
                cy,
            )
            &&& index.contains_key(key_of(t.ix as int, t.iy as int, rows) as usize)
            &&& index[key_of(t.ix as int, t.iy as int, rows) as usize] == b
        }
    &&& forall|ix: int, iy: int|
        0 <= ix < width / 32 && 0 <= iy < height / 32 ==> {
            let key = #[trigger] key_of(ix, iy, rows) as usize;
            if index.contains_key(key) {
                index[key] < batches.len() && batches[index[key] as int].ix == ix
                    && batches[index[key] as int].iy == iy
            } else {
                received(footprints, width, height, ix, iy, k, span, cx, cy).len() == 0
            }
        }
}

/// Whether `batches` are the tiles' queues: each batch belongs to a tile of
/// the frame and holds, in order of submission, the triangles that are sent
/// to it; no tile has two batches; and a tile without a batch receives
/// nothing.
pub open spec fn batched(
    batches: Seq<Batch>,
    footprints: Seq<Footprint>,
    width: u32,
    height: u32,
) -> bool {
    &&& forall|b: int|
        0 <= b < batches.len() ==> {
            let t = #[trigger] batches[b];
            &&& t.ix < width / 32
            &&& t.iy < height / 32
            &&& t.commands@.len() > 0
            &&& t.commands@ == queue(
                footprints,
                width,
                height,
                t.ix as int,
                t.iy as int,
                footprints.len() as int,
            )
        }
    &&& forall|a: int, b: int|
        0 <= a < b < batches.len() ==> !(#[trigger] batches[a].ix == #[trigger] batches[b].ix
            && batches[a].iy == batches[b].iy)
    &&& forall|ix: int, iy: int|
        0 <= ix < width / 32 && 0 <= iy < height / 32 && (#[trigger] queue(
            footprints,
            width,
            height,
            ix,
            iy,
            footprints.len() as int,
        )).len() > 0 ==> exists|b: int|
            0 <= b < batches.len() && #[trigger] batches[b].ix == ix && batches[b].iy == iy
}

proof fn lemma_key(ix: int, iy: int, jx: int, jy: int, cols: int, rows: int)
    by (nonlinear_arith)
    requires
        0 <= ix < cols,
        0 <= iy < rows,
        0 <= jx < cols,
        0 <= jy < rows,
    ensures
        0 <= key_of(ix, iy, rows) < cols * rows,
        key_of(ix, iy, rows) == key_of(jx, jy, rows) ==> ix == jx && iy == jy,
{
}

/// Sorts triangles into the tiles they are sent to.
///
/// The triangles are taken in order, and each is appended to the batch of
/// every tile its box meets, so a batch lists its triangles in the order they
/// were submitted. A tile that no triangle is sent to gets no batch.
pub fn bin(width: u32, height: u32, footprints: &Vec<Footprint>) -> (batches: Vec<Batch>)
    requires
        fits(width, height),
    ensures
        batched(batches@, footprints@, width, height),
{
    let rows: usize = (height / 32) as usize;
    let ghost cols = (width / 32) as int;
    let mut index: VecMap<usize> = index_new();
    let mut batches: Vec<Batch> = Vec::new();
    let ghost none = TileSpan { x0: 0, x1: 0, y0: 0, y1: 0 };
    let mut k: usize = 0;
    while k < footprints.len()
        invariant
            k <= footprints.len(),
            rows == height / 32,
            cols == width / 32,
            fits(width, height),
            none == (TileSpan { x0: 0, x1: 0, y0: 0, y1: 0 }),
            sorted(batches@, entries(index), footprints@, width, height, k as int, none, 0, 0),
        decreases footprints.len() - k,
    {
        let span = footprints[k].span(width, height);
        assert(sorted(
            batches@,
            entries(index),
            footprints@,
            width,
            height,
            k as int,
            span,
            span.x0 as int,
            span.y0 as int,
        ));
        let mut iy: usize = span.y0;
        while iy < span.y1
            invariant
                k < footprints.len(),
                rows == height / 32,
                cols == width / 32,
                fits(width, height),
                span.x0 <= span.x1 <= width / 32,
                span.y0 <= iy <= span.y1 <= height / 32,
                sorted(
                    batches@,
                    entries(index),
                    footprints@,
                    width,
                    height,
                    k as int,
                    span,
                    span.x0 as int,
                    iy as int,
                ),
            decreases span.y1 - iy,
        {
            let mut ix: usize = span.x0;
            while ix < span.x1
                invariant
                    k < footprints.len(),
                    rows == height / 32,
                    cols == width / 32,
                    fits(width, height),
                    span.x0 <= ix <= span.x1 <= width / 32,
                    span.y0 <= iy < span.y1 <= height / 32,
                    sorted(
                        batches@,
                        entries(index),
                        footprints@,
                        width,
                        height,
                        k as int,
                        span,
                        ix as int,
                        iy as int,
                    ),
                decreases span.x1 - ix,
            {
                proof {
                    lemma_key(ix as int, iy as int, 0, 0, cols, rows as int);
                }
                let key = ix * rows + iy;
                let ghost before = batches@;
                proof {
                    assert forall|jx: int, jy: int| 0 <= jx < cols && 0 <= jy < rows implies (key_of(
                        jx,
                        jy,
                        rows as int,
                    ) == key as int <==> jx == ix && jy == iy) && 0 <= #[trigger] key_of(
                        jx,
                        jy,
                        rows as int,
                    ) < usize::MAX by {
                        lemma_key(jx, jy, ix as int, iy as int, cols, rows as int);
                    }
                }
                match index_get(&index, key) {
                    Some(b) => {
                        batches[b].commands.push(k);
                        proof {
                            assert forall|a: int| 0 <= a < batches@.len() implies (
                            #[trigger] batches@[a]).commands@ == received(
                                footprints@,
                                width,
                                height,
                                batches@[a].ix as int,
                                batches@[a].iy as int,
                                k as int,
                                span,
                                ix as int + 1,
                                iy as int,
                            ) by {
                                if a != b {
                                    assert(batches@[a] == before[a]);
                                }
                            }
                        }
                    },
                    None => {
                        index_insert(&mut index, key, batches.len());
                        let mut commands: Vec<usize> = Vec::new();
                        commands.push(k);
                        batches.push(Batch { ix, iy, commands });
                        proof {
                            assert forall|a: int| 0 <= a < batches@.len() implies (
                            #[trigger] batches@[a]).commands@ == received(
                                footprints@,
                                width,
                                height,
                                batches@[a].ix as int,
                                batches@[a].iy as int,
                                k as int,
                                span,
                                ix as int + 1,
                                iy as int,
                            ) by {
                                if a < before.len() {
                                    assert(batches@[a] == before[a]);
                                } else {
                                    assert(queue(
                                        footprints@,
                                        width,
                                        height,
                                        ix as int,
                                        iy as int,
                                        k as int,
                                    ) =~= Seq::<usize>::empty());
                                }
                            }
                        }
                    },
                }
                proof {
                    assert(sorted(
                        batches@,
                        entries(index),
                        footprints@,
                        width,
                        height,
                        k as int,
                        span,
                        ix as int + 1,
                        iy as int,
                    ));
                }
                ix += 1;
            }
            assert(sorted(
                batches@,
                entries(index),
                footprints@,
                width,
                height,
                k as int,
                span,
                span.x0 as int,
                iy as int + 1,
            ));
            iy += 1;
        }
        assert(sorted(
            batches@,
            entries(index),
            footprints@,
            width,
            height,
            k as int + 1,
            none,
            0,
            0,
        ));
        k += 1;
    }
    proof {
        let n = footprints@.len() as int;
        assert forall|ix: int, iy: int|
            0 <= ix < width / 32 && 0 <= iy < height / 32 && (#[trigger] queue(
                footprints@,
                width,
                height,
                ix,
                iy,
                n,
            )).len() > 0 implies exists|b: int|
            0 <= b < batches@.len() && #[trigger] batches@[b].ix == ix && batches@[b].iy == iy by {
            let key = key_of(ix, iy, rows as int) as usize;
            assert(batches@[entries(index)[key] as int].ix == ix);
        }
    }
    batches
}

} // verus!
