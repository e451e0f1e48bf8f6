//! The RGBA8 pixel, and the export of a frame as a row-major byte image.

use vstd::prelude::*;
use crate::frame::Frame;
use crate::tile::TileGroup;

verus! {

/// A pixel of four bytes: red, green, blue, alpha.
#[derive(Clone, Copy, Debug, PartialEq, Eq)]
pub struct Rgba(pub [u8; 4]);

/// Where the four bytes of the pixel `(x, y)` start in a row-major image that
/// is `width` pixels wide, rows from the top.
pub open spec fn offset(width: int, x: int, y: int) -> int {
    (y * width + x) * 4
}

/// Whether the image holds the colour `p` at the pixel `(x, y)`.
pub open spec fn shows(img: Seq<u8>, width: int, x: int, y: int, p: Rgba) -> bool {
    forall|c: int| 0 <= c < 4 ==> img[offset(width, x, y) + c] == #[trigger] p.0[c]
}

/// Whether two images hold the same colour at the pixel `(x, y)`.
pub open spec fn same_at(a: Seq<u8>, b: Seq<u8>, width: int, x: int, y: int) -> bool {
    forall|c: int| 0 <= c < 4 ==> #[trigger] a[offset(width, x, y) + c] == b[offset(width, x, y) + c]
}

/// Whether the image is the frame, pixel for pixel.
pub open spec fn depicts(img: Seq<u8>, frame: Frame<Rgba>) -> bool {
    &&& img.len() == frame.width * frame.height * 4
    &&& forall|x: int, y: int|
        0 <= x < frame.width && 0 <= y < frame.height ==> #[trigger] shows(
            img,
            frame.width as int,
            x,
            y,
            frame.pixel(x, y),
        )
}

proof fn lemma_offset(width: int, height: int, x: int, y: int, u: int, v: int)
    by (nonlinear_arith)
    requires
        0 <= x < width,
        0 <= y < height,
        0 <= u < width,
        0 <= v,
    ensures
        0 <= offset(width, x, y),
        offset(width, x, y) + 4 <= width * height * 4,
        (x != u || y != v) ==> offset(width, x, y) + 4 <= offset(width, u, v) || offset(width, u, v)
            + 4 <= offset(width, x, y),
{
}

proof fn lemma_rows(width: int, rows: int, len: int, y: int)
    by (nonlinear_arith)
    requires
        0 <= y < rows,
        0 <= width,
        rows * width * 4 <= len,
    ensures
        (y + 1) * width * 4 <= len,
        0 <= y * width <= (y + 1) * width <= len,
        width > 0 ==> y < len,
{
}

fn put(img: &mut Vec<u8>, at: usize, p: Rgba)
    requires
        at + 4 <= old(img).len(),
    ensures
        final(img)@.len() == old(img)@.len(),
        forall|c: int| 0 <= c < 4 ==> final(img)@[at + c] == #[trigger] p.0[c],
        forall|i: int|
            0 <= i < old(img)@.len() && !(at <= i < at + 4) ==> #[trigger] final(img)@[i] == old(
                img,
            )@[i],
{
    img[at] = p.0[0];
    img[at + 1] = p.0[1];
    img[at + 2] = p.0[2];
    img[at + 3] = p.0[3];
}

impl TileGroup<Rgba> {
    /// Copies the tile into an image that is `width` pixels wide, with the
    /// tile's first pixel at `(x, y)`. Pixels of the image outside the tile
    /// are left as they were.
    pub fn write(&self, x: u32, y: u32, width: u32, img: &mut Vec<u8>)
        requires
            x + 32 <= width,
            (y + 32) * width * 4 <= old(img)@.len(),
        ensures
            final(img)@.len() == old(img)@.len(),
            forall|dx: int, dy: int|
                0 <= dx < 32 && 0 <= dy < 32 ==> #[trigger] shows(
                    final(img)@,
                    width as int,
                    x + dx,
                    y + dy,
                    self.pixel(dx, dy),
                ),
            forall|u: int, v: int|
                0 <= u < width && 0 <= v && (v + 1) * width * 4 <= old(img)@.len() && !(x <= u < x
                    + 32 && y <= v < y + 32) ==> #[trigger] same_at(
                    final(img)@,
                    old(img)@,
                    width as int,
                    u,
                    v,
                ),
    {
        let ghost w = width as int;
        let len: usize = img.len();
        let mut dy: u32 = 0;
        while dy < 32
            invariant
                dy <= 32,
                w == width,
                x + 32 <= width,
                len == old(img)@.len(),
                (y + 32) * w * 4 <= len,
                img@.len() == len,
                forall|ex: int, ey: int|
                    0 <= ex < 32 && 0 <= ey < dy ==> #[trigger] shows(
                        img@,
                        w,
                        x + ex,
                        y + ey,
                        self.pixel(ex, ey),
                    ),
                forall|u: int, v: int|
                    0 <= u < w && 0 <= v && (v + 1) * w * 4 <= len && !(x <= u < x + 32 && y <= v < y
                        + 32) ==> #[trigger] same_at(img@, old(img)@, w, u, v),
            decreases 32 - dy,
        {
            let mut dx: u32 = 0;
            while dx < 32
                invariant
                    dx <= 32,
                    dy < 32,
                    w == width,
                    x + 32 <= width,
                    len == old(img)@.len(),
                    (y + 32) * w * 4 <= len,
                    img@.len() == len,
                    forall|ex: int, ey: int|
                        0 <= ex < 32 && 0 <= ey < 32 && (ey < dy || (ey == dy && ex < dx))
                            ==> #[trigger] shows(img@, w, x + ex, y + ey, self.pixel(ex, ey)),
                    forall|u: int, v: int|
                        0 <= u < w && 0 <= v && (v + 1) * w * 4 <= len && !(x <= u < x + 32 && y
                            <= v < y + 32) ==> #[trigger] same_at(img@, old(img)@, w, u, v),
                decreases 32 - dx,
            {
                let p = self.get(dx as usize, dy as usize);
                proof {
                    lemma_rows(w, y + 32, len as int, y + dy);
                    lemma_offset(w, y + dy + 1, x + dx, y + dy, 0, 0);
                }
                let at = ((y as usize + dy as usize) * (width as usize) + (x as usize + dx as usize))
                    * 4;
                let ghost prior = img@;
                put(img, at, p);
                proof {
                    assert forall|ex: int, ey: int|
                        0 <= ex < 32 && 0 <= ey < 32 && (ey < dy || (ey == dy && ex < dx + 1))
                        implies #[trigger] shows(img@, w, x + ex, y + ey, self.pixel(ex, ey)) by {
                        if ex != dx || ey != dy {
                            lemma_rows(w, y + 32, len as int, y + ey);
                            lemma_offset(w, y + ey + 1, x + ex, y + ey, x + dx, y + dy);
                            assert(shows(prior, w, x + ex, y + ey, self.pixel(ex, ey)));
                        }
                    }
                    assert forall|u: int, v: int|
                        0 <= u < w && 0 <= v && (v + 1) * w * 4 <= len && !(x <= u < x + 32 && y <= v
                            < y + 32) implies #[trigger] same_at(img@, old(img)@, w, u, v) by {
                        lemma_offset(w, v + 1, u, v, x + dx, y + dy);
                        assert(same_at(prior, old(img)@, w, u, v));
                    }
                }
                dx += 1;
            }
            dy += 1;
        }
    }
}

impl Frame<Rgba> {
    /// Copies the frame into `img`, an image of the frame's size, and returns
    /// it: four bytes for each pixel, rows from the top, each row from the
    /// left. The frame keeps its contents.
    pub fn into_image(&self, img: Vec<u8>) -> (out: Vec<u8>)
        requires
            self.wf(),
            img@.len() == self.width * self.height * 4,
        ensures
            depicts(out@, *self),
    {
        let mut img = img;
        let ghost w = self.width as int;
        let ghost h = self.height as int;
        let cols: u32 = self.width / 32;
        let rows: u32 = self.height / 32;
        let mut ix: u32 = 0;
        while ix < cols
            invariant
                ix <= cols,
                self.wf(),
                w == self.width,
                h == self.height,
                cols == self.width / 32,
                rows == self.height / 32,
                img@.len() == w * h * 4,
                forall|x: int, y: int|
                    0 <= x < w && 0 <= y < h && x / 32 < ix ==> #[trigger] shows(
                        img@,
                        w,
                        x,
                        y,
                        self.pixel(x, y),
                    ),
            decreases cols - ix,
        {
            let mut iy: u32 = 0;
            while iy < rows
                invariant
                    ix < cols,
                    iy <= rows,
                    self.wf(),
                    w == self.width,
                    h == self.height,
                    cols == self.width / 32,
                    rows == self.height / 32,
                    img@.len() == w * h * 4,
                    forall|x: int, y: int|
                        0 <= x < w && 0 <= y < h && (x / 32 < ix || (x / 32 == ix && y / 32 < iy))
                            ==> #[trigger] shows(img@, w, x, y, self.pixel(x, y)),
                decreases rows - iy,
            {
                let ghost prior = img@;
                proof {
                    lemma_rows(w, h, w * h * 4, 32 * iy + 31);
                }
                self.tile[ix as usize][iy as usize].write(ix * 32, iy * 32, self.width, &mut img);
                proof {
                    let t = self.tile@[ix as int]@[iy as int];
                    assert forall|x: int, y: int|
                        0 <= x < w && 0 <= y < h && (x / 32 < ix || (x / 32 == ix && y / 32 < iy + 1))
                        implies #[trigger] shows(img@, w, x, y, self.pixel(x, y)) by {
                        if x / 32 == ix && y / 32 == iy {
                            assert(shows(
                                img@,
                                w,
                                ix * 32 + x % 32,
                                iy * 32 + y % 32,
                                t.pixel(x % 32, y % 32),
                            ));
                        } else {
                            lemma_rows(w, h, w * h * 4, y);
                            assert(same_at(img@, prior, w, x, y));
                            assert(shows(prior, w, x, y, self.pixel(x, y)));
                        }
                    }
                }
                iy += 1;
            }
            ix += 1;
        }
        img
    }

    /// The frame as an image: four bytes for each pixel, rows from the top,
    /// each row from the left. The frame keeps its contents.
    pub fn to_image(&self) -> (out: Vec<u8>)
        requires
            self.wf(),
        ensures
            depicts(out@, *self),
    {
        proof {
            lemma_size(self.width as int, self.height as int);
        }
        let n: usize = (self.width as usize) * (self.height as usize) * 4;
        let img: Vec<u8> = vec![0u8; n];
        self.into_image(img)
    }
}

proof fn lemma_size(w: int, h: int)
    by (nonlinear_arith)
    requires
        0 <= w,
        0 <= h,
        w % 32 == 0,
        h % 32 == 0,
        (w / 32) * (h / 32) * 4096 <= isize::MAX,
    ensures
        0 <= w * h <= w * h * 4 <= isize::MAX,
{
}

/// A frame that was cleared to `p` is exported as an image in which every
/// pixel is `p`.
pub proof fn lemma_clear_image(frame: Frame<Rgba>, img: Seq<u8>, p: Rgba)
    requires
        frame.wf(),
        frame.is_clear(p),
        depicts(img, frame),
    ensures
        forall|x: int, y: int|
            0 <= x < frame.width && 0 <= y < frame.height ==> #[trigger] shows(
                img,
                frame.width as int,
                x,
                y,
                p,
            ),
{
    assert forall|x: int, y: int| 0 <= x < frame.width && 0 <= y < frame.height implies #[trigger] shows(
        img,
        frame.width as int,
        x,
        y,
        p,
    ) by {
        assert(frame.tile@[x / 32]@[y / 32].is_clear(p));
        assert(shows(img, frame.width as int, x, y, frame.pixel(x, y)));
    }
}

} // verus!
