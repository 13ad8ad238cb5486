//! A fixed-size grid of packed RGBA colors with rectangular clears and
//! compositing blits.

use vstd::prelude::*;
use crate::color::{alpha, composite, composite_spec, TRANSPARENT};

verus! {

/// A position or a size on a canvas.
#[derive(Clone, Copy, Debug, PartialEq, Eq, Structural)]
pub struct Point {
    pub x: u8,
    pub y: u8,
}

impl Point {
    pub fn new(x: u8, y: u8) -> (p: Point)
        ensures
            p == (Point { x, y }),
    {
        Point { x, y }
    }
}

/// Why a clear or a blit was refused.
#[derive(Clone, Copy, Debug, PartialEq, Eq, Structural)]
pub enum RangeError {
    /// The rectangle has a zero width or a zero height.
    ZeroSize,
    /// A position plus the size does not fit in a coordinate.
    Overflow,
}

/// The mathematical content of a canvas: `rows[y][x]` is the color at `(x, y)`.
pub struct Grid {
    pub width: nat,
    pub height: nat,
    pub rows: Seq<Seq<u32>>,
}

impl Grid {
    pub open spec fn wf(self) -> bool {
        &&& self.rows.len() == self.height
        &&& forall|y: int| 0 <= y < self.height ==> (#[trigger] self.rows[y]).len() == self.width
    }

    pub open spec fn contains(self, x: int, y: int) -> bool {
        0 <= x < self.width && 0 <= y < self.height
    }

    pub open spec fn at(self, x: int, y: int) -> u32 {
        self.rows[y][x]
    }

    /// The same grid with the color at `(x, y)` replaced by `c`.
    pub open spec fn set(self, x: int, y: int, c: u32) -> Grid {
        Grid { rows: self.rows.update(y, self.rows[y].update(x, c)), ..self }
    }
}

/// A grid of the given size whose every pixel is transparent.
pub open spec fn blank_grid(width: nat, height: nat) -> Grid {
    Grid {
        width,
        height,
        rows: Seq::new(height, |y: int| Seq::new(width, |x: int| TRANSPARENT)),
    }
}

/// The grid of the given size whose colors, row after row, are `pixels`.
pub open spec fn grid_of(width: nat, height: nat, pixels: Seq<u32>) -> Grid {
    Grid {
        width,
        height,
        rows: Seq::new(height, |y: int| Seq::new(width, |x: int| pixels[y * width + x])),
    }
}

/// Whether `(x, y)` lies in the rectangle at `pos` of the given size.
pub open spec fn in_rect(x: int, y: int, pos: Point, size: Point) -> bool {
    pos.x <= x < pos.x + size.x && pos.y <= y < pos.y + size.y
}

/// Whether a coordinate plus an extent still fits in a coordinate.
pub open spec fn fits_coordinate(pos: u8, extent: u8) -> bool {
    pos + extent <= u8::MAX
}

/// The checks made before a clear: the size is not zero and the far corner
/// of the rectangle does not overflow.
pub open spec fn clear_check(pos: Point, size: Point) -> Result<(), RangeError> {
    if size.x == 0 || size.y == 0 {
        Err(RangeError::ZeroSize)
    } else if !fits_coordinate(pos.x, size.x) || !fits_coordinate(pos.y, size.y) {
        Err(RangeError::Overflow)
    } else {
        Ok(())
    }
}

/// `g` with every pixel of the rectangle made transparent.
pub open spec fn cleared(g: Grid, pos: Point, size: Point) -> Grid {
    Grid {
        rows: Seq::new(
            g.height,
            |y: int|
                Seq::new(
                    g.width,
                    |x: int| if in_rect(x, y, pos, size) { TRANSPARENT } else { g.rows[y][x] },
                ),
        ),
        ..g
    }
}

/// What `clear_rect` makes of a canvas, or the error it reports.
pub open spec fn clear_rect_spec(g: Grid, pos: Point, size: Point) -> Result<Grid, RangeError> {
    match clear_check(pos, size) {
        Err(e) => Err(e),
        Ok(_) => Ok(cleared(g, pos, size)),
    }
}

/// The checks made before a blit: the size is not zero and neither the
/// source nor the destination rectangle overflows.
pub open spec fn blit_check(src_pos: Point, size: Point, dest: Point) -> Result<(), RangeError> {
    if size.x == 0 || size.y == 0 {
        Err(RangeError::ZeroSize)
    } else if !fits_coordinate(src_pos.x, size.x) || !fits_coordinate(src_pos.y, size.y)
        || !fits_coordinate(dest.x, size.x) || !fits_coordinate(dest.y, size.y) {
        Err(RangeError::Overflow)
    } else {
        Ok(())
    }
}

/// `g` with the window of `src` at `src_pos` painted over it at `dest`.
pub open spec fn blitted(g: Grid, src: Grid, src_pos: Point, size: Point, dest: Point) -> Grid {
    Grid {
        rows: Seq::new(
            g.height,
            |y: int|
                Seq::new(
                    g.width,
                    |x: int|
                        if in_rect(x, y, dest, size) {
                            composite_spec(
                                g.rows[y][x],
                                src.rows[y - dest.y + src_pos.y][x - dest.x + src_pos.x],
                            )
                        } else {
                            g.rows[y][x]
                        },
                ),
        ),
        ..g
    }
}

/// What `blit` makes of a canvas, or the error it reports.
pub open spec fn blit_spec(g: Grid, src: Grid, src_pos: Point, size: Point, dest: Point) -> Result<
    Grid,
    RangeError,
> {
    match blit_check(src_pos, size, dest) {
        Err(e) => Err(e),
        Ok(_) => Ok(blitted(g, src, src_pos, size, dest)),
    }
}

/// Whether a rectangle lies inside a grid of the given size.
pub open spec fn rect_within(pos: Point, size: Point, width: nat, height: nat) -> bool {
    pos.x + size.x <= width && pos.y + size.y <= height
}

/// A rectangular grid of packed RGBA colors, stored row by row. Its size is
/// fixed when it is made.
pub struct Canvas {
    width: usize,
    height: usize,
    pixels: Vec<u32>,
}

proof fn lemma_index_bound(w: int, h: int, x: int, y: int)
    requires
        0 <= x < w,
        0 <= y < h,
    ensures
        0 <= y * w + x < w * h,
{
    assert(0 <= y * w + x < w * h) by (nonlinear_arith)
        requires 0 <= x < w, 0 <= y < h;
}

proof fn lemma_index_unique(w: int, x1: int, y1: int, x2: int, y2: int)
    requires
        0 <= x1 < w,
        0 <= x2 < w,
        0 <= y1,
        0 <= y2,
        x1 != x2 || y1 != y2,
    ensures
        y1 * w + x1 != y2 * w + x2,
{
    if y1 < y2 {
        assert(y1 * w + w <= y2 * w) by (nonlinear_arith)
            requires y1 < y2, w > 0;
    } else if y2 < y1 {
        assert(y2 * w + w <= y1 * w) by (nonlinear_arith)
            requires y2 < y1, w > 0;
    }
}

impl View for Canvas {
    type V = Grid;

    closed spec fn view(&self) -> Grid {
        grid_of(self.width as nat, self.height as nat, self.pixels@)
    }
}

impl Canvas {
    /// The storage holds exactly one color per pixel.
    pub closed spec fn wf(&self) -> bool {
        self.pixels@.len() == self.width * self.height
    }

    /// The grid of every canvas is well formed.
    pub proof fn lemma_view_wf(&self)
        ensures
            self@.wf(),
    {
    }

    /// A transparent canvas of the given size.
    pub fn new(width: usize, height: usize) -> (c: Canvas)
        requires
            width * height <= usize::MAX,
        ensures
            c.wf(),
            c@ == blank_grid(width as nat, height as nat),
    {
        let n: usize = width * height;
        let pixels = vec![TRANSPARENT; n];
        let c = Canvas { width, height, pixels };
        assert forall|y: int| 0 <= y < height implies c@.rows[y] =~= blank_grid(
            width as nat,
            height as nat,
        ).rows[y] by {
            assert forall|x: int| 0 <= x < width implies c@.rows[y][x] == TRANSPARENT by {
                lemma_index_bound(width as int, height as int, x, y);
            }
        }
        assert(c@.rows =~= blank_grid(width as nat, height as nat).rows);
        c
    }

    /// A canvas of the given size whose colors, row after row, are `pixels`.
    pub fn from_pixels(width: usize, height: usize, pixels: Vec<u32>) -> (c: Canvas)
        requires
            pixels@.len() == width * height,
        ensures
            c.wf(),
            c@ == grid_of(width as nat, height as nat, pixels@),
    {
        Canvas { width, height, pixels }
    }

    pub fn width(&self) -> (w: usize)
        ensures
            w == self@.width,
    {
        self.width
    }

    pub fn height(&self) -> (h: usize)
        ensures
            h == self@.height,
    {
        self.height
    }

    /// The color at `(x, y)`.
    pub fn get(&self, x: usize, y: usize) -> (c: u32)
        requires
            self.wf(),
            self@.contains(x as int, y as int),
        ensures
            c == self@.at(x as int, y as int),
    {
        proof {
            lemma_index_bound(self.width as int, self.height as int, x as int, y as int);
        }
        let len = self.pixels.len();
        assert(y * self.width + x < len);
        self.pixels[y * self.width + x]
    }

    /// Replaces the color at `(x, y)`.
    fn set(&mut self, x: usize, y: usize, c: u32)
        requires
            old(self).wf(),
            old(self)@.contains(x as int, y as int),
        ensures
            final(self).wf(),
            final(self)@ == old(self)@.set(x as int, y as int, c),
            forall|xx: int, yy: int|
                old(self)@.contains(xx, yy) ==> #[trigger] final(self)@.at(xx, yy) == if xx == x
                    && yy == y {
                    c
                } else {
                    old(self)@.at(xx, yy)
                },
    {
        proof {
            lemma_index_bound(self.width as int, self.height as int, x as int, y as int);
        }
        let ghost g0 = self@;
        let len = self.pixels.len();
        assert(y * self.width + x < len);
        let i = y * self.width + x;
        self.pixels.set(i, c);
        let ghost w = self.width as int;
        assert forall|yy: int| 0 <= yy < self.height implies self@.rows[yy] =~= g0.set(
            x as int,
            y as int,
            c,
        ).rows[yy] by {
            assert forall|xx: int| 0 <= xx < w implies self@.rows[yy][xx] == g0.set(
                x as int,
                y as int,
                c,
            ).rows[yy][xx] by {
                lemma_index_bound(w, self.height as int, xx, yy);
                if xx != x || yy != y {
                    lemma_index_unique(w, xx, yy, x as int, y as int);
                }
            }
        }
        assert(self@.rows =~= g0.set(x as int, y as int, c).rows);
    }

    /// Makes every pixel of the rectangle at `pos` of the given size
    /// transparent. A zero size, or a rectangle whose far corner overflows a
    /// coordinate, is refused before anything changes.
    pub fn clear_rect(&mut self, pos: Point, size: Point) -> (r: Result<(), RangeError>)
        requires
            old(self).wf(),
            clear_check(pos, size) is Ok ==> rect_within(
                pos,
                size,
                old(self)@.width,
                old(self)@.height,
            ),
        ensures
            final(self).wf(),
            size.x == 0 || size.y == 0 ==> r == Err::<(), RangeError>(RangeError::ZeroSize),
            match clear_rect_spec(old(self)@, pos, size) {
                Ok(g) => r is Ok && final(self)@ == g,
                Err(e) => r == Err::<(), RangeError>(e) && final(self)@ == old(self)@,
            },
    {
        if size.x == 0 || size.y == 0 {
            return Err(RangeError::ZeroSize);
        }
        let x_end = match pos.x.checked_add(size.x) {
            Some(e) => e,
            None => {
                return Err(RangeError::Overflow);
            },
        };
        let y_end = match pos.y.checked_add(size.y) {
            Some(e) => e,
            None => {
                return Err(RangeError::Overflow);
            },
        };
        let ghost g0 = self@;
        let mut y: u8 = pos.y;
        while y < y_end
            invariant
                self.wf(),
                self@.wf(),
                self@.width == g0.width,
                self@.height == g0.height,
                g0.wf(),
                pos.y <= y <= y_end,
                x_end == pos.x + size.x,
                y_end == pos.y + size.y,
                x_end <= g0.width,
                y_end <= g0.height,
                forall|xx: int, yy: int|
                    g0.contains(xx, yy) ==> #[trigger] self@.at(xx, yy) == if in_rect(
                        xx,
                        yy,
                        pos,
                        size,
                    ) && yy < y {
                        TRANSPARENT
                    } else {
                        g0.at(xx, yy)
                    },
            decreases y_end - y,
        {
            let mut x: u8 = pos.x;
            while x < x_end
                invariant
                    self.wf(),
                    self@.wf(),
                    self@.width == g0.width,
                    self@.height == g0.height,
                    g0.wf(),
                    pos.y <= y < y_end,
                    pos.x <= x <= x_end,
                    x_end == pos.x + size.x,
                    y_end == pos.y + size.y,
                    x_end <= g0.width,
                    y_end <= g0.height,
                    forall|xx: int, yy: int|
                        g0.contains(xx, yy) ==> #[trigger] self@.at(xx, yy) == if in_rect(
                            xx,
                            yy,
                            pos,
                            size,
                        ) && (yy < y || (yy == y && xx < x)) {
                            TRANSPARENT
                        } else {
                            g0.at(xx, yy)
                        },
                decreases x_end - x,
            {
                self.set(x as usize, y as usize, TRANSPARENT);
                x = x + 1;
            }
            y = y + 1;
        }
        let ghost target = cleared(g0, pos, size);
        assert forall|yy: int| 0 <= yy < g0.height implies self@.rows[yy] =~= target.rows[yy] by {
            assert forall|xx: int| 0 <= xx < g0.width implies self@.rows[yy][xx]
                == target.rows[yy][xx] by {
                assert(self@.at(xx, yy) == self@.rows[yy][xx]);
            }
        }
        assert(self@.rows =~= target.rows);
        Ok(())
    }

    /// Paints the window of `source` at `src_pos` of the given size onto
    /// this canvas at `dest`, each pixel composited over the one already
    /// there. A zero size, or a window whose far corner overflows a
    /// coordinate on either canvas, is refused before anything changes.
    pub fn blit(&mut self, source: &Canvas, src_pos: Point, size: Point, dest: Point) -> (r: Result<
        (),
        RangeError,
    >)
        requires
            old(self).wf(),
            source.wf(),
            blit_check(src_pos, size, dest) is Ok ==> rect_within(
                src_pos,
                size,
                source@.width,
                source@.height,
            ) && rect_within(dest, size, old(self)@.width, old(self)@.height),
        ensures
            final(self).wf(),
            match blit_spec(old(self)@, source@, src_pos, size, dest) {
                Ok(g) => r is Ok && final(self)@ == g,
                Err(e) => r == Err::<(), RangeError>(e) && final(self)@ == old(self)@,
            },
    {
        if size.x == 0 || size.y == 0 {
            return Err(RangeError::ZeroSize);
        }
        if src_pos.x.checked_add(size.x).is_none() || src_pos.y.checked_add(size.y).is_none()
            || dest.x.checked_add(size.x).is_none() || dest.y.checked_add(size.y).is_none() {
            return Err(RangeError::Overflow);
        }
        let ghost g0 = self@;
        let ghost s = source@;
        proof {
            source.lemma_view_wf();
        }
        let mut dy: u8 = 0;
        while dy < size.y
            invariant
                self.wf(),
                source.wf(),
                self@.wf(),
                s.wf(),
                s == source@,
                self@.width == g0.width,
                self@.height == g0.height,
                g0.wf(),
                blit_check(src_pos, size, dest) is Ok,
                rect_within(src_pos, size, s.width, s.height),
                rect_within(dest, size, g0.width, g0.height),
                dy <= size.y,
                forall|xx: int, yy: int|
                    g0.contains(xx, yy) ==> #[trigger] self@.at(xx, yy) == if in_rect(
                        xx,
                        yy,
                        dest,
                        size,
                    ) && yy - dest.y < dy {
                        composite_spec(
                            g0.at(xx, yy),
                            s.at(xx - dest.x + src_pos.x, yy - dest.y + src_pos.y),
                        )
                    } else {
                        g0.at(xx, yy)
                    },
            decreases size.y - dy,
        {
            let mut dx: u8 = 0;
            while dx < size.x
                invariant
                    self.wf(),
                    source.wf(),
                    self@.wf(),
                    s.wf(),
                    s == source@,
                    self@.width == g0.width,
                    self@.height == g0.height,
                    g0.wf(),
                    blit_check(src_pos, size, dest) is Ok,
                    rect_within(src_pos, size, s.width, s.height),
                    rect_within(dest, size, g0.width, g0.height),
                    dy < size.y,
                    dx <= size.x,
                    forall|xx: int, yy: int|
                        g0.contains(xx, yy) ==> #[trigger] self@.at(xx, yy) == if in_rect(
                            xx,
                            yy,
                            dest,
                            size,
                        ) && (yy - dest.y < dy || (yy - dest.y == dy && xx - dest.x < dx)) {
                            composite_spec(
                                g0.at(xx, yy),
                                s.at(xx - dest.x + src_pos.x, yy - dest.y + src_pos.y),
                            )
                        } else {
                            g0.at(xx, yy)
                        },
                decreases size.x - dx,
            {
                let x = (dest.x + dx) as usize;
                let y = (dest.y + dy) as usize;
                let under = self.get(x, y);
                let over = source.get((src_pos.x + dx) as usize, (src_pos.y + dy) as usize);
                self.set(x, y, composite(under, over));
                dx = dx + 1;
            }
            dy = dy + 1;
        }
        let ghost target = blitted(g0, s, src_pos, size, dest);
        assert forall|yy: int| 0 <= yy < g0.height implies self@.rows[yy] =~= target.rows[yy] by {
            assert forall|xx: int| 0 <= xx < g0.width implies self@.rows[yy][xx]
                == target.rows[yy][xx] by {
                assert(self@.at(xx, yy) == self@.rows[yy][xx]);
            }
        }
        assert(self@.rows =~= target.rows);
        Ok(())
    }
}

/// After a clear that succeeds, every pixel of the rectangle is transparent
/// and every pixel outside it is as it was.
pub proof fn lemma_clear_rect_pixels(g: Grid, pos: Point, size: Point)
    requires
        g.wf(),
        clear_rect_spec(g, pos, size) is Ok,
    ensures
        forall|x: int, y: int|
            g.contains(x, y) && in_rect(x, y, pos, size) ==> #[trigger] clear_rect_spec(
                g,
                pos,
                size,
            )->Ok_0.at(x, y) == TRANSPARENT,
        forall|x: int, y: int|
            g.contains(x, y) && !in_rect(x, y, pos, size) ==> #[trigger] clear_rect_spec(
                g,
                pos,
                size,
            )->Ok_0.at(x, y) == g.at(x, y),
{
}

/// A blit from a window that is one opaque color gives that color at every
/// pixel of the destination rectangle, whatever was there before.
pub proof fn lemma_blit_opaque_uniform(
    g: Grid,
    src: Grid,
    src_pos: Point,
    size: Point,
    dest: Point,
    c: u32,
)
    requires
        g.wf(),
        src.wf(),
        alpha(c) == 255,
        rect_within(src_pos, size, src.width, src.height),
        rect_within(dest, size, g.width, g.height),
        forall|x: int, y: int| in_rect(x, y, src_pos, size) ==> #[trigger] src.at(x, y) == c,
        blit_check(src_pos, size, dest) is Ok,
    ensures
        blit_spec(g, src, src_pos, size, dest) is Ok,
        forall|x: int, y: int|
            in_rect(x, y, dest, size) ==> #[trigger] blit_spec(
                g,
                src,
                src_pos,
                size,
                dest,
            )->Ok_0.at(x, y) == c,
{
    let r = blit_spec(g, src, src_pos, size, dest)->Ok_0;
    assert forall|x: int, y: int| in_rect(x, y, dest, size) implies #[trigger] r.at(x, y) == c by {
        let (sx, sy) = (x - dest.x + src_pos.x, y - dest.y + src_pos.y);
        assert(in_rect(sx, sy, src_pos, size));
        assert(src.at(sx, sy) == c);
    }
}

} // verus!
