//! Core graphics library shared by the displays: points, lines, rectangles,
//! circles, triangles, bitmaps and text, drawn through a pixel backend.
use vstd::prelude::*;
use vstd::arithmetic::div_mod::lemma_fundamental_div_mod_converse;
use vstd::string::StringSliceAdditionalSpecFns;
use vstd::array::ArrayAdditionalExecFns;

verus! {

/// Font data stored per glyph.
#[derive(Debug, Clone, Copy)]
pub struct GFXglyph {
    /// Offset of the glyph's bits in the font bitmap.
    pub bitmap_offset: u16,
    /// Bitmap dimensions in pixels.
    pub width: u8,
    /// Bitmap dimensions in pixels.
    pub height: u8,
    /// Distance to advance the cursor (x axis).
    pub x_advance: u8,
    /// X distance from the cursor to the upper left corner.
    pub x_offset: i8,
    /// Y distance from the cursor to the upper left corner.
    pub y_offset: i8,
}

/// Data stored for the font as a whole.
pub struct GFXfont {
    /// Glyph bitmaps, concatenated.
    pub bitmap: &'static [u8],
    /// Glyph array.
    pub glyph: &'static [GFXglyph],
    /// First character.
    pub first: u16,
    /// Last character.
    pub last: u16,
    /// Newline distance (y axis).
    pub y_advance: u8,
}

/// A drawn pixel: column, row and color.
pub type Pixel = (int, int, u16);

/// A pixel sink: a display, a frame buffer or a canvas.
///
/// `drawn` is the sequence of pixels handed to the backend so far.
pub trait DrawPixel {
    spec fn drawn(&self) -> Seq<Pixel>;

    /// Draw to the screen/framebuffer/etc.
    fn draw_pixel(&mut self, x: i16, y: i16, color: u16)
        ensures
            final(self).drawn() == old(self).drawn().push((x as int, y as int, color)),
    ;
}

pub open spec fn iabs(v: int) -> int {
    if v < 0 {
        -v
    } else {
        v
    }
}

pub open spec fn i16_fits(v: int) -> bool {
    i16::MIN <= v <= i16::MAX
}

/// Number of row steps Bresenham's walk has taken after `k` columns, with
/// run `dx` and rise `dy` (0 <= dy <= dx): the ceiling of `(k*dy - dx/2) / dx`.
pub open spec fn line_steps(k: int, dx: int, dy: int) -> int {
    if dx == 0 {
        0
    } else {
        (k * dy - dx / 2 + dx - 1) / dx
    }
}

/// A line walked from column `bx0` to `bx1` along the main axis, starting at
/// row `by0` and heading to `by1`; `steep` swaps the axes back when drawing.
pub open spec fn walk_pixels(bx0: int, by0: int, bx1: int, by1: int, steep: bool, color: u16) -> Seq<Pixel> {
    let dx = bx1 - bx0;
    let dy = iabs(by1 - by0);
    let ystep: int = if by0 < by1 {
        1
    } else {
        -1
    };
    Seq::new(
        (dx + 1) as nat,
        |k: int|
            {
                let yk = by0 + ystep * line_steps(k, dx, dy);
                if steep {
                    (yk, bx0 + k, color)
                } else {
                    (bx0 + k, yk, color)
                }
            },
    )
}

/// The walk of a line: the main axis is the longer one, walked upwards.
pub open spec fn line_walk(x0: int, y0: int, x1: int, y1: int) -> (int, int, int, int, bool) {
    let steep = iabs(y1 - y0) > iabs(x1 - x0);
    let (ax0, ay0, ax1, ay1) = if steep {
        (y0, x0, y1, x1)
    } else {
        (x0, y0, x1, y1)
    };
    if ax0 > ax1 {
        (ax1, ay1, ax0, ay0, steep)
    } else {
        (ax0, ay0, ax1, ay1, steep)
    }
}

/// The pixels of the line from (x0, y0) to (x1, y1) drawn by Bresenham's algorithm.
pub open spec fn line_pixels(x0: int, y0: int, x1: int, y1: int, color: u16) -> Seq<Pixel> {
    let (bx0, by0, bx1, by1, steep) = line_walk(x0, y0, x1, y1);
    walk_pixels(bx0, by0, bx1, by1, steep, color)
}

/// The 16-bit arithmetic of the line walk does not overflow: the
/// differences fit, and the walk (which takes one step past the last
/// pixel) stays in range.
pub open spec fn line_ok(x0: int, y0: int, x1: int, y1: int) -> bool {
    let (bx0, by0, bx1, by1, steep) = line_walk(x0, y0, x1, y1);
    let dx = bx1 - bx0;
    let dy = iabs(by1 - by0);
    let ystep: int = if by0 < by1 {
        1
    } else {
        -1
    };
    &&& i16_fits(x0) && i16_fits(y0) && i16_fits(x1) && i16_fits(y1)
    &&& -32767 <= x1 - x0 <= 32767
    &&& -32767 <= y1 - y0 <= 32767
    &&& bx1 < 32767
    &&& i16_fits(by0 + ystep * line_steps(dx + 1, dx, dy))
}

proof fn lemma_line_steps(k: int, dx: int, dy: int, c: int, err: int)
    requires
        dx > 0,
        err == dx / 2 - k * dy + c * dx,
        0 <= err < dx,
    ensures
        c == line_steps(k, dx, dy),
{
    let x = k * dy - dx / 2 + dx - 1;
    lemma_fundamental_div_mod_converse(x, dx, c, dx - 1 - err);
}

proof fn lemma_line_steps_mono(k1: int, k2: int, dx: int, dy: int)
    requires
        0 <= k1 <= k2,
        dx > 0,
        dy >= 0,
    ensures
        line_steps(k1, dx, dy) <= line_steps(k2, dx, dy),
        line_steps(0, dx, dy) == 0,
{
    assert(k1 * dy <= k2 * dy) by (nonlinear_arith)
        requires
            0 <= k1 <= k2,
            dy >= 0,
    ;
    vstd::arithmetic::div_mod::lemma_div_is_ordered(
        k1 * dy - dx / 2 + dx - 1,
        k2 * dy - dx / 2 + dx - 1,
        dx,
    );
    assert(0 * dy == 0);
    lemma_fundamental_div_mod_converse(0 * dy - dx / 2 + dx - 1, dx, 0, 0 * dy - dx / 2 + dx - 1);
}

/// A run of pixels along one column: rows `min(y, y + h - 1)` to `max(y, y + h - 1)`.
pub open spec fn vline_pixels(x: int, y: int, h: int, color: u16) -> Seq<Pixel> {
    let y1 = y + h - 1;
    let top = if y <= y1 {
        y
    } else {
        y1
    };
    Seq::new((iabs(h - 1) + 1) as nat, |k: int| (x, top + k, color))
}

/// A run of pixels along one row: columns `min(x, x + w - 1)` to `max(x, x + w - 1)`.
pub open spec fn hline_pixels(x: int, y: int, w: int, color: u16) -> Seq<Pixel> {
    let x1 = x + w - 1;
    let left = if x <= x1 {
        x
    } else {
        x1
    };
    Seq::new((iabs(w - 1) + 1) as nat, |k: int| (left + k, y, color))
}

/// A vertical line from (x, y) over `h` rows can be drawn without overflow.
pub open spec fn vline_ok(x: int, y: int, h: int) -> bool {
    let y1 = y + h - 1;
    &&& i16_fits(x) && i16_fits(y) && i16_fits(y + h) && i16_fits(y1)
    &&& -32767 <= h - 1 <= 32767
    &&& h != 1 ==> (y < 32767 && y1 < 32767)
    &&& h == 1 ==> x < 32767
}

/// A horizontal line from (x, y) over `w` columns can be drawn without overflow.
pub open spec fn hline_ok(x: int, y: int, w: int) -> bool {
    let x1 = x + w - 1;
    &&& i16_fits(x) && i16_fits(y) && i16_fits(x + w) && i16_fits(x1)
    &&& -32767 <= w - 1 <= 32767
    &&& x < 32767 && x1 < 32767
}

proof fn lemma_flat_steps(k: int, dx: int)
    requires
        dx > 0,
    ensures
        line_steps(k, dx, 0) == 0,
{
    assert(k * 0 == 0);
    lemma_fundamental_div_mod_converse(k * 0 - dx / 2 + dx - 1, dx, 0, dx - dx / 2 - 1);
}

/// A line is drawn the same from either end: the same pixels in the same
/// order. It has one pixel per step along its longer axis, plus one, and
/// starts and ends at its two end points.
pub proof fn lemma_line_either_end(x0: int, y0: int, x1: int, y1: int, color: u16)
    ensures
        line_pixels(x0, y0, x1, y1, color) == line_pixels(x1, y1, x0, y0, color),
        line_pixels(x0, y0, x1, y1, color).len() == (if iabs(x1 - x0) >= iabs(y1 - y0) {
            iabs(x1 - x0)
        } else {
            iabs(y1 - y0)
        }) + 1,
        ({
            let p = line_pixels(x0, y0, x1, y1, color);
            let e = p.len() - 1;
            (p[0] == (x0, y0, color) && p[e] == (x1, y1, color)) || (p[0] == (x1, y1, color) && p[e] == (
                x0,
                y0,
                color,
            ))
        }),
{
    let (bx0, by0, bx1, by1, steep) = line_walk(x0, y0, x1, y1);
    assert(line_walk(x0, y0, x1, y1) == line_walk(x1, y1, x0, y0));
    let dx = bx1 - bx0;
    let dy = iabs(by1 - by0);
    if dx > 0 {
        let r = dx - dx / 2 - 1;
        assert(dx * dy - dx / 2 + dx - 1 == dy * dx + r) by (nonlinear_arith)
            requires
                r == dx - dx / 2 - 1,
        ;
        lemma_fundamental_div_mod_converse(dx * dy - dx / 2 + dx - 1, dx, dy, r);
        assert(line_steps(dx, dx, dy) == dy);
    } else {
        assert(line_steps(0, 0, dy) == 0);
    }
    assert(line_steps(0, dx, dy) == 0) by {
        if dx > 0 {
            lemma_fundamental_div_mod_converse(0 * dy - dx / 2 + dx - 1, dx, 0, dx - dx / 2 - 1);
        }
    }
    let ystep: int = if by0 < by1 {
        1
    } else {
        -1
    };
    assert(dy <= dx);
    assert(by0 + ystep * dy == by1) by {
        if by0 < by1 {
            assert(ystep == 1);
        } else {
            assert(ystep == -1);
        }
    }
    assert(line_steps(dx, dx, dy) == dy);
    let p = line_pixels(x0, y0, x1, y1, color);
    assert(p == walk_pixels(bx0, by0, bx1, by1, steep, color));
    assert(p.len() == dx + 1);
    if steep {
        assert(p[0] == (by0, bx0, color));
        assert(p[dx] == (by1, bx1, color));
    } else {
        assert(p[0] == (bx0, by0, color));
        assert(p[dx] == (bx1, by1, color));
    }
}

/// The frame after swapping the bytes of the first `n` pixels.
pub open spec fn swapped_frame(f: Seq<u16>, n: int) -> Seq<u16> {
    Seq::new(f.len(), |i: int| if i < n { swap16_spec(f[i]) } else { f[i] })
}

/// Swapping a pixel's bytes twice gives it back.
pub proof fn lemma_swap16_twice(v: u16)
    ensures
        swap16_spec(swap16_spec(v)) == v,
{
    let a = v / 256;
    let b = v % 256;
    assert(v == a * 256 + b);
    assert(swap16_spec(v) == b * 256 + a);
    assert((b * 256 + a) % 256 == a && (b * 256 + a) / 256 == b) by (nonlinear_arith)
        requires
            0 <= a < 256,
            0 <= b < 256,
    ;
}

/// Swapping the bytes of a frame twice gives the frame back.
pub proof fn lemma_byte_swap_twice(f: Seq<u16>, n: int)
    ensures
        swapped_frame(swapped_frame(f, n), n) == f,
{
    assert forall|i: int| 0 <= i < f.len() implies #[trigger] swapped_frame(swapped_frame(f, n), n)[i] == f[i] by {
        lemma_swap16_twice(f[i]);
    }
    assert(swapped_frame(swapped_frame(f, n), n) =~= f);
}

/// Bresenham's walk of a vertical segment is the straight run of its rows, top to bottom.
pub proof fn lemma_vertical_line(x: int, y: int, y1: int, color: u16)
    requires
        vline_ok(x, y, y1 - y + 1),
    ensures
        line_ok(x, y, x, y1),
        line_pixels(x, y, x, y1, color) =~= vline_pixels(x, y, y1 - y + 1, color),
{
    let (bx0, by0, bx1, by1, steep) = line_walk(x, y, x, y1);
    let dx = bx1 - bx0;
    if dx > 0 {
        lemma_flat_steps(dx + 1, dx);
        assert forall|k: int| 0 <= k <= dx implies line_steps(k, dx, 0) == 0 by {
            lemma_flat_steps(k, dx);
        }
    }
}

/// Bresenham's walk of a horizontal segment is the straight run of its columns, left to right.
pub proof fn lemma_horizontal_line(x: int, y: int, x1: int, color: u16)
    requires
        hline_ok(x, y, x1 - x + 1),
    ensures
        line_ok(x, y, x1, y),
        line_pixels(x, y, x1, y, color) =~= hline_pixels(x, y, x1 - x + 1, color),
{
    let (bx0, by0, bx1, by1, steep) = line_walk(x, y, x1, y);
    let dx = bx1 - bx0;
    if dx > 0 {
        lemma_flat_steps(dx + 1, dx);
        assert forall|k: int| 0 <= k <= dx implies line_steps(k, dx, 0) == 0 by {
            lemma_flat_steps(k, dx);
        }
    }
}

/// Columns `x` to `x + n - 1`, each a vertical run of `h` rows from `y`, left to right.
pub open spec fn columns(x: int, n: nat, y: int, h: int, color: u16) -> Seq<Pixel>
    decreases n,
{
    if n == 0 {
        seq![]
    } else {
        columns(x, (n - 1) as nat, y, h, color) + vline_pixels(x + n - 1, y, h, color)
    }
}

/// The pixels of a filled rectangle, column by column.
pub open spec fn rect_pixels(x: int, y: int, w: int, h: int, color: u16) -> Seq<Pixel> {
    if w <= 0 {
        seq![]
    } else {
        columns(x, w as nat, y, h, color)
    }
}

/// A filled rectangle can be drawn without overflow.
pub open spec fn rect_ok(x: int, y: int, w: int, h: int) -> bool {
    &&& i16_fits(x) && i16_fits(x + w)
    &&& w > 0 ==> vline_ok(x, y, h)
}

/// A line from (x0, y0) to (x1, y1) can be drawn without overflow by `draw_line`.
pub open spec fn draw_line_ok(x0: int, y0: int, x1: int, y1: int) -> bool {
    if x0 == x1 {
        let (top, bot) = if y0 > y1 {
            (y1, y0)
        } else {
            (y0, y1)
        };
        i16_fits(bot - top) && i16_fits(bot - top + 1) && vline_ok(x0, top, bot - top + 1)
    } else if y0 == y1 {
        let (left, right) = if x0 > x1 {
            (x1, x0)
        } else {
            (x0, x1)
        };
        i16_fits(right - left) && i16_fits(right - left + 1) && hline_ok(left, y0, right - left + 1)
    } else {
        line_ok(x0, y0, x1, y1)
    }
}

/// The outline of a rectangle: top edge, bottom edge, left edge, right edge.
pub open spec fn rect_outline(x: int, y: int, w: int, h: int, color: u16) -> Seq<Pixel> {
    hline_pixels(x, y, w, color) + hline_pixels(x, y + h - 1, w, color) + vline_pixels(x, y, h, color)
        + vline_pixels(x + w - 1, y, h, color)
}

/// A rectangle outline can be drawn without overflow.
pub open spec fn rect_outline_ok(x: int, y: int, w: int, h: int) -> bool {
    &&& i16_fits(y + h) && i16_fits(x + w)
    &&& hline_ok(x, y, w) && hline_ok(x, y + h - 1, w)
    &&& vline_ok(x, y, h) && vline_ok(x + w - 1, y, h)
}

/// State of the midpoint circle walk: decision value `f`, its increments
/// `ddx` and `ddy`, and the current offsets `x` and `y`.
pub type MidState = (int, int, int, int, int);

/// The midpoint walk at its start for radius `r`.
pub open spec fn mid_start(r: int) -> MidState {
    (1 - r, 1, -2 * r, 0, r)
}

/// One step of the midpoint walk: step `y` in when the decision value says
/// so, then always step `x` out.
pub open spec fn mid_step(s: MidState) -> MidState {
    let (f, ddx, ddy, x, y) = s;
    let (f1, ddy1, y1) = if f >= 0 {
        (f + ddy + 2, ddy + 2, y - 1)
    } else {
        (f, ddy, y)
    };
    (f1 + ddx + 2, ddx + 2, ddy1, x + 1, y1)
}

/// The states visited by the midpoint walk from `s` while `x < y`, one per step.
pub open spec fn mid_walk(s: MidState) -> Seq<MidState>
    decreases (if s.3 < s.4 {
        s.4 - s.3
    } else {
        0
    }),
{
    if s.3 < s.4 {
        let n = mid_step(s);
        seq![n] + mid_walk(n)
    } else {
        seq![]
    }
}

/// The eight symmetric pixels of one step of a circle centred on (x0, y0).
pub open spec fn octants(x0: int, y0: int, x: int, y: int, color: u16) -> Seq<Pixel> {
    seq![
        (x0 + x, y0 + y, color),
        (x0 - x, y0 + y, color),
        (x0 + x, y0 - y, color),
        (x0 - x, y0 - y, color),
        (x0 + y, y0 + x, color),
        (x0 - y, y0 + x, color),
        (x0 + y, y0 - x, color),
        (x0 - y, y0 - x, color),
    ]
}

/// The octant pixels of every state of a walk, in order.
pub open spec fn ring(x0: int, y0: int, w: Seq<MidState>, color: u16) -> Seq<Pixel>
    decreases w.len(),
{
    if w.len() == 0 {
        seq![]
    } else {
        ring(x0, y0, w.drop_last(), color) + octants(x0, y0, w.last().3, w.last().4, color)
    }
}

/// The pixels of a circle outline of radius `r` centred on (x0, y0).
pub open spec fn circle_pixels(x0: int, y0: int, r: int, color: u16) -> Seq<Pixel> {
    seq![(x0, y0 + r, color), (x0, y0 - r, color), (x0 + r, y0, color), (x0 - r, y0, color)]
        + ring(x0, y0, mid_walk(mid_start(r)), color)
}

/// The pixels of the chosen quarters (`corners` bits 1, 2, 4, 8) of one step.
pub open spec fn corner_pixels(x0: int, y0: int, x: int, y: int, corners: u8, color: u16) -> Seq<Pixel> {
    (if corners & 0x4 != 0 {
        seq![(x0 + x, y0 + y, color), (x0 + y, y0 + x, color)]
    } else {
        seq![]
    }) + (if corners & 0x2 != 0 {
        seq![(x0 + x, y0 - y, color), (x0 + y, y0 - x, color)]
    } else {
        seq![]
    }) + (if corners & 0x8 != 0 {
        seq![(x0 - y, y0 + x, color), (x0 - x, y0 + y, color)]
    } else {
        seq![]
    }) + (if corners & 0x1 != 0 {
        seq![(x0 - y, y0 - x, color), (x0 - x, y0 - y, color)]
    } else {
        seq![]
    })
}

/// The quarter-circle pixels of every state of a walk, in order.
pub open spec fn corner_ring(x0: int, y0: int, w: Seq<MidState>, corners: u8, color: u16) -> Seq<Pixel>
    decreases w.len(),
{
    if w.len() == 0 {
        seq![]
    } else {
        corner_ring(x0, y0, w.drop_last(), corners, color) + corner_pixels(
            x0,
            y0,
            w.last().3,
            w.last().4,
            corners,
            color,
        )
    }
}

/// A circle of radius `r` centred on (x0, y0) stays within 16-bit coordinates.
pub open spec fn circle_ok(x0: int, y0: int, r: int) -> bool {
    &&& i16_fits(x0 + r) && i16_fits(x0 - r) && i16_fits(y0 + r) && i16_fits(y0 - r)
    &&& -16384 <= r <= 16383
}

/// The invariant of the midpoint walk: the decision value is
/// `x^2 + y^2 - r^2 + 2x - y + 1` and the increments follow the offsets.
pub open spec fn mid_inv(s: MidState, r: int) -> bool {
    let (f, ddx, ddy, x, y) = s;
    &&& f == x * x + y * y - r * r + 2 * x - y + 1
    &&& ddx == 2 * x + 1
    &&& ddy == -2 * y
}

proof fn lemma_mid_step(s: MidState, r: int)
    requires
        mid_inv(s, r),
        0 <= s.3 < s.4 <= r <= 16383,
    ensures
        mid_inv(mid_step(s), r),
        0 <= mid_step(s).3 <= mid_step(s).4 + 1,
        mid_step(s).4 <= r,
        mid_step(s).3 == s.3 + 1,
        mid_walk(s) == seq![mid_step(s)] + mid_walk(mid_step(s)),
{
    let (f, ddx, ddy, x, y) = s;
    if f >= 0 {
        assert((x + 1) * (x + 1) + (y - 1) * (y - 1) - r * r + 2 * (x + 1) - (y - 1) + 1 == f + ddy + 2 + ddx
            + 2) by (nonlinear_arith)
            requires
                f == x * x + y * y - r * r + 2 * x - y + 1,
                ddx == 2 * x + 1,
                ddy == -2 * y,
        ;
    } else {
        assert((x + 1) * (x + 1) + y * y - r * r + 2 * (x + 1) - y + 1 == f + ddx + 2) by (nonlinear_arith)
            requires
                f == x * x + y * y - r * r + 2 * x - y + 1,
                ddx == 2 * x + 1,
        ;
    }
}

proof fn lemma_mid_bounds(x: int, y: int, r: int)
    requires
        0 <= x <= y <= r <= 16383,
    ensures
        -(r * r) - r <= x * x + y * y - r * r + 2 * x - y + 1 <= r * r + 3 * r + 1,
        r * r <= 16383 * 16383,
{
    assert(x * x <= r * r && y * y <= r * r && 0 <= x * x && 0 <= y * y && r * r <= 16383 * 16383) by (nonlinear_arith)
        requires
            0 <= x <= y <= r <= 16383,
    ;
}

/// The vertical runs of one step of a filled circle, for the chosen halves
/// (`corners` bit 1: right, bit 2: left); `None` when a run would overflow.
pub open spec fn fill_runs(x0: int, y0: int, x: int, y: int, len: int, corners: u8, color: u16) -> Option<Seq<Pixel>> {
    let ok1 = corners & 1 == 0 || (i16_fits(x0 + x) && vline_ok(x0 + x, y0 - y, len));
    let ok2 = corners & 2 == 0 || (i16_fits(x0 - x) && vline_ok(x0 - x, y0 - y, len));
    if i16_fits(y0 - y) && i16_fits(2 * y) && i16_fits(len) && ok1 && ok2 {
        Some(
            (if corners & 1 != 0 {
                vline_pixels(x0 + x, y0 - y, len, color)
            } else {
                seq![]
            }) + (if corners & 2 != 0 {
                vline_pixels(x0 - x, y0 - y, len, color)
            } else {
                seq![]
            }),
        )
    } else {
        None
    }
}

/// The pixels that `fill_circle_helper` draws for the remaining walk `w`,
/// given the previous offsets `px`, `py`; `None` when some arithmetic
/// would overflow.
pub open spec fn fill_walk(
    x0: int,
    y0: int,
    w: Seq<MidState>,
    px: int,
    py: int,
    corners: u8,
    delta: int,
    color: u16,
) -> Option<Seq<Pixel>>
    decreases w.len(),
{
    if w.len() == 0 {
        Some(seq![])
    } else {
        let x = w[0].3;
        let y = w[0].4;
        let a = if x < y + 1 {
            fill_runs(x0, y0, x, y, 2 * y + delta, corners, color)
        } else {
            Some(seq![])
        };
        let b = if y != py {
            fill_runs(x0, y0, py, px, 2 * px + delta, corners, color)
        } else {
            Some(seq![])
        };
        let rest = fill_walk(x0, y0, w.drop_first(), x, y, corners, delta, color);
        if a is Some && b is Some && rest is Some && i16_fits(2 * y + delta) && i16_fits(2 * px + delta) {
            Some(a->0 + b->0 + rest->0)
        } else {
            None
        }
    }
}

/// The pixels of `fill_circle_helper(x0, y0, r, corners, delta)`; `None`
/// when the call would overflow.
pub open spec fn fill_circle_spec(x0: int, y0: int, r: int, corners: u8, delta: int, color: u16) -> Option<Seq<Pixel>> {
    if circle_ok(x0, y0, r) && i16_fits(delta + 1) {
        fill_walk(x0, y0, mid_walk(mid_start(r)), 0, r, corners, delta + 1, color)
    } else {
        None
    }
}

/// The pixels of a step's runs lie in columns x0 + x (right half, bit 1
/// of `corners`) and x0 - x (left half, bit 2), all in `color`.
proof fn lemma_fill_runs_sides(x0: int, y0: int, x: int, y: int, len: int, corners: u8, color: u16)
    requires
        fill_runs(x0, y0, x, y, len, corners, color) is Some,
        x >= 1,
    ensures
        forall|i: int|
            0 <= i < fill_runs(x0, y0, x, y, len, corners, color)->0.len() ==> {
                let p = #[trigger] fill_runs(x0, y0, x, y, len, corners, color)->0[i];
                &&& p.0 != x0
                &&& corners & 2 == 0 ==> p.0 > x0
                &&& corners & 1 == 0 ==> p.0 < x0
                &&& p.2 == color
            },
{
    let a = if corners & 1 != 0 {
        vline_pixels(x0 + x, y0 - y, len, color)
    } else {
        seq![]
    };
    let b = if corners & 2 != 0 {
        vline_pixels(x0 - x, y0 - y, len, color)
    } else {
        seq![]
    };
    let q = fill_runs(x0, y0, x, y, len, corners, color)->0;
    assert(q == a + b);
    assert forall|i: int| 0 <= i < q.len() implies {
        let p = #[trigger] q[i];
        &&& p.0 != x0
        &&& corners & 2 == 0 ==> p.0 > x0
        &&& corners & 1 == 0 ==> p.0 < x0
        &&& p.2 == color
    } by {
        if i < a.len() {
            assert(q[i] == a[i]);
        } else {
            assert(q[i] == b[i - a.len()]);
        }
    }
}

proof fn lemma_fill_walk_sides(x0: int, y0: int, s: MidState, corners: u8, delta: int, color: u16)
    requires
        fill_walk(x0, y0, mid_walk(s), s.3, s.4, corners, delta, color) is Some,
        s.3 >= 0,
    ensures
        forall|i: int|
            0 <= i < fill_walk(x0, y0, mid_walk(s), s.3, s.4, corners, delta, color)->0.len() ==> {
                let p = #[trigger] fill_walk(x0, y0, mid_walk(s), s.3, s.4, corners, delta, color)->0[i];
                &&& p.0 != x0
                &&& corners & 2 == 0 ==> p.0 > x0
                &&& corners & 1 == 0 ==> p.0 < x0
                &&& p.2 == color
            },
    decreases (if s.3 < s.4 {
        s.4 - s.3
    } else {
        0
    }),
{
    let w = mid_walk(s);
    if s.3 < s.4 {
        let n = mid_step(s);
        assert(w[0] == n);
        assert(w.drop_first() == mid_walk(n));
        let x = n.3;
        let y = n.4;
        let px = s.3;
        let py = s.4;
        let a = if x < y + 1 {
            fill_runs(x0, y0, x, y, 2 * y + delta, corners, color)
        } else {
            Some(seq![])
        };
        let b = if y != py {
            fill_runs(x0, y0, py, px, 2 * px + delta, corners, color)
        } else {
            Some(seq![])
        };
        lemma_fill_walk_sides(x0, y0, n, corners, delta, color);
        let rest = fill_walk(x0, y0, mid_walk(n), x, y, corners, delta, color);
        if x < y + 1 {
            lemma_fill_runs_sides(x0, y0, x, y, 2 * y + delta, corners, color);
        }
        if y != py {
            lemma_fill_runs_sides(x0, y0, py, px, 2 * px + delta, corners, color);
        }
        let q = fill_walk(x0, y0, w, px, py, corners, delta, color)->0;
        let qa = a->0;
        let qb = b->0;
        let qr = rest->0;
        assert(q == qa + qb + qr);
        assert forall|i: int| 0 <= i < q.len() implies {
            let p = #[trigger] q[i];
            &&& p.0 != x0
            &&& corners & 2 == 0 ==> p.0 > x0
            &&& corners & 1 == 0 ==> p.0 < x0
            &&& p.2 == color
        } by {
            if i < qa.len() {
                assert(q[i] == qa[i]);
            } else if i < qa.len() + qb.len() {
                assert(q[i] == qb[i - qa.len()]);
            } else {
                assert(q[i] == qr[i - qa.len() - qb.len()]);
            }
        }
    } else {
        assert(w.len() == 0);
    }
}

/// A filled circle's halves never touch its centre column: every pixel of
/// `fill_circle_helper` is in `color`, off column x0, right of it when only
/// the right half is asked for (bit 1 of `corners`) and left of it when
/// only the left half is (bit 2).
pub proof fn lemma_fill_circle_sides(x0: int, y0: int, r: int, corners: u8, delta: int, color: u16)
    requires
        fill_circle_spec(x0, y0, r, corners, delta, color) is Some,
    ensures
        forall|i: int|
            0 <= i < fill_circle_spec(x0, y0, r, corners, delta, color)->0.len() ==> {
                let p = #[trigger] fill_circle_spec(x0, y0, r, corners, delta, color)->0[i];
                &&& p.0 != x0
                &&& corners & 2 == 0 ==> p.0 > x0
                &&& corners & 1 == 0 ==> p.0 < x0
                &&& p.2 == color
            },
{
    lemma_fill_walk_sides(x0, y0, mid_start(r), corners, delta + 1, color);
}

/// No pixel occurs twice in `q`.
pub open spec fn no_repeat(q: Seq<Pixel>) -> bool {
    forall|i: int, j: int| 0 <= i < j < q.len() ==> #[trigger] q[i] != #[trigger] q[j]
}

/// How far pixel `p` lies from column `x0`.
pub open spec fn col_off(p: Pixel, x0: int) -> int {
    iabs(p.0 - x0)
}

proof fn lemma_concat_no_repeat(a: Seq<Pixel>, b: Seq<Pixel>)
    requires
        no_repeat(a),
        no_repeat(b),
        forall|i: int, j: int| 0 <= i < a.len() && 0 <= j < b.len() ==> #[trigger] a[i] != #[trigger] b[j],
    ensures
        no_repeat(a + b),
{
    let q = a + b;
    assert forall|i: int, j: int| 0 <= i < j < q.len() implies #[trigger] q[i] != #[trigger] q[j] by {
        if j < a.len() {
            assert(q[i] == a[i] && q[j] == a[j]);
        } else if i >= a.len() {
            assert(q[i] == b[i - a.len()] && q[j] == b[j - a.len()]);
        } else {
            assert(q[i] == a[i] && q[j] == b[j - a.len()]);
        }
    }
}

proof fn lemma_fill_runs_distinct(x0: int, y0: int, x: int, y: int, len: int, corners: u8, color: u16)
    requires
        fill_runs(x0, y0, x, y, len, corners, color) is Some,
        x >= 1,
    ensures
        no_repeat(fill_runs(x0, y0, x, y, len, corners, color)->0),
        forall|i: int|
            0 <= i < fill_runs(x0, y0, x, y, len, corners, color)->0.len() ==> col_off(
                #[trigger] fill_runs(x0, y0, x, y, len, corners, color)->0[i],
                x0,
            ) == x,
{
    let a = if corners & 1 != 0 {
        vline_pixels(x0 + x, y0 - y, len, color)
    } else {
        seq![]
    };
    let b = if corners & 2 != 0 {
        vline_pixels(x0 - x, y0 - y, len, color)
    } else {
        seq![]
    };
    let q = fill_runs(x0, y0, x, y, len, corners, color)->0;
    assert(q == a + b);
    assert(forall|i: int| 0 <= i < a.len() ==> (#[trigger] a[i]).0 == x0 + x);
    assert(forall|i: int| 0 <= i < b.len() ==> (#[trigger] b[i]).0 == x0 - x);
    assert(no_repeat(a));
    assert(no_repeat(b));
    assert forall|i: int, j: int| 0 <= i < a.len() && 0 <= j < b.len() implies #[trigger] a[i] != #[trigger] b[j] by {
        assert(a[i].0 == x0 + x && b[j].0 == x0 - x);
    }
    lemma_concat_no_repeat(a, b);
    assert forall|i: int| 0 <= i < q.len() implies col_off(#[trigger] q[i], x0) == x by {
        if i < a.len() {
            assert(q[i] == a[i]);
        } else {
            assert(q[i] == b[i - a.len()]);
        }
    }
}

proof fn lemma_fill_walk_distinct(x0: int, y0: int, s: MidState, corners: u8, delta: int, color: u16)
    requires
        fill_walk(x0, y0, mid_walk(s), s.3, s.4, corners, delta, color) is Some,
        s.3 >= 0,
    ensures
        no_repeat(fill_walk(x0, y0, mid_walk(s), s.3, s.4, corners, delta, color)->0),
        forall|i: int|
            0 <= i < fill_walk(x0, y0, mid_walk(s), s.3, s.4, corners, delta, color)->0.len() ==> s.3 < col_off(
                #[trigger] fill_walk(x0, y0, mid_walk(s), s.3, s.4, corners, delta, color)->0[i],
                x0,
            ) <= s.4,
    decreases (if s.3 < s.4 {
        s.4 - s.3
    } else {
        0
    }),
{
    let w = mid_walk(s);
    if s.3 < s.4 {
        let n = mid_step(s);
        assert(w[0] == n);
        assert(w.drop_first() == mid_walk(n));
        let x = n.3;
        let y = n.4;
        let px = s.3;
        let py = s.4;
        let a = if x < y + 1 {
            fill_runs(x0, y0, x, y, 2 * y + delta, corners, color)
        } else {
            Some(seq![])
        };
        let b = if y != py {
            fill_runs(x0, y0, py, px, 2 * px + delta, corners, color)
        } else {
            Some(seq![])
        };
        lemma_fill_walk_distinct(x0, y0, n, corners, delta, color);
        let rest = fill_walk(x0, y0, mid_walk(n), x, y, corners, delta, color);
        if x < y + 1 {
            lemma_fill_runs_distinct(x0, y0, x, y, 2 * y + delta, corners, color);
        }
        if y != py {
            lemma_fill_runs_distinct(x0, y0, py, px, 2 * px + delta, corners, color);
        }
        let qa = a->0;
        let qb = b->0;
        let qr = rest->0;
        let q = fill_walk(x0, y0, w, px, py, corners, delta, color)->0;
        assert(q == qa + qb + qr);
        assert(no_repeat(qa));
        assert(no_repeat(qb));
        assert forall|i: int, j: int| 0 <= i < qa.len() && 0 <= j < qb.len() implies #[trigger] qa[i] != #[trigger] qb[j] by {
            assert(col_off(qa[i], x0) == x && col_off(qb[j], x0) == py);
        }
        lemma_concat_no_repeat(qa, qb);
        let qab = qa + qb;
        assert forall|i: int, j: int| 0 <= i < qab.len() && 0 <= j < qr.len() implies #[trigger] qab[i] != #[trigger] qr[j] by {
            assert(x < col_off(qr[j], x0) <= y);
            if i < qa.len() {
                assert(qab[i] == qa[i]);
                assert(col_off(qa[i], x0) == x);
            } else {
                assert(qab[i] == qb[i - qa.len()]);
                assert(col_off(qb[i - qa.len()], x0) == py);
            }
        }
        lemma_concat_no_repeat(qab, qr);
        assert forall|i: int| 0 <= i < q.len() implies px < col_off(#[trigger] q[i], x0) <= py by {
            if i < qa.len() {
                assert(q[i] == qa[i]);
                assert(col_off(qa[i], x0) == x);
            } else if i < qa.len() + qb.len() {
                assert(q[i] == qb[i - qa.len()]);
                assert(col_off(qb[i - qa.len()], x0) == py);
            } else {
                assert(q[i] == qr[i - qa.len() - qb.len()]);
            }
        }
    } else {
        assert(w.len() == 0);
    }
}

/// `fill_circle_helper` draws no pixel twice, so inverse drawing flips
/// each pixel of the filled halves exactly once.
pub proof fn lemma_fill_circle_once(x0: int, y0: int, r: int, corners: u8, delta: int, color: u16)
    requires
        fill_circle_spec(x0, y0, r, corners, delta, color) is Some,
    ensures
        no_repeat(fill_circle_spec(x0, y0, r, corners, delta, color)->0),
{
    lemma_fill_walk_distinct(x0, y0, mid_start(r), corners, delta + 1, color);
}

/// Half of `v`, rounded toward zero as 16-bit division does.
pub open spec fn half(v: int) -> int {
    if v >= 0 {
        v / 2
    } else {
        -((-v) / 2)
    }
}

/// The corner radius of a rounded rectangle: `r`, at most half the minor axis.
pub open spec fn round_radius(w: int, h: int, r: int) -> int {
    let max_radius = half(if w < h {
        w
    } else {
        h
    });
    if r > max_radius {
        max_radius
    } else {
        r
    }
}

/// The four straight edges of a rounded rectangle with corner radius `r`.
pub open spec fn round_edges(x: int, y: int, w: int, h: int, r: int, color: u16) -> Seq<Pixel> {
    hline_pixels(x + r, y, w - 2 * r, color) + hline_pixels(x + r, y + h - 1, w - 2 * r, color)
        + vline_pixels(x, y + r, h - 2 * r, color) + vline_pixels(x + w - 1, y + r, h - 2 * r, color)
}

/// The four corner arcs of a rounded rectangle with corner radius `r`.
pub open spec fn round_corners(x: int, y: int, w: int, h: int, r: int, color: u16) -> Seq<Pixel> {
    let walk = mid_walk(mid_start(r));
    corner_ring(x + r, y + r, walk, 1, color) + corner_ring(x + w - r - 1, y + r, walk, 2, color)
        + corner_ring(x + w - r - 1, y + h - r - 1, walk, 4, color) + corner_ring(
        x + r,
        y + h - r - 1,
        walk,
        8,
        color,
    )
}

/// The pixels of a rounded rectangle outline: four straight edges, then
/// the four corner arcs.
pub open spec fn round_rect_pixels(x: int, y: int, w: int, h: int, r0: int, color: u16) -> Seq<Pixel> {
    let r = round_radius(w, h, r0);
    round_edges(x, y, w, h, r, color) + round_corners(x, y, w, h, r, color)
}

/// A rounded rectangle outline can be drawn without overflow.
pub open spec fn round_rect_ok(x: int, y: int, w: int, h: int, r0: int) -> bool {
    let r = round_radius(w, h, r0);
    &&& i16_fits(2 * r) && i16_fits(w - 2 * r) && i16_fits(h - 2 * r)
    &&& i16_fits(x + r) && i16_fits(y + r) && i16_fits(x + w) && i16_fits(y + h)
    &&& i16_fits(x + w - 1) && i16_fits(y + h - 1) && i16_fits(x + w - r) && i16_fits(y + h - r)
    &&& i16_fits(x + w - r - 1) && i16_fits(y + h - r - 1)
    &&& hline_ok(x + r, y, w - 2 * r) && hline_ok(x + r, y + h - 1, w - 2 * r)
    &&& vline_ok(x, y + r, h - 2 * r) && vline_ok(x + w - 1, y + r, h - 2 * r)
    &&& circle_ok(x + r, y + r, r) && circle_ok(x + w - r - 1, y + r, r)
    &&& circle_ok(x + w - r - 1, y + h - r - 1, r) && circle_ok(x + r, y + h - r - 1, r)
}

/// The pixels of a filled rounded rectangle: the middle band, then the
/// right and left rounded ends; `None` when the call would overflow.
pub open spec fn fill_round_rect_spec(x: int, y: int, w: int, h: int, r0: int, color: u16) -> Option<Seq<Pixel>> {
    let r = round_radius(w, h, r0);
    let right = fill_circle_spec(x + w - r - 1, y + r, r, 1, h - 2 * r - 1, color);
    let left = fill_circle_spec(x + r, y + r, r, 2, h - 2 * r - 1, color);
    if i16_fits(2 * r) && i16_fits(w - 2 * r) && i16_fits(h - 2 * r) && i16_fits(h - 2 * r - 1)
        && i16_fits(x + r) && i16_fits(y + r) && i16_fits(x + w) && i16_fits(x + w - r)
        && i16_fits(x + w - r - 1) && rect_ok(x + r, y, w - 2 * r, h) && right is Some && left is Some {
        Some(rect_pixels(x + r, y, w - 2 * r, h, color) + right->0 + left->0)
    } else {
        None
    }
}

/// Integer division rounded toward zero, for a positive divisor.
pub open spec fn tdiv(a: int, b: int) -> int {
    if a >= 0 {
        a / b
    } else {
        -((-a) / b)
    }
}

pub open spec fn min3(a: int, b: int, c: int) -> int {
    if a <= b && a <= c {
        a
    } else if b <= c {
        b
    } else {
        c
    }
}

pub open spec fn max3(a: int, b: int, c: int) -> int {
    if a >= b && a >= c {
        a
    } else if b >= c {
        b
    } else {
        c
    }
}

proof fn lemma_tdiv_bound(k: int, dx: int, d: int)
    requires
        0 <= k <= d,
        d > 0,
    ensures
        iabs(tdiv(k * dx, d)) <= iabs(dx),
{
    assert(iabs(k * dx) <= d * iabs(dx)) by (nonlinear_arith)
        requires
            0 <= k <= d,
    ;
    assert(iabs(k * dx) == k * iabs(dx)) by (nonlinear_arith)
        requires
            0 <= k,
    ;
    vstd::arithmetic::div_mod::lemma_div_is_ordered(iabs(k * dx), d * iabs(dx), d);
    vstd::arithmetic::div_mod::lemma_div_multiples_vanish(iabs(dx), d);
    vstd::arithmetic::div_mod::lemma_div_pos_is_pos(iabs(k * dx), d);
}

/// The corners sorted by row, top first, as three exchanges do it.
pub open spec fn tri_sort(x0: int, y0: int, x1: int, y1: int, x2: int, y2: int) -> (int, int, int, int, int, int) {
    let (ax0, ay0, ax1, ay1) = if y0 > y1 {
        (x1, y1, x0, y0)
    } else {
        (x0, y0, x1, y1)
    };
    let (bx1, by1, bx2, by2) = if ay1 > y2 {
        (x2, y2, ax1, ay1)
    } else {
        (ax1, ay1, x2, y2)
    };
    let (cx0, cy0, cx1, cy1) = if ay0 > by1 {
        (bx1, by1, ax0, ay0)
    } else {
        (ax0, ay0, bx1, by1)
    };
    (cx0, cy0, cx1, cy1, bx2, by2)
}

/// The run of row `y` between columns `ax` and `bx` (either order); its
/// width is taken modulo 2^16 as the 16-bit conversion does.
pub open spec fn span_pixels(ax: int, bx: int, y: int, color: u16) -> Seq<Pixel> {
    let (a, b) = if ax > bx {
        (bx, ax)
    } else {
        (ax, bx)
    };
    hline_pixels(a, y, (b - a + 1) as i16 as int, color)
}

/// The run of row `y` can be drawn without overflow.
pub open spec fn span_ok(ax: int, bx: int, y: int) -> bool {
    let (a, b) = if ax > bx {
        (bx, ax)
    } else {
        (ax, bx)
    };
    i16_fits(a) && hline_ok(a, y, (b - a + 1) as i16 as int)
}

/// The two edge crossings of row `y` of the sorted triangle.
pub open spec fn tri_cross(t: (int, int, int, int, int, int), y: int) -> (int, int) {
    let (x0, y0, x1, y1, x2, y2) = t;
    let b = x0 + tdiv((y - y0) * (x2 - x0), y2 - y0);
    let a = if y < y1 || (y1 == y2 && y == y1) {
        x0 + tdiv((y - y0) * (x1 - x0), y1 - y0)
    } else {
        x1 + tdiv((y - y1) * (x2 - x1), y2 - y1)
    };
    (a, b)
}

/// The rows `y0` to `y0 + n - 1` of the sorted triangle, top to bottom.
pub open spec fn tri_rows(t: (int, int, int, int, int, int), n: nat, color: u16) -> Seq<Pixel>
    decreases n,
{
    if n == 0 {
        seq![]
    } else {
        let y = t.1 + n - 1;
        tri_rows(t, (n - 1) as nat, color) + span_pixels(tri_cross(t, y).0, tri_cross(t, y).1, y, color)
    }
}

/// The pixels of a filled triangle, one row run at a time from top to bottom.
pub open spec fn fill_triangle_pixels(x0: int, y0: int, x1: int, y1: int, x2: int, y2: int, color: u16) -> Seq<Pixel> {
    let t = tri_sort(x0, y0, x1, y1, x2, y2);
    let (sx0, sy0, sx1, sy1, sx2, sy2) = t;
    if sy0 == sy2 {
        hline_pixels(min3(sx0, sx1, sx2), sy0, max3(sx0, sx1, sx2) - min3(sx0, sx1, sx2) + 1, color)
    } else {
        tri_rows(t, (sy2 - sy0 + 1) as nat, color)
    }
}

/// `u` is the sorted triangle `t` with two corners of equal height
/// exchanged (or `t` itself): the same triangle, corners in another order.
pub open spec fn same_sorted(t: (int, int, int, int, int, int), u: (int, int, int, int, int, int)) -> bool {
    ||| u == t
    ||| t.1 == t.3 && u == (t.2, t.3, t.0, t.1, t.4, t.5)
    ||| t.3 == t.5 && u == (t.0, t.1, t.4, t.5, t.2, t.3)
}

proof fn lemma_span_either_way(a: int, b: int, y: int, color: u16)
    ensures
        span_pixels(a, b, y, color) == span_pixels(b, a, y, color),
{
}

proof fn lemma_rows_same(t: (int, int, int, int, int, int), u: (int, int, int, int, int, int), n: nat, color: u16)
    requires
        same_sorted(t, u),
        t.1 < t.5,
        t.1 <= t.3 <= t.5,
        t.1 + n <= t.5 + 1,
    ensures
        tri_rows(u, n, color) == tri_rows(t, n, color),
    decreases n,
{
    if n > 0 {
        lemma_rows_same(t, u, (n - 1) as nat, color);
        let y = t.1 + n - 1;
        let (a, b) = tri_cross(t, y);
        assert(tri_cross(u, y) == (a, b) || tri_cross(u, y) == (b, a));
        lemma_span_either_way(a, b, y, color);
    }
}

proof fn lemma_triangle_sorted(t: (int, int, int, int, int, int), u: (int, int, int, int, int, int), color: u16)
    requires
        same_sorted(t, u),
        t.1 <= t.3 <= t.5,
    ensures
        ({
            let (sx0, sy0, sx1, sy1, sx2, sy2) = t;
            let (ux0, uy0, ux1, uy1, ux2, uy2) = u;
            (if uy0 == uy2 {
                hline_pixels(min3(ux0, ux1, ux2), uy0, max3(ux0, ux1, ux2) - min3(ux0, ux1, ux2) + 1, color)
            } else {
                tri_rows(u, (uy2 - uy0 + 1) as nat, color)
            }) == (if sy0 == sy2 {
                hline_pixels(min3(sx0, sx1, sx2), sy0, max3(sx0, sx1, sx2) - min3(sx0, sx1, sx2) + 1, color)
            } else {
                tri_rows(t, (sy2 - sy0 + 1) as nat, color)
            })
        }),
{
    if t.1 != t.5 {
        lemma_rows_same(t, u, (t.5 - t.1 + 1) as nat, color);
    }
}

proof fn lemma_triangle_swap01(x0: int, y0: int, x1: int, y1: int, x2: int, y2: int, color: u16)
    ensures
        fill_triangle_pixels(x0, y0, x1, y1, x2, y2, color) == fill_triangle_pixels(x1, y1, x0, y0, x2, y2, color),
{
    let t = tri_sort(x0, y0, x1, y1, x2, y2);
    let u = tri_sort(x1, y1, x0, y0, x2, y2);
    assert(same_sorted(t, u));
    lemma_triangle_sorted(t, u, color);
}

proof fn lemma_triangle_swap12(x0: int, y0: int, x1: int, y1: int, x2: int, y2: int, color: u16)
    ensures
        fill_triangle_pixels(x0, y0, x1, y1, x2, y2, color) == fill_triangle_pixels(x0, y0, x2, y2, x1, y1, color),
{
    let t = tri_sort(x0, y0, x1, y1, x2, y2);
    let u = tri_sort(x0, y0, x2, y2, x1, y1);
    assert(same_sorted(t, u));
    lemma_triangle_sorted(t, u, color);
}

/// A filled triangle is the same, pixel for pixel and in the same order,
/// whichever order its corners are given in.
pub proof fn lemma_fill_triangle_any_order(x0: int, y0: int, x1: int, y1: int, x2: int, y2: int, color: u16)
    ensures
        fill_triangle_pixels(x1, y1, x0, y0, x2, y2, color) == fill_triangle_pixels(x0, y0, x1, y1, x2, y2, color),
        fill_triangle_pixels(x0, y0, x2, y2, x1, y1, color) == fill_triangle_pixels(x0, y0, x1, y1, x2, y2, color),
        fill_triangle_pixels(x1, y1, x2, y2, x0, y0, color) == fill_triangle_pixels(x0, y0, x1, y1, x2, y2, color),
        fill_triangle_pixels(x2, y2, x0, y0, x1, y1, color) == fill_triangle_pixels(x0, y0, x1, y1, x2, y2, color),
        fill_triangle_pixels(x2, y2, x1, y1, x0, y0, color) == fill_triangle_pixels(x0, y0, x1, y1, x2, y2, color),
{
    lemma_triangle_swap01(x0, y0, x1, y1, x2, y2, color);
    lemma_triangle_swap12(x0, y0, x1, y1, x2, y2, color);
    lemma_triangle_swap12(x1, y1, x0, y0, x2, y2, color);
    lemma_triangle_swap01(x0, y0, x2, y2, x1, y1, color);
    lemma_triangle_swap01(x1, y1, x2, y2, x0, y0, color);
}

/// A filled triangle can be drawn without overflow.
pub open spec fn fill_triangle_ok(x0: int, y0: int, x1: int, y1: int, x2: int, y2: int) -> bool {
    let t = tri_sort(x0, y0, x1, y1, x2, y2);
    let (sx0, sy0, sx1, sy1, sx2, sy2) = t;
    let bound = 0x8000_0000int;
    if sy0 == sy2 {
        let lo = min3(sx0, sx1, sx2);
        let hi = max3(sx0, sx1, sx2);
        i16_fits(hi - lo) && i16_fits(hi - lo + 1) && hline_ok(lo, sy0, hi - lo + 1)
    } else {
        &&& sy2 < 32767
        &&& i16_fits(sy2 - sy0)
        &&& sy1 != sy2 ==> sy1 > i16::MIN
        &&& sy1 == sy2 ==> i16_fits(sy2 - sy0 + 1)
        &&& i16_fits(sx1 - sx0) && i16_fits(sx2 - sx0) && i16_fits(sx2 - sx1)
        &&& (sy2 - sy0 + 1) * iabs(sx1 - sx0) < bound
        &&& (sy2 - sy0 + 1) * iabs(sx2 - sx0) < bound
        &&& (sy2 - sy0 + 1) * iabs(sx2 - sx1) < bound
        &&& forall|y: int|
            sy0 <= y <= sy2 ==> #[trigger] span_ok(tri_cross(t, y).0, tri_cross(t, y).1, y)
    }
}

/// How a bitmap is turned into pixels.
#[derive(Clone, Copy, PartialEq, Eq, Structural)]
pub enum BlitKind {
    /// 1-bit rows, most significant bit first; set bits drawn in the color, clear bits skipped.
    Mono,
    /// 1-bit rows, most significant bit first; set bits in the color, clear bits in the background.
    MonoBg,
    /// 1-bit rows, least significant bit first (XBM); set bits drawn, clear bits skipped.
    XMono,
    /// 8-bit grayscale values, one byte per pixel.
    Gray,
    /// 8-bit grayscale values, drawn where the 1-bit mask is set.
    GrayMasked,
    /// 16-bit colors, one word per pixel.
    Rgb,
    /// 16-bit colors, drawn where the 1-bit mask is set.
    RgbMasked,
}

/// Bit `i` of row `j` of a 1-bit image whose rows are `bw` bytes long,
/// most significant bit first.
pub open spec fn msb_bit(bits: Seq<u8>, bw: int, i: int, j: int) -> bool {
    bits[j * bw + i / 8] & (0x80u8 >> ((i % 8) as u8)) != 0
}

/// Bit `i` of row `j`, least significant bit first.
pub open spec fn lsb_bit(bits: Seq<u8>, bw: int, i: int, j: int) -> bool {
    bits[j * bw + i / 8] & (1u8 << ((i % 8) as u8)) != 0
}

/// Bytes in one row of a 1-bit image `w` pixels wide.
pub open spec fn row_bytes(w: int) -> int {
    (w + 7) / 8
}

/// The kinds that read a 1-bit stream (the image itself or its mask).
pub open spec fn uses_bits(kind: BlitKind) -> bool {
    kind != BlitKind::Gray && kind != BlitKind::Rgb
}

/// The pixels that position (i, j) of the image gives at (x + i, y + j).
pub open spec fn blit_pixel(
    kind: BlitKind,
    data8: Seq<u8>,
    data16: Seq<u16>,
    mask: Seq<u8>,
    w: int,
    i: int,
    j: int,
    x: int,
    y: int,
    color: u16,
    bg: u16,
) -> Seq<Pixel> {
    let bw = row_bytes(w);
    let p = (x + i, y + j);
    match kind {
        BlitKind::Mono => if msb_bit(data8, bw, i, j) {
            seq![(p.0, p.1, color)]
        } else {
            seq![]
        },
        BlitKind::MonoBg => seq![(p.0, p.1, if msb_bit(data8, bw, i, j) {
            color
        } else {
            bg
        })],
        BlitKind::XMono => if lsb_bit(data8, bw, i, j) {
            seq![(p.0, p.1, color)]
        } else {
            seq![]
        },
        BlitKind::Gray => seq![(p.0, p.1, data8[j * w + i] as u16)],
        BlitKind::GrayMasked => if msb_bit(mask, bw, i, j) {
            seq![(p.0, p.1, data8[j * w + i] as u16)]
        } else {
            seq![]
        },
        BlitKind::Rgb => seq![(p.0, p.1, data16[j * w + i])],
        BlitKind::RgbMasked => if msb_bit(mask, bw, i, j) {
            seq![(p.0, p.1, data16[j * w + i])]
        } else {
            seq![]
        },
    }
}

/// The pixels of positions 0 to n - 1 of row `j`, left to right.
pub open spec fn blit_row(
    kind: BlitKind,
    data8: Seq<u8>,
    data16: Seq<u16>,
    mask: Seq<u8>,
    w: int,
    j: int,
    n: nat,
    x: int,
    y: int,
    color: u16,
    bg: u16,
) -> Seq<Pixel>
    decreases n,
{
    if n == 0 {
        seq![]
    } else {
        blit_row(kind, data8, data16, mask, w, j, (n - 1) as nat, x, y, color, bg) + blit_pixel(
            kind,
            data8,
            data16,
            mask,
            w,
            n - 1,
            j,
            x,
            y,
            color,
            bg,
        )
    }
}

/// The pixels of rows 0 to m - 1 of an image `w` wide, top to bottom.
pub open spec fn blit_rows(
    kind: BlitKind,
    data8: Seq<u8>,
    data16: Seq<u16>,
    mask: Seq<u8>,
    w: int,
    m: nat,
    x: int,
    y: int,
    color: u16,
    bg: u16,
) -> Seq<Pixel>
    decreases m,
{
    if m == 0 {
        seq![]
    } else {
        blit_rows(kind, data8, data16, mask, w, (m - 1) as nat, x, y, color, bg) + blit_row(
            kind,
            data8,
            data16,
            mask,
            w,
            m - 1,
            if w > 0 {
                w as nat
            } else {
                0
            },
            x,
            y,
            color,
            bg,
        )
    }
}

/// The pixels of a `w` x `h` image drawn at (x, y), row by row.
pub open spec fn blit_pixels(
    kind: BlitKind,
    data8: Seq<u8>,
    data16: Seq<u16>,
    mask: Seq<u8>,
    x: int,
    y: int,
    w: int,
    h: int,
    color: u16,
    bg: u16,
) -> Seq<Pixel> {
    if h <= 0 {
        seq![]
    } else {
        blit_rows(kind, data8, data16, mask, w, h as nat, x, y, color, bg)
    }
}

/// The image fits its buffers and can be drawn at (x, y) without overflow.
pub open spec fn blit_ok(
    kind: BlitKind,
    data8: Seq<u8>,
    data16: Seq<u16>,
    mask: Seq<u8>,
    x: int,
    y: int,
    w: int,
    h: int,
) -> bool {
    let bits = if kind == BlitKind::GrayMasked || kind == BlitKind::RgbMasked {
        mask
    } else {
        data8
    };
    &&& uses_bits(kind) ==> i16_fits(w + 7)
    &&& h > 0 ==> i16_fits(y + h)
    &&& w > 0 ==> i16_fits(x + w - 1)
    &&& (w > 0 && h > 0 && uses_bits(kind)) ==> (h - 1) * row_bytes(w) + (w - 1) / 8 < bits.len()
    &&& (w > 0 && h > 0 && (kind == BlitKind::Gray || kind == BlitKind::GrayMasked)) ==> h * w <= data8.len()
    &&& (w > 0 && h > 0 && (kind == BlitKind::Rgb || kind == BlitKind::RgbMasked)) ==> h * w <= data16.len()
}

fn uses_bits_exec(kind: BlitKind) -> (r: bool)
    ensures
        r == uses_bits(kind),
{
    kind != BlitKind::Gray && kind != BlitKind::Rgb
}

proof fn lemma_shift_bits(b: u8, s: u8)
    requires
        s < 8,
    ensures
        (((b as u32) << (s as u32)) as u8) & 0x80 != 0 <==> b & (0x80u8 >> s) != 0,
        (((((b as u32) << (s as u32)) as u8) as u32) << 1u32) as u8 == (((b as u32) << ((s + 1) as u32)) as u8),
        (b >> s) & 1 != 0 <==> b & (1u8 << s) != 0,
        (b >> s) >> 1u8 == b >> ((s + 1) as u8),
{
    assert((((b as u32) << (s as u32)) as u8) & 0x80 != 0 <==> b & (0x80u8 >> s) != 0) by (bit_vector)
        requires
            s < 8,
    ;
    assert((((((b as u32) << (s as u32)) as u8) as u32) << 1u32) as u8 == (((b as u32) << ((s + 1) as u32)) as u8))
        by (bit_vector)
        requires
            s < 8,
    ;
    assert((b >> s) & 1 != 0 <==> b & (1u8 << s) != 0) by (bit_vector)
        requires
            s < 8,
    ;
    assert((b >> s) >> 1u8 == b >> ((s + 1) as u8)) by (bit_vector)
        requires
            s < 8,
    ;
}

/// The built-in 5x7 font. This library ships no glyph data for it, so every
/// column of a built-in glyph reads as blank.
pub const BUILTIN_FONT: [u8; 0] = [];

/// Column `i` of the built-in glyph for character `c`.
pub open spec fn font_column(c: u8, i: int) -> u8 {
    if 0 <= c * 5 + i < BUILTIN_FONT@.len() {
        BUILTIN_FONT@[c * 5 + i]
    } else {
        0
    }
}

/// Both parts, when both can be drawn.
pub open spec fn opt_cat(a: Option<Seq<Pixel>>, b: Option<Seq<Pixel>>) -> Option<Seq<Pixel>> {
    if a is Some && b is Some {
        Some(a->0 + b->0)
    } else {
        None
    }
}

/// One text cell at (px, py): a single pixel at size 1x1, else an `sx` x `sy` block.
pub open spec fn text_cell(px: int, py: int, sx: int, sy: int, color: u16) -> Option<Seq<Pixel>> {
    if sx == 1 && sy == 1 {
        if i16_fits(px) && i16_fits(py) {
            Some(seq![(px, py, color)])
        } else {
            None
        }
    } else if i16_fits(px) && i16_fits(py) && rect_ok(px, py, sx, sy) {
        Some(rect_pixels(px, py, sx, sy, color))
    } else {
        None
    }
}

/// Cells 0 to t - 1 of a built-in glyph, column by column, each column top to bottom.
pub open spec fn classic_cells(x: int, y: int, c: u8, color: u16, bg: u16, sx: int, sy: int, t: nat) -> Option<Seq<Pixel>>
    decreases t,
{
    if t == 0 {
        Some(seq![])
    } else {
        let k = t - 1;
        let i = k / 8;
        let j = k % 8;
        let px = x + i * sx;
        let py = y + j * sy;
        let cell = if (font_column(c, i) >> (j as u8)) & 1 != 0 {
            text_cell(px, py, sx, sy, color)
        } else if bg != color {
            text_cell(px, py, sx, sy, bg)
        } else {
            Some(seq![])
        };
        opt_cat(classic_cells(x, y, c, color, bg, sx, sy, (t - 1) as nat), cell)
    }
}

/// The pixels of a built-in glyph; `None` when drawing it would overflow.
pub open spec fn classic_char(x: int, y: int, c: u8, color: u16, bg: u16, sx: int, sy: int) -> Option<Seq<Pixel>> {
    let last = if bg == color {
        Some(seq![])
    } else if sx == 1 && sy == 1 {
        if vline_ok(x + 5, y, 8) && i16_fits(x + 5) {
            Some(vline_pixels(x + 5, y, 8, bg))
        } else {
            None
        }
    } else if i16_fits(x + 5 * sx) && i16_fits(8 * sy) && rect_ok(x + 5 * sx, y, sx, 8 * sy) {
        Some(rect_pixels(x + 5 * sx, y, sx, 8 * sy, bg))
    } else {
        None
    };
    opt_cat(classic_cells(x, y, c, color, bg, sx, sy, 40), last)
}

/// Bit `n` of a glyph's bitmap starting at byte `off`, most significant bit first.
pub open spec fn glyph_bit(bitmap: Seq<u8>, off: int, n: int) -> bool {
    bitmap[off + n / 8] & (0x80u8 >> ((n % 8) as u8)) != 0
}

/// Pixels 0 to n - 1 of a custom-font glyph, row by row.
pub open spec fn glyph_cells(
    x: int,
    y: int,
    g: GFXglyph,
    bitmap: Seq<u8>,
    color: u16,
    sx: int,
    sy: int,
    n: nat,
) -> Option<Seq<Pixel>>
    decreases n,
{
    if n == 0 {
        Some(seq![])
    } else {
        let k = n - 1;
        let w = g.width as int;
        let xx = k % w;
        let yy = k / w;
        let big = sx > 1 || sy > 1;
        let xo16 = if big {
            g.x_offset as int
        } else {
            0
        };
        let yo16 = if big {
            g.y_offset as int
        } else {
            0
        };
        let cell = if glyph_bit(bitmap, g.bitmap_offset as int, k) {
            if sx == 1 && sy == 1 {
                if i16_fits(x + g.x_offset) && i16_fits(y + g.y_offset) {
                    text_cell(x + g.x_offset + xx, y + g.y_offset + yy, 1, 1, color)
                } else {
                    None
                }
            } else if i16_fits(xo16 + xx) && i16_fits(yo16 + yy) && i16_fits((xo16 + xx) * sx) && i16_fits(
                (yo16 + yy) * sy,
            ) {
                text_cell(x + (xo16 + xx) * sx, y + (yo16 + yy) * sy, sx, sy, color)
            } else {
                None
            }
        } else {
            Some(seq![])
        };
        opt_cat(glyph_cells(x, y, g, bitmap, color, sx, sy, (n - 1) as nat), cell)
    }
}

/// Index of character `c` in a font whose first character is `first`, with
/// 8-bit wrap-around.
pub open spec fn glyph_index(c: u8, first: u16) -> int {
    let f = (first % 256) as int;
    if c >= f {
        c - f
    } else {
        c - f + 256
    }
}

/// The glyph of character `c` in a custom font, when the font has it.
pub open spec fn font_glyph(font: GFXfont, c: u8) -> Option<GFXglyph> {
    let ci = glyph_index(c, font.first);
    if ci < font.glyph@.len() {
        Some(font.glyph@[ci])
    } else {
        None
    }
}

/// The pixels of a custom-font glyph; `None` when drawing it would overflow
/// or read outside the font.
pub open spec fn custom_char(x: int, y: int, font: GFXfont, c: u8, color: u16, sx: int, sy: int) -> Option<Seq<Pixel>> {
    match font_glyph(font, c) {
        Some(g) => {
            let n = g.width as int * g.height as int;
            if n <= 255 && (n > 0 ==> g.bitmap_offset as int + (n - 1) / 8 < font.bitmap@.len()) {
                glyph_cells(x, y, g, font.bitmap@, color, sx, sy, n as nat)
            } else {
                None
            }
        },
        None => None,
    }
}

/// What `draw_char_xy` draws for the context `gfx`; `None` when the call
/// would overflow or read outside the font.
pub open spec fn char_pixels(gfx: Adafruit_GFX, x: int, y: int, c: u8, color: u16, bg: u16, sx: u8, sy: u8) -> Option<Seq<Pixel>> {
    match gfx.gfx_font {
        None => {
            if x >= gfx._width || y >= gfx._height {
                Some(seq![])
            } else if !(i16_fits(x + 6 * sx) && i16_fits(x + 6 * sx - 1)) {
                None
            } else if x + 6 * sx - 1 < 0 {
                Some(seq![])
            } else if !(i16_fits(y + 8 * sy) && i16_fits(y + 8 * sy - 1)) {
                None
            } else if y + 8 * sy - 1 < 0 {
                Some(seq![])
            } else {
                let cc: u8 = if !gfx._cp437 && c >= 176 {
                    if c == 255 {
                        0
                    } else {
                        (c + 1) as u8
                    }
                } else {
                    c
                };
                classic_char(x, y, cc, color, bg, sx as int, sy as int)
            }
        },
        Some(font) => custom_char(x, y, *font, c, color, sx as int, sy as int),
    }
}

proof fn lemma_classic_prefix(x: int, y: int, c: u8, color: u16, bg: u16, sx: int, sy: int, t1: nat, t2: nat)
    requires
        t1 <= t2,
        classic_cells(x, y, c, color, bg, sx, sy, t2) is Some,
    ensures
        classic_cells(x, y, c, color, bg, sx, sy, t1) is Some,
    decreases t2,
{
    if t1 < t2 {
        lemma_classic_prefix(x, y, c, color, bg, sx, sy, t1, (t2 - 1) as nat);
    }
}

proof fn lemma_glyph_prefix(x: int, y: int, g: GFXglyph, bitmap: Seq<u8>, color: u16, sx: int, sy: int, n1: nat, n2: nat)
    requires
        n1 <= n2,
        glyph_cells(x, y, g, bitmap, color, sx, sy, n2) is Some,
    ensures
        glyph_cells(x, y, g, bitmap, color, sx, sy, n1) is Some,
    decreases n2,
{
    if n1 < n2 {
        lemma_glyph_prefix(x, y, g, bitmap, color, sx, sy, n1, (n2 - 1) as nat);
    }
}

/// The state of a graphics context just made for a `w` x `h` display:
/// no rotation, cursor at the origin, white text of size 1 with a
/// transparent background, wrapping on, the classic font.
pub open spec fn fresh_gfx(r: Adafruit_GFX, w: i16, h: i16) -> bool {
    &&& r.WIDTH == w
    &&& r.HEIGHT == h
    &&& r._width == w
    &&& r._height == h
    &&& r.rotation == 0
    &&& r.cursor_x == 0
    &&& r.cursor_y == 0
    &&& r.textsize_x == 1
    &&& r.textsize_y == 1
    &&& r.textcolor == 0xFFFF
    &&& r.textbgcolor == 0xFFFF
    &&& r.wrap
    &&& !r._cp437
    &&& r.gfx_font.is_none()
}

/// The graphics context: screen geometry, rotation, text cursor and style.
pub struct Adafruit_GFX {
    /// The 'raw' display width, which never changes.
    pub WIDTH: i16,
    /// The 'raw' display height, which never changes.
    pub HEIGHT: i16,
    /// Display width as modified by the current rotation.
    pub _width: i16,
    /// Display height as modified by the current rotation.
    pub _height: i16,
    /// x location to start printing text.
    pub cursor_x: i16,
    /// y location to start printing text.
    pub cursor_y: i16,
    /// 16-bit text color.
    pub textcolor: u16,
    /// 16-bit text background color.
    pub textbgcolor: u16,
    /// Magnification of text in the x axis.
    pub textsize_x: u8,
    /// Magnification of text in the y axis.
    pub textsize_y: u8,
    /// Display rotation (0 thru 3).
    pub rotation: u8,
    /// Wrap text at the right edge of the display.
    pub wrap: bool,
    /// Use the correct CP437 charset.
    pub _cp437: bool,
    /// Custom font, if any.
    pub gfx_font: Option<&'static GFXfont>,
}

/// What writing character `c` does with the context `g`: the new cursor
/// position and the pixels drawn; `None` when it would overflow or read
/// outside the font.
pub open spec fn write_spec(g: Adafruit_GFX, c: u8) -> Option<(int, int, Seq<Pixel>)> {
    let cx = g.cursor_x as int;
    let cy = g.cursor_y as int;
    let tx = g.textsize_x as int;
    let ty = g.textsize_y as int;
    match g.gfx_font {
        None => {
            if c == 10 {
                if i16_fits(cy + ty * 8) {
                    Some((0, cy + ty * 8, seq![]))
                } else {
                    None
                }
            } else if c == 13 {
                Some((cx, cy, seq![]))
            } else if g.wrap && !i16_fits(cx + tx * 6) {
                None
            } else {
                let wrapped = g.wrap && cx + tx * 6 > g._width;
                let x1 = if wrapped {
                    0
                } else {
                    cx
                };
                let y1 = if wrapped {
                    cy + ty * 8
                } else {
                    cy
                };
                let p = char_pixels(g, x1, y1, c, g.textcolor, g.textbgcolor, g.textsize_x, g.textsize_y);
                if i16_fits(y1) && i16_fits(x1 + tx * 6) && p is Some {
                    Some((x1 + tx * 6, y1, p->0))
                } else {
                    None
                }
            }
        },
        Some(font) => {
            let ya = font.y_advance as int;
            let first = (font.first % 256) as int;
            let last = (font.last % 256) as int;
            if !i16_fits(ty * ya) {
                None
            } else if c == 10 {
                if i16_fits(cy + ty * ya) {
                    Some((0, cy + ty * ya, seq![]))
                } else {
                    None
                }
            } else if c == 13 || c < first || c > last {
                Some((cx, cy, seq![]))
            } else if c - first >= font.glyph@.len() {
                None
            } else {
                let gl = font.glyph@[c - first];
                let xa = gl.x_advance as int;
                let span = gl.x_offset as int + gl.width as int;
                if gl.width > 0 && gl.height > 0 {
                    if g.wrap && !(i16_fits(tx * span) && i16_fits(cx + tx * span)) {
                        None
                    } else {
                        let wrapped = g.wrap && cx + tx * span > g._width;
                        let x1 = if wrapped {
                            0
                        } else {
                            cx
                        };
                        let y1 = if wrapped {
                            cy + ty * ya
                        } else {
                            cy
                        };
                        let p = char_pixels(g, x1, y1, c, g.textcolor, g.textbgcolor, g.textsize_x, g.textsize_y);
                        if i16_fits(y1) && i16_fits(xa * tx) && i16_fits(x1 + xa * tx) && p is Some {
                            Some((x1 + xa * tx, y1, p->0))
                        } else {
                            None
                        }
                    }
                } else if i16_fits(xa * tx) && i16_fits(cx + xa * tx) {
                    Some((cx + xa * tx, cy, seq![]))
                } else {
                    None
                }
            }
        },
    }
}

/// The height of a text line in `g`'s font: 8 rows for the built-in
/// font, the font's own line advance otherwise.
pub open spec fn line_height(g: Adafruit_GFX) -> int {
    match g.gfx_font {
        None => 8,
        Some(font) => font.y_advance as int,
    }
}

/// Writing a newline draws nothing, returns the cursor to the left edge
/// and moves it down one line (the text scale times the line height),
/// whatever the font; a carriage return draws nothing and leaves the
/// cursor where it is.
pub proof fn lemma_write_newline(g: Adafruit_GFX)
    ensures
        write_spec(g, 10) matches Some((x, y, drawn)) ==> x == 0 && y == g.cursor_y + g.textsize_y * line_height(g)
            && drawn.len() == 0,
        write_spec(g, 13) matches Some((x, y, drawn)) ==> x == g.cursor_x && y == g.cursor_y && drawn.len() == 0,
{
}

/// The running state of a text-bounds computation: pen position and the
/// extremes seen so far.
pub type Bounds = (int, int, int, int, int, int);

/// The state after measuring character `c` with the context `g`; `None`
/// when the arithmetic would overflow or the glyph lies outside the font.
pub open spec fn bounds_step(g: Adafruit_GFX, c: u8, st: Bounds) -> Option<Bounds> {
    let (x, y, minx, miny, maxx, maxy) = st;
    let tx = g.textsize_x as int;
    let ty = g.textsize_y as int;
    match g.gfx_font {
        Some(font) => {
            let ya = font.y_advance as int;
            let first = (font.first % 256) as int;
            let last = (font.last % 256) as int;
            if c == 10 {
                if i16_fits(ty * ya) && i16_fits(y + ty * ya) {
                    Some((0, y + ty * ya, minx, miny, maxx, maxy))
                } else {
                    None
                }
            } else if c == 13 || c < first || c > last {
                Some(st)
            } else if c - first >= font.glyph@.len() {
                None
            } else {
                let gl = font.glyph@[c - first];
                let span = gl.x_offset as int + gl.width as int;
                let wrap_ok = !g.wrap || (i16_fits(span * tx) && i16_fits(x + span * tx));
                let wrapped = g.wrap && x + span * tx > g._width;
                let nx = if wrapped {
                    0
                } else {
                    x
                };
                let ny = if wrapped {
                    y + ty * ya
                } else {
                    y
                };
                let x1 = nx + gl.x_offset * tx;
                let y1 = ny + gl.y_offset * ty;
                let x2 = x1 + gl.width * tx - 1;
                let y2 = y1 + gl.height * ty - 1;
                let xa = gl.x_advance * tx;
                if wrap_ok && (wrapped ==> i16_fits(ty * ya) && i16_fits(y + ty * ya)) && i16_fits(
                    gl.x_offset * tx,
                ) && i16_fits(gl.y_offset * ty) && i16_fits(x1) && i16_fits(y1) && i16_fits(gl.width * tx)
                    && i16_fits(gl.height * ty) && i16_fits(x2 + 1) && i16_fits(x2) && i16_fits(y2 + 1)
                    && i16_fits(y2) && i16_fits(xa) && i16_fits(nx + xa) {
                    Some(
                        (
                            nx + xa,
                            ny,
                            if x1 < minx {
                                x1
                            } else {
                                minx
                            },
                            if y1 < miny {
                                y1
                            } else {
                                miny
                            },
                            if x2 > maxx {
                                x2
                            } else {
                                maxx
                            },
                            if y2 > maxy {
                                y2
                            } else {
                                maxy
                            },
                        ),
                    )
                } else {
                    None
                }
            }
        },
        None => {
            if c == 10 {
                if i16_fits(y + ty * 8) {
                    Some((0, y + ty * 8, minx, miny, maxx, maxy))
                } else {
                    None
                }
            } else if c == 13 {
                Some(st)
            } else {
                let wrap_ok = !g.wrap || i16_fits(x + tx * 6);
                let wrapped = g.wrap && x + tx * 6 > g._width;
                let nx = if wrapped {
                    0
                } else {
                    x
                };
                let ny = if wrapped {
                    y + ty * 8
                } else {
                    y
                };
                let x2 = nx + tx * 6 - 1;
                let y2 = ny + ty * 8 - 1;
                if wrap_ok && i16_fits(ny) && i16_fits(nx + tx * 6) && i16_fits(ny + ty * 8) && i16_fits(x2)
                    && i16_fits(y2) {
                    Some(
                        (
                            nx + tx * 6,
                            ny,
                            if nx < minx {
                                nx
                            } else {
                                minx
                            },
                            if ny < miny {
                                ny
                            } else {
                                miny
                            },
                            if x2 > maxx {
                                x2
                            } else {
                                maxx
                            },
                            if y2 > maxy {
                                y2
                            } else {
                                maxy
                            },
                        ),
                    )
                } else {
                    None
                }
            }
        },
    }
}

/// With the built-in font, measuring a character from the cursor moves
/// the pen exactly where writing it moves the cursor, and the box only
/// grows.
pub proof fn lemma_bounds_follow_write(g: Adafruit_GFX, c: u8, st: Bounds)
    requires
        g.gfx_font is None,
        st.0 == g.cursor_x,
        st.1 == g.cursor_y,
        bounds_step(g, c, st) is Some,
        write_spec(g, c) is Some,
    ensures
        ({
            let b = bounds_step(g, c, st)->0;
            let w = write_spec(g, c)->0;
            &&& b.0 == w.0
            &&& b.1 == w.1
            &&& b.2 <= st.2
            &&& b.3 <= st.3
            &&& b.4 >= st.4
            &&& b.5 >= st.5
        }),
{
}

/// The state after measuring the first `n` bytes of `text`.
pub open spec fn bounds_fold(g: Adafruit_GFX, text: Seq<u8>, n: nat, st: Bounds) -> Option<Bounds>
    decreases n,
{
    if n == 0 {
        Some(st)
    } else {
        match bounds_fold(g, text, (n - 1) as nat, st) {
            Some(prev) => bounds_step(g, text[n - 1], prev),
            None => None,
        }
    }
}

/// The bounding box (x, y, w, h) that `get_text_bounds` reports for `text`
/// printed from (x, y); `None` when the computation would overflow.
pub open spec fn text_bounds(g: Adafruit_GFX, text: Seq<u8>, x: int, y: int) -> Option<(int, int, int, int)> {
    match bounds_fold(g, text, text.len(), (x, y, g._width as int, g._height as int, -1, -1)) {
        Some((_, _, minx, miny, maxx, maxy)) => {
            if (maxx >= minx ==> i16_fits(maxx - minx) && i16_fits(maxx - minx + 1)) && (maxy >= miny
                ==> i16_fits(maxy - miny) && i16_fits(maxy - miny + 1)) {
                Some(
                    (
                        if maxx >= minx {
                            minx
                        } else {
                            x
                        },
                        if maxy >= miny {
                            miny
                        } else {
                            y
                        },
                        if maxx >= minx {
                            maxx - minx + 1
                        } else {
                            0
                        },
                        if maxy >= miny {
                            maxy - miny + 1
                        } else {
                            0
                        },
                    ),
                )
            } else {
                None
            }
        },
        None => None,
    }
}

proof fn lemma_bounds_prefix(g: Adafruit_GFX, text: Seq<u8>, n1: nat, n2: nat, st: Bounds)
    requires
        n1 <= n2,
        bounds_fold(g, text, n2, st) is Some,
    ensures
        bounds_fold(g, text, n1, st) is Some,
    decreases n2,
{
    if n1 < n2 {
        lemma_bounds_prefix(g, text, n1, (n2 - 1) as nat, st);
    }
}

impl Adafruit_GFX {
    /// A graphics context for a `w` x `h` display.
    pub fn new(w: i16, h: i16) -> (r: Self)
        ensures
            fresh_gfx(r, w, h),
    {
        Adafruit_GFX {
            WIDTH: w,
            HEIGHT: h,
            _width: w,
            _height: h,
            rotation: 0,
            cursor_x: 0,
            cursor_y: 0,
            textsize_x: 1,
            textsize_y: 1,
            textcolor: 0xFFFF,
            textbgcolor: 0xFFFF,
            wrap: true,
            _cp437: false,
            gfx_font: None,
        }
    }

    /// Start a display-writing routine; nothing to do for the generic context.
    pub fn start_write(&mut self)
        ensures
            *final(self) == *old(self),
    {
    }

    /// End a display-writing routine; nothing to do for the generic context.
    pub fn end_write(&mut self)
        ensures
            *final(self) == *old(self),
    {
    }

    /// Write one pixel.
    pub fn write_pixel<D: DrawPixel>(&mut self, x: i16, y: i16, color: u16, backend: &mut D)
        ensures
            *final(self) == *old(self),
            final(backend).drawn() == old(backend).drawn().push((x as int, y as int, color)),
    {
        backend.draw_pixel(x, y, color);
    }

    /// Write a line with Bresenham's algorithm.
    pub fn write_line<D: DrawPixel>(
        &mut self,
        x0: i16,
        y0: i16,
        x1: i16,
        y1: i16,
        color: u16,
        backend: &mut D,
    )
        requires
            line_ok(x0 as int, y0 as int, x1 as int, y1 as int),
        ensures
            *final(self) == *old(self),
            final(backend).drawn() == old(backend).drawn() + line_pixels(
                x0 as int,
                y0 as int,
                x1 as int,
                y1 as int,
                color,
            ),
    {
        let ghost want = line_pixels(x0 as int, y0 as int, x1 as int, y1 as int, color);
        let ghost start = backend.drawn();
        let adx = if x1 - x0 < 0 {
            x0 - x1
        } else {
            x1 - x0
        };
        let ady = if y1 - y0 < 0 {
            y0 - y1
        } else {
            y1 - y0
        };
        let steep = ady > adx;
        let (mut x0, mut y0, mut x1, mut y1) = if steep {
            (y0, x0, y1, x1)
        } else {
            (x0, y0, x1, y1)
        };
        if x0 > x1 {
            let (tx, ty) = (x0, y0);
            x0 = x1;
            y0 = y1;
            x1 = tx;
            y1 = ty;
        }
        let dx = x1 - x0;
        let dy = if y1 - y0 < 0 {
            y0 - y1
        } else {
            y1 - y0
        };
        let mut err: i16 = dx / 2;
        let ystep: i16 = if y0 < y1 {
            1
        } else {
            -1
        };
        let ghost bx0 = x0 as int;
        let ghost by0 = y0 as int;
        let ghost e0 = err as int;
        let ghost cmax = line_steps(dx + 1, dx as int, dy as int);
        let ghost mut c: int = 0;
        let ghost mut kdy: int = 0;
        let ghost mut cdx: int = 0;
        assert(want == walk_pixels(bx0, by0, x1 as int, y1 as int, steep, color));
        proof {
            if dx > 0 {
                lemma_line_steps_mono(0, dx + 1, dx as int, dy as int);
            }
        }
        while x0 <= x1
            invariant
                want == walk_pixels(bx0, by0, x1 as int, y1 as int, steep, color),
                bx0 <= x0 <= x1 + 1,
                x1 < 32767,
                dx == x1 - bx0,
                0 <= dy <= dx,
                dy == iabs(y1 - by0),
                ystep == (if by0 < y1 {
                    1int
                } else {
                    -1int
                }),
                e0 == dx / 2,
                0 <= c <= cmax,
                cmax == line_steps(dx + 1, dx as int, dy as int),
                i16_fits(by0 + ystep * cmax),
                i16_fits(by0),
                y0 == by0 + ystep * c,
                c == line_steps(x0 - bx0, dx as int, dy as int),
                kdy == (x0 - bx0) * dy,
                cdx == c * dx,
                dx > 0 ==> 0 <= err < dx,
                dx == 0 ==> err == 0 && c == 0,
                err == e0 - kdy + cdx,
                backend.drawn() == start + want.take(x0 - bx0),
            decreases x1 + 1 - x0,
        {
            let ghost k = x0 - bx0;
            if steep {
                backend.draw_pixel(y0, x0, color);
            } else {
                backend.draw_pixel(x0, y0, color);
            }
            assert(want[k] == (if steep {
                (y0 as int, x0 as int, color)
            } else {
                (x0 as int, y0 as int, color)
            }));
            assert(backend.drawn() =~= start + want.take(k + 1));
            err -= dy;
            proof {
                kdy = kdy + dy;
                assert(kdy == (k + 1) * dy) by (nonlinear_arith)
                    requires
                        kdy == k * dy + dy,
                ;
            }
            if err < 0 {
                proof {
                    c = c + 1;
                    cdx = cdx + dx;
                    assert(cdx == c * dx) by (nonlinear_arith)
                        requires
                            cdx == (c - 1) * dx + dx,
                    ;
                    lemma_line_steps(k + 1, dx as int, dy as int, c, err + dx);
                    lemma_line_steps_mono(k + 1, dx + 1, dx as int, dy as int);
                    assert(y0 + ystep == by0 + ystep * c) by (nonlinear_arith)
                        requires
                            y0 == by0 + ystep * (c - 1),
                    ;
                    assert(i16_fits(by0 + ystep * c)) by (nonlinear_arith)
                        requires
                            ystep == 1 || ystep == -1,
                            0 <= c <= cmax,
                            i16_fits(by0 + ystep * cmax),
                            i16_fits(by0),
                    ;
                }
                y0 += ystep;
                err += dx;
            } else {
                proof {
                    if dx > 0 {
                        lemma_line_steps(k + 1, dx as int, dy as int, c, err as int);
                    }
                }
            }
            x0 += 1;
        }
        assert(want.take(want.len() as int) =~= want);
    }

    /// Draw a vertical line of `h` pixels from (x, y).
    pub fn draw_fast_v_line<D: DrawPixel>(&mut self, x: i16, y: i16, h: i16, color: u16, backend: &mut D)
        requires
            vline_ok(x as int, y as int, h as int),
        ensures
            *final(self) == *old(self),
            final(backend).drawn() == old(backend).drawn() + vline_pixels(x as int, y as int, h as int, color),
    {
        proof {
            lemma_vertical_line(x as int, y as int, y + h - 1, color);
        }
        self.start_write();
        self.write_line(x, y, x, y + h - 1, color, backend);
        self.end_write();
    }

    /// Draw a horizontal line of `w` pixels from (x, y).
    pub fn draw_fast_h_line<D: DrawPixel>(&mut self, x: i16, y: i16, w: i16, color: u16, backend: &mut D)
        requires
            hline_ok(x as int, y as int, w as int),
        ensures
            *final(self) == *old(self),
            final(backend).drawn() == old(backend).drawn() + hline_pixels(x as int, y as int, w as int, color),
    {
        proof {
            lemma_horizontal_line(x as int, y as int, x + w - 1, color);
        }
        self.start_write();
        self.write_line(x, y, x + w - 1, y, color, backend);
        self.end_write();
    }

    /// Write a vertical line; the generic context draws it as `draw_fast_v_line`.
    pub fn write_fast_v_line<D: DrawPixel>(&mut self, x: i16, y: i16, h: i16, color: u16, backend: &mut D)
        requires
            vline_ok(x as int, y as int, h as int),
        ensures
            *final(self) == *old(self),
            final(backend).drawn() == old(backend).drawn() + vline_pixels(x as int, y as int, h as int, color),
    {
        self.draw_fast_v_line(x, y, h, color, backend);
    }

    /// Write a horizontal line; the generic context draws it as `draw_fast_h_line`.
    pub fn write_fast_h_line<D: DrawPixel>(&mut self, x: i16, y: i16, w: i16, color: u16, backend: &mut D)
        requires
            hline_ok(x as int, y as int, w as int),
        ensures
            *final(self) == *old(self),
            final(backend).drawn() == old(backend).drawn() + hline_pixels(x as int, y as int, w as int, color),
    {
        self.draw_fast_h_line(x, y, w, color, backend);
    }

    /// Fill a rectangle, column by column.
    pub fn fill_rect<D: DrawPixel>(&mut self, x: i16, y: i16, w: i16, h: i16, color: u16, backend: &mut D)
        requires
            rect_ok(x as int, y as int, w as int, h as int),
        ensures
            *final(self) == *old(self),
            final(backend).drawn() == old(backend).drawn() + rect_pixels(x as int, y as int, w as int, h as int, color),
    {
        let ghost start = backend.drawn();
        self.start_write();
        let end = x + w;
        let mut i = x;
        while i < end
            invariant
                *self == *old(self),
                x <= i,
                i <= end || w <= 0,
                end == x + w,
                rect_ok(x as int, y as int, w as int, h as int),
                w > 0 ==> backend.drawn() == start + columns(x as int, (i - x) as nat, y as int, h as int, color),
                w <= 0 ==> backend.drawn() == start,
            decreases end - i,
        {
            self.write_fast_v_line(i, y, h, color, backend);
            i += 1;
            assert(columns(x as int, (i - x) as nat, y as int, h as int, color) == columns(x as int, (i - 1 - x) as nat, y as int, h as int, color) + vline_pixels(i - 1, y as int, h as int, color));
            assert(backend.drawn() =~= start + columns(x as int, (i - x) as nat, y as int, h as int, color));
        }
        assert(w > 0 ==> start + rect_pixels(x as int, y as int, w as int, h as int, color) == start + columns(x as int, (i - x) as nat, y as int, h as int, color));
        assert(w <= 0 ==> start + rect_pixels(x as int, y as int, w as int, h as int, color) =~= start);
        self.end_write();
    }

    /// Write a filled rectangle; the generic context draws it as `fill_rect`.
    pub fn write_fill_rect<D: DrawPixel>(&mut self, x: i16, y: i16, w: i16, h: i16, color: u16, backend: &mut D)
        requires
            rect_ok(x as int, y as int, w as int, h as int),
        ensures
            *final(self) == *old(self),
            final(backend).drawn() == old(backend).drawn() + rect_pixels(x as int, y as int, w as int, h as int, color),
    {
        self.fill_rect(x, y, w, h, color, backend);
    }

    /// Fill the whole (rotated) screen.
    pub fn fill_screen<D: DrawPixel>(&mut self, color: u16, backend: &mut D)
        requires
            rect_ok(0, 0, old(self)._width as int, old(self)._height as int),
        ensures
            *final(self) == *old(self),
            final(backend).drawn() == old(backend).drawn() + rect_pixels(0, 0, old(self)._width as int, old(self)._height as int, color),
    {
        let w = self._width;
        let h = self._height;
        self.fill_rect(0, 0, w, h, color, backend);
    }


    /// Draw a line; straight runs when it is vertical or horizontal.
    pub fn draw_line<D: DrawPixel>(&mut self, x0: i16, y0: i16, x1: i16, y1: i16, color: u16, backend: &mut D)
        requires
            draw_line_ok(x0 as int, y0 as int, x1 as int, y1 as int),
        ensures
            *final(self) == *old(self),
            final(backend).drawn() == old(backend).drawn() + line_pixels(
                x0 as int,
                y0 as int,
                x1 as int,
                y1 as int,
                color,
            ),
    {
        if x0 == x1 {
            let (a, b) = if y0 > y1 {
                (y1, y0)
            } else {
                (y0, y1)
            };
            proof {
                lemma_vertical_line(x0 as int, a as int, b as int, color);
                assert(line_pixels(x0 as int, y0 as int, x1 as int, y1 as int, color) == line_pixels(
                    x0 as int,
                    a as int,
                    x0 as int,
                    b as int,
                    color,
                ));
            }
            self.draw_fast_v_line(x0, a, b - a + 1, color, backend);
        } else if y0 == y1 {
            let (a, b) = if x0 > x1 {
                (x1, x0)
            } else {
                (x0, x1)
            };
            proof {
                lemma_horizontal_line(a as int, y0 as int, b as int, color);
                assert(line_pixels(x0 as int, y0 as int, x1 as int, y1 as int, color) == line_pixels(
                    a as int,
                    y0 as int,
                    b as int,
                    y0 as int,
                    color,
                ));
            }
            self.draw_fast_h_line(a, y0, b - a + 1, color, backend);
        } else {
            self.start_write();
            self.write_line(x0, y0, x1, y1, color, backend);
            self.end_write();
        }
    }

    /// Draw a rectangle outline.
    pub fn draw_rect<D: DrawPixel>(&mut self, x: i16, y: i16, w: i16, h: i16, color: u16, backend: &mut D)
        requires
            rect_outline_ok(x as int, y as int, w as int, h as int),
        ensures
            *final(self) == *old(self),
            final(backend).drawn() == old(backend).drawn() + rect_outline(x as int, y as int, w as int, h as int, color),
    {
        let ghost start = backend.drawn();
        self.start_write();
        self.write_fast_h_line(x, y, w, color, backend);
        self.write_fast_h_line(x, y + h - 1, w, color, backend);
        self.write_fast_v_line(x, y, h, color, backend);
        self.write_fast_v_line(x + w - 1, y, h, color, backend);
        self.end_write();
        assert(backend.drawn() =~= start + rect_outline(x as int, y as int, w as int, h as int, color));
    }

    /// Draw a triangle outline: its three edges in turn.
    pub fn draw_triangle<D: DrawPixel>(
        &mut self,
        x0: i16,
        y0: i16,
        x1: i16,
        y1: i16,
        x2: i16,
        y2: i16,
        color: u16,
        backend: &mut D,
    )
        requires
            draw_line_ok(x0 as int, y0 as int, x1 as int, y1 as int),
            draw_line_ok(x1 as int, y1 as int, x2 as int, y2 as int),
            draw_line_ok(x2 as int, y2 as int, x0 as int, y0 as int),
        ensures
            *final(self) == *old(self),
            final(backend).drawn() == old(backend).drawn() + line_pixels(
                x0 as int,
                y0 as int,
                x1 as int,
                y1 as int,
                color,
            ) + line_pixels(x1 as int, y1 as int, x2 as int, y2 as int, color) + line_pixels(
                x2 as int,
                y2 as int,
                x0 as int,
                y0 as int,
                color,
            ),
    {
        let ghost start = backend.drawn();
        self.draw_line(x0, y0, x1, y1, color, backend);
        self.draw_line(x1, y1, x2, y2, color, backend);
        self.draw_line(x2, y2, x0, y0, color, backend);
        assert(backend.drawn() =~= start + line_pixels(x0 as int, y0 as int, x1 as int, y1 as int, color)
            + line_pixels(x1 as int, y1 as int, x2 as int, y2 as int, color) + line_pixels(
            x2 as int,
            y2 as int,
            x0 as int,
            y0 as int,
            color,
        ));
    }


    /// Draw a circle outline with the midpoint algorithm.
    pub fn draw_circle<D: DrawPixel>(&mut self, x0: i16, y0: i16, r: i16, color: u16, backend: &mut D)
        requires
            circle_ok(x0 as int, y0 as int, r as int),
        ensures
            *final(self) == *old(self),
            final(backend).drawn() == old(backend).drawn() + circle_pixels(x0 as int, y0 as int, r as int, color),
    {
        let ghost start = backend.drawn();
        let mut f: i32 = 1 - r as i32;
        let mut dd_f_x: i32 = 1;
        let r32 = r as i32;
        assert(-16384 <= r32 <= 16383);
        let mut dd_f_y: i32 = 0 - 2 * r32;
        let mut x: i16 = 0;
        let mut y: i16 = r;
        self.start_write();
        backend.draw_pixel(x0, y0 + r, color);
        backend.draw_pixel(x0, y0 - r, color);
        backend.draw_pixel(x0 + r, y0, color);
        backend.draw_pixel(x0 - r, y0, color);
        let ghost first = seq![(x0 as int, y0 + r, color), (x0 as int, y0 - r, color), (x0 + r, y0 as int, color), (x0 - r, y0 as int, color)];
        assert(backend.drawn() =~= start + first);
        let ghost whole = mid_walk(mid_start(r as int));
        let ghost mut done: Seq<MidState> = seq![];
        assert(whole =~= done + mid_walk((f as int, dd_f_x as int, dd_f_y as int, x as int, y as int)));
        while x < y
            invariant
                circle_ok(x0 as int, y0 as int, r as int),
                *self == *old(self),
                r >= 0 ==> 0 <= x <= y + 1,
                r >= 0 ==> y <= r,
                r < 0 ==> x == 0 && y == r,
                mid_inv((f as int, dd_f_x as int, dd_f_y as int, x as int, y as int), r as int),
                whole == done + mid_walk((f as int, dd_f_x as int, dd_f_y as int, x as int, y as int)),
                backend.drawn() == start + first + ring(x0 as int, y0 as int, done, color),
            decreases y - x + 1,
        {
            let ghost s = (f as int, dd_f_x as int, dd_f_y as int, x as int, y as int);
            proof {
                lemma_mid_step(s, r as int);
                lemma_mid_bounds(x as int, y as int, r as int);
            }
            if f >= 0 {
                y -= 1;
                dd_f_y += 2;
                f += dd_f_y;
            }
            x += 1;
            dd_f_x += 2;
            f += dd_f_x;
            let ghost n = (f as int, dd_f_x as int, dd_f_y as int, x as int, y as int);
            assert(n == mid_step(s));
            let ghost before = backend.drawn();
            backend.draw_pixel(x0 + x, y0 + y, color);
            backend.draw_pixel(x0 - x, y0 + y, color);
            backend.draw_pixel(x0 + x, y0 - y, color);
            backend.draw_pixel(x0 - x, y0 - y, color);
            backend.draw_pixel(x0 + y, y0 + x, color);
            backend.draw_pixel(x0 - y, y0 + x, color);
            backend.draw_pixel(x0 + y, y0 - x, color);
            backend.draw_pixel(x0 - y, y0 - x, color);
            proof {
                assert(backend.drawn() =~= before + octants(x0 as int, y0 as int, x as int, y as int, color));
                assert(done.push(n).drop_last() =~= done);
                assert(whole =~= done.push(n) + mid_walk(n));
                done = done.push(n);
            }
        }
        self.end_write();
        assert(mid_walk((f as int, dd_f_x as int, dd_f_y as int, x as int, y as int)) =~= seq![]);
        assert(done =~= whole);
    }


    /// Draw the chosen quarters of a circle outline (`cornername` bits:
    /// 1 upper left, 2 upper right, 4 lower right, 8 lower left).
    pub fn draw_circle_helper<D: DrawPixel>(
        &mut self,
        x0: i16,
        y0: i16,
        r: i16,
        cornername: u8,
        color: u16,
        backend: &mut D,
    )
        requires
            circle_ok(x0 as int, y0 as int, r as int),
        ensures
            *final(self) == *old(self),
            final(backend).drawn() == old(backend).drawn() + corner_ring(
                x0 as int,
                y0 as int,
                mid_walk(mid_start(r as int)),
                cornername,
                color,
            ),
    {
        let ghost start = backend.drawn();
        let mut f: i32 = 1 - r as i32;
        let mut dd_f_x: i32 = 1;
        let r32 = r as i32;
        assert(-16384 <= r32 <= 16383);
        let mut dd_f_y: i32 = 0 - 2 * r32;
        let mut x: i16 = 0;
        let mut y: i16 = r;
        let ghost whole = mid_walk(mid_start(r as int));
        let ghost mut done: Seq<MidState> = seq![];
        assert(whole =~= done + mid_walk((f as int, dd_f_x as int, dd_f_y as int, x as int, y as int)));
        while x < y
            invariant
                circle_ok(x0 as int, y0 as int, r as int),
                *self == *old(self),
                r >= 0 ==> 0 <= x <= y + 1,
                r >= 0 ==> y <= r,
                r < 0 ==> x == 0 && y == r,
                mid_inv((f as int, dd_f_x as int, dd_f_y as int, x as int, y as int), r as int),
                whole == done + mid_walk((f as int, dd_f_x as int, dd_f_y as int, x as int, y as int)),
                backend.drawn() == start + corner_ring(x0 as int, y0 as int, done, cornername, color),
            decreases y - x + 1,
        {
            let ghost s = (f as int, dd_f_x as int, dd_f_y as int, x as int, y as int);
            proof {
                lemma_mid_step(s, r as int);
                lemma_mid_bounds(x as int, y as int, r as int);
            }
            if f >= 0 {
                y -= 1;
                dd_f_y += 2;
                f += dd_f_y;
            }
            x += 1;
            dd_f_x += 2;
            f += dd_f_x;
            let ghost n = (f as int, dd_f_x as int, dd_f_y as int, x as int, y as int);
            assert(n == mid_step(s));
            let ghost before = backend.drawn();
            Self::corner_step(x0, y0, x, y, cornername, color, backend);
            proof {
                assert(done.push(n).drop_last() =~= done);
                assert(whole =~= done.push(n) + mid_walk(n));
                done = done.push(n);
            }
        }
        assert(mid_walk((f as int, dd_f_x as int, dd_f_y as int, x as int, y as int)) =~= seq![]);
        assert(done =~= whole);
    }

    /// Draw the vertical runs of the chosen halves of a filled circle
    /// (`corners` bit 1: right, bit 2: left), stretched by `delta` rows.
    pub fn fill_circle_helper<D: DrawPixel>(
        &mut self,
        x0: i16,
        y0: i16,
        r: i16,
        corners: u8,
        delta: i16,
        color: u16,
        backend: &mut D,
    )
        requires
            fill_circle_spec(x0 as int, y0 as int, r as int, corners, delta as int, color) is Some,
        ensures
            *final(self) == *old(self),
            final(backend).drawn() == old(backend).drawn() + fill_circle_spec(
                x0 as int,
                y0 as int,
                r as int,
                corners,
                delta as int,
                color,
            )->0,
    {
        assert(circle_ok(x0 as int, y0 as int, r as int));
        let ghost start = backend.drawn();
        let ghost total = fill_circle_spec(x0 as int, y0 as int, r as int, corners, delta as int, color)->0;
        let mut f: i32 = 1 - r as i32;
        let mut dd_f_x: i32 = 1;
        let r32 = r as i32;
        assert(-16384 <= r32 <= 16383);
        let mut dd_f_y: i32 = 0 - 2 * r32;
        let mut x: i16 = 0;
        let mut y: i16 = r;
        let mut px: i16 = x;
        let mut py: i16 = y;
        let delta = delta + 1;
        while x < y
            invariant
                circle_ok(x0 as int, y0 as int, r as int),
                *self == *old(self),
                r >= 0 ==> 0 <= x <= y + 1,
                r >= 0 ==> y <= r,
                r < 0 ==> x == 0 && y == r,
                mid_inv((f as int, dd_f_x as int, dd_f_y as int, x as int, y as int), r as int),
                fill_walk(
                    x0 as int,
                    y0 as int,
                    mid_walk((f as int, dd_f_x as int, dd_f_y as int, x as int, y as int)),
                    px as int,
                    py as int,
                    corners,
                    delta as int,
                    color,
                ) is Some,
                backend.drawn() + fill_walk(
                    x0 as int,
                    y0 as int,
                    mid_walk((f as int, dd_f_x as int, dd_f_y as int, x as int, y as int)),
                    px as int,
                    py as int,
                    corners,
                    delta as int,
                    color,
                )->0 == start + total,
            decreases y - x + 1,
        {
            let ghost s = (f as int, dd_f_x as int, dd_f_y as int, x as int, y as int);
            let ghost rest = fill_walk(x0 as int, y0 as int, mid_walk(s), px as int, py as int, corners, delta as int, color)->0;
            proof {
                lemma_mid_step(s, r as int);
                lemma_mid_bounds(x as int, y as int, r as int);
            }
            if f >= 0 {
                y -= 1;
                dd_f_y += 2;
                f += dd_f_y;
            }
            x += 1;
            dd_f_x += 2;
            f += dd_f_x;
            let ghost n = (f as int, dd_f_x as int, dd_f_y as int, x as int, y as int);
            assert(n == mid_step(s));
            assert(mid_walk(s)[0] == n);
            assert(mid_walk(s).drop_first() =~= mid_walk(n));
            if x < (y + 1) {
                self.fill_step(x0, y0, x, y, 2 * y + delta, corners, color, backend);
            }
            if y != py {
                self.fill_step(x0, y0, py, px, 2 * px + delta, corners, color, backend);
                py = y;
            }
            px = x;
        }
        assert(mid_walk((f as int, dd_f_x as int, dd_f_y as int, x as int, y as int)) =~= seq![]);
        assert(backend.drawn() =~= start + total);
    }


    fn corner_step<D: DrawPixel>(x0: i16, y0: i16, x: i16, y: i16, cornername: u8, color: u16, backend: &mut D)
        requires
            i16_fits(x0 + x) && i16_fits(x0 - x) && i16_fits(y0 + y) && i16_fits(y0 - y),
            i16_fits(x0 + y) && i16_fits(x0 - y) && i16_fits(y0 + x) && i16_fits(y0 - x),
        ensures
            final(backend).drawn() == old(backend).drawn() + corner_pixels(
                x0 as int,
                y0 as int,
                x as int,
                y as int,
                cornername,
                color,
            ),
    {
        let ghost b0 = backend.drawn();
        if (cornername & 0x4) != 0 {
            backend.draw_pixel(x0 + x, y0 + y, color);
            backend.draw_pixel(x0 + y, y0 + x, color);
        }
        let ghost b1 = backend.drawn();
        if (cornername & 0x2) != 0 {
            backend.draw_pixel(x0 + x, y0 - y, color);
            backend.draw_pixel(x0 + y, y0 - x, color);
        }
        let ghost b2 = backend.drawn();
        if (cornername & 0x8) != 0 {
            backend.draw_pixel(x0 - y, y0 + x, color);
            backend.draw_pixel(x0 - x, y0 + y, color);
        }
        let ghost b3 = backend.drawn();
        if (cornername & 0x1) != 0 {
            backend.draw_pixel(x0 - y, y0 - x, color);
            backend.draw_pixel(x0 - x, y0 - y, color);
        }
        assert(backend.drawn() =~= b0 + corner_pixels(x0 as int, y0 as int, x as int, y as int, cornername, color));
    }

    fn fill_step<D: DrawPixel>(
        &mut self,
        x0: i16,
        y0: i16,
        x: i16,
        y: i16,
        len: i16,
        corners: u8,
        color: u16,
        backend: &mut D,
    )
        requires
            fill_runs(x0 as int, y0 as int, x as int, y as int, len as int, corners, color) is Some,
        ensures
            *final(self) == *old(self),
            final(backend).drawn() == old(backend).drawn() + fill_runs(
                x0 as int,
                y0 as int,
                x as int,
                y as int,
                len as int,
                corners,
                color,
            )->0,
    {
        let ghost b0 = backend.drawn();
        if (corners & 1) != 0 {
            self.write_fast_v_line(x0 + x, y0 - y, len, color, backend);
        }
        if (corners & 2) != 0 {
            self.write_fast_v_line(x0 - x, y0 - y, len, color, backend);
        }
        assert(backend.drawn() =~= b0 + fill_runs(x0 as int, y0 as int, x as int, y as int, len as int, corners, color)->0);
    }


    fn half_of(v: i16) -> (r: i16)
        ensures
            r == half(v as int),
    {
        v / 2
    }

    /// Fill a circle: the centre column, then both halves.
    pub fn fill_circle<D: DrawPixel>(&mut self, x0: i16, y0: i16, r: i16, color: u16, backend: &mut D)
        requires
            i16_fits(y0 - r) && i16_fits(2 * r) && i16_fits(2 * r + 1),
            vline_ok(x0 as int, y0 - r, 2 * r + 1),
            fill_circle_spec(x0 as int, y0 as int, r as int, 3, 0, color) is Some,
        ensures
            *final(self) == *old(self),
            final(backend).drawn() == old(backend).drawn() + vline_pixels(x0 as int, y0 - r, 2 * r + 1, color)
                + fill_circle_spec(x0 as int, y0 as int, r as int, 3, 0, color)->0,
    {
        let ghost start = backend.drawn();
        self.start_write();
        self.write_fast_v_line(x0, y0 - r, 2 * r + 1, color, backend);
        self.fill_circle_helper(x0, y0, r, 3, 0, color, backend);
        self.end_write();
        assert(backend.drawn() =~= start + vline_pixels(x0 as int, y0 - r, 2 * r + 1, color)
            + fill_circle_spec(x0 as int, y0 as int, r as int, 3, 0, color)->0);
    }

    /// Draw a rounded rectangle outline with corner radius `r` (at most half the minor axis).
    pub fn draw_round_rect<D: DrawPixel>(
        &mut self,
        x: i16,
        y: i16,
        w: i16,
        h: i16,
        r: i16,
        color: u16,
        backend: &mut D,
    )
        requires
            round_rect_ok(x as int, y as int, w as int, h as int, r as int),
        ensures
            *final(self) == *old(self),
            final(backend).drawn() == old(backend).drawn() + round_rect_pixels(
                x as int,
                y as int,
                w as int,
                h as int,
                r as int,
                color,
            ),
    {
        let ghost start = backend.drawn();
        let max_radius = Self::half_of(if w < h {
            w
        } else {
            h
        });
        let ghost r0 = r;
        let mut r = r;
        if r > max_radius {
            r = max_radius;
        }
        assert(r == round_radius(w as int, h as int, r0 as int));
        self.start_write();
        self.round_edges_draw(x, y, w, h, r, color, backend);
        self.round_corners_draw(x, y, w, h, r, color, backend);
        self.end_write();
        assert(backend.drawn() =~= start + round_rect_pixels(x as int, y as int, w as int, h as int, r0 as int, color));
    }


    fn round_edges_draw<D: DrawPixel>(&mut self, x: i16, y: i16, w: i16, h: i16, r: i16, color: u16, backend: &mut D)
        requires
            i16_fits(2 * r) && i16_fits(w - 2 * r) && i16_fits(h - 2 * r),
            i16_fits(x + r) && i16_fits(y + r) && i16_fits(x + w) && i16_fits(y + h),
            i16_fits(x + w - 1) && i16_fits(y + h - 1),
            hline_ok(x + r, y as int, w - 2 * r) && hline_ok(x + r, y + h - 1, w - 2 * r),
            vline_ok(x as int, y + r, h - 2 * r) && vline_ok(x + w - 1, y + r, h - 2 * r),
        ensures
            *final(self) == *old(self),
            final(backend).drawn() == old(backend).drawn() + round_edges(
                x as int,
                y as int,
                w as int,
                h as int,
                r as int,
                color,
            ),
    {
        let ghost start = backend.drawn();
        self.write_fast_h_line(x + r, y, w - 2 * r, color, backend);
        self.write_fast_h_line(x + r, y + h - 1, w - 2 * r, color, backend);
        self.write_fast_v_line(x, y + r, h - 2 * r, color, backend);
        self.write_fast_v_line(x + w - 1, y + r, h - 2 * r, color, backend);
        assert(backend.drawn() =~= start + round_edges(x as int, y as int, w as int, h as int, r as int, color));
    }

    fn round_corners_draw<D: DrawPixel>(&mut self, x: i16, y: i16, w: i16, h: i16, r: i16, color: u16, backend: &mut D)
        requires
            i16_fits(x + r) && i16_fits(y + r) && i16_fits(x + w) && i16_fits(y + h),
            i16_fits(x + w - r) && i16_fits(y + h - r),
            i16_fits(x + w - r - 1) && i16_fits(y + h - r - 1),
            circle_ok(x + r, y + r, r as int) && circle_ok(x + w - r - 1, y + r, r as int),
            circle_ok(x + w - r - 1, y + h - r - 1, r as int) && circle_ok(x + r, y + h - r - 1, r as int),
        ensures
            *final(self) == *old(self),
            final(backend).drawn() == old(backend).drawn() + round_corners(
                x as int,
                y as int,
                w as int,
                h as int,
                r as int,
                color,
            ),
    {
        let ghost start = backend.drawn();
        self.draw_circle_helper(x + r, y + r, r, 1, color, backend);
        self.draw_circle_helper(x + w - r - 1, y + r, r, 2, color, backend);
        self.draw_circle_helper(x + w - r - 1, y + h - r - 1, r, 4, color, backend);
        self.draw_circle_helper(x + r, y + h - r - 1, r, 8, color, backend);
        assert(backend.drawn() =~= start + round_corners(x as int, y as int, w as int, h as int, r as int, color));
    }


    /// Fill a triangle, one row run at a time.
    pub fn fill_triangle<D: DrawPixel>(
        &mut self,
        x0: i16,
        y0: i16,
        x1: i16,
        y1: i16,
        x2: i16,
        y2: i16,
        color: u16,
        backend: &mut D,
    )
        requires
            fill_triangle_ok(x0 as int, y0 as int, x1 as int, y1 as int, x2 as int, y2 as int),
        ensures
            *final(self) == *old(self),
            final(backend).drawn() == old(backend).drawn() + fill_triangle_pixels(
                x0 as int,
                y0 as int,
                x1 as int,
                y1 as int,
                x2 as int,
                y2 as int,
                color,
            ),
    {
        let ghost start = backend.drawn();
        let ghost t = tri_sort(x0 as int, y0 as int, x1 as int, y1 as int, x2 as int, y2 as int);
        let (mut x0, mut y0, mut x1, mut y1, mut x2, mut y2) = (x0, y0, x1, y1, x2, y2);
        if y0 > y1 {
            let (tx, ty) = (x0, y0);
            x0 = x1;
            y0 = y1;
            x1 = tx;
            y1 = ty;
        }
        if y1 > y2 {
            let (tx, ty) = (x2, y2);
            x2 = x1;
            y2 = y1;
            x1 = tx;
            y1 = ty;
        }
        if y0 > y1 {
            let (tx, ty) = (x0, y0);
            x0 = x1;
            y0 = y1;
            x1 = tx;
            y1 = ty;
        }
        assert(t == (x0 as int, y0 as int, x1 as int, y1 as int, x2 as int, y2 as int));
        self.start_write();
        if y0 == y2 {
            let mut a = x0;
            let mut b = x0;
            if x1 < a {
                a = x1;
            } else if x1 > b {
                b = x1;
            }
            if x2 < a {
                a = x2;
            } else if x2 > b {
                b = x2;
            }
            assert(a == min3(x0 as int, x1 as int, x2 as int));
            assert(b == max3(x0 as int, x1 as int, x2 as int));
            self.write_fast_h_line(a, y0, b - a + 1, color, backend);
            self.end_write();
            return;
        }
        let dx01 = x1 - x0;
        let dy01 = y1 - y0;
        let dx02 = x2 - x0;
        let dy02 = y2 - y0;
        let dx12 = x2 - x1;
        let dy12 = y2 - y1;
        let mut sa: i32 = 0;
        let mut sb: i32 = 0;
        let last = if y1 == y2 {
            y1
        } else {
            y1 - 1
        };
        let mut y = y0;
        assert(0 * dx01 == 0 && 0 * dx02 == 0);
        while y <= last
            invariant
                t == (x0 as int, y0 as int, x1 as int, y1 as int, x2 as int, y2 as int),
                y0 <= y1 <= y2,
                y0 < y2 < 32767,
                dx01 == x1 - x0 && dy01 == y1 - y0 && dx02 == x2 - x0 && dy02 == y2 - y0,
                last == (if y1 == y2 {
                    y1 as int
                } else {
                    y1 - 1
                }),
                y0 <= y <= last + 1,
                sa == (y - y0) * dx01,
                sb == (y - y0) * dx02,
                (y2 - y0 + 1) * iabs(dx01 as int) < 0x8000_0000int,
                (y2 - y0 + 1) * iabs(dx02 as int) < 0x8000_0000int,
                forall|yy: int| y0 <= yy <= y2 ==> #[trigger] span_ok(tri_cross(t, yy).0, tri_cross(t, yy).1, yy),
                *self == *old(self),
                backend.drawn() == start + tri_rows(t, (y - y0) as nat, color),
            decreases last + 1 - y,
        {
            proof {
                lemma_tdiv_bound(y - y0, dx01 as int, dy01 as int);
                lemma_tdiv_bound(y - y0, dx02 as int, dy02 as int);
            }
            let a = x0 as i32 + sa / dy01 as i32;
            let b = x0 as i32 + sb / dy02 as i32;
            assert(tri_cross(t, y as int) == (a as int, b as int));
            assert(span_ok(tri_cross(t, y as int).0, tri_cross(t, y as int).1, y as int));
            proof {
                assert((y + 1 - y0) * iabs(dx01 as int) <= (y2 - y0 + 1) * iabs(dx01 as int)) by (nonlinear_arith)
                    requires y + 1 <= y2 + 1;
                assert((y + 1 - y0) * iabs(dx02 as int) <= (y2 - y0 + 1) * iabs(dx02 as int)) by (nonlinear_arith)
                    requires y + 1 <= y2 + 1;
                assert(sa + dx01 == (y + 1 - y0) * dx01) by (nonlinear_arith)
                    requires sa == (y - y0) * dx01;
                assert(sb + dx02 == (y + 1 - y0) * dx02) by (nonlinear_arith)
                    requires sb == (y - y0) * dx02;
                assert(iabs((y + 1 - y0) * dx01) == (y + 1 - y0) * iabs(dx01 as int)) by (nonlinear_arith)
                    requires y + 1 - y0 >= 0;
                assert(iabs((y + 1 - y0) * dx02) == (y + 1 - y0) * iabs(dx02 as int)) by (nonlinear_arith)
                    requires y + 1 - y0 >= 0;
            }
            sa += dx01 as i32;
            sb += dx02 as i32;
            let (a, b) = if a > b {
                (b, a)
            } else {
                (a, b)
            };
            self.write_fast_h_line(a as i16, y, (b - a + 1) as i16, color, backend);
            y += 1;
            assert(backend.drawn() =~= start + tri_rows(t, (y - y0) as nat, color));
        }
        assert(y == last + 1);
        assert(0 <= y - y1 <= 1);
        assert(dx12 * (y - y1) == if y == y1 { 0 } else { dx12 as int }) by (nonlinear_arith)
            requires 0 <= y - y1 <= 1;
        sa = dx12 as i32 * (y - y1) as i32;
        assert(0 <= y - y0 <= y2 - y0 + 1);
        assert(iabs((y - y0) * dx02) <= (y2 - y0 + 1) * iabs(dx02 as int)) by (nonlinear_arith)
            requires 0 <= y - y0 <= y2 - y0 + 1;
        assert(-0x8000_0000int < dx02 * (y - y0) < 0x8000_0000int) by (nonlinear_arith)
            requires
                iabs((y - y0) * dx02) <= (y2 - y0 + 1) * iabs(dx02 as int),
                (y2 - y0 + 1) * iabs(dx02 as int) < 0x8000_0000int;
        assert(dx12 * (y - y1) == (y - y1) * dx12 && dx02 * (y - y0) == (y - y0) * dx02) by (nonlinear_arith);
        sb = dx02 as i32 * (y - y0) as i32;
        while y <= y2
            invariant
                t == (x0 as int, y0 as int, x1 as int, y1 as int, x2 as int, y2 as int),
                y0 <= y1 <= y2,
                y0 < y2 < 32767,
                dx12 == x2 - x1 && dy12 == y2 - y1 && dx02 == x2 - x0 && dy02 == y2 - y0,
                last == (if y1 == y2 {
                    y1 as int
                } else {
                    y1 - 1
                }),
                last + 1 <= y <= y2 + 1,
                sa == (y - y1) * dx12,
                sb == (y - y0) * dx02,
                (y2 - y0 + 1) * iabs(dx12 as int) < 0x8000_0000int,
                (y2 - y0 + 1) * iabs(dx02 as int) < 0x8000_0000int,
                forall|yy: int| y0 <= yy <= y2 ==> #[trigger] span_ok(tri_cross(t, yy).0, tri_cross(t, yy).1, yy),
                *self == *old(self),
                backend.drawn() == start + tri_rows(t, (y - y0) as nat, color),
            decreases y2 + 1 - y,
        {
            proof {
                lemma_tdiv_bound(y - y1, dx12 as int, dy12 as int);
                lemma_tdiv_bound(y - y0, dx02 as int, dy02 as int);
            }
            let a = x1 as i32 + sa / dy12 as i32;
            let b = x0 as i32 + sb / dy02 as i32;
            assert(tri_cross(t, y as int) == (a as int, b as int));
            assert(span_ok(tri_cross(t, y as int).0, tri_cross(t, y as int).1, y as int));
            proof {
                assert((y + 1 - y1) * iabs(dx12 as int) <= (y2 - y0 + 1) * iabs(dx12 as int)) by (nonlinear_arith)
                    requires y + 1 <= y2 + 1, y1 >= y0;
                assert((y + 1 - y0) * iabs(dx02 as int) <= (y2 - y0 + 1) * iabs(dx02 as int)) by (nonlinear_arith)
                    requires y + 1 <= y2 + 1;
                assert(sa + dx12 == (y + 1 - y1) * dx12) by (nonlinear_arith)
                    requires sa == (y - y1) * dx12;
                assert(sb + dx02 == (y + 1 - y0) * dx02) by (nonlinear_arith)
                    requires sb == (y - y0) * dx02;
                assert(iabs((y + 1 - y1) * dx12) == (y + 1 - y1) * iabs(dx12 as int)) by (nonlinear_arith)
                    requires y + 1 - y1 >= 0;
                assert(iabs((y + 1 - y0) * dx02) == (y + 1 - y0) * iabs(dx02 as int)) by (nonlinear_arith)
                    requires y + 1 - y0 >= 0;
            }
            sa += dx12 as i32;
            sb += dx02 as i32;
            let (a, b) = if a > b {
                (b, a)
            } else {
                (a, b)
            };
            self.write_fast_h_line(a as i16, y, (b - a + 1) as i16, color, backend);
            y += 1;
            assert(backend.drawn() =~= start + tri_rows(t, (y - y0) as nat, color));
        }
        self.end_write();
    }


    fn blit<D: DrawPixel>(
        &mut self,
        kind: BlitKind,
        x: i16,
        y: i16,
        data8: &[u8],
        data16: &[u16],
        mask: &[u8],
        w: i16,
        h: i16,
        color: u16,
        bg: u16,
        backend: &mut D,
    )
        requires
            blit_ok(kind, data8@, data16@, mask@, x as int, y as int, w as int, h as int),
        ensures
            *final(self) == *old(self),
            final(backend).drawn() == old(backend).drawn() + blit_pixels(
                kind,
                data8@,
                data16@,
                mask@,
                x as int,
                y as int,
                w as int,
                h as int,
                color,
                bg,
            ),
    {
        let ghost start = backend.drawn();
        let ghost y_top = y as int;
        let bits: &[u8] = if kind == BlitKind::GrayMasked || kind == BlitKind::RgbMasked {
            mask
        } else {
            data8
        };
        let byte_width: usize = if uses_bits_exec(kind) && w > 0 {
            ((w + 7) / 8) as usize
        } else {
            0
        };
        let mut byte_val: u8 = 0;
        let bits_len = bits.len();
        let d8_len = data8.len();
        let d16_len = data16.len();
        let mut y = y;
        self.start_write();
        let mut j: i16 = 0;
        while j < h
            invariant
                *self == *old(self),
                0 <= j,
                h > 0 ==> j <= h,
                y == y_top + j,
                h <= 0 ==> j == 0,
                bits_len == bits@.len(),
                d8_len == data8@.len(),
                d16_len == data16@.len(),
                blit_ok(kind, data8@, data16@, mask@, x as int, y_top, w as int, h as int),
                bits@ == (if kind == BlitKind::GrayMasked || kind == BlitKind::RgbMasked {
                    mask@
                } else {
                    data8@
                }),
                uses_bits(kind) && w > 0 ==> byte_width == row_bytes(w as int),
                backend.drawn() == start + blit_rows(kind, data8@, data16@, mask@, w as int, j as nat, x as int, y_top, color, bg),
            decreases h - j,
        {
            let ghost row_start = backend.drawn();
            let mut i: i16 = 0;
            while i < w
                invariant
                    *self == *old(self),
                    0 <= j < h,
                    0 <= i,
                    w > 0 ==> i <= w,
                    w <= 0 ==> i == 0,
                    y == y_top + j,
                    bits_len == bits@.len(),
                    d8_len == data8@.len(),
                    d16_len == data16@.len(),
                    blit_ok(kind, data8@, data16@, mask@, x as int, y_top, w as int, h as int),
                    bits@ == (if kind == BlitKind::GrayMasked || kind == BlitKind::RgbMasked {
                        mask@
                    } else {
                        data8@
                    }),
                    uses_bits(kind) && w > 0 ==> byte_width == row_bytes(w as int),
                    uses_bits(kind) && i > 0 && i % 8 != 0 ==> (if kind == BlitKind::XMono {
                        byte_val == bits@[j * row_bytes(w as int) + (i - 1) / 8] >> (((i - 1) % 8) as u8)
                    } else {
                        byte_val == (((bits@[j * row_bytes(w as int) + (i - 1) / 8] as u32) << (((i - 1) % 8) as u32)) as u8)
                    }),
                    backend.drawn() == row_start + blit_row(kind, data8@, data16@, mask@, w as int, j as int, i as nat, x as int, y_top, color, bg),
                decreases w - i,
            {
                let ghost before = backend.drawn();
                let ghost k = j * row_bytes(w as int) + i / 8;
                if uses_bits_exec(kind) {
                    proof {
                        assert(i & 7 == i % 8) by (bit_vector)
                            requires
                                i >= 0,
                        ;
                        assert(0 <= j * row_bytes(w as int) + i / 8 < bits@.len()) by (nonlinear_arith)
                            requires
                                0 <= j <= h - 1,
                                0 <= i <= w - 1,
                                row_bytes(w as int) >= 0,
                                (h - 1) * row_bytes(w as int) + (w - 1) / 8 < bits@.len(),
                        ;
                    }
                    assert(byte_width as int == row_bytes(w as int));
                    assert((j as int) * (byte_width as int) + (i as int) / 8 < bits@.len());
                    if (i & 7) != 0 {
                        proof {
                            assert((i - 1) / 8 == i / 8);
                            lemma_shift_bits(bits@[k], ((i - 1) % 8) as u8);
                        }
                        let ghost prev = byte_val;
                        if kind == BlitKind::XMono {
                            byte_val >>= 1;
                        } else {
                            byte_val <<= 1;
                        }
                        proof {
                            assert(prev >> 1u8 == prev >> 1u8 && (prev << 1u8) == (((prev as u32) << 1u32) as u8)) by (bit_vector);
                        }
                    } else {
                        byte_val = bits[(j as usize) * byte_width + (i as usize) / 8];
                        proof {
                            let bk = bits@[k];
                            assert(bk >> 0u8 == bk && (((bk as u32) << 0u32) as u8) == bk) by (bit_vector);
                        }
                    }
                    proof {
                        lemma_shift_bits(bits@[k], (i % 8) as u8);
                    }
                }
                match kind {
                    BlitKind::Mono => {
                        if (byte_val & 0x80) != 0 {
                            backend.draw_pixel(x + i, y, color);
                        }
                    },
                    BlitKind::MonoBg => {
                        backend.draw_pixel(x + i, y, if (byte_val & 0x80) != 0 {
                            color
                        } else {
                            bg
                        });
                    },
                    BlitKind::XMono => {
                        if (byte_val & 0x01) != 0 {
                            backend.draw_pixel(x + i, y, color);
                        }
                    },
                    BlitKind::Gray => {
                        proof {
                            assert(0 <= j * w + i < data8@.len()) by (nonlinear_arith)
                                requires
                                    0 <= j <= h - 1,
                                    0 <= i <= w - 1,
                                    h * w <= data8@.len(),
                            ;
                        }
                        backend.draw_pixel(x + i, y, data8[(j as usize) * (w as usize) + (i as usize)] as u16);
                    },
                    BlitKind::GrayMasked => {
                        if (byte_val & 0x80) != 0 {
                            proof {
                                assert(0 <= j * w + i < data8@.len()) by (nonlinear_arith)
                                    requires
                                        0 <= j <= h - 1,
                                        0 <= i <= w - 1,
                                        h * w <= data8@.len(),
                                ;
                            }
                            backend.draw_pixel(x + i, y, data8[(j as usize) * (w as usize) + (i as usize)] as u16);
                        }
                    },
                    BlitKind::Rgb => {
                        proof {
                            assert(0 <= j * w + i < data16@.len()) by (nonlinear_arith)
                                requires
                                    0 <= j <= h - 1,
                                    0 <= i <= w - 1,
                                    h * w <= data16@.len(),
                            ;
                        }
                        backend.draw_pixel(x + i, y, data16[(j as usize) * (w as usize) + (i as usize)]);
                    },
                    BlitKind::RgbMasked => {
                        if (byte_val & 0x80) != 0 {
                            proof {
                                assert(0 <= j * w + i < data16@.len()) by (nonlinear_arith)
                                    requires
                                        0 <= j <= h - 1,
                                        0 <= i <= w - 1,
                                        h * w <= data16@.len(),
                                ;
                            }
                            backend.draw_pixel(x + i, y, data16[(j as usize) * (w as usize) + (i as usize)]);
                        }
                    },
                }
                assert(backend.drawn() =~= before + blit_pixel(kind, data8@, data16@, mask@, w as int, i as int, j as int, x as int, y_top, color, bg));
                i += 1;
                assert(backend.drawn() =~= row_start + blit_row(kind, data8@, data16@, mask@, w as int, j as int, i as nat, x as int, y_top, color, bg));
            }
            assert(i as nat == (if w > 0 {
                w as nat
            } else {
                0
            }));
            let ghost jj = j as int;
            y += 1;
            j += 1;
            assert(blit_rows(kind, data8@, data16@, mask@, w as int, j as nat, x as int, y_top, color, bg) == blit_rows(kind, data8@, data16@, mask@, w as int, jj as nat, x as int, y_top, color, bg) + blit_row(kind, data8@, data16@, mask@, w as int, jj, i as nat, x as int, y_top, color, bg));
            assert(backend.drawn() =~= start + blit_rows(kind, data8@, data16@, mask@, w as int, j as nat, x as int, y_top, color, bg));
        }
        self.end_write();
    }


    /// Draw a 1-bit image (most significant bit first): set bits in `color`, clear bits left alone.
    pub fn draw_bitmap<D: DrawPixel>(
        &mut self,
        x: i16,
        y: i16,
        bitmap: &[u8],
        w: i16,
        h: i16,
        color: u16,
        backend: &mut D,
    )
        requires
            blit_ok(BlitKind::Mono, bitmap@, seq![], seq![], x as int, y as int, w as int, h as int),
        ensures
            *final(self) == *old(self),
            final(backend).drawn() == old(backend).drawn() + blit_pixels(
                BlitKind::Mono,
                bitmap@,
                seq![],
                seq![],
                x as int,
                y as int,
                w as int,
                h as int,
                color,
                0,
            ),
    {
        let none16: [u16; 0] = [];
        let none8: [u8; 0] = [];
        assert(none16@ =~= seq![] && none8@ =~= seq![]);
        self.blit(BlitKind::Mono, x, y, bitmap, &none16, &none8, w, h, color, 0, backend);
    }


    /// Draw a 1-bit image (most significant bit first): set bits in `color`, clear bits in `bg`.
    pub fn draw_bitmap_bg<D: DrawPixel>(
        &mut self,
        x: i16,
        y: i16,
        bitmap: &[u8],
        w: i16,
        h: i16,
        color: u16,
        bg: u16,
        backend: &mut D,
    )
        requires
            blit_ok(BlitKind::MonoBg, bitmap@, seq![], seq![], x as int, y as int, w as int, h as int),
        ensures
            *final(self) == *old(self),
            final(backend).drawn() == old(backend).drawn() + blit_pixels(
                BlitKind::MonoBg,
                bitmap@,
                seq![],
                seq![],
                x as int,
                y as int,
                w as int,
                h as int,
                color,
                bg,
            ),
    {
        let none16: [u16; 0] = [];
        let none8: [u8; 0] = [];
        assert(none16@ =~= seq![] && none8@ =~= seq![]);
        self.blit(BlitKind::MonoBg, x, y, bitmap, &none16, &none8, w, h, color, bg, backend);
    }


    /// Draw a 1-bit XBM image (least significant bit first): set bits in `color`, clear bits left alone.
    pub fn draw_x_bitmap<D: DrawPixel>(
        &mut self,
        x: i16,
        y: i16,
        bitmap: &[u8],
        w: i16,
        h: i16,
        color: u16,
        backend: &mut D,
    )
        requires
            blit_ok(BlitKind::XMono, bitmap@, seq![], seq![], x as int, y as int, w as int, h as int),
        ensures
            *final(self) == *old(self),
            final(backend).drawn() == old(backend).drawn() + blit_pixels(
                BlitKind::XMono,
                bitmap@,
                seq![],
                seq![],
                x as int,
                y as int,
                w as int,
                h as int,
                color,
                0,
            ),
    {
        let none16: [u16; 0] = [];
        let none8: [u8; 0] = [];
        assert(none16@ =~= seq![] && none8@ =~= seq![]);
        self.blit(BlitKind::XMono, x, y, bitmap, &none16, &none8, w, h, color, 0, backend);
    }


    /// Draw an 8-bit grayscale image, one byte per pixel.
    pub fn draw_grayscale_bitmap<D: DrawPixel>(
        &mut self,
        x: i16,
        y: i16,
        bitmap: &[u8],
        w: i16,
        h: i16,
        backend: &mut D,
    )
        requires
            blit_ok(BlitKind::Gray, bitmap@, seq![], seq![], x as int, y as int, w as int, h as int),
        ensures
            *final(self) == *old(self),
            final(backend).drawn() == old(backend).drawn() + blit_pixels(
                BlitKind::Gray,
                bitmap@,
                seq![],
                seq![],
                x as int,
                y as int,
                w as int,
                h as int,
                0,
                0,
            ),
    {
        let none16: [u16; 0] = [];
        let none8: [u8; 0] = [];
        assert(none16@ =~= seq![] && none8@ =~= seq![]);
        self.blit(BlitKind::Gray, x, y, bitmap, &none16, &none8, w, h, 0, 0, backend);
    }


    /// Draw an 8-bit grayscale image where the 1-bit mask is set.
    pub fn draw_grayscale_bitmap_masked<D: DrawPixel>(
        &mut self,
        x: i16,
        y: i16,
        bitmap: &[u8],
        mask: &[u8],
        w: i16,
        h: i16,
        backend: &mut D,
    )
        requires
            blit_ok(BlitKind::GrayMasked, bitmap@, seq![], mask@, x as int, y as int, w as int, h as int),
        ensures
            *final(self) == *old(self),
            final(backend).drawn() == old(backend).drawn() + blit_pixels(
                BlitKind::GrayMasked,
                bitmap@,
                seq![],
                mask@,
                x as int,
                y as int,
                w as int,
                h as int,
                0,
                0,
            ),
    {
        let none16: [u16; 0] = [];
        assert(none16@ =~= seq![]);
        self.blit(BlitKind::GrayMasked, x, y, bitmap, &none16, mask, w, h, 0, 0, backend);
    }


    /// Draw a 16-bit color image, one word per pixel.
    pub fn draw_rgb_bitmap<D: DrawPixel>(
        &mut self,
        x: i16,
        y: i16,
        bitmap: &[u16],
        w: i16,
        h: i16,
        backend: &mut D,
    )
        requires
            blit_ok(BlitKind::Rgb, seq![], bitmap@, seq![], x as int, y as int, w as int, h as int),
        ensures
            *final(self) == *old(self),
            final(backend).drawn() == old(backend).drawn() + blit_pixels(
                BlitKind::Rgb,
                seq![],
                bitmap@,
                seq![],
                x as int,
                y as int,
                w as int,
                h as int,
                0,
                0,
            ),
    {
        let none8: [u8; 0] = [];
        assert(none8@ =~= seq![]);
        self.blit(BlitKind::Rgb, x, y, &none8, bitmap, &none8, w, h, 0, 0, backend);
    }


    /// Draw a 16-bit color image where the 1-bit mask is set.
    pub fn draw_rgb_bitmap_masked<D: DrawPixel>(
        &mut self,
        x: i16,
        y: i16,
        bitmap: &[u16],
        mask: &[u8],
        w: i16,
        h: i16,
        backend: &mut D,
    )
        requires
            blit_ok(BlitKind::RgbMasked, seq![], bitmap@, mask@, x as int, y as int, w as int, h as int),
        ensures
            *final(self) == *old(self),
            final(backend).drawn() == old(backend).drawn() + blit_pixels(
                BlitKind::RgbMasked,
                seq![],
                bitmap@,
                mask@,
                x as int,
                y as int,
                w as int,
                h as int,
                0,
                0,
            ),
    {
        let none8: [u8; 0] = [];
        assert(none8@ =~= seq![]);
        self.blit(BlitKind::RgbMasked, x, y, &none8, bitmap, mask, w, h, 0, 0, backend);
    }


    /// Fill a rounded rectangle: the middle band, then both rounded ends.
    pub fn fill_round_rect<D: DrawPixel>(
        &mut self,
        x: i16,
        y: i16,
        w: i16,
        h: i16,
        r: i16,
        color: u16,
        backend: &mut D,
    )
        requires
            fill_round_rect_spec(x as int, y as int, w as int, h as int, r as int, color) is Some,
        ensures
            *final(self) == *old(self),
            final(backend).drawn() == old(backend).drawn() + fill_round_rect_spec(
                x as int,
                y as int,
                w as int,
                h as int,
                r as int,
                color,
            )->0,
    {
        let ghost start = backend.drawn();
        let ghost r0 = r;
        let max_radius = Self::half_of(if w < h {
            w
        } else {
            h
        });
        let mut r = r;
        if r > max_radius {
            r = max_radius;
        }
        assert(r == round_radius(w as int, h as int, r0 as int));
        self.start_write();
        self.write_fill_rect(x + r, y, w - 2 * r, h, color, backend);
        self.fill_circle_helper(x + w - r - 1, y + r, r, 1, h - 2 * r - 1, color, backend);
        self.fill_circle_helper(x + r, y + r, r, 2, h - 2 * r - 1, color, backend);
        self.end_write();
        assert(backend.drawn() =~= start + fill_round_rect_spec(x as int, y as int, w as int, h as int, r0 as int, color)->0);
    }


    fn draw_text_cell<D: DrawPixel>(&mut self, px: i16, py: i16, size_x: u8, size_y: u8, color: u16, backend: &mut D)
        requires
            text_cell(px as int, py as int, size_x as int, size_y as int, color) is Some,
        ensures
            *final(self) == *old(self),
            final(backend).drawn() == old(backend).drawn() + text_cell(
                px as int,
                py as int,
                size_x as int,
                size_y as int,
                color,
            )->0,
    {
        if size_x == 1 && size_y == 1 {
            let ghost b0 = backend.drawn();
            backend.draw_pixel(px, py, color);
            assert(backend.drawn() =~= b0 + seq![(px as int, py as int, color)]);
        } else {
            self.write_fill_rect(px, py, size_x as i16, size_y as i16, color, backend);
        }
    }

    fn draw_classic_char<D: DrawPixel>(
        &mut self,
        x: i16,
        y: i16,
        c: u8,
        color: u16,
        bg: u16,
        size_x: u8,
        size_y: u8,
        backend: &mut D,
    )
        requires
            classic_char(x as int, y as int, c, color, bg, size_x as int, size_y as int) is Some,
        ensures
            *final(self) == *old(self),
            final(backend).drawn() == old(backend).drawn() + classic_char(
                x as int,
                y as int,
                c,
                color,
                bg,
                size_x as int,
                size_y as int,
            )->0,
    {
        let ghost start = backend.drawn();
        let ghost sx = size_x as int;
        let ghost sy = size_y as int;
        self.start_write();
        let mut i: i8 = 0;
        while i < 5
            invariant
                *self == *old(self),
                0 <= i <= 5,
                classic_char(x as int, y as int, c, color, bg, sx, sy) is Some,
                classic_cells(x as int, y as int, c, color, bg, sx, sy, (i * 8) as nat) is Some,
                backend.drawn() == start + classic_cells(x as int, y as int, c, color, bg, sx, sy, (i * 8) as nat)->0,
                sx == size_x && sy == size_y,
            decreases 5 - i,
        {
            let line: u8 = if BUILTIN_FONT.len() > 0 {
                0
            } else {
                0
            };
            assert(line == font_column(c, i as int));
            let mut line_shifted = line;
            let mut j: i8 = 0;
            assert(line_shifted == line >> 0u8) by (bit_vector)
                requires line_shifted == line;
            while j < 8
                invariant
                    *self == *old(self),
                    0 <= i < 5,
                    0 <= j <= 8,
                    line == font_column(c, i as int),
                    line_shifted == line >> (j as u8),
                    classic_char(x as int, y as int, c, color, bg, sx, sy) is Some,
                    classic_cells(x as int, y as int, c, color, bg, sx, sy, (i * 8 + j) as nat) is Some,
                    backend.drawn() == start + classic_cells(x as int, y as int, c, color, bg, sx, sy, (i * 8 + j) as nat)->0,
                    sx == size_x && sy == size_y,
                decreases 8 - j,
            {
                let ghost t = (i * 8 + j) as nat;
                proof {
                    lemma_classic_prefix(x as int, y as int, c, color, bg, sx, sy, t + 1, 40);
                    assert(t / 8 == i && t % 8 == j);
                }
                let ghost b0 = backend.drawn();
                assert(0 <= i * size_x <= 4 * 255 && 0 <= j * size_y <= 7 * 255) by (nonlinear_arith)
                    requires 0 <= i < 5, 0 <= j < 8, size_x <= 255, size_y <= 255;
                if (line_shifted & 1) != 0 {
                    let px = x + i as i16 * size_x as i16;
                    let py = y + j as i16 * size_y as i16;
                    self.draw_text_cell(px, py, size_x, size_y, color, backend);
                } else if bg != color {
                    let px = x + i as i16 * size_x as i16;
                    let py = y + j as i16 * size_y as i16;
                    self.draw_text_cell(px, py, size_x, size_y, bg, backend);
                }
                assert(backend.drawn() == start + classic_cells(x as int, y as int, c, color, bg, sx, sy, (t + 1) as nat)->0);
                let ghost ls = line_shifted;
                line_shifted >>= 1;
                proof {
                    assert(ls >> 1u8 == (line >> ((j + 1) as u8))) by (bit_vector)
                        requires ls == line >> (j as u8), 0 <= j < 8;
                }
                j += 1;
            }
            i += 1;
        }
        let ghost cells = backend.drawn();
        if bg != color {
            if size_x == 1 && size_y == 1 {
                self.write_fast_v_line(x + 5, y, 8, bg, backend);
            } else {
                self.write_fill_rect(x + 5 * size_x as i16, y, size_x as i16, 8 * size_y as i16, bg, backend);
            }
        }
        self.end_write();
        assert(backend.drawn() =~= start + classic_char(x as int, y as int, c, color, bg, sx, sy)->0);
    }

    #[verifier::spinoff_prover]
    #[verifier::rlimit(30)]
    fn draw_custom_char<D: DrawPixel>(
        &mut self,
        x: i16,
        y: i16,
        font: &GFXfont,
        c: u8,
        color: u16,
        size_x: u8,
        size_y: u8,
        backend: &mut D,
    )
        requires
            custom_char(x as int, y as int, *font, c, color, size_x as int, size_y as int) is Some,
        ensures
            *final(self) == *old(self),
            final(backend).drawn() == old(backend).drawn() + custom_char(
                x as int,
                y as int,
                *font,
                c,
                color,
                size_x as int,
                size_y as int,
            )->0,
    {
        let ghost start = backend.drawn();
        let ghost sx = size_x as int;
        let ghost sy = size_y as int;
        let first_wide = font.first;
        let first = first_wide as u8;
        proof {
            crate::bits::lemma_u16_bytes();
        }
        assert(first == first_wide % 256);
        let ci = c.wrapping_sub(first) as usize;
        assert(ci == glyph_index(c, font.first));
        let glyph = font.glyph[ci];
        let bitmap = font.bitmap;
        let ghost g = glyph;
        let ghost bo0 = glyph.bitmap_offset as int;
        let ghost total = (glyph.width as int * glyph.height as int) as nat;
        assert(font_glyph(*font, c) == Some(glyph));
        let mut bo = glyph.bitmap_offset as usize;
        let w = glyph.width;
        let h = glyph.height;
        let xo = glyph.x_offset;
        let yo = glyph.y_offset;
        let mut bits: u8 = 0;
        let mut bit: u8 = 0;
        let mut xo16: i16 = 0;
        let mut yo16: i16 = 0;
        if size_x > 1 || size_y > 1 {
            xo16 = xo as i16;
            yo16 = yo as i16;
        }
        self.start_write();
        let mut yy: u8 = 0;
        while yy < h
            invariant
                *self == *old(self),
                yy <= h,
                g == glyph,
                w == g.width && h == g.height && xo == g.x_offset && yo == g.y_offset,
                bo0 == g.bitmap_offset,
                bitmap@ == font.bitmap@,
                total == w * h,
                total <= 255,
                total > 0 ==> bo0 + (total - 1) / 8 < bitmap@.len(),
                glyph_cells(x as int, y as int, g, bitmap@, color, sx, sy, total) is Some,
                sx == size_x && sy == size_y,
                xo16 == (if size_x > 1 || size_y > 1 { xo as int } else { 0 }),
                yo16 == (if size_x > 1 || size_y > 1 { yo as int } else { 0 }),
                bit == yy * w,
                bo == bo0 + (yy * w + 7) / 8,
                (yy * w) % 8 != 0 ==> bits == (((bitmap@[bo0 + (yy * w - 1) / 8] as u32) << (((yy * w) % 8) as u32)) as u8),
                glyph_cells(x as int, y as int, g, bitmap@, color, sx, sy, (yy * w) as nat) is Some,
                backend.drawn() == start + glyph_cells(x as int, y as int, g, bitmap@, color, sx, sy, (yy * w) as nat)->0,
            decreases h - yy,
        {
            assert((yy + 1) * w <= total) by (nonlinear_arith)
                requires yy < h, total == w * h;
            let mut xx: u8 = 0;
            while xx < w
                invariant
                    *self == *old(self),
                    yy < h,
                    xx <= w,
                    g == glyph,
                    w == g.width && h == g.height && xo == g.x_offset && yo == g.y_offset,
                    bo0 == g.bitmap_offset,
                    bitmap@ == font.bitmap@,
                    total == w * h,
                    total <= 255,
                    (yy + 1) * w <= total,
                    total > 0 ==> bo0 + (total - 1) / 8 < bitmap@.len(),
                    glyph_cells(x as int, y as int, g, bitmap@, color, sx, sy, total) is Some,
                    sx == size_x && sy == size_y,
                    xo16 == (if size_x > 1 || size_y > 1 { xo as int } else { 0 }),
                    yo16 == (if size_x > 1 || size_y > 1 { yo as int } else { 0 }),
                    bit == yy * w + xx,
                    bo == bo0 + (yy * w + xx + 7) / 8,
                    (yy * w + xx) % 8 != 0 ==> bits == (((bitmap@[bo0 + (yy * w + xx - 1) / 8] as u32) << (((yy * w + xx) % 8) as u32)) as u8),
                    glyph_cells(x as int, y as int, g, bitmap@, color, sx, sy, (yy * w + xx) as nat) is Some,
                    backend.drawn() == start + glyph_cells(x as int, y as int, g, bitmap@, color, sx, sy, (yy * w + xx) as nat)->0,
                decreases w - xx,
            {
                let ghost n = yy * w + xx;
                assert(yy * w + w == (yy + 1) * w) by (nonlinear_arith);
                assert(n < total);
                proof {
                    lemma_glyph_prefix(x as int, y as int, g, bitmap@, color, sx, sy, (n + 1) as nat, total);
                    assert(n % (w as int) == xx && n / (w as int) == yy) by (nonlinear_arith)
                        requires n == yy * w + xx, 0 <= xx < w;
                    crate::bits::lemma_u8_low_bits();
                    assert(bit & 7 == bit % 8);
                }
                if (bit & 7) == 0 {
                    assert(bo == bo0 + n / 8);
                    bits = bitmap[bo];
                    bo += 1;
                    proof {
                        let bk = bits;
                        assert((((bk as u32) << 0u32) as u8) == bk) by (bit_vector);
                    }
                } else {
                    assert((n - 1) / 8 == n / 8);
                }
                bit += 1;
                proof {
                    lemma_shift_bits(bitmap@[bo0 + n / 8], (n % 8) as u8);
                }
                let ghost b0 = backend.drawn();
                if (bits & 0x80) != 0 {
                    if size_x == 1 && size_y == 1 {
                        let px = x + xo as i16 + xx as i16;
                        let py = y + yo as i16 + yy as i16;
                        self.draw_text_cell(px, py, 1, 1, color, backend);
                    } else {
                        let px = x + (xo16 + xx as i16) * size_x as i16;
                        let py = y + (yo16 + yy as i16) * size_y as i16;
                        self.draw_text_cell(px, py, size_x, size_y, color, backend);
                    }
                }
                assert(backend.drawn() == start + glyph_cells(x as int, y as int, g, bitmap@, color, sx, sy, (n + 1) as nat)->0);
                let ghost pb = bits;
                bits <<= 1;
                proof {
                    assert((pb << 1u8) == (((pb as u32) << 1u32) as u8)) by (bit_vector);
                }
                xx += 1;
            }
            assert(yy * w + w == (yy + 1) * w) by (nonlinear_arith);
            yy += 1;
        }
        self.end_write();
        assert(yy * w == total) by (nonlinear_arith)
            requires yy == h, total == w * h;
    }


    /// Draw a character with its top left corner (built-in font) or its
    /// baseline origin (custom font) at (x, y), magnified by `size_x` x `size_y`.
    pub fn draw_char_xy<D: DrawPixel>(
        &mut self,
        x: i16,
        y: i16,
        c: u8,
        color: u16,
        bg: u16,
        size_x: u8,
        size_y: u8,
        backend: &mut D,
    )
        requires
            char_pixels(*old(self), x as int, y as int, c, color, bg, size_x, size_y) is Some,
        ensures
            *final(self) == *old(self),
            final(backend).drawn() == old(backend).drawn() + char_pixels(
                *old(self),
                x as int,
                y as int,
                c,
                color,
                bg,
                size_x,
                size_y,
            )->0,
    {
        let ghost start = backend.drawn();
        match self.gfx_font {
            None => {
                if (x >= self._width) || (y >= self._height) || ((x + 6 * size_x as i16 - 1) < 0) || ((y + 8
                    * size_y as i16 - 1) < 0) {
                    assert(backend.drawn() =~= start + seq![]);
                    return;
                }
                let mut c = c;
                if !self._cp437 && c >= 176 {
                    c = c.wrapping_add(1);
                }
                self.draw_classic_char(x, y, c, color, bg, size_x, size_y, backend);
            },
            Some(font) => {
                self.draw_custom_char(x, y, font, c, color, size_x, size_y, backend);
            },
        }
    }

    /// Draw a character magnified by `size` in both directions.
    pub fn draw_char<D: DrawPixel>(
        &mut self,
        x: i16,
        y: i16,
        c: u8,
        color: u16,
        bg: u16,
        size: u8,
        backend: &mut D,
    )
        requires
            char_pixels(*old(self), x as int, y as int, c, color, bg, size, size) is Some,
        ensures
            *final(self) == *old(self),
            final(backend).drawn() == old(backend).drawn() + char_pixels(
                *old(self),
                x as int,
                y as int,
                c,
                color,
                bg,
                size,
                size,
            )->0,
    {
        self.draw_char_xy(x, y, c, color, bg, size, size, backend);
    }

    /// Print one character at the cursor and advance the cursor, wrapping
    /// at the right edge when wrapping is on; newline and carriage return
    /// move the cursor only. Returns the number of characters written (1).
    pub fn write<D: DrawPixel>(&mut self, c: u8, backend: &mut D) -> (r: usize)
        requires
            write_spec(*old(self), c) is Some,
        ensures
            r == 1,
            ({
                let (nx, ny, drawn) = write_spec(*old(self), c)->0;
                &&& final(self).cursor_x == nx
                &&& final(self).cursor_y == ny
                &&& final(backend).drawn() == old(backend).drawn() + drawn
            }),
            *final(self) == (Adafruit_GFX { cursor_x: final(self).cursor_x, cursor_y: final(self).cursor_y, ..*old(self) }),
    {
        let ghost start = backend.drawn();
        match self.gfx_font {
            None => {
                if c == 10u8 {
                    self.cursor_x = 0;
                    self.cursor_y += self.textsize_y as i16 * 8;
                } else if c != 13u8 {
                    if self.wrap && ((self.cursor_x + self.textsize_x as i16 * 6) > self._width) {
                        self.cursor_x = 0;
                        self.cursor_y += self.textsize_y as i16 * 8;
                    }
                    let (cx, cy, tc, tb, tx, ty) = (
                        self.cursor_x,
                        self.cursor_y,
                        self.textcolor,
                        self.textbgcolor,
                        self.textsize_x,
                        self.textsize_y,
                    );
                    self.draw_char_xy(cx, cy, c, tc, tb, tx, ty, backend);
                    self.cursor_x += self.textsize_x as i16 * 6;
                }
            },
            Some(font) => {
                if c == 10u8 {
                    self.cursor_x = 0;
                    self.cursor_y += self.textsize_y as i16 * font.y_advance as i16;
                } else if c != 13u8 {
                    let first = font.first as u8;
                    let last = font.last as u8;
                    proof {
                        let fw = font.first;
                        let lw = font.last;
                        crate::bits::lemma_u16_bytes();
                        assert(first == fw % 256);
                        assert(last == lw % 256);
                    }
                    if c >= first && c <= last {
                        let glyph = font.glyph[(c - first) as usize];
                        let w = glyph.width;
                        let h = glyph.height;
                        if w > 0 && h > 0 {
                            let xo = glyph.x_offset;
                            if self.wrap && ((self.cursor_x + self.textsize_x as i16 * (xo as i16 + w as i16))
                                > self._width) {
                                self.cursor_x = 0;
                                self.cursor_y += self.textsize_y as i16 * font.y_advance as i16;
                            }
                            let (cx, cy, tc, tb, tx, ty) = (
                                self.cursor_x,
                                self.cursor_y,
                                self.textcolor,
                                self.textbgcolor,
                                self.textsize_x,
                                self.textsize_y,
                            );
                            self.draw_char_xy(cx, cy, c, tc, tb, tx, ty, backend);
                        }
                        self.cursor_x += glyph.x_advance as i16 * self.textsize_x as i16;
                    }
                }
            },
        }
        assert({
            let (nx, ny, drawn) = write_spec(*old(self), c)->0;
            backend.drawn() =~= start + drawn
        });
        1
    }

    /// Text magnification in both directions (0 counts as 1).
    pub fn set_text_size(&mut self, s: u8)
        ensures
            final(self).textsize_x == (if s > 0 { s } else { 1 }),
            final(self).textsize_y == (if s > 0 { s } else { 1 }),
            *final(self) == (Adafruit_GFX { textsize_x: final(self).textsize_x, textsize_y: final(self).textsize_y, ..*old(self) }),
    {
        self.set_text_size_xy(s, s);
    }

    /// Text magnification per direction (0 counts as 1).
    pub fn set_text_size_xy(&mut self, s_x: u8, s_y: u8)
        ensures
            final(self).textsize_x == (if s_x > 0 { s_x } else { 1 }),
            final(self).textsize_y == (if s_y > 0 { s_y } else { 1 }),
            *final(self) == (Adafruit_GFX { textsize_x: final(self).textsize_x, textsize_y: final(self).textsize_y, ..*old(self) }),
    {
        self.textsize_x = if s_x > 0 {
            s_x
        } else {
            1
        };
        self.textsize_y = if s_y > 0 {
            s_y
        } else {
            1
        };
    }

    /// Set the rotation (taken modulo 4); a quarter turn swaps width and height.
    pub fn set_rotation(&mut self, x: u8)
        ensures
            final(self).rotation == x % 4,
            final(self)._width == (if x % 2 == 0 { old(self).WIDTH } else { old(self).HEIGHT }),
            final(self)._height == (if x % 2 == 0 { old(self).HEIGHT } else { old(self).WIDTH }),
            *final(self) == (Adafruit_GFX {
                rotation: final(self).rotation,
                _width: final(self)._width,
                _height: final(self)._height,
                ..*old(self)
            }),
    {
        self.rotation = x & 3;
        proof {
            crate::bits::lemma_u8_low_bits();
        }
        assert(x & 3 == x % 4);
        match self.rotation {
            0 | 2 => {
                self._width = self.WIDTH;
                self._height = self.HEIGHT;
            },
            _ => {
                self._width = self.HEIGHT;
                self._height = self.WIDTH;
            },
        }
    }

    /// Select a custom font (or the built-in one with `None`); switching
    /// between the two moves the cursor 6 rows so text keeps its baseline.
    pub fn set_font(&mut self, f: Option<&'static GFXfont>)
        requires
            f is Some && old(self).gfx_font is None ==> old(self).cursor_y + 6 <= i16::MAX,
            f is None && old(self).gfx_font is Some ==> old(self).cursor_y - 6 >= i16::MIN,
        ensures
            final(self).gfx_font == f,
            final(self).cursor_y == (if f is Some && old(self).gfx_font is None {
                old(self).cursor_y + 6
            } else if f is None && old(self).gfx_font is Some {
                old(self).cursor_y - 6
            } else {
                old(self).cursor_y as int
            }),
            *final(self) == (Adafruit_GFX { gfx_font: f, cursor_y: final(self).cursor_y, ..*old(self) }),
    {
        if f.is_some() {
            if self.gfx_font.is_none() {
                self.cursor_y += 6;
            }
        } else if self.gfx_font.is_some() {
            self.cursor_y -= 6;
        }
        self.gfx_font = f;
    }

    /// Move the text cursor.
    pub fn set_cursor(&mut self, x: i16, y: i16)
        ensures
            *final(self) == (Adafruit_GFX { cursor_x: x, cursor_y: y, ..*old(self) }),
    {
        self.cursor_x = x;
        self.cursor_y = y;
    }

    /// Text color with a transparent background (both set to `c`).
    pub fn set_text_color(&mut self, c: u16)
        ensures
            *final(self) == (Adafruit_GFX { textcolor: c, textbgcolor: c, ..*old(self) }),
    {
        self.textcolor = c;
        self.textbgcolor = c;
    }

    /// Text and background colors.
    pub fn set_text_color_bg(&mut self, c: u16, bg: u16)
        ensures
            *final(self) == (Adafruit_GFX { textcolor: c, textbgcolor: bg, ..*old(self) }),
    {
        self.textcolor = c;
        self.textbgcolor = bg;
    }

    /// Wrap text at the right edge or clip it.
    pub fn set_text_wrap(&mut self, w: bool)
        ensures
            *final(self) == (Adafruit_GFX { wrap: w, ..*old(self) }),
    {
        self.wrap = w;
    }

    /// Use the correct CP437 character set (or the historical off-by-one one).
    pub fn cp437(&mut self, x: bool)
        ensures
            *final(self) == (Adafruit_GFX { _cp437: x, ..*old(self) }),
    {
        self._cp437 = x;
    }

    /// Width as modified by the rotation.
    pub fn width(&self) -> (r: i16)
        ensures
            r == self._width,
    {
        self._width
    }

    /// Height as modified by the rotation.
    pub fn height(&self) -> (r: i16)
        ensures
            r == self._height,
    {
        self._height
    }

    pub fn get_rotation(&self) -> (r: u8)
        ensures
            r == self.rotation,
    {
        self.rotation
    }

    pub fn get_cursor_x(&self) -> (r: i16)
        ensures
            r == self.cursor_x,
    {
        self.cursor_x
    }

    pub fn get_cursor_y(&self) -> (r: i16)
        ensures
            r == self.cursor_y,
    {
        self.cursor_y
    }

    /// Invert the display; the generic context has no hardware to do it, so nothing changes.
    pub fn invert_display(&mut self, _i: bool)
        ensures
            *final(self) == *old(self),
    {
    }


    /// Measure character `c`: advance the pen (x, y), wrapping like `write`
    /// does, and widen the box (minx, miny)-(maxx, maxy) to cover the glyph.
    pub fn char_bounds(
        &self,
        c: u8,
        x: &mut i16,
        y: &mut i16,
        minx: &mut i16,
        miny: &mut i16,
        maxx: &mut i16,
        maxy: &mut i16,
    )
        requires
            bounds_step(
                *self,
                c,
                (*old(x) as int, *old(y) as int, *old(minx) as int, *old(miny) as int, *old(maxx) as int, *old(maxy) as int),
            ) is Some,
        ensures
            (*final(x) as int, *final(y) as int, *final(minx) as int, *final(miny) as int, *final(maxx) as int, *final(maxy) as int)
                == bounds_step(
                *self,
                c,
                (*old(x) as int, *old(y) as int, *old(minx) as int, *old(miny) as int, *old(maxx) as int, *old(maxy) as int),
            )->0,
    {
        match self.gfx_font {
            Some(font) => {
                if c == 10u8 {
                    *x = 0;
                    *y += self.textsize_y as i16 * font.y_advance as i16;
                } else if c != 13u8 {
                    let first = font.first as u8;
                    let last = font.last as u8;
                    proof {
                        let fw = font.first;
                        let lw = font.last;
                        crate::bits::lemma_u16_bytes();
                        assert(first == fw % 256);
                        assert(last == lw % 256);
                    }
                    if c >= first && c <= last {
                        let glyph = font.glyph[(c - first) as usize];
                        let gw = glyph.width;
                        let gh = glyph.height;
                        let xa = glyph.x_advance;
                        let xo = glyph.x_offset;
                        let yo = glyph.y_offset;
                        if self.wrap && ((*x + ((xo as i16 + gw as i16) * self.textsize_x as i16)) > self._width) {
                            *x = 0;
                            *y += self.textsize_y as i16 * font.y_advance as i16;
                        }
                        let tsx = self.textsize_x as i16;
                        let tsy = self.textsize_y as i16;
                        let x1 = *x + xo as i16 * tsx;
                        let y1 = *y + yo as i16 * tsy;
                        let x2 = x1 + gw as i16 * tsx - 1;
                        let y2 = y1 + gh as i16 * tsy - 1;
                        if x1 < *minx {
                            *minx = x1;
                        }
                        if y1 < *miny {
                            *miny = y1;
                        }
                        if x2 > *maxx {
                            *maxx = x2;
                        }
                        if y2 > *maxy {
                            *maxy = y2;
                        }
                        *x += xa as i16 * tsx;
                    }
                }
            },
            None => {
                if c == 10u8 {
                    *x = 0;
                    *y += self.textsize_y as i16 * 8;
                } else if c != 13u8 {
                    if self.wrap && ((*x + self.textsize_x as i16 * 6) > self._width) {
                        *x = 0;
                        *y += self.textsize_y as i16 * 8;
                    }
                    let x2 = *x + self.textsize_x as i16 * 6 - 1;
                    let y2 = *y + self.textsize_y as i16 * 8 - 1;
                    if x2 > *maxx {
                        *maxx = x2;
                    }
                    if y2 > *maxy {
                        *maxy = y2;
                    }
                    if *x < *minx {
                        *minx = *x;
                    }
                    if *y < *miny {
                        *miny = *y;
                    }
                    *x += self.textsize_x as i16 * 6;
                }
            },
        }
    }

    /// The bounding box (x, y, w, h) of `s` printed from (x, y) with the
    /// current font, size and wrapping; w and h are 0 when nothing is drawn.
    pub fn get_text_bounds(&self, s: &str, x: i16, y: i16) -> (r: (i16, i16, u16, u16))
        requires
            text_bounds(*self, s.spec_bytes(), x as int, y as int) is Some,
        ensures
            (r.0 as int, r.1 as int, r.2 as int, r.3 as int) == text_bounds(*self, s.spec_bytes(), x as int, y as int)->0,
    {
        let ghost text = s.spec_bytes();
        let ghost st0 = (x as int, y as int, self._width as int, self._height as int, -1int, -1int);
        let bytes = s.as_bytes();
        let mut x = x;
        let mut y = y;
        let mut x1 = x;
        let mut y1 = y;
        let mut w: u16 = 0;
        let mut h: u16 = 0;
        let mut minx = self._width;
        let mut miny = self._height;
        let mut maxx: i16 = -1;
        let mut maxy: i16 = -1;
        let mut i: usize = 0;
        while i < bytes.len()
            invariant
                bytes@ == text,
                i <= text.len(),
                bounds_fold(*self, text, text.len(), st0) is Some,
                bounds_fold(*self, text, i as nat, st0) == Some(
                    (x as int, y as int, minx as int, miny as int, maxx as int, maxy as int),
                ),
                x1 == st0.0 && y1 == st0.1,
            decreases text.len() - i,
        {
            proof {
                lemma_bounds_prefix(*self, text, (i + 1) as nat, text.len(), st0);
            }
            self.char_bounds(bytes[i], &mut x, &mut y, &mut minx, &mut miny, &mut maxx, &mut maxy);
            i += 1;
        }
        if maxx >= minx {
            x1 = minx;
            w = (maxx - minx + 1) as u16;
        }
        if maxy >= miny {
            y1 = miny;
            h = (maxy - miny + 1) as u16;
        }
        (x1, y1, w, h)
    }

}

/// Display coordinates (x, y) turned into raw frame coordinates by the
/// context's rotation; `None` when the 16-bit arithmetic would overflow.
pub open spec fn rotate_xy(g: Adafruit_GFX, x: int, y: int) -> Option<(int, int)> {
    let wx = g.WIDTH - 1;
    let hy = g.HEIGHT - 1;
    if g.rotation == 1 {
        if i16_fits(wx) && i16_fits(wx - y) {
            Some((wx - y, x))
        } else {
            None
        }
    } else if g.rotation == 2 {
        if i16_fits(wx) && i16_fits(wx - x) && i16_fits(hy) && i16_fits(hy - y) {
            Some((wx - x, hy - y))
        } else {
            None
        }
    } else if g.rotation == 3 {
        if i16_fits(hy) && i16_fits(hy - x) {
            Some((y, hy - x))
        } else {
            None
        }
    } else {
        Some((x, y))
    }
}

/// (x, y) lies on the (rotated) display.
pub open spec fn on_screen(g: Adafruit_GFX, x: int, y: int) -> bool {
    0 <= x < g._width && 0 <= y < g._height
}

/// Bytes in one row of a 1-bit canvas `w` pixels wide.
pub open spec fn canvas1_row_bytes(w: int) -> int {
    (w + 7) / 8
}

/// The byte of a 1-bit canvas that holds raw pixel (rx, ry).
pub open spec fn canvas1_index(g: Adafruit_GFX, rx: int, ry: int) -> int {
    rx / 8 + ry * canvas1_row_bytes(g.WIDTH as int)
}

/// The bit of that byte: the leftmost pixel is the most significant bit.
pub open spec fn canvas1_mask(rx: int) -> u8 {
    0x80u8 >> ((rx % 8) as u8)
}

/// Drawing (x, y) on a canvas with `len` pixels (or bytes) and raw row
/// length `row` is well defined: off-screen points are skipped, on-screen
/// points land inside the buffer.
pub open spec fn canvas_point_ok(g: Adafruit_GFX, len: int, x: int, y: int, one_bit: bool) -> bool {
    len > 0 && on_screen(g, x, y) ==> match rotate_xy(g, x, y) {
        Some((rx, ry)) => {
            &&& 0 <= rx && 0 <= ry && g.WIDTH >= 0
            &&& if one_bit {
                canvas1_index(g, rx, ry) < len
            } else {
                rx + ry * g.WIDTH < len
            }
        },
        None => false,
    }
}

/// A vector of `n` copies of `v`.
pub(crate) fn vec_of<T: Copy>(v: T, n: usize) -> (r: Vec<T>)
    ensures
        r@ == Seq::new(n as nat, |i: int| v),
{
    let mut r: Vec<T> = Vec::new();
    let mut i: usize = 0;
    while i < n
        invariant
            i <= n,
            r@ == Seq::new(i as nat, |k: int| v),
        decreases n - i,
    {
        r.push(v);
        i += 1;
    }
    r
}

fn fits16(v: i32) -> (r: bool)
    ensures
        r == i16_fits(v as int),
{
    -32768 <= v && v <= 32767
}

/// Decides `canvas_point_ok` for a canvas with `len` cells.
fn canvas_point_check(g: &Adafruit_GFX, len: usize, x: i16, y: i16, one_bit: bool) -> (r: bool)
    ensures
        r == canvas_point_ok(*g, len as int, x as int, y as int, one_bit),
{
    if len == 0 || x < 0 || y < 0 || x >= g._width || y >= g._height {
        return true;
    }
    let wx: i32 = g.WIDTH as i32 - 1;
    let hy: i32 = g.HEIGHT as i32 - 1;
    let xi: i32 = x as i32;
    let yi: i32 = y as i32;
    let rx: i32;
    let ry: i32;
    if g.rotation == 1 {
        if !(fits16(wx) && fits16(wx - yi)) {
            return false;
        }
        rx = wx - yi;
        ry = xi;
    } else if g.rotation == 2 {
        if !(fits16(wx) && fits16(wx - xi) && fits16(hy) && fits16(hy - yi)) {
            return false;
        }
        rx = wx - xi;
        ry = hy - yi;
    } else if g.rotation == 3 {
        if !(fits16(hy) && fits16(hy - xi)) {
            return false;
        }
        rx = yi;
        ry = hy - xi;
    } else {
        rx = xi;
        ry = yi;
    }
    if rx < 0 || ry < 0 || g.WIDTH < 0 {
        return false;
    }
    let w64: u64 = g.WIDTH as u64;
    let rx64: u64 = rx as u64;
    let ry64: u64 = ry as u64;
    assert(ry64 * ((w64 + 7) / 8) <= 32767 * 32767) by (nonlinear_arith)
        requires ry64 <= 32767, w64 <= 32767;
    assert(ry64 * w64 <= 32767 * 32767) by (nonlinear_arith)
        requires ry64 <= 32767, w64 <= 32767;
    if one_bit {
        rx64 / 8 + ry64 * ((w64 + 7) / 8) < len as u64
    } else {
        rx64 + ry64 * w64 < len as u64
    }
}

/// A 1-bit canvas: an in-memory frame, eight pixels per byte.
pub struct GFXcanvas1 {
    pub gfx: Adafruit_GFX,
    buffer: Vec<u8>,
    log: Ghost<Seq<Pixel>>,
}

impl GFXcanvas1 {
    /// The frame bytes.
    pub closed spec fn frame(&self) -> Seq<u8> {
        self.buffer@
    }

    /// The canvas's graphics context.
    pub closed spec fn ctx(&self) -> Adafruit_GFX {
        self.gfx
    }

    /// A `w` x `h` canvas, all pixels clear.
    pub fn new(w: u16, h: u16) -> (r: Self)
        ensures
            fresh_gfx(r.ctx(), w as i16, h as i16),
            r.frame() == Seq::new((((w as int + 7) / 8) * h as int) as nat, |i: int| 0u8),
            r.drawn() == Seq::<Pixel>::empty(),
    {
        assert(((w as usize + 7) / 8) * (h as usize) <= 8192 * 65535) by (nonlinear_arith)
            requires w <= 65535, h <= 65535;
        let bytes = ((w as usize + 7) / 8) * h as usize;
        let buffer = vec_of(0u8, bytes);
        let wi: i16 = #[verifier::truncate] (w as i16);
        let hi: i16 = #[verifier::truncate] (h as i16);
        GFXcanvas1 { gfx: Adafruit_GFX::new(wi, hi), buffer, log: Ghost(Seq::empty()) }
    }

    /// Set (nonzero color) or clear (zero) one pixel; off-screen points are skipped.
    pub fn draw_pixel(&mut self, x: i16, y: i16, color: u16)
        requires
            canvas_point_ok(old(self).ctx(), old(self).frame().len() as int, x as int, y as int, true),
        ensures
            final(self).ctx() == old(self).ctx(),
            final(self).drawn() == old(self).drawn(),
            final(self).frame() == (if old(self).frame().len() > 0 && on_screen(old(self).ctx(), x as int, y as int) {
                let (rx, ry) = rotate_xy(old(self).ctx(), x as int, y as int)->0;
                let i = canvas1_index(old(self).ctx(), rx, ry);
                let b = old(self).frame()[i];
                old(self).frame().update(i, if color != 0 {
                    b | canvas1_mask(rx)
                } else {
                    b & !canvas1_mask(rx)
                })
            } else {
                old(self).frame()
            }),
    {
        if self.buffer.len() == 0 {
            return;
        }
        let mut x = x;
        let mut y = y;
        if x < 0 || y < 0 || x >= self.gfx._width || y >= self.gfx._height {
            return;
        }
        match self.gfx.rotation {
            1 => {
                let t = x;
                x = self.gfx.WIDTH - 1 - y;
                y = t;
            },
            2 => {
                x = self.gfx.WIDTH - 1 - x;
                y = self.gfx.HEIGHT - 1 - y;
            },
            3 => {
                let t = x;
                x = y;
                y = self.gfx.HEIGHT - 1 - t;
            },
            _ => {},
        }
        let idx = (x / 8) as usize + y as usize * ((self.gfx.WIDTH as usize + 7) / 8);
        assert(x & 7 == x % 8) by (bit_vector)
            requires x >= 0;
        assert(0x80u8 >> ((x & 7) as u8) == canvas1_mask(x as int));
        if color != 0 {
            self.buffer.set(idx, self.buffer[idx] | (0x80u8 >> (x & 7)));
        } else {
            self.buffer.set(idx, self.buffer[idx] & !(0x80u8 >> (x & 7)));
        }
    }

    /// Set (nonzero color) or clear (zero) every pixel of the frame.
    pub fn fill_screen(&mut self, color: u16)
        requires
            old(self).frame().len() > 0 ==> old(self).ctx().WIDTH >= 0 && old(self).ctx().HEIGHT >= 0
                && canvas1_row_bytes(old(self).ctx().WIDTH as int) * old(self).ctx().HEIGHT <= old(self).frame().len(),
        ensures
            final(self).ctx() == old(self).ctx(),
            final(self).drawn() == old(self).drawn(),
            final(self).frame().len() == old(self).frame().len(),
            forall|i: int|
                0 <= i < old(self).frame().len() ==> #[trigger] final(self).frame()[i] == if i
                    < canvas1_row_bytes(old(self).ctx().WIDTH as int) * old(self).ctx().HEIGHT {
                    if color != 0 {
                        0xFFu8
                    } else {
                        0u8
                    }
                } else {
                    old(self).frame()[i]
                },
    {
        if self.buffer.len() > 0 {
            let bytes = ((self.gfx.WIDTH as usize + 7) / 8) * self.gfx.HEIGHT as usize;
            let val: u8 = if color != 0 {
                0xFF
            } else {
                0x00
            };
            let mut i: usize = 0;
            while i < bytes
                invariant
                    self.gfx == old(self).ctx(),
                    self.log == old(self).log,
                    bytes == canvas1_row_bytes(old(self).ctx().WIDTH as int) * old(self).ctx().HEIGHT,
                    bytes <= self.buffer@.len(),
                    self.buffer@.len() == old(self).frame().len(),
                    i <= bytes,
                    forall|k: int| 0 <= k < old(self).frame().len() ==> #[trigger] self.buffer@[k] == if k < i {
                        val
                    } else {
                        old(self).frame()[k]
                    },
                decreases bytes - i,
            {
                self.buffer.set(i, val);
                i += 1;
            }
        }
    }

    /// The frame bytes.
    pub fn get_buffer(&self) -> (r: &[u8])
        ensures
            r@ == self.frame(),
    {
        self.buffer.as_slice()
    }
}

impl DrawPixel for GFXcanvas1 {
    closed spec fn drawn(&self) -> Seq<Pixel> {
        self.log@
    }

    /// Draws the pixel as `GFXcanvas1::draw_pixel` does; a point whose
    /// raw position falls outside the frame (possible only when the public
    /// geometry was changed by hand) is dropped.
    fn draw_pixel(&mut self, x: i16, y: i16, color: u16) {
        if canvas_point_check(&self.gfx, self.buffer.len(), x, y, true) {
            GFXcanvas1::draw_pixel(self, x, y, color);
        }
        self.log = Ghost(self.log@.push((x as int, y as int, color)));
    }
}

/// Where a horizontal run on an 8- or 16-bit canvas lands: the clipped
/// start column and length; `None` when the run is skipped (off the screen
/// or entirely left of it).
pub open spec fn hline_clip(g: Adafruit_GFX, x: int, y: int, w: int) -> Option<(int, int)> {
    if x >= g._width || y < 0 || y >= g._height {
        None
    } else {
        let x2 = x + w - 1;
        if x2 < 0 {
            None
        } else {
            let (cx, cw) = if x < 0 {
                (0, x2 + 1)
            } else {
                (x, w)
            };
            Some((cx, if x2 >= g._width { g._width - cx } else { cw }))
        }
    }
}

/// The run lands inside the frame: the arithmetic stays in 16 bits and the
/// raw cells written lie in the buffer of `len` cells.
pub open spec fn canvas_hline_ok(g: Adafruit_GFX, len: int, x: int, y: int, w: int) -> bool {
    i16_fits(x + w) && i16_fits(x + w - 1) && match hline_clip(g, x, y, w) {
        None => true,
        Some((cx, cw)) => match rotate_xy(g, cx, y) {
            Some((rx, ry)) => 0 <= rx && 0 <= ry && 0 <= cw && 0 <= g.WIDTH && ry * g.WIDTH + rx + cw <= len,
            None => false,
        },
    }
}

/// The frame `f` with cells `start .. start + n` set to `v`.
pub open spec fn fill_cells<T>(f: Seq<T>, start: int, n: int, v: T) -> Seq<T> {
    Seq::new(f.len(), |i: int| if start <= i < start + n { v } else { f[i] })
}

/// An 8-bit canvas: one byte per pixel.
pub struct GFXcanvas8 {
    pub gfx: Adafruit_GFX,
    buffer: Vec<u8>,
    log: Ghost<Seq<Pixel>>,
}

impl GFXcanvas8 {
    /// The frame bytes.
    pub closed spec fn frame(&self) -> Seq<u8> {
        self.buffer@
    }

    /// The canvas's graphics context.
    pub closed spec fn ctx(&self) -> Adafruit_GFX {
        self.gfx
    }

    /// A `w` x `h` canvas, all pixels 0.
    pub fn new(w: u16, h: u16) -> (r: Self)
        ensures
            fresh_gfx(r.ctx(), w as i16, h as i16),
            r.frame() == Seq::new((w as int * h as int) as nat, |i: int| 0u8),
            r.drawn() == Seq::<Pixel>::empty(),
    {
        assert((w as usize) * (h as usize) <= 65535 * 65535) by (nonlinear_arith)
            requires w <= 65535, h <= 65535;
        let bytes = w as usize * h as usize;
        let buffer = vec_of(0u8, bytes);
        let wi: i16 = #[verifier::truncate] (w as i16);
        let hi: i16 = #[verifier::truncate] (h as i16);
        GFXcanvas8 { gfx: Adafruit_GFX::new(wi, hi), buffer, log: Ghost(Seq::empty()) }
    }

    /// Store the low byte of `color` at one pixel; off-screen points are skipped.
    pub fn draw_pixel(&mut self, x: i16, y: i16, color: u16)
        requires
            canvas_point_ok(old(self).ctx(), old(self).frame().len() as int, x as int, y as int, false),
        ensures
            final(self).ctx() == old(self).ctx(),
            final(self).drawn() == old(self).drawn(),
            final(self).frame() == (if old(self).frame().len() > 0 && on_screen(old(self).ctx(), x as int, y as int) {
                let (rx, ry) = rotate_xy(old(self).ctx(), x as int, y as int)->0;
                old(self).frame().update(rx + ry * old(self).ctx().WIDTH, color as u8)
            } else {
                old(self).frame()
            }),
    {
        if self.buffer.len() == 0 {
            return;
        }
        let mut x = x;
        let mut y = y;
        if x < 0 || y < 0 || x >= self.gfx._width || y >= self.gfx._height {
            return;
        }
        match self.gfx.rotation {
            1 => {
                let t = x;
                x = self.gfx.WIDTH - 1 - y;
                y = t;
            },
            2 => {
                x = self.gfx.WIDTH - 1 - x;
                y = self.gfx.HEIGHT - 1 - y;
            },
            3 => {
                let t = x;
                x = y;
                y = self.gfx.HEIGHT - 1 - t;
            },
            _ => {},
        }
        assert((y as usize) * (self.gfx.WIDTH as usize) <= 32767 * 32767) by (nonlinear_arith)
            requires 0 <= y <= 32767, 0 <= self.gfx.WIDTH <= 32767;
        let idx = x as usize + y as usize * self.gfx.WIDTH as usize;
        self.buffer.set(idx, color as u8);
    }

    /// Store the low byte of `color` in every pixel of the frame.
    pub fn fill_screen(&mut self, color: u16)
        requires
            old(self).frame().len() > 0 ==> old(self).ctx().WIDTH >= 0 && old(self).ctx().HEIGHT >= 0
                && old(self).ctx().WIDTH * old(self).ctx().HEIGHT <= old(self).frame().len(),
        ensures
            final(self).ctx() == old(self).ctx(),
            final(self).drawn() == old(self).drawn(),
            final(self).frame() == (if old(self).frame().len() > 0 {
                fill_cells(old(self).frame(), 0, old(self).ctx().WIDTH * old(self).ctx().HEIGHT, color as u8)
            } else {
                old(self).frame()
            }),
    {
        if self.buffer.len() > 0 {
            assert((self.gfx.WIDTH as usize) * (self.gfx.HEIGHT as usize) <= 32767 * 32767) by (nonlinear_arith)
                requires 0 <= self.gfx.WIDTH <= 32767, 0 <= self.gfx.HEIGHT <= 32767;
            let total = self.gfx.WIDTH as usize * self.gfx.HEIGHT as usize;
            let val = color as u8;
            fill_run(&mut self.buffer, 0, total, val);
        }
    }

    /// A horizontal run of the low byte of `color`, clipped to the screen,
    /// written along a raw frame row from the rotated start point.
    pub fn write_fast_h_line(&mut self, x: i16, y: i16, w: i16, color: u16)
        requires
            canvas_hline_ok(old(self).ctx(), old(self).frame().len() as int, x as int, y as int, w as int),
        ensures
            final(self).ctx() == old(self).ctx(),
            final(self).drawn() == old(self).drawn(),
            final(self).frame() == match hline_clip(old(self).ctx(), x as int, y as int, w as int) {
                None => old(self).frame(),
                Some((cx, cw)) => {
                    let (rx, ry) = rotate_xy(old(self).ctx(), cx, y as int)->0;
                    fill_cells(old(self).frame(), ry * old(self).ctx().WIDTH + rx, cw, color as u8)
                },
            },
    {
        if (x >= self.gfx._width) || (y < 0) || (y >= self.gfx._height) {
            return;
        }
        let mut x = x;
        let mut w = w;
        let x2 = x + w - 1;
        if x2 < 0 {
            return;
        }
        if x < 0 {
            x = 0;
            w = x2 + 1;
        }
        if x2 >= self.gfx._width {
            w = self.gfx._width - x;
        }
        let mut rx = x;
        let mut ry = y;
        match self.gfx.rotation {
            1 => {
                let t = rx;
                rx = self.gfx.WIDTH - 1 - ry;
                ry = t;
            },
            2 => {
                rx = self.gfx.WIDTH - 1 - rx;
                ry = self.gfx.HEIGHT - 1 - ry;
            },
            3 => {
                let t = rx;
                rx = ry;
                ry = self.gfx.HEIGHT - 1 - t;
            },
            _ => {},
        }
        assert((ry as usize) * (self.gfx.WIDTH as usize) <= 32767 * 32767) by (nonlinear_arith)
            requires 0 <= ry <= 32767, 0 <= self.gfx.WIDTH <= 32767;
        let start = ry as usize * self.gfx.WIDTH as usize + rx as usize;
        fill_run(&mut self.buffer, start, w as usize, color as u8);
    }

    /// The frame bytes.
    pub fn get_buffer(&self) -> (r: &[u8])
        ensures
            r@ == self.frame(),
    {
        self.buffer.as_slice()
    }
}

impl DrawPixel for GFXcanvas8 {
    closed spec fn drawn(&self) -> Seq<Pixel> {
        self.log@
    }

    /// Draws the pixel as `GFXcanvas8::draw_pixel` does; a point whose raw
    /// position falls outside the frame is dropped.
    fn draw_pixel(&mut self, x: i16, y: i16, color: u16) {
        if canvas_point_check(&self.gfx, self.buffer.len(), x, y, false) {
            GFXcanvas8::draw_pixel(self, x, y, color);
        }
        self.log = Ghost(self.log@.push((x as int, y as int, color)));
    }
}

/// Set cells `start .. start + n` of `buf` to `v`.
pub(crate) fn fill_run<T: Copy>(buf: &mut Vec<T>, start: usize, n: usize, v: T)
    requires
        start + n <= old(buf)@.len(),
    ensures
        final(buf)@ == fill_cells(old(buf)@, start as int, n as int, v),
{
    let mut i: usize = 0;
    while i < n
        invariant
            i <= n,
            start + n <= buf.len(),
            buf@ == fill_cells(old(buf)@, start as int, i as int, v),
        decreases n - i,
    {
        buf.set(start + i, v);
        i += 1;
        assert(buf@ =~= fill_cells(old(buf)@, start as int, i as int, v));
    }
}

/// `v` with its two bytes exchanged.
pub open spec fn swap16_spec(v: u16) -> u16 {
    ((v % 256) * 256 + v / 256) as u16
}

fn swap16(v: u16) -> (r: u16)
    ensures
        r == swap16_spec(v),
{
    let r = (v >> 8u16) | (v << 8u16);
    assert((v >> 8u16) | (v << 8u16) == ((v % 256) * 256 + v / 256) as u16) by (bit_vector);
    r
}

/// A 16-bit canvas: one 5-6-5 color per pixel.
pub struct GFXcanvas16 {
    pub gfx: Adafruit_GFX,
    buffer: Vec<u16>,
    log: Ghost<Seq<Pixel>>,
}

impl GFXcanvas16 {
    /// The frame's pixels.
    pub closed spec fn frame(&self) -> Seq<u16> {
        self.buffer@
    }

    /// The canvas's graphics context.
    pub closed spec fn ctx(&self) -> Adafruit_GFX {
        self.gfx
    }

    /// A `w` x `h` canvas, all pixels 0.
    pub fn new(w: u16, h: u16) -> (r: Self)
        ensures
            fresh_gfx(r.ctx(), w as i16, h as i16),
            r.frame() == Seq::new((w as int * h as int) as nat, |i: int| 0u16),
            r.drawn() == Seq::<Pixel>::empty(),
    {
        assert((w as usize) * (h as usize) <= 65535 * 65535) by (nonlinear_arith)
            requires w <= 65535, h <= 65535;
        let pixels = w as usize * h as usize;
        let buffer = vec_of(0u16, pixels);
        let wi: i16 = #[verifier::truncate] (w as i16);
        let hi: i16 = #[verifier::truncate] (h as i16);
        GFXcanvas16 { gfx: Adafruit_GFX::new(wi, hi), buffer, log: Ghost(Seq::empty()) }
    }

    /// Store `color` at one pixel; off-screen points are skipped.
    pub fn draw_pixel(&mut self, x: i16, y: i16, color: u16)
        requires
            canvas_point_ok(old(self).ctx(), old(self).frame().len() as int, x as int, y as int, false),
        ensures
            final(self).ctx() == old(self).ctx(),
            final(self).drawn() == old(self).drawn(),
            final(self).frame() == (if old(self).frame().len() > 0 && on_screen(old(self).ctx(), x as int, y as int) {
                let (rx, ry) = rotate_xy(old(self).ctx(), x as int, y as int)->0;
                old(self).frame().update(rx + ry * old(self).ctx().WIDTH, color)
            } else {
                old(self).frame()
            }),
    {
        if self.buffer.len() == 0 {
            return;
        }
        let mut x = x;
        let mut y = y;
        if x < 0 || y < 0 || x >= self.gfx._width || y >= self.gfx._height {
            return;
        }
        match self.gfx.rotation {
            1 => {
                let t = x;
                x = self.gfx.WIDTH - 1 - y;
                y = t;
            },
            2 => {
                x = self.gfx.WIDTH - 1 - x;
                y = self.gfx.HEIGHT - 1 - y;
            },
            3 => {
                let t = x;
                x = y;
                y = self.gfx.HEIGHT - 1 - t;
            },
            _ => {},
        }
        assert((y as usize) * (self.gfx.WIDTH as usize) <= 32767 * 32767) by (nonlinear_arith)
            requires 0 <= y <= 32767, 0 <= self.gfx.WIDTH <= 32767;
        let idx = x as usize + y as usize * self.gfx.WIDTH as usize;
        self.buffer.set(idx, color);
    }

    /// Store `color` in every pixel of the frame.
    pub fn fill_screen(&mut self, color: u16)
        requires
            old(self).frame().len() > 0 ==> old(self).ctx().WIDTH >= 0 && old(self).ctx().HEIGHT >= 0
                && old(self).ctx().WIDTH * old(self).ctx().HEIGHT <= old(self).frame().len(),
        ensures
            final(self).ctx() == old(self).ctx(),
            final(self).drawn() == old(self).drawn(),
            final(self).frame() == (if old(self).frame().len() > 0 {
                fill_cells(old(self).frame(), 0, old(self).ctx().WIDTH * old(self).ctx().HEIGHT, color)
            } else {
                old(self).frame()
            }),
    {
        if self.buffer.len() > 0 {
            assert((self.gfx.WIDTH as usize) * (self.gfx.HEIGHT as usize) <= 32767 * 32767) by (nonlinear_arith)
                requires 0 <= self.gfx.WIDTH <= 32767, 0 <= self.gfx.HEIGHT <= 32767;
            let hi = (color >> 8u16) as u8;
            let lo = (color & 0xFFu16) as u8;
            let total = self.gfx.WIDTH as usize * self.gfx.HEIGHT as usize;
            if hi == lo {
                fill_run(&mut self.buffer, 0, total, color);
            } else {
                fill_run(&mut self.buffer, 0, total, color);
            }
        }
    }

    /// Exchange the two bytes of every pixel of the frame (little- to
    /// big-endian or back).
    pub fn byte_swap(&mut self)
        requires
            old(self).frame().len() > 0 ==> old(self).ctx().WIDTH >= 0 && old(self).ctx().HEIGHT >= 0
                && old(self).ctx().WIDTH * old(self).ctx().HEIGHT <= old(self).frame().len(),
        ensures
            final(self).ctx() == old(self).ctx(),
            final(self).drawn() == old(self).drawn(),
            final(self).frame().len() == old(self).frame().len(),
            forall|i: int|
                0 <= i < old(self).frame().len() ==> #[trigger] final(self).frame()[i] == if i
                    < old(self).ctx().WIDTH * old(self).ctx().HEIGHT {
                    swap16_spec(old(self).frame()[i])
                } else {
                    old(self).frame()[i]
                },
            final(self).frame() == swapped_frame(old(self).frame(), old(self).ctx().WIDTH * old(self).ctx().HEIGHT),
    {
        if self.buffer.len() > 0 {
            assert((self.gfx.WIDTH as usize) * (self.gfx.HEIGHT as usize) <= 32767 * 32767) by (nonlinear_arith)
                requires 0 <= self.gfx.WIDTH <= 32767, 0 <= self.gfx.HEIGHT <= 32767;
            let pixels = self.gfx.WIDTH as usize * self.gfx.HEIGHT as usize;
            let mut i: usize = 0;
            while i < pixels
                invariant
                    self.gfx == old(self).gfx,
                    self.log == old(self).log,
                    pixels == old(self).ctx().WIDTH * old(self).ctx().HEIGHT,
                    pixels <= self.buffer@.len(),
                    self.buffer@.len() == old(self).frame().len(),
                    i <= pixels,
                    forall|k: int|
                        0 <= k < old(self).frame().len() ==> #[trigger] self.buffer@[k] == if k < i {
                            swap16_spec(old(self).frame()[k])
                        } else {
                            old(self).frame()[k]
                        },
                decreases pixels - i,
            {
                let v = swap16(self.buffer[i]);
                self.buffer.set(i, v);
                i += 1;
            }
        }
        assert(self.buffer@ =~= swapped_frame(old(self).frame(), old(self).ctx().WIDTH * old(self).ctx().HEIGHT));
    }

    /// The frame's pixels.
    pub fn get_buffer(&self) -> (r: &[u16])
        ensures
            r@ == self.frame(),
    {
        self.buffer.as_slice()
    }
}

impl DrawPixel for GFXcanvas16 {
    closed spec fn drawn(&self) -> Seq<Pixel> {
        self.log@
    }

    /// Draws the pixel as `GFXcanvas16::draw_pixel` does; a point whose raw
    /// position falls outside the frame is dropped.
    fn draw_pixel(&mut self, x: i16, y: i16, color: u16) {
        if canvas_point_check(&self.gfx, self.buffer.len(), x, y, false) {
            GFXcanvas16::draw_pixel(self, x, y, color);
        }
        self.log = Ghost(self.log@.push((x as int, y as int, color)));
    }
}

/// Writing the first `n` characters of `text` from context `g`, one
/// `write` after another: the context afterwards and the pixels drawn;
/// `None` when one of the writes would overflow.
#[verifier::opaque]
pub open spec fn write_text(g: Adafruit_GFX, text: Seq<u8>, n: nat) -> Option<(Adafruit_GFX, Seq<Pixel>)>
    decreases n,
{
    if n == 0 {
        Some((g, seq![]))
    } else if n > text.len() {
        None
    } else {
        match write_text(g, text, (n - 1) as nat) {
            None => None,
            Some((g1, px)) => match write_spec(g1, text[n - 1]) {
                None => None,
                Some((nx, ny, d)) => Some((Adafruit_GFX { cursor_x: nx as i16, cursor_y: ny as i16, ..g1 }, px + d)),
            },
        }
    }
}

proof fn lemma_write_text_prefix(g: Adafruit_GFX, text: Seq<u8>, k: nat, n: nat)
    requires
        k <= n,
        write_text(g, text, n) is Some,
    ensures
        write_text(g, text, k) is Some,
    decreases n - k,
{
    reveal(write_text);
    if k < n {
        lemma_write_text_prefix(g, text, k, (n - 1) as nat);
    }
}

/// The length of a zero-terminated label: the index of its first 0 byte
/// at or after `i`, or its full length when there is none.
pub open spec fn label_len_from(l: Seq<u8>, i: nat) -> nat
    decreases l.len() - i,
{
    if i >= l.len() {
        l.len()
    } else if l[i as int] == 0 {
        i
    } else {
        label_len_from(l, i + 1)
    }
}

/// How far left of the centre a label of `n` characters of text size `s`
/// starts: half its width, 6 * s pixels per character.
#[verifier::opaque]
pub open spec fn label_shift(n: int, s: int) -> int {
    n * 3 * s
}

fn label_shift_exec(n: usize, s: u8) -> (r: i16)
    requires
        n <= 10,
    ensures
        r == label_shift(n as int, s as int),
{
    reveal(label_shift);
    assert(n * 3 * s <= 7650) by (nonlinear_arith)
        requires n <= 10, s <= 255;
    n as i16 * 3 * s as i16
}

/// What a button holds: its box, colors, text size, label and touch state.
#[verifier::ext_equal]
pub struct ButtonView {
    pub x1: i16,
    pub y1: i16,
    pub w: u16,
    pub h: u16,
    pub textsize_x: u8,
    pub textsize_y: u8,
    pub outline: u16,
    pub fill: u16,
    pub text: u16,
    pub label: Seq<u8>,
    pub currstate: bool,
    pub laststate: bool,
}

/// A button's box: the rounded rectangle filled with `fill`, then its
/// outline in `outline`; `None` when either would overflow.
#[verifier::opaque]
pub open spec fn button_box(x: int, y: int, w: int, h: int, r: int, fill: u16, outline: u16) -> Option<Seq<Pixel>> {
    if fill_round_rect_spec(x, y, w, h, r, fill) is Some && round_rect_ok(x, y, w, h, r) {
        Some(fill_round_rect_spec(x, y, w, h, r, fill)->0 + round_rect_pixels(x, y, w, h, r, outline))
    } else {
        None
    }
}

/// Drawing button `b` on context `g`: the context afterwards (cursor,
/// text color and size changed by the label) and the pixels drawn (the
/// filled rounded box, its outline, then the centred label); `None` when
/// the 16-bit arithmetic would overflow.
pub open spec fn button_spec(b: ButtonView, g: Adafruit_GFX, inverted: bool) -> Option<(Adafruit_GFX, Seq<Pixel>)> {
    let (fill, outline, text) = if !inverted {
        (b.fill, b.outline, b.text)
    } else {
        (b.text, b.outline, b.fill)
    };
    let w = (b.w as i16) as int;
    let h = (b.h as i16) as int;
    let r = tdiv(((if b.w < b.h { b.w } else { b.h }) as i16) as int, 4);
    let n = label_len_from(b.label, 0);
    let cx0 = b.x1 + half(w);
    let cy0 = b.y1 + half(h);
    let cx = cx0 - label_shift(n as int, b.textsize_x as int);
    let cy = cy0 - 4 * b.textsize_y;
    if !(button_box(b.x1 as int, b.y1 as int, w, h, r, fill, outline) is Some && i16_fits(cx0) && i16_fits(cx)
        && i16_fits(cy0) && i16_fits(cy)) {
        None
    } else {
        let g1 = Adafruit_GFX {
            cursor_x: cx as i16,
            cursor_y: cy as i16,
            textcolor: text,
            textbgcolor: text,
            textsize_x: if b.textsize_x > 0 { b.textsize_x } else { 1 },
            textsize_y: if b.textsize_y > 0 { b.textsize_y } else { 1 },
            ..g
        };
        match write_text(g1, b.label, n) {
            None => None,
            Some((g2, px)) => Some((g2, button_box(b.x1 as int, b.y1 as int, w, h, r, fill, outline)->0 + px)),
        }
    }
}

/// A simple drawn button UI element.
pub struct Adafruit_GFX_Button {
    _x1: i16,
    _y1: i16,
    _w: u16,
    _h: u16,
    _textsize_x: u8,
    _textsize_y: u8,
    _outlinecolor: u16,
    _fillcolor: u16,
    _textcolor: u16,
    _label: [u8; 10],
    currstate: bool,
    laststate: bool,
}

impl View for Adafruit_GFX_Button {
    type V = ButtonView;

    closed spec fn view(&self) -> ButtonView {
        ButtonView {
            x1: self._x1,
            y1: self._y1,
            w: self._w,
            h: self._h,
            textsize_x: self._textsize_x,
            textsize_y: self._textsize_y,
            outline: self._outlinecolor,
            fill: self._fillcolor,
            text: self._textcolor,
            label: self._label@,
            currstate: self.currstate,
            laststate: self.laststate,
        }
    }
}

impl Adafruit_GFX_Button {
    /// A button with everything zero and an empty label.
    pub fn new() -> (r: Self)
        ensures
            r@ == (ButtonView {
                x1: 0,
                y1: 0,
                w: 0,
                h: 0,
                textsize_x: 0,
                textsize_y: 0,
                outline: 0,
                fill: 0,
                text: 0,
                label: Seq::new(10, |i: int| 0u8),
                currstate: false,
                laststate: false,
            }),
    {
        let r = Adafruit_GFX_Button {
            _x1: 0,
            _y1: 0,
            _w: 0,
            _h: 0,
            _textsize_x: 0,
            _textsize_y: 0,
            _outlinecolor: 0,
            _fillcolor: 0,
            _textcolor: 0,
            _label: [0u8; 10],
            currstate: false,
            laststate: false,
        };
        assert(r._label@ =~= Seq::new(10, |i: int| 0u8));
        r
    }

    /// Set up the button from its centre (x, y) and size.
    pub fn init_button(
        &mut self,
        x: i16,
        y: i16,
        w: u16,
        h: u16,
        outline: u16,
        fill: u16,
        textcolor: u16,
        label: &str,
        textsize: u8,
    )
        requires
            i16_fits(x - half((w as i16) as int)),
            i16_fits(y - half((h as i16) as int)),
        ensures
            final(self)@ == button_init_spec(
                old(self)@,
                (x - half((w as i16) as int)) as i16,
                (y - half((h as i16) as int)) as i16,
                w,
                h,
                outline,
                fill,
                textcolor,
                label.spec_bytes(),
                textsize,
                textsize,
            ),
    {
        let wi: i16 = #[verifier::truncate] (w as i16);
        let hi: i16 = #[verifier::truncate] (h as i16);
        self.init_button_ul(x - (wi / 2), y - (hi / 2), w, h, outline, fill, textcolor, label, textsize, textsize);
    }

    /// Set up the button from its upper-left corner and size; the label
    /// keeps at most 9 bytes and is zero-terminated.
    pub fn init_button_ul(
        &mut self,
        x1: i16,
        y1: i16,
        w: u16,
        h: u16,
        outline: u16,
        fill: u16,
        textcolor: u16,
        label: &str,
        textsize_x: u8,
        textsize_y: u8,
    )
        ensures
            final(self)@ == button_init_spec(
                old(self)@,
                x1,
                y1,
                w,
                h,
                outline,
                fill,
                textcolor,
                label.spec_bytes(),
                textsize_x,
                textsize_y,
            ),
    {
        self._x1 = x1;
        self._y1 = y1;
        self._w = w;
        self._h = h;
        self._outlinecolor = outline;
        self._fillcolor = fill;
        self._textcolor = textcolor;
        self._textsize_x = textsize_x;
        self._textsize_y = textsize_y;
        let bytes = label.as_bytes();
        let copy_len = if bytes.len() < 9 {
            bytes.len()
        } else {
            9
        };
        let mut lab = self._label;
        let ghost old_label = lab@;
        let mut i: usize = 0;
        while i < copy_len
            invariant
                copy_len <= 9,
                copy_len <= bytes@.len(),
                bytes@ == label.spec_bytes(),
                i <= copy_len,
                lab@.len() == 10,
                old_label.len() == 10,
                forall|k: int| 0 <= k < 10 ==> #[trigger] lab@[k] == if k < i {
                    bytes@[k]
                } else {
                    old_label[k]
                },
            decreases copy_len - i,
        {
            lab[i] = bytes[i];
            i += 1;
        }
        lab[copy_len] = 0;
        self._label = lab;
        assert(old_label == old(self)@.label);
        assert(self@.label =~= button_label(old_label, label.spec_bytes()));
        assert(self@ =~= button_init_spec(
            old(self)@,
            x1,
            y1,
            w,
            h,
            outline,
            fill,
            textcolor,
            label.spec_bytes(),
            textsize_x,
            textsize_y,
        ));
    }

    /// Draw the button on `gfx`: the filled rounded box, its outline and
    /// the centred label; `inverted` swaps the fill and text colors.
    #[verifier::rlimit(40)]
    pub fn draw_button<D: DrawPixel>(&self, gfx: &mut Adafruit_GFX, inverted: bool, backend: &mut D)
        requires
            button_spec(self@, *old(gfx), inverted) is Some,
        ensures
            ({
                let (g2, px) = button_spec(self@, *old(gfx), inverted)->0;
                *final(gfx) == g2 && final(backend).drawn() == old(backend).drawn() + px
            }),
    {
        let ghost start = backend.drawn();
        let (fill, outline, text) = if !inverted {
            (self._fillcolor, self._outlinecolor, self._textcolor)
        } else {
            (self._textcolor, self._outlinecolor, self._fillcolor)
        };
        let m: u16 = if self._w < self._h {
            self._w
        } else {
            self._h
        };
        let r: i16 = (#[verifier::truncate] (m as i16)) / 4;
        let wi: i16 = #[verifier::truncate] (self._w as i16);
        let hi: i16 = #[verifier::truncate] (self._h as i16);
        Self::draw_box(gfx, self._x1, self._y1, wi, hi, r, fill, outline, backend);
        let label_len = self.label_length();
        let shift = label_shift_exec(label_len, self._textsize_x);
        gfx.set_cursor(
            self._x1 + (wi / 2) - shift,
            self._y1 + (hi / 2) - (4 * self._textsize_y as i16),
        );
        gfx.set_text_color(text);
        gfx.set_text_size_xy(self._textsize_x, self._textsize_y);
        self.write_label(gfx, label_len, backend);
        proof {
            let (_, px) = button_spec(self@, *old(gfx), inverted)->0;
            assert(backend.drawn() =~= start + px);
        }
    }

    fn draw_box<D: DrawPixel>(
        gfx: &mut Adafruit_GFX,
        x: i16,
        y: i16,
        w: i16,
        h: i16,
        r: i16,
        fill: u16,
        outline: u16,
        backend: &mut D,
    )
        requires
            button_box(x as int, y as int, w as int, h as int, r as int, fill, outline) is Some,
        ensures
            *final(gfx) == *old(gfx),
            final(backend).drawn() == old(backend).drawn() + button_box(
                x as int,
                y as int,
                w as int,
                h as int,
                r as int,
                fill,
                outline,
            )->0,
    {
        reveal(button_box);
        let ghost start = backend.drawn();
        gfx.fill_round_rect(x, y, w, h, r, fill, backend);
        gfx.draw_round_rect(x, y, w, h, r, outline, backend);
        assert(backend.drawn() =~= start + button_box(x as int, y as int, w as int, h as int, r as int, fill, outline)->0);
    }

    /// The label's length: up to its first 0 byte.
    fn label_length(&self) -> (n: usize)
        ensures
            n <= 10,
            n == label_len_from(self._label@, 0),
    {
        let mut n: usize = 0;
        while n < 10 && self._label[n] != 0
            invariant
                n <= 10,
                self._label@.len() == 10,
                label_len_from(self._label@, 0) == label_len_from(self._label@, n as nat),
            decreases 10 - n,
        {
            n += 1;
        }
        n
    }

    /// Write the first `n` label bytes at the cursor.
    fn write_label<D: DrawPixel>(&self, gfx: &mut Adafruit_GFX, n: usize, backend: &mut D)
        requires
            n <= 10,
            write_text(*old(gfx), self._label@, n as nat) is Some,
        ensures
            ({
                let (g2, px) = write_text(*old(gfx), self._label@, n as nat)->0;
                *final(gfx) == g2 && final(backend).drawn() == old(backend).drawn() + px
            }),
    {
        reveal(write_text);
        let ghost g1 = *gfx;
        let ghost mid = backend.drawn();
        let mut i: usize = 0;
        while i < n
            invariant
                n <= 10,
                self._label@.len() == 10,
                i <= n,
                write_text(g1, self._label@, n as nat) is Some,
                write_text(g1, self._label@, i as nat) == Some((*gfx, backend.drawn().subrange(mid.len() as int, backend.drawn().len() as int))),
                mid.len() <= backend.drawn().len(),
                backend.drawn().subrange(0, mid.len() as int) == mid,
            decreases n - i,
        {
            proof {
                reveal(write_text);
                lemma_write_text_prefix(g1, self._label@, (i + 1) as nat, n as nat);
            }
            let ghost before = backend.drawn();
            gfx.write(self._label[i], backend);
            i += 1;
            proof {
                reveal(write_text);
                let (gp, _) = write_text(g1, self._label@, (i - 1) as nat)->0;
                let (_, _, d) = write_spec(gp, self._label@[i - 1])->0;
                assert(backend.drawn().subrange(mid.len() as int, backend.drawn().len() as int) =~= before.subrange(
                    mid.len() as int,
                    before.len() as int,
                ) + d);
            }
            assert(backend.drawn().subrange(0, mid.len() as int) =~= mid);
        }
        assert(backend.drawn() =~= mid + backend.drawn().subrange(mid.len() as int, backend.drawn().len() as int));
    }

    /// Whether (x, y) lies inside the button's box.
    pub fn contains(&self, x: i16, y: i16) -> (r: bool)
        requires
            i16_fits(self@.x1 + (self@.w as i16)),
            i16_fits(self@.y1 + (self@.h as i16)),
        ensures
            r == (x >= self@.x1 && x < self@.x1 + (self@.w as i16) && y >= self@.y1 && y < self@.y1 + (self@.h as i16)),
    {
        let wi: i16 = #[verifier::truncate] (self._w as i16);
        let hi: i16 = #[verifier::truncate] (self._h as i16);
        (x >= self._x1) && (x < (self._x1 + wi)) && (y >= self._y1) && (y < (self._y1 + hi))
    }

    /// Record the touch state: the current state becomes the last one.
    pub fn press(&mut self, p: bool)
        ensures
            final(self)@ == (ButtonView { currstate: p, laststate: old(self)@.currstate, ..old(self)@ }),
    {
        self.laststate = self.currstate;
        self.currstate = p;
    }

    /// Pressed now and not before.
    pub fn just_pressed(&self) -> (r: bool)
        ensures
            r == (self@.currstate && !self@.laststate),
    {
        self.currstate && !self.laststate
    }

    /// Pressed before and not now.
    pub fn just_released(&self) -> (r: bool)
        ensures
            r == (!self@.currstate && self@.laststate),
    {
        !self.currstate && self.laststate
    }

    /// Pressed now.
    pub fn is_pressed(&self) -> (r: bool)
        ensures
            r == self@.currstate,
    {
        self.currstate
    }
}

/// The label bytes after `init_button_ul` with text `s`: at most 9 bytes of
/// `s`, then a 0; the rest of the old label stays.
pub open spec fn button_label(old_label: Seq<u8>, s: Seq<u8>) -> Seq<u8> {
    let n = if s.len() < 9 {
        s.len() as int
    } else {
        9
    };
    Seq::new(10, |k: int| if k < n { s[k] } else if k == n { 0u8 } else { old_label[k] })
}

/// The button after `init_button_ul`: new box, colors and sizes, the new
/// label; the touch state stays.
pub open spec fn button_init_spec(
    b: ButtonView,
    x1: i16,
    y1: i16,
    w: u16,
    h: u16,
    outline: u16,
    fill: u16,
    text: u16,
    label: Seq<u8>,
    tsx: u8,
    tsy: u8,
) -> ButtonView {
    ButtonView {
        x1,
        y1,
        w,
        h,
        textsize_x: tsx,
        textsize_y: tsy,
        outline,
        fill,
        text,
        label: button_label(b.label, label),
        ..b
    }
}

} // verus!
