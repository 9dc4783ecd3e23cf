//! The pictures in the menu bar: rows of pixels, each of four bytes for red, green, blue and
//! opacity.

use vstd::prelude::*;
use vstd::arithmetic::div_mod;

verus! {

/// A pixel's red, green, blue and opacity.
#[derive(Clone, Copy, Debug, PartialEq, Eq, Structural)]
pub struct Color {
    pub r: u8,
    pub g: u8,
    pub b: u8,
    pub a: u8,
}

/// A picture, row by row.
#[derive(Debug)]
pub struct IconImage {
    pub rgba: Vec<u8>,
    pub width: u32,
    pub height: u32,
}

/// The side of the square icons.
pub const ICON_SIZE: usize = 32;

/// The width of the microphone icon.
pub const MIC_WIDTH: usize = 55;

/// The height of the microphone icon.
pub const MIC_HEIGHT: usize = 72;

/// Opacity of the ring that progress has not reached.
pub const DIM: u8 = 60;

/// Whether a picture has four bytes for every pixel.
pub open spec fn is_picture(image: IconImage) -> bool {
    image.rgba@.len() == image.width * image.height * 4
}

/// One of the four bytes of a pixel.
pub open spec fn channel(color: Color, k: int) -> u8 {
    if k == 0 {
        color.r
    } else if k == 1 {
        color.g
    } else if k == 2 {
        color.b
    } else {
        color.a
    }
}

/// Black of the given opacity.
pub open spec fn black(a: u8) -> Color {
    Color { r: 0, g: 0, b: 0, a }
}

/// A picture once all pixels that `on` picks, counted row by row, have the given color.
pub open spec fn painted(rgba: Seq<u8>, on: spec_fn(int) -> bool, color: Color) -> Seq<u8> {
    Seq::new(
        rgba.len(),
        |i: int|
            if on(i / 4) {
                channel(color, i % 4)
            } else {
                rgba[i]
            },
    )
}

/// A picture of `pixels` pixels that shows nothing.
pub open spec fn transparent(pixels: nat) -> Seq<u8> {
    Seq::new(pixels * 4, |i: int| 0u8)
}

proof fn lemma_paint_more(
    rgba: Seq<u8>,
    before: spec_fn(int) -> bool,
    now: spec_fn(int) -> bool,
    after: spec_fn(int) -> bool,
    color: Color,
)
    requires
        forall|p: int| #![trigger after(p)] after(p) == (before(p) || now(p)),
    ensures
        painted(painted(rgba, before, color), now, color) == painted(rgba, after, color),
{
    assert forall|i: int| 0 <= i < rgba.len() implies painted(
        painted(rgba, before, color),
        now,
        color,
    )[i] == painted(rgba, after, color)[i] by {
        assert(after(i / 4) == (before(i / 4) || now(i / 4)));
    }
    assert(painted(painted(rgba, before, color), now, color) =~= painted(rgba, after, color));
}

proof fn lemma_same_paint(
    rgba: Seq<u8>,
    a: spec_fn(int) -> bool,
    b: spec_fn(int) -> bool,
    color: Color,
)
    requires
        forall|p: int| 0 <= p && p * 4 < rgba.len() ==> #[trigger] a(p) == b(p),
    ensures
        painted(rgba, a, color) == painted(rgba, b, color),
{
    assert forall|i: int| 0 <= i < rgba.len() implies painted(rgba, a, color)[i] == painted(
        rgba,
        b,
        color,
    )[i] by {
        assert(a(i / 4) == b(i / 4));
    }
    assert(painted(rgba, a, color) =~= painted(rgba, b, color));
}

/// Gives one pixel a color.
pub fn set_pixel(rgba: &mut Vec<u8>, width: usize, x: usize, y: usize, color: Color)
    requires
        (y * width + x) * 4 + 4 <= old(rgba)@.len(),
    ensures
        final(rgba)@ == painted(old(rgba)@, |p: int| p == y * width + x, color),
{
    let ghost at = y * width + x;
    assert(0 <= y * width) by (nonlinear_arith)
        requires
            0 <= y,
            0 <= width,
    ;
    assert(at * 4 + 4 <= rgba.len());
    let index: usize = (y * width + x) * 4;
    rgba.set(index, color.r);
    rgba.set(index + 1, color.g);
    rgba.set(index + 2, color.b);
    rgba.set(index + 3, color.a);
    assert(rgba@ =~= painted(old(rgba)@, |p: int| p == y * width + x, color));
}

/// Whether pixel `p` of a picture lies in a square around a point.
pub open spec fn in_square(width: int, p: int, x: int, y: int, radius: int) -> bool {
    &&& x - radius <= p % width <= x + radius
    &&& y - radius <= p / width <= y + radius
}

proof fn lemma_pixel_position(width: int, x: int, y: int)
    requires
        0 <= x < width,
        0 <= y,
    ensures
        (y * width + x) / width == y,
        (y * width + x) % width == x,
        0 <= y * width + x,
{
    assert(0 <= y * width) by (nonlinear_arith)
        requires
            0 <= y,
            0 < width,
    ;
    div_mod::lemma_fundamental_div_mod_converse(y * width + x, width, y, x);
}

/// Whether pixel `p` lies in the columns from `x0` to below `x1` of the rows from `y0` to below
/// `y1`.
pub open spec fn in_box(width: int, p: int, x0: int, x1: int, y0: int, y1: int) -> bool {
    &&& x0 <= p % width < x1
    &&& y0 <= p / width < y1
}

/// The pixels of a box that are painted before column `x` of row `y` is reached.
spec fn done(width: int, p: int, x0: int, x1: int, y0: int, y: int, x: int) -> bool {
    ||| in_box(width, p, x0, x1, y0, y)
    ||| in_box(width, p, x0, x, y, y + 1)
}

proof fn lemma_next_pixel(width: int, x0: int, x1: int, y0: int, y: int, x: int)
    requires
        0 <= x0 <= x < x1 <= width,
        0 <= y0 <= y,
    ensures
        forall|p: int| #[trigger]
            done(width, p, x0, x1, y0, y, x + 1) == (done(width, p, x0, x1, y0, y, x) || p == y
                * width + x),
{
    lemma_pixel_position(width, x, y);
    assert forall|p: int| #[trigger]
        done(width, p, x0, x1, y0, y, x + 1) == (done(width, p, x0, x1, y0, y, x) || p == y * width
            + x) by {
        if done(width, p, x0, x1, y0, y, x + 1) && !done(width, p, x0, x1, y0, y, x) {
            div_mod::lemma_fundamental_div_mod(p, width);
            assert(width * y == y * width) by (nonlinear_arith);
        }
    }
}

/// Paints the columns from `x0` to below `x1` of the rows from `y0` to below `y1` black.
fn fill(rgba: &mut Vec<u8>, width: usize, x0: usize, x1: usize, y0: usize, y1: usize)
    requires
        x1 <= width,
        x0 < x1 && y0 < y1 ==> ((y1 - 1) * width + x1) * 4 <= old(rgba)@.len(),
    ensures
        final(rgba)@ == painted(
            old(rgba)@,
            |p: int| in_box(width as int, p, x0 as int, x1 as int, y0 as int, y1 as int),
            black(255),
        ),
{
    let ghost start = rgba@;
    let ghost w = width as int;
    let color = Color { r: 0, g: 0, b: 0, a: 255 };
    let mut y: usize = y0;
    assert(painted(start, |p: int| in_box(w, p, x0 as int, x1 as int, y0 as int, y as int), color)
        =~= start);
    while y < y1
        invariant
            w == width,
            x1 <= width,
            x0 < x1 && y0 < y1 ==> ((y1 - 1) * width + x1) * 4 <= start.len(),
            color == black(255),
            y0 <= y,
            y <= y1 || y == y0,
            rgba@ == painted(
                start,
                |p: int| in_box(w, p, x0 as int, x1 as int, y0 as int, y as int),
                color,
            ),
        decreases y1 - y,
    {
        let mut x: usize = x0;
        proof {
            lemma_same_paint(
                start,
                |p: int| in_box(w, p, x0 as int, x1 as int, y0 as int, y as int),
                |p: int| done(w, p, x0 as int, x1 as int, y0 as int, y as int, x as int),
                color,
            );
        }
        while x < x1
            invariant
                w == width,
                x1 <= width,
                y0 <= y < y1,
                x0 < x1 && y0 < y1 ==> ((y1 - 1) * width + x1) * 4 <= start.len(),
                color == black(255),
                x0 <= x,
                x <= x1 || x == x0,
                rgba@ == painted(
                    start,
                    |p: int| done(w, p, x0 as int, x1 as int, y0 as int, y as int, x as int),
                    color,
                ),
            decreases x1 - x,
        {
            proof {
                assert(y * width <= (y1 - 1) * width) by (nonlinear_arith)
                    requires
                        y <= y1 - 1,
                        0 <= width,
                ;
                lemma_next_pixel(w, x0 as int, x1 as int, y0 as int, y as int, x as int);
                lemma_paint_more(
                    start,
                    |p: int| done(w, p, x0 as int, x1 as int, y0 as int, y as int, x as int),
                    |p: int| p == y * width + x,
                    |p: int| done(w, p, x0 as int, x1 as int, y0 as int, y as int, x + 1),
                    color,
                );
            }
            set_pixel(rgba, width, x, y, color);
            x += 1;
        }
        proof {
            lemma_same_paint(
                start,
                |p: int| done(w, p, x0 as int, x1 as int, y0 as int, y as int, x as int),
                |p: int| in_box(w, p, x0 as int, x1 as int, y0 as int, y + 1),
                color,
            );
        }
        y += 1;
    }
    proof {
        lemma_same_paint(
            start,
            |p: int| in_box(w, p, x0 as int, x1 as int, y0 as int, y as int),
            |p: int| in_box(w, p, x0 as int, x1 as int, y0 as int, y1 as int),
            color,
        );
    }
}

/// The rows that a picture's bytes fill.
pub open spec fn rows(rgba: Seq<u8>, width: int) -> int {
    rgba.len() as int / 4 / width
}

/// The rows that a stroke can reach: those of the picture, and the first one in any case.
pub open spec fn reachable_rows(rgba: Seq<u8>, width: int) -> int {
    if rows(rgba, width) > 0 {
        rows(rgba, width)
    } else {
        1
    }
}

/// Paints the square around a point black, as far as it lies in the picture. Where the picture
/// has no whole row, its bytes hold the part of the first one that is painted.
pub fn draw_stroke(rgba: &mut Vec<u8>, width: usize, x: usize, y: usize, radius: usize)
    requires
        width > 0,
        rows(old(rgba)@, width as int) == 0 && y <= radius && x - radius < width ==> (if x + radius
            < width {
            x + radius + 1
        } else {
            width as int
        }) * 4 <= old(rgba)@.len(),
        x + radius <= usize::MAX,
        y + radius <= usize::MAX,
    ensures
        final(rgba)@ == painted(
            old(rgba)@,
            |p: int|
                in_square(width as int, p, x as int, y as int, radius as int) && p / (width as int)
                    < reachable_rows(old(rgba)@, width as int),
            black(255),
        ),
{
    let ghost w = width as int;
    let ghost start = rgba@;
    let height: usize = rgba.len() / 4 / width;
    let x0: usize = if x > radius {
        x - radius
    } else {
        0
    };
    let y0: usize = if y > radius {
        y - radius
    } else {
        0
    };
    let x1: usize = if x + radius < width {
        x + radius + 1
    } else {
        width
    };
    let y1: usize = if y + radius < height {
        y + radius + 1
    } else if height > 0 {
        height
    } else {
        1
    };
    proof {
        div_mod::lemma_fundamental_div_mod(rgba@.len() as int / 4, w);
        if height > 0 {
            assert((y1 - 1) * w + x1 <= height * w && height * w == w * height)
                by (nonlinear_arith)
                requires
                    y1 <= height,
                    x1 <= w,
                    0 <= w,
            ;
        }
        assert forall|p: int| 0 <= p implies 0 <= #[trigger] (p % w) < w && 0 <= p / w by {
            div_mod::lemma_fundamental_div_mod(p, w);
            div_mod::lemma_mod_bound(p, w);
            div_mod::lemma_div_pos_is_pos(p, w);
        }
        lemma_same_paint(
            start,
            |p: int| in_box(w, p, x0 as int, x1 as int, y0 as int, y1 as int),
            |p: int| in_square(w, p, x as int, y as int, radius as int) && p / w < reachable_rows(start, w),
            black(255),
        );
    }
    fill(rgba, width, x0, x1, y0, y1);
}

/// Whether stroke `k` of the check mark's short leg covers a pixel.
pub open spec fn on_short_leg(p: int, k: int) -> bool {
    in_square(ICON_SIZE as int, p, 8 + k, 17 + k, 2)
}

/// Whether stroke `k` of the check mark's long leg covers a pixel.
pub open spec fn on_long_leg(p: int, k: int) -> bool {
    in_square(ICON_SIZE as int, p, 13 + k, 22 - k, 2)
}

/// The pixels of the first strokes of the check mark.
pub open spec fn on_check_mark(p: int, short: int, long: int) -> bool {
    ||| exists|k: int| 0 <= k < short && #[trigger] on_short_leg(p, k)
    ||| exists|k: int| 0 <= k < long && #[trigger] on_long_leg(p, k)
}

fn blank(width: usize, height: usize) -> (rgba: Vec<u8>)
    requires
        width * height * 4 <= usize::MAX,
    ensures
        rgba@ == transparent((width * height) as nat),
{
    assert(0 <= width * height) by (nonlinear_arith)
        requires
            0 <= width,
            0 <= height,
    ;
    let rgba: Vec<u8> = vec![0u8; width * height * 4];
    assert(rgba@ =~= transparent((width * height) as nat));
    rgba
}

/// Draws the check mark that stands for a recording.
pub fn draw_checkmark_icon() -> (icon: IconImage)
    ensures
        is_picture(icon),
        icon.width == ICON_SIZE,
        icon.height == ICON_SIZE,
        icon.rgba@ == painted(
            transparent(1024),
            |p: int| on_check_mark(p, 6, 12),
            black(255),
        ),
{
    let mut rgba = blank(ICON_SIZE, ICON_SIZE);
    let ghost start = transparent(1024);
    assert(painted(start, |p: int| on_check_mark(p, 0, 0), black(255)) =~= start);
    let mut k: usize = 0;
    while k < 6
        invariant
            k <= 6,
            start == transparent(1024),
            rgba@ == painted(start, |p: int| on_check_mark(p, k as int, 0), black(255)),
        decreases 6 - k,
    {
        let ghost before = rgba@;
        draw_stroke(&mut rgba, ICON_SIZE, 8 + k, 17 + k, 2);
        proof {
            lemma_same_paint(
                before,
                |p: int|
                    in_square(32, p, 8 + k, 17 + k, 2) && p / (ICON_SIZE as int) < reachable_rows(
                        before,
                        ICON_SIZE as int,
                    ),
                |p: int| on_short_leg(p, k as int),
                black(255),
            );
            assert forall|p: int| #[trigger]
                on_check_mark(p, k + 1, 0) == (on_check_mark(p, k as int, 0) || on_short_leg(
                    p,
                    k as int,
                )) by {
                if on_short_leg(p, k as int) {
                    assert(0 <= k < k + 1);
                }
            }
            lemma_paint_more(
                start,
                |p: int| on_check_mark(p, k as int, 0),
                |p: int| on_short_leg(p, k as int),
                |p: int| on_check_mark(p, k + 1, 0),
                black(255),
            );
        }
        k += 1;
    }
    k = 0;
    while k < 12
        invariant
            k <= 12,
            start == transparent(1024),
            rgba@ == painted(start, |p: int| on_check_mark(p, 6, k as int), black(255)),
        decreases 12 - k,
    {
        let ghost before = rgba@;
        draw_stroke(&mut rgba, ICON_SIZE, 13 + k, 22 - k, 2);
        proof {
            lemma_same_paint(
                before,
                |p: int|
                    in_square(32, p, 13 + k, 22 - k, 2) && p / (ICON_SIZE as int) < reachable_rows(
                        before,
                        ICON_SIZE as int,
                    ),
                |p: int| on_long_leg(p, k as int),
                black(255),
            );
            assert forall|p: int| #[trigger]
                on_check_mark(p, 6, k + 1) == (on_check_mark(p, 6, k as int) || on_long_leg(
                    p,
                    k as int,
                )) by {
                if on_long_leg(p, k as int) {
                    assert(0 <= k < k + 1);
                }
            }
            lemma_paint_more(
                start,
                |p: int| on_check_mark(p, 6, k as int),
                |p: int| on_long_leg(p, k as int),
                |p: int| on_check_mark(p, 6, k + 1),
                black(255),
            );
        }
        k += 1;
    }
    IconImage { rgba, width: ICON_SIZE as u32, height: ICON_SIZE as u32 }
}

/// The column in which row `y` of the play triangle ends: the triangle narrows from column 21
/// in row 16 to column 13 in rows 11 and 21, by eight fifths of a column per row, rounded.
pub open spec fn triangle_end(y: int) -> int {
    let off = if y < 16 {
        16 - y
    } else {
        y - 16
    };
    13 + (16 * (5 - off) + 5) / 10
}

/// Whether pixel `p` of a square picture lies in the play triangle.
pub open spec fn in_triangle(size: int, p: int) -> bool {
    let y = p / size;
    &&& 11 <= y <= 21
    &&& y < size
    &&& 13 <= p % size <= triangle_end(y)
}

/// The part of the play triangle in the rows from 11 to below `y`.
spec fn in_triangle_top(size: int, p: int, y: int) -> bool {
    in_triangle(size, p) && p / size < y
}

/// Draws a triangle that points to the right, in the middle of a square picture.
pub fn draw_play_triangle(rgba: &mut Vec<u8>, size: usize)
    requires
        forall|p: int| #[trigger] in_triangle(size as int, p) ==> p * 4 + 4 <= old(rgba)@.len(),
    ensures
        final(rgba)@ == painted(old(rgba)@, |p: int| in_triangle(size as int, p), black(255)),
{
    let ghost start = rgba@;
    let ghost s = size as int;
    let mut y: usize = 11;
    assert(painted(start, |p: int| in_triangle_top(s, p, y as int), black(255)) =~= start);
    while y <= 21 && y < size
        invariant
            s == size,
            11 <= y <= 22,
            forall|p: int| #[trigger] in_triangle(s, p) ==> p * 4 + 4 <= start.len(),
            rgba@ == painted(start, |p: int| in_triangle_top(s, p, y as int), black(255)),
        decreases 22 - y,
    {
        let off: usize = if y < 16 {
            16 - y
        } else {
            y - 16
        };
        let end: usize = 13 + (16 * (5 - off) + 5) / 10;
        let x1: usize = if end < size {
            end + 1
        } else {
            size
        };
        let ghost before = rgba@;
        proof {
            if 13 < x1 {
                lemma_pixel_position(s, x1 - 1, y as int);
                assert(in_triangle(s, y * s + x1 - 1));
            }
        }
        fill(rgba, size, 13, x1, y, y + 1);
        proof {
            assert forall|p: int| 0 <= p implies 0 <= #[trigger] (p % s) < s by {
                div_mod::lemma_mod_bound(p, s);
            }
            lemma_same_paint(
                before,
                |p: int| in_box(s, p, 13, x1 as int, y as int, y + 1),
                |p: int| in_triangle(s, p) && p / s == y,
                black(255),
            );
            lemma_paint_more(
                start,
                |p: int| in_triangle_top(s, p, y as int),
                |p: int| in_triangle(s, p) && p / s == y,
                |p: int| in_triangle_top(s, p, y + 1),
                black(255),
            );
        }
        y += 1;
    }
    proof {
        lemma_same_paint(
            start,
            |p: int| in_triangle_top(s, p, y as int),
            |p: int| in_triangle(s, p),
            black(255),
        );
    }
}

/// A pixel of a picture.
#[derive(Clone, Copy, Debug, PartialEq, Eq, Structural)]
pub struct Point {
    pub x: usize,
    pub y: usize,
}

/// Whether pixel `p` is one of the given points.
pub open spec fn is_among(width: int, points: Seq<Point>, p: int) -> bool {
    exists|k: int| 0 <= k < points.len() && p == #[trigger] points[k].y * width + points[k].x
}

/// Gives the given points black of one opacity.
pub fn plot(rgba: &mut Vec<u8>, width: usize, points: &[Point], alpha: u8)
    requires
        forall|k: int|
            0 <= k < points@.len() ==> (#[trigger] points@[k].y * width + points@[k].x) * 4 + 4
                <= old(rgba)@.len(),
    ensures
        final(rgba)@ == painted(
            old(rgba)@,
            |p: int| is_among(width as int, points@, p),
            black(alpha),
        ),
{
    let ghost start = rgba@;
    let ghost w = width as int;
    let color = Color { r: 0, g: 0, b: 0, a: alpha };
    let mut k: usize = 0;
    assert(painted(start, |p: int| is_among(w, points@.take(0), p), color) =~= start);
    while k < points.len()
        invariant
            k <= points@.len(),
            w == width,
            color == black(alpha),
            forall|k: int|
                0 <= k < points@.len() ==> (#[trigger] points@[k].y * width + points@[k].x) * 4 + 4
                    <= start.len(),
            rgba@ == painted(start, |p: int| is_among(w, points@.take(k as int), p), color),
        decreases points.len() - k,
    {
        let point = points[k];
        proof {
            let now = points@.take(k + 1);
            let before = points@.take(k as int);
            assert(point == points@[k as int]);
            assert((points@[k as int].y * width + points@[k as int].x) * 4 + 4 <= start.len());
            assert forall|p: int| #[trigger]
                is_among(w, now, p) == (is_among(w, before, p) || p == point.y * width
                    + point.x) by {
                if is_among(w, now, p) {
                    let j = choose|j: int|
                        0 <= j < now.len() && p == #[trigger] now[j].y * w + now[j].x;
                    if j < k {
                        assert(before[j] == now[j]);
                    } else {
                        assert(now[j] == point);
                    }
                }
                if is_among(w, before, p) {
                    let j = choose|j: int|
                        0 <= j < before.len() && p == #[trigger] before[j].y * w + before[j].x;
                    assert(now[j] == before[j]);
                }
                if p == point.y * width + point.x {
                    assert(now[k as int] == point);
                    assert(p == now[k as int].y * w + now[k as int].x);
                }
            }
            lemma_paint_more(
                start,
                |p: int| is_among(w, before, p),
                |p: int| p == point.y * width + point.x,
                |p: int| is_among(w, now, p),
                color,
            );
        }
        set_pixel(rgba, width, point.x, point.y, color);
        k += 1;
    }
    assert(points@.take(k as int) == points@);
}

/// Whether points lie in a square icon.
pub open spec fn fit_icon(points: Seq<Point>) -> bool {
    forall|k: int|
        0 <= k < points.len() ==> (#[trigger] points[k]).x < ICON_SIZE && points[k].y < ICON_SIZE
}

/// The part of the ring that progress has reached: all of it at a hundred percent.
pub open spec fn bright_part(progress: u8, ring: Seq<Point>, reached: Seq<Point>) -> Seq<Point> {
    if progress == 0 {
        Seq::empty()
    } else if progress == 100 {
        ring
    } else {
        reached
    }
}

/// The progress icon: a dim ring, over it the bright part that progress has reached, if any,
/// and over both the play triangle, if the transcript is to be submitted.
pub open spec fn progress_picture(
    progress: u8,
    submit: bool,
    ring: Seq<Point>,
    reached: Seq<Point>,
) -> Seq<u8> {
    let size = ICON_SIZE as int;
    let dim = painted(transparent(1024), |p: int| is_among(size, ring, p), black(DIM));
    let part = bright_part(progress, ring, reached);
    let bright = painted(dim, |p: int| is_among(size, part, p), black(255));
    if submit {
        painted(bright, |p: int| in_triangle(size, p), black(255))
    } else {
        bright
    }
}

/// Draws the progress of a transcription. `ring` holds the pixels of the whole ring and
/// `reached` those of the part that progress has reached, which counts where that is neither
/// nothing nor all.
pub fn draw_progress_icon(progress: u8, submit: bool, ring: &[Point], reached: &[Point]) -> (icon:
    IconImage)
    requires
        fit_icon(ring@),
        fit_icon(reached@),
    ensures
        is_picture(icon),
        icon.width == ICON_SIZE,
        icon.height == ICON_SIZE,
        icon.rgba@ == progress_picture(progress, submit, ring@, reached@),
{
    let mut rgba = blank(ICON_SIZE, ICON_SIZE);
    plot(&mut rgba, ICON_SIZE, ring, DIM);
    let part: &[Point] = if progress == 0 {
        &[]
    } else if progress == 100 {
        ring
    } else {
        reached
    };
    assert(part@ =~= bright_part(progress, ring@, reached@));
    plot(&mut rgba, ICON_SIZE, part, 255);
    if submit {
        draw_play_triangle(&mut rgba, ICON_SIZE);
    }
    IconImage { rgba, width: ICON_SIZE as u32, height: ICON_SIZE as u32 }
}

/// The microphone icon in a color, as opaque in each pixel as the glyph covers it.
pub open spec fn microphone_picture(color: (u8, u8, u8), coverage: Seq<u8>) -> Seq<u8> {
    Seq::new(
        coverage.len() * 4,
        |i: int|
            channel(
                Color { r: color.0, g: color.1, b: color.2, a: coverage[i / 4] },
                i % 4,
            ),
    )
}

/// Draws the microphone in a color, or in black. `coverage` says, pixel by pixel, how much of
/// it the glyph covers.
pub fn load_microphone_icon(color: Option<(u8, u8, u8)>, coverage: &[u8]) -> (icon: IconImage)
    requires
        coverage@.len() == MIC_WIDTH * MIC_HEIGHT,
    ensures
        is_picture(icon),
        icon.width == MIC_WIDTH,
        icon.height == MIC_HEIGHT,
        icon.rgba@ == microphone_picture(
            match color {
                Some(c) => c,
                None => (0u8, 0u8, 0u8),
            },
            coverage@,
        ),
{
    let (r, g, b): (u8, u8, u8) = match color {
        Some(c) => c,
        None => (0, 0, 0),
    };
    let mut rgba: Vec<u8> = Vec::new();
    let mut p: usize = 0;
    while p < coverage.len()
        invariant
            p <= coverage@.len(),
            rgba@ == microphone_picture((r, g, b), coverage@.take(p as int)),
        decreases coverage.len() - p,
    {
        let ghost before = rgba@;
        rgba.push(r);
        rgba.push(g);
        rgba.push(b);
        rgba.push(coverage[p]);
        assert(rgba@ =~= microphone_picture((r, g, b), coverage@.take(p + 1)));
        p += 1;
    }
    assert(coverage@.take(p as int) == coverage@);
    IconImage { rgba, width: MIC_WIDTH as u32, height: MIC_HEIGHT as u32 }
}

/// Sending the transcript adds the play triangle on top of any progress, in opaque black, and
/// changes nothing else.
pub proof fn lemma_submit_shows_triangle(
    progress: u8,
    ring: Seq<Point>,
    reached: Seq<Point>,
    p: int,
    k: int,
)
    requires
        0 <= p < 1024,
        0 <= k < 4,
    ensures
        progress_picture(progress, true, ring, reached)[p * 4 + k] == if in_triangle(
            ICON_SIZE as int,
            p,
        ) {
            channel(black(255), k)
        } else {
            progress_picture(progress, false, ring, reached)[p * 4 + k]
        },
{
    let i = p * 4 + k;
    assert(i / 4 == p && i % 4 == k);
}

/// The opacity of a pixel.
pub open spec fn opacity(rgba: Seq<u8>, p: int) -> u8 {
    rgba[p * 4 + 3]
}

/// Without progress only the dim ring shows. At a hundred percent the ring is bright, all of it
/// and nothing else.
pub proof fn lemma_full_progress_fills_the_ring(
    ring: Seq<Point>,
    none: Seq<Point>,
    all: Seq<Point>,
    p: int,
)
    requires
        0 <= p < 1024,
    ensures
        ({
            let at_first = opacity(progress_picture(0, false, ring, none), p);
            let at_last = opacity(progress_picture(100, false, ring, all), p);
            &&& at_first == 0 || at_first == DIM
            &&& at_last == if at_first == DIM {
                255u8
            } else {
                0u8
            }
        }),
{
    let i = p * 4 + 3;
    assert(i / 4 == p && i % 4 == 3);
    assert(!is_among(ICON_SIZE as int, Seq::<Point>::empty(), p));
}

/// The pixel in a column and a row of a picture.
pub open spec fn pixel(rgba: Seq<u8>, width: int, x: int, y: int) -> Color {
    let i = (y * width + x) * 4;
    Color { r: rgba[i], g: rgba[i + 1], b: rgba[i + 2], a: rgba[i + 3] }
}

proof fn lemma_painted_pixel(
    rgba: Seq<u8>,
    on: spec_fn(int) -> bool,
    color: Color,
    width: int,
    x: int,
    y: int,
)
    requires
        0 <= y * width + x,
        (y * width + x) * 4 + 4 <= rgba.len(),
    ensures
        pixel(painted(rgba, on, color), width, x, y) == if on(y * width + x) {
            color
        } else {
            pixel(rgba, width, x, y)
        },
{
    let p = y * width + x;
    let i = p * 4;
    assert(i / 4 == p && i % 4 == 0);
    assert((i + 1) / 4 == p && (i + 1) % 4 == 1);
    assert((i + 2) / 4 == p && (i + 2) % 4 == 2);
    assert((i + 3) / 4 == p && (i + 3) % 4 == 3);
}

/// Setting a pixel gives the pixel in that column and row its color, and no other pixel.
pub proof fn lemma_one_pixel_is_set(
    rgba: Seq<u8>,
    width: usize,
    x: usize,
    y: usize,
    color: Color,
    column: int,
    row: int,
)
    requires
        x < width,
        0 <= column < width,
        0 <= row,
        (row * width + column) * 4 + 4 <= rgba.len(),
    ensures
        pixel(
            painted(rgba, |p: int| p == y * width + x, color),
            width as int,
            column,
            row,
        ) == if column == x && row == y {
            color
        } else {
            pixel(rgba, width as int, column, row)
        },
{
    let w = width as int;
    lemma_pixel_position(w, column, row);
    lemma_pixel_position(w, x as int, y as int);
    lemma_painted_pixel(rgba, |p: int| p == y * width + x, color, w, column, row);
}

/// A stroke blackens the pixels that are no further from its middle than its radius, along the
/// columns and along the rows, and no others.
pub proof fn lemma_stroke_is_a_square(
    rgba: Seq<u8>,
    width: usize,
    x: usize,
    y: usize,
    radius: usize,
    column: int,
    row: int,
)
    requires
        0 <= column < width,
        0 <= row < rows(rgba, width as int),
        (row * width + column) * 4 + 4 <= rgba.len(),
    ensures
        pixel(
            painted(
                rgba,
                |p: int|
                    in_square(width as int, p, x as int, y as int, radius as int) && p / (
                    width as int) < reachable_rows(rgba, width as int),
                black(255),
            ),
            width as int,
            column,
            row,
        ) == if column - x <= radius && x - column <= radius && row - y <= radius && y - row
            <= radius {
            Color { r: 0, g: 0, b: 0, a: 255 }
        } else {
            pixel(rgba, width as int, column, row)
        },
{
    let w = width as int;
    lemma_pixel_position(w, column, row);
    lemma_painted_pixel(
        rgba,
        |p: int|
            in_square(width as int, p, x as int, y as int, radius as int) && p / (width as int)
                < reachable_rows(rgba, width as int),
        black(255),
        w,
        column,
        row,
    );
}

/// Whether a point lies on the line that the check mark follows: down from column 8 in row 17 to
/// column 13 in row 22, and up from there to column 24 in row 11.
pub open spec fn on_check_line(x: int, y: int) -> bool {
    ||| (8 <= x <= 13 && 17 <= y <= 22 && y - x == 9)
    ||| (13 <= x <= 24 && 11 <= y <= 22 && x + y == 35)
}

/// The check mark is black where some point of its line is at most two pixels away, and shows
/// nothing anywhere else.
pub proof fn lemma_check_mark_follows_its_line(column: int, row: int)
    requires
        0 <= column < 32,
        0 <= row < 32,
    ensures
        pixel(
            painted(transparent(1024), |p: int| on_check_mark(p, 6, 12), black(255)),
            32,
            column,
            row,
        ) == if exists|x: int, y: int| #[trigger]
            on_check_line(x, y) && -2 <= column - x <= 2 && -2 <= row - y <= 2 {
            Color { r: 0, g: 0, b: 0, a: 255 }
        } else {
            Color { r: 0, g: 0, b: 0, a: 0 }
        },
{
    let p = row * 32 + column;
    lemma_pixel_position(32, column, row);
    lemma_painted_pixel(
        transparent(1024),
        |p: int| on_check_mark(p, 6, 12),
        black(255),
        32,
        column,
        row,
    );
    if exists|x: int, y: int| #[trigger]
        on_check_line(x, y) && -2 <= column - x <= 2 && -2 <= row - y <= 2 {
        let (x, y) = choose|x: int, y: int| #[trigger]
            on_check_line(x, y) && -2 <= column - x <= 2 && -2 <= row - y <= 2;
        if y - x == 9 && x <= 13 {
            assert(on_short_leg(p, x - 8));
        } else {
            assert(on_long_leg(p, x - 13));
        }
        assert(on_check_mark(p, 6, 12));
    }
    if on_check_mark(p, 6, 12) {
        if exists|k: int| 0 <= k < 6 && #[trigger] on_short_leg(p, k) {
            let k = choose|k: int| 0 <= k < 6 && #[trigger] on_short_leg(p, k);
            assert(on_check_line(8 + k, 17 + k));
        } else {
            let k = choose|k: int| 0 <= k < 12 && #[trigger] on_long_leg(p, k);
            assert(on_check_line(13 + k, 22 - k));
        }
    }
}

/// The play triangle is the same above and below its middle row, narrows from column 21 there to
/// column 13 five rows away, and in between stays within half a pixel of the straight line.
pub proof fn lemma_triangle_is_straight(y: int)
    requires
        11 <= y <= 21,
    ensures
        triangle_end(y) == triangle_end(32 - y),
        y <= 16 ==> -5 <= 10 * (triangle_end(y) - 13) - 16 * (y - 11) <= 5,
        y >= 16 ==> -5 <= 10 * (triangle_end(y) - 13) - 16 * (21 - y) <= 5,
        13 <= triangle_end(y) <= 21,
{
}

/// The play triangle lies in the columns from 13 to its end in that row, and in the rows from 11
/// to 21.
pub proof fn lemma_triangle_rows(column: int, row: int)
    requires
        0 <= column < 32,
        0 <= row < 32,
    ensures
        in_triangle(32, row * 32 + column) <==> 11 <= row <= 21 && 13 <= column && column
            <= triangle_end(row),
{
    lemma_pixel_position(32, column, row);
}

proof fn lemma_among_is_contained(points: Seq<Point>, at: Point)
    requires
        fit_icon(points),
        at.x < ICON_SIZE,
        at.y < ICON_SIZE,
    ensures
        is_among(32, points, at.y * 32 + at.x) == points.contains(at),
{
    lemma_pixel_position(32, at.x as int, at.y as int);
    if is_among(32, points, at.y * 32 + at.x) {
        let k = choose|k: int|
            0 <= k < points.len() && at.y * 32 + at.x == #[trigger] points[k].y * 32 + points[k].x;
        assert(points[k].x < ICON_SIZE);
        lemma_pixel_position(32, points[k].x as int, points[k].y as int);
        assert(points[k] == at);
    }
    if points.contains(at) {
        let k = choose|k: int| 0 <= k < points.len() && points[k] == at;
        assert(at.y * 32 + at.x == points[k].y * 32 + points[k].x);
    }
}

/// Whatever the progress, the icon shows the part of the ring that it has reached in opaque
/// black, the rest of the ring dim, and nothing elsewhere: at nothing the whole ring is dim, and
/// at a hundred percent it is opaque.
pub proof fn lemma_progress_is_shown(
    progress: u8,
    ring: Seq<Point>,
    reached: Seq<Point>,
    at: Point,
)
    requires
        fit_icon(ring),
        fit_icon(reached),
        at.x < ICON_SIZE,
        at.y < ICON_SIZE,
    ensures
        pixel(progress_picture(progress, false, ring, reached), 32, at.x as int, at.y as int) == (
        Color {
            r: 0,
            g: 0,
            b: 0,
            a: if progress == 100 && ring.contains(at) {
                255
            } else if 0 < progress && progress != 100 && reached.contains(at) {
                255
            } else if ring.contains(at) {
                DIM
            } else {
                0
            },
        }),
{
    let p = at.y * 32 + at.x;
    let x = at.x as int;
    let y = at.y as int;
    let part = bright_part(progress, ring, reached);
    let dim = painted(transparent(1024), |p: int| is_among(32, ring, p), black(DIM));
    lemma_among_is_contained(ring, at);
    lemma_among_is_contained(reached, at);
    lemma_among_is_contained(part, at);
    lemma_painted_pixel(
        transparent(1024),
        |p: int| is_among(32, ring, p),
        black(DIM),
        32,
        x,
        y,
    );
    lemma_painted_pixel(dim, |p: int| is_among(32, part, p), black(255), 32, x, y);
    assert(progress_picture(progress, false, ring, reached) == painted(
        dim,
        |p: int| is_among(32, part, p),
        black(255),
    ));
}

/// Every pixel of the microphone has the color, and is as opaque as the glyph covers it.
pub proof fn lemma_microphone_has_its_color(
    color: (u8, u8, u8),
    coverage: Seq<u8>,
    width: int,
    x: int,
    y: int,
)
    requires
        0 <= y * width + x < coverage.len(),
    ensures
        microphone_picture(color, coverage).len() == 4 * coverage.len(),
        pixel(microphone_picture(color, coverage), width, x, y) == (Color {
            r: color.0,
            g: color.1,
            b: color.2,
            a: coverage[y * width + x],
        }),
{
    let p = y * width + x;
    let i = p * 4;
    assert(i / 4 == p && i % 4 == 0);
    assert((i + 1) / 4 == p && (i + 1) % 4 == 1);
    assert((i + 2) / 4 == p && (i + 2) % 4 == 2);
    assert((i + 3) / 4 == p && (i + 3) % 4 == 3);
}

} // verus!
