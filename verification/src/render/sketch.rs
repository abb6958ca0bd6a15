use crate::math::buffer::{lemma_grid_ext, lemma_index_of, lemma_set_at, PixelGrid};
use crate::math::vec2::Vector2;
use crate::render::canvas::Canvas;
use crate::render::color::Color;
use crate::render::raster::{clip, fill, lemma_stencilled, stencilled, Stencil};
use crate::types::Image;
use vstd::arithmetic::div_mod::{
    lemma_div_multiples_vanish, lemma_fundamental_div_mod, lemma_fundamental_div_mod_converse,
};
use vstd::prelude::*;

verus! {

/// A drawing operation to apply to a canvas using a [Sketch]. All positions
/// are in canvas coordinates.
#[derive(Clone, Debug, PartialEq, Eq, PartialOrd, Ord)]
pub enum Operation {
    /// A line between two points, both of them painted.
    Line { from: Vector2<u32>, to: Vector2<u32>, color: Color },
    /// A filled circle around `pos`.
    Circle { pos: Vector2<u32>, radius: u32, color: Color },
    /// A filled rectangle with `pos` as its upper left corner.
    Rect { pos: Vector2<u32>, width: u32, height: u32, color: Color },
    /// An image of `width * height` pixels, given row by row, with `pos` as
    /// its upper left corner.
    Image { pos: Vector2<u32>, width: u32, height: u32, data: Image },
    /// A filled ellipse inscribed in the rectangle with `pos` as its upper
    /// left corner.
    Oval { pos: Vector2<u32>, width: u32, height: u32, color: Color },
}

/// The square of `v`.
pub open spec fn sq(v: int) -> int {
    v * v
}

/// The distance between `a` and `b`.
pub open spec fn dist(a: int, b: int) -> int {
    if a >= b {
        a - b
    } else {
        b - a
    }
}

/// The number of steps of the line between two points: the larger of the
/// distances along the two axes.
pub open spec fn line_steps(from: Vector2<u32>, to: Vector2<u32>) -> int {
    let dx = dist(to.x as int, from.x as int);
    let dy = dist(to.y as int, from.y as int);
    if dx >= dy {
        dx
    } else {
        dy
    }
}

/// The pixel of step `k` of the line between two points: the point that
/// lies `k` of `line_steps` parts of the way from `from` to `to`, each
/// coordinate rounded down.
pub open spec fn line_point(from: Vector2<u32>, to: Vector2<u32>, k: int) -> (int, int) {
    let steps = line_steps(from, to);
    if steps == 0 {
        (from.x as int, from.y as int)
    } else {
        (
            from.x + (k * (to.x - from.x)) / steps,
            from.y + (k * (to.y - from.y)) / steps,
        )
    }
}

/// `(x, y)` is the pixel of one of the steps `0 ..= line_steps` of the line.
pub open spec fn on_line(from: Vector2<u32>, to: Vector2<u32>, x: int, y: int) -> bool {
    exists|k: int| 0 <= k <= line_steps(from, to) && #[trigger] line_point(from, to, k) == (x, y)
}

/// `(x, y)` is at most `radius` away from `pos`, by squared Euclidean
/// distance; pixels are sampled at their integer coordinates.
pub open spec fn in_circle(pos: Vector2<u32>, radius: u32, x: int, y: int) -> bool {
    sq(x - pos.x) + sq(y - pos.y) <= sq(radius as int)
}

/// `(x, y)` lies in the half-open box `[pos.x, pos.x + width) x [pos.y,
/// pos.y + height)`.
pub open spec fn in_box(pos: Vector2<u32>, width: u32, height: u32, x: int, y: int) -> bool {
    pos.x <= x < pos.x + width && pos.y <= y < pos.y + height
}

/// The centre of the pixel `(x, y)` lies in the ellipse inscribed in the box
/// at `pos`. With `a = width / 2`, `b = height / 2` and `(dx, dy)` the offset
/// of the pixel's centre `(x + 1/2, y + 1/2)` from the centre of the box, this
/// is `dx^2 / a^2 + dy^2 / b^2 <= 1`, multiplied through by `4 a^2 b^2` to
/// stay in integers.
pub open spec fn in_oval(pos: Vector2<u32>, width: u32, height: u32, x: int, y: int) -> bool {
    in_box(pos, width, height, x, y) && sq(2 * (x - pos.x) + 1 - width) * sq(height as int) + sq(
        2 * (y - pos.y) + 1 - height,
    ) * sq(width as int) <= sq(width as int) * sq(height as int)
}

/// The index in an image's data of its pixel that lands on `(x, y)`.
pub open spec fn image_index(pos: Vector2<u32>, width: u32, x: int, y: int) -> int {
    (y - pos.y) * width + (x - pos.x)
}

impl Operation {
    /// The operation paints the pixel at `(x, y)`, where the canvas has it.
    pub open spec fn covers(&self, x: int, y: int) -> bool {
        match *self {
            Operation::Line { from, to, color } => on_line(from, to, x, y),
            Operation::Circle { pos, radius, color } => in_circle(pos, radius, x, y),
            Operation::Rect { pos, width, height, color } => in_box(pos, width, height, x, y),
            Operation::Image { pos, width, height, data } => in_box(pos, width, height, x, y)
                && image_index(pos, width, x, y) < data@.len(),
            Operation::Oval { pos, width, height, color } => in_oval(pos, width, height, x, y),
        }
    }

    /// The color that the operation gives the pixel at `(x, y)`, if it
    /// covers it.
    pub open spec fn color_at(&self, x: int, y: int) -> Color {
        match *self {
            Operation::Line { from, to, color } => color,
            Operation::Circle { pos, radius, color } => color,
            Operation::Rect { pos, width, height, color } => color,
            Operation::Image { pos, width, height, data } => data@[image_index(pos, width, x, y)],
            Operation::Oval { pos, width, height, color } => color,
        }
    }
}

/// The grid after one operation: each pixel that the operation covers has
/// the operation's color, every other pixel is as before.
pub open spec fn paint(g: PixelGrid, op: Operation) -> PixelGrid {
    PixelGrid::from_fn(
        g.width,
        g.height,
        |x: int, y: int|
            if op.covers(x, y) {
                op.color_at(x, y).0
            } else {
                g.at(x, y)
            },
    )
}

/// The grid after a list of operations, applied in order.
pub open spec fn paint_all(g: PixelGrid, ops: Seq<Operation>) -> PixelGrid
    decreases ops.len(),
{
    if ops.len() == 0 {
        g
    } else {
        paint(paint_all(g, ops.drop_last()), ops.last())
    }
}

/// Painting keeps the size of the grid, and says of each pixel what it
/// holds afterwards.
pub proof fn lemma_paint(g: PixelGrid, op: Operation)
    ensures
        paint(g, op).wf(),
        paint(g, op).width == g.width,
        paint(g, op).height == g.height,
        forall|x: int, y: int|
            g.contains(x, y) ==> #[trigger] paint(g, op).at(x, y) == (if op.covers(x, y) {
                op.color_at(x, y).0
            } else {
                g.at(x, y)
            }),
{
    let p = paint(g, op);
    assert forall|x: int, y: int| g.contains(x, y) implies #[trigger] p.at(x, y) == (if op.covers(
        x,
        y,
    ) {
        op.color_at(x, y).0
    } else {
        g.at(x, y)
    }) by {
        lemma_index_of(p, x, y);
    }
}

/// Painting a list of operations keeps the size of the grid.
pub proof fn lemma_paint_all(g: PixelGrid, ops: Seq<Operation>)
    requires
        g.wf(),
    ensures
        paint_all(g, ops).wf(),
        paint_all(g, ops).width == g.width,
        paint_all(g, ops).height == g.height,
    decreases ops.len(),
{
    if ops.len() > 0 {
        lemma_paint_all(g, ops.drop_last());
        lemma_paint(paint_all(g, ops.drop_last()), ops.last());
    }
}

/// `(a - b)^2` is the square of the distance between `a` and `b`.
proof fn lemma_sq_dist(a: int, b: int)
    ensures
        sq(a - b) == sq(dist(a, b)),
        sq(a - b) == dist(a, b) * dist(a, b),
{
    assert((a - b) * (a - b) == (b - a) * (b - a)) by (nonlinear_arith);
}

/// Squares grow with the distance from zero.
proof fn lemma_sq_monotone(a: int, b: int)
    requires
        0 <= a <= b,
    ensures
        sq(a) <= sq(b),
        a < b ==> sq(a) < sq(b),
{
    assert(a * a <= b * b) by (nonlinear_arith)
        requires
            0 <= a <= b,
    ;
    assert(a < b ==> a * a < b * b) by (nonlinear_arith)
        requires
            0 <= a <= b,
    ;
}

/// The product of two numbers below `2^64` is below `2^128`.
proof fn lemma_product_fits(a: int, b: int)
    requires
        0 <= a <= 0xFFFF_FFFF_FFFF_FFFF,
        0 <= b <= 0xFFFF_FFFF_FFFF_FFFF,
    ensures
        0 <= a * b <= 0xFFFF_FFFF_FFFF_FFFF * 0xFFFF_FFFF_FFFF_FFFF,
        a * b <= u128::MAX,
{
    assert(0 <= a * b <= 0xFFFF_FFFF_FFFF_FFFF * 0xFFFF_FFFF_FFFF_FFFF) by (nonlinear_arith)
        requires
            0 <= a <= 0xFFFF_FFFF_FFFF_FFFF,
            0 <= b <= 0xFFFF_FFFF_FFFF_FFFF,
    ;
}

/// The distance between a pixel coordinate and a position.
fn distance(a: u64, b: u64) -> (d: u64)
    ensures
        d == dist(a as int, b as int),
{
    if a >= b {
        a - b
    } else {
        b - a
    }
}

/// The product of two numbers, in a type wide enough for it.
fn wide_product(a: u64, b: u64) -> (p: u128)
    ensures
        p == a * b,
{
    proof {
        lemma_product_fits(a as int, b as int);
    }
    a as u128 * b as u128
}

/// Whether the pixel at `(x, y)` lies in the circle around `pos`.
pub(crate) fn sample_circle(pos: &Vector2<u32>, radius: u32, x: u64, y: u64) -> (inside: bool)
    ensures
        inside == in_circle(*pos, radius, x as int, y as int),
{
    let dx = distance(x, pos.x as u64);
    let dy = distance(y, pos.y as u64);
    let r = radius as u64;
    proof {
        lemma_sq_dist(x as int, pos.x as int);
        lemma_sq_dist(y as int, pos.y as int);
        if dx > r {
            lemma_sq_monotone(r as int, dx as int);
        } else {
            lemma_sq_monotone(dx as int, r as int);
        }
        if dy > r {
            lemma_sq_monotone(r as int, dy as int);
        } else {
            lemma_sq_monotone(dy as int, r as int);
        }
        lemma_sq_monotone(0, dx as int);
        lemma_sq_monotone(0, dy as int);
        lemma_sq_monotone(r as int, 0xFFFF_FFFF);
        assert(sq(0xFFFF_FFFF) <= 0xFFFF_FFFF_FFFF_FFFF);
    }
    if dx > r || dy > r {
        false
    } else {
        let rr = wide_product(r, r);
        let dd = wide_product(dx, dx) + wide_product(dy, dy);
        dd <= rr
    }
}

/// Whether the pixel at `(x, y)` lies in the box at `pos`.
pub(crate) fn sample_box(pos: &Vector2<u32>, width: u32, height: u32, x: u64, y: u64) -> (inside: bool)
    ensures
        inside == in_box(*pos, width, height, x as int, y as int),
{
    let left = pos.x as u64;
    let top = pos.y as u64;
    left <= x && x < left + width as u64 && top <= y && y < top + height as u64
}

/// Twice the offset of a pixel's centre from the centre of an extent of
/// `size` pixels, for the pixel `offset` pixels into the extent: its
/// magnitude, and the part of `size^2` that its square leaves.
fn oval_axis(offset: u64, size: u64) -> (parts: (u128, u128))
    requires
        offset < size <= u32::MAX,
    ensures
        parts.0 == sq(2 * offset + 1 - size),
        parts.0 + parts.1 == sq(size as int),
{
    let twice = 2 * offset + 1;
    let d = distance(twice, size);
    proof {
        lemma_sq_dist(twice as int, size as int);
        lemma_sq_monotone(d as int, size as int);
    }
    let dd = wide_product(d, d);
    let ss = wide_product(size, size);
    (dd, ss - dd)
}

/// Whether the centre of the pixel at `(x, y)` lies in the ellipse inscribed
/// in the box at `pos`.
pub(crate) fn sample_oval(pos: &Vector2<u32>, width: u32, height: u32, x: u64, y: u64) -> (inside: bool)
    ensures
        inside == in_oval(*pos, width, height, x as int, y as int),
{
    if !sample_box(pos, width, height, x, y) {
        return false;
    }
    let (aa, rest) = oval_axis(x - pos.x as u64, width as u64);
    let (bb, _) = oval_axis(y - pos.y as u64, height as u64);
    let ww = wide_product(width as u64, width as u64);
    let hh = wide_product(height as u64, height as u64);
    proof {
        lemma_sq_monotone(width as int, 0xFFFF_FFFF);
        lemma_sq_monotone(height as int, 0xFFFF_FFFF);
        lemma_sq_monotone(0, width as int);
        lemma_sq_monotone(0, height as int);
        assert(sq(0xFFFF_FFFF) <= 0xFFFF_FFFF_FFFF_FFFF);
        lemma_product_fits(bb as int, ww as int);
        lemma_product_fits(rest as int, hh as int);
        assert(aa * hh + bb * ww <= ww * hh <==> bb * ww <= rest * hh) by (nonlinear_arith)
            requires
                aa + rest == ww,
        ;
    }
    bb * ww <= rest * hh
}

impl Stencil for Operation {
    open spec fn wants(&self, x: int, y: int) -> Option<Color> {
        if self.covers(x, y) {
            Some(self.color_at(x, y))
        } else {
            None
        }
    }

    /// Lines are drawn step by step and are not sampled.
    open spec fn ready(&self) -> bool {
        !(self is Line)
    }

    fn sample(&self, x: usize, y: usize) -> (c: Option<Color>) {
        let (px, py) = (x as u64, y as u64);
        match self {
            Operation::Line { from, to, color } => None,
            Operation::Circle { pos, radius, color } => {
                if sample_circle(pos, *radius, px, py) {
                    Some(*color)
                } else {
                    None
                }
            },
            Operation::Rect { pos, width, height, color } => {
                if sample_box(pos, *width, *height, px, py) {
                    Some(*color)
                } else {
                    None
                }
            },
            Operation::Image { pos, width, height, data } => {
                if !sample_box(pos, *width, *height, px, py) {
                    return None;
                }
                let row = py - pos.y as u64;
                let col = px - pos.x as u64;
                proof {
                    assert(row * *width + col < 0xFFFF_FFFF * 0xFFFF_FFFF) by (nonlinear_arith)
                        requires
                            0 <= row < *height <= 0xFFFF_FFFF,
                            0 <= col < *width <= 0xFFFF_FFFF,
                    ;
                    assert(0 <= row * *width) by (nonlinear_arith)
                        requires
                            0 <= row,
                            0 <= *width,
                    ;
                }
                let index = row * (*width as u64) + col;
                if index < data.len() as u64 {
                    Some(data[index as usize])
                } else {
                    None
                }
            },
            Operation::Oval { pos, width, height, color } => {
                if sample_oval(pos, *width, *height, px, py) {
                    Some(*color)
                } else {
                    None
                }
            },
        }
    }
}

/// `(x, y)` is the pixel of one of the first `k` steps of the line.
pub open spec fn on_line_before(
    from: Vector2<u32>,
    to: Vector2<u32>,
    k: int,
    x: int,
    y: int,
) -> bool {
    exists|j: int|
        0 <= j < k && j <= line_steps(from, to) && #[trigger] line_point(from, to, j) == (x, y)
}

/// The grid while a line is being painted step by step: the pixels of its
/// first `k` steps have its color; every other pixel is as before.
pub closed spec fn line_upto(
    g: PixelGrid,
    from: Vector2<u32>,
    to: Vector2<u32>,
    color: Color,
    k: int,
) -> PixelGrid {
    PixelGrid::from_fn(
        g.width,
        g.height,
        |x: int, y: int|
            if on_line_before(from, to, k, x, y) {
                color.0
            } else {
                g.at(x, y)
            },
    )
}

proof fn lemma_line_upto(g: PixelGrid, from: Vector2<u32>, to: Vector2<u32>, color: Color, k: int)
    ensures
        line_upto(g, from, to, color, k).wf(),
        line_upto(g, from, to, color, k).width == g.width,
        line_upto(g, from, to, color, k).height == g.height,
        forall|x: int, y: int|
            g.contains(x, y) ==> #[trigger] line_upto(g, from, to, color, k).at(x, y) == (
            if on_line_before(from, to, k, x, y) {
                color.0
            } else {
                g.at(x, y)
            }),
{
    let p = line_upto(g, from, to, color, k);
    assert forall|x: int, y: int| g.contains(x, y) implies #[trigger] p.at(x, y) == (
    if on_line_before(from, to, k, x, y) {
        color.0
    } else {
        g.at(x, y)
    }) by {
        lemma_index_of(p, x, y);
    }
}

/// Dividing the negative of `n` rounds the other way: towards minus
/// infinity, which is away from zero.
proof fn lemma_div_negative(n: int, s: int)
    requires
        0 <= n,
        0 < s,
    ensures
        (-n) / s == -((n + s - 1) / s),
{
    let c = (n + s - 1) / s;
    lemma_fundamental_div_mod(n + s - 1, s);
    let m = (n + s - 1) % s;
    assert(s * c == c * s) by (nonlinear_arith);
    assert((-c) * s == -(c * s)) by (nonlinear_arith);
    let r = c * s - n;
    lemma_fundamental_div_mod_converse(-n, s, -c, r);
}

/// One coordinate of step `k` of a line that runs from `a` to `b` in
/// `steps` steps.
fn step_coordinate(a: u32, b: u32, k: u64, steps: u64) -> (c: u32)
    requires
        0 < steps <= u32::MAX,
        k <= steps,
        dist(b as int, a as int) <= steps,
    ensures
        c == a + (k * (b - a)) / (steps as int),
        dist(c as int, a as int) <= dist(b as int, a as int),
{
    let d = distance(b as u64, a as u64);
    let n = wide_product(k, d);
    let s = steps as u128;
    proof {
        assert(0 <= k * d <= steps * d) by (nonlinear_arith)
            requires
                0 <= k <= steps,
                0 <= d,
        ;
        assert(steps * d <= 0xFFFF_FFFF * 0xFFFF_FFFF) by (nonlinear_arith)
            requires
                0 <= steps <= 0xFFFF_FFFF,
                0 <= d <= 0xFFFF_FFFF,
        ;
    }
    if b >= a {
        let q = n / s;
        proof {
            lemma_fundamental_div_mod(n as int, s as int);
            assert(q <= d) by (nonlinear_arith)
                requires
                    n == s * q + (n as int % s as int),
                    0 <= n as int % s as int,
                    n <= s * d,
                    0 < s,
            ;
        }
        a + (q as u32)
    } else {
        let q = (n + s - 1) / s;
        proof {
            lemma_div_negative(n as int, s as int);
            assert(k * (b - a) == -(k * d)) by (nonlinear_arith)
                requires
                    b - a == -d,
            ;
            lemma_fundamental_div_mod(n + s - 1, s as int);
            assert(q <= d) by (nonlinear_arith)
                requires
                    n + s - 1 == s * q + ((n + s - 1) % s as int),
                    0 <= (n + s - 1) % s as int,
                    n <= s * d,
                    0 < s,
            ;
        }
        a - (q as u32)
    }
}

/// Paints a line step by step.
fn draw_line(canvas: &mut Canvas, from: &Vector2<u32>, to: &Vector2<u32>, color: &Color)
    ensures
        final(canvas)@ == paint(
            old(canvas)@,
            Operation::Line { from: *from, to: *to, color: *color },
        ),
{
    let ghost before = canvas@;
    let ghost op = Operation::Line { from: *from, to: *to, color: *color };
    proof {
        use_type_invariant(&*canvas);
        canvas.lemma_wf();
        lemma_paint(before, op);
    }
    let dx = distance(to.x as u64, from.x as u64);
    let dy = distance(to.y as u64, from.y as u64);
    let steps = if dx >= dy {
        dx
    } else {
        dy
    };
    if steps == 0 {
        canvas.set_pixel(from.x as usize, from.y as usize, color);
        proof {
            lemma_set_at(before, from.x as int, from.y as int, color.0);
            assert forall|x: int, y: int| before.contains(x, y) implies #[trigger] canvas@.at(x, y)
                == paint(before, op).at(x, y) by {
                if x == from.x && y == from.y {
                    assert(line_point(*from, *to, 0) == (x, y));
                }
            }
            lemma_grid_ext(canvas@, paint(before, op));
        }
        return ;
    }
    proof {
        lemma_line_upto(before, *from, *to, *color, 0);
        lemma_grid_ext(before, line_upto(before, *from, *to, *color, 0));
    }
    let mut k: u64 = 0;
    while k <= steps
        invariant
            0 < steps <= u32::MAX,
            steps == line_steps(*from, *to),
            k <= steps + 1,
            before.wf(),
            canvas@ == line_upto(before, *from, *to, *color, k as int),
        decreases steps + 1 - k,
    {
        let ghost current = canvas@;
        let x = step_coordinate(from.x, to.x, k, steps);
        let y = step_coordinate(from.y, to.y, k, steps);
        canvas.set_pixel(x as usize, y as usize, color);
        proof {
            assert(line_point(*from, *to, k as int) == (x as int, y as int));
            lemma_line_upto(before, *from, *to, *color, k as int);
            lemma_line_upto(before, *from, *to, *color, k + 1);
            lemma_set_at(current, x as int, y as int, color.0);
            assert forall|i: int, j: int| before.contains(i, j) implies #[trigger] canvas@.at(i, j)
                == line_upto(before, *from, *to, *color, k + 1).at(i, j) by {
                if on_line_before(*from, *to, k + 1, i, j) && !(i == x && j == y) {
                    let w = choose|w: int|
                        0 <= w < k + 1 && w <= line_steps(*from, *to) && #[trigger] line_point(
                            *from,
                            *to,
                            w,
                        ) == (i, j);
                    assert(w < k);
                }
            }
            lemma_grid_ext(canvas@, line_upto(before, *from, *to, *color, k + 1));
        }
        k += 1;
    }
    proof {
        lemma_line_upto(before, *from, *to, *color, steps + 1);
        assert forall|i: int, j: int| before.contains(i, j) implies #[trigger] canvas@.at(i, j)
            == paint(before, op).at(i, j) by {
            if op.covers(i, j) {
                let w = choose|w: int|
                    0 <= w <= line_steps(*from, *to) && #[trigger] line_point(*from, *to, w) == (
                        i,
                        j,
                    );
                assert(0 <= w < steps + 1);
            }
        }
        lemma_grid_ext(canvas@, paint(before, op));
    }
}

impl Operation {
    /// Apply operation to a [Canvas]: every pixel of the canvas that the
    /// operation covers gets the operation's color, and no other pixel
    /// changes. What falls outside the canvas is clipped.
    pub fn apply(&self, canvas: &mut Canvas)
        ensures
            final(canvas)@ == paint(old(canvas)@, *self),
            final(canvas)@.wf(),
    {
        let ghost before = canvas@;
        proof {
            use_type_invariant(&*canvas);
            canvas.lemma_wf();
            lemma_paint(before, *self);
            lemma_stencilled(before, *self);
            lemma_grid_ext(stencilled(before, *self), paint(before, *self));
        }
        let width = canvas.width();
        let height = canvas.height();
        match self {
            Operation::Line { from, to, color } => {
                draw_line(canvas, from, to, color);
            },
            Operation::Circle { pos, radius, color } => {
                let r = *radius as u64;
                let (cx, cy) = (pos.x as u64, pos.y as u64);
                let x0 = clip(
                    if cx >= r {
                        cx - r
                    } else {
                        0
                    },
                    width,
                );
                let y0 = clip(
                    if cy >= r {
                        cy - r
                    } else {
                        0
                    },
                    height,
                );
                let x1 = clip(cx + r + 1, width);
                let y1 = clip(cy + r + 1, height);
                proof {
                    assert forall|x: int, y: int|
                        canvas@.contains(x, y) && (#[trigger] self.wants(x, y)).is_some() implies x0
                        <= x < x1 && y0 <= y < y1 by {
                        lemma_in_circle_near(*pos, *radius, x, y);
                    }
                }
                fill(canvas, self, x0, x1, y0, y1);
            },
            Operation::Rect { pos, width: w, height: h, color } => {
                let x0 = clip(pos.x as u64, width);
                let y0 = clip(pos.y as u64, height);
                let x1 = clip(pos.x as u64 + *w as u64, width);
                let y1 = clip(pos.y as u64 + *h as u64, height);
                fill(canvas, self, x0, x1, y0, y1);
            },
            Operation::Image { pos, width: w, height: h, data } => {
                let x0 = clip(pos.x as u64, width);
                let y0 = clip(pos.y as u64, height);
                let x1 = clip(pos.x as u64 + *w as u64, width);
                let y1 = clip(pos.y as u64 + *h as u64, height);
                fill(canvas, self, x0, x1, y0, y1);
            },
            Operation::Oval { pos, width: w, height: h, color } => {
                let x0 = clip(pos.x as u64, width);
                let y0 = clip(pos.y as u64, height);
                let x1 = clip(pos.x as u64 + *w as u64, width);
                let y1 = clip(pos.y as u64 + *h as u64, height);
                fill(canvas, self, x0, x1, y0, y1);
            },
        }
    }
}

/// A pixel in a circle is at most the radius away from the centre along
/// each axis.
pub proof fn lemma_in_circle_near(pos: Vector2<u32>, radius: u32, x: int, y: int)
    requires
        in_circle(pos, radius, x, y),
    ensures
        dist(x, pos.x as int) <= radius,
        dist(y, pos.y as int) <= radius,
{
    lemma_sq_dist(x, pos.x as int);
    lemma_sq_dist(y, pos.y as int);
    lemma_sq_monotone(0, dist(x, pos.x as int));
    lemma_sq_monotone(0, dist(y, pos.y as int));
    if dist(x, pos.x as int) > radius {
        lemma_sq_monotone(radius as int, dist(x, pos.x as int));
    }
    if dist(y, pos.y as int) > radius {
        lemma_sq_monotone(radius as int, dist(y, pos.y as int));
    }
}

/// An ordered list of drawing operations. Later operations paint over
/// earlier ones.
#[derive(Clone, Debug, Default, PartialEq, Eq, PartialOrd, Ord)]
pub struct Sketch(pub(crate) Vec<Operation>);

impl View for Sketch {
    type V = Seq<Operation>;

    closed spec fn view(&self) -> Seq<Operation> {
        self.0@
    }
}

impl Sketch {
    /// Create a new empty sketch
    pub fn new() -> (s: Sketch)
        ensures
            s@ == Seq::<Operation>::empty(),
    {
        Sketch(Vec::new())
    }

    /// Draw a line from `from` to `to` with color `color`
    pub fn line(&mut self, from: Vector2<u32>, to: Vector2<u32>, color: Color) -> (s: &mut Sketch)
        ensures
            s@ == old(self)@.push(Operation::Line { from, to, color }),
            *final(self) == *final(s),
    {
        self.0.push(Operation::Line { from, to, color });
        self
    }

    /// Draw a circle at `pos` with radius `radius` and color `color`.
    pub fn circle(&mut self, pos: Vector2<u32>, radius: u32, color: Color) -> (s: &mut Sketch)
        ensures
            s@ == old(self)@.push(Operation::Circle { pos, radius, color }),
            *final(self) == *final(s),
    {
        self.0.push(Operation::Circle { pos, radius, color });
        self
    }

    /// Draw a rectangle at `pos` with width `width` and height `height` and color `color`.
    pub fn rect(&mut self, pos: Vector2<u32>, width: u32, height: u32, color: Color) -> (s:
        &mut Sketch)
        ensures
            s@ == old(self)@.push(Operation::Rect { pos, width, height, color }),
            *final(self) == *final(s),
    {
        self.0.push(Operation::Rect { pos, width, height, color });
        self
    }

    /// Draw an image at `pos` with width `width` and height `height` and data `data`.
    pub fn image(&mut self, pos: Vector2<u32>, width: u32, height: u32, data: Vec<Color>) -> (s:
        &mut Sketch)
        ensures
            s@ == old(self)@.push(Operation::Image { pos, width, height, data }),
            *final(self) == *final(s),
    {
        self.0.push(Operation::Image { pos, width, height, data });
        self
    }

    /// Draw an oval at `pos` with width `width` and height `height` and color `color`.
    pub fn oval(&mut self, pos: Vector2<u32>, width: u32, height: u32, color: Color) -> (s:
        &mut Sketch)
        ensures
            s@ == old(self)@.push(Operation::Oval { pos, width, height, color }),
            *final(self) == *final(s),
    {
        self.0.push(Operation::Oval { pos, width, height, color });
        self
    }

    /// Just returns the sketch itself, with nothing added.
    pub fn empty(&mut self) -> (s: &mut Sketch)
        ensures
            s@ == old(self)@,
            *final(self) == *final(s),
    {
        self
    }

    /// The operations of the sketch, in the order in which they are drawn.
    pub fn get_operations(&self) -> (ops: &Vec<Operation>)
        ensures
            ops@ == self@,
    {
        &self.0
    }
}

/// Something that can draw itself to a [Canvas] through the canvas's own
/// pixel writes.
pub trait Drawable {
    /// What drawing `self` makes of a canvas: `after` is a grid that drawing
    /// `self` to the grid `before` may give. Each drawable says this of
    /// itself; one that says nothing may draw anything.
    open spec fn draws(&self, before: PixelGrid, after: PixelGrid) -> bool {
        true
    }

    /// Draws `self` to the canvas.
    fn apply(&self, canvas: &mut Canvas)
        ensures
            self.draws(old(canvas)@, final(canvas)@),
    ;
}

/// A line covers both of its endpoints, also where they are one point.
pub proof fn lemma_line_covers_endpoints(from: Vector2<u32>, to: Vector2<u32>)
    ensures
        on_line(from, to, from.x as int, from.y as int),
        on_line(from, to, to.x as int, to.y as int),
{
    let steps = line_steps(from, to);
    assert(line_point(from, to, 0) == (from.x as int, from.y as int)) by {
        assert(0 * (to.x - from.x) == 0) by (nonlinear_arith);
        assert(0 * (to.y - from.y) == 0) by (nonlinear_arith);
    }
    assert(line_point(from, to, steps) == (to.x as int, to.y as int)) by {
        if steps > 0 {
            lemma_div_multiples_vanish(to.x - from.x, steps);
            lemma_div_multiples_vanish(to.y - from.y, steps);
        }
    }
}

/// After a line is painted, each of its endpoints that the canvas holds has
/// the line's color.
pub proof fn lemma_line_paints_endpoints(
    g: PixelGrid,
    from: Vector2<u32>,
    to: Vector2<u32>,
    color: Color,
)
    requires
        g.wf(),
    ensures
        g.contains(from.x as int, from.y as int) ==> paint(
            g,
            Operation::Line { from, to, color },
        ).at(from.x as int, from.y as int) == color.0,
        g.contains(to.x as int, to.y as int) ==> paint(g, Operation::Line { from, to, color }).at(
            to.x as int,
            to.y as int,
        ) == color.0,
{
    lemma_line_covers_endpoints(from, to);
    lemma_paint(g, Operation::Line { from, to, color });
}

/// Every pixel of a line lies in the bounding box of its endpoints.
pub proof fn lemma_line_in_bounds(from: Vector2<u32>, to: Vector2<u32>, x: int, y: int)
    requires
        on_line(from, to, x, y),
    ensures
        dist(x, from.x as int) <= dist(to.x as int, from.x as int),
        dist(y, from.y as int) <= dist(to.y as int, from.y as int),
        from.x <= to.x ==> from.x <= x <= to.x,
        from.x >= to.x ==> to.x <= x <= from.x,
        from.y <= to.y ==> from.y <= y <= to.y,
        from.y >= to.y ==> to.y <= y <= from.y,
{
    let steps = line_steps(from, to);
    let k = choose|k: int| 0 <= k <= steps && #[trigger] line_point(from, to, k) == (x, y);
    if steps > 0 {
        lemma_step_between(k, to.x - from.x, steps);
        lemma_step_between(k, to.y - from.y, steps);
    }
}

/// The part of `d` that `k` of `steps` steps make lies between zero and
/// `d`.
proof fn lemma_step_between(k: int, d: int, steps: int)
    requires
        0 <= k <= steps,
        0 < steps,
    ensures
        d >= 0 ==> 0 <= (k * d) / steps <= d,
        d <= 0 ==> d <= (k * d) / steps <= 0,
{
    let q = (k * d) / steps;
    lemma_fundamental_div_mod(k * d, steps);
    let r = (k * d) % steps;
    if d >= 0 {
        assert(0 <= k * d <= steps * d) by (nonlinear_arith)
            requires
                0 <= k <= steps,
                0 <= d,
        ;
        assert(0 <= q <= d) by (nonlinear_arith)
            requires
                k * d == steps * q + r,
                0 <= r < steps,
                0 <= k * d <= steps * d,
        ;
    } else {
        assert(steps * d <= k * d <= 0) by (nonlinear_arith)
            requires
                0 <= k <= steps,
                d <= 0,
        ;
        assert(d <= q <= 0) by (nonlinear_arith)
            requires
                k * d == steps * q + r,
                0 <= r < steps,
                steps * d <= k * d <= 0,
        ;
    }
}

/// Later operations paint over earlier ones: a pixel that the last
/// operation of a list covers has that operation's color in the end.
pub proof fn lemma_last_operation_wins(g: PixelGrid, ops: Seq<Operation>, x: int, y: int)
    requires
        g.wf(),
        g.contains(x, y),
        ops.len() > 0,
        ops.last().covers(x, y),
    ensures
        paint_all(g, ops).at(x, y) == ops.last().color_at(x, y).0,
{
    lemma_paint_all(g, ops.drop_last());
    lemma_paint(paint_all(g, ops.drop_last()), ops.last());
}

/// What a circle covers is symmetric about its centre: whether it covers a
/// pixel does not change when the pixel's offset from the centre is turned
/// by a quarter, when one of the offset's components is negated, or when the
/// two are swapped.
pub proof fn lemma_circle_symmetric(pos: Vector2<u32>, radius: u32, a: int, b: int)
    ensures
        in_circle(pos, radius, pos.x + a, pos.y + b) == in_circle(pos, radius, pos.x - b, pos.y + a),
        in_circle(pos, radius, pos.x + a, pos.y + b) == in_circle(pos, radius, pos.x - a, pos.y + b),
        in_circle(pos, radius, pos.x + a, pos.y + b) == in_circle(pos, radius, pos.x + a, pos.y - b),
        in_circle(pos, radius, pos.x + a, pos.y + b) == in_circle(pos, radius, pos.x + b, pos.y + a),
{
    assert((-a) * (-a) == a * a) by (nonlinear_arith);
    assert((-b) * (-b) == b * b) by (nonlinear_arith);
}

} // verus!
