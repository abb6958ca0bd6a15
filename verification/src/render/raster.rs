use crate::math::buffer::{lemma_grid_ext, lemma_index_of, lemma_set_at, PixelGrid};
use crate::render::canvas::Canvas;
use crate::render::color::Color;
use vstd::prelude::*;

verus! {

/// Something that says of each pixel whether it paints it, and with which
/// color.
pub(crate) trait Stencil {
    /// The color that the pixel at `(x, y)` is to get, if any.
    spec fn wants(&self, x: int, y: int) -> Option<Color>;

    /// The stencil can be sampled.
    spec fn ready(&self) -> bool;

    /// The color that the pixel at `(x, y)` is to get, if any.
    fn sample(&self, x: usize, y: usize) -> (c: Option<Color>)
        requires
            self.ready(),
        ensures
            c == self.wants(x as int, y as int),
    ;
}

/// The grid after a stencil was applied: each pixel that the stencil wants
/// has the wanted color, every other pixel is as before.
pub(crate) closed spec fn stencilled<S: Stencil>(g: PixelGrid, s: S) -> PixelGrid {
    stencilled_upto(g, s, g.height as int, 0)
}

/// The grid while a stencil is being applied row by row: the pixels that the
/// stencil wants in the rows above `row`, and in `row` left of `col`, have
/// the wanted color; every other pixel is as before.
pub(crate) closed spec fn stencilled_upto<S: Stencil>(
    g: PixelGrid,
    s: S,
    row: int,
    col: int,
) -> PixelGrid {
    PixelGrid::from_fn(
        g.width,
        g.height,
        |x: int, y: int|
            if s.wants(x, y).is_some() && (y < row || (y == row && x < col)) {
                s.wants(x, y).unwrap().0
            } else {
                g.at(x, y)
            },
    )
}

proof fn lemma_stencilled_upto<S: Stencil>(g: PixelGrid, s: S, row: int, col: int)
    ensures
        stencilled_upto(g, s, row, col).wf(),
        stencilled_upto(g, s, row, col).width == g.width,
        stencilled_upto(g, s, row, col).height == g.height,
        forall|x: int, y: int|
            g.contains(x, y) ==> #[trigger] stencilled_upto(g, s, row, col).at(x, y) == (
            if s.wants(x, y).is_some() && (y < row || (y == row && x < col)) {
                s.wants(x, y).unwrap().0
            } else {
                g.at(x, y)
            }),
{
    let p = stencilled_upto(g, s, row, col);
    assert forall|x: int, y: int| g.contains(x, y) implies #[trigger] p.at(x, y) == (if s.wants(
        x,
        y,
    ).is_some() && (y < row || (y == row && x < col)) {
        s.wants(x, y).unwrap().0
    } else {
        g.at(x, y)
    }) by {
        lemma_index_of(p, x, y);
    }
}

/// Applying a stencil keeps the size of the grid, and says of each pixel
/// what it holds afterwards.
pub(crate) proof fn lemma_stencilled<S: Stencil>(g: PixelGrid, s: S)
    ensures
        stencilled(g, s).wf(),
        stencilled(g, s).width == g.width,
        stencilled(g, s).height == g.height,
        forall|x: int, y: int|
            g.contains(x, y) ==> #[trigger] stencilled(g, s).at(x, y) == (match s.wants(x, y) {
                Some(color) => color.0,
                None => g.at(x, y),
            }),
{
    lemma_stencilled_upto(g, s, g.height as int, 0);
}

/// The smaller of a coordinate and a limit.
pub(crate) fn clip(v: u64, limit: usize) -> (c: usize)
    ensures
        c == (if v < limit {
            v as int
        } else {
            limit as int
        }),
{
    if v < limit as u64 {
        v as usize
    } else {
        limit
    }
}

/// Applies a stencil by sampling each pixel of a box that holds every pixel
/// of the canvas that the stencil wants.
pub(crate) fn fill<S: Stencil>(
    canvas: &mut Canvas,
    s: &S,
    x0: usize,
    x1: usize,
    y0: usize,
    y1: usize,
)
    requires
        s.ready(),
        x0 <= x1 <= old(canvas)@.width,
        y0 <= y1 <= old(canvas)@.height,
        forall|x: int, y: int|
            old(canvas)@.contains(x, y) && (#[trigger] s.wants(x, y)).is_some() ==> x0 <= x < x1
                && y0 <= y < y1,
    ensures
        final(canvas)@ == stencilled(old(canvas)@, *s),
        final(canvas)@.wf(),
{
    let ghost before = canvas@;
    proof {
        use_type_invariant(&*canvas);
        canvas.lemma_wf();
        lemma_stencilled_upto(before, *s, y0 as int, x0 as int);
        lemma_grid_ext(before, stencilled_upto(before, *s, y0 as int, x0 as int));
    }
    let mut y = y0;
    while y < y1
        invariant
            s.ready(),
            y0 <= y <= y1,
            x0 <= x1 <= before.width,
            y1 <= before.height,
            before.wf(),
            forall|i: int, j: int|
                before.contains(i, j) && (#[trigger] s.wants(i, j)).is_some() ==> x0 <= i < x1 && y0
                    <= j < y1,
            canvas@ == stencilled_upto(before, *s, y as int, x0 as int),
        decreases y1 - y,
    {
        let mut x = x0;
        while x < x1
            invariant
                s.ready(),
                y0 <= y < y1,
                x0 <= x <= x1,
                x1 <= before.width,
                y1 <= before.height,
                before.wf(),
                forall|i: int, j: int|
                    before.contains(i, j) && (#[trigger] s.wants(i, j)).is_some() ==> x0 <= i < x1
                        && y0 <= j < y1,
                canvas@ == stencilled_upto(before, *s, y as int, x as int),
            decreases x1 - x,
        {
            let ghost current = canvas@;
            match s.sample(x, y) {
                Some(color) => {
                    canvas.set_pixel(x, y, &color);
                },
                None => {},
            }
            proof {
                lemma_stencilled_upto(before, *s, y as int, x as int);
                lemma_stencilled_upto(before, *s, y as int, x + 1);
                if s.wants(x as int, y as int).is_some() {
                    lemma_set_at(
                        current,
                        x as int,
                        y as int,
                        s.wants(x as int, y as int).unwrap().0,
                    );
                }
                lemma_grid_ext(canvas@, stencilled_upto(before, *s, y as int, x + 1));
            }
            x += 1;
        }
        proof {
            lemma_stencilled_upto(before, *s, y as int, x1 as int);
            lemma_stencilled_upto(before, *s, y + 1, x0 as int);
            lemma_grid_ext(canvas@, stencilled_upto(before, *s, y + 1, x0 as int));
        }
        y += 1;
    }
    proof {
        lemma_stencilled_upto(before, *s, y1 as int, x0 as int);
        lemma_stencilled(before, *s);
        lemma_grid_ext(canvas@, stencilled(before, *s));
    }
}

} // verus!
