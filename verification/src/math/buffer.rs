use vstd::arithmetic::div_mod::{lemma_fundamental_div_mod, lemma_fundamental_div_mod_converse};
use vstd::prelude::*;

verus! {

/// The mathematical model of a pixel buffer: `width * height` packed color
/// words in row-major order, the pixel at `(x, y)` at index `y * width + x`.
pub struct PixelGrid {
    pub width: nat,
    pub height: nat,
    pub pixels: Seq<u32>,
}

impl PixelGrid {
    /// There is one word for each pixel.
    pub open spec fn wf(self) -> bool {
        self.pixels.len() == self.width * self.height
    }

    /// The number of pixels fits in a `usize`.
    pub open spec fn fits(self) -> bool {
        self.width * self.height <= usize::MAX
    }

    /// `(x, y)` lies inside `[0, width) x [0, height)`.
    pub open spec fn contains(self, x: int, y: int) -> bool {
        0 <= x < self.width && 0 <= y < self.height
    }

    /// The index of the pixel at `(x, y)`.
    pub open spec fn index_of(self, x: int, y: int) -> int {
        y * self.width + x
    }

    /// The word of the pixel at `(x, y)`.
    pub open spec fn at(self, x: int, y: int) -> u32
        recommends
            self.contains(x, y),
    {
        self.pixels[self.index_of(x, y)]
    }

    /// The grid of the given size whose pixel at `(x, y)` is `f(x, y)`.
    pub open spec fn from_fn(width: nat, height: nat, f: spec_fn(int, int) -> u32) -> PixelGrid {
        PixelGrid {
            width,
            height,
            pixels: Seq::new(width * height, |i: int| f(i % width as int, i / width as int)),
        }
    }

    /// The grid of the given size with every pixel zero.
    pub open spec fn blank(width: nat, height: nat) -> PixelGrid {
        PixelGrid::from_fn(width, height, |x: int, y: int| 0u32)
    }

    /// This grid with every pixel set to `word`.
    pub open spec fn filled(self, word: u32) -> PixelGrid {
        PixelGrid::from_fn(self.width, self.height, |x: int, y: int| word)
    }

    /// This grid with the pixel at `(x, y)` set to `word`; the grid itself
    /// where `(x, y)` lies outside it.
    pub open spec fn set(self, x: int, y: int, word: u32) -> PixelGrid {
        if self.contains(x, y) {
            PixelGrid { pixels: self.pixels.update(self.index_of(x, y), word), ..self }
        } else {
            self
        }
    }

    /// The word of the pixel at `(x, y)`, if there is such a pixel.
    pub open spec fn get(self, x: int, y: int) -> Option<u32> {
        if self.contains(x, y) {
            Some(self.at(x, y))
        } else {
            None
        }
    }

    /// The grid of the new size that keeps the pixels of the rectangle that
    /// both sizes share, and is zero elsewhere.
    pub open spec fn resized(self, width: nat, height: nat) -> PixelGrid {
        PixelGrid::from_fn(
            width,
            height,
            |x: int, y: int|
                if self.contains(x, y) {
                    self.at(x, y)
                } else {
                    0u32
                },
        )
    }
}

/// The index of a pixel inside the grid is a valid index into its words, and
/// the column and the row can be read back from it.
pub proof fn lemma_index_of(g: PixelGrid, x: int, y: int)
    requires
        g.contains(x, y),
    ensures
        0 <= g.index_of(x, y) < g.width * g.height,
        g.index_of(x, y) % g.width as int == x,
        g.index_of(x, y) / g.width as int == y,
{
    let w = g.width as int;
    let h = g.height as int;
    assert(y * w + w <= h * w) by (nonlinear_arith)
        requires
            0 <= y < h,
            0 <= w,
    ;
    assert(0 <= y * w) by (nonlinear_arith)
        requires
            0 <= y,
            0 <= w,
    ;
    assert(h * w == w * h) by (nonlinear_arith);
    lemma_fundamental_div_mod_converse(y * w + x, w, y, x);
}

/// Every index into the words of a grid is the index of one pixel inside it.
pub proof fn lemma_index_split(g: PixelGrid, i: int)
    requires
        0 <= i < g.width * g.height,
    ensures
        g.contains(i % g.width as int, i / g.width as int),
        g.index_of(i % g.width as int, i / g.width as int) == i,
{
    let w = g.width as int;
    let h = g.height as int;
    assert(w > 0) by (nonlinear_arith)
        requires
            0 <= i < w * h,
            0 <= w,
    ;
    lemma_fundamental_div_mod(i, w);
    let q = i / w;
    let r = i % w;
    assert(w * q == q * w) by (nonlinear_arith);
    assert(q < h) by (nonlinear_arith)
        requires
            q * w + r == i,
            0 <= r,
            i < w * h,
            w > 0,
    ;
    assert(q >= 0) by (nonlinear_arith)
        requires
            q * w + r == i,
            r < w,
            0 <= i,
            w > 0,
    ;
}

/// A grid made from a function is well formed and holds the function's value
/// at each pixel.
pub proof fn lemma_from_fn(width: nat, height: nat, f: spec_fn(int, int) -> u32)
    ensures
        PixelGrid::from_fn(width, height, f).wf(),
        PixelGrid::from_fn(width, height, f).width == width,
        PixelGrid::from_fn(width, height, f).height == height,
        forall|x: int, y: int|
            0 <= x < width && 0 <= y < height ==> #[trigger] PixelGrid::from_fn(width, height, f).at(
                x,
                y,
            ) == f(x, y),
{
    let g = PixelGrid::from_fn(width, height, f);
    assert forall|x: int, y: int| 0 <= x < width && 0 <= y < height implies #[trigger] g.at(x, y)
        == f(x, y) by {
        lemma_index_of(g, x, y);
    }
}

/// Two well-formed grids of one size that agree at every pixel are equal.
pub proof fn lemma_grid_ext(a: PixelGrid, b: PixelGrid)
    requires
        a.wf(),
        b.wf(),
        a.width == b.width,
        a.height == b.height,
        forall|x: int, y: int| a.contains(x, y) ==> #[trigger] a.at(x, y) == b.at(x, y),
    ensures
        a == b,
{
    assert forall|i: int| 0 <= i < a.pixels.len() implies a.pixels[i] == b.pixels[i] by {
        lemma_index_split(a, i);
        let x = i % a.width as int;
        let y = i / a.width as int;
        assert(a.at(x, y) == b.at(x, y));
    }
    assert(a.pixels =~= b.pixels);
}

/// Writing a pixel changes that pixel and no other; a write outside the grid
/// changes nothing.
pub proof fn lemma_set_at(g: PixelGrid, x: int, y: int, word: u32)
    requires
        g.wf(),
    ensures
        g.set(x, y, word).wf(),
        g.set(x, y, word).width == g.width,
        g.set(x, y, word).height == g.height,
        !g.contains(x, y) ==> g.set(x, y, word) == g,
        forall|i: int, j: int|
            g.contains(i, j) ==> #[trigger] g.set(x, y, word).at(i, j) == (if i == x && j == y {
                word
            } else {
                g.at(i, j)
            }),
{
    if g.contains(x, y) {
        lemma_index_of(g, x, y);
        assert forall|i: int, j: int| g.contains(i, j) implies #[trigger] g.set(x, y, word).at(i, j)
            == (if i == x && j == y {
            word
        } else {
            g.at(i, j)
        }) by {
            lemma_index_of(g, i, j);
        }
    }
}

/// Writing a pixel inside the grid and reading it back gives what was
/// written.
pub proof fn lemma_set_then_get(g: PixelGrid, x: int, y: int, word: u32)
    requires
        g.wf(),
        g.contains(x, y),
    ensures
        g.set(x, y, word).get(x, y) == Some(word),
{
    lemma_set_at(g, x, y, word);
}

/// A write outside the grid is no write: the grid stays as it was, and so
/// does what every read of it gives.
pub proof fn lemma_set_outside(g: PixelGrid, x: int, y: int, word: u32)
    requires
        !g.contains(x, y),
    ensures
        g.set(x, y, word) == g,
        forall|i: int, j: int| g.set(x, y, word).get(i, j) == g.get(i, j),
{
}

/// After a resize the rectangle that both sizes share holds what it held,
/// and every pixel outside it is zero.
pub proof fn lemma_resized_at(g: PixelGrid, width: nat, height: nat)
    ensures
        g.resized(width, height).wf(),
        g.resized(width, height).width == width,
        g.resized(width, height).height == height,
        forall|x: int, y: int|
            0 <= x < width && 0 <= y < height ==> #[trigger] g.resized(width, height).at(x, y) == (
            if x < g.width && y < g.height {
                g.at(x, y)
            } else {
                0u32
            }),
{
    let f = |x: int, y: int|
        if g.contains(x, y) {
            g.at(x, y)
        } else {
            0u32
        };
    lemma_from_fn(width, height, f);
    assert forall|x: int, y: int| 0 <= x < width && 0 <= y < height implies #[trigger] g.resized(
        width,
        height,
    ).at(x, y) == (if x < g.width && y < g.height {
        g.at(x, y)
    } else {
        0u32
    }) by {
        assert(PixelGrid::from_fn(width, height, f).at(x, y) == f(x, y));
    }
}

/// The pixel buffer: the packed color words of a canvas, row by row, with
/// its width and height.
#[derive(Debug)]
pub struct Buffer {
    pub(crate) buffer: Vec<u32>,
    pub(crate) width: usize,
    pub(crate) height: usize,
}

impl View for Buffer {
    type V = PixelGrid;

    closed spec fn view(&self) -> PixelGrid {
        PixelGrid { width: self.width as nat, height: self.height as nat, pixels: self.buffer@ }
    }
}

impl Clone for Buffer {
    /// A copy of the buffer: the same size and the same words.
    fn clone(&self) -> (b: Buffer)
        ensures
            b@ == self@,
    {
        proof {
            use_type_invariant(self);
        }
        let words = self.buffer.clone();
        assert(words@ =~= self.buffer@);
        Buffer { buffer: words, width: self.width, height: self.height }
    }
}

impl Buffer {
    /// What holds of every buffer: there is one word for each pixel, and the
    /// pixels can be counted in a `usize`.
    #[verifier::type_invariant]
    pub closed spec fn inv(&self) -> bool {
        self.buffer@.len() == self.width * self.height && self.width * self.height <= usize::MAX
    }

    /// A buffer of the given size with every pixel zero.
    pub fn new(width: usize, height: usize) -> (b: Buffer)
        requires
            width * height <= usize::MAX,
        ensures
            b@ == PixelGrid::blank(width as nat, height as nat),
    {
        let b = Buffer { buffer: vec![0; width * height], width, height };
        proof {
            lemma_from_fn(width as nat, height as nat, |x: int, y: int| 0u32);
            assert(b@.pixels =~= PixelGrid::blank(width as nat, height as nat).pixels);
        }
        b
    }

    /// The number of pixels in a row.
    pub fn get_width(&self) -> (w: usize)
        ensures
            w == self@.width,
    {
        self.width
    }

    /// The number of rows.
    pub fn get_height(&self) -> (h: usize)
        ensures
            h == self@.height,
    {
        self.height
    }

    /// The packed words, row by row.
    pub fn as_slice(&self) -> (s: &[u32])
        ensures
            s@ == self@.pixels,
    {
        self.buffer.as_slice()
    }

    /// Gives up the buffer for its packed words, row by row.
    pub fn into_vec(self) -> (v: Vec<u32>)
        ensures
            v@ == self@.pixels,
    {
        self.buffer
    }

    /// The word at `index`.
    pub(crate) fn word(&self, index: usize) -> (w: u32)
        requires
            index < self@.pixels.len(),
        ensures
            w == self@.pixels[index as int],
    {
        self.buffer[index]
    }

    /// Stores `word` at `index`.
    pub(crate) fn put(&mut self, index: usize, word: u32)
        requires
            index < old(self)@.pixels.len(),
        ensures
            final(self)@ == (PixelGrid {
                pixels: old(self)@.pixels.update(index as int, word),
                ..old(self)@
            }),
        no_unwind
    {
        proof {
            use_type_invariant(&*self);
        }
        self.buffer[index] = word;
    }

    /// The buffer of the given size that holds the given words.
    pub(crate) fn from_words(words: Vec<u32>, width: usize, height: usize) -> (b: Buffer)
        requires
            words@.len() == width * height,
        ensures
            b@ == (PixelGrid { width: width as nat, height: height as nat, pixels: words@ }),
    {
        let count = words.len();
        assert(count == width * height);
        Buffer { buffer: words, width, height }
    }

    /// Every buffer is a well-formed grid whose words can be counted in a
    /// `usize`.
    pub proof fn lemma_wf(&self)
        requires
            self.inv(),
        ensures
            self@.wf(),
            self@.fits(),
    {
    }
}

} // verus!
