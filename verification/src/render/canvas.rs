use crate::math::buffer::{
    lemma_from_fn, lemma_grid_ext, lemma_index_of, lemma_resized_at, lemma_set_at, Buffer,
    PixelGrid,
};
use crate::render::color::Color;
use crate::render::sketch::{lemma_paint_all, paint_all, Drawable, Sketch};
use vstd::prelude::*;

verus! {

/// Canvas of a game, containing a buffer of pixels to draw to the window.
pub struct Canvas {
    buffer: Buffer,
}

impl View for Canvas {
    type V = PixelGrid;

    closed spec fn view(&self) -> PixelGrid {
        self.buffer@
    }
}

/// The grid of the given size that holds the given words.
pub open spec fn grid(width: usize, height: usize, pixels: Seq<u32>) -> PixelGrid {
    PixelGrid { width: width as nat, height: height as nat, pixels }
}

impl Clone for Canvas {
    /// A copy of the canvas: the same size and the same pixels.
    fn clone(&self) -> (c: Canvas)
        ensures
            c@ == self@,
    {
        proof {
            use_type_invariant(self);
        }
        Canvas { buffer: self.buffer.clone() }
    }
}

impl Canvas {
    /// Create a new canvas from width and height, with every pixel zero.
    pub fn new(width: usize, height: usize) -> (c: Canvas)
        requires
            width * height <= usize::MAX,
        ensures
            c@ == PixelGrid::blank(width as nat, height as nat),
            c@.wf(),
    {
        let buffer = Buffer::new(width, height);
        proof {
            lemma_from_fn(width as nat, height as nat, |x: int, y: int| 0u32);
        }
        Canvas { buffer }
    }

    /// Returns the buffer containing the packed pixels.
    pub fn buffer(self) -> (b: Buffer)
        ensures
            b@ == self@,
    {
        self.buffer
    }

    /// Get canvas width.
    pub fn width(&self) -> (w: usize)
        ensures
            w == self@.width,
    {
        self.buffer.get_width()
    }

    /// Get canvas height.
    pub fn height(&self) -> (h: usize)
        ensures
            h == self@.height,
    {
        self.buffer.get_height()
    }

    /// What holds of every canvas: there is one word for each pixel, and the
    /// pixels can be counted in a `usize`.
    #[verifier::type_invariant]
    pub closed spec fn inv(&self) -> bool {
        self.buffer@.wf() && self.buffer@.fits()
    }

    /// Every canvas is a well-formed grid whose pixels can be counted in a
    /// `usize`.
    pub proof fn lemma_wf(&self)
        requires
            self.inv(),
        ensures
            self@.wf(),
            self@.fits(),
    {
    }

    /// Set pixel at `x` and `y` to `color`. A pixel outside the canvas is
    /// dropped: nothing is written.
    pub fn set_pixel(&mut self, x: usize, y: usize, color: &Color)
        ensures
            final(self)@ == old(self)@.set(x as int, y as int, color.0),
            final(self)@.wf(),
    {
        proof {
            use_type_invariant(&*self);
            self.lemma_wf();
            lemma_set_at(self@, x as int, y as int, color.0);
        }
        let width = self.buffer.get_width();
        if x < width && y < self.buffer.get_height() {
            proof {
                lemma_index_of(self@, x as int, y as int);
            }
            let index = y * width + x;
            self.buffer.put(index, color.0);
        }
    }

    /// Resize the canvas. The rectangle that the old and the new size share
    /// keeps its pixels; every other pixel of the new canvas is zero.
    pub fn resize(&mut self, new_width: usize, new_height: usize)
        requires
            new_width * new_height <= usize::MAX,
        ensures
            final(self)@ == old(self)@.resized(new_width as nat, new_height as nat),
            final(self)@.wf(),
    {
        proof {
            use_type_invariant(&*self);
        }
        let width = self.buffer.get_width();
        let height = self.buffer.get_height();
        let copy_width = if width < new_width {
            width
        } else {
            new_width
        };
        let copy_height = if height < new_height {
            height
        } else {
            new_height
        };
        let mut words: Vec<u32> = vec![0; new_width * new_height];
        let ghost source = self@;
        proof {
            let target = grid(new_width, new_height, words@);
            assert forall|i: int, j: int| target.contains(i, j) implies #[trigger] target.at(i, j)
                == 0u32 by {
                lemma_index_of(target, i, j);
            }
        }
        let mut y: usize = 0;
        while y < copy_height
            invariant
                y <= copy_height,
                copy_width <= width,
                copy_width <= new_width,
                copy_height <= height,
                copy_height <= new_height,
                self@ == source,
                source.wf(),
                source.fits(),
                source.width == width,
                source.height == height,
                new_width * new_height <= usize::MAX,
                words@.len() == new_width * new_height,
                forall|i: int, j: int|
                    0 <= i < new_width && 0 <= j < new_height ==> #[trigger] grid(
                        new_width,
                        new_height,
                        words@,
                    ).at(i, j) == (if i < copy_width && j < y {
                        source.at(i, j)
                    } else {
                        0u32
                    }),
            decreases copy_height - y,
        {
            let mut x: usize = 0;
            while x < copy_width
                invariant
                    x <= copy_width,
                    y < copy_height,
                    copy_width <= width,
                    copy_width <= new_width,
                    copy_height <= height,
                    copy_height <= new_height,
                    self@ == source,
                    source.wf(),
                    source.fits(),
                    source.width == width,
                    source.height == height,
                    new_width * new_height <= usize::MAX,
                    words@.len() == new_width * new_height,
                    forall|i: int, j: int|
                        0 <= i < new_width && 0 <= j < new_height ==> #[trigger] grid(
                            new_width,
                            new_height,
                            words@,
                        ).at(i, j) == (if i < copy_width && (j < y || (j == y && i < x)) {
                            source.at(i, j)
                        } else {
                            0u32
                        }),
                decreases copy_width - x,
            {
                let ghost target = grid(new_width, new_height, words@);
                proof {
                    lemma_index_of(source, x as int, y as int);
                    lemma_index_of(target, x as int, y as int);
                    lemma_set_at(target, x as int, y as int, source.at(x as int, y as int));
                }
                let word = self.buffer.word(y * width + x);
                words.set(y * new_width + x, word);
                assert(grid(new_width, new_height, words@) == target.set(x as int, y as int, word));
                x += 1;
            }
            y += 1;
        }
        proof {
            let target = grid(new_width, new_height, words@);
            let goal = source.resized(new_width as nat, new_height as nat);
            lemma_resized_at(source, new_width as nat, new_height as nat);
            lemma_grid_ext(target, goal);
        }
        self.buffer = Buffer::from_words(words, new_width, new_height);
    }

    /// Clear the canvas with `color`: every pixel becomes `color`.
    pub fn clear(&mut self, color: &Color)
        ensures
            final(self)@ == old(self)@.filled(color.0),
            final(self)@.wf(),
    {
        proof {
            use_type_invariant(&*self);
        }
        let width = self.buffer.get_width();
        let height = self.buffer.get_height();
        let count = width * height;
        let mut i: usize = 0;
        while i < count
            invariant
                i <= count,
                count == width * height,
                self.inv(),
                self@.width == width,
                self@.height == height,
                forall|j: int| 0 <= j < i ==> self@.pixels[j] == color.0,
            decreases count - i,
        {
            self.buffer.put(i, color.0);
            i += 1;
        }
        proof {
            lemma_from_fn(width as nat, height as nat, |x: int, y: int| color.0);
            assert(self@.pixels =~= old(self)@.filled(color.0).pixels);
        }
    }

    /// Clears the canvas with black pixels.
    pub fn cleanse(&mut self)
        ensures
            final(self)@ == old(self)@.filled(0),
            final(self)@.wf(),
    {
        self.clear(&Color(0))
    }

    /// Draw a [Sketch] to the canvas: its operations are applied in order,
    /// so that later ones paint over earlier ones.
    pub fn draw(&mut self, sketch: &Sketch)
        ensures
            final(self)@ == paint_all(old(self)@, sketch@),
            final(self)@.wf(),
    {
        proof {
            use_type_invariant(&*self);
            lemma_paint_all(self@, sketch@);
        }
        let ops = sketch.get_operations();
        let mut i: usize = 0;
        assert(ops@.take(0) =~= Seq::empty());
        while i < ops.len()
            invariant
                i <= ops.len(),
                self@ == paint_all(old(self)@, ops@.take(i as int)),
            decreases ops.len() - i,
        {
            ops[i].apply(self);
            proof {
                let done = ops@.take(i + 1);
                assert(done.drop_last() =~= ops@.take(i as int));
                assert(done.last() == ops@[i as int]);
            }
            i += 1;
        }
        assert(ops@.take(i as int) =~= ops@);
    }

    /// Draw a [Drawable] to the canvas: the canvas becomes what the drawable
    /// draws on it.
    pub fn drawable<T: Drawable>(&mut self, drawable: &T)
        ensures
            drawable.draws(old(self)@, final(self)@),
    {
        drawable.apply(self);
    }

    /// Get pixel at `x` and `y`, if the canvas has such a pixel.
    pub fn get_pixel(&self, x: usize, y: usize) -> (c: Option<Color>)
        ensures
            c == (match self@.get(x as int, y as int) {
                Some(word) => Some(Color(word)),
                None => None,
            }),
    {
        proof {
            use_type_invariant(self);
            self.lemma_wf();
        }
        let width = self.buffer.get_width();
        if x < width && y < self.buffer.get_height() {
            proof {
                lemma_index_of(self@, x as int, y as int);
            }
            let index = y * width + x;
            Some(Color(self.buffer.word(index)))
        } else {
            None
        }
    }
}

} // verus!
