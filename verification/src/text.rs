use crate::math::buffer::{lemma_grid_ext, lemma_index_of, PixelGrid};
use crate::math::vec2::Vector2;
use crate::render::canvas::Canvas;
use crate::render::color::{pack_rgba, Color};
use crate::render::raster::{clip, fill, lemma_stencilled, stencilled, Stencil};
use crate::render::sketch::Drawable;
use vstd::prelude::*;

verus! {

/// `fontdue::Font`: a parsed font.
#[verifier::external_type_specification]
#[verifier::external_body]
pub struct ExFont(fontdue::Font);

/// `fontdue::layout::Layout`: text laid out as positioned glyphs.
#[verifier::external_type_specification]
#[verifier::external_body]
#[verifier::reject_recursive_types(U)]
pub struct ExLayout<U: Copy + Clone>(fontdue::layout::Layout<U>);

/// The number of glyphs that a font holds: `fontdue::Font::glyph_count`.
pub uninterp spec fn font_glyph_count(font: fontdue::Font) -> nat;

/// What a font holds for the characters that it knows: for each of them the
/// index of its glyph, as in `fontdue::Font::chars`.
pub uninterp spec fn font_glyph_map(font: fontdue::Font) -> Map<char, u16>;

/// What a layout holds: its positioned glyphs, in order, each as `(index,
/// size, x, y)`: the index of the glyph in the font that it was laid out
/// with, its size in pixels, and the position of its upper left corner, the
/// last three cut to whole numbers that are not negative.
pub uninterp spec fn layout_placed(layout: fontdue::layout::Layout<()>) -> Seq<
    (u16, u16, u32, u32),
>;

/// The glyph that a font draws a character with: the character's own, or
/// glyph 0 for a character that the font does not know.
pub open spec fn glyph_of(font: fontdue::Font, c: char) -> u16 {
    if font_glyph_map(font).contains_key(c) {
        font_glyph_map(font)[c]
    } else {
        0
    }
}

/// The font holds each glyph that it draws a character with: it has a glyph
/// 0, and the glyph of each character that it knows is one of its glyphs.
pub open spec fn font_sound(font: fontdue::Font) -> bool {
    &&& font_glyph_count(font) > 0
    &&& forall|c: char| #[trigger]
        font_glyph_map(font).contains_key(c) ==> font_glyph_map(font)[c] < font_glyph_count(font)
}

/// `after` is `before` with a text appended: the glyphs that were there keep
/// their index and size, in their order, and after them comes one glyph for
/// each character of the text, the glyph that the font draws the character
/// with, at the size `px`. Where the glyphs stand is up to the layout.
pub open spec fn appended(
    before: Seq<(u16, u16, u32, u32)>,
    after: Seq<(u16, u16, u32, u32)>,
    font: fontdue::Font,
    text: Seq<char>,
    px: u16,
) -> bool {
    &&& after.len() == before.len() + text.len()
    &&& forall|i: int|
        0 <= i < before.len() ==> (#[trigger] after[i]).0 == before[i].0 && after[i].1
            == before[i].1
    &&& forall|i: int|
        before.len() <= i < after.len() ==> (#[trigger] after[i]).0 == glyph_of(
            font,
            text[i - before.len()],
        ) && after[i].1 == px
}

/// Calls `fontdue::Font::glyph_count`. The contract says what the making of
/// a font guarantees of every font: it has a glyph 0, and the glyph of each
/// character that it knows is one of its glyphs; the making fails where one
/// of them is missing.
#[verifier::external_body]
fn font_glyph_total(font: &fontdue::Font) -> (total: u16)
    ensures
        total == font_glyph_count(*font),
        total > 0,
        forall|c: char| #[trigger]
            font_glyph_map(*font).contains_key(c) ==> font_glyph_map(*font)[c] < total,
{
    font.glyph_count()
}

/// Calls `fontdue::layout::Layout::new` for a coordinate system whose y axis
/// points down. A new layout holds no glyphs.
#[verifier::external_body]
fn new_layout() -> (layout: fontdue::layout::Layout<()>)
    ensures
        layout_placed(layout) == Seq::<(u16, u16, u32, u32)>::empty(),
{
    fontdue::layout::Layout::new(fontdue::layout::CoordinateSystem::PositiveYDown)
}

/// Calls `fontdue::layout::Layout::append` with the one font and a style of
/// the given text and size in whole pixels. The glyphs that the layout held
/// keep their index and size, in their order, and after them comes one glyph
/// for each character of the text: the glyph that the font draws the
/// character with, at the given size. Nothing is said of the positions: the
/// layout may move the glyphs that it held.
#[verifier::external_body]
fn layout_append(layout: &mut fontdue::layout::Layout<()>, font: &fontdue::Font, text: &str, px: u16)
    ensures
        layout_placed(*final(layout)).len() == layout_placed(*old(layout)).len() + text@.len(),
        forall|i: int|
            0 <= i < layout_placed(*old(layout)).len() ==> (#[trigger] layout_placed(
                *final(layout),
            )[i]).0 == layout_placed(*old(layout))[i].0 && layout_placed(*final(layout))[i].1
                == layout_placed(*old(layout))[i].1,
        forall|i: int|
            layout_placed(*old(layout)).len() <= i < layout_placed(*final(layout)).len() ==> (
            #[trigger] layout_placed(*final(layout))[i]).0 == glyph_of(
                *font,
                text@[i - layout_placed(*old(layout)).len()],
            ) && layout_placed(*final(layout))[i].1 == px,
{
    layout.append(&[font], &fontdue::layout::TextStyle::new(text, px.into(), 0));
}

/// Calls `fontdue::layout::Layout::glyphs` and hands out each positioned
/// glyph as `(index, size, x, y)`: these are the glyphs that the layout
/// holds.
#[verifier::external_body]
fn layout_places(layout: &fontdue::layout::Layout<()>) -> (places: Vec<(u16, u16, u32, u32)>)
    ensures
        places@ == layout_placed(*layout),
{
    layout.glyphs().iter().map(
        |g| (g.key.glyph_index, g.key.px as u16, g.x as u32, g.y as u32),
    ).collect()
}

/// Calls `fontdue::Font::rasterize_indexed` for one of the font's glyphs at
/// a size in whole pixels, and hands out the width and the height of the
/// glyph's bitmap and the bitmap's coverage bytes: one byte for each pixel.
/// Which bytes they are is not said: the rasterizer's arithmetic differs
/// from one kind of machine to another.
#[verifier::external_body]
fn rasterize_glyph(font: &fontdue::Font, index: u16, px: u16) -> (bitmap: (usize, usize, Vec<u8>))
    requires
        index < font_glyph_count(*font),
    ensures
        bitmap.2@.len() == bitmap.0 * bitmap.1,
{
    let (metrics, coverage) = font.rasterize_indexed(index, px.into());
    (metrics.width, metrics.height, coverage)
}

/// Calls `fontdue::Font::rasterize_indexed_subpixel` for one of the font's
/// glyphs at a size in whole pixels, and hands out the width and the height
/// of the glyph's bitmap and the bitmap's coverage bytes: three bytes for
/// each pixel. Which bytes they are is not said: the rasterizer's arithmetic
/// differs from one kind of machine to another.
#[verifier::external_body]
fn rasterize_glyph_subpixel(font: &fontdue::Font, index: u16, px: u16) -> (bitmap: (
    usize,
    usize,
    Vec<u8>,
))
    requires
        index < font_glyph_count(*font),
    ensures
        bitmap.2@.len() == 3 * bitmap.0 * bitmap.1,
{
    let (metrics, coverage) = font.rasterize_indexed_subpixel(index, px.into());
    (metrics.width, metrics.height, coverage)
}

/// A rasterized glyph, ready to be drawn: a bitmap of coverage bytes, row by
/// row, with the position of its upper left corner on the canvas and the
/// color of the text.
#[derive(Clone, Debug)]
pub struct Glyph {
    /// Where the upper left corner of the bitmap goes.
    pub pos: Vector2<u64>,
    /// The width of the bitmap, in pixels.
    pub width: usize,
    /// The height of the bitmap, in pixels.
    pub height: usize,
    /// The coverage of each pixel: one byte to a pixel, or three where the
    /// bitmap is a subpixel one.
    pub coverage: Vec<u8>,
    /// Whether the bitmap holds three coverage bytes to a pixel.
    pub subpixel: bool,
    /// The color of the text.
    pub color: Color,
}

/// The color that a pixel of text gets: the text's color, solid, whatever
/// the coverage; or, for subpixel text, the text's color with the coverage
/// as its alpha.
pub open spec fn ink(color: Color, subpixel: bool, coverage: u8) -> Color {
    if subpixel {
        Color(pack_rgba(color.r(), color.g(), color.b(), coverage))
    } else {
        color
    }
}

/// The word is one that text of the given color writes.
pub open spec fn inked(color: Color, subpixel: bool, word: u32) -> bool {
    exists|coverage: u8| coverage > 0 && #[trigger] ink(color, subpixel, coverage).0 == word
}

impl Glyph {
    /// The coverage bytes to a pixel.
    pub open spec fn stride(&self) -> int {
        if self.subpixel {
            3
        } else {
            1
        }
    }

    /// The bitmap holds the coverage bytes of each of its pixels, and no
    /// more.
    pub open spec fn full(&self) -> bool {
        self.coverage@.len() == self.width * self.height * self.stride()
    }

    /// The index of the coverage byte that decides for the pixel at `(x,
    /// y)`: the first of the pixel's bytes.
    pub open spec fn index_at(&self, x: int, y: int) -> int {
        ((y - self.pos.y) * self.width + (x - self.pos.x)) * self.stride()
    }

    /// The glyph paints the pixel at `(x, y)`: the pixel lies in the bitmap
    /// and its coverage is not zero.
    pub open spec fn covers(&self, x: int, y: int) -> bool {
        &&& self.pos.x <= x < self.pos.x + self.width
        &&& self.pos.y <= y < self.pos.y + self.height
        &&& self.index_at(x, y) < self.coverage@.len()
        &&& self.coverage@[self.index_at(x, y)] > 0
    }

    /// The color that the glyph gives the pixel at `(x, y)`, if it paints
    /// it.
    pub open spec fn ink_at(&self, x: int, y: int) -> Option<Color> {
        if self.covers(x, y) {
            Some(ink(self.color, self.subpixel, self.coverage@[self.index_at(x, y)]))
        } else {
            None
        }
    }
}

impl Stencil for Glyph {
    open spec fn wants(&self, x: int, y: int) -> Option<Color> {
        self.ink_at(x, y)
    }

    open spec fn ready(&self) -> bool {
        true
    }

    fn sample(&self, x: usize, y: usize) -> (c: Option<Color>) {
        let (px, py) = (x as u64, y as u64);
        if px < self.pos.x || py < self.pos.y {
            return None;
        }
        let col = px - self.pos.x;
        let row = py - self.pos.y;
        if col >= self.width as u64 || row >= self.height as u64 {
            return None;
        }
        let stride: usize = if self.subpixel {
            3
        } else {
            1
        };
        let len = self.coverage.len();
        let index = match (row as usize).checked_mul(self.width) {
            None => None,
            Some(start) => match start.checked_add(col as usize) {
                None => None,
                Some(pixel) => pixel.checked_mul(stride),
            },
        };
        proof {
            assert(0 <= row * self.width) by (nonlinear_arith)
                requires
                    0 <= row,
                    0 <= self.width,
            ;
            assert((row * self.width + col) * self.stride() >= row * self.width + col)
                by (nonlinear_arith)
                requires
                    0 <= row * self.width + col,
                    self.stride() >= 1,
            ;
        }
        match index {
            None => None,
            Some(i) => {
                if i < len && self.coverage[i] > 0 {
                    let coverage = self.coverage[i];
                    if self.subpixel {
                        let (r, g, b) = self.color.to_rgb();
                        Some(Color::from_rgba(r, g, b, coverage))
                    } else {
                        Some(self.color)
                    }
                } else {
                    None
                }
            },
        }
    }
}

/// The grid after a glyph was drawn: each pixel that the glyph paints has
/// the glyph's ink, every other pixel is as before.
pub open spec fn paint_glyph(g: PixelGrid, glyph: Glyph) -> PixelGrid {
    PixelGrid::from_fn(
        g.width,
        g.height,
        |x: int, y: int|
            match glyph.ink_at(x, y) {
                Some(color) => color.0,
                None => g.at(x, y),
            },
    )
}

/// Drawing a glyph keeps the size of the grid, and leaves each pixel as it
/// was or gives it the ink of the glyph's text.
pub proof fn lemma_paint_glyph(g: PixelGrid, glyph: Glyph)
    ensures
        paint_glyph(g, glyph).wf(),
        paint_glyph(g, glyph).width == g.width,
        paint_glyph(g, glyph).height == g.height,
        forall|x: int, y: int|
            g.contains(x, y) ==> #[trigger] paint_glyph(g, glyph).at(x, y) == (match glyph.ink_at(
                x,
                y,
            ) {
                Some(color) => color.0,
                None => g.at(x, y),
            }),
        forall|x: int, y: int|
            g.contains(x, y) ==> #[trigger] paint_glyph(g, glyph).at(x, y) == g.at(x, y) || inked(
                glyph.color,
                glyph.subpixel,
                paint_glyph(g, glyph).at(x, y),
            ),
{
    let p = paint_glyph(g, glyph);
    assert forall|x: int, y: int| g.contains(x, y) implies #[trigger] p.at(x, y) == (
    match glyph.ink_at(x, y) {
        Some(color) => color.0,
        None => g.at(x, y),
    }) by {
        lemma_index_of(p, x, y);
    }
    assert forall|x: int, y: int| g.contains(x, y) implies #[trigger] p.at(x, y) == g.at(x, y)
        || inked(glyph.color, glyph.subpixel, p.at(x, y)) by {
        if glyph.covers(x, y) {
            let coverage = glyph.coverage@[glyph.index_at(x, y)];
            assert(ink(glyph.color, glyph.subpixel, coverage).0 == p.at(x, y));
        }
    }
}

/// The end of an extent that starts at `start`, cut off at `limit`.
fn clip_end(start: usize, extent: usize, limit: usize) -> (end: usize)
    requires
        start <= limit,
    ensures
        end == (if start + extent < limit {
            start + extent
        } else {
            limit as int
        }),
{
    if extent >= limit - start {
        limit
    } else {
        start + extent
    }
}

/// Draws a rasterized glyph to the canvas, with the pixel writes of the
/// canvas: each pixel of the bitmap whose coverage is not zero is painted,
/// solid in the text's color or, for a subpixel bitmap, in the text's color
/// with the coverage of the pixel's first byte as its alpha. What falls
/// outside the canvas is clipped.
pub fn draw_glyph(canvas: &mut Canvas, glyph: &Glyph)
    ensures
        final(canvas)@ == paint_glyph(old(canvas)@, *glyph),
        final(canvas)@.wf(),
{
    let ghost before = canvas@;
    proof {
        use_type_invariant(&*canvas);
        canvas.lemma_wf();
        lemma_paint_glyph(before, *glyph);
        lemma_stencilled(before, *glyph);
        lemma_grid_ext(stencilled(before, *glyph), paint_glyph(before, *glyph));
    }
    let width = canvas.width();
    let height = canvas.height();
    let x0 = clip(glyph.pos.x, width);
    let y0 = clip(glyph.pos.y, height);
    let x1 = clip_end(x0, glyph.width, width);
    let y1 = clip_end(y0, glyph.height, height);
    fill(canvas, glyph, x0, x1, y0, y1);
}

/// The grid after a list of glyphs was drawn, in order.
pub open spec fn paint_glyphs(g: PixelGrid, glyphs: Seq<Glyph>) -> PixelGrid
    decreases glyphs.len(),
{
    if glyphs.len() == 0 {
        g
    } else {
        paint_glyph(paint_glyphs(g, glyphs.drop_last()), glyphs.last())
    }
}

/// The word `word` is `before`, or one that one of the glyphs writes.
pub open spec fn inked_by(glyphs: Seq<Glyph>, before: u32, word: u32) -> bool {
    word == before || exists|i: int|
        0 <= i < glyphs.len() && inked((#[trigger] glyphs[i]).color, glyphs[i].subpixel, word)
}

/// Drawing a list of glyphs keeps the size of the grid, and leaves each
/// pixel as it was or gives it the ink of one of the glyphs.
pub proof fn lemma_paint_glyphs(g: PixelGrid, glyphs: Seq<Glyph>)
    requires
        g.wf(),
    ensures
        paint_glyphs(g, glyphs).wf(),
        paint_glyphs(g, glyphs).width == g.width,
        paint_glyphs(g, glyphs).height == g.height,
        forall|x: int, y: int|
            g.contains(x, y) ==> inked_by(
                glyphs,
                g.at(x, y),
                #[trigger] paint_glyphs(g, glyphs).at(x, y),
            ),
    decreases glyphs.len(),
{
    if glyphs.len() > 0 {
        let rest = glyphs.drop_last();
        let last = glyphs.last();
        let mid = paint_glyphs(g, rest);
        lemma_paint_glyphs(g, rest);
        lemma_paint_glyph(mid, last);
        assert forall|x: int, y: int| g.contains(x, y) implies inked_by(
            glyphs,
            g.at(x, y),
            #[trigger] paint_glyphs(g, glyphs).at(x, y),
        ) by {
            let word = paint_glyphs(g, glyphs).at(x, y);
            assert(inked_by(rest, g.at(x, y), mid.at(x, y)));
            if word == mid.at(x, y) {
                if word != g.at(x, y) {
                    let i = choose|i: int|
                        0 <= i < rest.len() && inked(
                            (#[trigger] rest[i]).color,
                            rest[i].subpixel,
                            word,
                        );
                    assert(glyphs[i] == rest[i]);
                }
            } else {
                assert(inked(last.color, last.subpixel, word));
                assert(glyphs[glyphs.len() - 1] == last);
            }
        }
    }
}

/// Draws a list of rasterized glyphs to the canvas, in order.
pub fn draw_glyphs(canvas: &mut Canvas, glyphs: &Vec<Glyph>)
    ensures
        final(canvas)@ == paint_glyphs(old(canvas)@, glyphs@),
        final(canvas)@.wf(),
{
    proof {
        use_type_invariant(&*canvas);
        canvas.lemma_wf();
        lemma_paint_glyphs(canvas@, glyphs@);
    }
    let mut i: usize = 0;
    assert(glyphs@.take(0) =~= Seq::empty());
    while i < glyphs.len()
        invariant
            i <= glyphs.len(),
            canvas@ == paint_glyphs(old(canvas)@, glyphs@.take(i as int)),
        decreases glyphs.len() - i,
    {
        draw_glyph(canvas, &glyphs[i]);
        proof {
            let done = glyphs@.take(i + 1);
            assert(done.drop_last() =~= glyphs@.take(i as int));
            assert(done.last() == glyphs@[i as int]);
        }
        i += 1;
    }
    assert(glyphs@.take(i as int) =~= glyphs@);
}

/// Sketch to draw text on a canvas, with or without subpixel anti-aliasing
/// (with, by default).
pub struct TextSketch {
    layout: fontdue::layout::Layout<()>,
    font: fontdue::Font,
    color: Color,
    pos: Vector2<u32>,
    saa: bool,
}

impl TextSketch {
    /// What holds of every text sketch: the font holds each glyph of the
    /// layout.
    #[verifier::type_invariant]
    pub closed spec fn inv(&self) -> bool {
        &&& font_sound(self.font)
        &&& forall|i: int|
            0 <= i < layout_placed(self.layout).len() ==> (#[trigger] layout_placed(
                self.layout,
            )[i]).0 < font_glyph_count(self.font)
    }

    /// The color of the text.
    pub closed spec fn color(&self) -> Color {
        self.color
    }

    /// The position of the text on the canvas.
    pub closed spec fn pos(&self) -> Vector2<u32> {
        self.pos
    }

    /// Whether the text is drawn with subpixel anti-aliasing.
    pub closed spec fn subpixel(&self) -> bool {
        self.saa
    }

    /// The font of the text.
    pub closed spec fn font(&self) -> fontdue::Font {
        self.font
    }

    /// The glyphs of the text, in order, each as `(index, size, x, y)`: its
    /// index in the font, its size in pixels, and where the layout puts its
    /// upper left corner, from the position of the text.
    pub closed spec fn placed(&self) -> Seq<(u16, u16, u32, u32)> {
        layout_placed(self.layout)
    }

    /// `glyph` is a rasterized glyph as the sketch draws it for the place
    /// `place`: it stands at the place, from the position of the text, it
    /// has the color of the text, its bitmap is a subpixel one exactly if
    /// the text is drawn so, and the bitmap holds the bytes of its pixels.
    /// What the bitmap's size and bytes are is up to the font's rasterizer.
    pub open spec fn glyph_at(&self, place: (u16, u16, u32, u32), glyph: Glyph) -> bool {
        &&& glyph.pos.x == self.pos().x + place.2
        &&& glyph.pos.y == self.pos().y + place.3
        &&& glyph.subpixel == self.subpixel()
        &&& glyph.color == self.color()
        &&& glyph.full()
    }

    /// `glyphs` are rasterized glyphs as the sketch draws them: one for each
    /// glyph of the text, in order.
    pub open spec fn rasterized(&self, glyphs: Seq<Glyph>) -> bool {
        &&& glyphs.len() == self.placed().len()
        &&& forall|i: int|
            0 <= i < glyphs.len() ==> self.glyph_at(self.placed()[i], #[trigger] glyphs[i])
    }

    /// Create a new empty [TextSketch] with a font. The text is black and
    /// is drawn with subpixel anti-aliasing.
    pub fn new(pos: Vector2<u32>, font: fontdue::Font) -> (sketch: TextSketch)
        ensures
            sketch.pos() == pos,
            sketch.color() == Color(0),
            sketch.subpixel(),
            sketch.font() == font,
            sketch.placed() == Seq::<(u16, u16, u32, u32)>::empty(),
    {
        let _ = font_glyph_total(&font);
        TextSketch { layout: new_layout(), color: Color(0), font, pos, saa: true }
    }

    /// Set the color of the text.
    pub fn with_color(self, color: Color) -> (sketch: TextSketch)
        ensures
            sketch.color() == color,
            sketch.pos() == self.pos(),
            sketch.subpixel() == self.subpixel(),
            sketch.font() == self.font(),
            sketch.placed() == self.placed(),
    {
        proof {
            use_type_invariant(&self);
        }
        let TextSketch { layout, font, color: _, pos, saa } = self;
        TextSketch { layout, font, color, pos, saa }
    }

    /// Append new text to the layout with `text` as text and `px` as size in
    /// whole pixels. The glyphs of the text, one for each character and each
    /// of the size `px`, come after those that the sketch holds.
    pub fn with_text(self, text: &str, px: u16) -> (sketch: TextSketch)
        ensures
            sketch.color() == self.color(),
            sketch.pos() == self.pos(),
            sketch.subpixel() == self.subpixel(),
            sketch.font() == self.font(),
            appended(self.placed(), sketch.placed(), self.font(), text@, px),
    {
        proof {
            use_type_invariant(&self);
        }
        let TextSketch { mut layout, font, color, pos, saa } = self;
        layout_append(&mut layout, &font, text, px);
        TextSketch { layout, font, color, pos, saa }
    }

    /// Set whether to draw the text with subpixel anti-aliasing.
    pub fn with_ssa(self, ssa: bool) -> (sketch: TextSketch)
        ensures
            sketch.subpixel() == ssa,
            sketch.color() == self.color(),
            sketch.pos() == self.pos(),
            sketch.font() == self.font(),
            sketch.placed() == self.placed(),
    {
        proof {
            use_type_invariant(&self);
        }
        let TextSketch { layout, font, color, pos, saa: _ } = self;
        TextSketch { layout, font, color, pos, saa: ssa }
    }

    /// Rasterizes the glyphs of the text: one glyph for each glyph of the
    /// text, in order, each at its place and in the color of the text, with
    /// whatever bitmap the font's rasterizer makes of it.
    pub fn glyphs(&self) -> (glyphs: Vec<Glyph>)
        ensures
            self.rasterized(glyphs@),
    {
        proof {
            use_type_invariant(self);
        }
        let places = layout_places(&self.layout);
        let mut glyphs: Vec<Glyph> = Vec::new();
        let mut i: usize = 0;
        while i < places.len()
            invariant
                i <= places.len(),
                places@ == self.placed(),
                self.inv(),
                glyphs@.len() == i,
                forall|j: int|
                    0 <= j < i ==> self.glyph_at(self.placed()[j], #[trigger] glyphs@[j]),
            decreases places.len() - i,
        {
            let place = places[i];
            let bitmap = if self.saa {
                rasterize_glyph_subpixel(&self.font, place.0, place.1)
            } else {
                rasterize_glyph(&self.font, place.0, place.1)
            };
            let glyph = Glyph {
                pos: Vector2 {
                    x: self.pos.x as u64 + place.2 as u64,
                    y: self.pos.y as u64 + place.3 as u64,
                },
                width: bitmap.0,
                height: bitmap.1,
                coverage: bitmap.2,
                subpixel: self.saa,
                color: self.color,
            };
            proof {
                assert(bitmap.0 * bitmap.1 * 3 == 3 * bitmap.0 * bitmap.1) by (nonlinear_arith);
                assert(bitmap.0 * bitmap.1 * 1 == bitmap.0 * bitmap.1) by (nonlinear_arith);
            }
            glyphs.push(glyph);
            i += 1;
        }
        glyphs
    }
}

impl Drawable for TextSketch {
    /// The canvas afterwards is the canvas before with the glyphs of the
    /// text drawn on it, in order, each at its place and in the color of the
    /// text: whatever the font's rasterizer makes of each glyph is drawn as
    /// [draw_glyph] draws it. A text without glyphs leaves the canvas as it
    /// is.
    open spec fn draws(&self, before: PixelGrid, after: PixelGrid) -> bool {
        &&& exists|glyphs: Seq<Glyph>| #[trigger]
            self.rasterized(glyphs) && after == paint_glyphs(before, glyphs)
        &&& self.placed().len() == 0 ==> after == before
    }

    /// Draws the glyphs of the text, in order, each at the position that the
    /// layout gives it from the position of the text.
    fn apply(&self, canvas: &mut Canvas) {
        let glyphs = self.glyphs();
        draw_glyphs(canvas, &glyphs);
        proof {
            assert(self.rasterized(glyphs@));
        }
    }
}

/// Whatever the font's rasterizer makes of the glyphs, drawing a text keeps
/// the size of the canvas, and leaves each pixel as it was or gives it the
/// ink of the text.
pub proof fn lemma_text_draws(sketch: TextSketch, before: PixelGrid, after: PixelGrid)
    requires
        before.wf(),
        sketch.draws(before, after),
    ensures
        after.wf(),
        after.width == before.width,
        after.height == before.height,
        forall|x: int, y: int|
            before.contains(x, y) ==> #[trigger] after.at(x, y) == before.at(x, y) || inked(
                sketch.color(),
                sketch.subpixel(),
                after.at(x, y),
            ),
{
    let glyphs = choose|glyphs: Seq<Glyph>| #[trigger]
        sketch.rasterized(glyphs) && after == paint_glyphs(before, glyphs);
    lemma_paint_glyphs(before, glyphs);
    assert forall|x: int, y: int| before.contains(x, y) implies #[trigger] after.at(x, y)
        == before.at(x, y) || inked(sketch.color(), sketch.subpixel(), after.at(x, y)) by {
        assert(inked_by(glyphs, before.at(x, y), after.at(x, y)));
    }
}

} // verus!
