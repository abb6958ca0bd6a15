use qilin::render::canvas::Canvas;
use qilin::render::color::Color;
use qilin::simplified::vec2;
use fontdue::{Font, FontSettings};
use qilin::render::sketch::Drawable;
use qilin::text::{draw_glyph, draw_glyphs, Glyph, TextSketch};
use qilin::Vector2;

fn be16(out: &mut Vec<u8>, v: i32) {
    out.extend_from_slice(&(v as u16).to_be_bytes());
}

fn be32(out: &mut Vec<u8>, v: u32) {
    out.extend_from_slice(&v.to_be_bytes());
}

/// A TrueType font of 1000 units per em with one glyph, which every
/// character falls back to: a square from (100, 0) to (900, 800), 1000 units
/// wide.
fn square_font() -> Vec<u8> {
    let mut glyf = Vec::new();
    for v in [1, 100, 0, 900, 800] {
        be16(&mut glyf, v); // one contour and its bounding box
    }
    be16(&mut glyf, 3); // the contour ends at point 3
    be16(&mut glyf, 0); // no instructions
    glyf.extend_from_slice(&[1, 1, 1, 1]); // four points on the curve
    for dx in [100, 0, 800, 0] {
        be16(&mut glyf, dx);
    }
    for dy in [0, 800, 0, -800] {
        be16(&mut glyf, dy);
    }
    glyf.extend_from_slice(&[0, 0]); // padding

    let mut head = Vec::new();
    be32(&mut head, 0x0001_0000); // version
    be32(&mut head, 0x0001_0000); // revision
    be32(&mut head, 0); // checksum adjustment
    be32(&mut head, 0x5F0F_3CF5); // magic number
    be16(&mut head, 0); // flags
    be16(&mut head, 1000); // units per em
    head.extend_from_slice(&[0; 16]); // created, modified
    for v in [100, 0, 900, 800] {
        be16(&mut head, v); // bounding box
    }
    for v in [0, 8, 2, 0, 0] {
        be16(&mut head, v); // style, smallest size, direction, short offsets, glyph format
    }

    let mut hhea = Vec::new();
    be32(&mut hhea, 0x0001_0000); // version
    for v in [800, -200, 0, 1000, 100, 100, 900, 1, 0, 0, 0, 0, 0, 0, 0, 1] {
        be16(&mut hhea, v); // ascender, descender, line gap, ..., one metric
    }

    let mut hmtx = Vec::new();
    be16(&mut hmtx, 1000); // advance width
    be16(&mut hmtx, 100); // left side bearing

    let mut loca = Vec::new();
    be16(&mut loca, 0);
    be16(&mut loca, 17); // the glyph is 34 bytes long

    let mut maxp = Vec::new();
    be32(&mut maxp, 0x0000_5000); // version
    be16(&mut maxp, 1); // one glyph

    let tables: [(&[u8; 4], Vec<u8>); 6] = [
        (b"glyf", glyf),
        (b"head", head),
        (b"hhea", hhea),
        (b"hmtx", hmtx),
        (b"loca", loca),
        (b"maxp", maxp),
    ];
    let mut font = Vec::new();
    be32(&mut font, 0x0001_0000);
    for v in [6, 64, 2, 32] {
        be16(&mut font, v); // six tables
    }
    let mut offset = 12 + 16 * tables.len();
    for (tag, data) in &tables {
        font.extend_from_slice(&tag[..]);
        be32(&mut font, 0); // checksum
        be32(&mut font, offset as u32);
        be32(&mut font, data.len() as u32);
        offset += (data.len() + 3) / 4 * 4;
    }
    for (_, data) in &tables {
        font.extend_from_slice(data);
        while font.len() % 4 != 0 {
            font.push(0);
        }
    }
    font
}

fn square() -> Font {
    Font::from_bytes(square_font(), FontSettings::default()).unwrap()
}

fn words(canvas: &Canvas) -> Vec<u32> {
    canvas.clone().buffer().into_vec()
}

fn mask(pos: Vector2<u64>, width: usize, height: usize, coverage: Vec<u8>, color: Color) -> Glyph {
    Glyph { pos, width, height, coverage, subpixel: false, color }
}

#[test]
fn glyph_paints_solid_wherever_coverage_is_not_zero() {
    let mut canvas = Canvas::new(4, 3);
    let glyph = mask(vec2(1, 1), 2, 2, vec![0, 1, 128, 255], Color(0x00AB_CDEF));
    draw_glyph(&mut canvas, &glyph);
    assert_eq!(
        words(&canvas),
        vec![0, 0, 0, 0, 0, 0, 0x00AB_CDEF, 0, 0, 0x00AB_CDEF, 0x00AB_CDEF, 0]
    );
}

#[test]
fn glyph_leaves_pixels_of_no_coverage_as_they_were() {
    let mut canvas = Canvas::new(2, 2);
    canvas.clear(&Color(7));
    draw_glyph(&mut canvas, &mask(vec2(0, 0), 2, 2, vec![0, 9, 0, 0], Color(1)));
    assert_eq!(words(&canvas), vec![7, 1, 7, 7]);
}

#[test]
fn subpixel_glyph_takes_the_first_of_three_bytes_as_alpha() {
    let mut canvas = Canvas::new(3, 1);
    let glyph = Glyph {
        pos: vec2(0, 0),
        width: 3,
        height: 1,
        coverage: vec![128, 0, 0, 0, 255, 255, 255, 7, 7],
        subpixel: true,
        color: Color::from_rgb(200, 100, 50),
    };
    draw_glyph(&mut canvas, &glyph);
    assert_eq!(words(&canvas), vec![0x8064_3219, 0, 0xFFC8_6432]);
    assert_eq!(Color(words(&canvas)[0]), Color::from_rgba(200, 100, 50, 128));
}

#[test]
fn glyph_is_clipped_at_the_canvas() {
    let mut canvas = Canvas::new(3, 2);
    draw_glyph(&mut canvas, &mask(vec2(2, 1), 2, 2, vec![5, 6, 7, 8], Color(4)));
    assert_eq!(words(&canvas), vec![0, 0, 0, 0, 0, 4]);
    let mut canvas = Canvas::new(3, 2);
    draw_glyph(&mut canvas, &mask(vec2(3, 0), 2, 2, vec![5, 6, 7, 8], Color(4)));
    draw_glyph(&mut canvas, &mask(vec2(u64::MAX, u64::MAX), 2, 2, vec![5, 6, 7, 8], Color(4)));
    assert_eq!(words(&canvas), vec![0; 6]);
}

#[test]
fn glyph_with_too_little_coverage_paints_what_it_has() {
    let mut canvas = Canvas::new(2, 2);
    draw_glyph(&mut canvas, &mask(vec2(0, 0), 2, 2, vec![1, 1, 1], Color(4)));
    assert_eq!(words(&canvas), vec![4, 4, 4, 0]);
    let mut canvas = Canvas::new(2, 2);
    draw_glyph(&mut canvas, &mask(vec2(0, 0), usize::MAX, usize::MAX, vec![1, 1, 1], Color(4)));
    assert_eq!(words(&canvas), vec![4, 4, 0, 0]);
}

#[test]
fn empty_glyph_paints_nothing() {
    let mut canvas = Canvas::new(2, 2);
    draw_glyph(&mut canvas, &mask(vec2(0, 0), 0, 0, vec![], Color(4)));
    assert_eq!(words(&canvas), vec![0; 4]);
}

#[test]
fn glyphs_are_drawn_in_order() {
    let first = mask(vec2(0, 0), 2, 1, vec![1, 1], Color(1));
    let second = mask(vec2(1, 0), 2, 1, vec![1, 1], Color(2));
    let mut canvas = Canvas::new(4, 1);
    draw_glyphs(&mut canvas, &vec![first.clone(), second.clone()]);
    assert_eq!(words(&canvas), vec![1, 2, 2, 0]);
    let mut canvas = Canvas::new(4, 1);
    draw_glyphs(&mut canvas, &vec![second, first]);
    assert_eq!(words(&canvas), vec![1, 1, 2, 0]);
}

#[test]
fn drawing_no_glyphs_changes_nothing() {
    let mut canvas = Canvas::new(2, 2);
    canvas.clear(&Color(8));
    draw_glyphs(&mut canvas, &Vec::new());
    assert_eq!(words(&canvas), vec![8; 4]);
}

#[test]
fn a_sketch_has_one_glyph_for_each_character() {
    let sketch = TextSketch::new(vec2(3, 4), square()).with_color(Color(9)).with_ssa(false);
    assert_eq!(sketch.glyphs().len(), 0);
    let sketch = sketch.with_text("ABC", 10).with_text("D", 20);
    let glyphs = sketch.glyphs();
    assert_eq!(glyphs.len(), 4);
    for glyph in &glyphs {
        assert_eq!(glyph.color, Color(9));
        assert!(!glyph.subpixel);
        assert_eq!(glyph.coverage.len(), glyph.width * glyph.height);
        assert!(glyph.pos.x >= 3 && glyph.pos.y >= 4);
    }
    // the square is 0.8 em wide and high, and each glyph stands one em after the last
    assert_eq!((glyphs[0].width, glyphs[0].height), (8, 8));
    assert_eq!((glyphs[3].width, glyphs[3].height), (16, 16));
    assert_eq!(glyphs[1].pos.x, glyphs[0].pos.x + 10);
    assert_eq!(glyphs[2].pos.x, glyphs[1].pos.x + 10);
    // the larger glyph starts two pixels into its em, the smaller ones one pixel
    assert_eq!(glyphs[3].pos.x, glyphs[2].pos.x + 11);
}

#[test]
fn subpixel_glyphs_have_three_bytes_to_a_pixel() {
    let sketch = TextSketch::new(vec2(0, 0), square()).with_text("A", 10);
    let glyphs = sketch.glyphs();
    assert_eq!(glyphs.len(), 1);
    assert!(glyphs[0].subpixel);
    assert_eq!(glyphs[0].color, Color(0));
    assert_eq!(glyphs[0].coverage.len(), 3 * glyphs[0].width * glyphs[0].height);
}

#[test]
fn drawing_a_sketch_draws_its_glyphs() {
    for subpixel in [false, true] {
        let sketch = TextSketch::new(vec2(2, 1), square())
            .with_color(Color::from_rgb(9, 99, 199))
            .with_ssa(subpixel)
            .with_text("AB", 10);
        let mut first = Canvas::new(32, 16);
        first.clear(&Color(5));
        let mut second = first.clone();
        sketch.apply(&mut first);
        draw_glyphs(&mut second, &sketch.glyphs());
        assert_eq!(words(&first), words(&second));
        assert!(words(&first).iter().any(|w| *w != 5));
    }
}

#[test]
fn a_sketch_without_text_draws_nothing() {
    let mut canvas = Canvas::new(16, 16);
    canvas.clear(&Color(3));
    canvas.drawable(&TextSketch::new(vec2(0, 0), square()).with_color(Color(9)));
    assert_eq!(words(&canvas), vec![3; 256]);
}

#[test]
fn text_is_drawn_solid_without_subpixel_anti_aliasing() {
    let sketch = TextSketch::new(vec2(2, 1), square())
        .with_color(Color(0x00FF_0000))
        .with_ssa(false)
        .with_text("A", 10);
    let mut canvas = Canvas::new(24, 24);
    canvas.drawable(&sketch);
    let painted = words(&canvas);
    assert!(painted.iter().any(|w| *w == 0x00FF_0000));
    assert!(painted.iter().all(|w| *w == 0 || *w == 0x00FF_0000));
    // the square is about eight pixels wide and high
    let count = painted.iter().filter(|w| **w != 0).count();
    assert!((49..=100).contains(&count), "{count} pixels");
    // nothing is painted left of or above the position of the text
    for y in 0..24 {
        for x in 0..24 {
            if x < 2 || y < 1 {
                assert_eq!(canvas.get_pixel(x, y), Some(Color(0)));
            }
        }
    }
}

#[test]
fn text_is_drawn_with_coverage_as_alpha_by_default() {
    let color = Color::from_rgb(200, 100, 50);
    let sketch = TextSketch::new(vec2(0, 0), square()).with_color(color).with_text("A", 10);
    let mut canvas = Canvas::new(24, 24);
    canvas.drawable(&sketch);
    let painted = words(&canvas);
    assert!(painted.iter().any(|w| *w != 0));
    for word in painted {
        if word != 0 {
            let alpha = (word >> 24) as u8;
            assert!(alpha > 0);
            assert_eq!(Color(word), Color::from_rgba(200, 100, 50, alpha));
        }
    }
}

#[test]
fn each_character_is_drawn_at_its_own_place() {
    let one = TextSketch::new(vec2(0, 0), square()).with_ssa(false).with_color(Color(5)).with_text("A", 10);
    let two = TextSketch::new(vec2(0, 0), square()).with_ssa(false).with_color(Color(5)).with_text("AB", 10);
    let mut first = Canvas::new(40, 16);
    first.drawable(&one);
    let mut second = Canvas::new(40, 16);
    second.drawable(&two);
    let count = |c: &Canvas| words(c).iter().filter(|w| **w != 0).count();
    assert!(count(&first) > 0);
    assert_eq!(count(&second), 2 * count(&first));
    let rightmost = |c: &Canvas| (0..40).rev().find(|x| (0..16).any(|y| c.get_pixel(*x, y) == Some(Color(5))));
    assert_eq!(rightmost(&second), rightmost(&first).map(|x| x + 10));
}

#[test]
fn text_appended_later_comes_after_the_earlier_text() {
    let together = TextSketch::new(vec2(0, 0), square()).with_ssa(false).with_color(Color(5)).with_text("AB", 10);
    let apart = TextSketch::new(vec2(0, 0), square())
        .with_ssa(false)
        .with_color(Color(5))
        .with_text("A", 10)
        .with_text("B", 10);
    let mut first = Canvas::new(40, 16);
    first.drawable(&together);
    let mut second = Canvas::new(40, 16);
    second.drawable(&apart);
    assert_eq!(words(&first), words(&second));
}

#[test]
fn text_of_size_zero_draws_nothing() {
    let sketch = TextSketch::new(vec2(0, 0), square()).with_ssa(false).with_color(Color(5)).with_text("A", 0);
    let mut canvas = Canvas::new(8, 8);
    canvas.drawable(&sketch);
    assert_eq!(words(&canvas), vec![0; 64]);
}

#[test]
fn text_far_outside_the_canvas_is_clipped() {
    let sketch = TextSketch::new(vec2(u32::MAX, u32::MAX), square())
        .with_ssa(false)
        .with_color(Color(5))
        .with_text("AAA", 10);
    let mut canvas = Canvas::new(8, 8);
    canvas.drawable(&sketch);
    assert_eq!(words(&canvas), vec![0; 64]);
}
