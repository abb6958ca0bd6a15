use qilin::math::buffer::Buffer;
use qilin::render::canvas::Canvas;
use qilin::render::color::Color;

fn words_of(canvas: &Canvas) -> Vec<u32> {
    canvas.clone().buffer().into_vec()
}

#[test]
fn new_canvas_is_zero_filled() {
    let canvas = Canvas::new(4, 3);
    assert_eq!(canvas.width(), 4);
    assert_eq!(canvas.height(), 3);
    assert_eq!(words_of(&canvas), vec![0u32; 12]);
}

#[test]
fn new_canvas_may_be_empty() {
    let canvas = Canvas::new(0, 5);
    assert_eq!(canvas.width(), 0);
    assert_eq!(canvas.height(), 5);
    assert_eq!(words_of(&canvas), Vec::<u32>::new());
    assert_eq!(canvas.get_pixel(0, 0), None);
}

#[test]
fn buffer_reports_its_size_and_words() {
    let buffer = Buffer::new(3, 2);
    assert_eq!(buffer.get_width(), 3);
    assert_eq!(buffer.get_height(), 2);
    assert_eq!(buffer.as_slice(), &[0u32; 6]);
    assert_eq!(buffer.clone().into_vec(), vec![0u32; 6]);
}

#[test]
fn write_then_read_returns_the_color_at_every_pixel() {
    let mut canvas = Canvas::new(5, 4);
    for y in 0..4 {
        for x in 0..5 {
            let color = Color((y * 5 + x + 1) as u32);
            canvas.set_pixel(x, y, &color);
            assert_eq!(canvas.get_pixel(x, y), Some(color));
        }
    }
}

#[test]
fn pixels_are_stored_row_by_row() {
    let mut canvas = Canvas::new(3, 2);
    canvas.set_pixel(1, 0, &Color(7));
    canvas.set_pixel(2, 1, &Color(9));
    assert_eq!(words_of(&canvas), vec![0, 7, 0, 0, 0, 9]);
}

#[test]
fn a_write_changes_no_other_pixel() {
    let mut canvas = Canvas::new(4, 4);
    canvas.clear(&Color(3));
    canvas.set_pixel(2, 1, &Color(8));
    for y in 0..4 {
        for x in 0..4 {
            let expected = if (x, y) == (2, 1) { Color(8) } else { Color(3) };
            assert_eq!(canvas.get_pixel(x, y), Some(expected));
        }
    }
}

#[test]
fn a_write_outside_the_canvas_is_dropped() {
    let mut canvas = Canvas::new(4, 3);
    canvas.clear(&Color(5));
    let before = words_of(&canvas);
    canvas.set_pixel(4, 0, &Color(9));
    canvas.set_pixel(0, 3, &Color(9));
    canvas.set_pixel(4, 3, &Color(9));
    canvas.set_pixel(7, 1, &Color(9));
    canvas.set_pixel(usize::MAX, 0, &Color(9));
    canvas.set_pixel(0, usize::MAX, &Color(9));
    canvas.set_pixel(usize::MAX, usize::MAX, &Color(9));
    assert_eq!(words_of(&canvas), before);
}

#[test]
fn a_write_past_the_end_of_a_row_does_not_land_in_the_next_row() {
    let mut canvas = Canvas::new(10, 10);
    canvas.set_pixel(12, 0, &Color(9));
    assert_eq!(canvas.get_pixel(2, 1), Some(Color(0)));
    assert_eq!(words_of(&canvas), vec![0u32; 100]);
}

#[test]
fn a_read_outside_the_canvas_gives_nothing() {
    let canvas = Canvas::new(4, 3);
    assert_eq!(canvas.get_pixel(4, 0), None);
    assert_eq!(canvas.get_pixel(0, 3), None);
    assert_eq!(canvas.get_pixel(5, 1), None);
    assert_eq!(canvas.get_pixel(usize::MAX, usize::MAX), None);
    assert_eq!(canvas.get_pixel(3, 2), Some(Color(0)));
}

#[test]
fn clear_sets_every_pixel() {
    let mut canvas = Canvas::new(3, 3);
    canvas.set_pixel(1, 1, &Color(4));
    canvas.clear(&Color(0x00AB_CDEF));
    assert_eq!(words_of(&canvas), vec![0x00AB_CDEFu32; 9]);
    assert_eq!(canvas.width(), 3);
    assert_eq!(canvas.height(), 3);
}

#[test]
fn cleanse_sets_every_pixel_to_black() {
    let mut canvas = Canvas::new(3, 2);
    canvas.clear(&Color(77));
    canvas.cleanse();
    assert_eq!(words_of(&canvas), vec![0u32; 6]);
}

fn numbered(width: usize, height: usize) -> Canvas {
    let mut canvas = Canvas::new(width, height);
    for y in 0..height {
        for x in 0..width {
            canvas.set_pixel(x, y, &Color((10 * (y + 1) + x + 1) as u32));
        }
    }
    canvas
}

#[test]
fn resize_to_a_larger_size_keeps_the_content_and_zero_fills_the_rest() {
    let mut canvas = numbered(3, 2);
    canvas.resize(5, 4);
    assert_eq!(canvas.width(), 5);
    assert_eq!(canvas.height(), 4);
    assert_eq!(
        words_of(&canvas),
        vec![11, 12, 13, 0, 0, 21, 22, 23, 0, 0, 0, 0, 0, 0, 0, 0, 0, 0, 0, 0]
    );
}

#[test]
fn resize_to_a_smaller_size_keeps_the_upper_left_rectangle() {
    let mut canvas = numbered(4, 3);
    canvas.resize(2, 2);
    assert_eq!(canvas.width(), 2);
    assert_eq!(canvas.height(), 2);
    assert_eq!(words_of(&canvas), vec![11, 12, 21, 22]);
}

#[test]
fn resize_wider_and_lower_keeps_the_overlap() {
    let mut canvas = numbered(2, 3);
    canvas.resize(4, 2);
    assert_eq!(words_of(&canvas), vec![11, 12, 0, 0, 21, 22, 0, 0]);
}

#[test]
fn resize_narrower_and_higher_keeps_the_overlap() {
    let mut canvas = numbered(3, 2);
    canvas.resize(2, 3);
    assert_eq!(words_of(&canvas), vec![11, 12, 21, 22, 0, 0]);
}

#[test]
fn resize_overlap_holds_for_many_sizes() {
    for (w, h, nw, nh) in [(3, 3, 3, 3), (1, 5, 5, 1), (4, 2, 0, 7), (0, 0, 3, 3), (6, 4, 5, 5)] {
        let before = numbered(w, h);
        let mut canvas = before.clone();
        canvas.resize(nw, nh);
        assert_eq!(canvas.width(), nw);
        assert_eq!(canvas.height(), nh);
        for y in 0..nh {
            for x in 0..nw {
                let expected =
                    if x < w && y < h { before.get_pixel(x, y) } else { Some(Color(0)) };
                assert_eq!(canvas.get_pixel(x, y), expected);
            }
        }
    }
}

#[test]
fn a_copy_is_independent_of_the_canvas() {
    let mut canvas = Canvas::new(2, 2);
    canvas.set_pixel(0, 0, &Color(1));
    let copy = canvas.clone();
    canvas.set_pixel(1, 1, &Color(2));
    assert_eq!(words_of(&copy), vec![1, 0, 0, 0]);
    assert_eq!(words_of(&canvas), vec![1, 0, 0, 2]);
}
