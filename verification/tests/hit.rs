use qilin::game::context::GameContext;
use qilin::render::canvas::Canvas;
use qilin::render::color::Color;
use qilin::render::sketch::{Operation, Sketch};
use qilin::simplified::vec2;

const PAINT: Color = Color(0x0012_3456);

fn at(x: u32, y: u32) -> GameContext {
    GameContext::new(Some(vec2(x, y)))
}

fn hits(op: &Operation, width: u32, height: u32) -> Vec<String> {
    let mut rows = Vec::new();
    for y in 0..height {
        let mut row = String::new();
        for x in 0..width {
            row.push(if at(x, y).hovering_on(op) { '#' } else { '.' });
        }
        rows.push(row);
    }
    rows
}

#[test]
fn context_keeps_the_pointer() {
    assert_eq!(at(3, 4).get_mouse_pos(), Some(vec2(3, 4)));
    assert_eq!(GameContext::new(None).get_mouse_pos(), None);
}

#[test]
fn hovering_on_sketch_with_a_circle() {
    let mut sketch = Sketch::new();
    sketch.circle(vec2(100, 100), 50, PAINT);
    assert!(at(100, 100).hovering_on_sketch(&sketch));
    assert!(!at(200, 200).hovering_on_sketch(&sketch));
}

#[test]
fn an_absent_pointer_hovers_on_nothing() {
    let ctx = GameContext::new(None);
    let mut sketch = Sketch::new();
    sketch.circle(vec2(0, 0), 50, PAINT).rect(vec2(0, 0), 9, 9, PAINT);
    assert!(!ctx.hovering_on_sketch(&sketch));
    assert!(!ctx.hovering_on(&Operation::Rect { pos: vec2(0, 0), width: 9, height: 9, color: PAINT }));
    assert!(!ctx.clicked_on_sketch(&sketch, true));
}

#[test]
fn nothing_hovers_on_an_empty_sketch() {
    assert!(!at(0, 0).hovering_on_sketch(&Sketch::new()));
}

#[test]
fn circle_hit_test_goes_by_squared_distance() {
    let op = Operation::Circle { pos: vec2(50, 50), radius: 10, color: PAINT };
    assert!(at(50, 60).hovering_on(&op));
    assert!(!at(50, 61).hovering_on(&op));
    assert!(at(56, 58).hovering_on(&op));
    assert!(!at(57, 58).hovering_on(&op));
    assert!(at(40, 50).hovering_on(&op));
    assert!(!at(39, 50).hovering_on(&op));
}

#[test]
fn circle_with_the_largest_radius_does_not_overflow() {
    let op = Operation::Circle { pos: vec2(0, 0), radius: u32::MAX, color: PAINT };
    assert!(at(u32::MAX, 0).hovering_on(&op));
    assert!(!at(u32::MAX, 1).hovering_on(&op));
}

#[test]
fn rect_hit_test_is_half_open_like_the_drawing() {
    let op = Operation::Rect { pos: vec2(2, 2), width: 3, height: 3, color: PAINT };
    assert_eq!(
        hits(&op, 7, 7),
        vec![".......", ".......", "..###..", "..###..", "..###..", ".......", "......."]
    );
}

#[test]
fn rect_of_no_size_is_never_hit() {
    let op = Operation::Rect { pos: vec2(2, 2), width: 0, height: 3, color: PAINT };
    assert!(!at(2, 2).hovering_on(&op));
}

#[test]
fn image_hit_test_is_its_rectangle() {
    let op = Operation::Image { pos: vec2(1, 0), width: 2, height: 2, data: vec![PAINT; 4] };
    assert_eq!(hits(&op, 4, 3), vec![".##.", ".##.", "...."]);
}

#[test]
fn line_hit_test_is_the_bounding_box_of_the_endpoints() {
    let op = Operation::Line { from: vec2(4, 1), to: vec2(1, 3), color: PAINT };
    assert_eq!(hits(&op, 6, 5), vec!["......", ".####.", ".####.", ".####.", "......"]);
    // coarser than the line: a corner of the box that the line does not paint
    assert!(at(1, 1).hovering_on(&op));
    let mut canvas = Canvas::new(6, 5);
    op.apply(&mut canvas);
    assert_eq!(canvas.get_pixel(1, 1), Some(Color(0)));
}

#[test]
fn oval_is_hit_exactly_where_it_is_painted() {
    let op = Operation::Oval { pos: vec2(1, 1), width: 6, height: 4, color: PAINT };
    assert_eq!(
        hits(&op, 8, 6),
        vec!["........", "..####..", ".######.", ".######.", "..####..", "........"]
    );
    let op = Operation::Oval { pos: vec2(0, 0), width: 5, height: 5, color: PAINT };
    assert_eq!(hits(&op, 6, 6), vec![".###..", "#####.", "#####.", "#####.", ".###..", "......"]);
}

#[test]
fn oval_of_no_width_or_no_height_is_hit_nowhere() {
    for (width, height) in [(4, 0), (0, 4), (0, 0)] {
        let op = Operation::Oval { pos: vec2(2, 3), width, height, color: PAINT };
        for y in 0..9 {
            for x in 0..9 {
                assert!(!at(x, y).hovering_on(&op), "{width} by {height} at ({x}, {y})");
            }
        }
    }
}

#[test]
fn oval_hit_test_of_the_largest_size_does_not_overflow() {
    let op = Operation::Oval { pos: vec2(u32::MAX, u32::MAX), width: u32::MAX, height: u32::MAX, color: PAINT };
    assert!(!at(0, 0).hovering_on(&op));
    assert!(!at(u32::MAX, u32::MAX).hovering_on(&op));
    let op = Operation::Oval { pos: vec2(0, 0), width: u32::MAX, height: u32::MAX, color: PAINT };
    assert!(at(u32::MAX / 2, u32::MAX / 2).hovering_on(&op));
    assert!(at(0, u32::MAX / 2).hovering_on(&op));
    assert!(!at(0, 0).hovering_on(&op));
}

fn painted_pixels_are_hit(op: &Operation, width: usize, height: usize) -> bool {
    let mut canvas = Canvas::new(width, height);
    op.apply(&mut canvas);
    for y in 0..height {
        for x in 0..width {
            if canvas.get_pixel(x, y) == Some(PAINT) && !at(x as u32, y as u32).hovering_on(op) {
                return false;
            }
        }
    }
    true
}

#[test]
fn every_painted_pixel_is_hit() {
    let ops = vec![
        Operation::Line { from: vec2(1, 9), to: vec2(14, 2), color: PAINT },
        Operation::Line { from: vec2(12, 12), to: vec2(3, 0), color: PAINT },
        Operation::Line { from: vec2(5, 5), to: vec2(5, 5), color: PAINT },
        Operation::Circle { pos: vec2(8, 8), radius: 6, color: PAINT },
        Operation::Circle { pos: vec2(0, 0), radius: 9, color: PAINT },
        Operation::Rect { pos: vec2(3, 4), width: 7, height: 5, color: PAINT },
        Operation::Image { pos: vec2(2, 2), width: 4, height: 4, data: vec![PAINT; 16] },
        Operation::Oval { pos: vec2(1, 2), width: 9, height: 7, color: PAINT },
        Operation::Oval { pos: vec2(0, 0), width: 15, height: 3, color: PAINT },
        Operation::Oval { pos: vec2(4, 4), width: 1, height: 1, color: PAINT },
    ];
    for op in &ops {
        assert!(painted_pixels_are_hit(op, 16, 16), "{op:?}");
    }
}

#[test]
fn every_pixel_of_an_oval_of_even_size_is_hit() {
    let op = Operation::Oval { pos: vec2(0, 0), width: 2, height: 2, color: PAINT };
    let mut canvas = Canvas::new(3, 3);
    op.apply(&mut canvas);
    for (x, y) in [(0, 0), (1, 0), (0, 1), (1, 1)] {
        assert_eq!(canvas.get_pixel(x, y), Some(PAINT));
        assert!(at(x as u32, y as u32).hovering_on(&op));
    }
    assert!(!at(2, 1).hovering_on(&op));
    assert!(!at(1, 2).hovering_on(&op));
    for (width, height) in [(2, 2), (2, 3), (4, 4), (6, 4), (8, 3), (10, 10)] {
        let op = Operation::Oval { pos: vec2(1, 2), width, height, color: PAINT };
        assert!(painted_pixels_are_hit(&op, 16, 16), "{width} by {height}");
    }
}

#[test]
fn circle_rect_and_oval_are_hit_only_where_they_are_painted() {
    let ops = vec![
        Operation::Circle { pos: vec2(7, 7), radius: 5, color: PAINT },
        Operation::Rect { pos: vec2(3, 4), width: 7, height: 5, color: PAINT },
        Operation::Oval { pos: vec2(1, 2), width: 10, height: 7, color: PAINT },
        Operation::Oval { pos: vec2(4, 4), width: 3, height: 8, color: PAINT },
    ];
    for op in &ops {
        let mut canvas = Canvas::new(16, 16);
        op.apply(&mut canvas);
        for y in 0..16 {
            for x in 0..16 {
                let painted = canvas.get_pixel(x, y) == Some(PAINT);
                assert_eq!(at(x as u32, y as u32).hovering_on(op), painted, "{op:?} at ({x}, {y})");
            }
        }
    }
}

#[test]
fn hovering_on_sketch_is_true_if_any_operation_is_hit() {
    let mut sketch = Sketch::new();
    sketch.rect(vec2(0, 0), 2, 2, PAINT).circle(vec2(10, 10), 2, PAINT).rect(vec2(20, 0), 1, 1, PAINT);
    assert!(at(1, 1).hovering_on_sketch(&sketch));
    assert!(at(10, 12).hovering_on_sketch(&sketch));
    assert!(at(20, 0).hovering_on_sketch(&sketch));
    assert!(!at(5, 5).hovering_on_sketch(&sketch));
}

#[test]
fn hovering_on_sketch_does_not_depend_on_the_order() {
    let mut a = Sketch::new();
    a.rect(vec2(0, 0), 2, 2, PAINT).circle(vec2(10, 10), 2, PAINT);
    let mut b = Sketch::new();
    b.circle(vec2(10, 10), 2, PAINT).rect(vec2(0, 0), 2, 2, PAINT);
    for y in 0..14 {
        for x in 0..14 {
            assert_eq!(at(x, y).hovering_on_sketch(&a), at(x, y).hovering_on_sketch(&b));
        }
    }
}

#[test]
fn clicked_on_needs_the_button_down() {
    let op = Operation::Rect { pos: vec2(0, 0), width: 4, height: 4, color: PAINT };
    assert!(at(1, 1).clicked_on(&op, true));
    assert!(!at(1, 1).clicked_on(&op, false));
    assert!(!at(9, 9).clicked_on(&op, true));
    assert!(!at(9, 9).clicked_on(&op, false));
}

#[test]
fn clicked_on_sketch_needs_the_button_down() {
    let mut sketch = Sketch::new();
    sketch.circle(vec2(100, 100), 50, PAINT).rect(vec2(200, 200), 200, 10, PAINT);
    assert!(at(100, 100).clicked_on_sketch(&sketch, true));
    assert!(!at(100, 100).clicked_on_sketch(&sketch, false));
    assert!(at(399, 209).clicked_on_sketch(&sketch, true));
    assert!(!at(400, 209).clicked_on_sketch(&sketch, true));
    assert!(!at(0, 0).clicked_on_sketch(&sketch, true));
}
