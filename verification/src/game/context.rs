use crate::math::vec2::Vector2;
use crate::render::sketch::{
    in_box, in_circle, in_oval, lemma_line_in_bounds, sample_box, sample_circle, sample_oval,
    Operation, Sketch,
};
use vstd::prelude::*;

verus! {

/// The point `(x, y)` lies in the bounding box of the two endpoints of a
/// line, borders included. This is coarser than the line itself.
pub open spec fn in_line_bounds(from: Vector2<u32>, to: Vector2<u32>, x: int, y: int) -> bool {
    &&& x >= (if from.x <= to.x {
        from.x
    } else {
        to.x
    })
    &&& x <= (if from.x <= to.x {
        to.x
    } else {
        from.x
    })
    &&& y >= (if from.y <= to.y {
        from.y
    } else {
        to.y
    })
    &&& y <= (if from.y <= to.y {
        to.y
    } else {
        from.y
    })
}

/// The pointer at pixel `(x, y)` is on the operation. Circles, rectangles and
/// ovals are hit exactly at the pixels that they paint; an image is hit on
/// its whole rectangle, and a line on the whole bounding box of its
/// endpoints.
pub open spec fn hit(op: Operation, x: int, y: int) -> bool {
    match op {
        Operation::Line { from, to, color } => in_line_bounds(from, to, x, y),
        Operation::Circle { pos, radius, color } => in_circle(pos, radius, x, y),
        Operation::Rect { pos, width, height, color } => in_box(pos, width, height, x, y),
        Operation::Image { pos, width, height, data } => in_box(pos, width, height, x, y),
        Operation::Oval { pos, width, height, color } => in_oval(pos, width, height, x, y),
    }
}

/// The pointer at pixel `(x, y)` is on one of the operations.
pub open spec fn hit_any(ops: Seq<Operation>, x: int, y: int) -> bool {
    exists|i: int| 0 <= i < ops.len() && hit(#[trigger] ops[i], x, y)
}

/// What the game reads of the input surface: the pixel under the pointer,
/// or nothing while the pointer is outside the surface.
#[derive(Clone, Copy, Debug)]
pub struct GameContext {
    mouse: Option<Vector2<u32>>,
}

impl View for GameContext {
    type V = Option<Vector2<u32>>;

    closed spec fn view(&self) -> Option<Vector2<u32>> {
        self.mouse
    }
}

impl GameContext {
    /// Create a context from the pixel under the pointer, if there is one.
    pub fn new(mouse: Option<Vector2<u32>>) -> (ctx: GameContext)
        ensures
            ctx@ == mouse,
    {
        GameContext { mouse }
    }

    /// Get mouse position.
    ///
    /// Returns `None` if the mouse is outside of the surface.
    pub fn get_mouse_pos(&self) -> (pos: Option<Vector2<u32>>)
        ensures
            pos == self@,
    {
        self.mouse
    }

    /// The pointer is on the operation.
    pub open spec fn hovering(&self, op: Operation) -> bool {
        match self@ {
            Some(p) => hit(op, p.x as int, p.y as int),
            None => false,
        }
    }

    /// The pointer is on one of the operations.
    pub open spec fn hovering_any(&self, ops: Seq<Operation>) -> bool {
        match self@ {
            Some(p) => hit_any(ops, p.x as int, p.y as int),
            None => false,
        }
    }

    /// Check if the mouse is hovering on top of a drawing operation.
    pub fn hovering_on(&self, operation: &Operation) -> (b: bool)
        ensures
            b == self.hovering(*operation),
    {
        match self.mouse {
            None => false,
            Some(p) => {
                let (x, y) = (p.x as u64, p.y as u64);
                match operation {
                    Operation::Line { from, to, color } => {
                        let (min_x, max_x) = if from.x <= to.x {
                            (from.x, to.x)
                        } else {
                            (to.x, from.x)
                        };
                        let (min_y, max_y) = if from.y <= to.y {
                            (from.y, to.y)
                        } else {
                            (to.y, from.y)
                        };
                        p.x >= min_x && p.x <= max_x && p.y >= min_y && p.y <= max_y
                    },
                    Operation::Circle { pos, radius, color } => sample_circle(pos, *radius, x, y),
                    Operation::Rect { pos, width, height, color } => sample_box(
                        pos,
                        *width,
                        *height,
                        x,
                        y,
                    ),
                    Operation::Image { pos, width, height, data } => sample_box(
                        pos,
                        *width,
                        *height,
                        x,
                        y,
                    ),
                    Operation::Oval { pos, width, height, color } => sample_oval(
                        pos,
                        *width,
                        *height,
                        x,
                        y,
                    ),
                }
            },
        }
    }

    /// Check if the mouse is hovering on a sketch: on any one of its
    /// operations. They are tried in the order of the sketch, up to the first
    /// that the pointer is on.
    pub fn hovering_on_sketch(&self, sketch: &Sketch) -> (b: bool)
        ensures
            b == self.hovering_any(sketch@),
    {
        let ops = sketch.get_operations();
        let mut i: usize = 0;
        while i < ops.len()
            invariant
                i <= ops.len(),
                ops@ == sketch@,
                forall|j: int| 0 <= j < i ==> !self.hovering(#[trigger] ops@[j]),
            decreases ops.len() - i,
        {
            if self.hovering_on(&ops[i]) {
                return true;
            }
            i += 1;
        }
        false
    }

    /// Check if the mouse has clicked on an operation: it hovers on it while
    /// the button is down.
    pub fn clicked_on(&self, operation: &Operation, button_down: bool) -> (b: bool)
        ensures
            b == (self.hovering(*operation) && button_down),
    {
        self.hovering_on(operation) && button_down
    }

    /// Check if the mouse has clicked on a sketch: it hovers on it while the
    /// button is down.
    pub fn clicked_on_sketch(&self, sketch: &Sketch, button_down: bool) -> (b: bool)
        ensures
            b == (self.hovering_any(sketch@) && button_down),
    {
        self.hovering_on_sketch(sketch) && button_down
    }
}

/// Every pixel that an operation paints is a pixel on which the pointer is
/// on the operation. For a line the converse fails by design: the hit test
/// goes by the bounding box. For an image it fails where the image has too
/// little data for its rectangle.
pub proof fn lemma_painted_is_hit(op: Operation, x: int, y: int)
    requires
        op.covers(x, y),
    ensures
        hit(op, x, y),
{
    match op {
        Operation::Line { from, to, color } => {
            lemma_line_in_bounds(from, to, x, y);
        },
        _ => {},
    }
}

/// For circles, rectangles and ovals the hit test and the rasterizer go by
/// one predicate: the pointer is on the shape exactly at the pixels that the
/// shape paints.
pub proof fn lemma_hit_is_painted(op: Operation, x: int, y: int)
    requires
        op is Circle || op is Rect || op is Oval,
    ensures
        hit(op, x, y) == op.covers(x, y),
{
}

} // verus!
