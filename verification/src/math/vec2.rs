use vstd::prelude::*;

verus! {

/// A vector of two components. Positions on a canvas are vectors of `u32`:
/// `x` counts columns from the left, `y` rows from the top.
#[derive(Clone, Copy, Debug, PartialEq, Eq, PartialOrd, Ord, Hash)]
pub struct Vector2<T> {
    pub x: T,
    pub y: T,
}

impl Vector2<u32> {
    /// The dot product with `other`, as a number without bounds.
    pub open spec fn spec_dot(self, other: Vector2<u32>) -> int {
        self.x * other.x + self.y * other.y
    }

    /// The cross product with `other`, as a number without bounds.
    pub open spec fn spec_cross(self, other: Vector2<u32>) -> int {
        self.x * other.y - self.y * other.x
    }

    /// The dot product with `other`. It must fit in a `u32`.
    pub fn dot(&self, other: &Vector2<u32>) -> (d: u32)
        requires
            self.spec_dot(*other) <= u32::MAX,
        ensures
            d == self.spec_dot(*other),
    {
        proof {
            assert(0 <= self.x * other.x && 0 <= self.y * other.y) by (nonlinear_arith);
        }
        self.x * other.x + self.y * other.y
    }

    /// The cross product with `other`. Its first product must fit in a
    /// `u32`, and the second must not be larger than the first.
    pub fn cross(&self, other: &Vector2<u32>) -> (c: u32)
        requires
            self.y * other.x <= self.x * other.y <= u32::MAX,
        ensures
            c == self.spec_cross(*other),
    {
        proof {
            assert(0 <= self.y * other.x) by (nonlinear_arith);
        }
        self.x * other.y - self.y * other.x
    }
}

} // verus!
