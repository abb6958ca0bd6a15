use vstd::prelude::*;

verus! {

/// A vector of four components.
#[derive(Clone, Copy, Debug, PartialEq, Eq, PartialOrd, Ord, Hash)]
pub struct Vector4<T> {
    pub x: T,
    pub y: T,
    pub z: T,
    pub w: T,
}

impl Vector4<u32> {
    /// The dot product with `other`, as a number without bounds.
    pub open spec fn spec_dot(self, other: Vector4<u32>) -> int {
        self.x * other.x + self.y * other.y + self.z * other.z + self.w * other.w
    }

    /// The dot product with `other`. It must fit in a `u32`.
    pub fn dot(&self, other: &Vector4<u32>) -> (d: u32)
        requires
            self.spec_dot(*other) <= u32::MAX,
        ensures
            d == self.spec_dot(*other),
    {
        proof {
            assert(0 <= self.x * other.x && 0 <= self.y * other.y && 0 <= self.z * other.z && 0
                <= self.w * other.w) by (nonlinear_arith);
        }
        self.x * other.x + self.y * other.y + self.z * other.z + self.w * other.w
    }
}

} // verus!
