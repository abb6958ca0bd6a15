use vstd::prelude::*;

verus! {

/// A vector of three components.
#[derive(Clone, Copy, Debug, PartialEq, Eq, PartialOrd, Ord, Hash)]
pub struct Vector3<T> {
    pub x: T,
    pub y: T,
    pub z: T,
}

impl Vector3<u32> {
    /// The dot product with `other`, as a number without bounds.
    pub open spec fn spec_dot(self, other: Vector3<u32>) -> int {
        self.x * other.x + self.y * other.y + self.z * other.z
    }

    /// The dot product with `other`. It must fit in a `u32`.
    pub fn dot(&self, other: &Vector3<u32>) -> (d: u32)
        requires
            self.spec_dot(*other) <= u32::MAX,
        ensures
            d == self.spec_dot(*other),
    {
        proof {
            assert(0 <= self.x * other.x && 0 <= self.y * other.y && 0 <= self.z * other.z)
                by (nonlinear_arith);
        }
        self.x * other.x + self.y * other.y + self.z * other.z
    }

    /// The cross product with `other`. Of each component the first product
    /// must fit in a `u32`, and the second must not be larger than the first.
    pub fn cross(&self, other: &Vector3<u32>) -> (c: Vector3<u32>)
        requires
            self.z * other.y <= self.y * other.z <= u32::MAX,
            self.x * other.z <= self.z * other.x <= u32::MAX,
            self.y * other.x <= self.x * other.y <= u32::MAX,
        ensures
            c.x == self.y * other.z - self.z * other.y,
            c.y == self.z * other.x - self.x * other.z,
            c.z == self.x * other.y - self.y * other.x,
    {
        proof {
            assert(0 <= self.z * other.y && 0 <= self.x * other.z && 0 <= self.y * other.x)
                by (nonlinear_arith);
        }
        Vector3 {
            x: self.y * other.z - self.z * other.y,
            y: self.z * other.x - self.x * other.z,
            z: self.x * other.y - self.y * other.x,
        }
    }
}

} // verus!
