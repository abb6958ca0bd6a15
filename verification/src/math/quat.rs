use crate::math::vec3::Vector3;
use vstd::prelude::*;

verus! {

/// A quaternion: a scalar part `s` and a vector part `v`.
#[derive(Clone, Copy, Debug, PartialEq, Eq, PartialOrd, Ord, Hash)]
pub struct Quaternion<T> {
    pub v: Vector3<T>,
    pub s: T,
}

impl Quaternion<u32> {
    /// The dot product with `other`, as a number without bounds.
    pub open spec fn spec_dot(self, other: Quaternion<u32>) -> int {
        self.s * other.s + self.v.x * other.v.x + self.v.y * other.v.y + self.v.z * other.v.z
    }

    /// The conjugate. The vector part of an unsigned quaternion cannot be
    /// negated: the conjugate is the quaternion itself.
    pub fn conjugate(&self) -> (q: Quaternion<u32>)
        ensures
            q == *self,
    {
        Quaternion { s: self.s, v: Vector3 { x: self.v.x, y: self.v.y, z: self.v.z } }
    }

    /// The dot product with `other`. It must fit in a `u32`.
    pub fn dot(&self, other: &Quaternion<u32>) -> (d: u32)
        requires
            self.spec_dot(*other) <= u32::MAX,
        ensures
            d == self.spec_dot(*other),
    {
        proof {
            assert(0 <= self.s * other.s && 0 <= self.v.x * other.v.x && 0 <= self.v.y * other.v.y
                && 0 <= self.v.z * other.v.z) by (nonlinear_arith);
        }
        self.s * other.s + self.v.x * other.v.x + self.v.y * other.v.y + self.v.z * other.v.z
    }
}

} // verus!
