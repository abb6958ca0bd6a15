use crate::math::vec2::Vector2;
use crate::math::vec3::Vector3;
use crate::math::vec4::Vector4;
use vstd::prelude::*;

verus! {

/// Util function to create a 2D Vector.
/// `T` is the type the vector contains.
pub fn vec2<T>(x: T, y: T) -> (v: Vector2<T>)
    ensures
        v.x == x,
        v.y == y,
{
    Vector2 { x, y }
}

/// Util function to create a 3D Vector.
/// `T` is the type the vector contains.
pub fn vec3<T>(x: T, y: T, z: T) -> (v: Vector3<T>)
    ensures
        v.x == x,
        v.y == y,
        v.z == z,
{
    Vector3 { x, y, z }
}

/// Util function to create a 4D Vector.
/// `T` is the type the vector contains.
pub fn vec4<T>(x: T, y: T, z: T, w: T) -> (v: Vector4<T>)
    ensures
        v.x == x,
        v.y == y,
        v.z == z,
        v.w == w,
{
    Vector4 { x, y, z, w }
}

} // verus!
