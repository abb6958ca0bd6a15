/// Contains the pixel buffer and its mathematical model.
pub mod buffer;
/// Contains the [quat::Quaternion] struct.
pub mod quat;
/// Contains the [vec2::Vector2] struct.
pub mod vec2;
/// Contains the [vec3::Vector3] struct.
pub mod vec3;
/// Contains the [vec4::Vector4] struct.
pub mod vec4;
