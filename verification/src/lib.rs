//! A minimal 2D presentation layer: sketches of drawing primitives are
//! rasterized into a pixel buffer, hit-tested against the pointer, and driven
//! by a fixed-timestep scheduler.

/// Contains structs for game control: the pointer's hit tests and the scheduler.
pub mod game;
/// Contains utils for converting images from the `image` crate to an [types::Image].
pub mod img;
/// The pixel buffer, its mathematical model, and vectors with their whole-number math.
pub mod math;
/// Rendering: colors, the canvas and sketches of drawing primitives.
pub mod render;
/// Contains some functions for creating structs simpler and more readable.
pub mod simplified;
/// Contains text rendering functions.
pub mod text;
/// Contains common types.
pub mod types;

pub use crate::math::quat::Quaternion;
pub use crate::math::vec2::Vector2;
pub use crate::math::vec3::Vector3;
pub use crate::math::vec4::Vector4;
