/// Contains the [canvas::Canvas] struct.
pub mod canvas;
/// Contains the [color::Color] struct.
pub mod color;
/// Contains the pixel-by-pixel painting that shapes and glyphs share.
pub(crate) mod raster;
/// Contains the [sketch::Sketch] struct.
pub mod sketch;
