use crate::render::color::Color;
use vstd::prelude::*;

verus! {

/// Vector of colors to represent an image, row by row.
pub type Image = Vec<Color>;

/// Update rate: the shortest time between two presented frames, in
/// nanoseconds. Use [FPS30], [FPS60] or [FPS120] for 30, 60 or 120 frames
/// per second.
pub type UpdateRate = u64;

/// The frame time of 30 frames per second, in nanoseconds.
pub const FPS30: u64 = 33333333;

/// The frame time of 60 frames per second, in nanoseconds.
pub const FPS60: u64 = 16666666;

/// The frame time of 120 frames per second, in nanoseconds.
pub const FPS120: u64 = 8333333;

/// The fixed time step of a new configuration, in nanoseconds: a sixtieth
/// of a second.
pub const DEFAULT_FIXED_TIME_STEP: u64 = 16666668;

/// By how much the window scales each pixel of the buffer.
#[derive(Clone, Copy, Debug, PartialEq, Eq, Structural)]
pub enum Scale {
    /// As much as fits on the screen.
    FitScreen,
    X1,
    X2,
    X4,
    X8,
    X16,
    X32,
}

/// How the buffer is fitted into a window of another size.
#[derive(Clone, Copy, Debug, PartialEq, Eq, Structural)]
pub enum ScaleMode {
    /// Stretch the buffer over the whole window.
    Stretch,
    /// Stretch the buffer as far as its aspect ratio allows.
    AspectRatioStretch,
    /// Put the buffer in the middle of the window, unscaled.
    Center,
    /// Put the buffer in the upper left corner of the window, unscaled.
    UpperLeft,
}

/// Options of the window. The library hands them through to the window
/// system and reads none of them.
#[derive(Clone, Copy, Debug, PartialEq, Eq, Structural)]
pub struct WindowOptions {
    /// If the window should be borderless.
    pub borderless: bool,
    /// If the window should have a title.
    pub title: bool,
    /// If it should be possible to resize the window.
    pub resize: bool,
    /// Scale of the window.
    pub scale: Scale,
    /// How the buffer is fitted into the window.
    pub scale_mode: ScaleMode,
    /// Should the window be the topmost window.
    pub topmost: bool,
    /// Whether the window may draw transparent pixels.
    pub transparency: bool,
    /// Whether the window has none of the usual decorations.
    pub none: bool,
}

/// Game Configuration containing title, max fps, width, height and window options.
#[derive(Clone, Debug)]
pub struct GameConfig {
    /// Window title. Default is "New Game".
    pub title: String,
    /// Maximum update rate. Default is 60 fps.
    pub update_rate_limit: UpdateRate,
    /// Width of the window. Default is 800.
    pub width: usize,
    /// Height of the window. Default is 600.
    pub height: usize,
    /// The fixed time step, in nanoseconds: the fixed-rate update is called
    /// once for each such step of elapsed time. It must be positive. Default
    /// is a sixtieth of a second.
    pub fixed_time_step: u64,
    /// Window options.
    pub window: WindowOptions,
}

impl GameConfig {
    /// The configuration can be used: the fixed time step is positive and a
    /// buffer of the given size can be made.
    pub open spec fn valid(&self) -> bool {
        self.fixed_time_step > 0 && self.width * self.height <= usize::MAX
    }

    /// Whether the configuration can be used.
    pub fn is_valid(&self) -> (b: bool)
        ensures
            b == self.valid(),
    {
        if self.fixed_time_step == 0 {
            return false;
        }
        match self.width.checked_mul(self.height) {
            Some(_) => true,
            None => false,
        }
    }
}

impl Default for GameConfig {
    fn default() -> (config: GameConfig)
        ensures
            config.title@ == "New Game"@,
            config.update_rate_limit == FPS60,
            config.width == 800,
            config.height == 600,
            config.fixed_time_step == DEFAULT_FIXED_TIME_STEP,
            config.window == (WindowOptions {
                borderless: false,
                title: true,
                resize: true,
                scale: Scale::X1,
                scale_mode: ScaleMode::AspectRatioStretch,
                topmost: false,
                transparency: false,
                none: false,
            }),
            config.valid(),
    {
        GameConfig {
            title: "New Game".to_owned(),
            update_rate_limit: FPS60,
            width: 800,
            height: 600,
            fixed_time_step: DEFAULT_FIXED_TIME_STEP,
            window: WindowOptions {
                borderless: false,
                title: true,
                resize: true,
                scale: Scale::X1,
                scale_mode: ScaleMode::AspectRatioStretch,
                topmost: false,
                transparency: false,
                none: false,
            },
        }
    }
}

} // verus!
