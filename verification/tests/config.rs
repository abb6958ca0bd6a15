use qilin::types::{
    GameConfig, Scale, ScaleMode, WindowOptions, DEFAULT_FIXED_TIME_STEP, FPS120, FPS30, FPS60,
};

#[test]
fn default_config_has_the_documented_values() {
    let config = GameConfig::default();
    assert_eq!(config.title, "New Game");
    assert_eq!(config.update_rate_limit, FPS60);
    assert_eq!(config.width, 800);
    assert_eq!(config.height, 600);
    assert_eq!(config.fixed_time_step, 16_666_668);
    assert_eq!(config.fixed_time_step, DEFAULT_FIXED_TIME_STEP);
    assert_eq!(
        config.window,
        WindowOptions {
            borderless: false,
            title: true,
            resize: true,
            scale: Scale::X1,
            scale_mode: ScaleMode::AspectRatioStretch,
            topmost: false,
            transparency: false,
            none: false,
        }
    );
    assert!(config.is_valid());
}

#[test]
fn frame_times_are_in_nanoseconds() {
    assert_eq!(FPS30, 33_333_333);
    assert_eq!(FPS60, 16_666_666);
    assert_eq!(FPS120, 8_333_333);
}

#[test]
fn a_config_with_a_step_of_zero_is_not_valid() {
    let config = GameConfig { fixed_time_step: 0, ..GameConfig::default() };
    assert!(!config.is_valid());
}

#[test]
fn a_config_whose_buffer_cannot_be_counted_is_not_valid() {
    let config = GameConfig { width: usize::MAX, height: 2, ..GameConfig::default() };
    assert!(!config.is_valid());
    let config = GameConfig { width: usize::MAX, height: 1, ..GameConfig::default() };
    assert!(config.is_valid());
    let config = GameConfig { width: 0, height: usize::MAX, ..GameConfig::default() };
    assert!(config.is_valid());
}
