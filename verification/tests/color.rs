use qilin::render::color::Color;

#[test]
fn from_rgb_packs_red_green_blue() {
    assert_eq!(Color::from_rgb(0x12, 0x34, 0x56), Color(0x0012_3456));
    assert_eq!(Color::from_rgb(0, 0, 0), Color(0));
    assert_eq!(Color::from_rgb(255, 255, 255), Color(0x00FF_FFFF));
    assert_eq!(Color::from_rgb(255, 0, 0), Color(0x00FF_0000));
    assert_eq!(Color::from_rgb(0, 255, 0), Color(0x0000_FF00));
    assert_eq!(Color::from_rgb(0, 0, 255), Color(0x0000_00FF));
}

#[test]
fn to_rgb_unpacks_red_green_blue() {
    assert_eq!(Color(0x0012_3456).to_rgb(), (0x12, 0x34, 0x56));
    assert_eq!(Color(0).to_rgb(), (0, 0, 0));
    assert_eq!(Color(0x00FF_FFFF).to_rgb(), (255, 255, 255));
}

#[test]
fn to_rgb_ignores_the_alpha_bits() {
    assert_eq!(Color(0xAB12_3456).to_rgb(), (0x12, 0x34, 0x56));
}

#[test]
fn rgb_roundtrip_is_exact_for_every_channel_value() {
    for v in 0..=255u8 {
        assert_eq!(Color::from_rgb(v, 0, 0).to_rgb(), (v, 0, 0));
        assert_eq!(Color::from_rgb(0, v, 0).to_rgb(), (0, v, 0));
        assert_eq!(Color::from_rgb(0, 0, v).to_rgb(), (0, 0, v));
        assert_eq!(Color::from_rgb(v, 255 - v, v / 2).to_rgb(), (v, 255 - v, v / 2));
    }
}

#[test]
fn repacking_an_opaque_word_gives_it_back() {
    for word in [0u32, 1, 0x00FF_FFFF, 0x0080_4020, 0x0001_0203] {
        let (r, g, b) = Color(word).to_rgb();
        assert_eq!(Color::from_rgb(r, g, b), Color(word));
    }
}

#[test]
fn from_rgba_premultiplies_by_alpha_over_255() {
    assert_eq!(Color::from_rgba(200, 100, 50, 128), Color(0x8064_3219));
    assert_eq!(Color::from_rgba(255, 0, 0, 254), Color(0xFEFE_0000));
    assert_eq!(Color::from_rgba(255, 255, 255, 1), Color(0x0101_0101));
}

#[test]
fn from_rgba_with_full_alpha_keeps_the_channels() {
    assert_eq!(Color::from_rgba(255, 255, 255, 255), Color(0xFFFF_FFFF));
    assert_eq!(Color::from_rgba(255, 128, 0, 255), Color(0xFFFF_8000));
    for v in 0..=255u8 {
        assert_eq!(Color::from_rgba(v, v, v, 255).to_rgb(), (v, v, v));
    }
}

#[test]
fn from_rgba_with_zero_alpha_is_zero() {
    assert_eq!(Color::from_rgba(10, 20, 30, 0), Color(0));
    assert_eq!(Color::from_rgba(255, 255, 255, 0), Color(0));
}

#[test]
fn from_rgba_is_lossy_below_full_alpha() {
    let c = Color::from_rgba(255, 255, 255, 128);
    assert_eq!(c, Color(0x8080_8080));
    assert_ne!(c.to_rgb(), (255, 255, 255));
}

#[test]
fn named_colors_have_their_channels() {
    assert_eq!(Color::red(), Color::from_rgb(255, 0, 0));
    assert_eq!(Color::green(), Color::from_rgb(0, 255, 0));
    assert_eq!(Color::blue(), Color::from_rgb(0, 0, 255));
    assert_eq!(Color::yellow(), Color::from_rgb(255, 255, 0));
    assert_eq!(Color::cyan(), Color::from_rgb(0, 255, 255));
    assert_eq!(Color::magenta(), Color::from_rgb(255, 0, 255));
    assert_eq!(Color::black(), Color::from_rgb(0, 0, 0));
    assert_eq!(Color::white(), Color::from_rgb(255, 255, 255));
    assert_eq!(Color::gray(), Color::from_rgb(128, 128, 128));
    assert_eq!(Color::purple(), Color::from_rgb(128, 0, 128));
    assert_eq!(Color::aqua(), Color::from_rgb(0, 255, 255));
    assert_eq!(Color::orange(), Color::from_rgb(255, 165, 0));
    assert_eq!(Color::pink(), Color::from_rgb(238, 130, 238));
    assert_eq!(Color::turquoise(), Color::from_rgb(64, 224, 208));
}

#[test]
fn default_color_is_black() {
    assert_eq!(Color::default(), Color(0));
    assert_eq!(Color::default(), Color::black());
}

#[test]
fn colors_order_by_their_word() {
    assert!(Color(1) < Color(2));
    assert!(Color::black() < Color::white());
}
