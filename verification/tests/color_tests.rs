use logo_process::{calc_color_distance, Color, ColorParseError, MAX_COLOR_DISTANCE};

#[test]
fn utils_test_calculate_color_diff() {
    let color1 = (255, 255, 255);
    let color2 = (0, 0, 0);
    assert_eq!(calc_color_distance(color1, color2), 100);
    assert_eq!(calc_color_distance(color1, color1), 0);
}

#[test]
fn distance_is_symmetric_at_extremes() {
    assert_eq!(calc_color_distance((0, 0, 0), (255, 255, 255)), MAX_COLOR_DISTANCE);
}

#[test]
fn distance_single_channel_exact() {
    // squared distance 255^2 = 65025; 10000 * 65025 / 195075 = 3333;
    // floor(sqrt(3333)) = 57.
    assert_eq!(calc_color_distance((255, 0, 0), (0, 0, 0)), 57);
    assert_eq!(calc_color_distance((0, 255, 0), (0, 0, 0)), 57);
    assert_eq!(calc_color_distance((0, 0, 255), (0, 0, 0)), 57);
}

#[test]
fn distance_small_difference_truncates_to_zero() {
    assert_eq!(calc_color_distance((10, 10, 10), (11, 10, 10)), 0);
}

#[test]
fn from_rgb_defaults_alpha() {
    let c = Color::from_rgb((1, 2, 3));
    assert_eq!(c.to_rgba(), (1, 2, 3, 255));
    assert_eq!(c.to_rgb(), (1, 2, 3));
}

#[test]
fn from_rgba_keeps_alpha() {
    let c = Color::from_rgba((1, 2, 3, 4));
    assert_eq!(c.to_rgba(), (1, 2, 3, 4));
}

#[test]
fn parse_seven_char_gains_opaque_alpha() {
    let c = Color::parse("#0A1B2C").unwrap();
    assert_eq!(c.to_rgba(), (0x0A, 0x1B, 0x2C, 255));
}

#[test]
fn parse_nine_char_roundtrip() {
    let c = Color::parse("#0A1B2C3D").unwrap();
    assert_eq!(c.to_rgba(), (0x0A, 0x1B, 0x2C, 0x3D));
    assert_eq!(c.to_rgba_string(), "#0A1B2C3D");
    assert_eq!(c.to_string(), "#0A1B2C3D");
}

#[test]
fn parse_accepts_lower_case_digits() {
    let c = Color::parse("#ffffffff").unwrap();
    assert_eq!(c.to_rgba(), (255, 255, 255, 255));
}

#[test]
fn seven_char_input_gains_ff_on_roundtrip() {
    let c = Color::parse("#a1b2c3").unwrap();
    assert_eq!(c.to_rgba_string(), "#A1B2C3FF");
    assert_eq!(c.to_rgb_string(), "#A1B2C3");
}

#[test]
fn parse_rejects_wrong_length() {
    assert_eq!(Color::parse("#ABC"), Err(ColorParseError::InvalidLength));
    assert_eq!(Color::parse(""), Err(ColorParseError::InvalidLength));
    assert_eq!(Color::parse("#AABBCCDDEE"), Err(ColorParseError::InvalidLength));
}

#[test]
fn parse_rejects_missing_hash() {
    assert_eq!(Color::parse("0A1B2C3"), Err(ColorParseError::MissingHash));
}

#[test]
fn parse_rejects_bad_digit() {
    assert_eq!(Color::parse("#0A1B2G"), Err(ColorParseError::InvalidDigit));
    assert_eq!(Color::parse("#ZZZZZZ"), Err(ColorParseError::InvalidDigit));
}

#[test]
fn format_pads_small_channels() {
    let c = Color::from_rgba((0, 1, 15, 16));
    assert_eq!(c.to_rgba_string(), "#00010F10");
}
