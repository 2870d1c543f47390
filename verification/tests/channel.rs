use glsl_array::channel::{append_channel, channel_literal, FRACTION_DIGITS, UNITS_PER_WHOLE};

#[test]
fn constants_describe_seven_fractional_digits() {
    assert_eq!(FRACTION_DIGITS, 7);
    assert_eq!(UNITS_PER_WHOLE, 10_000_000);
    assert_eq!(10u32.pow(FRACTION_DIGITS as u32), UNITS_PER_WHOLE);
}

#[test]
fn channel_literal_of_the_end_points() {
    assert_eq!(channel_literal(0), "0.0000000");
    assert_eq!(channel_literal(255), "1.0000000");
}

#[test]
fn channel_literal_of_known_values() {
    assert_eq!(channel_literal(1), "0.0039216");
    assert_eq!(channel_literal(2), "0.0078431");
    assert_eq!(channel_literal(51), "0.2000000");
    assert_eq!(channel_literal(64), "0.2509804");
    assert_eq!(channel_literal(127), "0.4980392");
    assert_eq!(channel_literal(128), "0.5019608");
    assert_eq!(channel_literal(204), "0.8000000");
    assert_eq!(channel_literal(254), "0.9960784");
}

#[test]
fn channel_literal_agrees_with_float_formatting() {
    for value in 0..=255u8 {
        let normalized = (1 as f64) / (255 as f64) * (value as f64);
        assert_eq!(channel_literal(value), format!("{:.7}", normalized), "channel {}", value);
    }
}

#[test]
fn channel_literal_has_seven_fractional_digits_within_zero_and_one() {
    for value in 0..=255u8 {
        let text = channel_literal(value);
        let bytes = text.as_bytes();
        assert_eq!(bytes.len(), 9);
        assert!(bytes[0] == b'0' || bytes[0] == b'1');
        assert_eq!(bytes[1], b'.');
        assert!(bytes[2..].iter().all(|b| b.is_ascii_digit()));
        let parsed: f64 = text.parse().unwrap();
        assert!(0.0 <= parsed && parsed <= 1.0);
    }
}

#[test]
fn channel_literal_rounds_back_to_the_byte() {
    for value in 0..=255u8 {
        let parsed: f64 = channel_literal(value).parse().unwrap();
        assert_eq!((parsed * 255.0).round() as i64, value as i64);
        assert!((parsed - value as f64 / 255.0).abs() < 1.0 / 255.0);
    }
}

#[test]
fn channel_literals_grow_with_the_byte() {
    for value in 1..=255u8 {
        assert!(channel_literal(value - 1) < channel_literal(value));
    }
}

#[test]
fn append_channel_keeps_what_is_there() {
    let mut out = String::from("vec4(");
    append_channel(&mut out, 255);
    assert_eq!(out, "vec4(1.0000000");
    out.push_str(", ");
    append_channel(&mut out, 0);
    assert_eq!(out, "vec4(1.0000000, 0.0000000");
}
