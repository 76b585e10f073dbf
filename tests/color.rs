use dstl::color::{parse_hex_color, parse_trimmed_hex_color, reset_cursor_color, set_cursor_color};

#[test]
fn parses_short_form() {
    assert_eq!(parse_hex_color("#fff"), Some((255, 255, 255)));
    assert_eq!(parse_hex_color("#1aF"), Some((17, 170, 255)));
}

#[test]
fn parses_long_forms_and_ignores_alpha() {
    assert_eq!(parse_hex_color("#112233"), Some((17, 34, 51)));
    assert_eq!(parse_hex_color("#AABBCC80"), Some((170, 187, 204)));
}

#[test]
fn trims_surrounding_whitespace() {
    assert_eq!(parse_hex_color("  #102030\n"), Some((16, 32, 48)));
    assert_eq!(parse_trimmed_hex_color("  #102030"), None);
}

#[test]
fn rejects_malformed_colors() {
    assert_eq!(parse_hex_color("112233"), None);
    assert_eq!(parse_hex_color("#12"), None);
    assert_eq!(parse_hex_color("#1234567"), None);
    assert_eq!(parse_hex_color("#gg0000"), None);
    assert_eq!(parse_hex_color(""), None);
    assert_eq!(parse_hex_color("#é12"), None);
}

#[test]
fn accepts_plus_sign_in_a_two_digit_channel() {
    assert_eq!(parse_hex_color("#+a0000"), Some((10, 0, 0)));
    assert_eq!(parse_hex_color("#+00"), None);
}

#[test]
fn cursor_color_sequences() {
    assert_eq!(set_cursor_color("#ff0a00"), Some("\x1b]12;rgb:ff/0a/00\x07".to_string()));
    assert_eq!(set_cursor_color("#abc"), Some("\x1b]12;rgb:aa/bb/cc\x07".to_string()));
    assert_eq!(set_cursor_color("red"), None);
    assert_eq!(reset_cursor_color(), "\x1b]112\x07");
}
