//! Checking and reading values.

use sway_launch::values::{
    parse_position, parse_size, require_non_blank, validate_non_blank_argument,
    validate_position_argument, validate_size_argument, validate_sway_string_argument, Position,
    Size, Split,
};

#[test]
fn validate_size_argument_accepts_px() {
    assert_eq!(validate_size_argument("300px"), Ok("300px".to_string()));
}

#[test]
fn validate_size_argument_accepts_ppt() {
    assert_eq!(validate_size_argument("20ppt"), Ok("20ppt".to_string()));
}

#[test]
fn validate_size_argument_accepts_zero() {
    assert_eq!(validate_size_argument("0px"), Ok("0px".to_string()));
}

#[test]
fn validate_size_argument_rejects_missing_unit() {
    assert!(validate_size_argument("300").is_err());
}

#[test]
fn validate_size_argument_rejects_unknown_unit() {
    assert!(validate_size_argument("300pixels").is_err());
}

#[test]
fn validate_size_argument_rejects_negative() {
    assert!(validate_size_argument("-5px").is_err());
}

#[test]
fn validate_size_argument_rejects_decimal() {
    assert!(validate_size_argument("3.5px").is_err());
}

#[test]
fn validate_size_argument_rejects_empty() {
    assert!(validate_size_argument("").is_err());
}

#[test]
fn validate_size_argument_rejects_trailing_garbage() {
    assert!(validate_size_argument("300px ").is_err());
}

#[test]
fn validate_size_argument_rejects_a_value_that_overflows_i32() {
    assert!(validate_size_argument("99999999999px").is_err());
}

#[test]
fn validate_size_argument_accepts_the_largest_representable_pixel_value() {
    assert_eq!(
        validate_size_argument("2147483647px"),
        Ok("2147483647px".to_string())
    );
}

#[test]
fn validate_size_argument_rejects_one_past_the_largest_representable_value() {
    assert!(validate_size_argument("2147483648px").is_err());
    assert!(validate_size_argument("4294967295px").is_err());
}

#[test]
fn validate_size_argument_applies_the_same_bound_to_ppt() {
    assert_eq!(
        validate_size_argument("2147483647ppt"),
        Ok("2147483647ppt".to_string())
    );
    assert!(validate_size_argument("4294967295ppt").is_err());
}

#[test]
fn parse_size_round_trips_the_largest_representable_pixel_value() {
    assert_eq!(parse_size("2147483647px"), Size::Pixels(i32::MAX));
    assert_eq!(parse_size("2147483647px").to_string(), "2147483647px");
}

#[test]
fn validate_position_argument_accepts_center() {
    assert_eq!(
        validate_position_argument("center"),
        Ok("center".to_string())
    );
}

#[test]
fn validate_position_argument_accepts_coordinates() {
    assert_eq!(
        validate_position_argument("100,200"),
        Ok("100,200".to_string())
    );
}

#[test]
fn validate_position_argument_rejects_missing_y() {
    assert!(validate_position_argument("100").is_err());
}

#[test]
fn validate_position_argument_accepts_negative_x() {
    assert_eq!(
        validate_position_argument("-1,200"),
        Ok("-1,200".to_string())
    );
}

#[test]
fn validate_position_argument_accepts_negative_y() {
    assert_eq!(
        validate_position_argument("100,-200"),
        Ok("100,-200".to_string())
    );
}

#[test]
fn validate_position_argument_accepts_negative_x_and_y() {
    assert_eq!(
        validate_position_argument("-1920,-200"),
        Ok("-1920,-200".to_string())
    );
}

#[test]
fn validate_position_argument_rejects_bare_dash() {
    assert!(validate_position_argument("-,200").is_err());
}

#[test]
fn validate_position_argument_rejects_a_coordinate_that_overflows_i32() {
    assert!(validate_position_argument("99999999999,200").is_err());
}

#[test]
fn validate_position_argument_rejects_unknown_word() {
    assert!(validate_position_argument("middle").is_err());
}

#[test]
fn validate_position_argument_rejects_empty() {
    assert!(validate_position_argument("").is_err());
}

#[test]
fn validate_sway_string_argument_accepts_an_ordinary_value() {
    assert_eq!(
        validate_sway_string_argument("dropdown-term"),
        Ok("dropdown-term".to_string())
    );
}

#[test]
fn validate_sway_string_argument_accepts_command_separators() {
    assert!(validate_sway_string_argument("foo, exec bar").is_ok());
    assert!(validate_sway_string_argument("foo; exec bar").is_ok());
}

#[test]
fn validate_sway_string_argument_accepts_tab_and_carriage_return() {
    assert!(validate_sway_string_argument("foo\tbar").is_ok());
    assert!(validate_sway_string_argument("foo\rbar").is_ok());
}

#[test]
fn validate_sway_string_argument_rejects_a_newline() {
    let error = validate_sway_string_argument("foo\nexec bar")
        .expect_err("a newline should be rejected");
    assert!(
        error.contains("newline"),
        "error should name the offending character: {error:?}"
    );
}

#[test]
fn validate_sway_string_argument_rejects_a_double_quote() {
    let error = validate_sway_string_argument("dropdown\"term")
        .expect_err("a double quote should be rejected");
    assert!(
        error.contains('"'),
        "error should name the offending character: {error:?}"
    );
}

#[test]
fn validate_sway_string_argument_rejects_a_backslash() {
    assert!(validate_sway_string_argument("back\\slash").is_err());
}

#[test]
fn validate_sway_string_argument_rejects_empty() {
    assert!(validate_sway_string_argument("").is_err());
}

#[test]
fn validate_sway_string_argument_rejects_whitespace_only() {
    assert!(validate_sway_string_argument("   ").is_err());
}

#[test]
fn validate_non_blank_argument_accepts_an_ordinary_value() {
    assert_eq!(validate_non_blank_argument("foot"), Ok("foot".to_string()));
}

#[test]
fn validate_non_blank_argument_rejects_empty_and_whitespace_only() {
    assert!(validate_non_blank_argument("").is_err());
    assert!(validate_non_blank_argument("   ").is_err());
}

#[test]
fn validate_non_blank_argument_accepts_quotes_and_backslashes() {
    assert!(validate_non_blank_argument("weird\\class").is_ok());
    assert!(validate_non_blank_argument("weird\"class").is_ok());
}

#[test]
fn require_non_blank_accepts_a_real_value() {
    assert!(require_non_blank("field", "foot").is_ok());
}

#[test]
fn require_non_blank_rejects_empty() {
    let error = require_non_blank("field", "").expect_err("empty value should be rejected");
    assert!(
        error.contains("field"),
        "error should name the field: {error:?}"
    );
}

#[test]
fn require_non_blank_rejects_whitespace_only() {
    assert!(require_non_blank("field", "   ").is_err());
}

#[test]
fn split_display_v_is_vertical() {
    assert_eq!(Split::V.to_string(), "Vertical");
}

#[test]
fn split_display_h_is_horizontal() {
    assert_eq!(Split::H.to_string(), "Horizontal");
}

#[test]
fn parse_size_parses_pixels() {
    assert_eq!(parse_size("300px"), Size::Pixels(300));
    assert_eq!(parse_size("0px"), Size::Pixels(0));
}

#[test]
fn parse_size_parses_percent() {
    assert_eq!(parse_size("20ppt"), Size::Percent(20));
}

#[test]
fn size_display_matches_the_format_parse_size_accepts() {
    assert_eq!(Size::Pixels(300).to_string(), "300px");
    assert_eq!(Size::Percent(20).to_string(), "20ppt");
}

#[test]
fn parse_position_parses_center() {
    assert_eq!(parse_position("center"), Position::Center);
}

#[test]
fn parse_position_parses_coordinates() {
    assert_eq!(
        parse_position("100,200"),
        Position::Coordinates { x: 100, y: 200 }
    );
}

#[test]
fn parse_position_parses_negative_coordinates() {
    assert_eq!(
        parse_position("-1920,-200"),
        Position::Coordinates { x: -1920, y: -200 }
    );
}

#[test]
fn position_display_matches_the_format_parse_position_accepts() {
    assert_eq!(Position::Center.to_string(), "center");
    assert_eq!(
        Position::Coordinates { x: 100, y: 200 }.to_string(),
        "100,200"
    );
}

#[test]
fn what_is_shown_for_a_value_reads_back_to_it() {
    for size in [
        Size::Pixels(0),
        Size::Pixels(i32::MAX),
        Size::Pixels(-1),
        Size::Percent(100),
        Size::Percent(i32::MIN),
    ] {
        assert_eq!(parse_size(&size.to_string()), size);
        let negative = matches!(size, Size::Pixels(n) | Size::Percent(n) if n < 0);
        assert_eq!(validate_size_argument(&size.to_string()).is_err(), negative);
    }
    for position in [
        Position::Center,
        Position::Coordinates { x: i32::MIN, y: i32::MAX },
        Position::Coordinates { x: 0, y: -0 },
    ] {
        assert_eq!(parse_position(&position.to_string()), position);
        assert_eq!(validate_position_argument(&position.to_string()), Ok(position.to_string()));
    }
}

#[test]
fn only_plain_digits_make_a_number() {
    for size in ["+5px", "\u{663}\u{660}px", "5px\n", " 5px", "5 px", "px", "5pxppt"] {
        assert_eq!(
            validate_size_argument(size),
            Err("Must be in format <HEIGHT>px|ppt. E.g. 300px/20ppt. ppt = percent".to_string())
        );
    }
    for position in ["+5,5", "5,+5", "\u{663},1", "1,2,3", "1,2\n", "--1,2", "Center", ","] {
        assert_eq!(
            validate_position_argument(position),
            Err("Must be \"center\" or \"<X>,<Y>\" in pixels (X/Y may be negative). \
                 E.g. center/100,200/-100,200"
                .to_string())
        );
    }
    assert_eq!(validate_size_argument("007px"), Ok("007px".to_string()));
    assert_eq!(parse_size("007px"), Size::Pixels(7));
}

#[test]
fn each_fault_of_a_sway_string_has_its_own_answer() {
    let blank = Err("Must not be empty or whitespace-only".to_string());
    assert_eq!(validate_sway_string_argument("\t \u{2003}"), blank);
    assert_eq!(validate_non_blank_argument(""), blank);
    assert_eq!(
        validate_sway_string_argument("a\nb\"c\\d"),
        Err("Must not contain '\"' — Sway stores it literally rather than unescaping it, so \
             the value would not round-trip"
            .to_string())
    );
    assert_eq!(
        validate_sway_string_argument("a\nb\\c\"d"),
        Err("Must not contain '\\\\' — Sway stores it literally rather than unescaping it, so \
             the value would not round-trip"
            .to_string())
    );
    assert_eq!(
        validate_sway_string_argument("a\nb"),
        Err("Must not contain a newline — Sway rewrites it to \";\" when storing the value, so \
             the value would not round-trip"
            .to_string())
    );
    assert_eq!(
        require_non_blank("id", " "),
        Err("id must not be empty or whitespace-only".to_string())
    );
}
