use console_utils::control::LoopControl;
use console_utils::numbers::render_i32;
use console_utils::points::{create_point, input_loop, to_string, validate, Point};
use console_utils::validation::ValidationError;

#[test]
fn two_integers_make_a_point() {
    assert_eq!(validate("3 4\n"), Ok((3, 4)));
    assert_eq!(validate("  -12\t+7  "), Ok((-12, 7)));
    assert_eq!(validate("-0 007"), Ok((0, 7)));
    assert_eq!(validate("2147483647 -2147483648"), Ok((i32::MAX, i32::MIN)));
}

#[test]
fn an_empty_line_is_no_input() {
    assert_eq!(validate(""), Err(ValidationError::NoInput));
    assert_eq!(validate("\n"), Err(ValidationError::NoInput));
    assert_eq!(validate("   \t \n"), Err(ValidationError::NoInput));
}

#[test]
fn three_integers_are_too_many() {
    assert_eq!(validate("3 4 5"), Err(ValidationError::TooManyInputs));
}

#[test]
fn one_integer_is_too_few() {
    assert_eq!(validate("3"), Err(ValidationError::TooFewInputs));
}

#[test]
fn only_the_first_line_is_read() {
    assert_eq!(validate("1 2\n3"), Ok((1, 2)));
    assert_eq!(validate("1\n2"), Err(ValidationError::TooFewInputs));
    assert_eq!(validate("1 2\r\n"), Ok((1, 2)));
}

#[test]
fn the_first_token_that_is_no_integer_is_reported() {
    assert_eq!(
        validate("3 x y"),
        Err(ValidationError::ParseFailure {
            token: "x".to_string(),
            cause: "x".parse::<i32>().unwrap_err().to_string(),
        })
    );
    assert_eq!(
        validate("1.5 2"),
        Err(ValidationError::ParseFailure {
            token: "1.5".to_string(),
            cause: "invalid digit found in string".to_string(),
        })
    );
}

#[test]
fn a_token_that_is_no_integer_is_reported_before_the_count() {
    assert!(matches!(
        validate("1 2 3 four"),
        Err(ValidationError::ParseFailure { token, .. }) if token == "four"
    ));
    assert!(matches!(
        validate("one"),
        Err(ValidationError::ParseFailure { token, .. }) if token == "one"
    ));
}

#[test]
fn an_integer_out_of_range_is_a_parse_failure() {
    assert_eq!(
        validate("2147483648 1"),
        Err(ValidationError::ParseFailure {
            token: "2147483648".to_string(),
            cause: "2147483648".parse::<i32>().unwrap_err().to_string(),
        })
    );
    assert!(matches!(
        validate("1 -2147483649"),
        Err(ValidationError::ParseFailure { token, .. }) if token == "-2147483649"
    ));
}

#[test]
fn a_sign_alone_is_no_integer() {
    assert!(matches!(validate("+ 1"), Err(ValidationError::ParseFailure { .. })));
    assert!(matches!(validate("1 -"), Err(ValidationError::ParseFailure { .. })));
    assert!(matches!(validate("--1 1"), Err(ValidationError::ParseFailure { .. })));
}

#[test]
fn a_point_holds_its_coordinates() {
    let point = create_point(-5, 9);
    assert_eq!(*point, Point { x: -5, y: 9 });
}

#[test]
fn a_point_is_shown_as_a_record() {
    assert_eq!(to_string(&create_point(3, 4)), "point {\n   x: 3,\n   y: 4\n}");
    assert_eq!(
        to_string(&create_point(i32::MIN, 0)),
        "point {\n   x: -2147483648,\n   y: 0\n}"
    );
}

#[test]
fn integers_are_written_in_base_ten() {
    for value in [0, 1, -1, 9, 10, 11, 99, 100, -100, 1000, 123456789, i32::MAX, i32::MIN] {
        assert_eq!(render_i32(value), format!("{}", value));
    }
}

#[test]
fn what_is_written_is_read_back() {
    for value in [0, 7, -7, 10, -10, 4096, i32::MAX, i32::MIN] {
        let line = format!("{} {}", render_i32(value), render_i32(-(value / 2)));
        assert_eq!(validate(&line), Ok((value, -(value / 2))));
    }
}

#[test]
fn a_point_session_stops_when_reading_fails() {
    assert_eq!(input_loop(None), (LoopControl::Stop, None));
}

#[test]
fn a_point_session_stops_on_a_bare_line_feed() {
    assert_eq!(input_loop(Some("\n")), (LoopControl::Stop, None));
}

#[test]
fn a_point_session_goes_on_after_a_point() {
    assert_eq!(
        input_loop(Some("3 4\n")),
        (LoopControl::Continue, Some(Ok("point {\n   x: 3,\n   y: 4\n}".to_string())))
    );
}

#[test]
fn a_point_session_goes_on_after_a_rejected_line() {
    assert_eq!(
        input_loop(Some("3 4 5\n")),
        (LoopControl::Continue, Some(Err(ValidationError::TooManyInputs)))
    );
    assert_eq!(
        input_loop(Some("")),
        (LoopControl::Continue, Some(Err(ValidationError::NoInput)))
    );
    assert_eq!(
        input_loop(Some(" \n")),
        (LoopControl::Continue, Some(Err(ValidationError::NoInput)))
    );
}
