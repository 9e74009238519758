use timecalc::operations::BinaryOperator;
use timecalc::parse::{
    parse_binary_operator, parse_time_unit, parse_time_value, parse_unit_conversion, ParseError,
};
use timecalc::time::TimeUnit;

#[test]
fn test_parse_nanos() {
    let res = parse_time_unit("nanoseconds");
    assert!(res.is_ok(), "{:?}", res.unwrap_err());
    let (_, unit) = res.unwrap();
    assert!(matches!(unit, TimeUnit::Nanoseconds));
}

#[test]
fn test_parse_time_value() {
    let res = parse_time_value("20 seconds");
    assert!(res.is_ok(), "{:?}", res.unwrap_err());
    let (_, value) = res.unwrap();

    assert!(matches!(value.nanos(), 20_000_000_000));
    assert!(matches!(value.unit(), TimeUnit::Seconds));
}

#[test]
fn parse_time_unit_takes_the_longest_spelling() {
    assert_eq!(parse_time_unit("seconds"), Ok(("", TimeUnit::Seconds)));
    assert_eq!(parse_time_unit("sec"), Ok(("", TimeUnit::Seconds)));
    assert_eq!(parse_time_unit("secs"), Ok(("s", TimeUnit::Seconds)));
    assert_eq!(parse_time_unit("s"), Ok(("", TimeUnit::Seconds)));
    assert_eq!(parse_time_unit("second"), Ok(("ond", TimeUnit::Seconds)));
    assert_eq!(parse_time_unit("se\u{301}c"), Ok(("e\u{301}c", TimeUnit::Seconds)));
    assert_eq!(parse_time_unit("nanos + 1"), Ok((" + 1", TimeUnit::Nanoseconds)));
    assert_eq!(parse_time_unit("nanosec"), Ok(("ec", TimeUnit::Nanoseconds)));
    assert_eq!(parse_time_unit("nsx"), Ok(("x", TimeUnit::Nanoseconds)));
    assert_eq!(parse_time_unit("microseconds"), Ok(("", TimeUnit::Microseconds)));
    assert_eq!(parse_time_unit("micros"), Ok(("", TimeUnit::Microseconds)));
    assert_eq!(parse_time_unit("us"), Ok(("", TimeUnit::Microseconds)));
    assert_eq!(parse_time_unit("milliseconds"), Ok(("", TimeUnit::Milliseconds)));
    assert_eq!(parse_time_unit("millis"), Ok(("", TimeUnit::Milliseconds)));
    assert_eq!(parse_time_unit("ms"), Ok(("", TimeUnit::Milliseconds)));
}

#[test]
fn parse_time_unit_ignores_case() {
    assert_eq!(parse_time_unit("SeCoNdS!"), Ok(("!", TimeUnit::Seconds)));
    assert_eq!(parse_time_unit("MS"), Ok(("", TimeUnit::Milliseconds)));
}

#[test]
fn parse_time_unit_rejects_other_text() {
    assert_eq!(parse_time_unit(""), Err(ParseError::Unit));
    assert_eq!(parse_time_unit(" ms"), Err(ParseError::Unit));
    assert_eq!(parse_time_unit("hours"), Err(ParseError::Unit));
    assert_eq!(parse_time_unit("\u{17F}"), Err(ParseError::Unit));
    assert_eq!(parse_time_unit("\u{B5}s"), Err(ParseError::Unit));
    assert_eq!(parse_time_unit("m\u{130}llis"), Err(ParseError::Unit));
    assert_eq!(parse_time_unit("\u{212A}"), Err(ParseError::Unit));
}

#[test]
fn parse_time_value_reads_count_and_unit() {
    let (rest, value) = parse_time_value("10ms + 5").unwrap();
    assert_eq!(rest, " + 5");
    assert_eq!(value.nanos(), 10_000_000);
    assert_eq!(value.unit(), TimeUnit::Milliseconds);

    let (rest, value) = parse_time_value("-7 \t us").unwrap();
    assert_eq!(rest, "");
    assert_eq!(value.nanos(), -7_000);
    assert_eq!(value.unit(), TimeUnit::Microseconds);

    let (rest, value) = parse_time_value("+007ns7").unwrap();
    assert_eq!(rest, "7");
    assert_eq!(value.nanos(), 7);
    assert_eq!(value.unit(), TimeUnit::Nanoseconds);
}

#[test]
fn parse_time_value_says_what_is_missing() {
    assert_eq!(parse_time_value("ms"), Err(ParseError::Number));
    assert_eq!(parse_time_value("-ms"), Err(ParseError::Number));
    assert_eq!(parse_time_value("- 5 ms"), Err(ParseError::Number));
    assert_eq!(parse_time_value(""), Err(ParseError::Number));
    assert_eq!(
        parse_time_value("99999999999999999999 ns"),
        Err(ParseError::Number)
    );
    assert_eq!(parse_time_value("5"), Err(ParseError::Unit));
    assert_eq!(parse_time_value("5 \n ms"), Err(ParseError::Unit));
    assert_eq!(parse_time_value("0.5sec"), Err(ParseError::Unit));
}

#[test]
fn parse_unit_conversion_reads_keyword_and_unit() {
    assert_eq!(
        parse_unit_conversion(" as ms + 1 s"),
        Ok((" + 1 s", TimeUnit::Milliseconds))
    );
    assert_eq!(parse_unit_conversion("asus"), Ok(("", TimeUnit::Microseconds)));
    assert_eq!(
        parse_unit_conversion("\t As\tSec"),
        Ok(("", TimeUnit::Seconds))
    );
}

#[test]
fn parse_unit_conversion_says_what_is_missing() {
    assert_eq!(parse_unit_conversion("ms"), Err(ParseError::Keyword));
    assert_eq!(parse_unit_conversion("a s ms"), Err(ParseError::Keyword));
    assert_eq!(parse_unit_conversion(""), Err(ParseError::Keyword));
    assert_eq!(parse_unit_conversion("as"), Err(ParseError::Unit));
    assert_eq!(parse_unit_conversion("as days"), Err(ParseError::Unit));
}

#[test]
fn parse_binary_operator_reads_plus_and_minus() {
    assert_eq!(
        parse_binary_operator(" + 5 ms"),
        Ok(("5 ms", BinaryOperator::Plus))
    );
    assert_eq!(
        parse_binary_operator("-5 ms"),
        Ok(("5 ms", BinaryOperator::Minus))
    );
    assert_eq!(
        parse_binary_operator("\t-\t\n"),
        Ok(("\n", BinaryOperator::Minus))
    );
    assert_eq!(parse_binary_operator("+"), Ok(("", BinaryOperator::Plus)));
}

#[test]
fn parse_binary_operator_rejects_other_text() {
    assert_eq!(parse_binary_operator(""), Err(ParseError::Operator));
    assert_eq!(parse_binary_operator(" * 5"), Err(ParseError::Operator));
    assert_eq!(parse_binary_operator("\n+"), Err(ParseError::Operator));
    assert_eq!(parse_binary_operator("5 ms"), Err(ParseError::Operator));
}
