use timecalc::operations::BinaryOperator;
use timecalc::time::{TimeUnit, TimeValue};

#[test]
fn new_turns_the_count_into_nanoseconds() {
    assert_eq!(TimeValue::new(3, TimeUnit::Seconds).nanos(), 3_000_000_000);
    assert_eq!(TimeValue::new(3, TimeUnit::Milliseconds).nanos(), 3_000_000);
    assert_eq!(TimeValue::new(3, TimeUnit::Microseconds).nanos(), 3_000);
    assert_eq!(TimeValue::new(3, TimeUnit::Nanoseconds).nanos(), 3);
    assert_eq!(TimeValue::new(-3, TimeUnit::Microseconds).nanos(), -3_000);
    assert_eq!(TimeValue::new(0, TimeUnit::Seconds).nanos(), 0);
}

#[test]
fn new_keeps_the_unit() {
    assert_eq!(TimeValue::new(1, TimeUnit::Seconds).unit(), TimeUnit::Seconds);
    assert_eq!(
        TimeValue::new(1, TimeUnit::Nanoseconds).unit(),
        TimeUnit::Nanoseconds
    );
}

#[test]
fn new_saturates() {
    assert_eq!(
        TimeValue::new(9_223_372_036, TimeUnit::Seconds).nanos(),
        9_223_372_036_000_000_000
    );
    assert_eq!(
        TimeValue::new(9_223_372_037, TimeUnit::Seconds).nanos(),
        i64::MAX
    );
    assert_eq!(
        TimeValue::new(-9_223_372_037, TimeUnit::Seconds).nanos(),
        i64::MIN
    );
    assert_eq!(TimeValue::new(i64::MAX, TimeUnit::Microseconds).nanos(), i64::MAX);
    assert_eq!(TimeValue::new(i64::MIN, TimeUnit::Nanoseconds).nanos(), i64::MIN);
}

#[test]
fn nanos_per_unit_and_suffix() {
    assert_eq!(TimeUnit::Seconds.nanos_per_unit(), 1_000_000_000);
    assert_eq!(TimeUnit::Milliseconds.nanos_per_unit(), 1_000_000);
    assert_eq!(TimeUnit::Microseconds.nanos_per_unit(), 1_000);
    assert_eq!(TimeUnit::Nanoseconds.nanos_per_unit(), 1);
    assert_eq!(TimeUnit::Seconds.as_str(), "sec");
    assert_eq!(TimeUnit::Milliseconds.as_str(), "ms");
    assert_eq!(TimeUnit::Microseconds.as_str(), "us");
    assert_eq!(TimeUnit::Nanoseconds.as_str(), "ns");
}

#[test]
fn modify_adds_and_subtracts_nanoseconds() {
    let mut value = TimeValue::new(90, TimeUnit::Seconds);
    value.modify(BinaryOperator::Minus, TimeValue::new(5, TimeUnit::Milliseconds));
    assert_eq!(value.nanos(), 89_995_000_000);
    assert_eq!(value.unit(), TimeUnit::Seconds);
    value.modify(BinaryOperator::Plus, TimeValue::new(5, TimeUnit::Milliseconds));
    assert_eq!(value.nanos(), 90_000_000_000);
    assert_eq!(value.unit(), TimeUnit::Seconds);
    assert_eq!(value, TimeValue::new(90, TimeUnit::Seconds));
}

#[test]
fn modify_saturates() {
    let mut value = TimeValue::new(i64::MAX, TimeUnit::Nanoseconds);
    value.modify(BinaryOperator::Plus, TimeValue::new(1, TimeUnit::Nanoseconds));
    assert_eq!(value.nanos(), i64::MAX);
    value.modify(BinaryOperator::Minus, TimeValue::new(-1, TimeUnit::Nanoseconds));
    assert_eq!(value.nanos(), i64::MAX);

    let mut value = TimeValue::new(i64::MIN, TimeUnit::Nanoseconds);
    value.modify(BinaryOperator::Minus, TimeValue::new(1, TimeUnit::Nanoseconds));
    assert_eq!(value.nanos(), i64::MIN);
    value.modify(BinaryOperator::Plus, TimeValue::new(-1, TimeUnit::Nanoseconds));
    assert_eq!(value.nanos(), i64::MIN);

    let mut value = TimeValue::new(0, TimeUnit::Nanoseconds);
    value.modify(BinaryOperator::Minus, TimeValue::new(i64::MIN, TimeUnit::Nanoseconds));
    assert_eq!(value.nanos(), i64::MAX);
}

#[test]
fn change_unit_leaves_the_nanoseconds() {
    let mut value = TimeValue::new(1000, TimeUnit::Microseconds);
    value.change_unit(TimeUnit::Milliseconds);
    assert_eq!(value.nanos(), 1_000_000);
    assert_eq!(value.unit(), TimeUnit::Milliseconds);
    assert_eq!(value.to_string(), "1ms");
    value.change_unit(TimeUnit::Seconds);
    assert_eq!(value.nanos(), 1_000_000);
    assert_eq!(value.to_string(), "0.001sec");
}

#[test]
fn to_string_writes_a_whole_count_as_it_was_given() {
    assert_eq!(TimeValue::new(10, TimeUnit::Microseconds).to_string(), "10us");
    assert_eq!(TimeValue::new(0, TimeUnit::Seconds).to_string(), "0sec");
    assert_eq!(TimeValue::new(-42, TimeUnit::Milliseconds).to_string(), "-42ms");
    assert_eq!(
        TimeValue::new(1234567890, TimeUnit::Nanoseconds).to_string(),
        "1234567890ns"
    );
    assert_eq!(TimeValue::new(100, TimeUnit::Seconds).to_string(), "100sec");
}

#[test]
fn to_string_writes_the_exact_quotient() {
    let mut value = TimeValue::new(1, TimeUnit::Nanoseconds);
    value.change_unit(TimeUnit::Seconds);
    assert_eq!(value.to_string(), "0.000000001sec");

    let mut value = TimeValue::new(1_050, TimeUnit::Nanoseconds);
    value.change_unit(TimeUnit::Microseconds);
    assert_eq!(value.to_string(), "1.05us");

    let mut value = TimeValue::new(123_456_789_012, TimeUnit::Nanoseconds);
    value.change_unit(TimeUnit::Seconds);
    assert_eq!(value.to_string(), "123.456789012sec");

    let mut value = TimeValue::new(-1_500_000, TimeUnit::Nanoseconds);
    value.change_unit(TimeUnit::Milliseconds);
    assert_eq!(value.to_string(), "-1.5ms");

    let mut value = TimeValue::new(100_000_000, TimeUnit::Nanoseconds);
    value.change_unit(TimeUnit::Seconds);
    assert_eq!(value.to_string(), "0.1sec");
}

#[test]
fn to_string_holds_the_ends_of_the_range() {
    let mut value = TimeValue::new(i64::MIN, TimeUnit::Nanoseconds);
    assert_eq!(value.to_string(), "-9223372036854775808ns");
    value.change_unit(TimeUnit::Seconds);
    assert_eq!(value.to_string(), "-9223372036.854775808sec");
    let mut value = TimeValue::new(i64::MAX, TimeUnit::Nanoseconds);
    value.change_unit(TimeUnit::Milliseconds);
    assert_eq!(value.to_string(), "9223372036854.775807ms");
}

#[test]
fn to_string_agrees_with_floating_point_division() {
    let units = [
        (TimeUnit::Seconds, 1_000_000_000f64),
        (TimeUnit::Milliseconds, 1_000_000f64),
        (TimeUnit::Microseconds, 1_000f64),
        (TimeUnit::Nanoseconds, 1f64),
    ];
    let samples: [i64; 12] = [
        0,
        1,
        334,
        -1_500,
        999,
        1_000,
        123_456_789,
        89_995_000_000,
        -20_000_000_001,
        5_000_000_000_000,
        999_999_999_999_999,
        -999_999_999_999_999,
    ];
    for (unit, factor) in units {
        for nanos in samples {
            let mut value = TimeValue::new(nanos, TimeUnit::Nanoseconds);
            value.change_unit(unit);
            let expected = format!("{}{}", nanos as f64 / factor, unit.as_str());
            assert_eq!(value.to_string(), expected);
        }
    }
}
