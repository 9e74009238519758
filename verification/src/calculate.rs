//! The evaluator: folds a chain of time values, operators and conversions,
//! from left to right, into one duration.

use crate::parse::{
    conversion_at, lemma_conversion_consumes, lemma_operator_consumes,
    lemma_time_value_consumes, operator_at, parse_binary_operator, parse_time_value,
    parse_unit_conversion, time_value_at,
};
use crate::text::{skip_white_space, trim_start};
use crate::time::{combine, shown_in, Duration, TimeValue};
use vstd::prelude::*;
use vstd::string::*;

verus! {

/// The message for input that does not begin with a time value.
pub open spec fn leading_value_message(seen: Seq<char>) -> Seq<char> {
    "Expected '<number> <time_unit>' but saw '"@ + seen + "'"@
}

/// The message for an `as` that no unit follows.
pub open spec fn conversion_message(seen: Seq<char>) -> Seq<char> {
    "Expected 'as <time_unit>' next but saw '"@ + seen + "'"@
}

/// The message for input that goes on with neither an operator nor `as`.
pub open spec fn operator_message(seen: Seq<char>) -> Seq<char> {
    "Expected binary operator next but saw '"@ + seen + "'"@
}

/// The message for an operator that no time value follows.
pub open spec fn operand_message(seen: Seq<char>) -> Seq<char> {
    "Expected time value next but saw '"@ + seen + "'"@
}

/// `s` begins with the small letters `as`.
pub open spec fn begins_conversion(s: Seq<char>) -> bool {
    s.len() >= 2 && s[0] == 'a' && s[1] == 's'
}

/// What the rest `s` of an expression makes of the running value: the value
/// itself where only whitespace is left; else the rest with the next
/// conversion or the next operator and operand folded into the value; or the
/// message for the first piece that is missing, which quotes the input from
/// the place where reading stopped.
pub open spec fn eval_rest(value: Duration, s: Seq<char>) -> Result<Duration, Seq<char>>
    decreases s.len(),
    via eval_rest_decreases
{
    let next = skip_white_space(s);
    if next.len() == 0 {
        Ok(value)
    } else if begins_conversion(next) {
        match conversion_at(s) {
            Err(_) => Err(conversion_message(s)),
            Ok((unit, rest)) => eval_rest(shown_in(value, unit), rest),
        }
    } else {
        match operator_at(s) {
            Err(_) => Err(operator_message(s)),
            Ok((op, after_operator)) => match time_value_at(after_operator) {
                Err(_) => Err(operand_message(after_operator)),
                Ok((rhs, rest)) => eval_rest(combine(value, op, rhs), rest),
            },
        }
    }
}

#[via_fn]
proof fn eval_rest_decreases(value: Duration, s: Seq<char>) {
    lemma_conversion_consumes(s);
    lemma_operator_consumes(s);
    if let Ok((_, after_operator)) = operator_at(s) {
        lemma_time_value_consumes(after_operator);
    }
}

/// The duration that the expression `s` stands for, or the message that says
/// where it stops being one.
pub open spec fn eval(s: Seq<char>) -> Result<Duration, Seq<char>> {
    match time_value_at(s) {
        Err(_) => Err(leading_value_message(s)),
        Ok((value, rest)) => eval_rest(value, rest),
    }
}

/// `head`, then `seen`, then a closing quote.
fn message(head: &str, seen: &str) -> (text: String)
    ensures
        text@ == head@ + seen@ + "'"@,
{
    let mut text = String::from_str(head);
    text.append(seen);
    text.append("'");
    text
}

/// Whether `s` begins with the small letters `as`.
fn starts_conversion(s: &str) -> (yes: bool)
    ensures
        yes == begins_conversion(s@),
{
    s.unicode_len() >= 2 && s.get_char(0) == 'a' && s.get_char(1) == 's'
}

/// Evaluates an expression: a time value, and after it any number of
/// conversions (`as` and a unit) and of operators with their operands, read
/// and applied from left to right. The result is shown in the unit of the
/// first value, or of the last conversion. Every input gets an answer: the
/// duration, or the message for the first piece that is missing.
pub fn calculate(input: &str) -> (result: Result<TimeValue, String>)
    ensures
        match result {
            Ok(value) => eval(input@) == Ok::<_, Seq<char>>(value@),
            Err(text) => eval(input@) == Err::<Duration, _>(text@),
        },
{
    let (mut rest_of_input, mut value) = match parse_time_value(input) {
        Ok(parsed) => parsed,
        Err(_) => {
            return Err(message("Expected '<number> <time_unit>' but saw '", input));
        },
    };
    loop
        invariant
            eval(input@) == eval_rest(value@, rest_of_input@),
        decreases rest_of_input@.len(),
    {
        let next = trim_start(rest_of_input);
        if next.is_empty() {
            return Ok(value);
        }
        if starts_conversion(next) {
            match parse_unit_conversion(rest_of_input) {
                Ok((rest, new_unit)) => {
                    rest_of_input = rest;
                    value.change_unit(new_unit);
                },
                Err(_) => {
                    return Err(
                        message("Expected 'as <time_unit>' next but saw '", rest_of_input),
                    );
                },
            }
        } else {
            let (after_operator, op) = match parse_binary_operator(rest_of_input) {
                Ok(parsed) => parsed,
                Err(_) => {
                    return Err(
                        message("Expected binary operator next but saw '", rest_of_input),
                    );
                },
            };
            match parse_time_value(after_operator) {
                Ok((rest, rhs)) => {
                    rest_of_input = rest;
                    value.modify(op, rhs);
                },
                Err(_) => {
                    return Err(message("Expected time value next but saw '", after_operator));
                },
            }
        }
    }
}

} // verus!
