//! The rules of the grammar. Each takes the input that is left and gives what
//! it read together with the input after it, or says what it missed.

use crate::operations::BinaryOperator;
use crate::text::{
    is_plain_word, lemma_number_consumes, lemma_skip_blanks_shorter, number_at, read_blanks,
    read_number, read_symbol, read_word, skip_blanks, symbol_at, word_at,
};
use crate::time::{duration_of, Duration, TimeUnit, TimeValue};
use vstd::prelude::*;

verus! {

/// What a rule looked for and did not find.
#[derive(Debug, PartialEq, Eq, Structural, Copy, Clone)]
pub enum ParseError {
    /// A whole number that fits 64 bits.
    Number,
    /// One of the spellings of a time unit.
    Unit,
    /// The word `as`.
    Keyword,
    /// `+` or `-`.
    Operator,
}

/// How many spellings of units the grammar knows.
pub const SPELLINGS: usize = 12;

/// How many spellings of units the grammar knows.
pub open spec fn spelling_count() -> int {
    SPELLINGS as int
}

/// The spellings of the units in the order in which they are tried. A spelling
/// that begins with another one stands before it, so that `s` does not take the
/// first letter of `seconds`.
pub open spec fn spelling(i: int) -> Seq<char> {
    if i == 0 {
        "nanoseconds"@
    } else if i == 1 {
        "nanos"@
    } else if i == 2 {
        "ns"@
    } else if i == 3 {
        "microseconds"@
    } else if i == 4 {
        "micros"@
    } else if i == 5 {
        "us"@
    } else if i == 6 {
        "milliseconds"@
    } else if i == 7 {
        "millis"@
    } else if i == 8 {
        "ms"@
    } else if i == 9 {
        "seconds"@
    } else if i == 10 {
        "sec"@
    } else {
        "s"@
    }
}

/// The unit that the spelling at `i` names.
pub open spec fn spelled_unit(i: int) -> TimeUnit {
    if i < 3 {
        TimeUnit::Nanoseconds
    } else if i < 6 {
        TimeUnit::Microseconds
    } else if i < 9 {
        TimeUnit::Milliseconds
    } else {
        TimeUnit::Seconds
    }
}

/// The unit of the first spelling from `i` on that `s` begins with, in any mix
/// of case, and what follows that spelling.
pub open spec fn unit_from(s: Seq<char>, i: int) -> Result<(TimeUnit, Seq<char>), ParseError>
    decreases spelling_count() - i,
{
    if i < 0 || i >= spelling_count() {
        Err(ParseError::Unit)
    } else {
        match word_at(s, spelling(i)) {
            Some(rest) => Ok((spelled_unit(i), rest)),
            None => unit_from(s, i + 1),
        }
    }
}

/// The time unit that `s` begins with, and what follows it.
pub open spec fn unit_at(s: Seq<char>) -> Result<(TimeUnit, Seq<char>), ParseError> {
    unit_from(s, 0)
}

/// The time value that `s` begins with, and what follows it: a number, spaces
/// or tabs if any, and a unit.
pub open spec fn time_value_at(s: Seq<char>) -> Result<(Duration, Seq<char>), ParseError> {
    match number_at(s) {
        None => Err(ParseError::Number),
        Some((count, after_number)) => match unit_at(skip_blanks(after_number)) {
            Err(e) => Err(e),
            Ok((unit, rest)) => Ok((duration_of(count, unit), rest)),
        },
    }
}

/// The unit that a conversion at the start of `s` asks for, and what follows
/// it: spaces or tabs if any, the word `as` in any mix of case, spaces or tabs
/// if any, and a unit.
pub open spec fn conversion_at(s: Seq<char>) -> Result<(TimeUnit, Seq<char>), ParseError> {
    match word_at(skip_blanks(s), "as"@) {
        None => Err(ParseError::Keyword),
        Some(after_word) => unit_at(skip_blanks(after_word)),
    }
}

/// The operator that `s` begins with, and what follows it: spaces or tabs if
/// any, `+` or `-`, and again spaces or tabs if any.
pub open spec fn operator_at(s: Seq<char>) -> Result<(BinaryOperator, Seq<char>), ParseError> {
    match symbol_at(skip_blanks(s), "+"@) {
        Some(after_symbol) => Ok((BinaryOperator::Plus, skip_blanks(after_symbol))),
        None => match symbol_at(skip_blanks(s), "-"@) {
            Some(after_symbol) => Ok((BinaryOperator::Minus, skip_blanks(after_symbol))),
            None => Err(ParseError::Operator),
        },
    }
}

/// The spellings, letter by letter.
pub proof fn lemma_spelling_letters()
    ensures
        spelling(0) == seq!['n', 'a', 'n', 'o', 's', 'e', 'c', 'o', 'n', 'd', 's'],
        spelling(1) == seq!['n', 'a', 'n', 'o', 's'],
        spelling(2) == seq!['n', 's'],
        spelling(3) == seq!['m', 'i', 'c', 'r', 'o', 's', 'e', 'c', 'o', 'n', 'd', 's'],
        spelling(4) == seq!['m', 'i', 'c', 'r', 'o', 's'],
        spelling(5) == seq!['u', 's'],
        spelling(6) == seq!['m', 'i', 'l', 'l', 'i', 's', 'e', 'c', 'o', 'n', 'd', 's'],
        spelling(7) == seq!['m', 'i', 'l', 'l', 'i', 's'],
        spelling(8) == seq!['m', 's'],
        spelling(9) == seq!['s', 'e', 'c', 'o', 'n', 'd', 's'],
        spelling(10) == seq!['s', 'e', 'c'],
        spelling(11) == seq!['s'],
{
    reveal_strlit("nanoseconds");
    reveal_strlit("nanos");
    reveal_strlit("ns");
    reveal_strlit("microseconds");
    reveal_strlit("micros");
    reveal_strlit("us");
    reveal_strlit("milliseconds");
    reveal_strlit("millis");
    reveal_strlit("ms");
    reveal_strlit("seconds");
    reveal_strlit("sec");
    reveal_strlit("s");
    assert(spelling(0) =~= seq!['n', 'a', 'n', 'o', 's', 'e', 'c', 'o', 'n', 'd', 's']);
    assert(spelling(1) =~= seq!['n', 'a', 'n', 'o', 's']);
    assert(spelling(2) =~= seq!['n', 's']);
    assert(spelling(3) =~= seq!['m', 'i', 'c', 'r', 'o', 's', 'e', 'c', 'o', 'n', 'd', 's']);
    assert(spelling(4) =~= seq!['m', 'i', 'c', 'r', 'o', 's']);
    assert(spelling(5) =~= seq!['u', 's']);
    assert(spelling(6) =~= seq!['m', 'i', 'l', 'l', 'i', 's', 'e', 'c', 'o', 'n', 'd', 's']);
    assert(spelling(7) =~= seq!['m', 'i', 'l', 'l', 'i', 's']);
    assert(spelling(8) =~= seq!['m', 's']);
    assert(spelling(9) =~= seq!['s', 'e', 'c', 'o', 'n', 'd', 's']);
    assert(spelling(10) =~= seq!['s', 'e', 'c']);
    assert(spelling(11) =~= seq!['s']);
}

/// The spelling at `i` and its unit.
fn spelling_entry(i: usize) -> (entry: (&'static str, TimeUnit))
    requires
        i < spelling_count(),
    ensures
        entry.0@ == spelling(i as int),
        entry.1 == spelled_unit(i as int),
        is_plain_word(entry.0@),
        entry.0@.len() > 0,
{
    proof {
        lemma_spelling_letters();
    }
    match i {
        0 => ("nanoseconds", TimeUnit::Nanoseconds),
        1 => ("nanos", TimeUnit::Nanoseconds),
        2 => ("ns", TimeUnit::Nanoseconds),
        3 => ("microseconds", TimeUnit::Microseconds),
        4 => ("micros", TimeUnit::Microseconds),
        5 => ("us", TimeUnit::Microseconds),
        6 => ("milliseconds", TimeUnit::Milliseconds),
        7 => ("millis", TimeUnit::Milliseconds),
        8 => ("ms", TimeUnit::Milliseconds),
        9 => ("seconds", TimeUnit::Seconds),
        10 => ("sec", TimeUnit::Seconds),
        _ => ("s", TimeUnit::Seconds),
    }
}

/// What follows a unit is shorter than the text that the unit was read from.
pub proof fn lemma_unit_consumes(s: Seq<char>, i: int)
    requires
        0 <= i,
    ensures
        unit_from(s, i) matches Ok((_, rest)) ==> rest.len() < s.len(),
    decreases spelling_count() - i,
{
    lemma_spelling_letters();
    if i < spelling_count() {
        lemma_unit_consumes(s, i + 1);
    }
}

/// What follows a conversion is shorter than the text it was read from.
pub proof fn lemma_conversion_consumes(s: Seq<char>)
    ensures
        conversion_at(s) matches Ok((_, rest)) ==> rest.len() < s.len(),
{
    reveal_strlit("as");
    lemma_skip_blanks_shorter(s);
    let t = skip_blanks(s);
    if let Some(after_word) = word_at(t, "as"@) {
        lemma_skip_blanks_shorter(after_word);
        lemma_unit_consumes(skip_blanks(after_word), 0);
    }
}

/// What follows an operator is shorter than the text it was read from.
pub proof fn lemma_operator_consumes(s: Seq<char>)
    ensures
        operator_at(s) matches Ok((_, rest)) ==> rest.len() < s.len(),
{
    reveal_strlit("+");
    reveal_strlit("-");
    lemma_skip_blanks_shorter(s);
    let t = skip_blanks(s);
    if t.len() > 0 {
        lemma_skip_blanks_shorter(t.skip(1));
    }
    assert("+"@.len() == 1 && "-"@.len() == 1);
}

/// What follows a time value is shorter than the text it was read from.
pub proof fn lemma_time_value_consumes(s: Seq<char>)
    ensures
        time_value_at(s) matches Ok((_, rest)) ==> rest.len() < s.len(),
{
    lemma_number_consumes(s);
    if let Some((_, after_number)) = number_at(s) {
        lemma_skip_blanks_shorter(after_number);
        lemma_unit_consumes(skip_blanks(after_number), 0);
    }
}

/// Reads a time unit at the start of `input`, under any of its spellings and
/// in any mix of case, the longest spelling that fits.
pub fn parse_time_unit<'a>(input: &'a str) -> (parsed: Result<(&'a str, TimeUnit), ParseError>)
    ensures
        match parsed {
            Ok((rest, unit)) => unit_at(input@) == Ok::<_, ParseError>((unit, rest@)),
            Err(e) => unit_at(input@) == Err::<(TimeUnit, Seq<char>), _>(e),
        },
        parsed matches Ok((rest, _)) ==> rest@.len() < input@.len(),
{
    let mut i: usize = 0;
    while i < SPELLINGS
        invariant
            i <= SPELLINGS,
            unit_at(input@) == unit_from(input@, i as int),
        decreases SPELLINGS - i,
    {
        let (word, unit) = spelling_entry(i);
        match read_word(input, word) {
            Some(rest) => {
                proof {
                    lemma_unit_consumes(input@, i as int);
                }
                return Ok((rest, unit));
            },
            None => {},
        }
        i += 1;
    }
    Err(ParseError::Unit)
}

/// Reads a time value at the start of `input`: a whole number with an optional
/// sign, then a unit, with or without spaces and tabs between the two.
pub fn parse_time_value<'a>(input: &'a str) -> (parsed: Result<(&'a str, TimeValue), ParseError>)
    ensures
        match parsed {
            Ok((rest, value)) => time_value_at(input@) == Ok::<_, ParseError>((value@, rest@)),
            Err(e) => time_value_at(input@) == Err::<(Duration, Seq<char>), _>(e),
        },
        parsed matches Ok((rest, _)) ==> rest@.len() < input@.len(),
{
    let (after_number, count) = match read_number(input) {
        Some(read) => read,
        None => {
            return Err(ParseError::Number);
        },
    };
    let before_unit = read_blanks(after_number);
    proof {
        lemma_time_value_consumes(input@);
    }
    match parse_time_unit(before_unit) {
        Ok((rest, unit)) => Ok((rest, TimeValue::new(count, unit))),
        Err(e) => Err(e),
    }
}

/// Reads a conversion at the start of `input`: the word `as` and a unit, with
/// or without spaces and tabs before each.
pub fn parse_unit_conversion<'a>(input: &'a str) -> (parsed: Result<
    (&'a str, TimeUnit),
    ParseError,
>)
    ensures
        match parsed {
            Ok((rest, unit)) => conversion_at(input@) == Ok::<_, ParseError>((unit, rest@)),
            Err(e) => conversion_at(input@) == Err::<(TimeUnit, Seq<char>), _>(e),
        },
        parsed matches Ok((rest, _)) ==> rest@.len() < input@.len(),
{
    let before_word = read_blanks(input);
    proof {
        reveal_strlit("as");
        lemma_conversion_consumes(input@);
    }
    let after_word = match read_word(before_word, "as") {
        Some(rest) => rest,
        None => {
            return Err(ParseError::Keyword);
        },
    };
    let before_unit = read_blanks(after_word);
    parse_time_unit(before_unit)
}

/// Reads an operator at the start of `input`: `+` or `-`, with or without
/// spaces and tabs around it.
pub fn parse_binary_operator<'a>(input: &'a str) -> (parsed: Result<
    (&'a str, BinaryOperator),
    ParseError,
>)
    ensures
        match parsed {
            Ok((rest, op)) => operator_at(input@) == Ok::<_, ParseError>((op, rest@)),
            Err(e) => operator_at(input@) == Err::<(BinaryOperator, Seq<char>), _>(e),
        },
        parsed matches Ok((rest, _)) ==> rest@.len() < input@.len(),
{
    let before_symbol = read_blanks(input);
    proof {
        lemma_operator_consumes(input@);
    }
    let (after_symbol, op) = match read_symbol(before_symbol, "+") {
        Some(rest) => (rest, BinaryOperator::Plus),
        None => match read_symbol(before_symbol, "-") {
            Some(rest) => (rest, BinaryOperator::Minus),
            None => {
                return Err(ParseError::Operator);
            },
        },
    };
    let rest = read_blanks(after_symbol);
    Ok((rest, op))
}

} // verus!
